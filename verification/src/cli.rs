//! The command line, and the decisions the program makes around `gh`'s
//! answers: error texts, hints, and what a finished mutation reports.

use crate::gh;
use crate::model::{Issue, LoadingAnimation, PendingOperation};
use crate::text;
use crate::text::{append_str, chars_of, eq_str, has_suffix, owned, slice_of, string_of, trimmed};
use vstd::prelude::*;

verus! {

/// The preview length when none is given.
pub const DEFAULT_PREVIEW_MS: u128 = 5000;

#[derive(Debug, PartialEq)]
pub enum StartupCommand {
    Launch { repo: Option<String> },
    Version,
    Help,
    Doctor,
    Capture,
    CaptureFull,
    PreviewLoading { animation: Option<LoadingAnimation>, duration_ms: u128 },
}

// ---------------------------------------------------------------------------
// Preview duration
// ---------------------------------------------------------------------------

/// The milliseconds a preview duration names: `<n>ms`, `<n>s`, or a bare
/// number of seconds, surrounding whitespace ignored.
pub open spec fn preview_ms(value: Seq<char>) -> Option<nat> {
    let t = text::trim(value);
    if text::ends_with(t, "ms"@) {
        text::parse_uint(t.subrange(0, t.len() - 2), u64::MAX as nat)
    } else if text::ends_with(t, "s"@) {
        match text::parse_uint(t.subrange(0, t.len() - 1), u64::MAX as nat) {
            Some(n) => Some(n * 1000),
            None => None,
        }
    } else {
        match text::parse_uint(t, u64::MAX as nat) {
            Some(n) => Some(n * 1000),
            None => None,
        }
    }
}

pub open spec fn invalid_duration_message(value: Seq<char>) -> Seq<char> {
    "invalid preview duration '"@ + value + "'"@
}

pub fn parse_preview_duration(value: &str) -> (r: Result<u128, String>)
    ensures
        match preview_ms(value@) {
            None => r is Err && r->Err_0@ == invalid_duration_message(value@),
            Some(ms) => if ms == 0 {
                r is Err && r->Err_0@ == "preview duration must be greater than zero"@
            } else {
                r == Ok::<u128, String>(ms as u128)
            },
        },
{
    proof {
        reveal_strlit("ms");
        reveal_strlit("s");
    }
    let t = trimmed(&chars_of(value));
    let ms_suffix = chars_of("ms");
    let s_suffix = chars_of("s");
    let parsed: Option<u128> = if has_suffix(&t, &ms_suffix) {
        match text::parse_unsigned(&slice_of(&t, 0, t.len() - 2), 0xffff_ffff_ffff_ffff) {
            Some(n) => Some(n as u128),
            None => None,
        }
    } else if has_suffix(&t, &s_suffix) {
        match text::parse_unsigned(&slice_of(&t, 0, t.len() - 1), 0xffff_ffff_ffff_ffff) {
            Some(n) => Some(n as u128 * 1000),
            None => None,
        }
    } else {
        match text::parse_unsigned(&t, 0xffff_ffff_ffff_ffff) {
            Some(n) => Some(n as u128 * 1000),
            None => None,
        }
    };
    proof {
        reveal_strlit("ms");
        reveal_strlit("s");
    }
    match parsed {
        None => {
            let mut v = chars_of("invalid preview duration '");
            append_str(&mut v, value);
            append_str(&mut v, "'");
            Err(string_of(&v))
        },
        Some(ms) => if ms == 0 {
            Err(owned("preview duration must be greater than zero"))
        } else {
            Ok(ms)
        },
    }
}

// ---------------------------------------------------------------------------
// The command line
// ---------------------------------------------------------------------------

pub open spec fn unknown_animation_message(name: Seq<char>) -> Seq<char> {
    "unknown loading animation '"@ + name + "'"@
}

pub open spec fn animation_of(name: Seq<char>) -> Option<LoadingAnimation> {
    crate::model::animation_named(text::lower(text::trim(name)))
}

/// `r` is the preview command with `animation` and `ms` milliseconds.
pub open spec fn is_preview(
    r: Result<StartupCommand, String>,
    animation: Option<LoadingAnimation>,
    ms: nat,
) -> bool {
    r matches Ok(StartupCommand::PreviewLoading { animation: a, duration_ms: d }) && a == animation
        && d == ms
}

/// `r` is what the duration `value` gives when the animation is `animation`.
pub open spec fn preview_with(
    r: Result<StartupCommand, String>,
    animation: Option<LoadingAnimation>,
    value: Seq<char>,
) -> bool {
    match preview_ms(value) {
        None => r is Err && r->Err_0@ == invalid_duration_message(value),
        Some(ms) => if ms == 0 {
            r is Err && r->Err_0@ == "preview duration must be greater than zero"@
        } else {
            is_preview(r, animation, ms)
        },
    }
}

/// `--preview-loading [ANIMATION] [DURATION]`; a single argument is an
/// animation when it names one, a duration otherwise.
pub fn parse_loading_preview(args: &[String]) -> (r: Result<StartupCommand, String>)
    ensures
        args@.len() == 0 ==> is_preview(r, None, DEFAULT_PREVIEW_MS as nat),
        args@.len() == 1 ==> match animation_of(args@[0]@) {
            Some(a) => is_preview(r, Some(a), DEFAULT_PREVIEW_MS as nat),
            None => preview_with(r, None, args@[0]@),
        },
        args@.len() == 2 ==> match animation_of(args@[0]@) {
            Some(a) => preview_with(r, Some(a), args@[1]@),
            None => r is Err && r->Err_0@ == unknown_animation_message(args@[0]@),
        },
        args@.len() > 2 ==> r is Err && r->Err_0@
            == "--preview-loading accepts at most ANIMATION and DURATION"@,
{
    if args.len() == 0 {
        return Ok(
            StartupCommand::PreviewLoading { animation: None, duration_ms: DEFAULT_PREVIEW_MS },
        );
    }
    if args.len() == 1 {
        if let Some(animation) = LoadingAnimation::parse(args[0].as_str()) {
            return Ok(
                StartupCommand::PreviewLoading {
                    animation: Some(animation),
                    duration_ms: DEFAULT_PREVIEW_MS,
                },
            );
        }
        return match parse_preview_duration(args[0].as_str()) {
            Ok(ms) => Ok(StartupCommand::PreviewLoading { animation: None, duration_ms: ms }),
            Err(e) => Err(e),
        };
    }
    if args.len() == 2 {
        let animation = match LoadingAnimation::parse(args[0].as_str()) {
            Some(a) => a,
            None => {
                let mut v = chars_of("unknown loading animation '");
                append_str(&mut v, args[0].as_str());
                append_str(&mut v, "'");
                return Err(string_of(&v));
            },
        };
        return match parse_preview_duration(args[1].as_str()) {
            Ok(ms) => Ok(
                StartupCommand::PreviewLoading { animation: Some(animation), duration_ms: ms },
            ),
            Err(e) => Err(e),
        };
    }
    Err(owned("--preview-loading accepts at most ANIMATION and DURATION"))
}

pub open spec fn unknown_argument_message(arg: Seq<char>) -> Seq<char> {
    "unknown argument '"@ + arg + "'"@
}

pub open spec fn not_a_repo_message(arg: Seq<char>) -> Seq<char> {
    "'"@ + arg + "' doesn't look like a GitHub repo (expected OWNER/REPO or a github.com URL)"@
}

/// `r` launches on `repo` (the repo spec `arg` names), or fails with `msg`.
pub open spec fn launch_or(r: Result<StartupCommand, String>, arg: Seq<char>, msg: Seq<char>) -> bool {
    match gh::repo_spec(arg) {
        Some(repo) => r matches Ok(StartupCommand::Launch { repo: Some(s) }) && s@ == repo,
        None => r is Err && r->Err_0@ == msg,
    }
}

/// Reads the command line (without the program name).
pub fn parse_command(args: Vec<String>) -> (r: Result<StartupCommand, String>)
    ensures
        ({
            let a = text::strs_of(args@);
            if a.len() == 0 {
                r matches Ok(StartupCommand::Launch { repo: None })
            } else if a.len() == 1 && (a[0] == "-V"@ || a[0] == "--version"@) {
                r == Ok::<StartupCommand, String>(StartupCommand::Version)
            } else if a.len() == 1 && (a[0] == "-h"@ || a[0] == "--help"@) {
                r == Ok::<StartupCommand, String>(StartupCommand::Help)
            } else if a.len() == 1 && a[0] == "--doctor"@ {
                r == Ok::<StartupCommand, String>(StartupCommand::Doctor)
            } else if a.len() == 1 && a[0] == "--capture"@ {
                r == Ok::<StartupCommand, String>(StartupCommand::Capture)
            } else if a.len() == 1 && a[0] == "--capture-full"@ {
                r == Ok::<StartupCommand, String>(StartupCommand::CaptureFull)
            } else if a[0] == "--preview-loading"@ {
                true
            } else if a.len() == 2 && a[0] == "--repo"@ {
                launch_or(r, a[1], not_a_repo_message(a[1]))
            } else if a.len() == 1 && a[0] == "--repo"@ {
                r is Err && r->Err_0@ == "--repo requires an OWNER/REPO argument"@
            } else if a.len() == 1 && !text::starts_with(a[0], "-"@) {
                launch_or(r, a[0], unknown_argument_message(a[0]))
            } else {
                r is Err && r->Err_0@ == unknown_argument_message(a[0])
            }
        }),
        text::strs_of(args@).len() >= 1 && text::strs_of(args@)[0] == "--preview-loading"@ ==> {
            let rest = args@.subrange(1, args@.len() as int);
            &&& rest.len() == 0 ==> is_preview(r, None, DEFAULT_PREVIEW_MS as nat)
            &&& rest.len() == 1 ==> match animation_of(rest[0]@) {
                Some(a) => is_preview(r, Some(a), DEFAULT_PREVIEW_MS as nat),
                None => preview_with(r, None, rest[0]@),
            }
            &&& rest.len() == 2 ==> match animation_of(rest[0]@) {
                Some(a) => preview_with(r, Some(a), rest[1]@),
                None => r is Err && r->Err_0@ == unknown_animation_message(rest[0]@),
            }
            &&& rest.len() > 2 ==> r is Err && r->Err_0@
                == "--preview-loading accepts at most ANIMATION and DURATION"@
        },
{
    let ghost a = text::strs_of(args@);
    proof {
        reveal_strlit("--preview-loading");
        reveal_strlit("-V");
        reveal_strlit("--version");
        reveal_strlit("-h");
        reveal_strlit("--help");
        reveal_strlit("--doctor");
        reveal_strlit("--capture");
        reveal_strlit("--capture-full");
        reveal_strlit("--repo");
    }
    if args.len() == 0 {
        return Ok(StartupCommand::Launch { repo: None });
    }
    assert(a[0] == args@[0]@);
    let first = chars_of(args[0].as_str());
    proof {
        reveal_strlit("-");
        assert(first@ == a[0]);
        assert("-"@ =~= seq!['-']);
        if first@.len() > 0 {
            assert(first@.subrange(0, 1) =~= seq![first@[0]]);
            if first@[0] == '-' {
                assert(first@.subrange(0, 1) =~= "-"@);
            } else {
                assert(first@.subrange(0, 1)[0] != "-"@[0]);
            }
        }
        assert(text::starts_with(a[0], "-"@) == (first@.len() > 0 && first@[0] == '-'));
    }
    if args.len() == 1 {
        if eq_str(&first, "-V") || eq_str(&first, "--version") {
            return Ok(StartupCommand::Version);
        }
        if eq_str(&first, "-h") || eq_str(&first, "--help") {
            return Ok(StartupCommand::Help);
        }
        if eq_str(&first, "--doctor") {
            return Ok(StartupCommand::Doctor);
        }
        if eq_str(&first, "--capture") {
            return Ok(StartupCommand::Capture);
        }
        if eq_str(&first, "--capture-full") {
            return Ok(StartupCommand::CaptureFull);
        }
    }
    if eq_str(&first, "--preview-loading") {
        let rest = args.as_slice().split_at(1).1;
        assert(rest@ =~= args@.subrange(1, args@.len() as int));
        return parse_loading_preview(rest);
    }
    if args.len() == 2 && eq_str(&first, "--repo") {
        assert(a[1] == args@[1]@);
        return match gh::parse_repo_spec(args[1].as_str()) {
            Some(repo) => Ok(StartupCommand::Launch { repo: Some(repo) }),
            None => {
                let mut v = chars_of("'");
                append_str(&mut v, args[1].as_str());
                append_str(
                    &mut v,
                    "' doesn't look like a GitHub repo (expected OWNER/REPO or a github.com URL)",
                );
                Err(string_of(&v))
            },
        };
    }
    if args.len() == 1 && eq_str(&first, "--repo") {
        return Err(owned("--repo requires an OWNER/REPO argument"));
    }
    let mut unknown = chars_of("unknown argument '");
    append_str(&mut unknown, args[0].as_str());
    append_str(&mut unknown, "'");
    if args.len() == 1 && !(first.len() > 0 && first[0] == '-') {
        proof {
            reveal_strlit("-");
        }
        return match gh::parse_repo_spec(args[0].as_str()) {
            Some(repo) => Ok(StartupCommand::Launch { repo: Some(repo) }),
            None => Err(string_of(&unknown)),
        };
    }
    proof {
        reveal_strlit("-");
    }
    Err(string_of(&unknown))
}

// ---------------------------------------------------------------------------
// gh errors
// ---------------------------------------------------------------------------

/// The phrases that mark an authentication or access failure.
pub open spec fn auth_phrases() -> Seq<Seq<char>> {
    seq![
        "resource not accessible"@,
        "could not resolve"@,
        "not found"@,
        "forbidden"@,
        "permission"@,
        "authentication"@,
        "authorization"@,
        "http 403"@,
        "http 404"@,
    ]
}

/// The message, ASCII-lowercased, holds one of the phrases.
pub open spec fn auth_shaped(message: Seq<char>) -> bool {
    exists|i: int| 0 <= i < 9 && text::contains(text::lower(message), #[trigger] auth_phrases()[i])
}

pub fn looks_like_auth_or_access_error(message: &str) -> (b: bool)
    ensures
        b == auth_shaped(message@),
{
    let lower = text::lowered(&chars_of(message));
    let phrases = [
        "resource not accessible",
        "could not resolve",
        "not found",
        "forbidden",
        "permission",
        "authentication",
        "authorization",
        "http 403",
        "http 404",
    ];
    let mut i: usize = 0;
    while i < 9
        invariant
            i <= 9,
            lower@ == text::lower(message@),
            forall|k: int| 0 <= k < 9 ==> (#[trigger] phrases@[k])@ == auth_phrases()[k],
            forall|k: int| 0 <= k < i ==> !text::contains(lower@, #[trigger] auth_phrases()[k]),
        decreases 9 - i,
    {
        if text::contains_seq(&lower, &chars_of(phrases[i])) {
            return true;
        }
        i = i + 1;
    }
    false
}

pub open spec fn auth_hint() -> Seq<char> {
    " (and `gh auth status` failed: run `gh auth login`)"@
}

/// The message, with a hint to log in when `gh auth status` failed and the
/// message looks like an authentication or access failure.
pub fn refine_auth_error(message: String, auth_status_ok: bool) -> (r: String)
    ensures
        r@ == if auth_status_ok || !auth_shaped(message@) {
            message@
        } else {
            message@ + auth_hint()
        },
{
    if auth_status_ok || !looks_like_auth_or_access_error(message.as_str()) {
        message
    } else {
        let mut m = message;
        text::extend_string(&mut m, " (and `gh auth status` failed: run `gh auth login`)");
        m
    }
}

pub open spec fn token_hint() -> Seq<char> {
    " (GITHUB_TOKEN is set; try env -u GITHUB_TOKEN boomerang)"@
}

/// The status line for a failed `gh` call whose error reads `error`.
pub open spec fn gh_error_text(error: Seq<char>, github_token_set: bool) -> Seq<char> {
    if github_token_set && auth_shaped("gh error: "@ + error) {
        "gh error: "@ + error + token_hint()
    } else {
        "gh error: "@ + error
    }
}

/// The status line for a failed `gh` call whose error reads `error`, with a
/// hint about `GITHUB_TOKEN` when it is set and the error looks like an
/// access problem.
pub fn gh_error_status_with_token_hint(error: &str, github_token_set: bool) -> (r: String)
    ensures
        r@ == gh_error_text(error@, github_token_set),
{
    let mut v = chars_of("gh error: ");
    append_str(&mut v, error);
    let message = string_of(&v);
    if github_token_set && looks_like_auth_or_access_error(message.as_str()) {
        let mut m = message;
        text::extend_string(&mut m, " (GITHUB_TOKEN is set; try env -u GITHUB_TOKEN boomerang)");
        m
    } else {
        message
    }
}

pub open spec fn gh_missing(message: Seq<char>) -> bool {
    text::contains(message, "CLI not found on PATH"@)
}

/// Whether diagnosing this initial-load failure asks `gh auth status`.
pub fn needs_auth_probe(message: &str) -> (b: bool)
    ensures
        b == (!gh_missing(message@) && auth_shaped(message@)),
{
    let m = chars_of(message);
    !text::contains_seq(&m, &chars_of("CLI not found on PATH")) && looks_like_auth_or_access_error(
        message,
    )
}

/// The initial-load failure as reported: a missing `gh` as is, an
/// access-shaped failure with the login hint when `gh auth status` failed
/// (`auth_status_ok` is that probe's answer), anything else as is.
pub fn diagnose_initial_load_error(message: String, auth_status_ok: bool) -> (r: String)
    ensures
        r@ == if needs_auth_probe_spec(message@) && !auth_status_ok {
            message@ + auth_hint()
        } else {
            message@
        },
{
    if !needs_auth_probe(message.as_str()) {
        return message;
    }
    refine_auth_error(message, auth_status_ok)
}

pub open spec fn needs_auth_probe_spec(message: Seq<char>) -> bool {
    !gh_missing(message) && auth_shaped(message)
}

// ---------------------------------------------------------------------------
// Results of background work
// ---------------------------------------------------------------------------

/// The open issues followed by the closed ones.
pub fn merge_issue_lists(open: Vec<Issue>, closed: Vec<Issue>) -> (r: Vec<Issue>)
    ensures
        r@ == open@ + closed@,
{
    let mut issues = open;
    let mut rest = closed;
    issues.append(&mut rest);
    issues
}

/// Whether `op` is a change to an issue (a reload is not).
pub open spec fn is_change(op: PendingOperation) -> bool {
    !(op is RefreshList)
}

/// The verb phrase a finished change reports; a reload reports its own.
pub open spec fn success_action(op: PendingOperation) -> Seq<char> {
    match op {
        PendingOperation::CreateIssue => "created issue"@,
        PendingOperation::EditIssue => "updated issue"@,
        PendingOperation::CloseIssue => "closed issue"@,
        PendingOperation::RefreshList => Seq::empty(),
    }
}

/// The verb phrase a finished change reports.
pub fn success_status_action(operation: PendingOperation) -> (r: &'static str)
    requires
        is_change(operation),
    ensures
        r@ == success_action(operation),
{
    match operation {
        PendingOperation::CreateIssue => "created issue",
        PendingOperation::EditIssue => "updated issue",
        PendingOperation::CloseIssue => "closed issue",
        PendingOperation::RefreshList => "",
    }
}

#[derive(Debug, Clone)]
pub struct CreateRequest {
    pub title: String,
    pub body: String,
    pub labels: Vec<String>,
}

#[derive(Debug, Clone)]
pub struct EditRequest {
    pub number: u32,
    pub title: String,
    pub body: String,
    pub add_labels: Vec<String>,
    pub remove_labels: Vec<String>,
}

/// A change to send to GitHub.
#[derive(Debug, Clone)]
pub enum MutationRequest {
    Create(CreateRequest),
    Edit(EditRequest),
    Close(u32),
}

impl MutationRequest {
    pub open spec fn operation_spec(&self) -> PendingOperation {
        match self {
            MutationRequest::Create(_) => PendingOperation::CreateIssue,
            MutationRequest::Edit(_) => PendingOperation::EditIssue,
            MutationRequest::Close(_) => PendingOperation::CloseIssue,
        }
    }

    /// The issue to select and highlight once the change is done: the
    /// created issue (`created`, when its number was read back), the edited
    /// one, none after a close.
    pub fn target_issue(&self, created: Option<u32>) -> (r: Option<u32>)
        ensures
            r == match self {
                MutationRequest::Create(_) => created,
                MutationRequest::Edit(e) => Some(e.number),
                MutationRequest::Close(_) => None,
            },
    {
        match self {
            MutationRequest::Create(_) => created,
            MutationRequest::Edit(e) => Some(e.number),
            MutationRequest::Close(_) => None,
        }
    }

    pub fn operation(&self) -> (r: PendingOperation)
        ensures
            r == self.operation_spec(),
    {
        match self {
            MutationRequest::Create(_) => PendingOperation::CreateIssue,
            MutationRequest::Edit(_) => PendingOperation::EditIssue,
            MutationRequest::Close(_) => PendingOperation::CloseIssue,
        }
    }
}

} // verus!
