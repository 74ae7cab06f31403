//! Everything about talking to the `gh` CLI that is not the process itself:
//! the argument lists, the repository target, and the reading of its output.

use crate::model::{Issue, IssueState, Label};
use crate::text;
use crate::text::{
    after_last, append_chars, append_str, chars_of, decimal_string, eq_str, extend_string, find,
    has_prefix, has_suffix, join_chars, lowered, owned, parse_unsigned, slice_of, string_of,
    strip_trailing_char, trimmed,
};
use std::sync::{Arc, Mutex};
use vstd::prelude::*;

verus! {

#[derive(Debug, Clone, Copy, PartialEq, Eq, Structural)]
pub enum StateFilter {
    Open,
    Triage,
    Closed,
    All,
}

impl StateFilter {
    /// The filter that follows `self` in the Open → Triage → Closed → All cycle.
    pub open spec fn next(self) -> StateFilter {
        match self {
            StateFilter::Open => StateFilter::Triage,
            StateFilter::Triage => StateFilter::Closed,
            StateFilter::Closed => StateFilter::All,
            StateFilter::All => StateFilter::Open,
        }
    }

    /// The filter that the list's filter key moves to: Open → Closed → All →
    /// Open. Triage is left out of that round and moves on to Closed.
    pub open spec fn next_visible(self) -> StateFilter {
        match self {
            StateFilter::Open => StateFilter::Closed,
            StateFilter::Triage => StateFilter::Closed,
            StateFilter::Closed => StateFilter::All,
            StateFilter::All => StateFilter::Open,
        }
    }

    /// The value handed to `gh issue list --state`; Triage lists open issues.
    pub open spec fn gh_arg(self) -> Seq<char> {
        match self {
            StateFilter::Open => "open"@,
            StateFilter::Closed => "closed"@,
            StateFilter::All => "all"@,
            StateFilter::Triage => "open"@,
        }
    }

    pub fn cycle(self) -> (r: Self)
        ensures
            r == self.next(),
    {
        match self {
            StateFilter::Open => StateFilter::Triage,
            StateFilter::Triage => StateFilter::Closed,
            StateFilter::Closed => StateFilter::All,
            StateFilter::All => StateFilter::Open,
        }
    }

    pub fn as_gh_arg(self) -> (r: &'static str)
        ensures
            r@ == self.gh_arg(),
    {
        match self {
            StateFilter::Open => "open",
            StateFilter::Closed => "closed",
            StateFilter::All => "all",
            StateFilter::Triage => "open",
        }
    }
}

/// Cycling the state filter four times comes back to where it started, and
/// every filter is reached on the way.
pub proof fn lemma_state_filter_cycle(f: StateFilter)
    ensures
        f.next().next().next().next() == f,
        f.next() != f,
        f.next().next() != f,
        f.next().next().next() != f,
{
}

/// The issue list asks `gh` for the issues in the filter's state: Open and
/// Triage ask for the state that reads back as open, Closed for the one that
/// reads back as closed, and All for every state (`all`, no single state).
pub proof fn lemma_list_asks_for_the_filters_state(f: StateFilter)
    ensures
        list_args_spec(f).len() == 8,
        list_args_spec(f)[2] == "--state"@,
        state_of(list_args_spec(f)[3]) == match f {
            StateFilter::Open => Some(IssueState::Open),
            StateFilter::Triage => Some(IssueState::Open),
            StateFilter::Closed => Some(IssueState::Closed),
            StateFilter::All => None,
        },
        f is All ==> list_args_spec(f)[3] == "all"@,
{
    reveal_strlit("open");
    reveal_strlit("closed");
    reveal_strlit("all");
    assert(text::lower("open"@) =~= "open"@);
    assert(text::lower("closed"@) =~= "closed"@);
    assert(text::lower("all"@) =~= "all"@);
    assert("all"@ != "open"@ && "all"@ != "closed"@) by {
        assert("all"@.len() != "open"@.len());
        assert("all"@[0] != "closed"@[0]);
    }
}

/// The filter key goes open → closed → all → open, never lands on Triage,
/// and leaves Triage for Closed.
pub proof fn lemma_state_filter_visible_round(f: StateFilter)
    ensures
        f != StateFilter::Triage ==> f.next_visible().next_visible().next_visible() == f,
        f.next_visible() != f,
        f.next_visible() != StateFilter::Triage,
        StateFilter::Triage.next_visible() == StateFilter::Closed,
        StateFilter::Open.next_visible() == StateFilter::Closed,
        StateFilter::Closed.next_visible() == StateFilter::All,
        StateFilter::All.next_visible() == StateFilter::Open,
{
}

// ---------------------------------------------------------------------------
// Argument lists
// ---------------------------------------------------------------------------

pub open spec fn list_args_spec(state: StateFilter) -> Seq<Seq<char>> {
    seq![
        "issue"@,
        "list"@,
        "--state"@,
        state.gh_arg(),
        "--json"@,
        "number,title,body,labels,state,url,createdAt"@,
        "--limit"@,
        "500"@,
    ]
}

pub open spec fn labels_args_spec() -> Seq<Seq<char>> {
    seq!["label"@, "list"@, "--json"@, "name,color"@, "--limit"@, "200"@]
}

pub open spec fn repo_name_args_spec() -> Seq<Seq<char>> {
    seq!["repo"@, "view"@, "--json"@, "nameWithOwner"@, "--jq"@, ".nameWithOwner"@]
}

/// `flag v` for every value `v`, in order.
pub open spec fn flag_pairs(flag: Seq<char>, values: Seq<Seq<char>>) -> Seq<Seq<char>>
    decreases values.len(),
{
    if values.len() == 0 {
        seq![]
    } else {
        flag_pairs(flag, values.drop_last()) + seq![flag, values.last()]
    }
}

pub open spec fn create_args_spec(title: Seq<char>, body: Seq<char>, labels: Seq<Seq<char>>) -> Seq<
    Seq<char>,
> {
    seq!["issue"@, "create"@, "--title"@, title, "--body"@, body] + flag_pairs("--label"@, labels)
}

pub open spec fn edit_args_spec(
    number: u32,
    title: Seq<char>,
    body: Seq<char>,
    add: Seq<Seq<char>>,
    remove: Seq<Seq<char>>,
) -> Seq<Seq<char>> {
    seq!["issue"@, "edit"@, text::decimal(number as nat), "--title"@, title, "--body"@, body]
        + flag_pairs("--add-label"@, add) + flag_pairs("--remove-label"@, remove)
}

pub open spec fn close_args_spec(number: u32) -> Seq<Seq<char>> {
    seq!["issue"@, "close"@, text::decimal(number as nat)]
}

pub fn list_args(state: StateFilter) -> (r: Vec<String>)
    ensures
        text::strs_of(r@) == list_args_spec(state),
{
    let r = vec![
        owned("issue"),
        owned("list"),
        owned("--state"),
        owned(state.as_gh_arg()),
        owned("--json"),
        owned("number,title,body,labels,state,url,createdAt"),
        owned("--limit"),
        owned("500"),
    ];
    assert(text::strs_of(r@) =~= list_args_spec(state));
    r
}

pub fn labels_args() -> (r: Vec<String>)
    ensures
        text::strs_of(r@) == labels_args_spec(),
{
    let r = vec![
        owned("label"),
        owned("list"),
        owned("--json"),
        owned("name,color"),
        owned("--limit"),
        owned("200"),
    ];
    assert(text::strs_of(r@) =~= labels_args_spec());
    r
}

pub fn repo_name_args() -> (r: Vec<String>)
    ensures
        text::strs_of(r@) == repo_name_args_spec(),
{
    let r = vec![
        owned("repo"),
        owned("view"),
        owned("--json"),
        owned("nameWithOwner"),
        owned("--jq"),
        owned(".nameWithOwner"),
    ];
    assert(text::strs_of(r@) =~= repo_name_args_spec());
    r
}

/// Appends `flag v` for every `v` in `values`.
fn push_flag_pairs(args: &mut Vec<String>, flag: &str, values: &[String])
    ensures
        text::strs_of(final(args)@) == text::strs_of(old(args)@) + flag_pairs(flag@, text::strs_of(values@)),
{
    let mut i: usize = 0;
    while i < values.len()
        invariant
            i <= values.len(),
            text::strs_of(args@) == text::strs_of(old(args)@) + flag_pairs(flag@, text::strs_of(values@.take(i as int))),
        decreases values.len() - i,
    {
        let ghost before = text::strs_of(args@);
        args.push(owned(flag));
        args.push(values[i].clone());
        let ghost taken = text::strs_of(values@.take(i + 1));
        assert(taken.drop_last() =~= text::strs_of(values@.take(i as int)));
        assert(text::strs_of(args@) =~= before + seq![flag@, values@[i as int]@]);
        i = i + 1;
    }
    assert(values@.take(values.len() as int) =~= values@);
}

pub fn create_args(title: &str, body: &str, labels: &[String]) -> (r: Vec<String>)
    ensures
        text::strs_of(r@) == create_args_spec(title@, body@, text::strs_of(labels@)),
{
    let mut args = vec![
        owned("issue"),
        owned("create"),
        owned("--title"),
        owned(title),
        owned("--body"),
        owned(body),
    ];
    push_flag_pairs(&mut args, "--label", labels);
    args
}

pub fn edit_args(
    number: u32,
    title: &str,
    body: &str,
    add_labels: &[String],
    remove_labels: &[String],
) -> (r: Vec<String>)
    ensures
        text::strs_of(r@) == edit_args_spec(
            number,
            title@,
            body@,
            text::strs_of(add_labels@),
            text::strs_of(remove_labels@),
        ),
{
    let mut args = vec![
        owned("issue"),
        owned("edit"),
        decimal_string(number as u128),
        owned("--title"),
        owned(title),
        owned("--body"),
        owned(body),
    ];
    push_flag_pairs(&mut args, "--add-label", add_labels);
    push_flag_pairs(&mut args, "--remove-label", remove_labels);
    args
}

pub fn close_args(number: u32) -> (r: Vec<String>)
    ensures
        text::strs_of(r@) == close_args_spec(number),
{
    let r = vec![owned("issue"), owned("close"), decimal_string(number as u128)];
    assert(text::strs_of(r@) =~= close_args_spec(number));
    r
}

// ---------------------------------------------------------------------------
// Reading gh's output
// ---------------------------------------------------------------------------

/// The issue state that `gh` reports as `raw`, compared case-insensitively.
pub open spec fn state_of(raw: Seq<char>) -> Option<IssueState> {
    if text::lower(raw) == "open"@ {
        Some(IssueState::Open)
    } else if text::lower(raw) == "closed"@ {
        Some(IssueState::Closed)
    } else {
        None
    }
}

pub open spec fn bad_state_message(raw: Seq<char>) -> Seq<char> {
    "unrecognized issue state from gh CLI: "@ + text::lower(raw)
}

pub fn parse_state(raw: &str) -> (r: Result<IssueState, String>)
    ensures
        match r {
            Ok(s) => state_of(raw@) == Some(s),
            Err(m) => state_of(raw@) is None && m@ == bad_state_message(raw@),
        },
{
    let low = lowered(&chars_of(raw));
    if eq_str(&low, "open") {
        Ok(IssueState::Open)
    } else if eq_str(&low, "closed") {
        Ok(IssueState::Closed)
    } else {
        let mut m = owned("unrecognized issue state from gh CLI: ");
        let tail = string_of(&low);
        extend_string(&mut m, tail.as_str());
        Err(m)
    }
}

/// A label as `gh ... --json name,color` writes it.
#[derive(Debug, Clone, PartialEq)]
pub struct RawLabel {
    pub name: String,
    pub color: String,
}

/// An issue as `gh issue list --json ...` writes it.
#[derive(Debug, Clone, PartialEq)]
pub struct RawIssue {
    pub number: u32,
    pub title: String,
    pub body: String,
    pub labels: Vec<RawLabel>,
    pub state: String,
    pub url: String,
    pub created_at: String,
}

pub open spec fn label_of_raw(l: RawLabel) -> Label {
    Label { name: l.name, color: l.color }
}

pub open spec fn labels_of_raw(ls: Seq<RawLabel>) -> Seq<Label> {
    ls.map_values(|l: RawLabel| label_of_raw(l))
}

/// Whether the issue read from `raw` is `issue`.
pub open spec fn issue_of_raw(raw: RawIssue, issue: Issue) -> bool {
    &&& state_of(raw.state@) == Some(issue.state)
    &&& issue.number == raw.number
    &&& issue.title == raw.title
    &&& issue.body == raw.body
    &&& issue.labels@ == labels_of_raw(raw.labels@)
    &&& issue.url == raw.url
    &&& issue.created_at == raw.created_at
}

pub fn labels_from_raw(raws: &Vec<RawLabel>) -> (r: Vec<Label>)
    ensures
        r@ == labels_of_raw(raws@),
{
    let mut r: Vec<Label> = Vec::new();
    let mut i: usize = 0;
    while i < raws.len()
        invariant
            i <= raws.len(),
            r@ == labels_of_raw(raws@.take(i as int)),
        decreases raws.len() - i,
    {
        r.push(Label { name: raws[i].name.clone(), color: raws[i].color.clone() });
        i = i + 1;
        assert(r@ =~= labels_of_raw(raws@.take(i as int)));
    }
    assert(raws@.take(raws.len() as int) =~= raws@);
    r
}

pub fn issue_from_raw(raw: &RawIssue) -> (r: Result<Issue, String>)
    ensures
        match r {
            Ok(issue) => issue_of_raw(*raw, issue),
            Err(m) => state_of(raw.state@) is None && m@ == bad_state_message(raw.state@),
        },
{
    let state = match parse_state(raw.state.as_str()) {
        Ok(s) => s,
        Err(m) => {
            return Err(m);
        },
    };
    Ok(
        Issue {
            number: raw.number,
            title: raw.title.clone(),
            body: raw.body.clone(),
            labels: labels_from_raw(&raw.labels),
            state,
            url: raw.url.clone(),
            created_at: raw.created_at.clone(),
        },
    )
}

/// Turns every raw issue into an issue, failing on the first one whose state
/// is not recognized.
pub fn issues_from_raw(raws: &Vec<RawIssue>) -> (r: Result<Vec<Issue>, String>)
    ensures
        match r {
            Ok(v) => v.len() == raws.len() && forall|i: int|
                0 <= i < raws.len() ==> issue_of_raw(#[trigger] raws@[i], v@[i]),
            Err(m) => exists|i: int|
                0 <= i < raws.len() && state_of(#[trigger] raws@[i].state@) is None && (forall|j: int|
                    0 <= j < i ==> state_of(#[trigger] raws@[j].state@) is Some) && m@
                    == bad_state_message(raws@[i].state@),
        },
{
    let mut v: Vec<Issue> = Vec::new();
    let mut i: usize = 0;
    while i < raws.len()
        invariant
            i <= raws.len(),
            v.len() == i,
            forall|k: int| 0 <= k < i ==> issue_of_raw(#[trigger] raws@[k], v@[k]),
        decreases raws.len() - i,
    {
        match issue_from_raw(&raws[i]) {
            Ok(issue) => v.push(issue),
            Err(m) => {
                assert(forall|j: int| 0 <= j < i ==> state_of(#[trigger] raws@[j].state@) is Some) by {
                    assert forall|j: int| 0 <= j < i implies state_of(#[trigger] raws@[j].state@) is Some by {
                        assert(issue_of_raw(raws@[j], v@[j]));
                    }
                }
                return Err(m);
            },
        }
        i = i + 1;
    }
    Ok(v)
}

/// `gh repo view`'s `owner/repo`, without the trailing newline.
pub fn parse_repo_name(raw: &str) -> (r: String)
    ensures
        r@ == text::trim(raw@),
{
    string_of(&trimmed(&chars_of(raw)))
}

/// Debug formatting of a string (`format!("{:?}", s)`): quoted, with escapes.
pub uninterp spec fn debug_quoted(s: Seq<char>) -> Seq<char>;

/// `format!("{s:?}")`: the std `Debug` rendering of a string slice, whose
/// result is named by `debug_quoted`.
#[verifier::external_body]
fn debug_quote(s: &str) -> (r: String)
    ensures
        r@ == debug_quoted(s@),
{
    format!("{s:?}")
}

/// The text after the last `/` of the trimmed output.
pub open spec fn created_number_segment(output: Seq<char>) -> Seq<char> {
    let url = text::trim(output);
    url.subrange(text::after_last_char(url, '/') as int, url.len() as int)
}

/// The issue number `gh issue create` printed, if its output names one.
pub open spec fn created_number(output: Seq<char>) -> Option<nat> {
    text::parse_uint(created_number_segment(output), u32::MAX as nat)
}

/// Reads the new issue's number from `gh issue create`'s output, which is the
/// issue's URL (`https://github.com/owner/repo/issues/71`).
pub fn parse_created_issue_number(output: &str) -> (r: Result<u32, String>)
    ensures
        match created_number(output@) {
            Some(n) => r == Ok::<u32, String>(n as u32),
            None => r is Err && r->Err_0@ == "couldn't parse an issue number from gh's create output: "@
                + debug_quoted(text::trim(output@)),
        },
{
    let url = trimmed(&chars_of(output));
    let start = after_last(&url, '/');
    let segment = slice_of(&url, start, url.len());
    match parse_unsigned(&segment, 0xffff_ffff) {
        Some(n) => Ok(n as u32),
        None => {
            let mut m = owned("couldn't parse an issue number from gh's create output: ");
            let url_text = string_of(&url);
            let quoted = debug_quote(url_text.as_str());
            extend_string(&mut m, quoted.as_str());
            Err(m)
        },
    }
}

/// A created issue's URL, as `gh issue create` prints it, gives back the
/// issue's number.
pub proof fn lemma_created_number_of_url(prefix: Seq<char>, n: u32)
    requires
        prefix.len() > 0,
        prefix.last() == '/',
        !text::is_ws(prefix[0]),
    ensures
        created_number(prefix + text::decimal(n as nat)) == Some(n as nat),
{
    let d = text::decimal(n as nat);
    let s = prefix + d;
    text::lemma_decimal_digits(n as nat);
    assert(!text::is_ws(d.last())) by {
        assert(text::is_digit(d[d.len() - 1]));
    }
    assert(s.last() == d.last());
    assert(s[0] == prefix[0]);
    text::lemma_trim_noop(s);
    assert(forall|j: int| prefix.len() <= j < s.len() ==> s[j] != '/') by {
        assert forall|j: int| prefix.len() <= j < s.len() implies s[j] != '/' by {
            assert(s[j] == d[j - prefix.len()]);
            assert(text::is_digit(d[j - prefix.len()]));
        }
    }
    text::lemma_after_last_char_is_last(s, '/', prefix.len() as int);
    assert(s.subrange(prefix.len() as int, s.len() as int) =~= d);
    text::lemma_parse_decimal(n as nat, u32::MAX as nat);
}

// ---------------------------------------------------------------------------
// Repository specs
// ---------------------------------------------------------------------------

pub open spec fn is_repo_char_spec(c: char) -> bool {
    ('a' <= c && c <= 'z') || ('A' <= c && c <= 'Z') || ('0' <= c && c <= '9') || c == '-' || c
        == '_' || c == '.'
}

pub open spec fn all_repo_chars(s: Seq<char>) -> bool {
    forall|i: int| 0 <= i < s.len() ==> is_repo_char_spec(#[trigger] s[i])
}

/// `str::trim_end_matches(".git")`: every trailing `.git` removed.
pub open spec fn strip_git(s: Seq<char>) -> Seq<char>
    decreases s.len(),
{
    if s.len() >= 4 && text::ends_with(s, ".git"@) {
        strip_git(s.subrange(0, s.len() - 4))
    } else {
        s
    }
}

/// `owner/repo` read from a path: trailing slashes and `.git` dropped, the
/// first two `/`-separated segments kept, both made of repository
/// characters. With `exact`, a path with more segments than two is refused.
pub open spec fn owner_repo(path: Seq<char>, exact: bool) -> Option<Seq<char>> {
    let p = strip_git(text::strip_trailing(path, '/'));
    let i = text::find_char(p, '/');
    if i >= p.len() {
        None
    } else {
        let owner = p.subrange(0, i as int);
        let rest = p.subrange(i + 1 as int, p.len() as int);
        let repo = rest.subrange(0, text::find_char(rest, '/') as int);
        if owner.len() == 0 || repo.len() == 0 || !all_repo_chars(owner) || !all_repo_chars(repo)
            || (exact && repo.len() < rest.len()) {
            None
        } else {
            Some(owner + "/"@ + repo)
        }
    }
}

/// What `parse_repo_spec` accepts: a bare `owner/repo` (exactly two
/// segments, so host-first text such as `github.com/owner/repo` is refused),
/// an `https://github.com/owner/repo[...]` URL, or a `git@github.com:` URL;
/// anything else, a plain `http://` URL among it, is refused.
pub open spec fn repo_spec(input: Seq<char>) -> Option<Seq<char>> {
    let t = text::trim(input);
    if t.len() == 0 {
        None
    } else if text::starts_with(t, "https://github.com/"@) {
        owner_repo(t.subrange("https://github.com/"@.len() as int, t.len() as int), false)
    } else if text::starts_with(t, "git@github.com:"@) {
        owner_repo(t.subrange("git@github.com:"@.len() as int, t.len() as int), false)
    } else {
        owner_repo(t, true)
    }
}

/// A bare `owner/repo`, both parts made of repository characters and the
/// name not ending in `.git`, is accepted as it is. What the parser gives
/// back always has that shape, so, unless its name ends in `.git`, it parses
/// to itself: a remembered repository reads back unchanged.
pub proof fn lemma_repo_spec_accepts_its_own_output(owner: Seq<char>, repo: Seq<char>)
    requires
        owner.len() > 0,
        repo.len() > 0,
        all_repo_chars(owner),
        all_repo_chars(repo),
        !text::ends_with(repo, ".git"@),
    ensures
        repo_spec(owner + "/"@ + repo) == Some(owner + "/"@ + repo),
{
    reveal_strlit("/");
    reveal_strlit(".git");
    reveal_strlit("https://github.com/");
    reveal_strlit("git@github.com:");
    let s = owner + "/"@ + repo;
    let n = owner.len();
    assert(s[n as int] == '/');
    assert forall|j: int| 0 <= j < s.len() && j != n implies is_repo_char_spec(#[trigger] s[j]) by {
        if j < n {
            assert(s[j] == owner[j]);
        } else {
            assert(s[j] == repo[j - n - 1]);
        }
    }
    assert(!text::is_ws(s[0]) && !text::is_ws(s.last()));
    text::lemma_trim_noop(s);
    assert(!text::starts_with(s, "https://github.com/"@)) by {
        if text::starts_with(s, "https://github.com/"@) {
            assert(s.subrange(0, 19)[5] == ':');
        }
    }
    assert(!text::starts_with(s, "git@github.com:"@)) by {
        if text::starts_with(s, "git@github.com:"@) {
            assert(s.subrange(0, 15)[3] == '@');
        }
    }
    assert(text::strip_trailing(s, '/') == s);
    assert(!text::ends_with(s, ".git"@)) by {
        if s.len() >= 4 && text::ends_with(s, ".git"@) {
            if repo.len() >= 4 {
                assert(repo.subrange(repo.len() - 4, repo.len() as int) =~= s.subrange(
                    s.len() - 4,
                    s.len() as int,
                ));
            } else {
                let k = n - (s.len() - 4);
                assert(s.subrange(s.len() - 4, s.len() as int)[k] == '/');
            }
        }
    }
    assert(strip_git(s) == s);
    assert forall|j: int| 0 <= j < n implies s[j] != '/' by {
        assert(is_repo_char_spec(s[j]));
    }
    text::lemma_find_char_is_first(s, '/', n as int);
    let rest = s.subrange(n + 1 as int, s.len() as int);
    assert(rest =~= repo);
    assert forall|j: int| 0 <= j < repo.len() implies repo[j] != '/' by {
        assert(is_repo_char_spec(repo[j]));
    }
    text::lemma_find_char_is_first(repo, '/', repo.len() as int);
    assert(s.subrange(0, n as int) =~= owner);
    assert(repo.subrange(0, repo.len() as int) =~= repo);
}

fn is_repo_char(c: char) -> (b: bool)
    ensures
        b == is_repo_char_spec(c),
{
    ('a' <= c && c <= 'z') || ('A' <= c && c <= 'Z') || ('0' <= c && c <= '9') || c == '-' || c
        == '_' || c == '.'
}

fn all_repo(v: &Vec<char>) -> (b: bool)
    ensures
        b == all_repo_chars(v@),
{
    let mut i: usize = 0;
    while i < v.len()
        invariant
            i <= v.len(),
            forall|k: int| 0 <= k < i ==> is_repo_char_spec(#[trigger] v@[k]),
        decreases v.len() - i,
    {
        if !is_repo_char(v[i]) {
            return false;
        }
        i = i + 1;
    }
    true
}

fn strip_git_suffixes(v: &Vec<char>) -> (r: Vec<char>)
    ensures
        r@ == strip_git(v@),
{
    let git = chars_of(".git");
    let mut cur = slice_of(v, 0, v.len());
    assert(cur@ =~= v@);
    while cur.len() >= 4 && has_suffix(&cur, &git)
        invariant
            strip_git(cur@) == strip_git(v@),
            git@ == ".git"@,
        decreases cur.len(),
    {
        cur = slice_of(&cur, 0, cur.len() - 4);
    }
    cur
}

fn owner_repo_from_path(path: &Vec<char>, exact: bool) -> (r: Option<String>)
    ensures
        match owner_repo(path@, exact) {
            Some(s) => r is Some && r->0@ == s,
            None => r is None,
        },
{
    let p = strip_git_suffixes(&strip_trailing_char(path, '/'));
    let i = find(&p, '/');
    if i >= p.len() {
        return None;
    }
    let owner = slice_of(&p, 0, i);
    let rest = slice_of(&p, i + 1, p.len());
    let j = find(&rest, '/');
    let repo = slice_of(&rest, 0, j);
    if owner.len() == 0 || repo.len() == 0 || !all_repo(&owner) || !all_repo(&repo) || (exact
        && repo.len() < rest.len()) {
        return None;
    }
    let mut out = owner;
    out.push('/');
    append_chars(&mut out, &repo);
    proof {
        reveal_strlit("/");
        assert(out@ =~= owner@ + "/"@ + repo@);
    }
    Some(string_of(&out))
}

/// Parses user-typed text (from the repo picker or a command-line argument)
/// into a `gh -R`-compatible `owner/repo`, or `None` for anything but a bare
/// `owner/repo`, an `https://github.com/` URL (extra path segments dropped) or a
/// `git@github.com:` URL: other hosts, with or without a scheme, are refused.
pub fn parse_repo_spec(input: &str) -> (r: Option<String>)
    ensures
        match repo_spec(input@) {
            Some(s) => r is Some && r->0@ == s,
            None => r is None,
        },
{
    let t = trimmed(&chars_of(input));
    if t.len() == 0 {
        return None;
    }
    let https = chars_of("https://github.com/");
    let ssh = chars_of("git@github.com:");
    if has_prefix(&t, &https) {
        owner_repo_from_path(&slice_of(&t, https.len(), t.len()), false)
    } else if has_prefix(&t, &ssh) {
        owner_repo_from_path(&slice_of(&t, ssh.len(), t.len()), false)
    } else {
        owner_repo_from_path(&t, true)
    }
}

// ---------------------------------------------------------------------------
// The repository that every gh call targets
// ---------------------------------------------------------------------------

#[verifier::external_type_specification]
#[verifier::external_body]
#[verifier::reject_recursive_types(T)]
pub struct ExMutex<T: ?Sized>(Mutex<T>);

/// The value a lock was made holding (what was handed to `Mutex::new` when
/// it was made). It says nothing of what the lock holds after a later write.
pub uninterp spec fn made_with(m: Mutex<Option<String>>) -> Option<Seq<char>>;

/// `Mutex::new`: a fresh lock around `value`, made holding it.
#[verifier::external_body]
fn new_lock(value: Option<String>) -> (m: Mutex<Option<String>>)
    ensures
        made_with(m) == (match value {
            Some(s) => Some(s@),
            None => None,
        }),
{
    Mutex::new(value)
}

/// Reads the value behind the lock (`Mutex::lock`, then a clone of the
/// guarded value). The value is shared with every clone of the handle and may
/// have been changed by another thread, so nothing is stated of it. A lock
/// poisoned by a panicking thread is read all the same.
#[verifier::external_body]
fn read_shared(m: &Mutex<Option<String>>) -> Option<String> {
    match m.lock() {
        Ok(guard) => guard.clone(),
        Err(poisoned) => poisoned.into_inner().clone(),
    }
}

/// Replaces the value behind the lock (`Mutex::lock`, then an assignment). A
/// lock poisoned by a panicking thread is written all the same.
#[verifier::external_body]
fn write_shared(m: &Mutex<Option<String>>, value: Option<String>) {
    match m.lock() {
        Ok(mut guard) => *guard = value,
        Err(poisoned) => *poisoned.into_inner() = value,
    }
}

/// The handle every `gh` call goes through. Clones share one target, so a
/// switch made on one thread is seen by workers that hold another clone.
#[derive(Clone)]
pub struct GhCliSource {
    repo: Arc<Mutex<Option<String>>>,
}

impl GhCliSource {
    /// The repository the source was made aimed at (`None`: the one `gh`
    /// detects from the current directory). `set_repo`, through any clone,
    /// may aim it elsewhere later.
    pub closed spec fn initial_target(self) -> Option<Seq<char>> {
        made_with(*self.repo)
    }

    /// A source that lets `gh` detect the repository from the current
    /// directory.
    pub fn new() -> (r: Self)
        ensures
            r.initial_target() is None,
    {
        GhCliSource { repo: Arc::new(new_lock(None)) }
    }

    /// A source aimed at `repo` (`owner/repo`).
    pub fn with_repo(repo: String) -> (r: Self)
        ensures
            r.initial_target() == Some(repo@),
    {
        GhCliSource { repo: Arc::new(new_lock(Some(repo))) }
    }

    /// The repository subsequent calls target, if any.
    pub fn current_repo(&self) -> Option<String> {
        read_shared(&self.repo)
    }

    /// Retargets every subsequent call, through every clone, at `repo`, or back
    /// to the current directory's repository for `None`.
    pub fn set_repo(&self, repo: Option<String>) {
        write_shared(&self.repo, repo)
    }
}

pub open spec fn full_args_spec(repo: Option<String>, args: Seq<Seq<char>>) -> Seq<Seq<char>> {
    match repo {
        Some(r) => seq!["-R"@, r@] + args,
        None => args,
    }
}

/// `-R repo` in front of `args` when a repository is targeted.
pub fn with_repo_flag(repo: Option<String>, args: &Vec<String>) -> (r: Vec<String>)
    ensures
        text::strs_of(r@) == full_args_spec(repo, text::strs_of(args@)),
{
    let mut r: Vec<String> = Vec::new();
    match repo {
        Some(name) => {
            r.push(owned("-R"));
            r.push(name);
        },
        None => {},
    }
    let ghost head = text::strs_of(r@);
    let mut i: usize = 0;
    while i < args.len()
        invariant
            i <= args.len(),
            text::strs_of(r@) == head + text::strs_of(args@.take(i as int)),
        decreases args.len() - i,
    {
        let a = args[i].clone();
        let ghost before = text::strs_of(r@);
        assert(args@.take(i + 1) =~= args@.take(i as int).push(args@[i as int]));
        r.push(a);
        assert(text::strs_of(r@) =~= before.push(a@));
        assert(text::strs_of(args@.take(i + 1)) =~= text::strs_of(args@.take(i as int)).push(a@));
        i = i + 1;
        assert(text::strs_of(r@) =~= head + text::strs_of(args@.take(i as int)));
    }
    assert(args@.take(args.len() as int) =~= args@);
    assert(text::strs_of(r@) =~= full_args_spec(repo, text::strs_of(args@)));
    r
}

pub open spec fn gh_missing_text() -> Seq<char> {
    "`gh` CLI not found on PATH. Install it from https://cli.github.com and run `gh auth login`."@
}

/// The error a failed start of `gh` reports: how to install it when the
/// program is missing, the system's own words (`error`) otherwise.
pub fn spawn_failure_message(not_found: bool, error: String) -> (r: String)
    ensures
        r@ == if not_found {
            gh_missing_text()
        } else {
            error@
        },
{
    if not_found {
        owned(
            "`gh` CLI not found on PATH. Install it from https://cli.github.com and run `gh auth login`.",
        )
    } else {
        error
    }
}

/// The error text for a `gh` call that exited unsuccessfully.
pub fn failure_message(full_args: &Vec<String>, stderr: &str) -> (r: String)
    ensures
        r@ == "gh "@ + text::join(text::strs_of(full_args@), " "@) + " failed: "@ + stderr@,
{
    let mut parts: Vec<Vec<char>> = Vec::new();
    let mut i: usize = 0;
    while i < full_args.len()
        invariant
            i <= full_args.len(),
            text::seqs_of(parts@) == text::strs_of(full_args@.take(i as int)),
        decreases full_args.len() - i,
    {
        let cs = chars_of(full_args[i].as_str());
        let ghost before = text::seqs_of(parts@);
        assert(full_args@.take(i + 1) =~= full_args@.take(i as int).push(full_args@[i as int]));
        parts.push(cs);
        assert(text::seqs_of(parts@) =~= before.push(cs@));
        assert(text::strs_of(full_args@.take(i + 1)) =~= text::strs_of(full_args@.take(i as int)).push(cs@));
        i = i + 1;
        assert(text::seqs_of(parts@) =~= text::strs_of(full_args@.take(i as int)));
    }
    assert(full_args@.take(full_args.len() as int) =~= full_args@);
    let joined = join_chars(&parts, &chars_of(" "));
    let mut out = chars_of("gh ");
    append_chars(&mut out, &joined);
    append_str(&mut out, " failed: ");
    append_str(&mut out, stderr);
    string_of(&out)
}

} // verus!
