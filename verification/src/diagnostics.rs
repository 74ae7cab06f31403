//! What the opt-in diagnostic log records and how it keeps secrets out:
//! issue titles and bodies handed to `gh` are redacted, and anything that
//! looks like a GitHub token is replaced. Writing the log is the caller's
//! business.

use crate::gh;
use crate::text;
use crate::text::{
    append_str, chars_of, eq_str, lowered, owned, push_decimal, slice_of, string_of,
    trimmed,
};
use vstd::prelude::*;

verus! {

// ---------------------------------------------------------------------------
// Whether logging is on
// ---------------------------------------------------------------------------

/// The values of the log switch that turn logging off, after trimming and
/// ASCII lowercasing. Anything else that is set turns it on.
pub open spec fn is_off_word(v: Seq<char>) -> bool {
    v == ""@ || v == "0"@ || v == "false"@ || v == "no"@ || v == "off"@
}

pub open spec fn log_enabled(value: Option<Seq<char>>) -> bool {
    match value {
        None => false,
        Some(v) => !is_off_word(text::lower(text::trim(v))),
    }
}

/// Whether the value of `BOOMERANG_LOG` turns the diagnostic log on.
pub fn log_enabled_value(value: Option<&str>) -> (b: bool)
    ensures
        b == log_enabled(
            match value {
                Some(s) => Some(s@),
                None => None,
            },
        ),
{
    match value {
        None => false,
        Some(s) => {
            let v = lowered(&trimmed(&chars_of(s)));
            !(eq_str(&v, "") || eq_str(&v, "0") || eq_str(&v, "false") || eq_str(&v, "no")
                || eq_str(&v, "off"))
        },
    }
}

/// Where the diagnostic log goes.
#[derive(Debug, Clone, Copy, PartialEq, Eq, Structural)]
pub enum LogLocation {
    /// The path the log-path setting gives.
    Given,
    /// `boomerang/boomerang.log` under the cache directory setting.
    UnderCacheHome,
    /// `.cache/boomerang/boomerang.log` under the home directory.
    UnderHome,
    /// `boomerang.log` in the system's temporary directory.
    InTempDir,
}

pub open spec fn log_location_spec(
    log_value: Option<Seq<char>>,
    path_given: bool,
    cache_home_given: bool,
    home_given: bool,
) -> Option<LogLocation> {
    if !log_enabled(log_value) {
        None
    } else if path_given {
        Some(LogLocation::Given)
    } else if cache_home_given {
        Some(LogLocation::UnderCacheHome)
    } else if home_given {
        Some(LogLocation::UnderHome)
    } else {
        Some(LogLocation::InTempDir)
    }
}

/// Where the log goes, if anywhere: nowhere unless `log_value` (the log
/// switch) turns logging on; then the given log path, else under the cache
/// directory, else under the home directory, else the temporary directory.
/// Each `*_given` says whether that setting is present and not empty.
pub fn log_location(
    log_value: Option<&str>,
    path_given: bool,
    cache_home_given: bool,
    home_given: bool,
) -> (r: Option<LogLocation>)
    ensures
        r == log_location_spec(
            match log_value {
                Some(s) => Some(s@),
                None => None,
            },
            path_given,
            cache_home_given,
            home_given,
        ),
{
    if !log_enabled_value(log_value) {
        None
    } else if path_given {
        Some(LogLocation::Given)
    } else if cache_home_given {
        Some(LogLocation::UnderCacheHome)
    } else if home_given {
        Some(LogLocation::UnderHome)
    } else {
        Some(LogLocation::InTempDir)
    }
}

impl LogLocation {
    /// The log file's path below the base directory (empty for a given path).
    pub fn file_below(self) -> (r: &'static str)
        ensures
            r@ == match self {
                LogLocation::Given => ""@,
                LogLocation::UnderCacheHome => "boomerang/boomerang.log"@,
                LogLocation::UnderHome => ".cache/boomerang/boomerang.log"@,
                LogLocation::InTempDir => "boomerang.log"@,
            },
    {
        match self {
            LogLocation::Given => "",
            LogLocation::UnderCacheHome => "boomerang/boomerang.log",
            LogLocation::UnderHome => ".cache/boomerang/boomerang.log",
            LogLocation::InTempDir => "boomerang.log",
        }
    }
}

// ---------------------------------------------------------------------------
// Token redaction
// ---------------------------------------------------------------------------

/// Index of the first whitespace character of `s`, or `s.len()`.
pub open spec fn first_ws(s: Seq<char>) -> nat
    decreases s.len(),
{
    if s.len() == 0 {
        0
    } else if text::is_ws(s[0]) {
        0
    } else {
        1 + first_ws(s.drop_first())
    }
}

/// `str::split_whitespace`: the maximal runs of non-whitespace characters.
pub open spec fn words(s: Seq<char>) -> Seq<Seq<char>>
    decreases s.len(),
{
    if s.len() == 0 {
        seq![]
    } else if text::is_ws(s[0]) {
        words(s.drop_first())
    } else {
        let k = first_ws(s);
        proof {
            lemma_first_ws(s);
            assert(first_ws(s) == 1 + first_ws(s.drop_first()));
        }
        seq![s.subrange(0, k as int)] + words(s.subrange(k as int, s.len() as int))
    }
}

pub open spec fn redact_word(w: Seq<char>, marker: Seq<char>) -> Seq<char> {
    if text::contains(w, marker) {
        "[redacted-token]"@
    } else {
        w
    }
}

/// Each word that holds `marker` replaced by `[redacted-token]`.
pub open spec fn redact_words(ws: Seq<Seq<char>>, marker: Seq<char>) -> Seq<Seq<char>> {
    ws.map_values(|w: Seq<char>| redact_word(w, marker))
}

/// When `s` holds `marker`, its words joined by single spaces, each word that
/// holds `marker` replaced by `[redacted-token]`; otherwise `s` unchanged.
pub open spec fn redact_marker(s: Seq<char>, marker: Seq<char>) -> Seq<char> {
    if text::contains(s, marker) {
        text::join(words(s).map_values(|w: Seq<char>| redact_word(w, marker)), " "@)
    } else {
        s
    }
}

/// Token-looking words (`ghp_`, `gho_`, `github_pat_`) replaced.
pub open spec fn redacted(s: Seq<char>) -> Seq<char> {
    redact_marker(redact_marker(redact_marker(s, "ghp_"@), "gho_"@), "github_pat_"@)
}

pub proof fn lemma_first_ws(s: Seq<char>)
    ensures
        first_ws(s) <= s.len(),
        first_ws(s) < s.len() ==> text::is_ws(s[first_ws(s) as int]),
        forall|j: int| 0 <= j < first_ws(s) ==> !text::is_ws(#[trigger] s[j]),
    decreases s.len(),
{
    if s.len() > 0 && !text::is_ws(s[0]) {
        lemma_first_ws(s.drop_first());
        assert forall|j: int| 0 <= j < first_ws(s) implies !text::is_ws(#[trigger] s[j]) by {
            if j > 0 {
                assert(s[j] == s.drop_first()[j - 1]);
            }
        }
    }
}

proof fn lemma_first_ws_is(s: Seq<char>, k: int)
    requires
        0 <= k <= s.len(),
        k < s.len() ==> text::is_ws(s[k]),
        forall|j: int| 0 <= j < k ==> !text::is_ws(#[trigger] s[j]),
    ensures
        first_ws(s) == k,
    decreases s.len(),
{
    if s.len() > 0 && k > 0 {
        assert forall|j: int| 0 <= j < k - 1 implies !text::is_ws(#[trigger] s.drop_first()[j]) by {
            assert(s.drop_first()[j] == s[j + 1]);
        }
        lemma_first_ws_is(s.drop_first(), k - 1);
    }
}

/// The words of `v`.
fn split_words(v: &Vec<char>) -> (r: Vec<Vec<char>>)
    ensures
        text::seqs_of(r@) == words(v@),
{
    let mut r: Vec<Vec<char>> = Vec::new();
    let mut i: usize = 0;
    assert(v@.subrange(0, v.len() as int) =~= v@);
    while i < v.len()
        invariant
            i <= v.len(),
            text::seqs_of(r@) + words(v@.subrange(i as int, v.len() as int)) == words(v@),
        decreases v.len() - i,
    {
        let ghost sub = v@.subrange(i as int, v.len() as int);
        if text::is_whitespace(v[i]) {
            assert(sub.drop_first() =~= v@.subrange(i + 1, v.len() as int));
            i = i + 1;
        } else {
            let mut k = i;
            while k < v.len() && !text::is_whitespace(v[k])
                invariant
                    i <= k <= v.len(),
                    forall|j: int| i <= j < k ==> !text::is_ws(#[trigger] v@[j]),
                decreases v.len() - k,
            {
                k = k + 1;
            }
            let word = slice_of(v, i, k);
            proof {
                assert forall|j: int| 0 <= j < k - i implies !text::is_ws(#[trigger] sub[j]) by {
                    assert(sub[j] == v@[i + j]);
                }
                lemma_first_ws_is(sub, k - i);
                assert(sub.subrange(0, k - i) =~= word@);
                assert(sub.subrange(k - i, sub.len() as int) =~= v@.subrange(k as int, v.len() as int));
                assert(words(sub) == seq![word@] + words(v@.subrange(k as int, v.len() as int)));
            }
            let ghost before = text::seqs_of(r@);
            r.push(word);
            assert(text::seqs_of(r@) =~= before.push(word@));
            assert(text::seqs_of(r@) + words(v@.subrange(k as int, v.len() as int)) =~= before
                + words(sub));
            i = k;
        }
    }
    assert(v@.subrange(i as int, v.len() as int).len() == 0);
    assert(text::seqs_of(r@) + words(v@.subrange(i as int, v.len() as int)) =~= text::seqs_of(r@));
    r
}

fn redact_with(v: Vec<char>, marker: &str) -> (r: Vec<char>)
    ensures
        r@ == redact_marker(v@, marker@),
{
    let m = chars_of(marker);
    if !text::contains_seq(&v, &m) {
        return v;
    }
    let ws = split_words(&v);
    let replacement = chars_of("[redacted-token]");
    let mut parts: Vec<Vec<char>> = Vec::new();
    let mut i: usize = 0;
    while i < ws.len()
        invariant
            i <= ws.len(),
            m@ == marker@,
            replacement@ == "[redacted-token]"@,
            text::seqs_of(parts@) == text::seqs_of(ws@).take(i as int).map_values(
                |w: Seq<char>| redact_word(w, marker@),
            ),
        decreases ws.len() - i,
    {
        let ghost before = text::seqs_of(parts@);
        let w = if text::contains_seq(&ws[i], &m) {
            slice_of(&replacement, 0, replacement.len())
        } else {
            slice_of(&ws[i], 0, ws[i].len())
        };
        assert(w@ == redact_word(ws@[i as int]@, marker@)) by {
            assert(replacement@.subrange(0, replacement@.len() as int) =~= replacement@);
            assert(ws@[i as int]@.subrange(0, ws@[i as int]@.len() as int) =~= ws@[i as int]@);
        }
        parts.push(w);
        assert(text::seqs_of(parts@) =~= before.push(w@));
        assert(text::seqs_of(ws@).take(i + 1) =~= text::seqs_of(ws@).take(i as int).push(
            ws@[i as int]@,
        ));
        i = i + 1;
        assert(text::seqs_of(parts@) =~= text::seqs_of(ws@).take(i as int).map_values(
            |w: Seq<char>| redact_word(w, marker@),
        ));
    }
    assert(text::seqs_of(ws@).take(ws.len() as int) =~= text::seqs_of(ws@));
    text::join_chars(&parts, &chars_of(" "))
}

/// The markers of a GitHub token that redaction looks for.
pub open spec fn token_marker(m: Seq<char>) -> bool {
    m == "ghp_"@ || m == "gho_"@ || m == "github_pat_"@
}

/// No token marker occurs in `s`.
pub open spec fn holds_no_marker(s: Seq<char>) -> bool {
    !text::contains(s, "ghp_"@) && !text::contains(s, "gho_"@) && !text::contains(s, "github_pat_"@)
}

proof fn lemma_marker_shape(m: Seq<char>)
    requires
        token_marker(m),
    ensures
        m.len() > 0,
        m[0] == 'g',
        forall|j: int| 0 <= j < m.len() ==> !text::is_ws(#[trigger] m[j]),
{
    reveal_strlit("ghp_");
    reveal_strlit("gho_");
    reveal_strlit("github_pat_");
}

/// The replacement word holds no marker: it has no `g`.
proof fn lemma_replacement_holds_no_marker(m: Seq<char>)
    requires
        token_marker(m),
    ensures
        !text::contains("[redacted-token]"@, m),
{
    reveal_strlit("[redacted-token]");
    lemma_marker_shape(m);
    let r = "[redacted-token]"@;
    if text::contains(r, m) {
        let i = choose|i: int| text::occurs_at(r, m, i);
        assert(r.subrange(i, i + m.len())[0] == r[i]);
    }
}

/// A needle without whitespace that occurs in parts joined by single spaces
/// occurs in one of the parts.
proof fn lemma_occurs_in_a_part(parts: Seq<Seq<char>>, needle: Seq<char>, i: int)
    requires
        text::occurs_at(text::join(parts, " "@), needle, i),
        needle.len() > 0,
        forall|j: int| 0 <= j < needle.len() ==> !text::is_ws(#[trigger] needle[j]),
    ensures
        exists|k: int| 0 <= k < parts.len() && text::contains(#[trigger] parts[k], needle),
    decreases parts.len(),
{
    reveal_strlit(" ");
    let n = needle.len();
    if parts.len() == 1 {
        assert(text::occurs_at(parts[0], needle, i));
        assert(text::contains(parts[0], needle));
    } else if parts.len() > 1 {
        let pre = text::join(parts.drop_last(), " "@);
        let whole = text::join(parts, " "@);
        let p = pre.len() as int;
        assert(whole == pre + " "@ + parts.last());
        if i + n <= p {
            assert(whole.subrange(i, i + n) =~= pre.subrange(i, i + n));
            lemma_occurs_in_a_part(parts.drop_last(), needle, i);
            let k = choose|k: int|
                0 <= k < parts.drop_last().len() && text::contains(
                    #[trigger] parts.drop_last()[k],
                    needle,
                );
            assert(parts.drop_last()[k] == parts[k]);
        } else if i >= p + 1 {
            let last = parts.last();
            assert(whole.subrange(i, i + n) =~= last.subrange(i - p - 1, i - p - 1 + n));
            assert(text::occurs_at(last, needle, i - p - 1));
            assert(text::contains(parts[parts.len() - 1], needle));
        } else {
            assert(whole[p] == ' ');
            assert(whole.subrange(i, i + n)[p - i] == whole[p]);
            assert(!text::is_ws(needle[p - i]));
        }
    }
}

/// What occurs in one of the words of `x` occurs in `x`.
proof fn lemma_word_occurrence(x: Seq<char>, m: Seq<char>, k: int)
    requires
        0 <= k < words(x).len(),
        text::contains(words(x)[k], m),
    ensures
        text::contains(x, m),
    decreases x.len(),
{
    let n = m.len();
    if x.len() > 0 {
        if text::is_ws(x[0]) {
            lemma_word_occurrence(x.drop_first(), m, k);
            let i = choose|i: int| text::occurs_at(x.drop_first(), m, i);
            assert(x.subrange(i + 1, i + 1 + n) =~= x.drop_first().subrange(i, i + n));
            assert(text::occurs_at(x, m, i + 1));
        } else {
            lemma_first_ws(x);
            let f = first_ws(x) as int;
            assert(f == 1 + first_ws(x.drop_first()));
            let head = x.subrange(0, f);
            let rest = x.subrange(f, x.len() as int);
            assert(words(x) == seq![head] + words(rest));
            if k == 0 {
                assert(words(x)[0] == head);
                let i = choose|i: int| text::occurs_at(head, m, i);
                assert(x.subrange(i, i + n) =~= head.subrange(i, i + n));
                assert(text::occurs_at(x, m, i));
            } else {
                assert(words(x)[k] == words(rest)[k - 1]);
                lemma_word_occurrence(rest, m, k - 1);
                let i = choose|i: int| text::occurs_at(rest, m, i);
                assert(x.subrange(f + i, f + i + n) =~= rest.subrange(i, i + n));
                assert(text::occurs_at(x, m, f + i));
            }
        }
    }
}

/// Redacting for `m` leaves no `m` behind, and brings in no marker that was
/// not there.
proof fn lemma_redact_marker_keeps_out(x: Seq<char>, m: Seq<char>, t: Seq<char>)
    requires
        token_marker(m),
        token_marker(t),
        t == m || !text::contains(x, t),
    ensures
        !text::contains(redact_marker(x, m), t),
{
    if text::contains(x, m) {
        let parts = words(x).map_values(|w: Seq<char>| redact_word(w, m));
        let r = text::join(parts, " "@);
        assert(redact_marker(x, m) == r);
        if text::contains(r, t) {
            let i = choose|i: int| text::occurs_at(r, t, i);
            lemma_marker_shape(t);
            lemma_occurs_in_a_part(parts, t, i);
            let k = choose|k: int| 0 <= k < parts.len() && text::contains(#[trigger] parts[k], t);
            let w = words(x)[k];
            assert(parts[k] == redact_word(w, m));
            if text::contains(w, m) {
                lemma_replacement_holds_no_marker(t);
            } else if t != m {
                lemma_word_occurrence(x, t, k);
            }
        }
    }
}

/// A redacted text holds no token marker, a text without one is left as it
/// is, and so redacting a second time changes nothing.
pub proof fn lemma_redaction_leaves_no_marker(s: Seq<char>)
    ensures
        holds_no_marker(redacted(s)),
        holds_no_marker(s) ==> redacted(s) == s,
        redacted(redacted(s)) == redacted(s),
{
    let m1 = "ghp_"@;
    let m2 = "gho_"@;
    let m3 = "github_pat_"@;
    let r1 = redact_marker(s, m1);
    let r2 = redact_marker(r1, m2);
    lemma_redact_marker_keeps_out(s, m1, m1);
    lemma_redact_marker_keeps_out(r1, m2, m2);
    lemma_redact_marker_keeps_out(r1, m2, m1);
    lemma_redact_marker_keeps_out(r2, m3, m3);
    lemma_redact_marker_keeps_out(r2, m3, m1);
    lemma_redact_marker_keeps_out(r2, m3, m2);
}

/// A word as `split_whitespace` gives it: not empty, no whitespace in it.
pub open spec fn plain_word(w: Seq<char>) -> bool {
    w.len() > 0 && forall|j: int| 0 <= j < w.len() ==> !text::is_ws(#[trigger] w[j])
}

/// The word that one pass over all three markers puts for `w`.
pub open spec fn redact_any(w: Seq<char>) -> Seq<char> {
    if text::contains(w, "ghp_"@) || text::contains(w, "gho_"@) || text::contains(
        w,
        "github_pat_"@,
    ) {
        "[redacted-token]"@
    } else {
        w
    }
}

/// Every word of `x` is a plain word.
proof fn lemma_words_are_plain(x: Seq<char>)
    ensures
        forall|k: int| 0 <= k < words(x).len() ==> plain_word(#[trigger] words(x)[k]),
    decreases x.len(),
{
    if x.len() == 0 {
        assert(words(x).len() == 0);
    } else {
        if text::is_ws(x[0]) {
            assert(words(x) == words(x.drop_first()));
            lemma_words_are_plain(x.drop_first());
        } else {
            lemma_first_ws(x);
            let f = first_ws(x) as int;
            assert(f == 1 + first_ws(x.drop_first()));
            let head = x.subrange(0, f);
            let rest = x.subrange(f, x.len() as int);
            assert(words(x) == seq![head] + words(rest));
            lemma_words_are_plain(rest);
            assert forall|k: int| 0 <= k < words(x).len() implies plain_word(
                #[trigger] words(x)[k],
            ) by {
                if k == 0 {
                    assert forall|j: int| 0 <= j < head.len() implies !text::is_ws(
                        #[trigger] head[j],
                    ) by {
                        assert(head[j] == x[j]);
                    }
                } else {
                    assert(words(x)[k] == words(rest)[k - 1]);
                }
            }
        }
    }
}

/// A plain word followed by a space and more text: the word, then the
/// words of the rest.
proof fn lemma_words_after_word(a: Seq<char>, y: Seq<char>)
    requires
        plain_word(a),
    ensures
        words(a + " "@ + y) == seq![a] + words(y),
        words(a) == seq![a],
{
    reveal_strlit(" ");
    let x = a + " "@ + y;
    assert forall|j: int| 0 <= j < a.len() implies !text::is_ws(#[trigger] x[j]) by {
        assert(x[j] == a[j]);
    }
    assert(text::is_ws(x[a.len() as int]));
    lemma_first_ws_is(x, a.len() as int);
    assert(first_ws(x) == 1 + first_ws(x.drop_first()));
    assert(x.subrange(0, a.len() as int) =~= a);
    let rest = x.subrange(a.len() as int, x.len() as int);
    assert(rest.drop_first() =~= y);
    assert(words(rest) == words(rest.drop_first()));
    lemma_first_ws_is(a, a.len() as int);
    assert(first_ws(a) == 1 + first_ws(a.drop_first()));
    assert(a.subrange(0, a.len() as int) =~= a);
    assert(a.subrange(a.len() as int, a.len() as int) =~= Seq::<char>::empty());
    assert(words(Seq::<char>::empty()) =~= Seq::<Seq<char>>::empty());
    assert(seq![a] + Seq::<Seq<char>>::empty() =~= seq![a]);
}

/// Plain words joined by single spaces split back into the same words.
proof fn lemma_words_of_join(parts: Seq<Seq<char>>)
    requires
        forall|k: int| 0 <= k < parts.len() ==> plain_word(#[trigger] parts[k]),
    ensures
        words(text::join(parts, " "@)) == parts,
    decreases parts.len(),
{
    if parts.len() == 0 {
        assert(words(text::join(parts, " "@)) =~= parts);
    } else if parts.len() == 1 {
        assert(plain_word(parts[0]));
        lemma_words_after_word(parts[0], Seq::<char>::empty());
        assert(seq![parts[0]] =~= parts);
    } else {
        let rest = parts.drop_first();
        assert(parts =~= seq![parts[0]] + rest);
        text::lemma_join_cons(parts[0], rest, " "@);
        assert(plain_word(parts[0]));
        assert forall|k: int| 0 <= k < rest.len() implies plain_word(#[trigger] rest[k]) by {
            assert(rest[k] == parts[k + 1]);
        }
        lemma_words_of_join(rest);
        lemma_words_after_word(parts[0], text::join(rest, " "@));
    }
}

/// What occurs in one of the parts occurs in the parts joined.
proof fn lemma_part_occurrence(parts: Seq<Seq<char>>, sep: Seq<char>, t: Seq<char>, k: int)
    requires
        0 <= k < parts.len(),
        text::contains(parts[k], t),
    ensures
        text::contains(text::join(parts, sep), t),
    decreases parts.len(),
{
    let n = t.len();
    if parts.len() == 1 {
        assert(text::join(parts, sep) == parts[0]);
    } else {
        let pre = text::join(parts.drop_last(), sep);
        let whole = text::join(parts, sep);
        assert(whole == pre + sep + parts.last());
        if k == parts.len() - 1 {
            let i = choose|i: int| text::occurs_at(parts.last(), t, i);
            let off = pre.len() + sep.len();
            assert(whole.subrange(off + i, off + i + n) =~= parts.last().subrange(i, i + n));
            assert(text::occurs_at(whole, t, off + i));
        } else {
            assert(parts.drop_last()[k] == parts[k]);
            lemma_part_occurrence(parts.drop_last(), sep, t, k);
            let i = choose|i: int| text::occurs_at(pre, t, i);
            assert(whole.subrange(i, i + n) =~= pre.subrange(i, i + n));
            assert(text::occurs_at(whole, t, i));
        }
    }
}

/// Redacting plain words joined by spaces for `m` redacts each word.
proof fn lemma_redact_joined(parts: Seq<Seq<char>>, m: Seq<char>)
    requires
        forall|k: int| 0 <= k < parts.len() ==> plain_word(#[trigger] parts[k]),
    ensures
        redact_marker(text::join(parts, " "@), m) == text::join(
            parts.map_values(|w: Seq<char>| redact_word(w, m)),
            " "@,
        ),
{
    let x = text::join(parts, " "@);
    if text::contains(x, m) {
        lemma_words_of_join(parts);
    } else {
        assert forall|k: int| 0 <= k < parts.len() implies !text::contains(
            #[trigger] parts[k],
            m,
        ) by {
            if text::contains(parts[k], m) {
                lemma_part_occurrence(parts, " "@, m, k);
            }
        }
        assert(parts.map_values(|w: Seq<char>| redact_word(w, m)) =~= parts);
    }
}

proof fn lemma_replacement_is_plain()
    ensures
        plain_word("[redacted-token]"@),
{
    reveal_strlit("[redacted-token]");
}

/// Redacting plain words for a marker leaves plain words.
proof fn lemma_redact_words_plain(parts: Seq<Seq<char>>, m: Seq<char>)
    requires
        forall|k: int| 0 <= k < parts.len() ==> plain_word(#[trigger] parts[k]),
    ensures
        forall|k: int| 0 <= k < parts.len() ==> plain_word(#[trigger] redact_words(parts, m)[k]),
{
    lemma_replacement_is_plain();
}

/// Redaction in one pass: a text without a marker is left as it is; any
/// other becomes its words joined by single spaces, each word that holds a
/// marker replaced by `[redacted-token]`.
pub proof fn lemma_redaction_in_one_pass(s: Seq<char>)
    ensures
        redacted(s) == if holds_no_marker(s) {
            s
        } else {
            text::join(words(s).map_values(|w: Seq<char>| redact_any(w)), " "@)
        },
{
    let m1 = "ghp_"@;
    let m2 = "gho_"@;
    let m3 = "github_pat_"@;
    let ws = words(s);
    let p1 = redact_words(ws, m1);
    let p2 = redact_words(p1, m2);
    let p3 = redact_words(p2, m3);
    let r1 = redact_marker(s, m1);
    let r2 = redact_marker(r1, m2);
    if !holds_no_marker(s) {
        lemma_words_are_plain(s);
        lemma_redact_words_plain(ws, m1);
        lemma_redact_words_plain(p1, m2);
        assert forall|k: int| 0 <= k < ws.len() implies {
            &&& text::contains(#[trigger] ws[k], m1) ==> text::contains(s, m1)
            &&& text::contains(ws[k], m2) ==> text::contains(s, m2)
        } by {
            if text::contains(ws[k], m1) {
                lemma_word_occurrence(s, m1, k);
            }
            if text::contains(ws[k], m2) {
                lemma_word_occurrence(s, m2, k);
            }
        }
        if text::contains(s, m1) {
            assert(r1 == text::join(p1, " "@));
            lemma_redact_joined(p1, m2);
            lemma_redact_joined(p2, m3);
        } else if text::contains(s, m2) {
            assert(p1 =~= ws);
            assert(r2 == text::join(p2, " "@));
            lemma_redact_joined(p2, m3);
        } else {
            assert(p1 =~= ws);
            assert(p2 =~= ws);
        }
        lemma_replacement_holds_no_marker(m1);
        lemma_replacement_holds_no_marker(m2);
        lemma_replacement_holds_no_marker(m3);
        assert(p3 =~= ws.map_values(|w: Seq<char>| redact_any(w)));
    }
}

fn redact_token_chars(v: Vec<char>) -> (r: Vec<char>)
    ensures
        r@ == redacted(v@),
{
    let a = redact_with(v, "ghp_");
    let b = redact_with(a, "gho_");
    redact_with(b, "github_pat_")
}

/// Replaces every whitespace-separated word that holds a GitHub-token marker.
pub fn redact_token_like(text: &str) -> (r: String)
    ensures
        r@ == redacted(text@),
{
    string_of(&redact_token_chars(chars_of(text)))
}

// ---------------------------------------------------------------------------
// Argument sanitizing
// ---------------------------------------------------------------------------

pub open spec fn hides_next(arg: Seq<char>) -> bool {
    arg == "--title"@ || arg == "--body"@
}

/// Whether the argument at `i` is a title or body value. An argument that was
/// itself replaced hides nothing after it.
pub open spec fn is_hidden(args: Seq<Seq<char>>, i: int) -> bool
    decreases i,
{
    if i <= 0 {
        false
    } else {
        !is_hidden(args, i - 1) && hides_next(args[i - 1])
    }
}

pub open spec fn sanitized(args: Seq<Seq<char>>) -> Seq<Seq<char>> {
    Seq::new(
        args.len(),
        |i: int|
            if is_hidden(args, i) {
                "[redacted]"@
            } else {
                redacted(args[i])
            },
    )
}

/// The `gh` arguments as the log records them: the value after `--title`
/// or `--body` replaced by `[redacted]`, token-looking words replaced.
pub fn sanitize_args_for_log(args: &[String]) -> (r: Vec<String>)
    ensures
        text::strs_of(r@) == sanitized(text::strs_of(args@)),
{
    let ghost a = text::strs_of(args@);
    let mut out: Vec<String> = Vec::new();
    let mut redact_next = false;
    let mut i: usize = 0;
    while i < args.len()
        invariant
            i <= args.len(),
            a == text::strs_of(args@),
            out.len() == i,
            redact_next == is_hidden(a, i as int),
            forall|k: int| 0 <= k < i ==> (#[trigger] out@[k])@ == sanitized(a)[k],
        decreases args.len() - i,
    {
        let arg = &args[i];
        if redact_next {
            out.push(owned("[redacted]"));
            redact_next = false;
        } else {
            out.push(redact_token_like(arg.as_str()));
            let cs = chars_of(arg.as_str());
            redact_next = eq_str(&cs, "--title") || eq_str(&cs, "--body");
        }
        i = i + 1;
    }
    assert(text::strs_of(out@) =~= sanitized(a));
    out
}

/// The title and body of an issue created or edited through `gh` never reach
/// the log: in the arguments as logged (with or without `-R owner/repo` in
/// front), both are `[redacted]`, whatever they and the labels say.
pub proof fn lemma_titles_and_bodies_are_not_logged(
    repo: Option<String>,
    number: u32,
    title: Seq<char>,
    body: Seq<char>,
    add: Seq<Seq<char>>,
    remove: Seq<Seq<char>>,
)
    ensures
        ({
            let k: int = if repo is Some {
                2
            } else {
                0
            };
            let created = sanitized(gh::full_args_spec(repo, gh::create_args_spec(title, body, add)));
            let edited = sanitized(
                gh::full_args_spec(repo, gh::edit_args_spec(number, title, body, add, remove)),
            );
            &&& created[k + 3] == "[redacted]"@
            &&& created[k + 5] == "[redacted]"@
            &&& edited[k + 4] == "[redacted]"@
            &&& edited[k + 6] == "[redacted]"@
        }),
{
    reveal_strlit("--title");
    reveal_strlit("--body");
    reveal_strlit("-R");
    reveal_strlit("issue");
    reveal_strlit("create");
    reveal_strlit("edit");
    let k: int = if repo is Some {
        2
    } else {
        0
    };
    let c = gh::full_args_spec(repo, gh::create_args_spec(title, body, add));
    let e = gh::full_args_spec(repo, gh::edit_args_spec(number, title, body, add, remove));
    assert(c.len() >= k + 6);
    assert(e.len() >= k + 7);
    assert(c[k] == "issue"@ && c[k + 1] == "create"@ && c[k + 2] == "--title"@ && c[k + 4]
        == "--body"@);
    assert(e[k] == "issue"@ && e[k + 1] == "edit"@ && e[k + 3] == "--title"@ && e[k + 5]
        == "--body"@);
    assert("issue"@.len() == 5 && "create"@.len() == 6 && "edit"@.len() == 4);
    assert("--title"@.len() == 7 && "--body"@.len() == 6);
    assert("create"@ != "--body"@) by {
        assert("create"@[0] != "--body"@[0]);
    }
    assert(!hides_next(c[k]) && !hides_next(c[k + 1]));
    assert(!hides_next(e[k]) && !hides_next(e[k + 1]));
    text::lemma_decimal_digits(number as nat);
    assert(text::is_digit(text::decimal(number as nat)[0]));
    assert(!hides_next(e[k + 2])) by {
        if e[k + 2].len() > 0 {
            assert(e[k + 2][0] != '-');
        }
    }
    assert(!is_hidden(c, k + 2));
    assert(is_hidden(c, k + 3));
    assert(!is_hidden(c, k + 4));
    assert(is_hidden(c, k + 5));
    assert(!is_hidden(e, k + 2));
    assert(!is_hidden(e, k + 3));
    assert(is_hidden(e, k + 4));
    assert(!is_hidden(e, k + 5));
    assert(is_hidden(e, k + 6));
}

// ---------------------------------------------------------------------------
// Log lines
// ---------------------------------------------------------------------------

/// Newlines and carriage returns written as `\n` and `\r`.
pub open spec fn escaped(s: Seq<char>) -> Seq<char>
    decreases s.len(),
{
    if s.len() == 0 {
        seq![]
    } else {
        escaped(s.drop_last()) + if s.last() == '\n' {
            seq!['\\', 'n']
        } else if s.last() == '\r' {
            seq!['\\', 'r']
        } else {
            seq![s.last()]
        }
    }
}

/// At most `max` characters of the escaped text, marked when cut, with
/// token-looking words replaced.
pub open spec fn compacted(s: Seq<char>, max: nat) -> Seq<char> {
    let e = escaped(s);
    if e.len() > max {
        redacted(e.take(max as int) + "...[truncated]"@)
    } else {
        redacted(e)
    }
}

pub fn compact_text(text: &str, max_chars: usize) -> (r: String)
    ensures
        r@ == compacted(text@, max_chars as nat),
{
    let src = chars_of(text);
    let mut e: Vec<char> = Vec::new();
    let mut i: usize = 0;
    while i < src.len()
        invariant
            i <= src.len(),
            e@ == escaped(src@.take(i as int)),
        decreases src.len() - i,
    {
        let c = src[i];
        assert(src@.take(i + 1).drop_last() =~= src@.take(i as int));
        if c == '\n' {
            e.push('\\');
            e.push('n');
        } else if c == '\r' {
            e.push('\\');
            e.push('r');
        } else {
            e.push(c);
        }
        i = i + 1;
        assert(e@ =~= escaped(src@.take(i as int)));
    }
    assert(src@.take(src.len() as int) =~= src@);
    let out = if e.len() > max_chars {
        let mut cut = slice_of(&e, 0, max_chars);
        append_str(&mut cut, "...[truncated]");
        cut
    } else {
        e
    };
    string_of(&redact_token_chars(out))
}

/// Trailing `\r` and `\n` characters removed.
pub open spec fn without_line_ends(s: Seq<char>) -> Seq<char>
    decreases s.len(),
{
    if s.len() > 0 && (s.last() == '\r' || s.last() == '\n') {
        without_line_ends(s.drop_last())
    } else {
        s
    }
}

pub fn trim_trailing(text: &str) -> (r: String)
    ensures
        r@ == without_line_ends(text@),
{
    let v = chars_of(text);
    let mut k: usize = v.len();
    assert(v@.subrange(0, v.len() as int) =~= v@);
    while k > 0 && (v[k - 1] == '\r' || v[k - 1] == '\n')
        invariant
            k <= v.len(),
            without_line_ends(v@) == without_line_ends(v@.subrange(0, k as int)),
        decreases k,
    {
        assert(v@.subrange(0, k as int).drop_last() =~= v@.subrange(0, k - 1));
        k = k - 1;
    }
    string_of(&slice_of(&v, 0, k))
}

/// A hexadecimal digit, lower case, for `n < 16`.
pub open spec fn hex_digit(n: u32) -> char {
    "0123456789abcdef"@[n as int]
}

/// How serde_json writes one character inside a JSON string: `"` and `\`
/// behind a backslash, the short escapes for backspace, tab, line feed, form
/// feed and carriage return, `\u00` and two lower-case hex digits for the
/// other control characters below U+0020, and anything else as it is.
pub open spec fn json_char(c: char) -> Seq<char> {
    let u = c as u32;
    if c == '"' {
        seq!['\\', '"']
    } else if c == '\\' {
        seq!['\\', '\\']
    } else if u == 8 {
        seq!['\\', 'b']
    } else if u == 9 {
        seq!['\\', 't']
    } else if u == 10 {
        seq!['\\', 'n']
    } else if u == 12 {
        seq!['\\', 'f']
    } else if u == 13 {
        seq!['\\', 'r']
    } else if u < 32 {
        seq!['\\', 'u', '0', '0', hex_digit(u / 16), hex_digit(u % 16)]
    } else {
        seq![c]
    }
}

/// The characters of `s`, each written as `json_char` writes it.
pub open spec fn json_escaped(s: Seq<char>) -> Seq<char>
    decreases s.len(),
{
    if s.len() == 0 {
        seq![]
    } else {
        json_escaped(s.drop_last()) + json_char(s.last())
    }
}

/// A JSON string: the escaped text between double quotes.
pub open spec fn json_string(s: Seq<char>) -> Seq<char> {
    seq!['"'] + json_escaped(s) + seq!['"']
}

/// A compact JSON array of strings: `[`, the strings joined by `,`, `]`.
pub open spec fn json_string_array(items: Seq<Seq<char>>) -> Seq<char> {
    seq!['['] + text::join(items.map_values(|s: Seq<char>| json_string(s)), seq![',']) + seq![']']
}

/// `serde_json::to_string` on a list of strings: the compact JSON array
/// `json_string_array` describes (serde_json's compact formatter writes `[`,
/// the elements separated by `,`, and `]`, and each string between quotes
/// with the escapes of its `ESCAPE` table). It does not fail here:
/// serializing strings into a byte vector has no error path in serde_json's
/// serializer (its only errors come from the writer, and writing to a `Vec`
/// cannot fail).
#[verifier::external_body]
fn to_json_array(items: &Vec<String>) -> (r: Option<String>)
    ensures
        r is Some,
        r matches Some(s) ==> s@ == json_string_array(text::strs_of(items@)),
{
    serde_json::to_string(items).ok()
}

/// The sanitized arguments as a JSON array.
pub fn json_args(args: &[String]) -> (r: String)
    ensures
        r@ == json_string_array(sanitized(text::strs_of(args@))),
{
    let clean = sanitize_args_for_log(args);
    match to_json_array(&clean) {
        Some(s) => s,
        None => owned("[]"),
    }
}

/// `ts_ms=<ms> event=<label>`.
pub fn event_line(ts_ms: u128, label: &str) -> (r: String)
    ensures
        r@ == "ts_ms="@ + text::decimal(ts_ms as nat) + " event="@ + label@,
{
    let mut v = chars_of("ts_ms=");
    push_decimal(&mut v, ts_ms);
    append_str(&mut v, " event=");
    append_str(&mut v, label);
    string_of(&v)
}

/// `ts=<s> gh args=<json> elapsed_ms=<ms> spawn_error=<compacted error>`.
pub fn spawn_error_line(ts: u64, args: &[String], elapsed_ms: u128, error: &str) -> (r: String)
    ensures
        r@ == "ts="@ + text::decimal(ts as nat) + " gh args="@ + json_string_array(
            sanitized(text::strs_of(args@)),
        ) + " elapsed_ms="@ + text::decimal(elapsed_ms as nat) + " spawn_error="@ + compacted(
            error@,
            1000,
        ),
{
    let json = json_args(args);
    let mut v = chars_of("ts=");
    push_decimal(&mut v, ts as u128);
    append_str(&mut v, " gh args=");
    append_str(&mut v, json.as_str());
    append_str(&mut v, " elapsed_ms=");
    push_decimal(&mut v, elapsed_ms);
    append_str(&mut v, " spawn_error=");
    let c = compact_text(error, 1000);
    append_str(&mut v, c.as_str());
    string_of(&v)
}

/// `ts=<s> gh args=<json> elapsed_ms=<ms> status=<status> success=<bool>
/// stdout_bytes=<n> stderr=<compacted stderr>`.
pub fn result_line(
    ts: u64,
    args: &[String],
    elapsed_ms: u128,
    status: &str,
    success: bool,
    stdout_bytes: usize,
    stderr: &str,
) -> (r: String)
    ensures
        r@ == "ts="@ + text::decimal(ts as nat) + " gh args="@ + json_string_array(
            sanitized(text::strs_of(args@)),
        ) + " elapsed_ms="@ + text::decimal(elapsed_ms as nat) + " status="@ + status@
            + " success="@ + (if success {
            "true"@
        } else {
            "false"@
        }) + " stdout_bytes="@ + text::decimal(stdout_bytes as nat) + " stderr="@ + compacted(
            stderr@,
            2000,
        ),
{
    let json = json_args(args);
    let mut v = chars_of("ts=");
    push_decimal(&mut v, ts as u128);
    append_str(&mut v, " gh args=");
    append_str(&mut v, json.as_str());
    append_str(&mut v, " elapsed_ms=");
    push_decimal(&mut v, elapsed_ms);
    append_str(&mut v, " status=");
    append_str(&mut v, status);
    append_str(&mut v, " success=");
    append_str(&mut v, if success { "true" } else { "false" });
    append_str(&mut v, " stdout_bytes=");
    push_decimal(&mut v, stdout_bytes as u128);
    append_str(&mut v, " stderr=");
    let c = compact_text(stderr, 2000);
    append_str(&mut v, c.as_str());
    string_of(&v)
}

} // verus!
