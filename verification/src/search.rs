//! Ranking issue titles against the search query. Matching ignores ASCII
//! case. Titles that hold the query as one run of characters come first,
//! then titles that hold its characters in order with gaps; within each
//! group titles keep their list order, and titles that match neither way are
//! left out.

use crate::text;
use crate::text::{chars_of, contains_seq, lowered, subsequence};
use vstd::prelude::*;

verus! {

/// The title holds the query as one run.
pub open spec fn exact_match(query: Seq<char>, title: Seq<char>) -> bool {
    text::contains(text::lower(title), text::lower(query))
}

/// The title holds the query's characters in order, but not as one run.
pub open spec fn loose_match(query: Seq<char>, title: Seq<char>) -> bool {
    !exact_match(query, title) && text::is_subseq(text::lower(query), text::lower(title))
}

/// Indices among the first `n` titles that satisfy `accept`, in order.
pub open spec fn picked(titles: Seq<Seq<char>>, n: nat, accept: spec_fn(Seq<char>) -> bool) -> Seq<
    usize,
>
    decreases n,
{
    if n == 0 {
        seq![]
    } else if accept(titles[n - 1]) {
        picked(titles, (n - 1) as nat, accept).push((n - 1) as usize)
    } else {
        picked(titles, (n - 1) as nat, accept)
    }
}

pub open spec fn exact_for(query: Seq<char>) -> spec_fn(Seq<char>) -> bool {
    |t: Seq<char>| exact_match(query, t)
}

pub open spec fn loose_for(query: Seq<char>) -> spec_fn(Seq<char>) -> bool {
    |t: Seq<char>| loose_match(query, t)
}

pub open spec fn ranked(query: Seq<char>, titles: Seq<Seq<char>>) -> Seq<usize> {
    picked(titles, titles.len(), exact_for(query)) + picked(titles, titles.len(), loose_for(query))
}

/// The indices of the matching titles, best matches first.
pub fn rank(query: &str, titles: &Vec<String>) -> (r: Vec<usize>)
    ensures
        r@ == ranked(query@, text::strs_of(titles@)),
{
    let q = lowered(&chars_of(query));
    let ghost ts = text::strs_of(titles@);
    let mut lowered_titles: Vec<Vec<char>> = Vec::new();
    let mut i: usize = 0;
    while i < titles.len()
        invariant
            i <= titles.len(),
            ts == text::strs_of(titles@),
            lowered_titles.len() == i,
            forall|k: int| 0 <= k < i ==> (#[trigger] lowered_titles@[k])@ == text::lower(ts[k]),
        decreases titles.len() - i,
    {
        lowered_titles.push(lowered(&chars_of(titles[i].as_str())));
        i = i + 1;
    }
    let mut first: Vec<usize> = Vec::new();
    let mut second: Vec<usize> = Vec::new();
    let mut j: usize = 0;
    while j < titles.len()
        invariant
            j <= titles.len() == lowered_titles.len(),
            ts == text::strs_of(titles@),
            q@ == text::lower(query@),
            forall|k: int| 0 <= k < titles.len() ==> (#[trigger] lowered_titles@[k])@ == text::lower(ts[k]),
            first@ == picked(ts, j as nat, exact_for(query@)),
            second@ == picked(ts, j as nat, loose_for(query@)),
        decreases titles.len() - j,
    {
        let t = &lowered_titles[j];
        assert(exact_for(query@)(ts[j as int]) == exact_match(query@, ts[j as int]));
        assert(loose_for(query@)(ts[j as int]) == loose_match(query@, ts[j as int]));
        assert(picked(ts, (j + 1) as nat, exact_for(query@)) == if exact_for(query@)(ts[j as int]) {
            picked(ts, j as nat, exact_for(query@)).push(j)
        } else {
            picked(ts, j as nat, exact_for(query@))
        });
        assert(picked(ts, (j + 1) as nat, loose_for(query@)) == if loose_for(query@)(ts[j as int]) {
            picked(ts, j as nat, loose_for(query@)).push(j)
        } else {
            picked(ts, j as nat, loose_for(query@))
        });
        if contains_seq(t, &q) {
            first.push(j);
        } else if subsequence(&q, t) {
            second.push(j);
        }
        j = j + 1;
    }
    first.append(&mut second);
    first
}

/// Skipping a character of the text keeps every subsequence of what is left.
proof fn lemma_subseq_of_tail(q: Seq<char>, t: Seq<char>)
    requires
        t.len() > 0,
        text::is_subseq(q, t.drop_first()),
    ensures
        text::is_subseq(q, t),
    decreases t.len(), 0nat,
{
    if q.len() > 0 && q[0] == t[0] {
        lemma_subseq_drop_first(q, t.drop_first());
    }
}

/// Dropping the first character of the query keeps it a subsequence.
proof fn lemma_subseq_drop_first(q: Seq<char>, t: Seq<char>)
    requires
        q.len() > 0,
        text::is_subseq(q, t),
    ensures
        text::is_subseq(q.drop_first(), t),
    decreases t.len(), 1nat,
{
    if t.len() > 0 {
        if q[0] == t[0] {
            lemma_subseq_of_tail(q.drop_first(), t);
        } else {
            lemma_subseq_drop_first(q, t.drop_first());
            lemma_subseq_of_tail(q.drop_first(), t);
        }
    }
}

/// A prefix of the text is a subsequence of it.
proof fn lemma_prefix_is_subseq(q: Seq<char>, t: Seq<char>)
    requires
        text::starts_with(t, q),
    ensures
        text::is_subseq(q, t),
    decreases q.len(),
{
    if q.len() > 0 {
        assert(t.subrange(0, q.len() as int)[0] == t[0]);
        assert(t.drop_first().subrange(0, q.drop_first().len() as int) =~= t.subrange(
            0,
            q.len() as int,
        ).drop_first());
        lemma_prefix_is_subseq(q.drop_first(), t.drop_first());
    }
}

/// A run of the text is a subsequence of it.
proof fn lemma_run_is_subseq(q: Seq<char>, t: Seq<char>, k: int)
    requires
        text::occurs_at(t, q, k),
    ensures
        text::is_subseq(q, t),
    decreases k,
{
    if k == 0 {
        lemma_prefix_is_subseq(q, t);
    } else {
        assert(t.drop_first().subrange(k - 1, k - 1 + q.len()) =~= t.subrange(k, k + q.len()));
        lemma_run_is_subseq(q, t.drop_first(), k - 1);
        lemma_subseq_of_tail(q, t);
    }
}

/// What `picked` gives: the accepted indices below `n`, each once, in order.
proof fn lemma_picked(titles: Seq<Seq<char>>, n: nat, accept: spec_fn(Seq<char>) -> bool)
    requires
        n <= titles.len(),
        n <= usize::MAX,
    ensures
        forall|k: int|
            0 <= k < picked(titles, n, accept).len() ==> (#[trigger] picked(titles, n, accept)[k])
                < n && accept(titles[picked(titles, n, accept)[k] as int]),
        forall|i: int|
            0 <= i < n && accept(#[trigger] titles[i]) ==> picked(titles, n, accept).contains(
                i as usize,
            ),
        forall|a: int, b: int|
            0 <= a < b < picked(titles, n, accept).len() ==> picked(titles, n, accept)[a]
                < picked(titles, n, accept)[b],
    decreases n,
{
    if n > 0 {
        lemma_picked(titles, (n - 1) as nat, accept);
        let p = picked(titles, (n - 1) as nat, accept);
        if !accept(titles[n - 1]) {
            assert(picked(titles, n, accept) == p);
        } else {
            let q = p.push((n - 1) as usize);
            assert(picked(titles, n, accept) == q);
            assert(q[p.len() as int] == (n - 1) as usize);
            assert forall|k: int| 0 <= k < q.len() implies (#[trigger] q[k]) < n && accept(
                titles[q[k] as int],
            ) by {
                if k < p.len() {
                    assert(q[k] == p[k]);
                }
            }
            assert forall|a: int, b: int| 0 <= a < b < q.len() implies q[a] < q[b] by {
                assert(q[a] == p[a]);
                if b < p.len() {
                    assert(q[b] == p[b]);
                }
            }
            assert forall|i: int| 0 <= i < n && accept(#[trigger] titles[i]) implies q.contains(
                i as usize,
            ) by {
                if i < n - 1 {
                    let k = choose|k: int| 0 <= k < p.len() && p[k] == i as usize;
                    assert(q[k] == i as usize);
                } else {
                    assert(q[p.len() as int] == i as usize);
                }
            }
        }
    }
}

/// Searching finds every title that holds the query's characters in order,
/// whatever lies between them, and nothing else; each title comes once;
/// titles that hold the query as one run come before those that hold it
/// only with gaps; and within each of the two groups titles keep their list
/// order. Case is ignored throughout.
pub proof fn lemma_rank_finds_every_fuzzy_match(query: Seq<char>, titles: Seq<Seq<char>>)
    requires
        titles.len() <= usize::MAX,
    ensures
        ({
            let r = ranked(query, titles);
            let q = text::lower(query);
            &&& forall|i: int|
                0 <= i < titles.len() ==> (r.contains(i as usize) <==> text::is_subseq(
                    q,
                    text::lower(#[trigger] titles[i]),
                ))
            &&& forall|k: int| 0 <= k < r.len() ==> (#[trigger] r[k] as int) < titles.len()
            &&& r.no_duplicates()
            &&& forall|a: int, b: int|
                0 <= a < b < r.len() && text::contains(text::lower(titles[r[b] as int]), q)
                    ==> text::contains(text::lower(titles[r[a] as int]), q)
            &&& forall|a: int, b: int|
                0 <= a < b < r.len() && (text::contains(text::lower(titles[r[a] as int]), q)
                    == text::contains(text::lower(titles[r[b] as int]), q)) ==> r[a] < r[b]
        }),
{
    let r = ranked(query, titles);
    let q = text::lower(query);
    let n = titles.len();
    let e = picked(titles, n, exact_for(query));
    let l = picked(titles, n, loose_for(query));
    lemma_picked(titles, n, exact_for(query));
    lemma_picked(titles, n, loose_for(query));
    assert(r == e + l);
    assert forall|k: int| 0 <= k < e.len() implies text::contains(
        text::lower(titles[#[trigger] e[k] as int]),
        q,
    ) by {
        assert(exact_for(query)(titles[e[k] as int]));
    }
    assert forall|k: int| 0 <= k < l.len() implies !text::contains(
        text::lower(titles[#[trigger] l[k] as int]),
        q,
    ) && text::is_subseq(q, text::lower(titles[l[k] as int])) by {
        assert(loose_for(query)(titles[l[k] as int]));
    }
    assert forall|i: int| 0 <= i < titles.len() implies (r.contains(i as usize)
        <==> text::is_subseq(q, text::lower(#[trigger] titles[i]))) by {
        let lt = text::lower(titles[i]);
        if text::contains(lt, q) {
            let k = choose|k: int| text::occurs_at(lt, q, k);
            lemma_run_is_subseq(q, lt, k);
            assert(exact_for(query)(titles[i]));
            let j = choose|j: int| 0 <= j < e.len() && e[j] == i as usize;
            assert(r[j] == i as usize);
        } else if text::is_subseq(q, lt) {
            assert(loose_for(query)(titles[i]));
            let j = choose|j: int| 0 <= j < l.len() && l[j] == i as usize;
            assert(r[e.len() + j] == i as usize);
        }
        if r.contains(i as usize) {
            let j = choose|j: int| 0 <= j < r.len() && r[j] == i as usize;
            if j < e.len() {
                assert(e[j] == i as usize);
                assert(exact_for(query)(titles[e[j] as int]));
                assert(text::contains(lt, q));
                let k = choose|k: int| text::occurs_at(lt, q, k);
                lemma_run_is_subseq(q, lt, k);
            } else {
                assert(l[j - e.len()] == i as usize);
                assert(loose_for(query)(titles[l[j - e.len()] as int]));
            }
        }
    }
    assert forall|a: int, b: int| 0 <= a < r.len() && 0 <= b < r.len() && a != b implies r[a]
        != r[b] by {
        if a < e.len() && b >= e.len() {
            assert(r[a] == e[a] && r[b] == l[b - e.len()]);
        } else if b < e.len() && a >= e.len() {
            assert(r[b] == e[b] && r[a] == l[a - e.len()]);
        } else if a < e.len() {
            assert(r[a] == e[a] && r[b] == e[b]);
        } else {
            assert(r[a] == l[a - e.len()] && r[b] == l[b - e.len()]);
        }
    }
    assert forall|k: int| 0 <= k < r.len() implies (#[trigger] r[k] as int) < titles.len() by {
        if k < e.len() {
            assert(r[k] == e[k]);
        } else {
            assert(r[k] == l[k - e.len()]);
        }
    }
    assert forall|a: int, b: int|
        0 <= a < b < r.len() && text::contains(text::lower(titles[r[b] as int]), q) implies text::contains(
        text::lower(titles[r[a] as int]),
        q,
    ) by {
        if b < e.len() {
            assert(r[a] == e[a]);
        } else {
            assert(r[b] == l[b - e.len()]);
        }
    }
    assert forall|a: int, b: int|
        0 <= a < b < r.len() && (text::contains(text::lower(titles[r[a] as int]), q)
            == text::contains(text::lower(titles[r[b] as int]), q)) implies r[a] < r[b] by {
        if b < e.len() {
            assert(r[a] == e[a] && r[b] == e[b]);
        } else if a >= e.len() {
            assert(r[a] == l[a - e.len()] && r[b] == l[b - e.len()]);
        } else {
            assert(r[a] == e[a] && r[b] == l[b - e.len()]);
        }
    }
}

} // verus!
