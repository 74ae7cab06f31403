//! The set of checked issue numbers: toggling a number, and reading the set
//! back in ascending order.

use std::collections::BTreeSet;
use vstd::prelude::*;
use vstd::std_specs::btree::spec_btree_keys_iter;
use vstd::std_specs::cmp::OrdSpec;
use vstd::std_specs::iter::IteratorSpec;

verus! {

pub open spec fn strictly_increasing(q: Seq<u32>) -> bool {
    forall|i: int, j: int| 0 <= i < j < q.len() ==> q[i] < q[j]
}

/// The numbers of `s` from the smallest up.
pub open spec fn ascending(s: Set<u32>) -> Seq<u32> {
    choose|q: Seq<u32>| q.to_set() == s && strictly_increasing(q)
}

/// `s` with `n` added when it was missing and taken out when it was there.
pub open spec fn toggled(s: Set<u32>, n: u32) -> Set<u32> {
    if s.contains(n) {
        s.remove(n)
    } else {
        s.insert(n)
    }
}

/// Two increasing sequences of the same numbers are the same sequence.
proof fn lemma_increasing_unique(a: Seq<u32>, b: Seq<u32>)
    requires
        strictly_increasing(a),
        strictly_increasing(b),
        a.to_set() == b.to_set(),
    ensures
        a == b,
    decreases a.len(),
{
    if a.len() == 0 {
        if b.len() > 0 {
            assert(b.to_set().contains(b[0]));
        }
        assert(a =~= b);
    } else {
        assert(a.to_set().contains(a[0]));
        assert(b.len() > 0);
        assert(b.to_set().contains(b[0]));
        let k = choose|k: int| 0 <= k < b.len() && b[k] == a[0];
        let m = choose|m: int| 0 <= m < a.len() && a[m] == b[0];
        assert(a[0] <= a[m]);
        assert(b[0] <= b[k]);
        let a1 = a.drop_first();
        let b1 = b.drop_first();
        assert forall|x: u32| a1.to_set().contains(x) == b1.to_set().contains(x) by {
            if a1.to_set().contains(x) {
                let i = choose|i: int| 0 <= i < a1.len() && a1[i] == x;
                assert(a[i + 1] == x);
                assert(b.to_set().contains(x));
                let j = choose|j: int| 0 <= j < b.len() && b[j] == x;
                assert(j != 0);
                assert(b1[j - 1] == x);
            }
            if b1.to_set().contains(x) {
                let i = choose|i: int| 0 <= i < b1.len() && b1[i] == x;
                assert(b[i + 1] == x);
                assert(a.to_set().contains(x));
                let j = choose|j: int| 0 <= j < a.len() && a[j] == x;
                assert(j != 0);
                assert(a1[j - 1] == x);
            }
        }
        assert(a1.to_set() =~= b1.to_set());
        lemma_increasing_unique(a1, b1);
        assert(a =~= seq![a[0]] + a1);
        assert(b =~= seq![b[0]] + b1);
    }
}

/// The set's own walk gives its numbers from the smallest up.
proof fn lemma_walk_ascends(s: &BTreeSet<u32>)
    ensures
        spec_btree_keys_iter(s).remaining().unref().to_set() == s@,
        strictly_increasing(spec_btree_keys_iter(s).remaining().unref()),
{
    let rem = spec_btree_keys_iter(s).remaining();
    assert(vstd::std_specs::btree::increasing_seq(rem));
    assert(vstd::laws_cmp::obeys_cmp::<&u32>());
    let keys = rem.unref();
    assert forall|i: int, j: int| 0 <= i < j < keys.len() implies keys[i] < keys[j] by {
        assert((&rem[i]).cmp_spec(&&rem[j]) is Less);
    }
}

/// The numbers of `s` from the smallest up.
pub fn ascending_numbers(s: &BTreeSet<u32>) -> (r: Vec<u32>)
    ensures
        r@ == ascending(s@),
{
    let mut r: Vec<u32> = Vec::new();
    let ghost keys = spec_btree_keys_iter(s).remaining().unref();
    proof {
        lemma_walk_ascends(s);
    }
    for x in it: s.iter()
        invariant
            it.seq().unref() == keys,
            r@ == keys.take(it.index()),
            it.index() <= keys.len(),
    {
        r.push(*x);
        assert(r@ =~= keys.take(it.index() + 1));
    }
    assert(r@ =~= keys);
    proof {
        let q = ascending(s@);
        assert(r@.to_set() == s@ && strictly_increasing(r@));
        lemma_increasing_unique(q, r@);
    }
    r
}

/// Checks `n` when it was not checked, unchecks it when it was.
pub fn toggle_number(s: &mut BTreeSet<u32>, n: u32)
    ensures
        final(s)@ == toggled(old(s)@, n),
{
    if s.contains(&n) {
        s.remove(&n);
    } else {
        s.insert(n);
    }
}

} // verus!
