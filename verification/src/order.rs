//! Visibility ordering: sorting index lists by a camera-space depth key.
//!
//! The painter's algorithm draws in ascending key order; entries pair a
//! depth key with the index of the object or triangle it belongs to.
//! The sort is stable, so entries with equal keys keep their input
//! order (callers may not depend on more than ascending keys: equal
//! keys mean coplanar geometry with no visible seam).

use vstd::prelude::*;

verus! {

/// The entries of `s` are ascending in their depth key.
pub open spec fn sorted_by_key(s: Seq<(i128, usize)>) -> bool {
    forall|i: int, j: int| 0 <= i < j < s.len() ==> (#[trigger] s[i]).0 <= (#[trigger] s[j]).0
}

/// `x` placed into `s` after every leading entry whose key is not
/// larger: the insertion step of a stable insertion sort.
pub open spec fn s_insert(s: Seq<(i128, usize)>, x: (i128, usize)) -> Seq<(i128, usize)>
    decreases s.len(),
{
    if s.len() == 0 {
        seq![x]
    } else if s[0].0 <= x.0 {
        seq![s[0]] + s_insert(s.drop_first(), x)
    } else {
        seq![x] + s
    }
}

/// The stable insertion sort of `s`, ascending by key.
pub open spec fn s_sort(s: Seq<(i128, usize)>) -> Seq<(i128, usize)>
    decreases s.len(),
{
    if s.len() == 0 {
        Seq::<(i128, usize)>::empty()
    } else {
        s_insert(s_sort(s.drop_last()), s.last())
    }
}

/// Inserting at the first position whose key exceeds the new entry's is
/// what [`s_insert`] denotes.
proof fn lemma_insert_at(s: Seq<(i128, usize)>, x: (i128, usize), j: int)
    requires
        0 <= j <= s.len(),
        forall|k: int| 0 <= k < j ==> (#[trigger] s[k]).0 <= x.0,
        j < s.len() ==> s[j].0 > x.0,
    ensures
        s_insert(s, x) == s.insert(j, x),
    decreases s.len(),
{
    if s.len() == 0 {
        assert(s.insert(0, x) =~= seq![x]);
    } else if s[0].0 <= x.0 {
        assert(j != 0);
        assert(forall|k: int| 0 <= k < j - 1 ==> (#[trigger] s.drop_first()[k]).0 <= x.0);
        lemma_insert_at(s.drop_first(), x, j - 1);
        assert(seq![s[0]] + s.drop_first().insert(j - 1, x) =~= s.insert(j, x));
    } else {
        assert(j == 0);
        assert(seq![x] + s =~= s.insert(0, x));
    }
}

/// Sorts depth-keyed entries ascending by key: exactly the stable
/// insertion sort [`s_sort`] denotes, a permutation of the input.
pub fn sort_by_key(v: &Vec<(i128, usize)>) -> (r: Vec<(i128, usize)>)
    ensures
        r@ == s_sort(v@),
        sorted_by_key(r@),
        r@.to_multiset() == v@.to_multiset(),
        r@.len() == v@.len(),
{
    broadcast use vstd::seq_lib::group_to_multiset_ensures;

    let mut r: Vec<(i128, usize)> = Vec::new();
    let mut i: usize = 0;
    proof {
        assert(v@.subrange(0, 0) =~= Seq::<(i128, usize)>::empty());
        assert(r@.to_multiset() =~= v@.subrange(0, 0).to_multiset());
    }
    while i < v.len()
        invariant
            i <= v.len(),
            r@.len() == i,
            sorted_by_key(r@),
            r@ == s_sort(v@.subrange(0, i as int)),
            r@.to_multiset() == v@.subrange(0, i as int).to_multiset(),
        decreases v.len() - i,
    {
        let x: (i128, usize) = v[i];
        let mut j: usize = 0;
        while j < r.len() && r[j].0 <= x.0
            invariant
                j <= r@.len(),
                forall|k: int| 0 <= k < j ==> (#[trigger] r@[k]).0 <= x.0,
            decreases r@.len() - j,
        {
            j += 1;
        }
        let ghost r_old = r@;
        r.insert(j, x);
        proof {
            assert(r@ =~= r_old.insert(j as int, x));
            assert forall|a: int, b: int| 0 <= a < b < r@.len() implies (#[trigger] r@[a]).0 <= (
            #[trigger] r@[b]).0 by {
                assert(forall|k: int| 0 <= k < j ==> r@[k] == r_old[k]);
                assert(forall|k: int| j < k < r@.len() ==> r@[k] == r_old[k - 1]);
            }
            lemma_insert_at(r_old, x, j as int);
            assert(v@.subrange(0, i + 1 as int) =~= v@.subrange(0, i as int).push(x));
            assert(v@.subrange(0, i + 1 as int).drop_last() =~= v@.subrange(0, i as int));
            assert(r@ == s_sort(v@.subrange(0, i + 1 as int)));
            vstd::seq_lib::to_multiset_insert(r_old, j as int, x);
            vstd::seq_lib::to_multiset_build(v@.subrange(0, i as int), x);
            assert(r@.to_multiset() =~= v@.subrange(0, i + 1 as int).to_multiset());
        }
        i += 1;
    }
    proof {
        assert(v@.subrange(0, v@.len() as int) =~= v@);
    }
    r
}

/// A permutation keeps every entry: anything found in the sorted list
/// was already in the input.
pub proof fn lemma_perm_elements(a: Seq<(i128, usize)>, b: Seq<(i128, usize)>)
    requires
        a.to_multiset() == b.to_multiset(),
    ensures
        forall|j: int| 0 <= j < b.len() ==> a.contains(#[trigger] b[j]),
{
    broadcast use vstd::seq_lib::group_to_multiset_ensures;

    assert forall|j: int| 0 <= j < b.len() implies a.contains(#[trigger] b[j]) by {
        assert(b.contains(b[j]));
        assert(b.to_multiset().count(b[j]) > 0);
    }
}

} // verus!
