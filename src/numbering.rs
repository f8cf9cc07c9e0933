//! Sequence numbers that give each member of a group a distinct place in
//! `1..=n`, where `n` counts the members ever added to the group.
use vstd::prelude::*;
use vstd::set_lib::{lemma_int_range, lemma_map_size, lemma_subset_equality, set_int_range};

verus! {

/// The `n` members of `members` carry distinct numbers, each in `1..=n`.
pub open spec fn numbered_one_to(members: Set<u64>, nr: spec_fn(u64) -> int, n: int) -> bool {
    &&& members.finite()
    &&& members.len() == n
    &&& forall|k: u64| #[trigger] members.contains(k) ==> 1 <= nr(k) <= n
    &&& forall|k1: u64, k2: u64|
        #[trigger] members.contains(k1) && #[trigger] members.contains(k2) && nr(k1) == nr(k2)
            ==> k1 == k2
}

/// Numbering is kept when the numbers of the members are kept.
pub proof fn lemma_numbered_same(
    members: Set<u64>,
    nr: spec_fn(u64) -> int,
    n: int,
    members2: Set<u64>,
    nr2: spec_fn(u64) -> int,
)
    requires
        numbered_one_to(members, nr, n),
        members2 == members,
        forall|k: u64| #[trigger] members.contains(k) ==> nr2(k) == nr(k),
    ensures
        numbered_one_to(members2, nr2, n),
{
}

/// Adding a new member with the next number keeps the numbering.
pub proof fn lemma_numbered_insert(
    members: Set<u64>,
    nr: spec_fn(u64) -> int,
    n: int,
    k: u64,
    nr2: spec_fn(u64) -> int,
)
    requires
        numbered_one_to(members, nr, n),
        !members.contains(k),
        forall|j: u64| #[trigger] members.contains(j) ==> nr2(j) == nr(j),
        nr2(k) == n + 1,
    ensures
        numbered_one_to(members.insert(k), nr2, n + 1),
{
    let s = members.insert(k);
    assert forall|j: u64| #[trigger] s.contains(j) implies 1 <= nr2(j) <= n + 1 by {
        if j != k {
            assert(members.contains(j));
        }
    }
    assert forall|k1: u64, k2: u64|
        #[trigger] s.contains(k1) && #[trigger] s.contains(k2) && nr2(k1) == nr2(k2) implies k1
        == k2 by {
        if k1 != k && k2 != k {
            assert(members.contains(k1) && members.contains(k2));
        } else if k1 != k {
            assert(members.contains(k1));
        } else if k2 != k {
            assert(members.contains(k2));
        }
    }
}

/// Numbered members use up every number in `1..=n`: no number is skipped
/// and none is used twice.
pub proof fn lemma_numbered_covers(members: Set<u64>, nr: spec_fn(u64) -> int, n: int)
    requires
        numbered_one_to(members, nr, n),
    ensures
        members.map(nr) == set_int_range(1, n + 1),
{
    let img = members.map(nr);
    let range = set_int_range(1, n + 1);
    assert(vstd::relations::injective_on(nr, members)) by {
        assert forall|x1: u64, x2: u64|
            members.contains(x1) && members.contains(x2) && #[trigger] nr(x1) == #[trigger] nr(x2)
            implies x1 == x2 by {}
    }
    lemma_map_size(members, img, nr);
    assert(n >= 0);
    lemma_int_range(1, n + 1);
    assert(img.subset_of(range));
    lemma_subset_equality(img, range);
}

} // verus!
