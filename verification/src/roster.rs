//! Ordering by identifier: the ascending order of identifiers, sorting of
//! identified items, and the comparison of a snapshot with the roster of
//! bodies it has to cover.

use vstd::prelude::*;
use vstd::multiset::Multiset;
use vstd::seq_lib::*;
use crate::ids::BodyId;

verus! {

/// Something that belongs to one body.
pub trait Identified {
    /// The body that the value belongs to.
    spec fn ident(&self) -> BodyId;

    /// The body that the value belongs to.
    fn id(&self) -> (id: BodyId)
        ensures
            id == self.ident(),
    ;
}

impl Identified for BodyId {
    open spec fn ident(&self) -> BodyId {
        *self
    }

    fn id(&self) -> BodyId {
        *self
    }
}

/// The identifiers of `items`, in the order of the items.
pub open spec fn ids_of<T: Identified>(items: Seq<T>) -> Seq<BodyId> {
    Seq::new(items.len(), |i: int| items[i].ident())
}

/// Each identifier comes strictly before all that follow it.
pub open spec fn ascending(ids: Seq<BodyId>) -> bool {
    forall|i: int, j: int| 0 <= i < j < ids.len() ==> ids[i].key() < ids[j].key()
}

/// No identifier comes before one that precedes it; repetitions are allowed.
pub open spec fn nondescending(ids: Seq<BodyId>) -> bool {
    forall|i: int, j: int| 0 <= i < j < ids.len() ==> ids[i].key() <= ids[j].key()
}

/// The empty sequence holds nothing.
proof fn lemma_nothing_holds_nothing<A>()
    ensures
        Seq::<A>::empty().to_multiset() == Multiset::<A>::empty(),
{
    broadcast use vstd::multiset::group_multiset_axioms;

    Seq::<A>::empty().to_multiset_ensures();
    assert(Seq::<A>::empty().to_multiset() =~= Multiset::<A>::empty());
}

/// Sorts `items` by identifier. The result holds the same items, and its
/// identifiers never descend.
pub fn sort_by_id<T: Identified>(items: Vec<T>) -> (sorted: Vec<T>)
    ensures
        nondescending(ids_of(sorted@)),
        sorted@.to_multiset() == items@.to_multiset(),
        ids_of(sorted@).to_multiset() == ids_of(items@).to_multiset(),
{
    broadcast use vstd::multiset::group_multiset_axioms;

    let ghost all = items@;
    let mut rest = items;
    let mut sorted: Vec<T> = Vec::new();
    proof {
        assert(ids_of(sorted@) =~= Seq::<BodyId>::empty());
        lemma_nothing_holds_nothing::<T>();
        lemma_nothing_holds_nothing::<BodyId>();
        assert(sorted@.to_multiset().add(rest@.to_multiset()) =~= all.to_multiset());
        assert(ids_of(sorted@).to_multiset().add(ids_of(rest@).to_multiset()) =~= ids_of(
            all,
        ).to_multiset());
    }
    while rest.len() > 0
        invariant
            nondescending(ids_of(sorted@)),
            sorted@.to_multiset().add(rest@.to_multiset()) == all.to_multiset(),
            ids_of(sorted@).to_multiset().add(ids_of(rest@).to_multiset()) == ids_of(
                all,
            ).to_multiset(),
        decreases rest.len(),
    {
        let ghost before_rest = rest@;
        let ghost before_sorted = sorted@;
        let item = rest.pop().unwrap();
        let id = item.id();
        assert(before_rest =~= rest@.push(item));
        assert(ids_of(before_rest) =~= ids_of(rest@).push(id));
        let mut at: usize = 0;
        while at < sorted.len() && sorted[at].id().precedes(&id)
            invariant
                at <= sorted.len(),
                id == item.ident(),
                sorted@ == before_sorted,
                forall|k: int| 0 <= k < at ==> (#[trigger] sorted@[k]).ident().key() < id.key(),
            decreases sorted.len() - at,
        {
            at = at + 1;
        }
        sorted.insert(at, item);
        proof {
            let ids_before = ids_of(before_sorted);
            let ids_after = ids_of(sorted@);
            assert(ids_after =~= ids_before.insert(at as int, id));
            assert(nondescending(ids_after)) by {
                assert forall|i: int, j: int| 0 <= i < j < ids_after.len() implies ids_after[i].key()
                    <= ids_after[j].key() by {
                    if j < at {
                        assert(ids_after[i] == ids_before[i] && ids_after[j] == ids_before[j]);
                    } else if j == at {
                        assert(ids_after[i] == before_sorted[i].ident());
                    } else if i < at {
                        assert(ids_after[i] == before_sorted[i].ident());
                        assert(ids_after[j] == ids_before[j - 1]);
                        assert(ids_before[at as int] == before_sorted[at as int].ident());
                        if at < j - 1 {
                            assert(ids_before[at as int].key() <= ids_before[j - 1].key());
                        }
                    } else if i == at {
                        assert(ids_after[j] == ids_before[j - 1]);
                        assert(ids_before[at as int] == before_sorted[at as int].ident());
                        if at < j - 1 {
                            assert(ids_before[at as int].key() <= ids_before[j - 1].key());
                        }
                    } else {
                        assert(ids_after[i] == ids_before[i - 1] && ids_after[j] == ids_before[j
                            - 1]);
                    }
                }
            }
            to_multiset_build(rest@, item);
            to_multiset_insert(before_sorted, at as int, item);
            assert(sorted@.to_multiset().add(rest@.to_multiset()) =~= before_sorted.to_multiset().add(
                before_rest.to_multiset(),
            ));
            to_multiset_build(ids_of(rest@), id);
            to_multiset_insert(ids_before, at as int, id);
            assert(ids_after.to_multiset().add(ids_of(rest@).to_multiset())
                =~= ids_before.to_multiset().add(ids_of(before_rest).to_multiset()));
        }
    }
    proof {
        assert(rest@ =~= Seq::<T>::empty());
        assert(ids_of(rest@) =~= Seq::<BodyId>::empty());
        lemma_nothing_holds_nothing::<T>();
        lemma_nothing_holds_nothing::<BodyId>();
        assert(sorted@.to_multiset() =~= sorted@.to_multiset().add(rest@.to_multiset()));
        assert(ids_of(sorted@).to_multiset() =~= ids_of(sorted@).to_multiset().add(
            ids_of(rest@).to_multiset(),
        ));
    }
    sorted
}

/// How often `id` occurs in `ids`.
pub open spec fn occurrences(ids: Seq<BodyId>, id: BodyId) -> nat {
    ids.to_multiset().count(id)
}

/// Whether `id` occurs in `ids` more or less often than in `roster`.
pub open spec fn miscounted(roster: Seq<BodyId>, ids: Seq<BodyId>, id: BodyId) -> bool {
    occurrences(roster, id) != occurrences(ids, id)
}

/// Whether `id` is the first identifier, in ascending order, that occurs in
/// `ids` more or less often than in `roster`.
pub open spec fn least_miscounted(roster: Seq<BodyId>, ids: Seq<BodyId>, id: BodyId) -> bool {
    &&& miscounted(roster, ids, id)
    &&& forall|other: BodyId| miscounted(roster, ids, other) ==> id.key() <= other.key()
}

/// In a sequence that never descends, an identifier that comes before the
/// one at `from` occurs only in front of `from`.
proof fn lemma_occurs_in_front(ids: Seq<BodyId>, from: int, id: BodyId)
    requires
        nondescending(ids),
        0 <= from <= ids.len(),
        from < ids.len() ==> id.key() < ids[from].key(),
    ensures
        occurrences(ids, id) == occurrences(ids.take(from), id),
{
    broadcast use vstd::multiset::group_multiset_axioms;

    let front = ids.take(from);
    let back = ids.skip(from);
    assert(ids =~= front + back);
    lemma_multiset_commutative(front, back);
    back.to_multiset_ensures();
    assert(!back.contains(id)) by {
        if back.contains(id) {
            let k = choose|k: int| 0 <= k < back.len() && back[k] == id;
            assert(back[k] == ids[from + k]);
        }
    }
}

/// The identifier at `at` occurs at least once more in the whole sequence
/// than in front of `at`.
proof fn lemma_occurs_at(ids: Seq<BodyId>, at: int)
    requires
        0 <= at < ids.len(),
    ensures
        occurrences(ids, ids[at]) >= occurrences(ids.take(at), ids[at]) + 1,
{
    broadcast use vstd::multiset::group_multiset_axioms;

    let front = ids.take(at);
    let back = ids.skip(at);
    assert(ids =~= front + back);
    lemma_multiset_commutative(front, back);
    back.to_multiset_ensures();
    assert(back[0] == ids[at]);
    assert(back.contains(ids[at]));
}

/// Where snapshot and roster agree in front of `at` and the snapshot has
/// there an identifier that comes before what the roster has there (or the
/// roster ends there), that identifier is the least miscounted one.
proof fn lemma_first_difference_in_snapshot(roster: Seq<BodyId>, ids: Seq<BodyId>, at: int)
    requires
        nondescending(roster),
        nondescending(ids),
        0 <= at < ids.len(),
        at <= roster.len(),
        roster.take(at) == ids.take(at),
        at < roster.len() ==> ids[at].key() < roster[at].key(),
    ensures
        least_miscounted(roster, ids, ids[at]),
{
    let id = ids[at];
    lemma_occurs_in_front(roster, at, id);
    lemma_occurs_at(ids, at);
    assert forall|x: BodyId| miscounted(roster, ids, x) implies id.key() <= x.key() by {
        if x.key() < id.key() {
            lemma_occurs_in_front(roster, at, x);
            lemma_occurs_in_front(ids, at, x);
        }
    }
}

/// Where snapshot and roster agree in front of `at` and the roster has there
/// an identifier that comes before what the snapshot has there (or the
/// snapshot ends there), that identifier is the least miscounted one.
proof fn lemma_first_difference_in_roster(roster: Seq<BodyId>, ids: Seq<BodyId>, at: int)
    requires
        nondescending(roster),
        nondescending(ids),
        0 <= at < roster.len(),
        at <= ids.len(),
        roster.take(at) == ids.take(at),
        at < ids.len() ==> roster[at].key() < ids[at].key(),
    ensures
        least_miscounted(roster, ids, roster[at]),
{
    let id = roster[at];
    lemma_occurs_in_front(ids, at, id);
    lemma_occurs_at(roster, at);
    assert forall|x: BodyId| miscounted(roster, ids, x) implies id.key() <= x.key() by {
        if x.key() < id.key() {
            lemma_occurs_in_front(roster, at, x);
            lemma_occurs_in_front(ids, at, x);
        }
    }
}

/// Compares a sorted snapshot with the roster, both walked in ascending
/// order. `None` means that the snapshot has exactly the identifiers of the
/// roster; otherwise the result is the first identifier, in ascending order,
/// that the snapshot has too often or not often enough.
pub fn find_miscount<T: Identified>(roster: &Vec<BodyId>, sorted: &Vec<T>) -> (found: Option<BodyId>)
    requires
        ascending(roster@),
        nondescending(ids_of(sorted@)),
    ensures
        match found {
            None => ids_of(sorted@) == roster@,
            Some(id) => least_miscounted(roster@, ids_of(sorted@), id),
        },
{
    let ghost ids = ids_of(sorted@);
    let mut i: usize = 0;
    assert(roster@.take(0) =~= ids.take(0));
    while i < roster.len() && i < sorted.len()
        invariant
            i <= roster.len(),
            i <= sorted.len(),
            ids == ids_of(sorted@),
            ascending(roster@),
            nondescending(ids),
            roster@.take(i as int) == ids.take(i as int),
        decreases roster.len() - i,
    {
        let want = roster[i];
        let have = sorted[i].id();
        assert(have == ids[i as int]);
        if have.precedes(&want) {
            proof {
                lemma_first_difference_in_snapshot(roster@, ids, i as int);
            }
            return Some(have);
        }
        if want.precedes(&have) {
            proof {
                lemma_first_difference_in_roster(roster@, ids, i as int);
            }
            return Some(want);
        }
        proof {
            crate::ids::lemma_key_injective(want, have);
            assert(roster@.take(i as int + 1) =~= roster@.take(i as int).push(want));
            assert(ids.take(i as int + 1) =~= ids.take(i as int).push(have));
        }
        i = i + 1;
    }
    if i < sorted.len() {
        let have = sorted[i].id();
        proof {
            assert(have == ids[i as int]);
            lemma_first_difference_in_snapshot(roster@, ids, i as int);
        }
        return Some(have);
    }
    if i < roster.len() {
        proof {
            lemma_first_difference_in_roster(roster@, ids, i as int);
        }
        return Some(roster[i]);
    }
    proof {
        assert(roster@.take(i as int) =~= roster@);
        assert(ids.take(i as int) =~= ids);
    }
    None
}

/// The identifiers of `ids` in ascending order. Where no identifier occurs
/// twice, each comes strictly before the next.
pub fn ascending_order(ids: &Vec<BodyId>) -> (roster: Vec<BodyId>)
    ensures
        roster@.to_multiset() == ids@.to_multiset(),
        nondescending(roster@),
        ids@.no_duplicates() ==> ascending(roster@),
{
    let mut copy: Vec<BodyId> = Vec::new();
    let mut i: usize = 0;
    while i < ids.len()
        invariant
            i <= ids.len(),
            copy@ == ids@.take(i as int),
        decreases ids.len() - i,
    {
        copy.push(ids[i]);
        i = i + 1;
        assert(copy@ =~= ids@.take(i as int));
    }
    assert(ids@.take(i as int) =~= ids@);
    let roster = sort_by_id(copy);
    proof {
        assert(ids_of(roster@) =~= roster@);
        if ids@.no_duplicates() {
            ids@.lemma_multiset_has_no_duplicates();
            roster@.lemma_multiset_has_no_duplicates_conv();
            assert forall|i: int, j: int| 0 <= i < j < roster@.len() implies roster@[i].key()
                < roster@[j].key() by {
                if roster@[i].key() == roster@[j].key() {
                    crate::ids::lemma_key_injective(roster@[i], roster@[j]);
                }
            }
        }
    }
    roster
}

/// Brings a snapshot into the order of the roster. It succeeds exactly when
/// the snapshot has one item for each identifier of the roster and no other;
/// the result then holds the same items, in the roster's order. Otherwise the
/// error is the first identifier, in ascending order, that the snapshot has
/// too often or not often enough.
pub fn order_snapshot<T: Identified>(roster: &Vec<BodyId>, items: Vec<T>) -> (r: Result<Vec<T>, BodyId>)
    requires
        ascending(roster@),
    ensures
        r is Ok <==> ids_of(items@).to_multiset() == roster@.to_multiset(),
        r matches Ok(ordered) ==> ids_of(ordered@) == roster@ && ordered@.to_multiset()
            == items@.to_multiset(),
        r matches Err(id) ==> least_miscounted(roster@, ids_of(items@), id),
{
    let ghost given = ids_of(items@);
    let sorted = sort_by_id(items);
    match find_miscount(roster, &sorted) {
        None => Ok(sorted),
        Some(id) => {
            proof {
                assert forall|other: BodyId| miscounted(roster@, given, other) implies id.key()
                    <= other.key() by {
                    assert(miscounted(roster@, ids_of(sorted@), other));
                }
            }
            Err(id)
        },
    }
}

} // verus!
