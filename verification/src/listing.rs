//! Listings: the records of a map that satisfy a predicate, in ascending order of
//! identifier.

use vstd::prelude::*;

verus! {

/// The number of identifiers there are.
pub open spec fn key_space() -> nat {
    0x1_0000_0000_0000_0000
}

/// The records of `m` with an identifier below `n` that satisfy `pred`, in
/// ascending order of identifier.
pub open spec fn ascending<V>(m: Map<u64, V>, pred: spec_fn(V) -> bool, n: nat) -> Seq<V>
    decreases n,
{
    if n == 0 {
        Seq::empty()
    } else {
        let id = (n - 1) as u64;
        let before = ascending(m, pred, (n - 1) as nat);
        if m.contains_key(id) && pred(m[id]) {
            before.push(m[id])
        } else {
            before
        }
    }
}

/// The identifiers of the records that `ascending` lists, in the same order.
pub open spec fn ascending_ids<V>(m: Map<u64, V>, pred: spec_fn(V) -> bool, n: nat) -> Seq<u64>
    decreases n,
{
    if n == 0 {
        Seq::empty()
    } else {
        let id = (n - 1) as u64;
        let before = ascending_ids(m, pred, (n - 1) as nat);
        if m.contains_key(id) && pred(m[id]) {
            before.push(id)
        } else {
            before
        }
    }
}

/// All records of `m` that satisfy `pred`, in ascending order of identifier.
pub open spec fn listing<V>(m: Map<u64, V>, pred: spec_fn(V) -> bool) -> Seq<V> {
    ascending(m, pred, key_space())
}

/// The identifiers of the records of `listing`, in the same order.
pub open spec fn listing_ids<V>(m: Map<u64, V>, pred: spec_fn(V) -> bool) -> Seq<u64> {
    ascending_ids(m, pred, key_space())
}

/// The predicate that every record satisfies.
pub open spec fn every<V>() -> spec_fn(V) -> bool {
    |v: V| true
}

/// The views of a sequence of values.
pub open spec fn views<T: View>(rows: Seq<T>) -> Seq<T::V> {
    rows.map_values(|row: T| row@)
}

pub proof fn lemma_views_push<T: View>(rows: Seq<T>, row: T)
    ensures
        views(rows.push(row)) == views(rows).push(row@),
{
    assert(views(rows.push(row)) =~= views(rows).push(row@));
}

/// A stretch of identifiers that holds no record satisfying `pred` adds nothing.
pub proof fn lemma_ascending_gap<V>(m: Map<u64, V>, pred: spec_fn(V) -> bool, a: nat, b: nat)
    requires
        a <= b <= key_space(),
        forall|id: u64| a <= id < b ==> !(#[trigger] m.contains_key(id) && pred(m[id])),
    ensures
        ascending(m, pred, b) == ascending(m, pred, a),
        ascending_ids(m, pred, b) == ascending_ids(m, pred, a),
    decreases b - a,
{
    if a < b {
        lemma_ascending_gap(m, pred, a, (b - 1) as nat);
        let id = (b - 1) as u64;
        assert(!(m.contains_key(id) && pred(m[id])));
    }
}

/// What `ascending` lists: exactly the records below `n` that satisfy `pred`, each
/// once, by strictly increasing identifier.
pub proof fn lemma_ascending<V>(m: Map<u64, V>, pred: spec_fn(V) -> bool, n: nat)
    requires
        n <= key_space(),
    ensures
        ascending_ids(m, pred, n).len() == ascending(m, pred, n).len(),
        forall|i: int|
            0 <= i < ascending_ids(m, pred, n).len() ==> {
                let id = #[trigger] ascending_ids(m, pred, n)[i];
                &&& id < n
                &&& m.contains_key(id)
                &&& pred(m[id])
                &&& ascending(m, pred, n)[i] == m[id]
            },
        forall|i: int, j: int|
            0 <= i < j < ascending_ids(m, pred, n).len() ==> ascending_ids(m, pred, n)[i]
                < ascending_ids(m, pred, n)[j],
        forall|id: u64|
            id < n && #[trigger] m.contains_key(id) && pred(m[id]) ==> ascending_ids(
                m,
                pred,
                n,
            ).contains(id),
    decreases n,
{
    if n > 0 {
        lemma_ascending(m, pred, (n - 1) as nat);
        let last = (n - 1) as u64;
        let before = ascending_ids(m, pred, (n - 1) as nat);
        let ids = ascending_ids(m, pred, n);
        assert forall|id: u64| id < n && #[trigger] m.contains_key(id) && pred(m[id]) implies ids.contains(
            id,
        ) by {
            if id == last {
                assert(ids[ids.len() - 1] == id);
            } else {
                assert(before.contains(id));
                let i = choose|i: int| 0 <= i < before.len() && before[i] == id;
                assert(ids[i] == id);
            }
        }
    }
}

/// A listing shows exactly the records that satisfy the predicate: each row is
/// such a record, each such record is a row, and the rows come by strictly
/// increasing identifier, so that none comes twice.
pub proof fn law_listing_exact<V>(m: Map<u64, V>, pred: spec_fn(V) -> bool)
    ensures
        listing_ids(m, pred).len() == listing(m, pred).len(),
        forall|i: int|
            0 <= i < listing(m, pred).len() ==> {
                let id = #[trigger] listing_ids(m, pred)[i];
                &&& m.contains_key(id)
                &&& pred(m[id])
                &&& listing(m, pred)[i] == m[id]
            },
        forall|i: int, j: int|
            0 <= i < j < listing_ids(m, pred).len() ==> listing_ids(m, pred)[i] < listing_ids(
                m,
                pred,
            )[j],
        forall|id: u64|
            #[trigger] m.contains_key(id) && pred(m[id]) ==> listing_ids(m, pred).contains(id)
                && listing(m, pred).contains(m[id]),
{
    lemma_ascending(m, pred, key_space());
    assert forall|id: u64| #[trigger] m.contains_key(id) && pred(m[id]) implies listing_ids(
        m,
        pred,
    ).contains(id) && listing(m, pred).contains(m[id]) by {
        assert(listing_ids(m, pred).contains(id));
        let i = choose|i: int| 0 <= i < listing_ids(m, pred).len() && listing_ids(m, pred)[i] == id;
        assert(listing(m, pred)[i] == m[id]);
    }
}

/// A listing is empty exactly when no record satisfies the predicate.
pub proof fn law_listing_empty<V>(m: Map<u64, V>, pred: spec_fn(V) -> bool)
    ensures
        listing(m, pred).len() == 0 <==> forall|id: u64|
            !(#[trigger] m.contains_key(id) && pred(m[id])),
{
    law_listing_exact(m, pred);
    if listing(m, pred).len() > 0 {
        let id = listing_ids(m, pred)[0];
        assert(m.contains_key(id) && pred(m[id]));
    }
}

/// Predicates that agree on every record give the same listing.
pub proof fn lemma_ascending_congruent<V>(
    m: Map<u64, V>,
    p: spec_fn(V) -> bool,
    q: spec_fn(V) -> bool,
    n: nat,
)
    requires
        forall|v: V| #[trigger] p(v) == q(v),
    ensures
        ascending(m, p, n) == ascending(m, q, n),
        ascending_ids(m, p, n) == ascending_ids(m, q, n),
    decreases n,
{
    if n > 0 {
        lemma_ascending_congruent(m, p, q, (n - 1) as nat);
        let id = (n - 1) as u64;
        assert(p(m[id]) == q(m[id]));
    }
}

/// A test on records that a listing can be narrowed by.
pub trait Criterion<T: View> {
    /// Whether the criterion admits a record.
    spec fn admits(&self, v: T::V) -> bool;

    fn test(&self, row: &T) -> (hit: bool)
        ensures
            hit == self.admits(row@),
    ;
}

/// The predicate of the records that a criterion admits.
pub open spec fn admitted<T: View, C: Criterion<T>>(criterion: C) -> spec_fn(T::V) -> bool {
    |v: T::V| criterion.admits(v)
}

/// The criterion that admits every record.
pub struct Everything;

impl<T: View> Criterion<T> for Everything {
    open spec fn admits(&self, v: T::V) -> bool {
        true
    }

    fn test(&self, row: &T) -> (hit: bool) {
        true
    }
}

} // verus!
