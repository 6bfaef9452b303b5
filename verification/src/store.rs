//! The durable entity store: a persisted map from identifiers to records of one
//! kind, kept as bounded byte strings in a stable B-tree in one slot of a memory.

use crate::codec::Record;
use crate::listing::{
    admitted, ascending, every, key_space, lemma_ascending_congruent, lemma_ascending_gap,
    lemma_views_push, listing, views, Criterion, Everything,
};
use crate::stable::{
    holds_map, no_entries, same_elsewhere, slot_entries, slot_pages, sole_user, LedgerMemory,
    MAX_RECORD_SIZE, NO_SLOT,
};
use core::marker::PhantomData;
use vstd::prelude::*;

verus! {

/// Whether every byte string is within the record bound and stands for a record
/// of type `T`.
pub open spec fn sound<T: Record>(bytes: Map<u64, Seq<u8>>) -> bool {
    forall|id: u64| #[trigger]
        bytes.contains_key(id) ==> bytes[id].len() <= MAX_RECORD_SIZE && T::decoding(
            bytes[id],
        ) is Some
}

/// The records that the byte strings stand for.
pub open spec fn decoded<T: Record>(bytes: Map<u64, Seq<u8>>) -> Map<u64, T::V> {
    Map::new(|id: u64| bytes.contains_key(id), |id: u64| T::decoding(bytes[id])->Some_0)
}

/// The store without records.
pub open spec fn no_records<T: Record>() -> Map<u64, T::V> {
    Map::empty()
}

/// The records of no byte strings are no records.
pub proof fn lemma_decoded_empty<T: Record>()
    ensures
        sound::<T>(no_entries()),
        decoded::<T>(no_entries()) == no_records::<T>(),
{
    assert(decoded::<T>(no_entries()) =~= no_records::<T>());
}

/// The records of type `T` that a slot of a memory holds, by identifier.
pub open spec fn records<T: Record>(memory: LedgerMemory, slot: u8) -> Map<u64, T::V> {
    decoded::<T>(slot_entries(memory, slot))
}

/// The slot of the memory, which nothing else uses, holds a map in which every
/// byte string is within the record bound and stands for a record of type `T`.
pub open spec fn holds_records<T: Record>(memory: LedgerMemory, slot: u8) -> bool {
    &&& sole_user(memory)
    &&& slot != NO_SLOT
    &&& holds_map(memory, slot)
    &&& sound::<T>(slot_entries(memory, slot))
}

/// Whether every byte string of the map in a slot stands for a record of type `T`.
pub fn check_records<T: Record>(memory: &LedgerMemory, slot: u8) -> (ok: bool)
    requires
        sole_user(*memory),
        slot != NO_SLOT,
        holds_map(*memory, slot),
    ensures
        ok == sound::<T>(slot_entries(*memory, slot)),
{
    let ghost entries = slot_entries(*memory, slot);
    let keys: Vec<u64> = memory.map_keys(slot);
    let mut i: usize = 0;
    while i < keys.len()
        invariant
            sole_user(*memory),
            slot != NO_SLOT,
            holds_map(*memory, slot),
            entries == slot_entries(*memory, slot),
            i <= keys.len(),
            forall|k: u64| entries.contains_key(k) <==> keys@.contains(k),
            forall|j: int|
                0 <= j < i ==> (#[trigger] entries[keys@[j]]).len() <= MAX_RECORD_SIZE
                    && T::decoding(entries[keys@[j]]) is Some,
        decreases keys.len() - i,
    {
        assert(keys@.contains(keys@[i as int]));
        let fine: bool = match memory.map_get(slot, keys[i]) {
            Some(bytes) => bytes.len() <= MAX_RECORD_SIZE && T::decode(&bytes).is_some(),
            None => false,
        };
        if !fine {
            assert(entries.contains_key(keys@[i as int]));
            return false;
        }
        i = i + 1;
    }
    assert forall|id: u64| #[trigger] entries.contains_key(id) implies entries[id].len()
        <= MAX_RECORD_SIZE && T::decoding(entries[id]) is Some by {
        assert(keys@.contains(id));
        let j = choose|j: int| 0 <= j < keys@.len() && keys@[j] == id;
        assert(entries[keys@[j]].len() <= MAX_RECORD_SIZE);
    }
    true
}

/// Stores `record` under `id` in a slot, replacing what was there. Returns whether
/// the record was stored: it is not when its encoding exceeds the record bound.
/// No other slot changes.
pub fn put_record<T: Record>(memory: &mut LedgerMemory, slot: u8, id: u64, record: &T) -> (stored:
    bool)
    requires
        holds_records::<T>(*old(memory), slot),
    ensures
        holds_records::<T>(*final(memory), slot),
        stored <==> T::encoding(record@).len() <= MAX_RECORD_SIZE,
        stored ==> records::<T>(*final(memory), slot) == records::<T>(*old(memory), slot).insert(
            id,
            record@,
        ),
        stored ==> same_elsewhere(*old(memory), *final(memory), slot),
        !stored ==> *final(memory) == *old(memory),
{
    match record.encode() {
        Some(bytes) => {
            proof {
                T::lemma_round_trip(record@);
            }
            memory.map_insert(slot, id, &bytes);
            assert(records::<T>(*memory, slot) =~= records::<T>(*old(memory), slot).insert(
                id,
                record@,
            ));
            true
        },
        None => false,
    }
}

/// The record stored under `id` in a slot, if there is one.
pub fn get_record<T: Record>(memory: &LedgerMemory, slot: u8, id: u64) -> (r: Option<T>)
    requires
        holds_records::<T>(*memory, slot),
    ensures
        r is Some <==> records::<T>(*memory, slot).contains_key(id),
        r matches Some(record) ==> record@ == records::<T>(*memory, slot)[id],
{
    match memory.map_get(slot, id) {
        Some(bytes) => T::decode(&bytes),
        None => None,
    }
}

/// Whether a record is stored under `id` in a slot.
pub fn has_record<T: Record>(memory: &LedgerMemory, slot: u8, id: u64) -> (present: bool)
    requires
        holds_records::<T>(*memory, slot),
    ensures
        present == records::<T>(*memory, slot).contains_key(id),
{
    memory.map_get(slot, id).is_some()
}

/// Removes the record stored under `id` in a slot, if there is one. No other slot
/// changes.
pub fn delete_record<T: Record>(memory: &mut LedgerMemory, slot: u8, id: u64)
    requires
        holds_records::<T>(*old(memory), slot),
    ensures
        holds_records::<T>(*final(memory), slot),
        records::<T>(*final(memory), slot) == records::<T>(*old(memory), slot).remove(id),
        same_elsewhere(*old(memory), *final(memory), slot),
{
    memory.map_remove(slot, id);
    assert(records::<T>(*memory, slot) =~= records::<T>(*old(memory), slot).remove(id));
}

/// A stored record fits the record bound: whatever replaces it with texts of the
/// same lengths fits it again.
pub proof fn lemma_stored_fits<T: Record>(memory: LedgerMemory, slot: u8, id: u64)
    requires
        holds_records::<T>(memory, slot),
        records::<T>(memory, slot).contains_key(id),
    ensures
        T::encoding(records::<T>(memory, slot)[id]).len() <= MAX_RECORD_SIZE,
{
    T::lemma_canonical(slot_entries(memory, slot)[id]);
}

/// The identifiers in use in a slot, in ascending order.
pub fn record_ids<T: Record>(memory: &LedgerMemory, slot: u8) -> (ids: Vec<u64>)
    requires
        holds_records::<T>(*memory, slot),
    ensures
        forall|i: int, j: int| 0 <= i < j < ids@.len() ==> ids@[i] < ids@[j],
        forall|id: u64| records::<T>(*memory, slot).contains_key(id) <==> ids@.contains(id),
{
    memory.map_keys(slot)
}

/// The records of a slot that `criterion` admits, in ascending order of identifier.
pub fn select_records<T: Record, C: Criterion<T>>(
    memory: &LedgerMemory,
    slot: u8,
    criterion: &C,
) -> (rows: Vec<T>)
    requires
        holds_records::<T>(*memory, slot),
    ensures
        views(rows@) == listing(records::<T>(*memory, slot), admitted(*criterion)),
{
    let ghost held = records::<T>(*memory, slot);
    let ghost pred = admitted::<T, C>(*criterion);
    let ids: Vec<u64> = record_ids::<T>(memory, slot);
    let mut rows: Vec<T> = Vec::new();
    let ghost mut bound: nat = 0;
    let mut i: usize = 0;
    assert(views(rows@) =~= ascending(held, pred, 0));
    while i < ids.len()
        invariant
            holds_records::<T>(*memory, slot),
            held == records::<T>(*memory, slot),
            pred == admitted::<T, C>(*criterion),
            i <= ids.len(),
            forall|a: int, b: int| 0 <= a < b < ids@.len() ==> ids@[a] < ids@[b],
            forall|id: u64| held.contains_key(id) <==> ids@.contains(id),
            bound <= key_space(),
            i > 0 ==> bound == ids@[i - 1] + 1,
            i == 0 ==> bound == 0,
            views(rows@) == ascending(held, pred, bound),
        decreases ids.len() - i,
    {
        let id: u64 = ids[i];
        assert(ids@.contains(id));
        proof {
            assert forall|k: u64| bound <= k < id implies !(#[trigger] held.contains_key(k) && pred(
                held[k],
            )) by {
                if held.contains_key(k) {
                    assert(ids@.contains(k));
                    let j = choose|j: int| 0 <= j < ids@.len() && ids@[j] == k;
                    if j < i {
                        if j < i - 1 {
                            assert(ids@[j] < ids@[i - 1]);
                        }
                    } else if j > i {
                        assert(ids@[i as int] < ids@[j]);
                    }
                }
            }
            lemma_ascending_gap(held, pred, bound, id as nat);
            assert(ascending(held, pred, (id + 1) as nat) == if pred(held[id]) {
                ascending(held, pred, id as nat).push(held[id])
            } else {
                ascending(held, pred, id as nat)
            });
        }
        match get_record::<T>(memory, slot, id) {
            Some(record) => {
                if criterion.test(&record) {
                    proof {
                        lemma_views_push(rows@, record);
                    }
                    rows.push(record);
                }
            },
            None => {},
        }
        proof {
            bound = (id + 1) as nat;
        }
        i = i + 1;
    }
    proof {
        assert forall|k: u64| bound <= k < key_space() implies !(#[trigger] held.contains_key(k)
            && pred(held[k])) by {
            if held.contains_key(k) {
                assert(ids@.contains(k));
                let j = choose|j: int| 0 <= j < ids@.len() && ids@[j] == k;
                if j < i - 1 {
                    assert(ids@[j] < ids@[i - 1]);
                }
            }
        }
        lemma_ascending_gap(held, pred, bound, key_space());
    }
    rows
}

/// All records of a slot, in ascending order of identifier.
pub fn list_records<T: Record>(memory: &LedgerMemory, slot: u8) -> (rows: Vec<T>)
    requires
        holds_records::<T>(*memory, slot),
    ensures
        views(rows@) == listing(records::<T>(*memory, slot), every()),
{
    let rows: Vec<T> = select_records::<T, Everything>(memory, slot, &Everything);
    proof {
        lemma_ascending_congruent(
            records::<T>(*memory, slot),
            admitted::<T, Everything>(Everything),
            every(),
            key_space(),
        );
    }
    rows
}

/// Whether every record of a slot is stored under the identifier it carries and
/// none of these is beyond `last_id`.
pub fn keyed_within<T: Record>(memory: &LedgerMemory, slot: u8, last_id: u64) -> (ok: bool)
    requires
        holds_records::<T>(*memory, slot),
    ensures
        ok <==> forall|id: u64| #[trigger]
            records::<T>(*memory, slot).contains_key(id) ==> T::id_of(
                records::<T>(*memory, slot)[id],
            ) == id && id <= last_id,
{
    let ghost held = records::<T>(*memory, slot);
    let ids: Vec<u64> = record_ids::<T>(memory, slot);
    let mut i: usize = 0;
    while i < ids.len()
        invariant
            holds_records::<T>(*memory, slot),
            held == records::<T>(*memory, slot),
            i <= ids.len(),
            forall|id: u64| held.contains_key(id) <==> ids@.contains(id),
            forall|j: int|
                0 <= j < i ==> T::id_of(held[#[trigger] ids@[j]]) == ids@[j] && ids@[j] <= last_id,
        decreases ids.len() - i,
    {
        let id: u64 = ids[i];
        assert(ids@.contains(id));
        let fine: bool = match get_record::<T>(memory, slot, id) {
            Some(record) => record.id() == id && id <= last_id,
            None => false,
        };
        if !fine {
            assert(held.contains_key(id));
            return false;
        }
        i = i + 1;
    }
    assert forall|id: u64| #[trigger] held.contains_key(id) implies T::id_of(held[id]) == id && id
        <= last_id by {
        assert(ids@.contains(id));
        let j = choose|j: int| 0 <= j < ids@.len() && ids@[j] == id;
        assert(T::id_of(held[ids@[j]]) == ids@[j]);
    }
    true
}

/// Makes sure that a slot holds a map of records of type `T`: a slot that holds
/// nothing gets an empty map, a slot that holds such a map is left as it is.
/// Returns whether it does; a memory that holds such records already is untouched.
pub fn settle_records<T: Record>(memory: &mut LedgerMemory, slot: u8) -> (ok: bool)
    requires
        sole_user(*old(memory)),
        slot != NO_SLOT,
    ensures
        ok ==> holds_records::<T>(*final(memory), slot),
        same_elsewhere(*old(memory), *final(memory), slot),
        slot_pages(*old(memory), slot) == 0 ==> ok && records::<T>(*final(memory), slot)
            == no_records::<T>(),
        holds_records::<T>(*old(memory), slot) ==> ok && *final(memory) == *old(memory),
        slot_pages(*old(memory), slot) != 0 ==> *final(memory) == *old(memory),
{
    if memory.pages(slot) == 0 {
        memory.map_create(slot);
        proof {
            lemma_decoded_empty::<T>();
        }
        true
    } else if memory.has_map(slot) {
        check_records::<T>(memory, slot)
    } else {
        false
    }
}

/// A persisted map from identifiers to records of type `T`, in a slot of a memory
/// that the store keeps until it is closed.
pub struct EntityStore<T: Record> {
    memory: LedgerMemory,
    slot: u8,
    kind: PhantomData<T>,
}

impl<T: Record> View for EntityStore<T> {
    type V = Map<u64, T::V>;

    /// The records held, by identifier.
    open spec fn view(&self) -> Map<u64, T::V> {
        records::<T>(self.kept(), self.slot())
    }
}

impl<T: Record> EntityStore<T> {
    /// The memory that the store is kept in.
    pub closed spec fn kept(&self) -> LedgerMemory {
        self.memory
    }

    /// The slot of the memory that the store is kept in.
    pub closed spec fn slot(&self) -> u8 {
        self.slot
    }

    /// The slot holds a map in which every byte string is within the record bound
    /// and stands for a record.
    pub open spec fn wf(&self) -> bool {
        holds_records::<T>(self.kept(), self.slot())
    }

    /// Opens the store kept in the first slot of `memory`, which nothing else may
    /// be using; see `open_at`.
    pub fn open_alone(memory: LedgerMemory) -> (r: Option<Self>)
        requires
            sole_user(memory),
        ensures
            r matches Some(store) ==> store.wf() && store.slot() == 0,
            slot_pages(memory, 0) == 0 ==> (r matches Some(store) && store@ == no_records::<T>()),
            holds_records::<T>(memory, 0) ==> (r matches Some(store) && store.kept() == memory),
    {
        Self::open_at(memory, 0)
    }

    /// Opens the store kept in slot `slot` of `memory`, which nothing else may be
    /// using and which the store keeps until it is closed, and checks every record
    /// in it. A slot that holds nothing gives an empty store; a slot that holds the
    /// records of a store gives that store again. `None` when `slot` is no slot,
    /// when the slot holds anything but a map of records, or when some stored byte
    /// string stands for no record of type `T`.
    pub fn open_at(memory: LedgerMemory, slot: u8) -> (r: Option<Self>)
        requires
            sole_user(memory),
        ensures
            r matches Some(store) ==> store.wf() && store.slot() == slot,
            slot == NO_SLOT ==> r is None,
            slot != NO_SLOT && slot_pages(memory, slot) == 0 ==> (r matches Some(store) && store@
                == no_records::<T>()),
            holds_records::<T>(memory, slot) ==> (r matches Some(store) && store.kept() == memory),
    {
        if slot == NO_SLOT {
            return None;
        }
        let mut memory = memory;
        if settle_records::<T>(&mut memory, slot) {
            Some(EntityStore { memory, slot, kind: PhantomData })
        } else {
            None
        }
    }

    /// Gives up the store and hands back its memory, which holds all that the
    /// store held.
    pub fn close(self) -> (memory: LedgerMemory)
        ensures
            memory == self.kept(),
    {
        self.memory
    }

    /// Stores `record` under `id`, replacing what was there. Returns whether the
    /// record was stored: it is not when its encoding exceeds the record bound.
    pub fn put(&mut self, id: u64, record: &T) -> (stored: bool)
        requires
            old(self).wf(),
        ensures
            final(self).wf(),
            final(self).slot() == old(self).slot(),
            stored <==> T::encoding(record@).len() <= MAX_RECORD_SIZE,
            stored ==> final(self)@ == old(self)@.insert(id, record@),
            !stored ==> final(self)@ == old(self)@,
    {
        let slot: u8 = self.slot;
        put_record::<T>(&mut self.memory, slot, id, record)
    }

    /// The record stored under `id`, if there is one.
    pub fn get(&self, id: u64) -> (r: Option<T>)
        requires
            self.wf(),
        ensures
            r is Some <==> self@.contains_key(id),
            r matches Some(record) ==> record@ == self@[id],
    {
        get_record::<T>(&self.memory, self.slot, id)
    }

    /// Removes the record stored under `id`, if there is one.
    pub fn delete(&mut self, id: u64)
        requires
            old(self).wf(),
        ensures
            final(self).wf(),
            final(self).slot() == old(self).slot(),
            final(self)@ == old(self)@.remove(id),
    {
        let slot: u8 = self.slot;
        delete_record::<T>(&mut self.memory, slot, id);
    }

    /// The records that `criterion` admits, in ascending order of identifier.
    pub fn select<C: Criterion<T>>(&self, criterion: &C) -> (rows: Vec<T>)
        requires
            self.wf(),
        ensures
            views(rows@) == listing(self@, admitted(*criterion)),
    {
        select_records::<T, C>(&self.memory, self.slot, criterion)
    }

    /// All records, in ascending order of identifier.
    pub fn list(&self) -> (rows: Vec<T>)
        requires
            self.wf(),
        ensures
            views(rows@) == listing(self@, every()),
    {
        list_records::<T>(&self.memory, self.slot)
    }

    /// Whether a record is stored under `id`.
    pub fn contains(&self, id: u64) -> (present: bool)
        requires
            self.wf(),
        ensures
            present == self@.contains_key(id),
    {
        has_record::<T>(&self.memory, self.slot, id)
    }

    /// Whether every record is stored under the identifier it carries and none of
    /// these is beyond `last_id`.
    pub fn keyed_within(&self, last_id: u64) -> (ok: bool)
        requires
            self.wf(),
        ensures
            ok <==> forall|id: u64| #[trigger]
                self@.contains_key(id) ==> T::id_of(self@[id]) == id && id <= last_id,
    {
        let ok: bool = keyed_within::<T>(&self.memory, self.slot, last_id);
        assert(self@ == records::<T>(self.memory, self.slot));
        ok
    }

    /// The identifiers in use, in ascending order.
    pub fn ids(&self) -> (ids: Vec<u64>)
        requires
            self.wf(),
        ensures
            forall|i: int, j: int| 0 <= i < j < ids@.len() ==> ids@[i] < ids@[j],
            forall|id: u64| self@.contains_key(id) <==> ids@.contains(id),
    {
        record_ids::<T>(&self.memory, self.slot)
    }
}

/// Round trip: a record that fits the record bound is read back, under the
/// identifier it was written under, equal in every field to what was written,
/// its bytes decoding to itself; and writing leaves every other identifier as it was.
pub proof fn law_put_then_get<T: Record>(before: Map<u64, T::V>, id: u64, record: T::V, other: u64)
    requires
        T::encoding(record).len() <= MAX_RECORD_SIZE,
    ensures
        T::decoding(T::encoding(record)) == Some(record),
        before.insert(id, record).contains_key(id),
        before.insert(id, record)[id] == record,
        other != id ==> before.insert(id, record).contains_key(other) == before.contains_key(other),
        other != id && before.contains_key(other) ==> before.insert(id, record)[other]
            == before[other],
{
    T::lemma_round_trip(record);
}

} // verus!
