//! The stable memory that the ledger is kept in: one memory divided into numbered
//! slots, each of which holds nothing, a cell with one `u64`, or a B-tree map from
//! `u64` keys to bounded byte strings.
//!
//! The calls into `ic-stable-structures` are not proved: each function that makes
//! one states what the source of that crate shows of it. A cell or a map is opened
//! on its slot for the one call and given up again, so that all it holds is in the
//! memory after every call. Every such function demands of its caller that
//! nothing else reads or writes the memory while it is in use, and that the slot
//! has the header of what is opened on it; behind a header that was checked, the
//! slot is taken to hold what these structures wrote. A write stops the program
//! when the memory underneath cannot grow, as a vector's push does when no memory
//! is left.

use ic_stable_structures::cell::{InitError, ValueError};
use ic_stable_structures::memory_manager::{MemoryId, MemoryManager};
use ic_stable_structures::storable::Blob;
use ic_stable_structures::{Cell, DefaultMemoryImpl, Memory, StableBTreeMap};
use vstd::prelude::*;

verus! {

/// `ic_stable_structures::cell::ValueError`: why a cell did not take a value.
#[verifier::external_type_specification]
#[verifier::external_body]
pub struct ExValueError(ValueError);

/// `ic_stable_structures::cell::InitError`: why a cell could not be set up.
#[verifier::external_type_specification]
#[verifier::external_body]
pub struct ExInitError(InitError);

/// The most bytes that a stored record may have.
pub const MAX_RECORD_SIZE: usize = 1024;

/// The number that is no slot: `MemoryId::new` refuses it.
pub const NO_SLOT: u8 = 255;

/// The bytes at the start of a slot that tell a cell.
pub const CELL_HEAD: usize = 8;

/// The bytes at the start of a slot that tell a map.
pub const MAP_HEAD: usize = 56;

/// A `MemoryManager` over the default memory: one memory divided into independent
/// virtual memories, the slots, told apart by a number.
#[verifier::external_body]
pub struct LedgerMemory {
    manager: MemoryManager<DefaultMemoryImpl>,
}

/// Whether nothing but this value reads or writes the memory underneath it.
pub uninterp spec fn sole_user(memory: LedgerMemory) -> bool;

/// The size of a slot, in pages, as `Memory::size` gives it for the virtual memory.
pub uninterp spec fn slot_pages(memory: LedgerMemory, slot: u8) -> u64;

/// The first `len` bytes of a slot, as `Memory::read` gives them.
pub uninterp spec fn slot_start(memory: LedgerMemory, slot: u8, len: nat) -> Seq<u8>;

/// The value of the cell that a slot holds, as `Cell::get` gives it.
pub uninterp spec fn slot_value(memory: LedgerMemory, slot: u8) -> u64;

/// The entries of the map that a slot holds.
pub uninterp spec fn slot_entries(memory: LedgerMemory, slot: u8) -> Map<u64, Seq<u8>>;

/// The map without entries.
pub open spec fn no_entries() -> Map<u64, Seq<u8>> {
    Map::empty()
}

/// The header of a cell that holds eight bytes: the magic `SCL`, layout version 1,
/// and the length 8.
pub open spec fn is_cell_head(head: Seq<u8>) -> bool {
    &&& head.len() == CELL_HEAD
    &&& head[0] == 83 && head[1] == 67 && head[2] == 76 && head[3] == 1
    &&& head[4] == 8 && head[5] == 0 && head[6] == 0 && head[7] == 0
}

/// The header of a map with keys of 8 bytes and values of at most 1024: the magic
/// `BTR`, layout version 1 and the two bounds; and, at byte 52, the header of its
/// allocator: the magic `BTA` and layout version 1.
pub open spec fn is_map_head(head: Seq<u8>) -> bool {
    &&& head.len() == MAP_HEAD
    &&& head[0] == 66 && head[1] == 84 && head[2] == 82 && head[3] == 1
    &&& head[4] == 8 && head[5] == 0 && head[6] == 0 && head[7] == 0
    &&& head[8] == 0 && head[9] == 4 && head[10] == 0 && head[11] == 0
    &&& head[52] == 66 && head[53] == 84 && head[54] == 65 && head[55] == 1
}

/// The slot holds a cell with a `u64`.
pub open spec fn holds_cell(memory: LedgerMemory, slot: u8) -> bool {
    slot_pages(memory, slot) > 0 && is_cell_head(slot_start(memory, slot, CELL_HEAD as nat))
}

/// The slot holds a map of records.
pub open spec fn holds_map(memory: LedgerMemory, slot: u8) -> bool {
    slot_pages(memory, slot) > 0 && is_map_head(slot_start(memory, slot, MAP_HEAD as nat))
}

/// The slot is in `after` what it is in `before`.
pub open spec fn same_slot(before: LedgerMemory, after: LedgerMemory, slot: u8) -> bool {
    &&& slot_pages(after, slot) == slot_pages(before, slot)
    &&& slot_value(after, slot) == slot_value(before, slot)
    &&& slot_entries(after, slot) == slot_entries(before, slot)
    &&& forall|len: nat| #[trigger] slot_start(after, slot, len) == slot_start(before, slot, len)
}

/// `after` is still used by nothing else, and every slot but `slot` is in it what
/// it is in `before`.
pub open spec fn same_elsewhere(before: LedgerMemory, after: LedgerMemory, slot: u8) -> bool {
    &&& sole_user(after)
    &&& forall|other: u8| other != slot ==> #[trigger] same_slot(before, after, other)
}

impl LedgerMemory {
    /// No slot holds anything: nothing was ever written to the memory.
    pub open spec fn blank(self) -> bool {
        forall|slot: u8| slot != NO_SLOT ==> #[trigger] slot_pages(self, slot) == 0
    }

    /// Calls `DefaultMemoryImpl::default` and `MemoryManager::init` on what it
    /// gives: on a native build a new, empty memory; in a canister its stable
    /// memory, which holds what the canister wrote. Nothing is claimed of the
    /// result.
    #[verifier::external_body]
    fn acquire() -> (memory: LedgerMemory) {
        LedgerMemory { manager: MemoryManager::init(DefaultMemoryImpl::default()) }
    }

    /// Calls `Memory::size` on the virtual memory of a slot.
    #[verifier::external_body]
    pub(crate) fn pages(&self, slot: u8) -> (pages: u64)
        requires
            sole_user(*self),
            slot != NO_SLOT,
        ensures
            pages == slot_pages(*self, slot),
    {
        self.manager.get(MemoryId::new(slot)).size()
    }

    /// Calls `Memory::read` at the start of the virtual memory of a slot, which
    /// must have a page and so holds the `len` bytes asked for.
    #[verifier::external_body]
    pub(crate) fn start(&self, slot: u8, len: usize) -> (bytes: Vec<u8>)
        requires
            sole_user(*self),
            slot != NO_SLOT,
            slot_pages(*self, slot) > 0,
            len <= 65536,
        ensures
            bytes@ == slot_start(*self, slot, len as nat),
            bytes@.len() == len,
    {
        let mut bytes = vec![0u8; len];
        self.manager.get(MemoryId::new(slot)).read(0, &mut bytes);
        bytes
    }

    /// Calls `Cell::init` on a slot of size zero, which writes a new cell with the
    /// value `default`. Writing it takes one page, which a memory that has given
    /// out no page yet always has. No other slot changes.
    #[verifier::external_body]
    pub(crate) fn cell_create(&mut self, slot: u8, default: u64) -> (r: Result<(), InitError>)
        requires
            sole_user(*old(self)),
            slot != NO_SLOT,
            slot_pages(*old(self), slot) == 0,
        ensures
            old(self).blank() ==> r is Ok,
            r is Ok ==> holds_cell(*final(self), slot) && slot_value(*final(self), slot) == default,
            same_elsewhere(*old(self), *final(self), slot),
    {
        Cell::init(self.manager.get(MemoryId::new(slot)), default).map(|_| ())
    }

    /// Calls `Cell::init` on a slot that holds a cell, which loads it, and
    /// `Cell::get`, which returns the value held.
    #[verifier::external_body]
    pub(crate) fn cell_get(&self, slot: u8) -> (value: u64)
        requires
            sole_user(*self),
            slot != NO_SLOT,
            holds_cell(*self, slot),
        ensures
            value == slot_value(*self, slot),
    {
        *Cell::init(self.manager.get(MemoryId::new(slot)), u64::default()).unwrap().get()
    }

    /// Calls `Cell::init` on a slot that holds a cell, which loads it, and
    /// `Cell::set`, which writes the value to the slot and returns the value held
    /// before. It fails only where the memory must grow and cannot. A cell that
    /// exists has a page, and the eight bytes of a `u64` fit in it behind the
    /// header: the memory does not grow, so the call succeeds. The header is
    /// written as it was. No other slot changes.
    #[verifier::external_body]
    pub(crate) fn cell_set(&mut self, slot: u8, value: u64) -> (r: Result<u64, ValueError>)
        requires
            sole_user(*old(self)),
            slot != NO_SLOT,
            holds_cell(*old(self), slot),
        ensures
            r matches Ok(previous) && previous == slot_value(*old(self), slot),
            r is Ok ==> holds_cell(*final(self), slot) && slot_value(*final(self), slot) == value,
            r is Ok ==> same_elsewhere(*old(self), *final(self), slot),
    {
        Cell::init(self.manager.get(MemoryId::new(slot)), value).unwrap().set(value)
    }

    /// Calls `StableBTreeMap::init` on a slot of size zero, which writes a new,
    /// empty map. No other slot changes.
    #[verifier::external_body]
    pub(crate) fn map_create(&mut self, slot: u8)
        requires
            sole_user(*old(self)),
            slot != NO_SLOT,
            slot_pages(*old(self), slot) == 0,
        ensures
            sole_user(*final(self)),
            holds_map(*final(self), slot),
            slot_entries(*final(self), slot) == no_entries(),
            same_elsewhere(*old(self), *final(self), slot),
    {
        StableBTreeMap::<u64, Blob<1024>, _>::init(self.manager.get(MemoryId::new(slot)));
    }

    /// Calls `StableBTreeMap::init` on a slot that holds a map, which loads it,
    /// and `insert`, which puts the value under the key and replaces a value that
    /// was there. The bytes go in as a `Blob`, which takes at most
    /// `MAX_RECORD_SIZE` of them. The checked part of the header is written as it
    /// was. No other slot changes.
    #[verifier::external_body]
    pub(crate) fn map_insert(&mut self, slot: u8, key: u64, bytes: &Vec<u8>)
        requires
            sole_user(*old(self)),
            slot != NO_SLOT,
            holds_map(*old(self), slot),
            bytes@.len() <= MAX_RECORD_SIZE,
        ensures
            slot_entries(*final(self), slot) == slot_entries(*old(self), slot).insert(key, bytes@),
            holds_map(*final(self), slot),
            same_elsewhere(*old(self), *final(self), slot),
    {
        StableBTreeMap::<u64, Blob<1024>, _>::init(self.manager.get(MemoryId::new(slot)))
            .insert(key, Blob::try_from(bytes.as_slice()).unwrap());
    }

    /// Calls `StableBTreeMap::init` on a slot that holds a map, which loads it,
    /// and `get`, which returns the value under the key if there is one. The bytes
    /// come out of the `Blob` as they went in.
    #[verifier::external_body]
    pub(crate) fn map_get(&self, slot: u8, key: u64) -> (r: Option<Vec<u8>>)
        requires
            sole_user(*self),
            slot != NO_SLOT,
            holds_map(*self, slot),
        ensures
            r is Some <==> slot_entries(*self, slot).contains_key(key),
            r matches Some(bytes) ==> bytes@ == slot_entries(*self, slot)[key],
    {
        StableBTreeMap::<u64, Blob<1024>, _>::init(self.manager.get(MemoryId::new(slot)))
            .get(&key)
            .map(|blob| blob.as_slice().to_vec())
    }

    /// Calls `StableBTreeMap::init` on a slot that holds a map, which loads it,
    /// and `remove`, which takes the key and its value out of the map if the key
    /// is there. The checked part of the header is written as it was. No other
    /// slot changes.
    #[verifier::external_body]
    pub(crate) fn map_remove(&mut self, slot: u8, key: u64)
        requires
            sole_user(*old(self)),
            slot != NO_SLOT,
            holds_map(*old(self), slot),
        ensures
            slot_entries(*final(self), slot) == slot_entries(*old(self), slot).remove(key),
            holds_map(*final(self), slot),
            same_elsewhere(*old(self), *final(self), slot),
    {
        StableBTreeMap::<u64, Blob<1024>, _>::init(self.manager.get(MemoryId::new(slot)))
            .remove(&key);
    }

    /// Calls `StableBTreeMap::init` on a slot that holds a map, which loads it,
    /// and `iter`, which walks the entries sorted by key, and keeps the keys:
    /// every key of the map once, in ascending order.
    #[verifier::external_body]
    pub(crate) fn map_keys(&self, slot: u8) -> (keys: Vec<u64>)
        requires
            sole_user(*self),
            slot != NO_SLOT,
            holds_map(*self, slot),
        ensures
            forall|i: int, j: int| 0 <= i < j < keys@.len() ==> keys@[i] < keys@[j],
            forall|k: u64| slot_entries(*self, slot).contains_key(k) <==> keys@.contains(k),
    {
        StableBTreeMap::<u64, Blob<1024>, _>::init(self.manager.get(MemoryId::new(slot)))
            .iter()
            .map(|(key, _)| key)
            .collect()
    }

    /// The memory of this program.
    pub fn new() -> (memory: LedgerMemory) {
        Self::acquire()
    }

    /// Whether nothing was ever written to the memory.
    pub fn is_blank(&self) -> (blank: bool)
        requires
            sole_user(*self),
        ensures
            blank == self.blank(),
    {
        let mut slot: u8 = 0;
        while slot < NO_SLOT
            invariant
                sole_user(*self),
                slot <= NO_SLOT,
                forall|below: u8| below < slot ==> #[trigger] slot_pages(*self, below) == 0,
            decreases NO_SLOT - slot,
        {
            if self.pages(slot) != 0 {
                return false;
            }
            slot = slot + 1;
        }
        true
    }

    /// Whether a slot that has a page holds a cell.
    pub(crate) fn has_cell(&self, slot: u8) -> (found: bool)
        requires
            sole_user(*self),
            slot != NO_SLOT,
        ensures
            found == holds_cell(*self, slot),
    {
        if self.pages(slot) == 0 {
            return false;
        }
        let head: Vec<u8> = self.start(slot, CELL_HEAD);
        head[0] == 83 && head[1] == 67 && head[2] == 76 && head[3] == 1 && head[4] == 8
            && head[5] == 0 && head[6] == 0 && head[7] == 0
    }

    /// Whether a slot that has a page holds a map of records.
    pub(crate) fn has_map(&self, slot: u8) -> (found: bool)
        requires
            sole_user(*self),
            slot != NO_SLOT,
        ensures
            found == holds_map(*self, slot),
    {
        if self.pages(slot) == 0 {
            return false;
        }
        let head: Vec<u8> = self.start(slot, MAP_HEAD);
        head[0] == 66 && head[1] == 84 && head[2] == 82 && head[3] == 1 && head[4] == 8
            && head[5] == 0 && head[6] == 0 && head[7] == 0 && head[8] == 0 && head[9] == 4
            && head[10] == 0 && head[11] == 0 && head[52] == 66 && head[53] == 84 && head[54]
            == 65 && head[55] == 1
    }
}

} // verus!
