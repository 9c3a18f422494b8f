//! The boundary to `ic_stable_structures`.
//!
//! The record store keeps its state in that crate's stable memory: one cell
//! for the id counter and one ordered map for each kind of record, each in a
//! region of its own. The types, names and wrappers in this file are
//! trusted: Verus takes their contracts for granted and the rest of the crate
//! is proved against them. Each wrapper makes one call into the outside crate
//! and converts between the library's values and the crate's.
//!
//! The outside crate leaves it to its caller that a cell or a map has its
//! memory for itself. A [`Regions`] hands each of its regions out once, so
//! that no two cells or maps made through it share one. It also aborts where
//! it is to read a manager, a map or a cell from a memory whose header it
//! does not expect: [`memory_holds`] and [`region_holds`] name the bytes of a
//! memory and of a region, and the wrappers that open one require that these
//! are fit. Three things are taken for granted beyond the contracts:
//!
//! - There is one `Regions` over a memory at a time. Two of them over one
//!   memory hand out the same bytes twice, and what is written through one
//!   changes what the other holds.
//! - A memory whose header is fit (see `headers`) holds a whole manager, map
//!   or cell behind it, as this crate writes them.
//! - Stable memory does not run out. The outside crate aborts a call that
//!   writes where the memory cannot grow, as an allocation failure does. The
//!   contracts speak of the calls that return.

use crate::headers::{
    cell_head_fits, head_of, lemma_manager_head, manager_head_fits, manager_head_is_fit,
    map_head_fits,
};
use ic_stable_structures::cell::{InitError, ValueError};
use ic_stable_structures::memory_manager::{MemoryId, MemoryManager, VirtualMemory};
use ic_stable_structures::storable::Blob;
use ic_stable_structures::{Cell, DefaultMemoryImpl, Memory, StableBTreeMap};
use std::cell::RefCell;
use vstd::prelude::*;

verus! {

/// The largest encoding that a map of records takes for one record.
pub const MAX_RECORD_BYTES: usize = 2048;

/// The number of bytes in a page of memory.
pub const PAGE_BYTES: u64 = 65536;

/// `ic_stable_structures::cell::ValueError`: why a cell refused a value.
#[verifier::external_type_specification]
#[verifier::external_body]
pub struct ExValueError(ValueError);

/// `ic_stable_structures::cell::InitError`: why a cell could not be read
/// from a memory.
#[verifier::external_type_specification]
#[verifier::external_body]
pub struct ExInitError(InitError);

/// `std::cell::RefCell`, which the default memory is made of where the crate
/// is not built for a canister. Nothing is claimed of it.
#[verifier::external_type_specification]
#[verifier::external_body]
#[verifier::reject_recursive_types(T)]
pub struct ExRefCell<T: ?Sized>(RefCell<T>);

/// A memory as a whole, before it is divided into regions.
///
/// Holds a `DefaultMemoryImpl`; [`memory_holds`] names what it holds.
#[verifier::external_body]
pub struct StableMemory {
    inner: DefaultMemoryImpl,
}

/// A memory manager, which divides a memory into regions.
///
/// Holds a `MemoryManager<DefaultMemoryImpl>`. It is hidden from Verus
/// because the outside type is bounded by the outside trait `Memory`.
#[verifier::external_body]
pub struct Manager {
    inner: MemoryManager<DefaultMemoryImpl>,
}

/// One region of a memory.
///
/// Holds a `VirtualMemory<DefaultMemoryImpl>`, hidden from Verus for the
/// same reason as [`Manager`].
#[verifier::external_body]
pub struct Region {
    inner: VirtualMemory<DefaultMemoryImpl>,
}

/// A stable map from ids to encoded records.
///
/// Holds a `StableBTreeMap<u64, Blob<2048>, VirtualMemory<DefaultMemoryImpl>>`.
/// It is hidden from Verus because the outside type is bounded by the outside
/// traits `BoundedStorable` and `Memory`; [`store_contents`] names what it
/// holds.
#[verifier::external_body]
pub struct RecordStore {
    inner: StableBTreeMap<u64, Blob<2048>, VirtualMemory<DefaultMemoryImpl>>,
}

/// A stable cell that holds one `u64`.
///
/// Holds a `Cell<u64, VirtualMemory<DefaultMemoryImpl>>`. It is hidden from
/// Verus because the outside type is bounded by the outside traits `Storable`
/// and `Memory`; [`cell_value`] names what it holds.
#[verifier::external_body]
pub struct IdCell {
    inner: Cell<u64, VirtualMemory<DefaultMemoryImpl>>,
}

/// The entries of a record store: for each key present, the bytes stored
/// under it.
pub uninterp spec fn store_contents(store: RecordStore) -> Map<u64, Seq<u8>>;

/// The value that a cell holds.
pub uninterp spec fn cell_value(cell: IdCell) -> u64;

/// The bytes that a memory holds, all its pages long.
pub uninterp spec fn memory_holds(memory: StableMemory) -> Seq<u8>;

/// The bytes that a region holds, all its pages long.
pub uninterp spec fn region_holds(region: Region) -> Seq<u8>;

/// The number of a region among the regions of its memory.
pub uninterp spec fn region_number(region: Region) -> u8;

/// The number of the region that a record store was made or opened in.
pub uninterp spec fn store_region(store: RecordStore) -> u8;

/// The number of the region that a cell was made or opened in.
pub uninterp spec fn cell_region(cell: IdCell) -> u8;

/// `DefaultMemoryImpl::default`: the default memory. In a canister that is
/// the canister's stable memory, with whatever it holds; elsewhere it is a
/// new, empty memory in the heap.
#[verifier::external_body]
fn default_memory() -> StableMemory {
    StableMemory { inner: DefaultMemoryImpl::default() }
}

/// The memory behind a handle of the outside crate.
#[verifier::external_body]
fn memory_behind(handle: DefaultMemoryImpl) -> StableMemory {
    StableMemory { inner: handle }
}

/// `Memory::size` of a memory: the number of its pages.
#[verifier::external_body]
fn memory_pages(memory: &StableMemory) -> (pages: u64)
    ensures
        pages * PAGE_BYTES == memory_holds(*memory).len(),
{
    memory.inner.size()
}

/// `Memory::read` of a memory: the `length` bytes from the position
/// `offset`.
///
/// The outside crate aborts a read beyond the memory's pages, which
/// `requires` leaves out.
#[verifier::external_body]
fn memory_read(memory: &StableMemory, offset: u64, length: usize) -> (bytes: Vec<u8>)
    requires
        offset + length <= memory_holds(*memory).len(),
    ensures
        bytes@ == memory_holds(*memory).subrange(offset as int, offset + length),
{
    let mut bytes = vec![0u8; length];
    memory.inner.read(offset, &mut bytes);
    bytes
}

/// `MemoryManager::init` on `memory`: the manager that the memory holds, or
/// a new one where it holds none. A memory that holds something else is
/// overwritten.
///
/// Where the memory holds a manager the outside crate reads it, and aborts
/// if it is of another layout version, which `requires` leaves out. Nothing
/// is claimed of the manager: its regions are only handed on to the wrappers
/// that make or read a map or a cell.
#[verifier::external_body]
fn manager_over(memory: StableMemory) -> Manager
    requires
        manager_head_fits(memory_holds(memory)),
{
    Manager { inner: MemoryManager::init(memory.inner) }
}

/// `MemoryManager::get`: a handle to the region whose number is `region`.
///
/// `MemoryId::new` rejects 255, which `requires` leaves out.
#[verifier::external_body]
fn region_of(manager: &Manager, region: u8) -> (handle: Region)
    requires
        region < 255,
    ensures
        region_number(handle) == region,
{
    Region { inner: manager.inner.get(MemoryId::new(region)) }
}

/// `Memory::size` of a region: the number of its pages.
#[verifier::external_body]
pub(crate) fn region_pages(memory: &Region) -> (pages: u64)
    ensures
        pages * PAGE_BYTES == region_holds(*memory).len(),
{
    memory.inner.size()
}

/// `Memory::read` of a region: the `length` bytes from the position
/// `offset`.
///
/// The outside crate aborts a read beyond the region's pages, which
/// `requires` leaves out.
#[verifier::external_body]
pub(crate) fn region_read(memory: &Region, offset: u64, length: usize) -> (bytes: Vec<u8>)
    requires
        offset + length <= region_holds(*memory).len(),
    ensures
        bytes@ == region_holds(*memory).subrange(offset as int, offset + length),
{
    let mut bytes = vec![0u8; length];
    memory.inner.read(offset, &mut bytes);
    bytes
}

/// The first `length` bytes of a region; no bytes where the region has no
/// page.
pub(crate) fn region_head(memory: &Region, length: usize) -> (head: Vec<u8>)
    requires
        length <= PAGE_BYTES,
    ensures
        head@ == head_of(region_holds(*memory), length as int),
{
    let pages = region_pages(memory);
    if pages == 0 {
        let head: Vec<u8> = Vec::new();
        assert(head@ =~= region_holds(*memory));
        head
    } else {
        let head = region_read(memory, 0, length);
        assert(head@ =~= head_of(region_holds(*memory), length as int));
        head
    }
}

impl StableMemory {
    /// The memory behind a handle of the outside crate.
    pub fn of(handle: DefaultMemoryImpl) -> StableMemory {
        memory_behind(handle)
    }

    /// The default memory. In a canister that is the canister's stable
    /// memory, with whatever it holds; elsewhere it is a new, empty memory in
    /// the heap.
    pub fn default_memory() -> StableMemory {
        default_memory()
    }

    /// The first `length` bytes of the memory; no bytes where the memory has
    /// no page.
    pub fn head(&self, length: usize) -> (head: Vec<u8>)
        requires
            length <= PAGE_BYTES,
        ensures
            head@ == head_of(memory_holds(*self), length as int),
    {
        let pages = memory_pages(self);
        if pages == 0 {
            let head: Vec<u8> = Vec::new();
            assert(head@ =~= memory_holds(*self));
            head
        } else {
            let head = memory_read(self, 0, length);
            assert(head@ =~= head_of(memory_holds(*self), length as int));
            head
        }
    }
}

/// A memory divided into regions, of which there are 255, numbered from 0.
/// Each region is handed out once.
pub struct Regions {
    manager: Manager,
    taken: Vec<u8>,
}

impl Regions {
    /// The numbers of the regions that were handed out.
    pub closed spec fn taken(&self) -> Set<u8> {
        Set::new(|region: u8| self.taken@.contains(region))
    }

    /// The regions of `memory`, none of them handed out. Where the memory
    /// holds regions already, as an earlier run left them, they are read;
    /// where it holds none, it is divided anew, and what it held is
    /// overwritten.
    ///
    /// There is to be one `Regions` over a memory at a time: whoever keeps
    /// several cells and maps in one memory makes them all in the regions
    /// of one `Regions`.
    ///
    /// Returns `None` where the memory holds regions of a layout that cannot
    /// be read, and only there.
    pub fn over(memory: StableMemory) -> (made: Option<Regions>)
        ensures
            made is Some <==> manager_head_fits(memory_holds(memory)),
            made matches Some(regions) ==> regions.taken() == Set::<u8>::empty(),
    {
        let head = memory.head(4);
        proof {
            lemma_manager_head(memory_holds(memory));
        }
        if !manager_head_is_fit(&head) {
            return None;
        }
        let regions = Regions { manager: manager_over(memory), taken: Vec::new() };
        assert(regions.taken() =~= Set::<u8>::empty());
        Some(regions)
    }

    /// The regions of the default memory, none of them handed out.
    ///
    /// There is to be one `Regions` over the default memory at a time.
    ///
    /// Returns `None` where the memory holds regions of a layout that cannot
    /// be read.
    pub fn of_default_memory() -> (made: Option<Regions>)
        ensures
            made matches Some(regions) ==> regions.taken() == Set::<u8>::empty(),
    {
        Regions::over(StableMemory::default_memory())
    }

    /// Whether the region whose number is `region` was not handed out yet.
    pub fn is_free(&self, region: u8) -> (free: bool)
        ensures
            free == !self.taken().contains(region),
    {
        let mut i: usize = 0;
        while i < self.taken.len()
            invariant
                i <= self.taken.len(),
                forall|j: int| 0 <= j < i ==> self.taken@[j] != region,
            decreases self.taken.len() - i,
        {
            if self.taken[i] == region {
                return false;
            }
            i += 1;
        }
        true
    }

    /// Hands out the region whose number is `region`, for the one cell or
    /// map that is kept in it.
    pub fn region(&mut self, region: u8) -> (handle: Region)
        requires
            region < 255,
            !old(self).taken().contains(region),
        ensures
            region_number(handle) == region,
            final(self).taken() == old(self).taken().insert(region),
    {
        let handle = region_of(&self.manager, region);
        self.taken.push(region);
        assert(self.taken() =~= old(self).taken().insert(region)) by {
            assert forall|other: u8| self.taken().contains(other) <==> old(self).taken().insert(
                region,
            ).contains(other) by {
                if other == region {
                    assert(self.taken@[self.taken@.len() - 1] == region);
                }
                if old(self).taken@.contains(other) {
                    let i = choose|i: int| 0 <= i < old(self).taken@.len() && old(self).taken@[i]
                        == other;
                    assert(self.taken@[i] == other);
                }
            }
        }
        handle
    }
}

/// `StableBTreeMap::new`: a map in `memory`.
///
/// `new` overwrites whatever the region held, so the map starts without
/// entries. The map keeps the memory that it is given.
#[verifier::external_body]
pub(crate) fn new_store(memory: Region) -> (store: RecordStore)
    ensures
        store_contents(store) == (Map::<u64, Seq<u8>>::empty()),
        store_region(store) == region_number(memory),
{
    RecordStore { inner: StableBTreeMap::new(memory.inner) }
}

/// `StableBTreeMap::init`: the map that `memory` holds, or a new one where
/// it holds none.
///
/// Where the region holds a map the outside crate reads it, and aborts if
/// the map or its allocator is of another layout version or the map was made
/// for smaller keys or values; a map made for larger values may hold a value
/// that cannot be read. `requires` leaves all of these out. Nothing is
/// claimed of what the map holds. The map keeps the memory that it is given.
#[verifier::external_body]
pub(crate) fn open_store(memory: Region) -> (store: RecordStore)
    requires
        map_head_fits(region_holds(memory)),
    ensures
        store_region(store) == region_number(memory),
{
    RecordStore { inner: StableBTreeMap::init(memory.inner) }
}

/// `StableBTreeMap::get`: the bytes stored under `key`, if the key is present.
#[verifier::external_body]
pub(crate) fn store_get(store: &RecordStore, key: u64) -> (found: Option<Vec<u8>>)
    ensures
        match found {
            Some(bytes) => store_contents(*store).contains_key(key) && bytes@ == store_contents(
                *store,
            )[key],
            None => !store_contents(*store).contains_key(key),
        },
{
    store.inner.get(&key).map(|blob| blob.as_slice().to_vec())
}

/// `StableBTreeMap::insert`: afterwards `key` maps to `bytes`, whether or not
/// it was present, and no other entry has changed.
///
/// `Blob::try_from` refuses more than 2048 bytes, which `requires` leaves out.
#[verifier::external_body]
pub(crate) fn store_insert(store: &mut RecordStore, key: u64, bytes: &Vec<u8>)
    requires
        bytes@.len() <= MAX_RECORD_BYTES,
    ensures
        store_contents(*final(store)) == store_contents(*old(store)).insert(key, bytes@),
        store_region(*final(store)) == store_region(*old(store)),
{
    let blob = Blob::<2048>::try_from(bytes.as_slice()).unwrap();
    store.inner.insert(key, blob);
}

/// `StableBTreeMap::remove`: afterwards `key` is absent and no other entry has
/// changed; the bytes that were stored under it come back, if it was present.
#[verifier::external_body]
pub(crate) fn store_remove(store: &mut RecordStore, key: u64) -> (removed: Option<Vec<u8>>)
    ensures
        store_contents(*final(store)) == store_contents(*old(store)).remove(key),
        store_region(*final(store)) == store_region(*old(store)),
        match removed {
            Some(bytes) => store_contents(*old(store)).contains_key(key) && bytes@
                == store_contents(*old(store))[key],
            None => !store_contents(*old(store)).contains_key(key),
        },
{
    store.inner.remove(&key).map(|blob| blob.as_slice().to_vec())
}

/// `StableBTreeMap::iter`, of which the keys are kept: every key of the map
/// and nothing else, in ascending order.
#[verifier::external_body]
pub(crate) fn store_keys(store: &RecordStore) -> (keys: Vec<u64>)
    ensures
        forall|key: u64| keys@.contains(key) <==> store_contents(*store).contains_key(key),
        forall|i: int, j: int| 0 <= i < j < keys@.len() ==> keys@[i] < keys@[j],
{
    store.inner.iter().map(|entry| entry.0).collect()
}

/// `Cell::new`: a cell in `memory` that holds `value`.
///
/// `new` overwrites whatever the region held. It fails where the memory
/// cannot take the value; on success the cell holds `value` and keeps the
/// memory that it was given.
#[verifier::external_body]
pub(crate) fn new_cell(memory: Region, value: u64) -> (made: Result<IdCell, ValueError>)
    ensures
        made matches Ok(cell) ==> cell_value(cell) == value && cell_region(cell) == region_number(
            memory,
        ),
{
    match Cell::new(memory.inner, value) {
        Ok(inner) => Ok(IdCell { inner }),
        Err(refused) => Err(refused),
    }
}

/// `Cell::init`: the cell that `memory` holds, or a new one with `default`
/// where it holds none.
///
/// Where the region holds a cell of the layout version 1 the outside crate
/// reads its value, and aborts if that is not of eight bytes, which
/// `requires` leaves out. Nothing is claimed of the value. It fails where
/// the region holds a cell of another layout version or the memory cannot
/// take the value. On success the cell keeps the memory that it was given.
#[verifier::external_body]
pub(crate) fn open_cell(memory: Region, default: u64) -> (opened: Result<IdCell, InitError>)
    requires
        cell_head_fits(region_holds(memory)),
    ensures
        opened matches Ok(cell) ==> cell_region(cell) == region_number(memory),
{
    match Cell::init(memory.inner, default) {
        Ok(inner) => Ok(IdCell { inner }),
        Err(refused) => Err(refused),
    }
}

/// `Cell::get`: the value in the cell.
#[verifier::external_body]
pub(crate) fn cell_get(cell: &IdCell) -> (value: u64)
    ensures
        value == cell_value(*cell),
{
    *cell.inner.get()
}

/// `Cell::set`: the cell takes `value`, and the value it held before comes
/// back.
///
/// `set` fails only where it has to grow the memory and the memory refuses,
/// and it grows the memory only where the memory has no page. A cell stands
/// in a memory with a page, since `Cell::new` and `Cell::init` leave one, and
/// a region does not shrink: so for a cell of a `u64` the call succeeds.
#[verifier::external_body]
pub(crate) fn cell_set(cell: &mut IdCell, value: u64) -> (written: Result<u64, ValueError>)
    ensures
        written matches Ok(previous) && previous == cell_value(*old(cell)),
        cell_value(*final(cell)) == value,
        cell_region(*final(cell)) == cell_region(*old(cell)),
{
    cell.inner.set(value)
}

} // verus!
