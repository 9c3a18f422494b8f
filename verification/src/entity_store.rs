//! The store of one kind of record: a stable map from ids to records.
//!
//! An [`EntityStore`] keeps each record as the bytes of its encoding, under
//! the record's own id. What it holds is, in contracts, a map from ids to the
//! models of the records.

use crate::headers::{lemma_map_head, map_head_fits, map_head_is_fit};
use crate::storage::{
    new_store, open_store, region_head, region_holds, region_number, store_contents, store_get,
    store_insert,
    store_keys, store_region, store_remove, RecordStore, Region, MAX_RECORD_BYTES,
};
use core::marker::PhantomData;
use vstd::pervasive::unreached;
use vstd::prelude::*;

verus! {

/// What a kind of record is in contracts: a value with an id and a byte
/// layout.
pub trait RecordModel: Sized {
    /// The record's id.
    spec fn key(self) -> u64;

    /// The bytes that stand for the record in a store.
    spec fn bytes(self) -> Seq<u8>;

    /// The record that `bytes` stand for, if they stand for one.
    spec fn parse(bytes: Seq<u8>) -> Option<Self>;

    /// Parsing the bytes of a record that fits gives the record back.
    proof fn lemma_parse_bytes(self)
        requires
            self.bytes().len() <= MAX_RECORD_BYTES,
        ensures
            Self::parse(self.bytes()) == Some(self),
    ;

    /// The bytes that parse as a record are the bytes of that record.
    proof fn lemma_bytes_parsed(bytes: Seq<u8>)
        ensures
            Self::parse(bytes) matches Some(record) ==> record.bytes() == bytes,
    ;
}

/// A kind of record that an entity store can hold, with `M` for what a
/// record of the kind stands for in contracts.
pub trait Record<M: RecordModel>: Sized {
    /// What the record stands for in contracts.
    spec fn model(&self) -> M;

    /// The record's id.
    fn key(&self) -> (id: u64)
        ensures
            id == self.model().key(),
    ;

    /// The bytes that stand for the record, unless they exceed the size of a
    /// record.
    fn to_bytes(&self) -> (encoded: Option<Vec<u8>>)
        ensures
            match encoded {
                Some(bytes) => bytes@ == self.model().bytes() && bytes@.len() <= MAX_RECORD_BYTES,
                None => self.model().bytes().len() > MAX_RECORD_BYTES,
            },
    ;

    /// The record that `bytes` stand for, if they stand for one.
    fn from_bytes(bytes: &[u8]) -> (decoded: Option<Self>)
        ensures
            match decoded {
                Some(record) => M::parse(bytes@) == Some(record.model()),
                None => M::parse(bytes@) is None,
            },
    ;
}

/// The entry under `id` is within the size of a record and stands for a
/// record whose id is `id`.
pub open spec fn entry_sound<M: RecordModel>(raw: Map<u64, Seq<u8>>, id: u64) -> bool {
    &&& raw[id].len() <= MAX_RECORD_BYTES
    &&& M::parse(raw[id]) matches Some(record)
    &&& record.key() == id
}

/// A stable map from ids to the records of one kind.
pub struct EntityStore<M: RecordModel, R: Record<M>> {
    store: RecordStore,
    kind: PhantomData<(M, R)>,
}

impl<M: RecordModel, R: Record<M>> EntityStore<M, R> {
    /// The records in the store, by id.
    pub closed spec fn view(&self) -> Map<u64, M> {
        Map::new(
            |id: u64| store_contents(self.store).contains_key(id),
            |id: u64| M::parse(store_contents(self.store)[id]).unwrap(),
        )
    }

    /// The number of the region that the store was made or opened in.
    pub closed spec fn region(&self) -> u8 {
        store_region(self.store)
    }

    /// Every entry of the store is sound.
    pub closed spec fn wf(&self) -> bool {
        forall|id: u64| #[trigger]
            store_contents(self.store).contains_key(id) ==> entry_sound::<M>(
                store_contents(self.store),
                id,
            )
    }

    /// Every record of a sound store fits and is stored under its own id.
    pub proof fn lemma_wf(&self, id: u64)
        requires
            self.wf(),
            self@.contains_key(id),
        ensures
            self@[id].key() == id,
            self@[id].bytes().len() <= MAX_RECORD_BYTES,
    {
        assert(store_contents(self.store).contains_key(id));
        M::lemma_bytes_parsed(store_contents(self.store)[id]);
    }

    /// A store without records in `memory`, whose earlier contents are
    /// overwritten.
    pub fn new(memory: Region) -> (made: EntityStore<M, R>)
        ensures
            made.wf(),
            made@ == Map::<u64, M>::empty(),
            made.region() == region_number(memory),
    {
        let made = EntityStore { store: new_store(memory), kind: PhantomData };
        assert(made@ =~= Map::<u64, M>::empty());
        made
    }

    /// The store that `memory` holds, as an earlier run left it; a store
    /// without records where the memory holds none. Nothing is known of what
    /// it holds until `is_sound` was asked.
    ///
    /// Returns `None` where the memory holds a map whose header is not that
    /// of a map of records.
    pub(crate) fn open_unchecked(memory: Region) -> (opened: Option<EntityStore<M, R>>)
        ensures
            opened is Some <==> map_head_fits(region_holds(memory)),
            opened matches Some(store) ==> store.region() == region_number(memory),
    {
        let head = region_head(&memory, 56);
        proof {
            lemma_map_head(region_holds(memory));
        }
        if map_head_is_fit(&head) {
            Some(EntityStore { store: open_store(memory), kind: PhantomData })
        } else {
            None
        }
    }

    /// `store`, if it is sound. Every entry is read and checked.
    pub fn checked(store: EntityStore<M, R>) -> (sound: Option<EntityStore<M, R>>)
        ensures
            match sound {
                Some(same) => same == store && store.wf(),
                None => !store.wf(),
            },
    {
        if store.is_sound() {
            Some(store)
        } else {
            None
        }
    }

    /// The store that `memory` holds, as an earlier run left it; a store
    /// without records where the memory holds none.
    ///
    /// Every entry is read and checked. Returns `None` where the memory holds
    /// a map whose header is not that of a map of records, or a map that is
    /// not a sound store of this kind of record.
    pub fn open(memory: Region) -> (opened: Option<EntityStore<M, R>>)
        ensures
            opened is Some ==> map_head_fits(region_holds(memory)),
            opened matches Some(store) ==> store.wf() && store.region() == region_number(memory),
    {
        match EntityStore::open_unchecked(memory) {
            Some(store) => EntityStore::checked(store),
            None => None,
        }
    }

    /// The record under `id`, if there is one.
    pub fn get(&self, id: u64) -> (found: Option<R>)
        requires
            self.wf(),
        ensures
            match found {
                Some(record) => self@.contains_key(id) && record.model() == self@[id],
                None => !self@.contains_key(id),
            },
    {
        match store_get(&self.store, id) {
            Some(bytes) => {
                match R::from_bytes(bytes.as_slice()) {
                    Some(record) => Some(record),
                    None => unreached(),
                }
            },
            None => None,
        }
    }

    /// Whether there is a record under `id`.
    pub fn contains(&self, id: u64) -> (found: bool)
        ensures
            found == self@.contains_key(id),
    {
        store_get(&self.store, id).is_some()
    }

    /// Stores `record` under its id, in place of what was there.
    ///
    /// The record must fit.
    pub fn insert(&mut self, record: &R)
        requires
            old(self).wf(),
            record.model().bytes().len() <= MAX_RECORD_BYTES,
        ensures
            final(self).wf(),
            final(self).region() == old(self).region(),
            final(self)@ == old(self)@.insert(record.model().key(), record.model()),
    {
        let id = record.key();
        match record.to_bytes() {
            Some(bytes) => {
                proof {
                    record.model().lemma_parse_bytes();
                }
                store_insert(&mut self.store, id, &bytes);
                assert(self@ =~= old(self)@.insert(id, record.model()));
                assert forall|k: u64| #[trigger]
                    store_contents(self.store).contains_key(k) implies entry_sound::<M>(
                    store_contents(self.store),
                    k,
                ) by {
                    if k != id {
                        assert(store_contents(old(self).store).contains_key(k));
                    }
                }
            },
            None => unreached(),
        }
    }

    /// Removes the record under `id`. Returns the record that was there, if
    /// there was one.
    pub fn remove(&mut self, id: u64) -> (removed: Option<R>)
        requires
            old(self).wf(),
        ensures
            final(self).wf(),
            final(self).region() == old(self).region(),
            final(self)@ == old(self)@.remove(id),
            match removed {
                Some(record) => old(self)@.contains_key(id) && record.model() == old(self)@[id],
                None => !old(self)@.contains_key(id),
            },
    {
        let removed = store_remove(&mut self.store, id);
        assert(self@ =~= old(self)@.remove(id));
        assert forall|k: u64| #[trigger]
            store_contents(self.store).contains_key(k) implies entry_sound::<M>(
            store_contents(self.store),
            k,
        ) by {
            assert(store_contents(old(self).store).contains_key(k));
        }
        match removed {
            Some(bytes) => {
                match R::from_bytes(bytes.as_slice()) {
                    Some(record) => Some(record),
                    None => unreached(),
                }
            },
            None => None,
        }
    }

    /// The ids of the records in the store, in ascending order.
    pub fn ids(&self) -> (ids: Vec<u64>)
        ensures
            forall|id: u64| ids@.contains(id) <==> self@.contains_key(id),
            forall|i: int, j: int| 0 <= i < j < ids@.len() ==> ids@[i] < ids@[j],
    {
        store_keys(&self.store)
    }

    /// Whether the entry under `id` is sound.
    fn entry_is_sound(&self, id: u64) -> (sound: bool)
        ensures
            store_contents(self.store).contains_key(id) ==> sound == entry_sound::<M>(
                store_contents(self.store),
                id,
            ),
    {
        let bytes = match store_get(&self.store, id) {
            Some(bytes) => bytes,
            None => { return false; },
        };
        if bytes.len() > MAX_RECORD_BYTES {
            return false;
        }
        match R::from_bytes(bytes.as_slice()) {
            Some(record) => record.key() == id,
            None => false,
        }
    }

    /// Whether the store is sound. Every entry is read and checked.
    pub fn is_sound(&self) -> (sound: bool)
        ensures
            sound == self.wf(),
    {
        let ids = store_keys(&self.store);
        let mut i: usize = 0;
        while i < ids.len()
            invariant
                i <= ids.len(),
                forall|id: u64| ids@.contains(id) <==> store_contents(self.store).contains_key(id),
                forall|j: int|
                    0 <= j < i ==> entry_sound::<M>(
                        store_contents(self.store),
                        #[trigger] ids@[j],
                    ),
            decreases ids.len() - i,
        {
            assert(ids@.contains(ids@[i as int]));
            if !self.entry_is_sound(ids[i]) {
                return false;
            }
            i += 1;
        }
        assert forall|id: u64| #[trigger]
            store_contents(self.store).contains_key(id) implies entry_sound::<M>(
            store_contents(self.store),
            id,
        ) by {
            assert(ids@.contains(id));
            let j = choose|j: int| 0 <= j < ids@.len() && ids@[j] == id;
            assert(entry_sound::<M>(store_contents(self.store), ids@[j]));
        }
        true
    }

    /// Whether every id in the store is at least 1 and at most `last_id`.
    pub fn ids_within(&self, last_id: u64) -> (within: bool)
        ensures
            within == (forall|id: u64| #[trigger] self@.contains_key(id) ==> 1 <= id <= last_id),
    {
        let ids = store_keys(&self.store);
        let mut i: usize = 0;
        while i < ids.len()
            invariant
                i <= ids.len(),
                forall|id: u64| ids@.contains(id) <==> self@.contains_key(id),
                forall|j: int| 0 <= j < i ==> 1 <= #[trigger] ids@[j] <= last_id,
            decreases ids.len() - i,
        {
            assert(ids@.contains(ids@[i as int]));
            if ids[i] < 1 || ids[i] > last_id {
                return false;
            }
            i += 1;
        }
        assert forall|id: u64| #[trigger] self@.contains_key(id) implies 1 <= id <= last_id by {
            assert(ids@.contains(id));
            let j = choose|j: int| 0 <= j < ids@.len() && ids@[j] == id;
            assert(1 <= ids@[j] <= last_id);
        }
        true
    }

    /// Whether no id is in use in both stores.
    pub fn apart_from<N: RecordModel, S: Record<N>>(&self, other: &EntityStore<N, S>) -> (apart:
        bool)
        ensures
            apart == (forall|id: u64|
                #![trigger self@.contains_key(id)]
                #![trigger other@.contains_key(id)]
                !(self@.contains_key(id) && other@.contains_key(id))),
    {
        let ids = store_keys(&self.store);
        let mut i: usize = 0;
        while i < ids.len()
            invariant
                i <= ids.len(),
                forall|id: u64| ids@.contains(id) <==> self@.contains_key(id),
                forall|j: int| 0 <= j < i ==> !other@.contains_key(#[trigger] ids@[j]),
            decreases ids.len() - i,
        {
            assert(ids@.contains(ids@[i as int]));
            if other.contains(ids[i]) {
                return false;
            }
            i += 1;
        }
        assert forall|id: u64| !(self@.contains_key(id) && other@.contains_key(id)) by {
            if self@.contains_key(id) {
                assert(ids@.contains(id));
                let j = choose|j: int| 0 <= j < ids@.len() && ids@[j] == id;
                assert(!other@.contains_key(ids@[j]));
            }
        }
        true
    }
}

} // verus!
