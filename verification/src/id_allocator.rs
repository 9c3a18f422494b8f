//! The id allocator: one stable counter from which the ids of all records
//! come.

use crate::error::StoreError;
use crate::headers::{cell_head_fits, cell_head_is_fit, lemma_cell_head};
use crate::storage::{
    cell_get, cell_region, cell_set, cell_value, new_cell, open_cell, region_head,
    region_holds, region_number, IdCell, Region,
};
use ic_stable_structures::cell::{InitError, ValueError};
use vstd::prelude::*;

verus! {

/// A stable counter that hands out ids: 1 first, then 2, and so on. An id
/// that was handed out is never handed out again.
pub struct IdAllocator {
    cell: IdCell,
}

impl View for IdAllocator {
    type V = u64;

    /// The id handed out last; 0 before the first.
    closed spec fn view(&self) -> u64 {
        cell_value(self.cell)
    }
}

/// The id that an allocation hands out, given the id handed out last and what
/// the counter's cell answered to the write of the next value: the next id
/// where the cell took the write, and `IdUnavailable` had it refused.
pub fn id_after_write(last_id: u64, written: Result<u64, ValueError>) -> (issued: Result<
    u64,
    StoreError,
>)
    requires
        last_id < u64::MAX,
    ensures
        issued == (match written {
            Ok(_) => Ok((last_id + 1) as u64),
            Err(_) => Err(StoreError::IdUnavailable),
        }),
{
    match written {
        Ok(_) => Ok(last_id + 1),
        Err(_) => Err(StoreError::IdUnavailable),
    }
}

impl IdAllocator {
    /// The number of the region that the counter was made or opened in.
    pub closed spec fn region(&self) -> u8 {
        cell_region(self.cell)
    }

    /// The allocator over a cell that was to be made with the value 0, where
    /// the cell could be made.
    fn over_new(made: Result<IdCell, ValueError>) -> (allocator: Option<IdAllocator>)
        requires
            made matches Ok(cell) ==> cell_value(cell) == 0,
        ensures
            allocator is Some <==> made is Ok,
            allocator matches Some(ids) ==> ids@ == 0 && made == Ok::<IdCell, ValueError>(ids.cell),
    {
        match made {
            Ok(cell) => Some(IdAllocator { cell }),
            Err(_) => None,
        }
    }

    /// The allocator over a cell that was to be read from a memory, where the
    /// cell could be read.
    fn over_opened(opened: Result<IdCell, InitError>) -> (allocator: Option<IdAllocator>)
        ensures
            allocator is Some <==> opened is Ok,
            allocator matches Some(ids) ==> opened == Ok::<IdCell, InitError>(ids.cell),
    {
        match opened {
            Ok(cell) => Some(IdAllocator { cell }),
            Err(_) => None,
        }
    }

    /// An allocator that has handed out nothing, in `memory`, whose earlier
    /// contents are overwritten.
    ///
    /// Returns `None` where the memory cannot take the counter.
    pub fn new(memory: Region) -> (made: Option<IdAllocator>)
        ensures
            made matches Some(ids) ==> ids@ == 0 && ids.region() == region_number(memory),
    {
        IdAllocator::over_new(new_cell(memory, 0))
    }

    /// The allocator that `memory` holds, as an earlier run left it; one that
    /// has handed out nothing where the memory holds none.
    ///
    /// Returns `None` where the counter cannot be read: the memory holds a
    /// cell of another layout version, or one whose value is no `u64`.
    pub fn open(memory: Region) -> (opened: Option<IdAllocator>)
        ensures
            opened is Some ==> cell_head_fits(region_holds(memory)),
            opened matches Some(ids) ==> ids.region() == region_number(memory),
    {
        let head = region_head(&memory, 8);
        proof {
            lemma_cell_head(region_holds(memory));
        }
        if cell_head_is_fit(&head) {
            IdAllocator::over_opened(open_cell(memory, 0))
        } else {
            None
        }
    }

    /// The id handed out last; 0 before the first.
    pub fn last_id(&self) -> (id: u64)
        ensures
            id == self@,
    {
        cell_get(&self.cell)
    }

    /// Hands out the next id: one above the last.
    ///
    /// Fails with `IdUnavailable`, and hands out nothing, where the last id
    /// was the greatest `u64`, and only there.
    pub fn next_id(&mut self) -> (issued: Result<u64, StoreError>)
        ensures
            issued == (if old(self)@ < u64::MAX {
                Ok::<u64, StoreError>((old(self)@ + 1) as u64)
            } else {
                Err::<u64, StoreError>(StoreError::IdUnavailable)
            }),
            final(self)@ == (if old(self)@ < u64::MAX {
                (old(self)@ + 1) as u64
            } else {
                old(self)@
            }),
            final(self).region() == old(self).region(),
    {
        let last_id = cell_get(&self.cell);
        if last_id == u64::MAX {
            return Err(StoreError::IdUnavailable);
        }
        let written = cell_set(&mut self.cell, last_id + 1);
        id_after_write(last_id, written)
    }
}

} // verus!
