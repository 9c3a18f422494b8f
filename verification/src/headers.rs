//! What a memory must hold at its start for the outside crate to read it.
//!
//! The outside crate reads a manager, a map or a cell from a memory that
//! starts with the magic bytes of one, and aborts where the rest of the
//! header is not what it expects. The wrappers that open a memory require
//! that what it holds is fit; the tests in this file are made on its first
//! bytes before it is opened, so that an unfit memory is refused and not
//! opened.
//!
//! Only the header is tested. That a memory which starts with a fit header
//! holds a whole manager, map or cell behind it is taken for granted.

use vstd::prelude::*;

verus! {

/// `bytes` holds `expected` at the position `at`.
pub open spec fn holds_at(bytes: Seq<u8>, at: int, expected: Seq<u8>) -> bool {
    at + expected.len() <= bytes.len() && bytes.subrange(at, at + expected.len()) == expected
}

/// The magic bytes of a memory manager, `MGR`.
pub open spec fn manager_magic() -> Seq<u8> {
    seq![77u8, 71u8, 82u8]
}

/// The magic bytes of a map, `BTR`.
pub open spec fn map_magic() -> Seq<u8> {
    seq![66u8, 84u8, 82u8]
}

/// The magic bytes of a cell, `SCL`.
pub open spec fn cell_magic() -> Seq<u8> {
    seq![83u8, 67u8, 76u8]
}

/// The start of a map's header, where the map is of layout version 1 and was
/// made for keys of 8 bytes and values of up to 2048 bytes: the magic bytes,
/// the version, and the two sizes in four bytes each, the least significant
/// first.
pub open spec fn map_start() -> Seq<u8> {
    seq![66u8, 84u8, 82u8, 1u8, 8u8, 0u8, 0u8, 0u8, 0u8, 8u8, 0u8, 0u8]
}

/// The start of the header of a map's allocator, which stands at byte 52 of
/// the map's memory: the magic bytes `BTA` and the layout version 1.
pub open spec fn allocator_start() -> Seq<u8> {
    seq![66u8, 84u8, 65u8, 1u8]
}

/// The first bytes of a memory are fit for a memory manager to be made or
/// read there: where they start with a manager's magic bytes, the layout
/// version that follows is 1.
pub open spec fn manager_head_fits(head: Seq<u8>) -> bool {
    holds_at(head, 0, manager_magic()) ==> holds_at(head, 3, seq![1u8])
}

/// The first bytes of a region are fit for a map of records to be made or
/// read there: where they start with a map's magic bytes, the map is of
/// layout version 1 and was made for keys of 8 bytes and values of up to 2048
/// bytes, and its allocator is of layout version 1.
pub open spec fn map_head_fits(head: Seq<u8>) -> bool {
    holds_at(head, 0, map_magic()) ==> holds_at(head, 0, map_start()) && holds_at(
        head,
        52,
        allocator_start(),
    )
}

/// The first bytes of a region are fit for a cell with a `u64` to be made or
/// read there: where they start with a cell's magic bytes and the layout
/// version 1, the length of the value that follows is 8.
pub open spec fn cell_head_fits(head: Seq<u8>) -> bool {
    holds_at(head, 0, cell_magic()) && holds_at(head, 3, seq![1u8]) ==> holds_at(
        head,
        4,
        seq![8u8, 0u8, 0u8, 0u8],
    )
}

/// The first `n` bytes of `whole`; all of it where it has no more.
pub open spec fn head_of(whole: Seq<u8>, n: int) -> Seq<u8> {
    if whole.len() <= n {
        whole
    } else {
        whole.subrange(0, n)
    }
}

/// What stands within the first `n` bytes is seen in them.
pub proof fn lemma_head_holds(whole: Seq<u8>, n: int, at: int, expected: Seq<u8>)
    requires
        0 <= at,
        at + expected.len() <= n,
    ensures
        holds_at(head_of(whole, n), at, expected) == holds_at(whole, at, expected),
{
    let head = head_of(whole, n);
    if at + expected.len() <= head.len() {
        assert(head.subrange(at, at + expected.len()) =~= whole.subrange(
            at,
            at + expected.len(),
        ));
    }
}

/// The first 4 bytes of a memory tell whether it is fit for a memory
/// manager.
pub proof fn lemma_manager_head(whole: Seq<u8>)
    ensures
        manager_head_fits(head_of(whole, 4)) == manager_head_fits(whole),
{
    lemma_head_holds(whole, 4, 0, manager_magic());
    lemma_head_holds(whole, 4, 3, seq![1u8]);
}

/// The first 56 bytes of a region tell whether it is fit for a map of
/// records.
pub proof fn lemma_map_head(whole: Seq<u8>)
    ensures
        map_head_fits(head_of(whole, 56)) == map_head_fits(whole),
{
    lemma_head_holds(whole, 56, 0, map_magic());
    lemma_head_holds(whole, 56, 0, map_start());
    lemma_head_holds(whole, 56, 52, allocator_start());
}

/// The first 8 bytes of a region tell whether it is fit for a cell with a
/// `u64`.
pub proof fn lemma_cell_head(whole: Seq<u8>)
    ensures
        cell_head_fits(head_of(whole, 8)) == cell_head_fits(whole),
{
    lemma_head_holds(whole, 8, 0, cell_magic());
    lemma_head_holds(whole, 8, 3, seq![1u8]);
    lemma_head_holds(whole, 8, 4, seq![8u8, 0u8, 0u8, 0u8]);
}

/// Whether `bytes` holds `expected` at the position `at`.
pub fn has_at(bytes: &Vec<u8>, at: usize, expected: &Vec<u8>) -> (found: bool)
    ensures
        found == holds_at(bytes@, at as int, expected@),
{
    if at > bytes.len() || expected.len() > bytes.len() - at {
        return false;
    }
    let mut i: usize = 0;
    while i < expected.len()
        invariant
            i <= expected.len(),
            at + expected.len() <= bytes.len(),
            forall|j: int| 0 <= j < i ==> bytes@[at + j] == expected@[j],
        decreases expected.len() - i,
    {
        if bytes[at + i] != expected[i] {
            let ghost part = bytes@.subrange(at as int, at + expected.len());
            assert(part[i as int] != expected@[i as int]);
            return false;
        }
        i += 1;
    }
    assert(bytes@.subrange(at as int, at + expected.len()) =~= expected@);
    true
}

/// Whether the first bytes of a memory are fit for a memory manager.
pub fn manager_head_is_fit(head: &Vec<u8>) -> (fit: bool)
    ensures
        fit == manager_head_fits(head@),
{
    let magic: Vec<u8> = vec![77u8, 71u8, 82u8];
    let version: Vec<u8> = vec![1u8];
    assert(magic@ =~= manager_magic());
    assert(version@ =~= seq![1u8]);
    !has_at(head, 0, &magic) || has_at(head, 3, &version)
}

/// Whether the first bytes of a region are fit for a map of records.
pub fn map_head_is_fit(head: &Vec<u8>) -> (fit: bool)
    ensures
        fit == map_head_fits(head@),
{
    let magic: Vec<u8> = vec![66u8, 84u8, 82u8];
    let start: Vec<u8> = vec![66u8, 84u8, 82u8, 1u8, 8u8, 0u8, 0u8, 0u8, 0u8, 8u8, 0u8, 0u8];
    let allocator: Vec<u8> = vec![66u8, 84u8, 65u8, 1u8];
    assert(magic@ =~= map_magic());
    assert(start@ =~= map_start());
    assert(allocator@ =~= allocator_start());
    !has_at(head, 0, &magic) || (has_at(head, 0, &start) && has_at(head, 52, &allocator))
}

/// Whether the first bytes of a region are fit for a cell with a `u64`.
pub fn cell_head_is_fit(head: &Vec<u8>) -> (fit: bool)
    ensures
        fit == cell_head_fits(head@),
{
    let magic: Vec<u8> = vec![83u8, 67u8, 76u8];
    let version: Vec<u8> = vec![1u8];
    let length: Vec<u8> = vec![8u8, 0u8, 0u8, 0u8];
    assert(magic@ =~= cell_magic());
    assert(version@ =~= seq![1u8]);
    assert(length@ =~= seq![8u8, 0u8, 0u8, 0u8]);
    !(has_at(head, 0, &magic) && has_at(head, 3, &version)) || has_at(head, 4, &length)
}

} // verus!
