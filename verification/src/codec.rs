//! The byte layout of the fields that records are made of.
//!
//! Integers are written little-endian in their own width. A text is written
//! as the length of its UTF-8 form in four bytes, followed by that form. A
//! list is written as the number of its items in four bytes, followed by the
//! items in order.
//!
//! For each kind of field there is a spec function that gives its bytes, a
//! spec function that parses it off the front of a byte sequence, a lemma that
//! parsing undoes writing, and the two executable functions.

use crate::storage::MAX_RECORD_BYTES;
use std::string::FromUtf8Error;
use vstd::bytes::{
    lemma_auto_spec_u32_to_from_le_bytes, lemma_auto_spec_u64_to_from_le_bytes,
    spec_u32_from_le_bytes, spec_u32_to_le_bytes, spec_u64_from_le_bytes, spec_u64_to_le_bytes,
    u32_from_le_bytes, u32_to_le_bytes, u64_from_le_bytes, u64_to_le_bytes,
};
use vstd::prelude::*;
use vstd::slice::{slice_subrange, slice_to_vec};
use vstd::string::*;
use vstd::utf8::{
    decode_utf8, decode_utf8_encode_utf8, encode_utf8, encode_utf8_decode_utf8,
    encode_utf8_valid_utf8, valid_utf8,
};

verus! {

/// `std::string::FromUtf8Error`: the bytes were not UTF-8.
#[verifier::external_type_specification]
#[verifier::external_body]
pub struct ExFromUtf8Error(FromUtf8Error);

/// `String::from_utf8` succeeds exactly on well-formed UTF-8, and the string
/// it returns holds the characters that the bytes encode.
pub assume_specification[ String::from_utf8 ](bytes: Vec<u8>) -> (text: Result<
    String,
    FromUtf8Error,
>)
    ensures
        match text {
            Ok(s) => valid_utf8(bytes@) && s@ == decode_utf8(bytes@),
            Err(_) => !valid_utf8(bytes@),
        },
;

/// A value parsed off the front of a byte sequence, and the bytes after it.
pub type Parsed<T> = Option<(T, Seq<u8>)>;

/// The bytes after a parsed value; none where nothing was parsed.
pub open spec fn rest<T>(parsed: Parsed<T>) -> Seq<u8> {
    match parsed {
        Some((_, after)) => after,
        None => Seq::empty(),
    }
}

/// The parsed value. It has a meaning only where something was parsed.
pub open spec fn value<T>(parsed: Parsed<T>) -> T {
    parsed.unwrap().0
}

// ---------------------------------------------------------------------------
// What is written
// ---------------------------------------------------------------------------
/// The four bytes of `x`, the least significant first.
pub open spec fn u32_bytes(x: u32) -> Seq<u8> {
    spec_u32_to_le_bytes(x)
}

/// The eight bytes of `x`, the least significant first.
pub open spec fn u64_bytes(x: u64) -> Seq<u8> {
    spec_u64_to_le_bytes(x)
}

/// The length of the UTF-8 form in four bytes, then the UTF-8 form. (A
/// length that four bytes cannot hold is cut to its low four bytes; no text
/// that fits in a record is that long.)
pub open spec fn text_bytes(text: Seq<char>) -> Seq<u8> {
    u32_bytes(encode_utf8(text).len() as u32) + encode_utf8(text)
}

/// The ids one after the other, eight bytes each.
pub open spec fn ids_body(ids: Seq<u64>) -> Seq<u8>
    decreases ids.len(),
{
    if ids.len() == 0 {
        Seq::empty()
    } else {
        ids_body(ids.drop_last()) + u64_bytes(ids.last())
    }
}

/// The number of ids in four bytes, then the ids.
pub open spec fn ids_bytes(ids: Seq<u64>) -> Seq<u8> {
    u32_bytes(ids.len() as u32) + ids_body(ids)
}

/// The texts one after the other, each with its own length in front.
pub open spec fn texts_body(texts: Seq<Seq<char>>) -> Seq<u8>
    decreases texts.len(),
{
    if texts.len() == 0 {
        Seq::empty()
    } else {
        texts_body(texts.drop_last()) + text_bytes(texts.last())
    }
}

/// The number of texts in four bytes, then the texts.
pub open spec fn texts_bytes(texts: Seq<Seq<char>>) -> Seq<u8> {
    u32_bytes(texts.len() as u32) + texts_body(texts)
}

/// What a list of strings stands for in contracts.
pub open spec fn texts_view(texts: Seq<String>) -> Seq<Seq<char>> {
    texts.map_values(|text: String| text@)
}

// ---------------------------------------------------------------------------
// What is read
// ---------------------------------------------------------------------------
/// One byte.
pub open spec fn parse_u8(bytes: Seq<u8>) -> Parsed<u8> {
    if bytes.len() >= 1 {
        Some((bytes[0], bytes.skip(1)))
    } else {
        None
    }
}

/// Four bytes, the least significant first.
pub open spec fn parse_u32(bytes: Seq<u8>) -> Parsed<u32> {
    if bytes.len() >= 4 {
        Some((spec_u32_from_le_bytes(bytes.take(4)), bytes.skip(4)))
    } else {
        None
    }
}

/// Eight bytes, the least significant first.
pub open spec fn parse_u64(bytes: Seq<u8>) -> Parsed<u64> {
    if bytes.len() >= 8 {
        Some((spec_u64_from_le_bytes(bytes.take(8)), bytes.skip(8)))
    } else {
        None
    }
}

/// A length, then that many bytes, which must be well-formed UTF-8.
pub open spec fn parse_text(bytes: Seq<u8>) -> Parsed<Seq<char>> {
    match parse_u32(bytes) {
        Some((n, rest)) => if n <= rest.len() && valid_utf8(rest.take(n as int)) {
            Some((decode_utf8(rest.take(n as int)), rest.skip(n as int)))
        } else {
            None
        },
        None => None,
    }
}

/// `n` ids in a row.
pub open spec fn parse_ids_body(bytes: Seq<u8>, n: nat) -> Parsed<Seq<u64>>
    decreases n,
{
    if n == 0 {
        Some((Seq::empty(), bytes))
    } else {
        match parse_ids_body(bytes, (n - 1) as nat) {
            Some((ids, rest)) => match parse_u64(rest) {
                Some((id, after)) => Some((ids.push(id), after)),
                None => None,
            },
            None => None,
        }
    }
}

/// A count, then that many ids.
pub open spec fn parse_ids(bytes: Seq<u8>) -> Parsed<Seq<u64>> {
    match parse_u32(bytes) {
        Some((n, rest)) => parse_ids_body(rest, n as nat),
        None => None,
    }
}

/// `n` texts in a row.
pub open spec fn parse_texts_body(bytes: Seq<u8>, n: nat) -> Parsed<Seq<Seq<char>>>
    decreases n,
{
    if n == 0 {
        Some((Seq::empty(), bytes))
    } else {
        match parse_texts_body(bytes, (n - 1) as nat) {
            Some((texts, rest)) => match parse_text(rest) {
                Some((text, after)) => Some((texts.push(text), after)),
                None => None,
            },
            None => None,
        }
    }
}

/// A count, then that many texts.
pub open spec fn parse_texts(bytes: Seq<u8>) -> Parsed<Seq<Seq<char>>> {
    match parse_u32(bytes) {
        Some((n, rest)) => parse_texts_body(rest, n as nat),
        None => None,
    }
}

// ---------------------------------------------------------------------------
// Reading undoes writing
// ---------------------------------------------------------------------------
pub proof fn lemma_parse_u8(x: u8, tail: Seq<u8>)
    ensures
        parse_u8(seq![x] + tail) == Some((x, tail)),
{
    assert((seq![x] + tail).skip(1) =~= tail);
}

pub proof fn lemma_parse_u32(x: u32, tail: Seq<u8>)
    ensures
        u32_bytes(x).len() == 4,
        parse_u32(u32_bytes(x) + tail) == Some((x, tail)),
{
    lemma_auto_spec_u32_to_from_le_bytes();
    let all = u32_bytes(x) + tail;
    assert(all.take(4) =~= u32_bytes(x));
    assert(all.skip(4) =~= tail);
}

pub proof fn lemma_parse_u64(x: u64, tail: Seq<u8>)
    ensures
        u64_bytes(x).len() == 8,
        parse_u64(u64_bytes(x) + tail) == Some((x, tail)),
{
    lemma_auto_spec_u64_to_from_le_bytes();
    let all = u64_bytes(x) + tail;
    assert(all.take(8) =~= u64_bytes(x));
    assert(all.skip(8) =~= tail);
}

pub proof fn lemma_parse_text(text: Seq<char>, tail: Seq<u8>)
    requires
        encode_utf8(text).len() <= u32::MAX,
    ensures
        text_bytes(text).len() == 4 + encode_utf8(text).len(),
        parse_text(text_bytes(text) + tail) == Some((text, tail)),
{
    let utf8 = encode_utf8(text);
    let n = utf8.len() as u32;
    lemma_parse_u32(n, utf8 + tail);
    assert(text_bytes(text) + tail =~= u32_bytes(n) + (utf8 + tail));
    assert((utf8 + tail).take(n as int) =~= utf8);
    assert((utf8 + tail).skip(n as int) =~= tail);
    encode_utf8_valid_utf8(text);
    encode_utf8_decode_utf8(text);
}

/// Bytes joined in three parts are the same whichever two are joined first.
pub proof fn lemma_regroup(a: Seq<u8>, b: Seq<u8>, c: Seq<u8>)
    ensures
        (a + b) + c == a + (b + c),
{
    assert((a + b) + c =~= a + (b + c));
}

/// The lengths of the integer fields.
pub proof fn lemma_field_lengths()
    ensures
        forall|x: u32| (#[trigger] u32_bytes(x)).len() == 4,
        forall|x: u64| (#[trigger] u64_bytes(x)).len() == 8,
{
    lemma_auto_spec_u32_to_from_le_bytes();
    lemma_auto_spec_u64_to_from_le_bytes();
}

pub proof fn lemma_ids_body_len(ids: Seq<u64>)
    ensures
        ids_body(ids).len() == 8 * ids.len(),
    decreases ids.len(),
{
    if ids.len() > 0 {
        lemma_ids_body_len(ids.drop_last());
        lemma_auto_spec_u64_to_from_le_bytes();
    }
}

pub proof fn lemma_parse_ids_body(ids: Seq<u64>, tail: Seq<u8>)
    ensures
        parse_ids_body(ids_body(ids) + tail, ids.len()) == Some((ids, tail)),
    decreases ids.len(),
{
    if ids.len() == 0 {
        assert(ids_body(ids) + tail =~= tail);
        assert(ids =~= Seq::empty());
    } else {
        let front = ids.drop_last();
        let last_tail = u64_bytes(ids.last()) + tail;
        lemma_parse_ids_body(front, last_tail);
        assert(ids_body(ids) + tail =~= ids_body(front) + last_tail);
        lemma_parse_u64(ids.last(), tail);
        assert(front.push(ids.last()) =~= ids);
    }
}

pub proof fn lemma_parse_ids(ids: Seq<u64>, tail: Seq<u8>)
    requires
        ids.len() <= u32::MAX,
    ensures
        ids_bytes(ids).len() == 4 + 8 * ids.len(),
        parse_ids(ids_bytes(ids) + tail) == Some((ids, tail)),
{
    let n = ids.len() as u32;
    lemma_parse_u32(n, ids_body(ids) + tail);
    assert(ids_bytes(ids) + tail =~= u32_bytes(n) + (ids_body(ids) + tail));
    lemma_parse_ids_body(ids, tail);
    lemma_ids_body_len(ids);
}

/// Every text of the list has a UTF-8 form whose length fits in four bytes.
pub open spec fn texts_within_u32(texts: Seq<Seq<char>>) -> bool {
    forall|i: int| 0 <= i < texts.len() ==> (#[trigger] encode_utf8(texts[i])).len() <= u32::MAX
}

pub proof fn lemma_parse_texts_body(texts: Seq<Seq<char>>, tail: Seq<u8>)
    requires
        texts_within_u32(texts),
    ensures
        parse_texts_body(texts_body(texts) + tail, texts.len()) == Some((texts, tail)),
    decreases texts.len(),
{
    if texts.len() == 0 {
        assert(texts_body(texts) + tail =~= tail);
        assert(texts =~= Seq::empty());
    } else {
        let front = texts.drop_last();
        let last_tail = text_bytes(texts.last()) + tail;
        assert(texts_within_u32(front)) by {
            assert forall|i: int| 0 <= i < front.len() implies (#[trigger] encode_utf8(
                front[i],
            )).len() <= u32::MAX by {
                assert(front[i] == texts[i]);
            }
        }
        lemma_parse_texts_body(front, last_tail);
        assert(texts_body(texts) + tail =~= texts_body(front) + last_tail);
        assert(encode_utf8(texts[texts.len() - 1]).len() <= u32::MAX);
        lemma_parse_text(texts.last(), tail);
        assert(front.push(texts.last()) =~= texts);
    }
}

pub proof fn lemma_parse_texts(texts: Seq<Seq<char>>, tail: Seq<u8>)
    requires
        texts.len() <= u32::MAX,
        texts_within_u32(texts),
    ensures
        texts_bytes(texts).len() == 4 + texts_body(texts).len(),
        parse_texts(texts_bytes(texts) + tail) == Some((texts, tail)),
{
    let n = texts.len() as u32;
    lemma_parse_u32(n, texts_body(texts) + tail);
    assert(texts_bytes(texts) + tail =~= u32_bytes(n) + (texts_body(texts) + tail));
    lemma_parse_texts_body(texts, tail);
}

/// The body of a list is at least as long as any single text in it, and at
/// least four bytes for each text.
pub proof fn lemma_texts_body_bounds(texts: Seq<Seq<char>>)
    ensures
        4 * texts.len() <= texts_body(texts).len(),
        forall|i: int|
            0 <= i < texts.len() ==> (#[trigger] encode_utf8(texts[i])).len() <= texts_body(
                texts,
            ).len(),
    decreases texts.len(),
{
    if texts.len() > 0 {
        let front = texts.drop_last();
        lemma_texts_body_bounds(front);
        lemma_auto_spec_u32_to_from_le_bytes();
        assert forall|i: int| 0 <= i < texts.len() implies (#[trigger] encode_utf8(
            texts[i],
        )).len() <= texts_body(texts).len() by {
            if i < front.len() {
                assert(front[i] == texts[i]);
            }
        }
    }
}

/// A list that fails to parse at some length fails at every greater length.
pub proof fn lemma_parse_ids_body_fails(bytes: Seq<u8>, short: nat, n: nat)
    requires
        short <= n,
        parse_ids_body(bytes, short) is None,
    ensures
        parse_ids_body(bytes, n) is None,
    decreases n,
{
    if short < n {
        lemma_parse_ids_body_fails(bytes, short, (n - 1) as nat);
    }
}

pub proof fn lemma_parse_texts_body_fails(bytes: Seq<u8>, short: nat, n: nat)
    requires
        short <= n,
        parse_texts_body(bytes, short) is None,
    ensures
        parse_texts_body(bytes, n) is None,
    decreases n,
{
    if short < n {
        lemma_parse_texts_body_fails(bytes, short, (n - 1) as nat);
    }
}

// ---------------------------------------------------------------------------
// Writing undoes reading
// ---------------------------------------------------------------------------
/// What was parsed as a byte, written again, is what was there.
pub proof fn lemma_written_u8(bytes: Seq<u8>)
    ensures
        parse_u8(bytes) matches Some((x, after)) ==> bytes == seq![x] + after,
{
    if bytes.len() >= 1 {
        assert(bytes =~= seq![bytes[0]] + bytes.skip(1));
    }
}

/// What was parsed as four bytes, written again, is what was there.
pub proof fn lemma_written_u32(bytes: Seq<u8>)
    ensures
        parse_u32(bytes) matches Some((x, after)) ==> bytes == u32_bytes(x) + after,
{
    if bytes.len() >= 4 {
        lemma_auto_spec_u32_to_from_le_bytes();
        assert(bytes.take(4).len() == 4);
        assert(bytes =~= bytes.take(4) + bytes.skip(4));
    }
}

/// What was parsed as eight bytes, written again, is what was there.
pub proof fn lemma_written_u64(bytes: Seq<u8>)
    ensures
        parse_u64(bytes) matches Some((x, after)) ==> bytes == u64_bytes(x) + after,
{
    if bytes.len() >= 8 {
        lemma_auto_spec_u64_to_from_le_bytes();
        assert(bytes.take(8).len() == 8);
        assert(bytes =~= bytes.take(8) + bytes.skip(8));
    }
}

/// What was parsed as a text, written again, is what was there.
pub proof fn lemma_written_text(bytes: Seq<u8>)
    ensures
        parse_text(bytes) matches Some((text, after)) ==> bytes == text_bytes(text) + after,
{
    lemma_written_u32(bytes);
    match parse_u32(bytes) {
        Some((n, body)) => {
            if n <= body.len() && valid_utf8(body.take(n as int)) {
                let utf8 = body.take(n as int);
                decode_utf8_encode_utf8(utf8);
                assert(body =~= utf8 + body.skip(n as int));
                lemma_regroup(u32_bytes(n), utf8, body.skip(n as int));
            }
        },
        None => {},
    }
}

/// What was parsed as `n` ids, written again, is what was there.
pub proof fn lemma_written_ids_body(bytes: Seq<u8>, n: nat)
    ensures
        parse_ids_body(bytes, n) matches Some((ids, after)) ==> ids.len() == n && bytes
            == ids_body(ids) + after,
    decreases n,
{
    if n == 0 {
        assert(bytes =~= ids_body(Seq::empty()) + bytes);
    } else {
        lemma_written_ids_body(bytes, (n - 1) as nat);
        match parse_ids_body(bytes, (n - 1) as nat) {
            Some((front, middle)) => {
                lemma_written_u64(middle);
                match parse_u64(middle) {
                    Some((id, after)) => {
                        let ids = front.push(id);
                        assert(ids.drop_last() =~= front);
                        lemma_regroup(ids_body(front), u64_bytes(id), after);
                    },
                    None => {},
                }
            },
            None => {},
        }
    }
}

/// What was parsed as a list of ids, written again, is what was there.
pub proof fn lemma_written_ids(bytes: Seq<u8>)
    ensures
        parse_ids(bytes) matches Some((ids, after)) ==> bytes == ids_bytes(ids) + after,
{
    lemma_written_u32(bytes);
    match parse_u32(bytes) {
        Some((n, body)) => {
            lemma_written_ids_body(body, n as nat);
            match parse_ids_body(body, n as nat) {
                Some((ids, after)) => {
                    lemma_regroup(u32_bytes(n), ids_body(ids), after);
                },
                None => {},
            }
        },
        None => {},
    }
}

/// What was parsed as `n` texts, written again, is what was there.
pub proof fn lemma_written_texts_body(bytes: Seq<u8>, n: nat)
    ensures
        parse_texts_body(bytes, n) matches Some((texts, after)) ==> texts.len() == n && bytes
            == texts_body(texts) + after,
    decreases n,
{
    if n == 0 {
        assert(bytes =~= texts_body(Seq::empty()) + bytes);
    } else {
        lemma_written_texts_body(bytes, (n - 1) as nat);
        match parse_texts_body(bytes, (n - 1) as nat) {
            Some((front, middle)) => {
                lemma_written_text(middle);
                match parse_text(middle) {
                    Some((text, after)) => {
                        let texts = front.push(text);
                        assert(texts.drop_last() =~= front);
                        lemma_regroup(texts_body(front), text_bytes(text), after);
                    },
                    None => {},
                }
            },
            None => {},
        }
    }
}

/// What was parsed as a list of texts, written again, is what was there.
pub proof fn lemma_written_texts(bytes: Seq<u8>)
    ensures
        parse_texts(bytes) matches Some((texts, after)) ==> bytes == texts_bytes(texts) + after,
{
    lemma_written_u32(bytes);
    match parse_u32(bytes) {
        Some((n, body)) => {
            lemma_written_texts_body(body, n as nat);
            match parse_texts_body(body, n as nat) {
                Some((texts, after)) => {
                    lemma_regroup(u32_bytes(n), texts_body(texts), after);
                },
                None => {},
            }
        },
        None => {},
    }
}

// ---------------------------------------------------------------------------
// Writing
// ---------------------------------------------------------------------------
/// Appends the four bytes of `x`.
fn append_u32(buf: &mut Vec<u8>, x: u32)
    ensures
        final(buf)@ == old(buf)@ + u32_bytes(x),
        u32_bytes(x).len() == 4,
{
    let mut bytes = u32_to_le_bytes(x);
    buf.append(&mut bytes);
}

/// Appends the eight bytes of `x`.
fn append_u64(buf: &mut Vec<u8>, x: u64)
    ensures
        final(buf)@ == old(buf)@ + u64_bytes(x),
        u64_bytes(x).len() == 8,
{
    let mut bytes = u64_to_le_bytes(x);
    buf.append(&mut bytes);
}

/// Appends one byte, unless the buffer would then exceed the size of a
/// record.
///
/// Returns whether the byte was appended.
pub fn put_u8(buf: &mut Vec<u8>, x: u8) -> (done: bool)
    requires
        old(buf)@.len() <= MAX_RECORD_BYTES,
    ensures
        done == (old(buf)@.len() + 1 <= MAX_RECORD_BYTES),
        done ==> final(buf)@ == old(buf)@ + seq![x],
{
    if MAX_RECORD_BYTES - buf.len() < 1 {
        return false;
    }
    buf.push(x);
    assert(buf@ =~= old(buf)@ + seq![x]);
    true
}

/// Appends the four bytes of `x`, unless the buffer would then exceed the
/// size of a record.
///
/// Returns whether they were appended.
pub fn put_u32(buf: &mut Vec<u8>, x: u32) -> (done: bool)
    requires
        old(buf)@.len() <= MAX_RECORD_BYTES,
    ensures
        done == (old(buf)@.len() + 4 <= MAX_RECORD_BYTES),
        done ==> final(buf)@ == old(buf)@ + u32_bytes(x),
        u32_bytes(x).len() == 4,
{
    proof {
        lemma_auto_spec_u32_to_from_le_bytes();
    }
    if MAX_RECORD_BYTES - buf.len() < 4 {
        return false;
    }
    append_u32(buf, x);
    true
}

/// Appends the eight bytes of `x`, unless the buffer would then exceed the
/// size of a record.
///
/// Returns whether they were appended.
pub fn put_u64(buf: &mut Vec<u8>, x: u64) -> (done: bool)
    requires
        old(buf)@.len() <= MAX_RECORD_BYTES,
    ensures
        done == (old(buf)@.len() + 8 <= MAX_RECORD_BYTES),
        done ==> final(buf)@ == old(buf)@ + u64_bytes(x),
        u64_bytes(x).len() == 8,
{
    proof {
        lemma_auto_spec_u64_to_from_le_bytes();
    }
    if MAX_RECORD_BYTES - buf.len() < 8 {
        return false;
    }
    append_u64(buf, x);
    true
}

/// Appends a text, unless the buffer would then exceed the size of a record.
///
/// Returns whether the text was appended.
pub fn put_text(buf: &mut Vec<u8>, text: &str) -> (done: bool)
    requires
        old(buf)@.len() <= MAX_RECORD_BYTES,
    ensures
        done == (old(buf)@.len() + text_bytes(text@).len() <= MAX_RECORD_BYTES),
        done ==> final(buf)@ == old(buf)@ + text_bytes(text@),
        text_bytes(text@).len() == 4 + encode_utf8(text@).len(),
{
    proof {
        lemma_auto_spec_u32_to_from_le_bytes();
    }
    let mut utf8 = text.as_bytes_vec();
    let room = MAX_RECORD_BYTES - buf.len();
    if utf8.len() > room || room - utf8.len() < 4 {
        return false;
    }
    append_u32(buf, utf8.len() as u32);
    buf.append(&mut utf8);
    assert(buf@ =~= old(buf)@ + text_bytes(text@));
    true
}

/// Appends a list of ids, unless the buffer would then exceed the size of a
/// record.
///
/// Returns whether the list was appended.
pub fn put_ids(buf: &mut Vec<u8>, ids: &Vec<u64>) -> (done: bool)
    requires
        old(buf)@.len() <= MAX_RECORD_BYTES,
    ensures
        done == (old(buf)@.len() + ids_bytes(ids@).len() <= MAX_RECORD_BYTES),
        done ==> final(buf)@ == old(buf)@ + ids_bytes(ids@),
        ids_bytes(ids@).len() == 4 + 8 * ids@.len(),
{
    proof {
        lemma_auto_spec_u32_to_from_le_bytes();
        lemma_ids_body_len(ids@);
    }
    let room = MAX_RECORD_BYTES - buf.len();
    if ids.len() > room / 8 || room - 8 * ids.len() < 4 {
        return false;
    }
    append_u32(buf, ids.len() as u32);
    let ghost start = buf@;
    let mut i: usize = 0;
    while i < ids.len()
        invariant
            i <= ids.len(),
            buf@ == start + ids_body(ids@.take(i as int)),
        decreases ids.len() - i,
    {
        append_u64(buf, ids[i]);
        proof {
            let before = ids@.take(i as int);
            let now = ids@.take(i + 1);
            assert(now.drop_last() =~= before);
            assert(now.last() == ids@[i as int]);
            assert(buf@ =~= start + ids_body(now));
        }
        i += 1;
    }
    assert(ids@.take(ids.len() as int) =~= ids@);
    assert(buf@ =~= old(buf)@ + ids_bytes(ids@));
    true
}

/// Appends a list of texts, unless the buffer would then exceed the size of a
/// record.
///
/// Returns whether the list was appended.
pub fn put_texts(buf: &mut Vec<u8>, texts: &Vec<String>) -> (done: bool)
    requires
        old(buf)@.len() <= MAX_RECORD_BYTES,
    ensures
        done == (old(buf)@.len() + texts_bytes(texts_view(texts@)).len() <= MAX_RECORD_BYTES),
        done ==> final(buf)@ == old(buf)@ + texts_bytes(texts_view(texts@)),
        texts_bytes(texts_view(texts@)).len() == 4 + texts_body(texts_view(texts@)).len(),
{
    let ghost all = texts_view(texts@);
    proof {
        lemma_auto_spec_u32_to_from_le_bytes();
        lemma_texts_body_bounds(all);
    }
    let room = MAX_RECORD_BYTES - buf.len();
    if room < 4 || texts.len() > (room - 4) / 4 {
        return false;
    }
    append_u32(buf, texts.len() as u32);
    let ghost start = buf@;
    let mut i: usize = 0;
    while i < texts.len()
        invariant
            i <= texts.len(),
            all == texts_view(texts@),
            start.len() == old(buf)@.len() + 4,
            texts_bytes(all).len() == 4 + texts_body(all).len(),
            buf@ == start + texts_body(all.take(i as int)),
            buf@.len() <= MAX_RECORD_BYTES,
        decreases texts.len() - i,
    {
        let ghost before = all.take(i as int);
        let ghost now = all.take(i + 1);
        proof {
            assert(now.drop_last() =~= before);
            assert(now.last() == texts@[i as int]@);
            lemma_texts_body_grows(all, i + 1);
        }
        let done = put_text(buf, texts[i].as_str());
        if !done {
            return false;
        }
        assert(buf@ =~= start + texts_body(now));
        i += 1;
    }
    assert(all.take(texts.len() as int) =~= all);
    assert(buf@ =~= old(buf)@ + texts_bytes(all));
    true
}

/// The body of the first `n` texts is no longer than the body of them all.
pub proof fn lemma_texts_body_grows(texts: Seq<Seq<char>>, n: int)
    requires
        0 <= n <= texts.len(),
    ensures
        texts_body(texts.take(n)).len() <= texts_body(texts).len(),
    decreases texts.len(),
{
    if n == texts.len() {
        assert(texts.take(n) =~= texts);
    } else {
        lemma_texts_body_grows(texts.drop_last(), n);
        assert(texts.drop_last().take(n) =~= texts.take(n));
    }
}

// ---------------------------------------------------------------------------
// Reading
// ---------------------------------------------------------------------------
/// Reads one byte at `at`. Returns it with the position after it.
pub fn read_u8(bytes: &[u8], at: usize) -> (read: Option<(u8, usize)>)
    requires
        at <= bytes@.len(),
    ensures
        match read {
            Some((x, next)) => at <= next <= bytes@.len() && parse_u8(bytes@.skip(at as int))
                == Some((x, bytes@.skip(next as int))),
            None => parse_u8(bytes@.skip(at as int)) is None,
        },
{
    if bytes.len() - at < 1 {
        return None;
    }
    assert(bytes@.skip(at as int).skip(1) =~= bytes@.skip(at + 1));
    Some((bytes[at], at + 1))
}

/// Reads four bytes at `at`. Returns their value with the position after them.
pub fn read_u32(bytes: &[u8], at: usize) -> (read: Option<(u32, usize)>)
    requires
        at <= bytes@.len(),
    ensures
        match read {
            Some((x, next)) => at <= next <= bytes@.len() && parse_u32(bytes@.skip(at as int))
                == Some((x, bytes@.skip(next as int))),
            None => parse_u32(bytes@.skip(at as int)) is None,
        },
{
    if bytes.len() - at < 4 {
        return None;
    }
    let x = u32_from_le_bytes(slice_subrange(bytes, at, at + 4));
    assert(bytes@.skip(at as int).take(4) =~= bytes@.subrange(at as int, at + 4));
    assert(bytes@.skip(at as int).skip(4) =~= bytes@.skip(at + 4));
    Some((x, at + 4))
}

/// Reads eight bytes at `at`. Returns their value with the position after
/// them.
pub fn read_u64(bytes: &[u8], at: usize) -> (read: Option<(u64, usize)>)
    requires
        at <= bytes@.len(),
    ensures
        match read {
            Some((x, next)) => at <= next <= bytes@.len() && parse_u64(bytes@.skip(at as int))
                == Some((x, bytes@.skip(next as int))),
            None => parse_u64(bytes@.skip(at as int)) is None,
        },
{
    if bytes.len() - at < 8 {
        return None;
    }
    let x = u64_from_le_bytes(slice_subrange(bytes, at, at + 8));
    assert(bytes@.skip(at as int).take(8) =~= bytes@.subrange(at as int, at + 8));
    assert(bytes@.skip(at as int).skip(8) =~= bytes@.skip(at + 8));
    Some((x, at + 8))
}

/// Reads a text at `at`. Returns it with the position after it.
pub fn read_text(bytes: &[u8], at: usize) -> (read: Option<(String, usize)>)
    requires
        at <= bytes@.len(),
    ensures
        match read {
            Some((text, next)) => at <= next <= bytes@.len() && parse_text(
                bytes@.skip(at as int),
            ) == Some((text@, bytes@.skip(next as int))),
            None => parse_text(bytes@.skip(at as int)) is None,
        },
{
    let (n, start) = match read_u32(bytes, at) {
        Some(found) => found,
        None => { return None; },
    };
    if n as usize > bytes.len() - start {
        return None;
    }
    let end = start + n as usize;
    let utf8 = slice_to_vec(slice_subrange(bytes, start, end));
    assert(bytes@.skip(start as int).take(n as int) =~= bytes@.subrange(start as int, end as int));
    assert(bytes@.skip(start as int).skip(n as int) =~= bytes@.skip(end as int));
    match String::from_utf8(utf8) {
        Ok(text) => Some((text, end)),
        Err(_) => None,
    }
}

/// Reads a list of ids at `at`. Returns it with the position after it.
pub fn read_ids(bytes: &[u8], at: usize) -> (read: Option<(Vec<u64>, usize)>)
    requires
        at <= bytes@.len(),
    ensures
        match read {
            Some((ids, next)) => at <= next <= bytes@.len() && parse_ids(bytes@.skip(at as int))
                == Some((ids@, bytes@.skip(next as int))),
            None => parse_ids(bytes@.skip(at as int)) is None,
        },
{
    let (n, start) = match read_u32(bytes, at) {
        Some(found) => found,
        None => { return None; },
    };
    let ghost body = bytes@.skip(start as int);
    let mut ids: Vec<u64> = Vec::new();
    let mut next = start;
    let mut i: u32 = 0;
    while i < n
        invariant
            i <= n,
            start <= next <= bytes@.len(),
            parse_u32(bytes@.skip(at as int)) == Some((n, body)),
            parse_ids_body(body, i as nat) == Some((ids@, bytes@.skip(next as int))),
        decreases n - i,
    {
        match read_u64(bytes, next) {
            Some((id, after)) => {
                ids.push(id);
                next = after;
            },
            None => {
                proof {
                    lemma_parse_ids_body_fails(body, (i + 1) as nat, n as nat);
                }
                return None;
            },
        }
        i += 1;
    }
    Some((ids, next))
}

/// Reads a list of texts at `at`. Returns it with the position after it.
pub fn read_texts(bytes: &[u8], at: usize) -> (read: Option<(Vec<String>, usize)>)
    requires
        at <= bytes@.len(),
    ensures
        match read {
            Some((texts, next)) => at <= next <= bytes@.len() && parse_texts(
                bytes@.skip(at as int),
            ) == Some((texts_view(texts@), bytes@.skip(next as int))),
            None => parse_texts(bytes@.skip(at as int)) is None,
        },
{
    let (n, start) = match read_u32(bytes, at) {
        Some(found) => found,
        None => { return None; },
    };
    let ghost body = bytes@.skip(start as int);
    let mut texts: Vec<String> = Vec::new();
    let mut next = start;
    let mut i: u32 = 0;
    assert(texts_view(texts@) =~= Seq::empty());
    while i < n
        invariant
            i <= n,
            start <= next <= bytes@.len(),
            parse_u32(bytes@.skip(at as int)) == Some((n, body)),
            parse_texts_body(body, i as nat) == Some(
                (texts_view(texts@), bytes@.skip(next as int)),
            ),
        decreases n - i,
    {
        match read_text(bytes, next) {
            Some((text, after)) => {
                let ghost before = texts_view(texts@);
                let ghost chars = text@;
                texts.push(text);
                assert(texts_view(texts@) =~= before.push(chars));
                next = after;
            },
            None => {
                proof {
                    lemma_parse_texts_body_fails(body, (i + 1) as nat, n as nat);
                }
                return None;
            },
        }
        i += 1;
    }
    Some((texts, next))
}

// ---------------------------------------------------------------------------
// Comparing
// ---------------------------------------------------------------------------
/// Whether no id occurs twice in the list.
pub fn ids_distinct(ids: &Vec<u64>) -> (distinct: bool)
    ensures
        distinct == ids@.no_duplicates(),
{
    let mut i: usize = 0;
    while i < ids.len()
        invariant
            i <= ids.len(),
            forall|a: int, b: int| 0 <= a < i && 0 <= b < a ==> ids@[a] != ids@[b],
        decreases ids.len() - i,
    {
        let mut j: usize = 0;
        while j < i
            invariant
                j <= i < ids.len(),
                forall|b: int| 0 <= b < j ==> ids@[i as int] != ids@[b],
            decreases i - j,
        {
            if ids[i] == ids[j] {
                return false;
            }
            j += 1;
        }
        i += 1;
    }
    assert forall|a: int, b: int|
        0 <= a < ids@.len() && 0 <= b < ids@.len() && a != b implies ids@[a] != ids@[b] by {
        if b < a {
        } else {
            assert(ids@[b] != ids@[a]);
        }
    }
    true
}

} // verus!
