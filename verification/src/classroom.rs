//! Classrooms: the record, the payload that creates or updates one, and the
//! record's byte layout.

use crate::codec::{
    lemma_field_lengths, lemma_parse_text, lemma_parse_texts, lemma_parse_u32, lemma_parse_u64,
    lemma_regroup, lemma_texts_body_bounds, lemma_written_text, lemma_written_texts,
    lemma_written_u32, lemma_written_u64, parse_text, parse_texts, parse_u32, parse_u64,
    put_text, put_texts, put_u32, put_u64, read_text, read_texts, read_u32, read_u64, rest,
    text_bytes, texts_bytes, texts_view, u32_bytes, u64_bytes, value,
};
use crate::entity_store::{Record, RecordModel};
use crate::storage::MAX_RECORD_BYTES;
use vstd::prelude::*;

verus! {

/// A classroom.
#[derive(Clone, Debug, PartialEq, Eq)]
pub struct Classroom {
    pub id: u64,
    pub name: String,
    pub location: String,
    pub capacity: u32,
    /// The id of the course held in the room. Nothing checks that such a
    /// course exists.
    pub current_course_id: u64,
    pub equipment: Vec<String>,
}

/// What a [`Classroom`] stands for in contracts.
#[verifier::ext_equal]
pub struct ClassroomView {
    pub id: u64,
    pub name: Seq<char>,
    pub location: Seq<char>,
    pub capacity: u32,
    pub current_course_id: u64,
    pub equipment: Seq<Seq<char>>,
}

impl View for Classroom {
    type V = ClassroomView;

    open spec fn view(&self) -> ClassroomView {
        ClassroomView {
            id: self.id,
            name: self.name@,
            location: self.location@,
            capacity: self.capacity,
            current_course_id: self.current_course_id,
            equipment: texts_view(self.equipment@),
        }
    }
}

impl Default for Classroom {
    /// The classroom with the id 0 and every field empty.
    fn default() -> (classroom: Classroom)
        ensures
            classroom@ == (ClassroomView {
                id: 0,
                name: Seq::empty(),
                location: Seq::empty(),
                capacity: 0,
                current_course_id: 0,
                equipment: Seq::empty(),
            }),
    {
        let equipment: Vec<String> = Vec::new();
        assert(texts_view(equipment@) =~= Seq::empty());
        Classroom {
            id: 0,
            name: String::new(),
            location: String::new(),
            capacity: 0,
            current_course_id: 0,
            equipment,
        }
    }
}

/// What a caller supplies to create a classroom or to update one.
#[derive(Clone, Debug, PartialEq, Eq)]
pub struct ClassroomPayload {
    pub name: String,
    pub location: String,
    pub capacity: u32,
    pub current_course_id: u64,
}

/// What a [`ClassroomPayload`] stands for in contracts.
#[verifier::ext_equal]
pub struct ClassroomPayloadView {
    pub name: Seq<char>,
    pub location: Seq<char>,
    pub capacity: u32,
    pub current_course_id: u64,
}

impl View for ClassroomPayload {
    type V = ClassroomPayloadView;

    open spec fn view(&self) -> ClassroomPayloadView {
        ClassroomPayloadView {
            name: self.name@,
            location: self.location@,
            capacity: self.capacity,
            current_course_id: self.current_course_id,
        }
    }
}

impl ClassroomPayloadView {
    /// A classroom can be created from the payload: name and location are
    /// there.
    pub open spec fn is_valid(self) -> bool {
        self.name.len() > 0 && self.location.len() > 0
    }
}

impl Default for ClassroomPayload {
    fn default() -> (payload: ClassroomPayload)
        ensures
            payload@ == (ClassroomPayloadView {
                name: Seq::empty(),
                location: Seq::empty(),
                capacity: 0,
                current_course_id: 0,
            }),
    {
        ClassroomPayload {
            name: String::new(),
            location: String::new(),
            capacity: 0,
            current_course_id: 0,
        }
    }
}

impl ClassroomPayload {
    /// Whether name and location are there.
    pub fn is_valid(&self) -> (valid: bool)
        ensures
            valid == self@.is_valid(),
    {
        !self.name.as_str().is_empty() && !self.location.as_str().is_empty()
    }
}

impl ClassroomView {
    /// The classroom that `payload` creates under `id`: the payload's fields
    /// and no equipment.
    pub open spec fn created(id: u64, payload: ClassroomPayloadView) -> ClassroomView {
        ClassroomView {
            id,
            name: payload.name,
            location: payload.location,
            capacity: payload.capacity,
            current_course_id: payload.current_course_id,
            equipment: Seq::empty(),
        }
    }

    /// The classroom after an update with `payload`: the payload's fields
    /// replace their counterparts; the id and the equipment stay.
    pub open spec fn updated(self, payload: ClassroomPayloadView) -> ClassroomView {
        ClassroomView {
            name: payload.name,
            location: payload.location,
            capacity: payload.capacity,
            current_course_id: payload.current_course_id,
            ..self
        }
    }

    /// The classroom with `equipment` in place of its equipment.
    pub open spec fn equipped(self, equipment: Seq<Seq<char>>) -> ClassroomView {
        ClassroomView { equipment, ..self }
    }

    /// The bytes that stand for the classroom in a record store: the fields
    /// in the order of their declaration.
    #[verifier::opaque]
    pub open spec fn bytes(self) -> Seq<u8> {
        u64_bytes(self.id) + text_bytes(self.name) + text_bytes(self.location) + u32_bytes(
            self.capacity,
        ) + u64_bytes(self.current_course_id) + texts_bytes(self.equipment)
    }

    /// The encoding is within the size of a record.
    pub open spec fn fits(self) -> bool {
        self.bytes().len() <= MAX_RECORD_BYTES
    }

    /// The classroom that `bytes` stand for, if they stand for one: every
    /// field parses, in order, and nothing is left over.
    #[verifier::opaque]
    pub open spec fn parse(bytes: Seq<u8>) -> Option<ClassroomView> {
        let id = parse_u64(bytes);
        let name = parse_text(rest(id));
        let location = parse_text(rest(name));
        let capacity = parse_u32(rest(location));
        let current_course_id = parse_u64(rest(capacity));
        let equipment = parse_texts(rest(current_course_id));
        if id is Some && name is Some && location is Some && capacity is Some
            && current_course_id is Some && equipment is Some && rest(equipment).len() == 0 {
            Some(
                ClassroomView {
                    id: value(id),
                    name: value(name),
                    location: value(location),
                    capacity: value(capacity),
                    current_course_id: value(current_course_id),
                    equipment: value(equipment),
                },
            )
        } else {
            None
        }
    }

    /// The size of a new classroom's encoding does not depend on its id.
    pub proof fn lemma_created_size(id: u64, other: u64, payload: ClassroomPayloadView)
        ensures
            ClassroomView::created(id, payload).bytes().len() == ClassroomView::created(
                other,
                payload,
            ).bytes().len(),
    {
        reveal(ClassroomView::bytes);
        lemma_field_lengths();
    }

    /// The bytes that parse as a classroom are the bytes of that classroom: no
    /// two byte sequences stand for the same classroom.
    pub proof fn lemma_bytes_parsed(bytes: Seq<u8>)
        ensures
            ClassroomView::parse(bytes) matches Some(classroom) ==> classroom.bytes() == bytes,
    {
        reveal(ClassroomView::bytes);
        reveal(ClassroomView::parse);
        let p0 = parse_u64(bytes);
        lemma_written_u64(bytes);
        let p1 = parse_text(rest(p0));
        lemma_written_text(rest(p0));
        let p2 = parse_text(rest(p1));
        lemma_written_text(rest(p1));
        let p3 = parse_u32(rest(p2));
        lemma_written_u32(rest(p2));
        let p4 = parse_u64(rest(p3));
        lemma_written_u64(rest(p3));
        let p5 = parse_texts(rest(p4));
        lemma_written_texts(rest(p4));
        if p0 is Some && p1 is Some && p2 is Some && p3 is Some && p4 is Some && p5 is Some &&
            rest(p5).len() == 0 {
            let e0 = u64_bytes(value(p0));
            let e1 = text_bytes(value(p1));
            let e2 = text_bytes(value(p2));
            let e3 = u32_bytes(value(p3));
            let e4 = u64_bytes(value(p4));
            let e5 = texts_bytes(value(p5));
            assert(rest(p5) =~= Seq::<u8>::empty());
            assert(e5 + rest(p5) =~= e5);
            lemma_regroup(e0 + e1 + e2 + e3, e4, rest(p4));
            lemma_regroup(e0 + e1 + e2, e3, rest(p3));
            lemma_regroup(e0 + e1, e2, rest(p2));
            lemma_regroup(e0, e1, rest(p1));
        }
    }

    /// Parsing the bytes of a classroom that fits gives the classroom back.
    pub proof fn lemma_parse_bytes(self)
        requires
            self.fits(),
        ensures
            ClassroomView::parse(self.bytes()) == Some(self),
    {
        reveal(ClassroomView::bytes);
        reveal(ClassroomView::parse);
        let e0 = u64_bytes(self.id);
        let e1 = text_bytes(self.name);
        let e2 = text_bytes(self.location);
        let e3 = u32_bytes(self.capacity);
        let e4 = u64_bytes(self.current_course_id);
        let t5 = texts_bytes(self.equipment);
        let t4 = e4 + t5;
        let t3 = e3 + t4;
        let t2 = e2 + t3;
        let t1 = e1 + t2;
        lemma_regroup(e0 + e1 + e2 + e3, e4, t5);
        lemma_regroup(e0 + e1 + e2, e3, t4);
        lemma_regroup(e0 + e1, e2, t3);
        lemma_regroup(e0, e1, t2);
        assert(self.bytes() == e0 + t1);
        lemma_field_lengths();
        lemma_texts_body_bounds(self.equipment);
        lemma_parse_u64(self.id, t1);
        lemma_parse_text(self.name, t2);
        lemma_parse_text(self.location, t3);
        lemma_parse_u32(self.capacity, t4);
        lemma_parse_u64(self.current_course_id, t5);
        lemma_parse_texts(self.equipment, Seq::empty());
        assert(t5 + Seq::empty() =~= t5);
    }
}

/// The bytes that stand for the classroom with these fields, unless they exceed
/// the size of a record.
fn encode_fields(
    id: u64,
    name: &str,
    location: &str,
    capacity: u32,
    current_course_id: u64,
    equipment: &Vec<String>,
) -> (encoded: Option<Vec<u8>>)
    ensures
        ({
            let classroom = ClassroomView {
                id,
                name: name@,
                location: location@,
                capacity,
                current_course_id,
                equipment: texts_view(equipment@),
            };
            match encoded {
                Some(bytes) => classroom.fits() && bytes@ == classroom.bytes(),
                None => !classroom.fits(),
            }
        }),
{
    reveal(ClassroomView::bytes);
    let mut buf: Vec<u8> = Vec::new();
    assert(buf@ + u64_bytes(id) =~= u64_bytes(id));
    if !put_u64(&mut buf, id) {
        return None;
    }
    if !put_text(&mut buf, name) {
        return None;
    }
    if !put_text(&mut buf, location) {
        return None;
    }
    if !put_u32(&mut buf, capacity) {
        return None;
    }
    if !put_u64(&mut buf, current_course_id) {
        return None;
    }
    if !put_texts(&mut buf, equipment) {
        return None;
    }
    Some(buf)
}

impl ClassroomPayload {
    /// Whether a classroom created from the payload fits in a record.
    pub fn fits(&self) -> (fits: bool)
        ensures
            fits == ClassroomView::created(0, self@).fits(),
    {
        let no_texts: Vec<String> = Vec::new();
        assert(texts_view(no_texts@) =~= Seq::empty());
        encode_fields(
            0,
            self.name.as_str(),
            self.location.as_str(),
            self.capacity,
            self.current_course_id,
            &no_texts,
        ).is_some()
    }
}

impl Classroom {
    /// The classroom that `payload` creates under `id`.
    pub fn create(id: u64, payload: ClassroomPayload) -> (classroom: Classroom)
        ensures
            classroom@ == ClassroomView::created(id, payload@),
    {
        let equipment: Vec<String> = Vec::new();
        assert(texts_view(equipment@) =~= Seq::empty());
        Classroom {
            id,
            name: payload.name,
            location: payload.location,
            capacity: payload.capacity,
            current_course_id: payload.current_course_id,
            equipment,
        }
    }

    /// The classroom after an update with `payload`.
    pub fn update(self, payload: ClassroomPayload) -> (classroom: Classroom)
        ensures
            classroom@ == self@.updated(payload@),
    {
        Classroom {
            id: self.id,
            name: payload.name,
            location: payload.location,
            capacity: payload.capacity,
            current_course_id: payload.current_course_id,
            equipment: self.equipment,
        }
    }

    /// The classroom with `equipment` in place of its equipment.
    pub fn equip(self, equipment: Vec<String>) -> (classroom: Classroom)
        ensures
            classroom@ == self@.equipped(texts_view(equipment@)),
    {
        let mut classroom = self;
        classroom.equipment = equipment;
        classroom
    }

    /// The bytes that stand for the classroom, unless they exceed the size of a
    /// record.
    pub fn encode(&self) -> (encoded: Option<Vec<u8>>)
        ensures
            match encoded {
                Some(bytes) => self@.fits() && bytes@ == self@.bytes(),
                None => !self@.fits(),
            },
    {
        encode_fields(
            self.id,
            self.name.as_str(),
            self.location.as_str(),
            self.capacity,
            self.current_course_id,
            &self.equipment,
        )
    }

    /// Whether the classroom's encoding is within the size of a record.
    pub fn fits(&self) -> (fits: bool)
        ensures
            fits == self@.fits(),
    {
        self.encode().is_some()
    }

    /// Whether the classroom would fit in a record with `equipment` in place
    /// of its equipment.
    pub fn fits_equipped(&self, equipment: &Vec<String>) -> (fits: bool)
        ensures
            fits == self@.equipped(texts_view(equipment@)).fits(),
    {
        encode_fields(
            self.id,
            self.name.as_str(),
            self.location.as_str(),
            self.capacity,
            self.current_course_id,
            equipment,
        ).is_some()
    }

    /// Whether the classroom would fit in a record after an update with
    /// `payload`.
    pub fn fits_updated(&self, payload: &ClassroomPayload) -> (fits: bool)
        ensures
            fits == self@.updated(payload@).fits(),
    {
        encode_fields(
            self.id,
            payload.name.as_str(),
            payload.location.as_str(),
            payload.capacity,
            payload.current_course_id,
            &self.equipment,
        ).is_some()
    }

    /// The classroom that `bytes` stand for, if they stand for one.
    pub fn decode(bytes: &[u8]) -> (decoded: Option<Classroom>)
        ensures
            match decoded {
                Some(classroom) => ClassroomView::parse(bytes@) == Some(classroom@),
                None => ClassroomView::parse(bytes@) is None,
            },
    {
        reveal(ClassroomView::parse);
        assert(bytes@.skip(0) =~= bytes@);
        let (id, at) = read_u64(bytes, 0)?;
        let (name, at) = read_text(bytes, at)?;
        let (location, at) = read_text(bytes, at)?;
        let (capacity, at) = read_u32(bytes, at)?;
        let (current_course_id, at) = read_u64(bytes, at)?;
        let (equipment, at) = read_texts(bytes, at)?;
        if at != bytes.len() {
            return None;
        }
        Some(Classroom { id, name, location, capacity, current_course_id, equipment })
    }
}

impl RecordModel for ClassroomView {
    open spec fn key(self) -> u64 {
        self.id
    }

    open spec fn bytes(self) -> Seq<u8> {
        ClassroomView::bytes(self)
    }

    open spec fn parse(bytes: Seq<u8>) -> Option<ClassroomView> {
        ClassroomView::parse(bytes)
    }

    proof fn lemma_parse_bytes(self) {
        ClassroomView::lemma_parse_bytes(self);
    }

    proof fn lemma_bytes_parsed(bytes: Seq<u8>) {
        ClassroomView::lemma_bytes_parsed(bytes);
    }
}

impl Record<ClassroomView> for Classroom {
    open spec fn model(&self) -> ClassroomView {
        self@
    }

    fn key(&self) -> u64 {
        self.id
    }

    fn to_bytes(&self) -> Option<Vec<u8>> {
        self.encode()
    }

    fn from_bytes(bytes: &[u8]) -> Option<Classroom> {
        Classroom::decode(bytes)
    }
}

} // verus!
