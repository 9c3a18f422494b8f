//! Teachers: the record, the payload that creates or updates one, and the
//! record's byte layout.

use crate::codec::{
    ids_bytes, lemma_field_lengths, lemma_ids_body_len, lemma_parse_ids, lemma_parse_text,
    lemma_parse_u64, lemma_regroup, lemma_written_ids, lemma_written_text, lemma_written_u64,
    parse_ids, parse_text, parse_u64, put_ids, put_text, put_u64, read_ids, read_text, read_u64,
    rest, text_bytes, u64_bytes, value,
};
use crate::entity_store::{Record, RecordModel};
use crate::storage::MAX_RECORD_BYTES;
use vstd::prelude::*;

verus! {

/// A teacher.
#[derive(Clone, Debug, PartialEq, Eq)]
pub struct Teacher {
    pub id: u64,
    pub name: String,
    pub subject_area: String,
    /// Ids of the courses assigned to the teacher.
    pub assigned_courses: Vec<u64>,
    pub email: String,
    pub qualifications: String,
    /// A calendar date, `YYYY-MM-DD`.
    pub employment_date: String,
    pub address: String,
    /// Ids of scheduled classes or duties.
    pub schedule: Vec<u64>,
}

/// What a [`Teacher`] stands for in contracts.
#[verifier::ext_equal]
pub struct TeacherView {
    pub id: u64,
    pub name: Seq<char>,
    pub subject_area: Seq<char>,
    pub assigned_courses: Seq<u64>,
    pub email: Seq<char>,
    pub qualifications: Seq<char>,
    pub employment_date: Seq<char>,
    pub address: Seq<char>,
    pub schedule: Seq<u64>,
}

impl View for Teacher {
    type V = TeacherView;

    open spec fn view(&self) -> TeacherView {
        TeacherView {
            id: self.id,
            name: self.name@,
            subject_area: self.subject_area@,
            assigned_courses: self.assigned_courses@,
            email: self.email@,
            qualifications: self.qualifications@,
            employment_date: self.employment_date@,
            address: self.address@,
            schedule: self.schedule@,
        }
    }
}

impl Default for Teacher {
    /// The teacher with the id 0 and every field empty.
    fn default() -> (teacher: Teacher)
        ensures
            teacher@ == (TeacherView {
                id: 0,
                name: Seq::empty(),
                subject_area: Seq::empty(),
                assigned_courses: Seq::empty(),
                email: Seq::empty(),
                qualifications: Seq::empty(),
                employment_date: Seq::empty(),
                address: Seq::empty(),
                schedule: Seq::empty(),
            }),
    {
        Teacher {
            id: 0,
            name: String::new(),
            subject_area: String::new(),
            assigned_courses: Vec::new(),
            email: String::new(),
            qualifications: String::new(),
            employment_date: String::new(),
            address: String::new(),
            schedule: Vec::new(),
        }
    }
}

/// What a caller supplies to create a teacher or to update one.
#[derive(Clone, Debug, PartialEq, Eq)]
pub struct TeacherPayload {
    pub name: String,
    pub subject_area: String,
    pub email: String,
    pub qualifications: String,
    pub employment_date: String,
    pub address: String,
    /// Taken on update only: a new teacher starts without courses.
    pub assigned_courses: Vec<u64>,
    /// Taken on update only: a new teacher starts without a schedule.
    pub schedule: Vec<u64>,
}

/// What a [`TeacherPayload`] stands for in contracts.
#[verifier::ext_equal]
pub struct TeacherPayloadView {
    pub name: Seq<char>,
    pub subject_area: Seq<char>,
    pub email: Seq<char>,
    pub qualifications: Seq<char>,
    pub employment_date: Seq<char>,
    pub address: Seq<char>,
    pub assigned_courses: Seq<u64>,
    pub schedule: Seq<u64>,
}

impl View for TeacherPayload {
    type V = TeacherPayloadView;

    open spec fn view(&self) -> TeacherPayloadView {
        TeacherPayloadView {
            name: self.name@,
            subject_area: self.subject_area@,
            email: self.email@,
            qualifications: self.qualifications@,
            employment_date: self.employment_date@,
            address: self.address@,
            assigned_courses: self.assigned_courses@,
            schedule: self.schedule@,
        }
    }
}

impl TeacherPayloadView {
    /// A teacher can be created from the payload: name and email are there.
    pub open spec fn is_valid(self) -> bool {
        self.name.len() > 0 && self.email.len() > 0
    }
}

impl Default for TeacherPayload {
    fn default() -> (payload: TeacherPayload)
        ensures
            payload@ == (TeacherPayloadView {
                name: Seq::empty(),
                subject_area: Seq::empty(),
                email: Seq::empty(),
                qualifications: Seq::empty(),
                employment_date: Seq::empty(),
                address: Seq::empty(),
                assigned_courses: Seq::empty(),
                schedule: Seq::empty(),
            }),
    {
        TeacherPayload {
            name: String::new(),
            subject_area: String::new(),
            email: String::new(),
            qualifications: String::new(),
            employment_date: String::new(),
            address: String::new(),
            assigned_courses: Vec::new(),
            schedule: Vec::new(),
        }
    }
}

impl TeacherPayload {
    /// Whether name and email are there.
    pub fn is_valid(&self) -> (valid: bool)
        ensures
            valid == self@.is_valid(),
    {
        !self.name.as_str().is_empty() && !self.email.as_str().is_empty()
    }
}

impl TeacherView {
    /// The teacher that `payload` creates under `id`: the payload's texts,
    /// and every list empty, whatever the payload's lists hold.
    pub open spec fn created(id: u64, payload: TeacherPayloadView) -> TeacherView {
        TeacherView {
            id,
            name: payload.name,
            subject_area: payload.subject_area,
            assigned_courses: Seq::empty(),
            email: payload.email,
            qualifications: payload.qualifications,
            employment_date: payload.employment_date,
            address: payload.address,
            schedule: Seq::empty(),
        }
    }

    /// The teacher after an update with `payload`: every field but the id is
    /// the payload's.
    pub open spec fn updated(self, payload: TeacherPayloadView) -> TeacherView {
        TeacherView {
            id: self.id,
            name: payload.name,
            subject_area: payload.subject_area,
            assigned_courses: payload.assigned_courses,
            email: payload.email,
            qualifications: payload.qualifications,
            employment_date: payload.employment_date,
            address: payload.address,
            schedule: payload.schedule,
        }
    }

    /// The teacher with `course_id` added at the end of the assigned courses.
    pub open spec fn assigned(self, course_id: u64) -> TeacherView {
        TeacherView { assigned_courses: self.assigned_courses.push(course_id), ..self }
    }

    /// The bytes that stand for the teacher in a record store: the fields in
    /// the order of their declaration.
    #[verifier::opaque]
    pub open spec fn bytes(self) -> Seq<u8> {
        u64_bytes(self.id) + text_bytes(self.name) + text_bytes(self.subject_area) + ids_bytes(
            self.assigned_courses,
        ) + text_bytes(self.email) + text_bytes(self.qualifications) + text_bytes(
            self.employment_date,
        ) + text_bytes(self.address) + ids_bytes(self.schedule)
    }

    /// The encoding is within the size of a record.
    pub open spec fn fits(self) -> bool {
        self.bytes().len() <= MAX_RECORD_BYTES
    }

    /// The teacher that `bytes` stand for, if they stand for one: every field
    /// parses, in order, and nothing is left over.
    #[verifier::opaque]
    pub open spec fn parse(bytes: Seq<u8>) -> Option<TeacherView> {
        let id = parse_u64(bytes);
        let name = parse_text(rest(id));
        let subject_area = parse_text(rest(name));
        let assigned_courses = parse_ids(rest(subject_area));
        let email = parse_text(rest(assigned_courses));
        let qualifications = parse_text(rest(email));
        let employment_date = parse_text(rest(qualifications));
        let address = parse_text(rest(employment_date));
        let schedule = parse_ids(rest(address));
        if id is Some && name is Some && subject_area is Some && assigned_courses is Some
            && email is Some && qualifications is Some && employment_date is Some
            && address is Some && schedule is Some && rest(schedule).len() == 0 {
            Some(
                TeacherView {
                    id: value(id),
                    name: value(name),
                    subject_area: value(subject_area),
                    assigned_courses: value(assigned_courses),
                    email: value(email),
                    qualifications: value(qualifications),
                    employment_date: value(employment_date),
                    address: value(address),
                    schedule: value(schedule),
                },
            )
        } else {
            None
        }
    }

    /// The size of a new teacher's encoding does not depend on its id.
    pub proof fn lemma_created_size(id: u64, other: u64, payload: TeacherPayloadView)
        ensures
            TeacherView::created(id, payload).bytes().len() == TeacherView::created(
                other,
                payload,
            ).bytes().len(),
    {
        reveal(TeacherView::bytes);
        lemma_field_lengths();
    }

    /// One more course makes the encoding eight bytes longer.
    pub proof fn lemma_assigned_size(self, course_id: u64)
        ensures
            self.assigned(course_id).bytes().len() == self.bytes().len() + 8,
    {
        reveal(TeacherView::bytes);
        lemma_field_lengths();
        lemma_ids_body_len(self.assigned_courses);
        lemma_ids_body_len(self.assigned_courses.push(course_id));
    }

    /// The bytes that parse as a teacher are the bytes of that teacher: no two
    /// byte sequences stand for the same teacher.
    pub proof fn lemma_bytes_parsed(bytes: Seq<u8>)
        ensures
            TeacherView::parse(bytes) matches Some(teacher) ==> teacher.bytes() == bytes,
    {
        reveal(TeacherView::bytes);
        reveal(TeacherView::parse);
        let p0 = parse_u64(bytes);
        lemma_written_u64(bytes);
        let p1 = parse_text(rest(p0));
        lemma_written_text(rest(p0));
        let p2 = parse_text(rest(p1));
        lemma_written_text(rest(p1));
        let p3 = parse_ids(rest(p2));
        lemma_written_ids(rest(p2));
        let p4 = parse_text(rest(p3));
        lemma_written_text(rest(p3));
        let p5 = parse_text(rest(p4));
        lemma_written_text(rest(p4));
        let p6 = parse_text(rest(p5));
        lemma_written_text(rest(p5));
        let p7 = parse_text(rest(p6));
        lemma_written_text(rest(p6));
        let p8 = parse_ids(rest(p7));
        lemma_written_ids(rest(p7));
        if p0 is Some && p1 is Some && p2 is Some && p3 is Some && p4 is Some && p5 is Some &&
            p6 is Some && p7 is Some && p8 is Some && rest(p8).len() == 0 {
            let e0 = u64_bytes(value(p0));
            let e1 = text_bytes(value(p1));
            let e2 = text_bytes(value(p2));
            let e3 = ids_bytes(value(p3));
            let e4 = text_bytes(value(p4));
            let e5 = text_bytes(value(p5));
            let e6 = text_bytes(value(p6));
            let e7 = text_bytes(value(p7));
            let e8 = ids_bytes(value(p8));
            assert(rest(p8) =~= Seq::<u8>::empty());
            assert(e8 + rest(p8) =~= e8);
            lemma_regroup(e0 + e1 + e2 + e3 + e4 + e5 + e6, e7, rest(p7));
            lemma_regroup(e0 + e1 + e2 + e3 + e4 + e5, e6, rest(p6));
            lemma_regroup(e0 + e1 + e2 + e3 + e4, e5, rest(p5));
            lemma_regroup(e0 + e1 + e2 + e3, e4, rest(p4));
            lemma_regroup(e0 + e1 + e2, e3, rest(p3));
            lemma_regroup(e0 + e1, e2, rest(p2));
            lemma_regroup(e0, e1, rest(p1));
        }
    }

    /// Parsing the bytes of a teacher that fits gives the teacher back.
    pub proof fn lemma_parse_bytes(self)
        requires
            self.fits(),
        ensures
            TeacherView::parse(self.bytes()) == Some(self),
    {
        reveal(TeacherView::bytes);
        reveal(TeacherView::parse);
        let e0 = u64_bytes(self.id);
        let e1 = text_bytes(self.name);
        let e2 = text_bytes(self.subject_area);
        let e3 = ids_bytes(self.assigned_courses);
        let e4 = text_bytes(self.email);
        let e5 = text_bytes(self.qualifications);
        let e6 = text_bytes(self.employment_date);
        let e7 = text_bytes(self.address);
        let t8 = ids_bytes(self.schedule);
        let t7 = e7 + t8;
        let t6 = e6 + t7;
        let t5 = e5 + t6;
        let t4 = e4 + t5;
        let t3 = e3 + t4;
        let t2 = e2 + t3;
        let t1 = e1 + t2;
        lemma_regroup(e0 + e1 + e2 + e3 + e4 + e5 + e6, e7, t8);
        lemma_regroup(e0 + e1 + e2 + e3 + e4 + e5, e6, t7);
        lemma_regroup(e0 + e1 + e2 + e3 + e4, e5, t6);
        lemma_regroup(e0 + e1 + e2 + e3, e4, t5);
        lemma_regroup(e0 + e1 + e2, e3, t4);
        lemma_regroup(e0 + e1, e2, t3);
        lemma_regroup(e0, e1, t2);
        assert(self.bytes() == e0 + t1);
        lemma_field_lengths();
        lemma_ids_body_len(self.assigned_courses);
        lemma_ids_body_len(self.schedule);
        lemma_parse_u64(self.id, t1);
        lemma_parse_text(self.name, t2);
        lemma_parse_text(self.subject_area, t3);
        lemma_parse_ids(self.assigned_courses, t4);
        lemma_parse_text(self.email, t5);
        lemma_parse_text(self.qualifications, t6);
        lemma_parse_text(self.employment_date, t7);
        lemma_parse_text(self.address, t8);
        lemma_parse_ids(self.schedule, Seq::empty());
        assert(t8 + Seq::empty() =~= t8);
    }
}

/// The bytes that stand for the teacher with these fields, unless they exceed
/// the size of a record.
fn encode_fields(
    id: u64,
    name: &str,
    subject_area: &str,
    assigned_courses: &Vec<u64>,
    email: &str,
    qualifications: &str,
    employment_date: &str,
    address: &str,
    schedule: &Vec<u64>,
) -> (encoded: Option<Vec<u8>>)
    ensures
        ({
            let teacher = TeacherView {
                id,
                name: name@,
                subject_area: subject_area@,
                assigned_courses: assigned_courses@,
                email: email@,
                qualifications: qualifications@,
                employment_date: employment_date@,
                address: address@,
                schedule: schedule@,
            };
            match encoded {
                Some(bytes) => teacher.fits() && bytes@ == teacher.bytes(),
                None => !teacher.fits(),
            }
        }),
{
    reveal(TeacherView::bytes);
    let mut buf: Vec<u8> = Vec::new();
    assert(buf@ + u64_bytes(id) =~= u64_bytes(id));
    if !put_u64(&mut buf, id) {
        return None;
    }
    if !put_text(&mut buf, name) {
        return None;
    }
    if !put_text(&mut buf, subject_area) {
        return None;
    }
    if !put_ids(&mut buf, assigned_courses) {
        return None;
    }
    if !put_text(&mut buf, email) {
        return None;
    }
    if !put_text(&mut buf, qualifications) {
        return None;
    }
    if !put_text(&mut buf, employment_date) {
        return None;
    }
    if !put_text(&mut buf, address) {
        return None;
    }
    if !put_ids(&mut buf, schedule) {
        return None;
    }
    Some(buf)
}

impl TeacherPayload {
    /// Whether a teacher created from the payload fits in a record.
    pub fn fits(&self) -> (fits: bool)
        ensures
            fits == TeacherView::created(0, self@).fits(),
    {
        let no_ids: Vec<u64> = Vec::new();
        encode_fields(
            0,
            self.name.as_str(),
            self.subject_area.as_str(),
            &no_ids,
            self.email.as_str(),
            self.qualifications.as_str(),
            self.employment_date.as_str(),
            self.address.as_str(),
            &no_ids,
        ).is_some()
    }
}

impl Teacher {
    /// The teacher that `payload` creates under `id`.
    pub fn create(id: u64, payload: TeacherPayload) -> (teacher: Teacher)
        ensures
            teacher@ == TeacherView::created(id, payload@),
    {
        Teacher {
            id,
            name: payload.name,
            subject_area: payload.subject_area,
            assigned_courses: Vec::new(),
            email: payload.email,
            qualifications: payload.qualifications,
            employment_date: payload.employment_date,
            address: payload.address,
            schedule: Vec::new(),
        }
    }

    /// The teacher after an update with `payload`.
    pub fn update(self, payload: TeacherPayload) -> (teacher: Teacher)
        ensures
            teacher@ == self@.updated(payload@),
    {
        Teacher {
            id: self.id,
            name: payload.name,
            subject_area: payload.subject_area,
            assigned_courses: payload.assigned_courses,
            email: payload.email,
            qualifications: payload.qualifications,
            employment_date: payload.employment_date,
            address: payload.address,
            schedule: payload.schedule,
        }
    }

    /// The teacher with `course_id` added at the end of the assigned courses.
    pub fn assign(self, course_id: u64) -> (teacher: Teacher)
        ensures
            teacher@ == self@.assigned(course_id),
    {
        let mut teacher = self;
        teacher.assigned_courses.push(course_id);
        teacher
    }

    /// The bytes that stand for the teacher, unless they exceed the size of a
    /// record.
    pub fn encode(&self) -> (encoded: Option<Vec<u8>>)
        ensures
            match encoded {
                Some(bytes) => self@.fits() && bytes@ == self@.bytes(),
                None => !self@.fits(),
            },
    {
        encode_fields(
            self.id,
            self.name.as_str(),
            self.subject_area.as_str(),
            &self.assigned_courses,
            self.email.as_str(),
            self.qualifications.as_str(),
            self.employment_date.as_str(),
            self.address.as_str(),
            &self.schedule,
        )
    }

    /// Whether the teacher's encoding is within the size of a record.
    pub fn fits(&self) -> (fits: bool)
        ensures
            fits == self@.fits(),
    {
        self.encode().is_some()
    }

    /// Whether the teacher would fit in a record with `course_id` added to the
    /// assigned courses.
    pub fn fits_assigned(&self, course_id: u64) -> (fits: bool)
        ensures
            fits == self@.assigned(course_id).fits(),
    {
        proof {
            self@.lemma_assigned_size(course_id);
        }
        match self.encode() {
            Some(bytes) => MAX_RECORD_BYTES - bytes.len() >= 8,
            None => false,
        }
    }

    /// Whether the teacher would fit in a record after an update with
    /// `payload`.
    pub fn fits_updated(&self, payload: &TeacherPayload) -> (fits: bool)
        ensures
            fits == self@.updated(payload@).fits(),
    {
        encode_fields(
            self.id,
            payload.name.as_str(),
            payload.subject_area.as_str(),
            &payload.assigned_courses,
            payload.email.as_str(),
            payload.qualifications.as_str(),
            payload.employment_date.as_str(),
            payload.address.as_str(),
            &payload.schedule,
        ).is_some()
    }

    /// The teacher that `bytes` stand for, if they stand for one.
    pub fn decode(bytes: &[u8]) -> (decoded: Option<Teacher>)
        ensures
            match decoded {
                Some(teacher) => TeacherView::parse(bytes@) == Some(teacher@),
                None => TeacherView::parse(bytes@) is None,
            },
    {
        reveal(TeacherView::parse);
        assert(bytes@.skip(0) =~= bytes@);
        let (id, at) = read_u64(bytes, 0)?;
        let (name, at) = read_text(bytes, at)?;
        let (subject_area, at) = read_text(bytes, at)?;
        let (assigned_courses, at) = read_ids(bytes, at)?;
        let (email, at) = read_text(bytes, at)?;
        let (qualifications, at) = read_text(bytes, at)?;
        let (employment_date, at) = read_text(bytes, at)?;
        let (address, at) = read_text(bytes, at)?;
        let (schedule, at) = read_ids(bytes, at)?;
        if at != bytes.len() {
            return None;
        }
        Some(
            Teacher {
                id,
                name,
                subject_area,
                assigned_courses,
                email,
                qualifications,
                employment_date,
                address,
                schedule,
            },
        )
    }
}

impl RecordModel for TeacherView {
    open spec fn key(self) -> u64 {
        self.id
    }

    open spec fn bytes(self) -> Seq<u8> {
        TeacherView::bytes(self)
    }

    open spec fn parse(bytes: Seq<u8>) -> Option<TeacherView> {
        TeacherView::parse(bytes)
    }

    proof fn lemma_parse_bytes(self) {
        TeacherView::lemma_parse_bytes(self);
    }

    proof fn lemma_bytes_parsed(bytes: Seq<u8>) {
        TeacherView::lemma_bytes_parsed(bytes);
    }
}

impl Record<TeacherView> for Teacher {
    open spec fn model(&self) -> TeacherView {
        self@
    }

    fn key(&self) -> u64 {
        self.id
    }

    fn to_bytes(&self) -> Option<Vec<u8>> {
        self.encode()
    }

    fn from_bytes(bytes: &[u8]) -> Option<Teacher> {
        Teacher::decode(bytes)
    }
}

} // verus!
