//! Courses: the record, the payload that creates or updates one, and the
//! record's byte layout.

use crate::codec::{
    ids_bytes, lemma_field_lengths, lemma_ids_body_len, lemma_parse_ids, lemma_parse_text,
    lemma_parse_texts, lemma_parse_u64, lemma_regroup, lemma_texts_body_bounds,
    lemma_written_ids, lemma_written_text, lemma_written_texts, lemma_written_u64, parse_ids,
    parse_text, parse_texts, parse_u64, put_ids, put_text, put_texts, put_u64, read_ids,
    read_text, read_texts, read_u64, rest, text_bytes, texts_bytes, texts_view, u64_bytes,
    value,
};
use crate::entity_store::{Record, RecordModel};
use crate::storage::MAX_RECORD_BYTES;
use vstd::prelude::*;

verus! {

/// A course.
#[derive(Clone, Debug, PartialEq, Eq)]
pub struct Course {
    pub id: u64,
    pub name: String,
    pub description: String,
    /// The id of the teacher; 0 where none is assigned. Nothing checks that
    /// such a teacher exists.
    pub teacher_id: u64,
    pub student_ids: Vec<u64>,
    pub schedule: String,
    pub syllabus: String,
    /// URLs or ids of course materials.
    pub course_materials: Vec<String>,
}

/// What a [`Course`] stands for in contracts.
#[verifier::ext_equal]
pub struct CourseView {
    pub id: u64,
    pub name: Seq<char>,
    pub description: Seq<char>,
    pub teacher_id: u64,
    pub student_ids: Seq<u64>,
    pub schedule: Seq<char>,
    pub syllabus: Seq<char>,
    pub course_materials: Seq<Seq<char>>,
}

impl View for Course {
    type V = CourseView;

    open spec fn view(&self) -> CourseView {
        CourseView {
            id: self.id,
            name: self.name@,
            description: self.description@,
            teacher_id: self.teacher_id,
            student_ids: self.student_ids@,
            schedule: self.schedule@,
            syllabus: self.syllabus@,
            course_materials: texts_view(self.course_materials@),
        }
    }
}

impl Default for Course {
    /// The course with the id 0 and every field empty.
    fn default() -> (course: Course)
        ensures
            course@ == (CourseView {
                id: 0,
                name: Seq::empty(),
                description: Seq::empty(),
                teacher_id: 0,
                student_ids: Seq::empty(),
                schedule: Seq::empty(),
                syllabus: Seq::empty(),
                course_materials: Seq::empty(),
            }),
    {
        let course_materials: Vec<String> = Vec::new();
        assert(texts_view(course_materials@) =~= Seq::empty());
        Course {
            id: 0,
            name: String::new(),
            description: String::new(),
            teacher_id: 0,
            student_ids: Vec::new(),
            schedule: String::new(),
            syllabus: String::new(),
            course_materials,
        }
    }
}

/// What a caller supplies to create a course or to update one.
#[derive(Clone, Debug, PartialEq, Eq)]
pub struct CoursePayload {
    pub name: String,
    pub description: String,
    pub teacher_id: u64,
}

/// What a [`CoursePayload`] stands for in contracts.
#[verifier::ext_equal]
pub struct CoursePayloadView {
    pub name: Seq<char>,
    pub description: Seq<char>,
    pub teacher_id: u64,
}

impl View for CoursePayload {
    type V = CoursePayloadView;

    open spec fn view(&self) -> CoursePayloadView {
        CoursePayloadView {
            name: self.name@,
            description: self.description@,
            teacher_id: self.teacher_id,
        }
    }
}

impl CoursePayloadView {
    /// A course can be created from the payload: name and description are
    /// there.
    pub open spec fn is_valid(self) -> bool {
        self.name.len() > 0 && self.description.len() > 0
    }
}

impl Default for CoursePayload {
    fn default() -> (payload: CoursePayload)
        ensures
            payload@ == (CoursePayloadView {
                name: Seq::empty(),
                description: Seq::empty(),
                teacher_id: 0,
            }),
    {
        CoursePayload { name: String::new(), description: String::new(), teacher_id: 0 }
    }
}

impl CoursePayload {
    /// Whether name and description are there.
    pub fn is_valid(&self) -> (valid: bool)
        ensures
            valid == self@.is_valid(),
    {
        !self.name.as_str().is_empty() && !self.description.as_str().is_empty()
    }
}

impl CourseView {
    /// The course that `payload` creates under `id`: the payload's fields,
    /// no students, no materials, and an empty schedule and syllabus.
    pub open spec fn created(id: u64, payload: CoursePayloadView) -> CourseView {
        CourseView {
            id,
            name: payload.name,
            description: payload.description,
            teacher_id: payload.teacher_id,
            student_ids: Seq::empty(),
            schedule: Seq::empty(),
            syllabus: Seq::empty(),
            course_materials: Seq::empty(),
        }
    }

    /// The course after an update with `payload`: name, description and
    /// teacher are the payload's; everything else stays.
    pub open spec fn updated(self, payload: CoursePayloadView) -> CourseView {
        CourseView {
            name: payload.name,
            description: payload.description,
            teacher_id: payload.teacher_id,
            ..self
        }
    }

    /// The course with `teacher_id` as its teacher.
    pub open spec fn taught_by(self, teacher_id: u64) -> CourseView {
        CourseView { teacher_id, ..self }
    }

    /// The bytes that stand for the course in a record store: the fields in
    /// the order of their declaration.
    #[verifier::opaque]
    pub open spec fn bytes(self) -> Seq<u8> {
        u64_bytes(self.id) + text_bytes(self.name) + text_bytes(self.description) + u64_bytes(
            self.teacher_id,
        ) + ids_bytes(self.student_ids) + text_bytes(self.schedule) + text_bytes(self.syllabus)
            + texts_bytes(self.course_materials)
    }

    /// The encoding is within the size of a record.
    pub open spec fn fits(self) -> bool {
        self.bytes().len() <= MAX_RECORD_BYTES
    }

    /// The course that `bytes` stand for, if they stand for one: every field
    /// parses, in order, and nothing is left over.
    #[verifier::opaque]
    pub open spec fn parse(bytes: Seq<u8>) -> Option<CourseView> {
        let id = parse_u64(bytes);
        let name = parse_text(rest(id));
        let description = parse_text(rest(name));
        let teacher_id = parse_u64(rest(description));
        let student_ids = parse_ids(rest(teacher_id));
        let schedule = parse_text(rest(student_ids));
        let syllabus = parse_text(rest(schedule));
        let course_materials = parse_texts(rest(syllabus));
        if id is Some && name is Some && description is Some && teacher_id is Some
            && student_ids is Some && schedule is Some && syllabus is Some
            && course_materials is Some && rest(course_materials).len() == 0 {
            Some(
                CourseView {
                    id: value(id),
                    name: value(name),
                    description: value(description),
                    teacher_id: value(teacher_id),
                    student_ids: value(student_ids),
                    schedule: value(schedule),
                    syllabus: value(syllabus),
                    course_materials: value(course_materials),
                },
            )
        } else {
            None
        }
    }

    /// The size of a new course's encoding does not depend on its id.
    pub proof fn lemma_created_size(id: u64, other: u64, payload: CoursePayloadView)
        ensures
            CourseView::created(id, payload).bytes().len() == CourseView::created(
                other,
                payload,
            ).bytes().len(),
    {
        reveal(CourseView::bytes);
        lemma_field_lengths();
    }

    /// The size of a course's encoding does not depend on who teaches it.
    pub proof fn lemma_taught_by_size(self, teacher_id: u64)
        ensures
            self.taught_by(teacher_id).bytes().len() == self.bytes().len(),
    {
        reveal(CourseView::bytes);
        lemma_field_lengths();
    }

    /// The bytes that parse as a course are the bytes of that course: no two
    /// byte sequences stand for the same course.
    pub proof fn lemma_bytes_parsed(bytes: Seq<u8>)
        ensures
            CourseView::parse(bytes) matches Some(course) ==> course.bytes() == bytes,
    {
        reveal(CourseView::bytes);
        reveal(CourseView::parse);
        let p0 = parse_u64(bytes);
        lemma_written_u64(bytes);
        let p1 = parse_text(rest(p0));
        lemma_written_text(rest(p0));
        let p2 = parse_text(rest(p1));
        lemma_written_text(rest(p1));
        let p3 = parse_u64(rest(p2));
        lemma_written_u64(rest(p2));
        let p4 = parse_ids(rest(p3));
        lemma_written_ids(rest(p3));
        let p5 = parse_text(rest(p4));
        lemma_written_text(rest(p4));
        let p6 = parse_text(rest(p5));
        lemma_written_text(rest(p5));
        let p7 = parse_texts(rest(p6));
        lemma_written_texts(rest(p6));
        if p0 is Some && p1 is Some && p2 is Some && p3 is Some && p4 is Some && p5 is Some &&
            p6 is Some && p7 is Some && rest(p7).len() == 0 {
            let e0 = u64_bytes(value(p0));
            let e1 = text_bytes(value(p1));
            let e2 = text_bytes(value(p2));
            let e3 = u64_bytes(value(p3));
            let e4 = ids_bytes(value(p4));
            let e5 = text_bytes(value(p5));
            let e6 = text_bytes(value(p6));
            let e7 = texts_bytes(value(p7));
            assert(rest(p7) =~= Seq::<u8>::empty());
            assert(e7 + rest(p7) =~= e7);
            lemma_regroup(e0 + e1 + e2 + e3 + e4 + e5, e6, rest(p6));
            lemma_regroup(e0 + e1 + e2 + e3 + e4, e5, rest(p5));
            lemma_regroup(e0 + e1 + e2 + e3, e4, rest(p4));
            lemma_regroup(e0 + e1 + e2, e3, rest(p3));
            lemma_regroup(e0 + e1, e2, rest(p2));
            lemma_regroup(e0, e1, rest(p1));
        }
    }

    /// Parsing the bytes of a course that fits gives the course back.
    pub proof fn lemma_parse_bytes(self)
        requires
            self.fits(),
        ensures
            CourseView::parse(self.bytes()) == Some(self),
    {
        reveal(CourseView::bytes);
        reveal(CourseView::parse);
        let e0 = u64_bytes(self.id);
        let e1 = text_bytes(self.name);
        let e2 = text_bytes(self.description);
        let e3 = u64_bytes(self.teacher_id);
        let e4 = ids_bytes(self.student_ids);
        let e5 = text_bytes(self.schedule);
        let e6 = text_bytes(self.syllabus);
        let t7 = texts_bytes(self.course_materials);
        let t6 = e6 + t7;
        let t5 = e5 + t6;
        let t4 = e4 + t5;
        let t3 = e3 + t4;
        let t2 = e2 + t3;
        let t1 = e1 + t2;
        lemma_regroup(e0 + e1 + e2 + e3 + e4 + e5, e6, t7);
        lemma_regroup(e0 + e1 + e2 + e3 + e4, e5, t6);
        lemma_regroup(e0 + e1 + e2 + e3, e4, t5);
        lemma_regroup(e0 + e1 + e2, e3, t4);
        lemma_regroup(e0 + e1, e2, t3);
        lemma_regroup(e0, e1, t2);
        assert(self.bytes() == e0 + t1);
        lemma_field_lengths();
        lemma_ids_body_len(self.student_ids);
        lemma_texts_body_bounds(self.course_materials);
        lemma_parse_u64(self.id, t1);
        lemma_parse_text(self.name, t2);
        lemma_parse_text(self.description, t3);
        lemma_parse_u64(self.teacher_id, t4);
        lemma_parse_ids(self.student_ids, t5);
        lemma_parse_text(self.schedule, t6);
        lemma_parse_text(self.syllabus, t7);
        lemma_parse_texts(self.course_materials, Seq::empty());
        assert(t7 + Seq::empty() =~= t7);
    }
}

/// The bytes that stand for the course with these fields, unless they exceed
/// the size of a record.
fn encode_fields(
    id: u64,
    name: &str,
    description: &str,
    teacher_id: u64,
    student_ids: &Vec<u64>,
    schedule: &str,
    syllabus: &str,
    course_materials: &Vec<String>,
) -> (encoded: Option<Vec<u8>>)
    ensures
        ({
            let course = CourseView {
                id,
                name: name@,
                description: description@,
                teacher_id,
                student_ids: student_ids@,
                schedule: schedule@,
                syllabus: syllabus@,
                course_materials: texts_view(course_materials@),
            };
            match encoded {
                Some(bytes) => course.fits() && bytes@ == course.bytes(),
                None => !course.fits(),
            }
        }),
{
    reveal(CourseView::bytes);
    let mut buf: Vec<u8> = Vec::new();
    assert(buf@ + u64_bytes(id) =~= u64_bytes(id));
    if !put_u64(&mut buf, id) {
        return None;
    }
    if !put_text(&mut buf, name) {
        return None;
    }
    if !put_text(&mut buf, description) {
        return None;
    }
    if !put_u64(&mut buf, teacher_id) {
        return None;
    }
    if !put_ids(&mut buf, student_ids) {
        return None;
    }
    if !put_text(&mut buf, schedule) {
        return None;
    }
    if !put_text(&mut buf, syllabus) {
        return None;
    }
    if !put_texts(&mut buf, course_materials) {
        return None;
    }
    Some(buf)
}

impl CoursePayload {
    /// Whether a course created from the payload fits in a record.
    pub fn fits(&self) -> (fits: bool)
        ensures
            fits == CourseView::created(0, self@).fits(),
    {
        let no_ids: Vec<u64> = Vec::new();
        let no_texts: Vec<String> = Vec::new();
        assert(texts_view(no_texts@) =~= Seq::empty());
        proof {
            reveal_strlit("");
        }
        assert(""@ =~= Seq::empty());
        encode_fields(
            0,
            self.name.as_str(),
            self.description.as_str(),
            self.teacher_id,
            &no_ids,
            "",
            "",
            &no_texts,
        ).is_some()
    }
}

impl Course {
    /// The course that `payload` creates under `id`.
    pub fn create(id: u64, payload: CoursePayload) -> (course: Course)
        ensures
            course@ == CourseView::created(id, payload@),
    {
        let course_materials: Vec<String> = Vec::new();
        assert(texts_view(course_materials@) =~= Seq::empty());
        Course {
            id,
            name: payload.name,
            description: payload.description,
            teacher_id: payload.teacher_id,
            student_ids: Vec::new(),
            schedule: String::new(),
            syllabus: String::new(),
            course_materials,
        }
    }

    /// The course after an update with `payload`.
    pub fn update(self, payload: CoursePayload) -> (course: Course)
        ensures
            course@ == self@.updated(payload@),
    {
        Course {
            id: self.id,
            name: payload.name,
            description: payload.description,
            teacher_id: payload.teacher_id,
            student_ids: self.student_ids,
            schedule: self.schedule,
            syllabus: self.syllabus,
            course_materials: self.course_materials,
        }
    }

    /// The course with `teacher_id` as its teacher.
    pub fn teach(self, teacher_id: u64) -> (course: Course)
        ensures
            course@ == self@.taught_by(teacher_id),
    {
        let mut course = self;
        course.teacher_id = teacher_id;
        course
    }

    /// The bytes that stand for the course, unless they exceed the size of a
    /// record.
    pub fn encode(&self) -> (encoded: Option<Vec<u8>>)
        ensures
            match encoded {
                Some(bytes) => self@.fits() && bytes@ == self@.bytes(),
                None => !self@.fits(),
            },
    {
        encode_fields(
            self.id,
            self.name.as_str(),
            self.description.as_str(),
            self.teacher_id,
            &self.student_ids,
            self.schedule.as_str(),
            self.syllabus.as_str(),
            &self.course_materials,
        )
    }

    /// Whether the course's encoding is within the size of a record.
    pub fn fits(&self) -> (fits: bool)
        ensures
            fits == self@.fits(),
    {
        self.encode().is_some()
    }

    /// Whether the course would fit in a record after an update with `payload`.
    pub fn fits_updated(&self, payload: &CoursePayload) -> (fits: bool)
        ensures
            fits == self@.updated(payload@).fits(),
    {
        encode_fields(
            self.id,
            payload.name.as_str(),
            payload.description.as_str(),
            payload.teacher_id,
            &self.student_ids,
            self.schedule.as_str(),
            self.syllabus.as_str(),
            &self.course_materials,
        ).is_some()
    }

    /// The course that `bytes` stand for, if they stand for one.
    pub fn decode(bytes: &[u8]) -> (decoded: Option<Course>)
        ensures
            match decoded {
                Some(course) => CourseView::parse(bytes@) == Some(course@),
                None => CourseView::parse(bytes@) is None,
            },
    {
        reveal(CourseView::parse);
        assert(bytes@.skip(0) =~= bytes@);
        let (id, at) = read_u64(bytes, 0)?;
        let (name, at) = read_text(bytes, at)?;
        let (description, at) = read_text(bytes, at)?;
        let (teacher_id, at) = read_u64(bytes, at)?;
        let (student_ids, at) = read_ids(bytes, at)?;
        let (schedule, at) = read_text(bytes, at)?;
        let (syllabus, at) = read_text(bytes, at)?;
        let (course_materials, at) = read_texts(bytes, at)?;
        if at != bytes.len() {
            return None;
        }
        Some(
            Course {
                id,
                name,
                description,
                teacher_id,
                student_ids,
                schedule,
                syllabus,
                course_materials,
            },
        )
    }
}

impl RecordModel for CourseView {
    open spec fn key(self) -> u64 {
        self.id
    }

    open spec fn bytes(self) -> Seq<u8> {
        CourseView::bytes(self)
    }

    open spec fn parse(bytes: Seq<u8>) -> Option<CourseView> {
        CourseView::parse(bytes)
    }

    proof fn lemma_parse_bytes(self) {
        CourseView::lemma_parse_bytes(self);
    }

    proof fn lemma_bytes_parsed(bytes: Seq<u8>) {
        CourseView::lemma_bytes_parsed(bytes);
    }
}

impl Record<CourseView> for Course {
    open spec fn model(&self) -> CourseView {
        self@
    }

    fn key(&self) -> u64 {
        self.id
    }

    fn to_bytes(&self) -> Option<Vec<u8>> {
        self.encode()
    }

    fn from_bytes(bytes: &[u8]) -> Option<Course> {
        Course::decode(bytes)
    }
}

} // verus!
