//! Students: the record, the payload that creates or updates one, and the
//! record's byte layout.

use crate::codec::{
    ids_bytes, lemma_field_lengths, lemma_ids_body_len, lemma_parse_ids,
    lemma_parse_text, lemma_parse_u64, lemma_parse_u8, lemma_regroup, lemma_written_ids,
    lemma_written_text, lemma_written_u64, lemma_written_u8, parse_ids, parse_text, parse_u64,
    parse_u8, put_ids, put_text, put_u64, put_u8, read_ids, read_text, read_u64, read_u8, rest,
    text_bytes, u64_bytes, value,
};
use crate::entity_store::{Record, RecordModel};
use crate::storage::MAX_RECORD_BYTES;
use vstd::prelude::*;

verus! {

/// A student.
#[derive(Clone, Debug, PartialEq, Eq)]
pub struct Student {
    pub id: u64,
    pub name: String,
    pub grade_level: u8,
    /// Ids of the courses the student is enrolled in, in the order of
    /// enrolment.
    pub enrolled_courses: Vec<u64>,
    pub email: String,
    /// A calendar date, `YYYY-MM-DD`.
    pub date_of_birth: String,
    pub address: String,
    pub guardian_details: String,
    pub performance_records: Vec<u64>,
    pub attendance_records: Vec<u64>,
}

/// What a [`Student`] stands for in contracts.
#[verifier::ext_equal]
pub struct StudentView {
    pub id: u64,
    pub name: Seq<char>,
    pub grade_level: u8,
    pub enrolled_courses: Seq<u64>,
    pub email: Seq<char>,
    pub date_of_birth: Seq<char>,
    pub address: Seq<char>,
    pub guardian_details: Seq<char>,
    pub performance_records: Seq<u64>,
    pub attendance_records: Seq<u64>,
}

impl View for Student {
    type V = StudentView;

    open spec fn view(&self) -> StudentView {
        StudentView {
            id: self.id,
            name: self.name@,
            grade_level: self.grade_level,
            enrolled_courses: self.enrolled_courses@,
            email: self.email@,
            date_of_birth: self.date_of_birth@,
            address: self.address@,
            guardian_details: self.guardian_details@,
            performance_records: self.performance_records@,
            attendance_records: self.attendance_records@,
        }
    }
}

impl Default for Student {
    /// The student with the id 0 and every field empty.
    fn default() -> (student: Student)
        ensures
            student@ == (StudentView {
                id: 0,
                name: Seq::empty(),
                grade_level: 0,
                enrolled_courses: Seq::empty(),
                email: Seq::empty(),
                date_of_birth: Seq::empty(),
                address: Seq::empty(),
                guardian_details: Seq::empty(),
                performance_records: Seq::empty(),
                attendance_records: Seq::empty(),
            }),
    {
        Student {
            id: 0,
            name: String::new(),
            grade_level: 0,
            enrolled_courses: Vec::new(),
            email: String::new(),
            date_of_birth: String::new(),
            address: String::new(),
            guardian_details: String::new(),
            performance_records: Vec::new(),
            attendance_records: Vec::new(),
        }
    }
}

/// What a caller supplies to create a student or to update one.
#[derive(Clone, Debug, PartialEq, Eq)]
pub struct StudentPayload {
    pub name: String,
    pub grade_level: u8,
    pub email: String,
    pub date_of_birth: String,
    pub address: String,
    pub guardian_details: String,
}

/// What a [`StudentPayload`] stands for in contracts.
#[verifier::ext_equal]
pub struct StudentPayloadView {
    pub name: Seq<char>,
    pub grade_level: u8,
    pub email: Seq<char>,
    pub date_of_birth: Seq<char>,
    pub address: Seq<char>,
    pub guardian_details: Seq<char>,
}

impl View for StudentPayload {
    type V = StudentPayloadView;

    open spec fn view(&self) -> StudentPayloadView {
        StudentPayloadView {
            name: self.name@,
            grade_level: self.grade_level,
            email: self.email@,
            date_of_birth: self.date_of_birth@,
            address: self.address@,
            guardian_details: self.guardian_details@,
        }
    }
}

impl StudentPayloadView {
    /// A student can be created from the payload: name and email are there.
    pub open spec fn is_valid(self) -> bool {
        self.name.len() > 0 && self.email.len() > 0
    }
}

impl Default for StudentPayload {
    fn default() -> (payload: StudentPayload)
        ensures
            payload@ == (StudentPayloadView {
                name: Seq::empty(),
                grade_level: 0,
                email: Seq::empty(),
                date_of_birth: Seq::empty(),
                address: Seq::empty(),
                guardian_details: Seq::empty(),
            }),
    {
        StudentPayload {
            name: String::new(),
            grade_level: 0,
            email: String::new(),
            date_of_birth: String::new(),
            address: String::new(),
            guardian_details: String::new(),
        }
    }
}

impl StudentPayload {
    /// Whether name and email are there.
    pub fn is_valid(&self) -> (valid: bool)
        ensures
            valid == self@.is_valid(),
    {
        !self.name.as_str().is_empty() && !self.email.as_str().is_empty()
    }
}

impl StudentView {
    /// The student that `payload` creates under `id`: the payload's fields,
    /// and every list empty.
    pub open spec fn created(id: u64, payload: StudentPayloadView) -> StudentView {
        StudentView {
            id,
            name: payload.name,
            grade_level: payload.grade_level,
            enrolled_courses: Seq::empty(),
            email: payload.email,
            date_of_birth: payload.date_of_birth,
            address: payload.address,
            guardian_details: payload.guardian_details,
            performance_records: Seq::empty(),
            attendance_records: Seq::empty(),
        }
    }

    /// The student after an update with `payload`: the payload's fields
    /// replace their counterparts; the id and the lists stay.
    pub open spec fn updated(self, payload: StudentPayloadView) -> StudentView {
        StudentView {
            name: payload.name,
            grade_level: payload.grade_level,
            email: payload.email,
            date_of_birth: payload.date_of_birth,
            address: payload.address,
            guardian_details: payload.guardian_details,
            ..self
        }
    }

    /// The student with `course_id` added at the end of the enrolled courses.
    pub open spec fn enrolled(self, course_id: u64) -> StudentView {
        StudentView { enrolled_courses: self.enrolled_courses.push(course_id), ..self }
    }

    /// The bytes that stand for the student in a record store: the fields in
    /// the order of their declaration.
    #[verifier::opaque]
    pub open spec fn bytes(self) -> Seq<u8> {
        u64_bytes(self.id) + text_bytes(self.name) + seq![self.grade_level] + ids_bytes(
            self.enrolled_courses,
        ) + text_bytes(self.email) + text_bytes(self.date_of_birth) + text_bytes(self.address)
            + text_bytes(self.guardian_details) + ids_bytes(self.performance_records) + ids_bytes(
            self.attendance_records,
        )
    }

    /// The encoding is within the size of a record.
    pub open spec fn fits(self) -> bool {
        self.bytes().len() <= MAX_RECORD_BYTES
    }

    /// The student that `bytes` stand for, if they stand for one: every field
    /// parses, in order, and nothing is left over.
    #[verifier::opaque]
    pub open spec fn parse(bytes: Seq<u8>) -> Option<StudentView> {
        let id = parse_u64(bytes);
        let name = parse_text(rest(id));
        let grade_level = parse_u8(rest(name));
        let enrolled_courses = parse_ids(rest(grade_level));
        let email = parse_text(rest(enrolled_courses));
        let date_of_birth = parse_text(rest(email));
        let address = parse_text(rest(date_of_birth));
        let guardian_details = parse_text(rest(address));
        let performance_records = parse_ids(rest(guardian_details));
        let attendance_records = parse_ids(rest(performance_records));
        if id is Some && name is Some && grade_level is Some && enrolled_courses is Some
            && email is Some && date_of_birth is Some && address is Some
            && guardian_details is Some && performance_records is Some
            && attendance_records is Some && rest(attendance_records).len() == 0 {
            Some(
                StudentView {
                    id: value(id),
                    name: value(name),
                    grade_level: value(grade_level),
                    enrolled_courses: value(enrolled_courses),
                    email: value(email),
                    date_of_birth: value(date_of_birth),
                    address: value(address),
                    guardian_details: value(guardian_details),
                    performance_records: value(performance_records),
                    attendance_records: value(attendance_records),
                },
            )
        } else {
            None
        }
    }

    /// The size of a new student's encoding does not depend on its id.
    pub proof fn lemma_created_size(id: u64, other: u64, payload: StudentPayloadView)
        ensures
            StudentView::created(id, payload).bytes().len() == StudentView::created(
                other,
                payload,
            ).bytes().len(),
    {
        reveal(StudentView::bytes);
        lemma_field_lengths();
    }

    /// One more course makes the encoding eight bytes longer.
    pub proof fn lemma_enrolled_size(self, course_id: u64)
        ensures
            self.enrolled(course_id).bytes().len() == self.bytes().len() + 8,
    {
        reveal(StudentView::bytes);
        lemma_field_lengths();
        lemma_ids_body_len(self.enrolled_courses);
        lemma_ids_body_len(self.enrolled_courses.push(course_id));
    }

    /// The bytes that parse as a student are the bytes of that student: no two
    /// byte sequences stand for the same student.
    pub proof fn lemma_bytes_parsed(bytes: Seq<u8>)
        ensures
            StudentView::parse(bytes) matches Some(student) ==> student.bytes() == bytes,
    {
        reveal(StudentView::bytes);
        reveal(StudentView::parse);
        let p0 = parse_u64(bytes);
        lemma_written_u64(bytes);
        let p1 = parse_text(rest(p0));
        lemma_written_text(rest(p0));
        let p2 = parse_u8(rest(p1));
        lemma_written_u8(rest(p1));
        let p3 = parse_ids(rest(p2));
        lemma_written_ids(rest(p2));
        let p4 = parse_text(rest(p3));
        lemma_written_text(rest(p3));
        let p5 = parse_text(rest(p4));
        lemma_written_text(rest(p4));
        let p6 = parse_text(rest(p5));
        lemma_written_text(rest(p5));
        let p7 = parse_text(rest(p6));
        lemma_written_text(rest(p6));
        let p8 = parse_ids(rest(p7));
        lemma_written_ids(rest(p7));
        let p9 = parse_ids(rest(p8));
        lemma_written_ids(rest(p8));
        if p0 is Some && p1 is Some && p2 is Some && p3 is Some && p4 is Some && p5 is Some &&
            p6 is Some && p7 is Some && p8 is Some && p9 is Some && rest(p9).len() == 0 {
            let e0 = u64_bytes(value(p0));
            let e1 = text_bytes(value(p1));
            let e2 = seq![value(p2)];
            let e3 = ids_bytes(value(p3));
            let e4 = text_bytes(value(p4));
            let e5 = text_bytes(value(p5));
            let e6 = text_bytes(value(p6));
            let e7 = text_bytes(value(p7));
            let e8 = ids_bytes(value(p8));
            let e9 = ids_bytes(value(p9));
            assert(rest(p9) =~= Seq::<u8>::empty());
            assert(e9 + rest(p9) =~= e9);
            lemma_regroup(e0 + e1 + e2 + e3 + e4 + e5 + e6 + e7, e8, rest(p8));
            lemma_regroup(e0 + e1 + e2 + e3 + e4 + e5 + e6, e7, rest(p7));
            lemma_regroup(e0 + e1 + e2 + e3 + e4 + e5, e6, rest(p6));
            lemma_regroup(e0 + e1 + e2 + e3 + e4, e5, rest(p5));
            lemma_regroup(e0 + e1 + e2 + e3, e4, rest(p4));
            lemma_regroup(e0 + e1 + e2, e3, rest(p3));
            lemma_regroup(e0 + e1, e2, rest(p2));
            lemma_regroup(e0, e1, rest(p1));
        }
    }

    /// Parsing the bytes of a student that fits gives the student back.
    pub proof fn lemma_parse_bytes(self)
        requires
            self.fits(),
        ensures
            StudentView::parse(self.bytes()) == Some(self),
    {
        reveal(StudentView::bytes);
        reveal(StudentView::parse);
        let e0 = u64_bytes(self.id);
        let e1 = text_bytes(self.name);
        let e2 = seq![self.grade_level];
        let e3 = ids_bytes(self.enrolled_courses);
        let e4 = text_bytes(self.email);
        let e5 = text_bytes(self.date_of_birth);
        let e6 = text_bytes(self.address);
        let e7 = text_bytes(self.guardian_details);
        let e8 = ids_bytes(self.performance_records);
        let t9 = ids_bytes(self.attendance_records);
        let t8 = e8 + t9;
        let t7 = e7 + t8;
        let t6 = e6 + t7;
        let t5 = e5 + t6;
        let t4 = e4 + t5;
        let t3 = e3 + t4;
        let t2 = e2 + t3;
        let t1 = e1 + t2;
        lemma_regroup(e0 + e1 + e2 + e3 + e4 + e5 + e6 + e7, e8, t9);
        lemma_regroup(e0 + e1 + e2 + e3 + e4 + e5 + e6, e7, t8);
        lemma_regroup(e0 + e1 + e2 + e3 + e4 + e5, e6, t7);
        lemma_regroup(e0 + e1 + e2 + e3 + e4, e5, t6);
        lemma_regroup(e0 + e1 + e2 + e3, e4, t5);
        lemma_regroup(e0 + e1 + e2, e3, t4);
        lemma_regroup(e0 + e1, e2, t3);
        lemma_regroup(e0, e1, t2);
        assert(self.bytes() == e0 + t1);
        lemma_field_lengths();
        lemma_ids_body_len(self.enrolled_courses);
        lemma_ids_body_len(self.performance_records);
        lemma_ids_body_len(self.attendance_records);
        lemma_parse_u64(self.id, t1);
        lemma_parse_text(self.name, t2);
        lemma_parse_u8(self.grade_level, t3);
        lemma_parse_ids(self.enrolled_courses, t4);
        lemma_parse_text(self.email, t5);
        lemma_parse_text(self.date_of_birth, t6);
        lemma_parse_text(self.address, t7);
        lemma_parse_text(self.guardian_details, t8);
        lemma_parse_ids(self.performance_records, t9);
        lemma_parse_ids(self.attendance_records, Seq::empty());
        assert(t9 + Seq::empty() =~= t9);
    }
}

/// The bytes that stand for the student with these fields, unless they exceed
/// the size of a record.
fn encode_fields(
    id: u64,
    name: &str,
    grade_level: u8,
    enrolled_courses: &Vec<u64>,
    email: &str,
    date_of_birth: &str,
    address: &str,
    guardian_details: &str,
    performance_records: &Vec<u64>,
    attendance_records: &Vec<u64>,
) -> (encoded: Option<Vec<u8>>)
    ensures
        ({
            let student = StudentView {
                id,
                name: name@,
                grade_level,
                enrolled_courses: enrolled_courses@,
                email: email@,
                date_of_birth: date_of_birth@,
                address: address@,
                guardian_details: guardian_details@,
                performance_records: performance_records@,
                attendance_records: attendance_records@,
            };
            match encoded {
                Some(bytes) => student.fits() && bytes@ == student.bytes(),
                None => !student.fits(),
            }
        }),
{
    reveal(StudentView::bytes);
    let mut buf: Vec<u8> = Vec::new();
    assert(buf@ + u64_bytes(id) =~= u64_bytes(id));
    if !put_u64(&mut buf, id) {
        return None;
    }
    if !put_text(&mut buf, name) {
        return None;
    }
    if !put_u8(&mut buf, grade_level) {
        return None;
    }
    if !put_ids(&mut buf, enrolled_courses) {
        return None;
    }
    if !put_text(&mut buf, email) {
        return None;
    }
    if !put_text(&mut buf, date_of_birth) {
        return None;
    }
    if !put_text(&mut buf, address) {
        return None;
    }
    if !put_text(&mut buf, guardian_details) {
        return None;
    }
    if !put_ids(&mut buf, performance_records) {
        return None;
    }
    if !put_ids(&mut buf, attendance_records) {
        return None;
    }
    Some(buf)
}

impl StudentPayload {
    /// Whether a student created from the payload fits in a record.
    pub fn fits(&self) -> (fits: bool)
        ensures
            fits == StudentView::created(0, self@).fits(),
    {
        let no_ids: Vec<u64> = Vec::new();
        encode_fields(
            0,
            self.name.as_str(),
            self.grade_level,
            &no_ids,
            self.email.as_str(),
            self.date_of_birth.as_str(),
            self.address.as_str(),
            self.guardian_details.as_str(),
            &no_ids,
            &no_ids,
        ).is_some()
    }
}

impl Student {
    /// The student that `payload` creates under `id`.
    pub fn create(id: u64, payload: StudentPayload) -> (student: Student)
        ensures
            student@ == StudentView::created(id, payload@),
    {
        Student {
            id,
            name: payload.name,
            grade_level: payload.grade_level,
            enrolled_courses: Vec::new(),
            email: payload.email,
            date_of_birth: payload.date_of_birth,
            address: payload.address,
            guardian_details: payload.guardian_details,
            performance_records: Vec::new(),
            attendance_records: Vec::new(),
        }
    }

    /// The student after an update with `payload`.
    pub fn update(self, payload: StudentPayload) -> (student: Student)
        ensures
            student@ == self@.updated(payload@),
    {
        Student {
            id: self.id,
            name: payload.name,
            grade_level: payload.grade_level,
            enrolled_courses: self.enrolled_courses,
            email: payload.email,
            date_of_birth: payload.date_of_birth,
            address: payload.address,
            guardian_details: payload.guardian_details,
            performance_records: self.performance_records,
            attendance_records: self.attendance_records,
        }
    }

    /// Whether `course_id` is among the enrolled courses.
    pub fn is_enrolled(&self, course_id: u64) -> (found: bool)
        ensures
            found == self@.enrolled_courses.contains(course_id),
    {
        let mut i: usize = 0;
        while i < self.enrolled_courses.len()
            invariant
                i <= self.enrolled_courses.len(),
                forall|j: int| 0 <= j < i ==> self.enrolled_courses@[j] != course_id,
            decreases self.enrolled_courses.len() - i,
        {
            if self.enrolled_courses[i] == course_id {
                return true;
            }
            i += 1;
        }
        false
    }

    /// The student with `course_id` added at the end of the enrolled courses.
    pub fn enroll(self, course_id: u64) -> (student: Student)
        ensures
            student@ == self@.enrolled(course_id),
    {
        let mut student = self;
        student.enrolled_courses.push(course_id);
        student
    }

    /// The bytes that stand for the student, unless they exceed the size of a
    /// record.
    pub fn encode(&self) -> (encoded: Option<Vec<u8>>)
        ensures
            match encoded {
                Some(bytes) => self@.fits() && bytes@ == self@.bytes(),
                None => !self@.fits(),
            },
    {
        encode_fields(
            self.id,
            self.name.as_str(),
            self.grade_level,
            &self.enrolled_courses,
            self.email.as_str(),
            self.date_of_birth.as_str(),
            self.address.as_str(),
            self.guardian_details.as_str(),
            &self.performance_records,
            &self.attendance_records,
        )
    }

    /// Whether the student's encoding is within the size of a record.
    pub fn fits(&self) -> (fits: bool)
        ensures
            fits == self@.fits(),
    {
        self.encode().is_some()
    }

    /// Whether the student would fit in a record with `course_id` added to the
    /// enrolled courses.
    pub fn fits_enrolled(&self, course_id: u64) -> (fits: bool)
        ensures
            fits == self@.enrolled(course_id).fits(),
    {
        proof {
            self@.lemma_enrolled_size(course_id);
        }
        match self.encode() {
            Some(bytes) => MAX_RECORD_BYTES - bytes.len() >= 8,
            None => false,
        }
    }

    /// Whether the student would fit in a record after an update with
    /// `payload`.
    pub fn fits_updated(&self, payload: &StudentPayload) -> (fits: bool)
        ensures
            fits == self@.updated(payload@).fits(),
    {
        encode_fields(
            self.id,
            payload.name.as_str(),
            payload.grade_level,
            &self.enrolled_courses,
            payload.email.as_str(),
            payload.date_of_birth.as_str(),
            payload.address.as_str(),
            payload.guardian_details.as_str(),
            &self.performance_records,
            &self.attendance_records,
        ).is_some()
    }

    /// The student that `bytes` stand for, if they stand for one.
    pub fn decode(bytes: &[u8]) -> (decoded: Option<Student>)
        ensures
            match decoded {
                Some(student) => StudentView::parse(bytes@) == Some(student@),
                None => StudentView::parse(bytes@) is None,
            },
    {
        reveal(StudentView::parse);
        assert(bytes@.skip(0) =~= bytes@);
        let (id, at) = read_u64(bytes, 0)?;
        let (name, at) = read_text(bytes, at)?;
        let (grade_level, at) = read_u8(bytes, at)?;
        let (enrolled_courses, at) = read_ids(bytes, at)?;
        let (email, at) = read_text(bytes, at)?;
        let (date_of_birth, at) = read_text(bytes, at)?;
        let (address, at) = read_text(bytes, at)?;
        let (guardian_details, at) = read_text(bytes, at)?;
        let (performance_records, at) = read_ids(bytes, at)?;
        let (attendance_records, at) = read_ids(bytes, at)?;
        if at != bytes.len() {
            return None;
        }
        Some(
            Student {
                id,
                name,
                grade_level,
                enrolled_courses,
                email,
                date_of_birth,
                address,
                guardian_details,
                performance_records,
                attendance_records,
            },
        )
    }
}

impl RecordModel for StudentView {
    open spec fn key(self) -> u64 {
        self.id
    }

    open spec fn bytes(self) -> Seq<u8> {
        StudentView::bytes(self)
    }

    open spec fn parse(bytes: Seq<u8>) -> Option<StudentView> {
        StudentView::parse(bytes)
    }

    proof fn lemma_parse_bytes(self) {
        StudentView::lemma_parse_bytes(self);
    }

    proof fn lemma_bytes_parsed(bytes: Seq<u8>) {
        StudentView::lemma_bytes_parsed(bytes);
    }
}

impl Record<StudentView> for Student {
    open spec fn model(&self) -> StudentView {
        self@
    }

    fn key(&self) -> u64 {
        self.id
    }

    fn to_bytes(&self) -> Option<Vec<u8>> {
        self.encode()
    }

    fn from_bytes(bytes: &[u8]) -> Option<Student> {
        Student::decode(bytes)
    }
}

} // verus!
