//! The record store as a mathematical object: what it holds, when it is well
//! formed, and what each operation returns and leaves behind.
//!
//! The executable store in `school` is specified against this model, and the
//! laws in `laws` are proved of it.

use crate::classroom::{ClassroomPayloadView, ClassroomView};
use crate::course::{CoursePayloadView, CourseView};
use crate::error::{RecordKind, StoreError};
use crate::student::{StudentPayloadView, StudentView};
use crate::teacher::{TeacherPayloadView, TeacherView};
use vstd::prelude::*;

verus! {

/// What a school's record store holds.
#[verifier::ext_equal]
pub struct SchoolView {
    /// The id handed out last; 0 before the first.
    pub last_id: u64,
    pub students: Map<u64, StudentView>,
    pub teachers: Map<u64, TeacherView>,
    pub courses: Map<u64, CourseView>,
    pub classrooms: Map<u64, ClassroomView>,
}

impl SchoolView {
    /// The store before anything was added.
    pub open spec fn empty() -> SchoolView {
        SchoolView {
            last_id: 0,
            students: Map::empty(),
            teachers: Map::empty(),
            courses: Map::empty(),
            classrooms: Map::empty(),
        }
    }

    /// Some record, of whatever kind, is stored under `id`.
    pub open spec fn holds(self, id: u64) -> bool {
        self.students.contains_key(id) || self.teachers.contains_key(id)
            || self.courses.contains_key(id) || self.classrooms.contains_key(id)
    }

    /// The store is well formed:
    /// - every record is stored under its own id, which was handed out (it
    ///   is at least 1 and at most `last_id`), and its encoding is within
    ///   the size of a record;
    /// - no student is enrolled in a course twice;
    /// - no id is in use for two records, of whatever kinds.
    pub open spec fn wf(self) -> bool {
        &&& forall|id: u64| #[trigger]
            self.students.contains_key(id) ==> {
                &&& self.students[id].id == id
                &&& 1 <= id <= self.last_id
                &&& self.students[id].fits()
                &&& self.students[id].enrolled_courses.no_duplicates()
            }
        &&& forall|id: u64| #[trigger]
            self.teachers.contains_key(id) ==> {
                &&& self.teachers[id].id == id
                &&& 1 <= id <= self.last_id
                &&& self.teachers[id].fits()
            }
        &&& forall|id: u64| #[trigger]
            self.courses.contains_key(id) ==> {
                &&& self.courses[id].id == id
                &&& 1 <= id <= self.last_id
                &&& self.courses[id].fits()
            }
        &&& forall|id: u64| #[trigger]
            self.classrooms.contains_key(id) ==> {
                &&& self.classrooms[id].id == id
                &&& 1 <= id <= self.last_id
                &&& self.classrooms[id].fits()
            }
        &&& forall|id: u64|
            #![trigger self.students.contains_key(id)]
            #![trigger self.teachers.contains_key(id)]
            #![trigger self.courses.contains_key(id)]
            #![trigger self.classrooms.contains_key(id)]
            {
                &&& !(self.students.contains_key(id) && self.teachers.contains_key(id))
                &&& !(self.students.contains_key(id) && self.courses.contains_key(id))
                &&& !(self.students.contains_key(id) && self.classrooms.contains_key(id))
                &&& !(self.teachers.contains_key(id) && self.courses.contains_key(id))
                &&& !(self.teachers.contains_key(id) && self.classrooms.contains_key(id))
                &&& !(self.courses.contains_key(id) && self.classrooms.contains_key(id))
            }
    }

    /// The id that is handed out next, one above the last. There is none
    /// where `last_id` is the greatest `u64`.
    pub open spec fn next_id(self) -> u64
        recommends
            self.last_id < u64::MAX,
    {
        (self.last_id + 1) as u64
    }

    /// The store after the next id was handed out.
    pub open spec fn issued(self) -> SchoolView {
        SchoolView { last_id: self.next_id(), ..self }
    }

    // -----------------------------------------------------------------------
    // Students
    // -----------------------------------------------------------------------
    /// The store with `student` stored under its id, in place of what was
    /// there.
    pub open spec fn with_student(self, student: StudentView) -> SchoolView {
        SchoolView { students: self.students.insert(student.id, student), ..self }
    }

    /// The store without a student under `id`.
    pub open spec fn without_student(self, id: u64) -> SchoolView {
        SchoolView { students: self.students.remove(id), ..self }
    }

    /// What a lookup of the student under `id` returns.
    pub open spec fn find_student(self, id: u64) -> Result<StudentView, StoreError> {
        if self.students.contains_key(id) {
            Ok(self.students[id])
        } else {
            Err(StoreError::NotFound(RecordKind::Student, id))
        }
    }

    /// What adding a student from `payload` returns: the new student, under
    /// the next id, unless the payload is not valid or there is no next id.
    pub open spec fn added_student(self, payload: StudentPayloadView) -> Result<
        StudentView,
        StoreError,
    > {
        if !payload.is_valid() {
            Err(StoreError::Validation(RecordKind::Student))
        } else if self.last_id == u64::MAX {
            Err(StoreError::IdUnavailable)
        } else {
            Ok(StudentView::created(self.next_id(), payload))
        }
    }

    /// The store after adding a student from `payload`.
    pub open spec fn after_add_student(self, payload: StudentPayloadView) -> SchoolView {
        match self.added_student(payload) {
            Ok(student) => self.issued().with_student(student),
            Err(_) => self,
        }
    }

    /// What updating the student under `id` with `payload` returns.
    pub open spec fn updated_student(self, id: u64, payload: StudentPayloadView) -> Result<
        StudentView,
        StoreError,
    > {
        match self.find_student(id) {
            Ok(student) => Ok(student.updated(payload)),
            Err(error) => Err(error),
        }
    }

    /// The store after updating the student under `id` with `payload`.
    pub open spec fn after_update_student(
        self,
        id: u64,
        payload: StudentPayloadView,
    ) -> SchoolView {
        match self.updated_student(id, payload) {
            Ok(student) => self.with_student(student),
            Err(_) => self,
        }
    }

    /// What deleting the student under `id` returns.
    pub open spec fn deleted_student(self, id: u64) -> Result<(), StoreError> {
        match self.find_student(id) {
            Ok(_) => Ok(()),
            Err(error) => Err(error),
        }
    }

    /// The store after deleting the student under `id`.
    pub open spec fn after_delete_student(self, id: u64) -> SchoolView {
        self.without_student(id)
    }

    // -----------------------------------------------------------------------
    // Teachers
    // -----------------------------------------------------------------------
    /// The store with `teacher` stored under its id, in place of what was
    /// there.
    pub open spec fn with_teacher(self, teacher: TeacherView) -> SchoolView {
        SchoolView { teachers: self.teachers.insert(teacher.id, teacher), ..self }
    }

    /// The store without a teacher under `id`.
    pub open spec fn without_teacher(self, id: u64) -> SchoolView {
        SchoolView { teachers: self.teachers.remove(id), ..self }
    }

    /// What a lookup of the teacher under `id` returns.
    pub open spec fn find_teacher(self, id: u64) -> Result<TeacherView, StoreError> {
        if self.teachers.contains_key(id) {
            Ok(self.teachers[id])
        } else {
            Err(StoreError::NotFound(RecordKind::Teacher, id))
        }
    }

    /// What adding a teacher from `payload` returns: the new teacher, under
    /// the next id, unless the payload is not valid or there is no next id.
    pub open spec fn added_teacher(self, payload: TeacherPayloadView) -> Result<
        TeacherView,
        StoreError,
    > {
        if !payload.is_valid() {
            Err(StoreError::Validation(RecordKind::Teacher))
        } else if self.last_id == u64::MAX {
            Err(StoreError::IdUnavailable)
        } else {
            Ok(TeacherView::created(self.next_id(), payload))
        }
    }

    /// The store after adding a teacher from `payload`.
    pub open spec fn after_add_teacher(self, payload: TeacherPayloadView) -> SchoolView {
        match self.added_teacher(payload) {
            Ok(teacher) => self.issued().with_teacher(teacher),
            Err(_) => self,
        }
    }

    /// What updating the teacher under `id` with `payload` returns.
    pub open spec fn updated_teacher(self, id: u64, payload: TeacherPayloadView) -> Result<
        TeacherView,
        StoreError,
    > {
        match self.find_teacher(id) {
            Ok(teacher) => Ok(teacher.updated(payload)),
            Err(error) => Err(error),
        }
    }

    /// The store after updating the teacher under `id` with `payload`.
    pub open spec fn after_update_teacher(
        self,
        id: u64,
        payload: TeacherPayloadView,
    ) -> SchoolView {
        match self.updated_teacher(id, payload) {
            Ok(teacher) => self.with_teacher(teacher),
            Err(_) => self,
        }
    }

    /// What deleting the teacher under `id` returns.
    pub open spec fn deleted_teacher(self, id: u64) -> Result<(), StoreError> {
        match self.find_teacher(id) {
            Ok(_) => Ok(()),
            Err(error) => Err(error),
        }
    }

    /// The store after deleting the teacher under `id`.
    pub open spec fn after_delete_teacher(self, id: u64) -> SchoolView {
        self.without_teacher(id)
    }

    // -----------------------------------------------------------------------
    // Courses
    // -----------------------------------------------------------------------
    /// The store with `course` stored under its id, in place of what was there.
    pub open spec fn with_course(self, course: CourseView) -> SchoolView {
        SchoolView { courses: self.courses.insert(course.id, course), ..self }
    }

    /// The store without a course under `id`.
    pub open spec fn without_course(self, id: u64) -> SchoolView {
        SchoolView { courses: self.courses.remove(id), ..self }
    }

    /// What a lookup of the course under `id` returns.
    pub open spec fn find_course(self, id: u64) -> Result<CourseView, StoreError> {
        if self.courses.contains_key(id) {
            Ok(self.courses[id])
        } else {
            Err(StoreError::NotFound(RecordKind::Course, id))
        }
    }

    /// What adding a course from `payload` returns: the new course, under the
    /// next id, unless the payload is not valid or there is no next id.
    pub open spec fn added_course(self, payload: CoursePayloadView) -> Result<
        CourseView,
        StoreError,
    > {
        if !payload.is_valid() {
            Err(StoreError::Validation(RecordKind::Course))
        } else if self.last_id == u64::MAX {
            Err(StoreError::IdUnavailable)
        } else {
            Ok(CourseView::created(self.next_id(), payload))
        }
    }

    /// The store after adding a course from `payload`.
    pub open spec fn after_add_course(self, payload: CoursePayloadView) -> SchoolView {
        match self.added_course(payload) {
            Ok(course) => self.issued().with_course(course),
            Err(_) => self,
        }
    }

    /// What updating the course under `id` with `payload` returns.
    pub open spec fn updated_course(self, id: u64, payload: CoursePayloadView) -> Result<
        CourseView,
        StoreError,
    > {
        match self.find_course(id) {
            Ok(course) => Ok(course.updated(payload)),
            Err(error) => Err(error),
        }
    }

    /// The store after updating the course under `id` with `payload`.
    pub open spec fn after_update_course(self, id: u64, payload: CoursePayloadView) -> SchoolView {
        match self.updated_course(id, payload) {
            Ok(course) => self.with_course(course),
            Err(_) => self,
        }
    }

    /// What deleting the course under `id` returns.
    pub open spec fn deleted_course(self, id: u64) -> Result<(), StoreError> {
        match self.find_course(id) {
            Ok(_) => Ok(()),
            Err(error) => Err(error),
        }
    }

    /// The store after deleting the course under `id`.
    pub open spec fn after_delete_course(self, id: u64) -> SchoolView {
        self.without_course(id)
    }

    // -----------------------------------------------------------------------
    // Classrooms
    // -----------------------------------------------------------------------
    /// The store with `classroom` stored under its id, in place of what was
    /// there.
    pub open spec fn with_classroom(self, classroom: ClassroomView) -> SchoolView {
        SchoolView { classrooms: self.classrooms.insert(classroom.id, classroom), ..self }
    }

    /// The store without a classroom under `id`.
    pub open spec fn without_classroom(self, id: u64) -> SchoolView {
        SchoolView { classrooms: self.classrooms.remove(id), ..self }
    }

    /// What a lookup of the classroom under `id` returns.
    pub open spec fn find_classroom(self, id: u64) -> Result<ClassroomView, StoreError> {
        if self.classrooms.contains_key(id) {
            Ok(self.classrooms[id])
        } else {
            Err(StoreError::NotFound(RecordKind::Classroom, id))
        }
    }

    /// What adding a classroom from `payload` returns: the new classroom,
    /// under the next id, unless the payload is not valid or there is no next
    /// id.
    pub open spec fn added_classroom(self, payload: ClassroomPayloadView) -> Result<
        ClassroomView,
        StoreError,
    > {
        if !payload.is_valid() {
            Err(StoreError::Validation(RecordKind::Classroom))
        } else if self.last_id == u64::MAX {
            Err(StoreError::IdUnavailable)
        } else {
            Ok(ClassroomView::created(self.next_id(), payload))
        }
    }

    /// The store after adding a classroom from `payload`.
    pub open spec fn after_add_classroom(self, payload: ClassroomPayloadView) -> SchoolView {
        match self.added_classroom(payload) {
            Ok(classroom) => self.issued().with_classroom(classroom),
            Err(_) => self,
        }
    }

    /// What updating the classroom under `id` with `payload` returns.
    pub open spec fn updated_classroom(self, id: u64, payload: ClassroomPayloadView) -> Result<
        ClassroomView,
        StoreError,
    > {
        match self.find_classroom(id) {
            Ok(classroom) => Ok(classroom.updated(payload)),
            Err(error) => Err(error),
        }
    }

    /// The store after updating the classroom under `id` with `payload`.
    pub open spec fn after_update_classroom(
        self,
        id: u64,
        payload: ClassroomPayloadView,
    ) -> SchoolView {
        match self.updated_classroom(id, payload) {
            Ok(classroom) => self.with_classroom(classroom),
            Err(_) => self,
        }
    }

    /// What deleting the classroom under `id` returns.
    pub open spec fn deleted_classroom(self, id: u64) -> Result<(), StoreError> {
        match self.find_classroom(id) {
            Ok(_) => Ok(()),
            Err(error) => Err(error),
        }
    }

    /// The store after deleting the classroom under `id`.
    pub open spec fn after_delete_classroom(self, id: u64) -> SchoolView {
        self.without_classroom(id)
    }

    // -----------------------------------------------------------------------
    // What keeps the store well formed
    // -----------------------------------------------------------------------
    /// Handing out an id keeps the store well formed.
    pub proof fn lemma_issued(self)
        requires
            self.wf(),
            self.last_id < u64::MAX,
        ensures
            self.issued().wf(),
    {
    }

    /// Storing a student keeps the store well formed, where the student fits,
    /// its id was handed out and the id is not in use for a record of another
    /// kind.
    pub proof fn lemma_with_student(self, student: StudentView)
        requires
            self.wf(),
            student.fits(),
            1 <= student.id <= self.last_id,
            student.enrolled_courses.no_duplicates(),
            !self.teachers.contains_key(student.id),
            !self.courses.contains_key(student.id),
            !self.classrooms.contains_key(student.id),
        ensures
            self.with_student(student).wf(),
    {
        let after = self.with_student(student);
        assert forall|id: u64| #[trigger] after.students.contains_key(id) implies {
            &&& after.students[id].id == id
            &&& 1 <= id <= after.last_id
            &&& after.students[id].fits()
        } by {
            if id != student.id {
                assert(self.students.contains_key(id));
            }
        }
    }

    /// Removing a student keeps the store well formed.
    pub proof fn lemma_without_student(self, id: u64)
        requires
            self.wf(),
        ensures
            self.without_student(id).wf(),
    {
        let after = self.without_student(id);
        assert forall|k: u64| #[trigger] after.students.contains_key(k) implies {
            &&& after.students[k].id == k
            &&& 1 <= k <= after.last_id
            &&& after.students[k].fits()
        } by {
            assert(self.students.contains_key(k));
        }
    }

    /// Storing a teacher keeps the store well formed, where the teacher fits,
    /// its id was handed out and the id is not in use for a record of another
    /// kind.
    pub proof fn lemma_with_teacher(self, teacher: TeacherView)
        requires
            self.wf(),
            teacher.fits(),
            1 <= teacher.id <= self.last_id,
            !self.students.contains_key(teacher.id),
            !self.courses.contains_key(teacher.id),
            !self.classrooms.contains_key(teacher.id),
        ensures
            self.with_teacher(teacher).wf(),
    {
        let after = self.with_teacher(teacher);
        assert forall|id: u64| #[trigger] after.teachers.contains_key(id) implies {
            &&& after.teachers[id].id == id
            &&& 1 <= id <= after.last_id
            &&& after.teachers[id].fits()
        } by {
            if id != teacher.id {
                assert(self.teachers.contains_key(id));
            }
        }
    }

    /// Removing a teacher keeps the store well formed.
    pub proof fn lemma_without_teacher(self, id: u64)
        requires
            self.wf(),
        ensures
            self.without_teacher(id).wf(),
    {
        let after = self.without_teacher(id);
        assert forall|k: u64| #[trigger] after.teachers.contains_key(k) implies {
            &&& after.teachers[k].id == k
            &&& 1 <= k <= after.last_id
            &&& after.teachers[k].fits()
        } by {
            assert(self.teachers.contains_key(k));
        }
    }

    /// Storing a course keeps the store well formed, where the course fits,
    /// its id was handed out and the id is not in use for a record of another
    /// kind.
    pub proof fn lemma_with_course(self, course: CourseView)
        requires
            self.wf(),
            course.fits(),
            1 <= course.id <= self.last_id,
            !self.students.contains_key(course.id),
            !self.teachers.contains_key(course.id),
            !self.classrooms.contains_key(course.id),
        ensures
            self.with_course(course).wf(),
    {
        let after = self.with_course(course);
        assert forall|id: u64| #[trigger] after.courses.contains_key(id) implies {
            &&& after.courses[id].id == id
            &&& 1 <= id <= after.last_id
            &&& after.courses[id].fits()
        } by {
            if id != course.id {
                assert(self.courses.contains_key(id));
            }
        }
    }

    /// Removing a course keeps the store well formed.
    pub proof fn lemma_without_course(self, id: u64)
        requires
            self.wf(),
        ensures
            self.without_course(id).wf(),
    {
        let after = self.without_course(id);
        assert forall|k: u64| #[trigger] after.courses.contains_key(k) implies {
            &&& after.courses[k].id == k
            &&& 1 <= k <= after.last_id
            &&& after.courses[k].fits()
        } by {
            assert(self.courses.contains_key(k));
        }
    }

    /// Storing a classroom keeps the store well formed, where the classroom
    /// fits, its id was handed out and the id is not in use for a record of
    /// another kind.
    pub proof fn lemma_with_classroom(self, classroom: ClassroomView)
        requires
            self.wf(),
            classroom.fits(),
            1 <= classroom.id <= self.last_id,
            !self.students.contains_key(classroom.id),
            !self.teachers.contains_key(classroom.id),
            !self.courses.contains_key(classroom.id),
        ensures
            self.with_classroom(classroom).wf(),
    {
        let after = self.with_classroom(classroom);
        assert forall|id: u64| #[trigger] after.classrooms.contains_key(id) implies {
            &&& after.classrooms[id].id == id
            &&& 1 <= id <= after.last_id
            &&& after.classrooms[id].fits()
        } by {
            if id != classroom.id {
                assert(self.classrooms.contains_key(id));
            }
        }
    }

    /// Removing a classroom keeps the store well formed.
    pub proof fn lemma_without_classroom(self, id: u64)
        requires
            self.wf(),
        ensures
            self.without_classroom(id).wf(),
    {
        let after = self.without_classroom(id);
        assert forall|k: u64| #[trigger] after.classrooms.contains_key(k) implies {
            &&& after.classrooms[k].id == k
            &&& 1 <= k <= after.last_id
            &&& after.classrooms[k].fits()
        } by {
            assert(self.classrooms.contains_key(k));
        }
    }

    // -----------------------------------------------------------------------
    // Operations across kinds
    // -----------------------------------------------------------------------
    /// What enrolling a student in a course returns: both must be there, the
    /// student looked up first, and the student not enrolled in the course
    /// yet.
    pub open spec fn enrollment(self, student_id: u64, course_id: u64) -> Result<(), StoreError> {
        if !self.students.contains_key(student_id) {
            Err(StoreError::NotFound(RecordKind::Student, student_id))
        } else if !self.courses.contains_key(course_id) {
            Err(StoreError::NotFound(RecordKind::Course, course_id))
        } else if self.students[student_id].enrolled_courses.contains(course_id) {
            Err(StoreError::AlreadyEnrolled)
        } else {
            Ok(())
        }
    }

    /// The store after enrolling a student in a course: the course's id is
    /// added to the student's courses. The course stays as it was.
    pub open spec fn after_enrollment(self, student_id: u64, course_id: u64) -> SchoolView {
        if self.enrollment(student_id, course_id) is Ok {
            self.with_student(self.students[student_id].enrolled(course_id))
        } else {
            self
        }
    }

    /// What assigning a teacher to a course returns: both must be there, the
    /// teacher looked up first, and the teacher not the course's teacher yet.
    pub open spec fn assignment(self, teacher_id: u64, course_id: u64) -> Result<(), StoreError> {
        if !self.teachers.contains_key(teacher_id) {
            Err(StoreError::NotFound(RecordKind::Teacher, teacher_id))
        } else if !self.courses.contains_key(course_id) {
            Err(StoreError::NotFound(RecordKind::Course, course_id))
        } else if self.courses[course_id].teacher_id == teacher_id {
            Err(StoreError::AlreadyAssigned)
        } else {
            Ok(())
        }
    }

    /// The store after assigning a teacher to a course: the teacher is the
    /// course's teacher, and the course's id is added to the teacher's
    /// courses.
    pub open spec fn after_assignment(self, teacher_id: u64, course_id: u64) -> SchoolView {
        if self.assignment(teacher_id, course_id) is Ok {
            self.with_course(self.courses[course_id].taught_by(teacher_id)).with_teacher(
                self.teachers[teacher_id].assigned(course_id),
            )
        } else {
            self
        }
    }

    /// What replacing a classroom's equipment returns.
    pub open spec fn reequipment(self, classroom_id: u64) -> Result<(), StoreError> {
        match self.find_classroom(classroom_id) {
            Ok(_) => Ok(()),
            Err(error) => Err(error),
        }
    }

    /// The store after replacing a classroom's equipment with `equipment`.
    pub open spec fn after_reequipment(
        self,
        classroom_id: u64,
        equipment: Seq<Seq<char>>,
    ) -> SchoolView {
        if self.classrooms.contains_key(classroom_id) {
            self.with_classroom(self.classrooms[classroom_id].equipped(equipment))
        } else {
            self
        }
    }
}

} // verus!
