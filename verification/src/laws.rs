//! Laws of the record store, proved of the model that the operations are
//! specified against.

use crate::classroom::{ClassroomPayloadView, ClassroomView};
use crate::course::{CoursePayloadView, CourseView};
use crate::error::{fails_with, gives, RecordKind, StoreError};
use crate::model::SchoolView;
use crate::student::{StudentPayloadView, StudentView};
use crate::teacher::{TeacherPayloadView, TeacherView};
use vstd::prelude::*;

verus! {

// ---------------------------------------------------------------------------
// Adding, then looking up
// ---------------------------------------------------------------------------
/// An add succeeds exactly where the payload is valid and there is a next id.
pub proof fn law_add_succeeds(
    before: SchoolView,
    student: StudentPayloadView,
    teacher: TeacherPayloadView,
    course: CoursePayloadView,
    classroom: ClassroomPayloadView,
)
    ensures
        before.added_student(student) is Ok <==> student.is_valid() && before.last_id < u64::MAX,
        before.added_teacher(teacher) is Ok <==> teacher.is_valid() && before.last_id < u64::MAX,
        before.added_course(course) is Ok <==> course.is_valid() && before.last_id < u64::MAX,
        before.added_classroom(classroom) is Ok <==> classroom.is_valid() && before.last_id
            < u64::MAX,
{
}

/// A student that was added is found under the id it was given, as the add
/// returned it.
pub proof fn law_get_after_add_student(before: SchoolView, payload: StudentPayloadView)
    ensures
        before.added_student(payload) matches Ok(student) ==> gives(
            before.after_add_student(payload).find_student(student.id),
            student,
        ),
{
}

/// A teacher that was added is found under the id it was given, as the add
/// returned it.
pub proof fn law_get_after_add_teacher(before: SchoolView, payload: TeacherPayloadView)
    ensures
        before.added_teacher(payload) matches Ok(teacher) ==> gives(
            before.after_add_teacher(payload).find_teacher(teacher.id),
            teacher,
        ),
{
}

/// A course that was added is found under the id it was given, as the add
/// returned it.
pub proof fn law_get_after_add_course(before: SchoolView, payload: CoursePayloadView)
    ensures
        before.added_course(payload) matches Ok(course) ==> gives(
            before.after_add_course(payload).find_course(course.id),
            course,
        ),
{
}

/// A classroom that was added is found under the id it was given, as the add
/// returned it.
pub proof fn law_get_after_add_classroom(before: SchoolView, payload: ClassroomPayloadView)
    ensures
        before.added_classroom(payload) matches Ok(classroom) ==> gives(
            before.after_add_classroom(payload).find_classroom(classroom.id),
            classroom,
        ),
{
}

/// An add with a payload that is not valid fails with `Validation` and leaves
/// the store as it was.
pub proof fn law_add_invalid(
    before: SchoolView,
    student: StudentPayloadView,
    teacher: TeacherPayloadView,
    course: CoursePayloadView,
    classroom: ClassroomPayloadView,
)
    ensures
        !student.is_valid() ==> before.after_add_student(student) == before && fails_with(
            before.added_student(student),
            StoreError::Validation(RecordKind::Student),
        ),
        !teacher.is_valid() ==> before.after_add_teacher(teacher) == before && fails_with(
            before.added_teacher(teacher),
            StoreError::Validation(RecordKind::Teacher),
        ),
        !course.is_valid() ==> before.after_add_course(course) == before && fails_with(
            before.added_course(course),
            StoreError::Validation(RecordKind::Course),
        ),
        !classroom.is_valid() ==> before.after_add_classroom(classroom) == before && fails_with(
            before.added_classroom(classroom),
            StoreError::Validation(RecordKind::Classroom),
        ),
{
}

// ---------------------------------------------------------------------------
// Updating
// ---------------------------------------------------------------------------
/// An update under an id that holds no record of the kind fails with
/// `NotFound` and creates nothing: the store stays as it was.
pub proof fn law_update_missing(
    before: SchoolView,
    id: u64,
    student: StudentPayloadView,
    teacher: TeacherPayloadView,
    course: CoursePayloadView,
    classroom: ClassroomPayloadView,
)
    ensures
        !before.students.contains_key(id) ==> before.after_update_student(id, student) == before
            && fails_with(
            before.updated_student(id, student),
            StoreError::NotFound(RecordKind::Student, id),
        ),
        !before.teachers.contains_key(id) ==> before.after_update_teacher(id, teacher) == before
            && fails_with(
            before.updated_teacher(id, teacher),
            StoreError::NotFound(RecordKind::Teacher, id),
        ),
        !before.courses.contains_key(id) ==> before.after_update_course(id, course) == before
            && fails_with(
            before.updated_course(id, course),
            StoreError::NotFound(RecordKind::Course, id),
        ),
        !before.classrooms.contains_key(id) ==> before.after_update_classroom(id, classroom)
            == before && fails_with(
            before.updated_classroom(id, classroom),
            StoreError::NotFound(RecordKind::Classroom, id),
        ),
{
}

/// An update of a record that is there keeps the ids in use, the record's own
/// id and what its payload does not name.
pub proof fn law_update_keeps_the_rest(
    before: SchoolView,
    id: u64,
    student: StudentPayloadView,
    course: CoursePayloadView,
    classroom: ClassroomPayloadView,
)
    requires
        before.wf(),
    ensures
        before.students.contains_key(id) ==> ({
            let after = before.after_update_student(id, student);
            &&& after.students.dom() == before.students.dom()
            &&& after.students[id].id == id
            &&& after.students[id].enrolled_courses == before.students[id].enrolled_courses
            &&& after.students[id].performance_records == before.students[id].performance_records
            &&& after.students[id].attendance_records == before.students[id].attendance_records
        }),
        before.courses.contains_key(id) ==> ({
            let after = before.after_update_course(id, course);
            &&& after.courses.dom() == before.courses.dom()
            &&& after.courses[id].id == id
            &&& after.courses[id].student_ids == before.courses[id].student_ids
            &&& after.courses[id].schedule == before.courses[id].schedule
            &&& after.courses[id].syllabus == before.courses[id].syllabus
            &&& after.courses[id].course_materials == before.courses[id].course_materials
        }),
        before.classrooms.contains_key(id) ==> ({
            let after = before.after_update_classroom(id, classroom);
            &&& after.classrooms.dom() == before.classrooms.dom()
            &&& after.classrooms[id].id == id
            &&& after.classrooms[id].equipment == before.classrooms[id].equipment
        }),
{
    if before.students.contains_key(id) {
        assert(before.after_update_student(id, student).students.dom() =~= before.students.dom());
    }
    if before.courses.contains_key(id) {
        assert(before.after_update_course(id, course).courses.dom() =~= before.courses.dom());
    }
    if before.classrooms.contains_key(id) {
        assert(before.after_update_classroom(id, classroom).classrooms.dom()
            =~= before.classrooms.dom());
    }
}

// ---------------------------------------------------------------------------
// Deleting
// ---------------------------------------------------------------------------
/// A delete under an id that holds no record of the kind fails with
/// `NotFound` and leaves the store as it was.
pub proof fn law_delete_missing(before: SchoolView, id: u64)
    ensures
        !before.students.contains_key(id) ==> before.after_delete_student(id) == before
            && before.deleted_student(id) == Err::<(), _>(
            StoreError::NotFound(RecordKind::Student, id),
        ),
        !before.teachers.contains_key(id) ==> before.after_delete_teacher(id) == before
            && before.deleted_teacher(id) == Err::<(), _>(
            StoreError::NotFound(RecordKind::Teacher, id),
        ),
        !before.courses.contains_key(id) ==> before.after_delete_course(id) == before
            && before.deleted_course(id) == Err::<(), _>(
            StoreError::NotFound(RecordKind::Course, id),
        ),
        !before.classrooms.contains_key(id) ==> before.after_delete_classroom(id) == before
            && before.deleted_classroom(id) == Err::<(), _>(
            StoreError::NotFound(RecordKind::Classroom, id),
        ),
{
    if !before.students.contains_key(id) {
        assert(before.students.remove(id) =~= before.students);
    }
    if !before.teachers.contains_key(id) {
        assert(before.teachers.remove(id) =~= before.teachers);
    }
    if !before.courses.contains_key(id) {
        assert(before.courses.remove(id) =~= before.courses);
    }
    if !before.classrooms.contains_key(id) {
        assert(before.classrooms.remove(id) =~= before.classrooms);
    }
}

/// A delete under an id that holds a record of the kind succeeds, and after
/// any delete a lookup under that id fails with `NotFound`.
pub proof fn law_get_after_delete(before: SchoolView, id: u64)
    ensures
        before.students.contains_key(id) ==> before.deleted_student(id) is Ok,
        before.teachers.contains_key(id) ==> before.deleted_teacher(id) is Ok,
        before.courses.contains_key(id) ==> before.deleted_course(id) is Ok,
        before.classrooms.contains_key(id) ==> before.deleted_classroom(id) is Ok,
        fails_with(
            before.after_delete_student(id).find_student(id),
            StoreError::NotFound(RecordKind::Student, id),
        ),
        fails_with(
            before.after_delete_teacher(id).find_teacher(id),
            StoreError::NotFound(RecordKind::Teacher, id),
        ),
        fails_with(
            before.after_delete_course(id).find_course(id),
            StoreError::NotFound(RecordKind::Course, id),
        ),
        fails_with(
            before.after_delete_classroom(id).find_classroom(id),
            StoreError::NotFound(RecordKind::Classroom, id),
        ),
{
}

/// A delete does not cascade: it leaves the records of the other kinds, and
/// with them what refers to the deleted record, as they were, and every other
/// record of its own kind too.
pub proof fn law_delete_does_not_cascade(before: SchoolView, id: u64, other: u64)
    requires
        other != id,
    ensures
        before.after_delete_student(id).teachers == before.teachers,
        before.after_delete_student(id).courses == before.courses,
        before.after_delete_student(id).classrooms == before.classrooms,
        before.after_delete_student(id).find_student(other) == before.find_student(other),
        before.after_delete_teacher(id).students == before.students,
        before.after_delete_teacher(id).courses == before.courses,
        before.after_delete_teacher(id).classrooms == before.classrooms,
        before.after_delete_teacher(id).find_teacher(other) == before.find_teacher(other),
        before.after_delete_course(id).students == before.students,
        before.after_delete_course(id).teachers == before.teachers,
        before.after_delete_course(id).classrooms == before.classrooms,
        before.after_delete_course(id).find_course(other) == before.find_course(other),
        before.after_delete_classroom(id).students == before.students,
        before.after_delete_classroom(id).teachers == before.teachers,
        before.after_delete_classroom(id).courses == before.courses,
        before.after_delete_classroom(id).find_classroom(other) == before.find_classroom(other),
{
}

// ---------------------------------------------------------------------------
// What every operation keeps
// ---------------------------------------------------------------------------
/// Adding an id that is not in a list without repeats gives a list without
/// repeats.
pub proof fn lemma_push_keeps_distinct(ids: Seq<u64>, id: u64)
    requires
        ids.no_duplicates(),
        !ids.contains(id),
    ensures
        ids.push(id).no_duplicates(),
{
    let longer = ids.push(id);
    assert forall|i: int, j: int|
        0 <= i < longer.len() && 0 <= j < longer.len() && i != j implies longer[i]
        != longer[j] by {
        if i < ids.len() && j < ids.len() {
        } else if i < ids.len() {
            assert(ids.contains(ids[i]));
        } else {
            assert(ids.contains(ids[j]));
        }
    }
}

/// Adding, updating and deleting a student keep the store well formed, where
/// the student that is stored fits in a record.
pub proof fn law_students_keep_well_formed(before: SchoolView, id: u64, payload: StudentPayloadView)
    requires
        before.wf(),
    ensures
        StudentView::created(0, payload).fits() ==> before.after_add_student(payload).wf(),
        (before.updated_student(id, payload) matches Ok(updated) ==> updated.fits())
            ==> before.after_update_student(id, payload).wf(),
        before.after_delete_student(id).wf(),
{
    if StudentView::created(0, payload).fits() {
        match before.added_student(payload) {
            Ok(added) => {
                StudentView::lemma_created_size(added.id, 0, payload);
                before.lemma_issued();
                before.issued().lemma_with_student(added);
            },
            Err(_) => {},
        }
    }
    match before.updated_student(id, payload) {
        Ok(updated) => {
            if updated.fits() {
                before.lemma_with_student(updated);
            }
        },
        Err(_) => {},
    }
    before.lemma_without_student(id);
}

/// Adding, updating and deleting a teacher keep the store well formed, where
/// the teacher that is stored fits in a record.
pub proof fn law_teachers_keep_well_formed(before: SchoolView, id: u64, payload: TeacherPayloadView)
    requires
        before.wf(),
    ensures
        TeacherView::created(0, payload).fits() ==> before.after_add_teacher(payload).wf(),
        (before.updated_teacher(id, payload) matches Ok(updated) ==> updated.fits())
            ==> before.after_update_teacher(id, payload).wf(),
        before.after_delete_teacher(id).wf(),
{
    if TeacherView::created(0, payload).fits() {
        match before.added_teacher(payload) {
            Ok(added) => {
                TeacherView::lemma_created_size(added.id, 0, payload);
                before.lemma_issued();
                before.issued().lemma_with_teacher(added);
            },
            Err(_) => {},
        }
    }
    match before.updated_teacher(id, payload) {
        Ok(updated) => {
            if updated.fits() {
                before.lemma_with_teacher(updated);
            }
        },
        Err(_) => {},
    }
    before.lemma_without_teacher(id);
}

/// Adding, updating and deleting a course keep the store well formed, where the
/// course that is stored fits in a record.
pub proof fn law_courses_keep_well_formed(before: SchoolView, id: u64, payload: CoursePayloadView)
    requires
        before.wf(),
    ensures
        CourseView::created(0, payload).fits() ==> before.after_add_course(payload).wf(),
        (before.updated_course(id, payload) matches Ok(updated) ==> updated.fits())
            ==> before.after_update_course(id, payload).wf(),
        before.after_delete_course(id).wf(),
{
    if CourseView::created(0, payload).fits() {
        match before.added_course(payload) {
            Ok(added) => {
                CourseView::lemma_created_size(added.id, 0, payload);
                before.lemma_issued();
                before.issued().lemma_with_course(added);
            },
            Err(_) => {},
        }
    }
    match before.updated_course(id, payload) {
        Ok(updated) => {
            if updated.fits() {
                before.lemma_with_course(updated);
            }
        },
        Err(_) => {},
    }
    before.lemma_without_course(id);
}

/// Adding, updating and deleting a classroom keep the store well formed, where
/// the classroom that is stored fits in a record.
pub proof fn law_classrooms_keep_well_formed(
    before: SchoolView,
    id: u64,
    payload: ClassroomPayloadView,
)
    requires
        before.wf(),
    ensures
        ClassroomView::created(0, payload).fits() ==> before.after_add_classroom(payload).wf(),
        (before.updated_classroom(id, payload) matches Ok(updated) ==> updated.fits())
            ==> before.after_update_classroom(id, payload).wf(),
        before.after_delete_classroom(id).wf(),
{
    if ClassroomView::created(0, payload).fits() {
        match before.added_classroom(payload) {
            Ok(added) => {
                ClassroomView::lemma_created_size(added.id, 0, payload);
                before.lemma_issued();
                before.issued().lemma_with_classroom(added);
            },
            Err(_) => {},
        }
    }
    match before.updated_classroom(id, payload) {
        Ok(updated) => {
            if updated.fits() {
                before.lemma_with_classroom(updated);
            }
        },
        Err(_) => {},
    }
    before.lemma_without_classroom(id);
}

/// Enrolling, assigning and replacing equipment keep the store well formed,
/// where the record that is stored fits in a record.
pub proof fn law_relations_keep_well_formed(
    before: SchoolView,
    id: u64,
    course_id: u64,
    equipment: Seq<Seq<char>>,
)
    requires
        before.wf(),
    ensures
        (before.enrollment(id, course_id) is Ok ==> before.students[id].enrolled(course_id).fits())
            ==> before.after_enrollment(id, course_id).wf(),
        (before.assignment(id, course_id) is Ok ==> before.teachers[id].assigned(course_id).fits())
            ==> before.after_assignment(id, course_id).wf(),
        (before.classrooms.contains_key(id) ==> before.classrooms[id].equipped(equipment).fits())
            ==> before.after_reequipment(id, equipment).wf(),
{
    if before.enrollment(id, course_id) is Ok {
        let student = before.students[id].enrolled(course_id);
        if student.fits() {
            lemma_push_keeps_distinct(before.students[id].enrolled_courses, course_id);
            before.lemma_with_student(student);
        }
    }
    if before.assignment(id, course_id) is Ok {
        let teacher = before.teachers[id].assigned(course_id);
        if teacher.fits() {
            let course = before.courses[course_id].taught_by(id);
            before.courses[course_id].lemma_taught_by_size(id);
            before.lemma_with_course(course);
            before.with_course(course).lemma_with_teacher(teacher);
        }
    }
    if before.classrooms.contains_key(id) {
        let classroom = before.classrooms[id].equipped(equipment);
        if classroom.fits() {
            before.lemma_with_classroom(classroom);
        }
    }
}

// ---------------------------------------------------------------------------
// Ids
// ---------------------------------------------------------------------------
/// In a well-formed store an id names at most one record, of whatever kind.
pub proof fn law_id_names_one_record(school: SchoolView, id: u64)
    requires
        school.wf(),
    ensures
        school.students.contains_key(id) ==> !school.teachers.contains_key(id)
            && !school.courses.contains_key(id) && !school.classrooms.contains_key(id),
        school.teachers.contains_key(id) ==> !school.courses.contains_key(id)
            && !school.classrooms.contains_key(id),
        school.courses.contains_key(id) ==> !school.classrooms.contains_key(id),
        school.holds(id) ==> 1 <= id <= school.last_id,
{
}

/// The counter never goes back: whatever an operation does, the last id
/// handed out afterwards is at least what it was.
pub proof fn law_last_id_never_decreases(
    before: SchoolView,
    id: u64,
    other: u64,
    student: StudentPayloadView,
    teacher: TeacherPayloadView,
    course: CoursePayloadView,
    classroom: ClassroomPayloadView,
    equipment: Seq<Seq<char>>,
)
    ensures
        before.after_add_student(student).last_id >= before.last_id,
        before.after_add_teacher(teacher).last_id >= before.last_id,
        before.after_add_course(course).last_id >= before.last_id,
        before.after_add_classroom(classroom).last_id >= before.last_id,
        before.after_update_student(id, student).last_id == before.last_id,
        before.after_update_teacher(id, teacher).last_id == before.last_id,
        before.after_update_course(id, course).last_id == before.last_id,
        before.after_update_classroom(id, classroom).last_id == before.last_id,
        before.after_delete_student(id).last_id == before.last_id,
        before.after_delete_teacher(id).last_id == before.last_id,
        before.after_delete_course(id).last_id == before.last_id,
        before.after_delete_classroom(id).last_id == before.last_id,
        before.after_enrollment(id, other).last_id == before.last_id,
        before.after_assignment(id, other).last_id == before.last_id,
        before.after_reequipment(id, equipment).last_id == before.last_id,
{
}

/// An id is handed out once: the id of a record that an add returns is above
/// the last id handed out before, so it is none of the ids that were handed
/// out, whether their records are still there or were deleted.
pub proof fn law_added_id_is_new(
    before: SchoolView,
    student: StudentPayloadView,
    teacher: TeacherPayloadView,
    course: CoursePayloadView,
    classroom: ClassroomPayloadView,
)
    requires
        before.wf(),
    ensures
        before.added_student(student) matches Ok(added) ==> added.id == before.last_id + 1
            && !before.holds(added.id),
        before.added_teacher(teacher) matches Ok(added) ==> added.id == before.last_id + 1
            && !before.holds(added.id),
        before.added_course(course) matches Ok(added) ==> added.id == before.last_id + 1
            && !before.holds(added.id),
        before.added_classroom(classroom) matches Ok(added) ==> added.id == before.last_id + 1
            && !before.holds(added.id),
{
}

/// The id of a deleted record is not handed out again: a record that is added
/// after a delete gets another id, whatever its kind.
pub proof fn law_deleted_id_not_reused(
    before: SchoolView,
    id: u64,
    student: StudentPayloadView,
    teacher: TeacherPayloadView,
    course: CoursePayloadView,
    classroom: ClassroomPayloadView,
)
    requires
        before.wf(),
        before.holds(id),
    ensures
        ({
            let after = if before.students.contains_key(id) {
                before.after_delete_student(id)
            } else if before.teachers.contains_key(id) {
                before.after_delete_teacher(id)
            } else if before.courses.contains_key(id) {
                before.after_delete_course(id)
            } else {
                before.after_delete_classroom(id)
            };
            &&& !after.holds(id)
            &&& after.added_student(student) matches Ok(added) ==> added.id > id
            &&& after.added_teacher(teacher) matches Ok(added) ==> added.id > id
            &&& after.added_course(course) matches Ok(added) ==> added.id > id
            &&& after.added_classroom(classroom) matches Ok(added) ==> added.id > id
        }),
{
}

// ---------------------------------------------------------------------------
// Enrolling and assigning
// ---------------------------------------------------------------------------
/// An enrolment adds the course once at the end of the student's courses and
/// leaves the course as it was.
pub proof fn law_enrollment(before: SchoolView, student_id: u64, course_id: u64)
    requires
        before.wf(),
        before.enrollment(student_id, course_id) is Ok,
    ensures
        ({
            let after = before.after_enrollment(student_id, course_id);
            &&& after.students[student_id].enrolled_courses
                == before.students[student_id].enrolled_courses.push(course_id)
            &&& after.courses == before.courses
        }),
{
}

/// Enrolling a student in a course a second time fails with
/// `AlreadyEnrolled`, and the student's courses then hold the course exactly
/// once.
pub proof fn law_enroll_twice(before: SchoolView, student_id: u64, course_id: u64)
    requires
        before.wf(),
        before.students.contains_key(student_id),
        before.courses.contains_key(course_id),
    ensures
        ({
            let once = before.after_enrollment(student_id, course_id);
            let twice = once.after_enrollment(student_id, course_id);
            &&& once.enrollment(student_id, course_id) == Err::<(), _>(StoreError::AlreadyEnrolled)
            &&& twice == once
            &&& twice.students[student_id].enrolled_courses.to_multiset().count(course_id) == 1
        }),
{
    let once = before.after_enrollment(student_id, course_id);
    let courses = once.students[student_id].enrolled_courses;
    let old_courses = before.students[student_id].enrolled_courses;
    if before.enrollment(student_id, course_id) is Ok {
        lemma_push_keeps_distinct(old_courses, course_id);
        assert(courses[courses.len() - 1] == course_id);
    }
    assert(courses.contains(course_id));
    courses.lemma_multiset_has_no_duplicates();
    courses.to_multiset_ensures();
}

/// An assignment makes the teacher the course's teacher and adds the course
/// once at the end of the teacher's courses.
pub proof fn law_assignment(before: SchoolView, teacher_id: u64, course_id: u64)
    requires
        before.wf(),
        before.assignment(teacher_id, course_id) is Ok,
    ensures
        ({
            let after = before.after_assignment(teacher_id, course_id);
            &&& after.courses[course_id].teacher_id == teacher_id
            &&& after.teachers[teacher_id].assigned_courses
                == before.teachers[teacher_id].assigned_courses.push(course_id)
        }),
{
}

/// Assigning a teacher to a course a second time fails with
/// `AlreadyAssigned` and changes nothing.
pub proof fn law_assign_twice(before: SchoolView, teacher_id: u64, course_id: u64)
    requires
        before.wf(),
        before.teachers.contains_key(teacher_id),
        before.courses.contains_key(course_id),
    ensures
        ({
            let once = before.after_assignment(teacher_id, course_id);
            &&& once.assignment(teacher_id, course_id) == Err::<(), _>(StoreError::AlreadyAssigned)
            &&& once.after_assignment(teacher_id, course_id) == once
        }),
{
}

// ---------------------------------------------------------------------------
// Failures
// ---------------------------------------------------------------------------
/// An operation that fails leaves the store as it was.
pub proof fn law_failure_changes_nothing(
    before: SchoolView,
    id: u64,
    other: u64,
    student: StudentPayloadView,
    teacher: TeacherPayloadView,
    course: CoursePayloadView,
    classroom: ClassroomPayloadView,
    equipment: Seq<Seq<char>>,
)
    ensures
        before.added_student(student) is Err ==> before.after_add_student(student) == before,
        before.added_teacher(teacher) is Err ==> before.after_add_teacher(teacher) == before,
        before.added_course(course) is Err ==> before.after_add_course(course) == before,
        before.added_classroom(classroom) is Err ==> before.after_add_classroom(classroom)
            == before,
        before.updated_student(id, student) is Err ==> before.after_update_student(id, student)
            == before,
        before.updated_teacher(id, teacher) is Err ==> before.after_update_teacher(id, teacher)
            == before,
        before.updated_course(id, course) is Err ==> before.after_update_course(id, course)
            == before,
        before.updated_classroom(id, classroom) is Err ==> before.after_update_classroom(
            id,
            classroom,
        ) == before,
        before.deleted_student(id) is Err ==> before.after_delete_student(id) == before,
        before.deleted_teacher(id) is Err ==> before.after_delete_teacher(id) == before,
        before.deleted_course(id) is Err ==> before.after_delete_course(id) == before,
        before.deleted_classroom(id) is Err ==> before.after_delete_classroom(id) == before,
        before.enrollment(id, other) is Err ==> before.after_enrollment(id, other) == before,
        before.assignment(id, other) is Err ==> before.after_assignment(id, other) == before,
        before.reequipment(id) is Err ==> before.after_reequipment(id, equipment) == before,
{
    law_delete_missing(before, id);
}

// ---------------------------------------------------------------------------
// Histories
// ---------------------------------------------------------------------------
/// One change to a store.
pub enum Change {
    AddStudent(StudentPayloadView),
    AddTeacher(TeacherPayloadView),
    AddCourse(CoursePayloadView),
    AddClassroom(ClassroomPayloadView),
    UpdateStudent(u64, StudentPayloadView),
    UpdateTeacher(u64, TeacherPayloadView),
    UpdateCourse(u64, CoursePayloadView),
    UpdateClassroom(u64, ClassroomPayloadView),
    DeleteStudent(u64),
    DeleteTeacher(u64),
    DeleteCourse(u64),
    DeleteClassroom(u64),
    Enroll(u64, u64),
    Assign(u64, u64),
    Equip(u64, Seq<Seq<char>>),
    /// No change at all.
    Nothing,
}

/// The store after `change`.
pub open spec fn after(before: SchoolView, change: Change) -> SchoolView {
    match change {
        Change::AddStudent(payload) => before.after_add_student(payload),
        Change::AddTeacher(payload) => before.after_add_teacher(payload),
        Change::AddCourse(payload) => before.after_add_course(payload),
        Change::AddClassroom(payload) => before.after_add_classroom(payload),
        Change::UpdateStudent(id, payload) => before.after_update_student(id, payload),
        Change::UpdateTeacher(id, payload) => before.after_update_teacher(id, payload),
        Change::UpdateCourse(id, payload) => before.after_update_course(id, payload),
        Change::UpdateClassroom(id, payload) => before.after_update_classroom(id, payload),
        Change::DeleteStudent(id) => before.after_delete_student(id),
        Change::DeleteTeacher(id) => before.after_delete_teacher(id),
        Change::DeleteCourse(id) => before.after_delete_course(id),
        Change::DeleteClassroom(id) => before.after_delete_classroom(id),
        Change::Enroll(student_id, course_id) => before.after_enrollment(student_id, course_id),
        Change::Assign(teacher_id, course_id) => before.after_assignment(teacher_id, course_id),
        Change::Equip(classroom_id, equipment) => before.after_reequipment(
            classroom_id,
            equipment,
        ),
        Change::Nothing => before,
    }
}

/// The id that `change` gives to a new record, if it adds one.
pub open spec fn id_given(before: SchoolView, change: Change) -> Option<u64> {
    match change {
        Change::AddStudent(payload) => match before.added_student(payload) {
            Ok(added) => Some(added.id),
            Err(_) => None,
        },
        Change::AddTeacher(payload) => match before.added_teacher(payload) {
            Ok(added) => Some(added.id),
            Err(_) => None,
        },
        Change::AddCourse(payload) => match before.added_course(payload) {
            Ok(added) => Some(added.id),
            Err(_) => None,
        },
        Change::AddClassroom(payload) => match before.added_classroom(payload) {
            Ok(added) => Some(added.id),
            Err(_) => None,
        },
        _ => None,
    }
}

/// The store after the first `n` of `changes`, one after the other.
pub open spec fn after_first(start: SchoolView, changes: Seq<Change>, n: nat) -> SchoolView
    decreases n,
{
    if n == 0 {
        start
    } else {
        after(after_first(start, changes, (n - 1) as nat), changes[n - 1])
    }
}

/// A change that gives an id gives the one above the last, and leaves it as
/// the last; any other change leaves the last id as it was.
pub proof fn law_change_and_last_id(before: SchoolView, change: Change)
    ensures
        match id_given(before, change) {
            Some(id) => id == before.last_id + 1 && after(before, change).last_id == id,
            None => after(before, change).last_id == before.last_id,
        },
{
}

/// Along a history the last id never decreases.
pub proof fn law_last_id_grows(start: SchoolView, changes: Seq<Change>, earlier: nat, later: nat)
    requires
        earlier <= later <= changes.len(),
    ensures
        after_first(start, changes, earlier).last_id <= after_first(start, changes, later).last_id,
    decreases later,
{
    if earlier < later {
        law_last_id_grows(start, changes, earlier, (later - 1) as nat);
        law_change_and_last_id(after_first(start, changes, (later - 1) as nat), changes[later - 1]);
    }
}

/// Ids are never reused: of two changes in a history that each give an id to
/// a new record, the later one gives the greater id, whatever was added,
/// updated or deleted in between.
pub proof fn law_ids_never_reused(start: SchoolView, changes: Seq<Change>, earlier: nat, later: nat)
    requires
        earlier < later < changes.len(),
    ensures
        id_given(after_first(start, changes, earlier), changes[earlier as int]) matches Some(first)
            ==> id_given(after_first(start, changes, later), changes[later as int]) matches Some(
            second,
        ) ==> first < second,
{
    law_change_and_last_id(after_first(start, changes, earlier), changes[earlier as int]);
    law_change_and_last_id(after_first(start, changes, later), changes[later as int]);
    law_last_id_grows(start, changes, earlier + 1, later);
}

/// Records come by an add and go by a delete, and by nothing else: an add
/// that succeeds puts the new id in use, a delete takes its id out of use,
/// and every other change leaves the ids in use as they were.
pub proof fn law_ids_in_use(before: SchoolView, change: Change, id: u64)
    requires
        before.wf(),
    ensures
        after(before, change).holds(id) <==> match change {
            Change::DeleteStudent(gone) => before.holds(id) && !(gone == id
                && before.students.contains_key(id)),
            Change::DeleteTeacher(gone) => before.holds(id) && !(gone == id
                && before.teachers.contains_key(id)),
            Change::DeleteCourse(gone) => before.holds(id) && !(gone == id
                && before.courses.contains_key(id)),
            Change::DeleteClassroom(gone) => before.holds(id) && !(gone == id
                && before.classrooms.contains_key(id)),
            _ => before.holds(id) || id_given(before, change) == Some(id),
        },
{
}

} // verus!
