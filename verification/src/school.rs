//! The record store of a school, kept in stable memory.
//!
//! A [`School`] owns the id allocator and one entity store for each kind of
//! record. In contracts it is a [`SchoolView`]; every operation is specified
//! by what the model says it returns and leaves behind.

use crate::classroom::{Classroom, ClassroomPayload, ClassroomView};
use crate::codec::{ids_distinct, texts_view};
use crate::course::{Course, CoursePayload, CourseView};
use crate::entity_store::EntityStore;
use crate::error::{fails_with, gives, RecordKind, StoreError};
use crate::id_allocator::IdAllocator;
use crate::model::SchoolView;
use crate::headers::{cell_head_fits, map_head_fits};
use crate::storage::{region_holds, region_number, Region, Regions};
use crate::student::{Student, StudentPayload, StudentView};
use crate::teacher::{Teacher, TeacherPayload, TeacherView};
use vstd::prelude::*;

verus! {

/// The record store of a school.
///
/// The counter takes region 0 of the memory, and students, teachers, courses
/// and classrooms the regions 1 to 4. A store has these regions for itself:
/// no second store, and nothing else, is to be kept in them while it is in
/// use.
pub struct School {
    ids: IdAllocator,
    students: EntityStore<StudentView, Student>,
    teachers: EntityStore<TeacherView, Teacher>,
    courses: EntityStore<CourseView, Course>,
    classrooms: EntityStore<ClassroomView, Classroom>,
}

/// The numbers of the regions that a store is kept in.
pub struct Layout {
    pub counter: u8,
    pub students: u8,
    pub teachers: u8,
    pub courses: u8,
    pub classrooms: u8,
}

impl Layout {
    /// The layout of a school's store: the counter in region 0, and students,
    /// teachers, courses and classrooms in the regions 1 to 4, each in a
    /// region of its own.
    pub open spec fn of_school() -> Layout {
        Layout { counter: 0, students: 1, teachers: 2, courses: 3, classrooms: 4 }
    }

    /// The numbers of the regions of a school's store.
    pub open spec fn regions_of_school() -> Set<u8> {
        set![0u8, 1u8, 2u8, 3u8, 4u8]
    }
}

impl View for School {
    type V = SchoolView;

    closed spec fn view(&self) -> SchoolView {
        SchoolView {
            last_id: self.ids@,
            students: self.students@,
            teachers: self.teachers@,
            courses: self.courses@,
            classrooms: self.classrooms@,
        }
    }
}

impl School {
    /// The store is sound: each of its entity stores is, and what it holds is
    /// well formed.
    pub closed spec fn wf(&self) -> bool {
        &&& self.students.wf()
        &&& self.teachers.wf()
        &&& self.courses.wf()
        &&& self.classrooms.wf()
        &&& self@.wf()
    }

    /// The regions that the store was made or opened in.
    pub closed spec fn layout(&self) -> Layout {
        Layout {
            counter: self.ids.region(),
            students: self.students.region(),
            teachers: self.teachers.region(),
            courses: self.courses.region(),
            classrooms: self.classrooms.region(),
        }
    }

    /// What a sound store holds is well formed.
    pub proof fn lemma_wf(&self)
        requires
            self.wf(),
        ensures
            self@.wf(),
    {
    }

    // -----------------------------------------------------------------------
    // Making and opening
    // -----------------------------------------------------------------------
    /// A store without records, in the default memory, whose earlier contents
    /// are overwritten. No id has been handed out, so that the first is 1.
    ///
    /// There is to be one store in the default memory at a time.
    ///
    /// Returns `None` where the memory cannot be divided into regions or
    /// cannot take the counter.
    pub fn new() -> (made: Option<School>)
        ensures
            made matches Some(school) ==> {
                &&& school.wf()
                &&& school@ == SchoolView::empty()
                &&& school.layout() == Layout::of_school()
            },
    {
        match Regions::of_default_memory() {
            Some(regions) => {
                let mut regions = regions;
                School::new_in(&mut regions)
            },
            None => None,
        }
    }

    /// A store without records, in the regions 0 to 4, whose earlier contents
    /// are overwritten. No id has been handed out, so that the first is 1.
    ///
    /// The five regions must not have been handed out, and are handed out by
    /// this call, whatever it returns.
    ///
    /// Returns `None` where the memory cannot take the counter.
    pub fn new_in(regions: &mut Regions) -> (made: Option<School>)
        requires
            old(regions).taken().disjoint(Layout::regions_of_school()),
        ensures
            final(regions).taken() == old(regions).taken().union(Layout::regions_of_school()),
            made matches Some(school) ==> {
                &&& school.wf()
                &&& school@ == SchoolView::empty()
                &&& school.layout() == Layout::of_school()
            },
    {
        let (counter, students, teachers, courses, classrooms) = School::take_regions(regions);
        let ids = IdAllocator::new(counter);
        let students = EntityStore::new(students);
        let teachers = EntityStore::new(teachers);
        let courses = EntityStore::new(courses);
        let classrooms = EntityStore::new(classrooms);
        School::from_parts(ids, students, teachers, courses, classrooms)
    }

    /// Whether the regions 0 to 4 were not handed out: what `new_in` and
    /// `open_in` ask of their caller.
    pub fn regions_are_free(regions: &Regions) -> (free: bool)
        ensures
            free == regions.taken().disjoint(Layout::regions_of_school()),
    {
        let ghost school = Layout::regions_of_school();
        assert(school.contains(0u8) && school.contains(1u8) && school.contains(2u8)
            && school.contains(3u8) && school.contains(4u8));
        regions.is_free(0) && regions.is_free(1) && regions.is_free(2) && regions.is_free(3)
            && regions.is_free(4)
    }

    /// Hands out the five regions of a school's store.
    fn take_regions(regions: &mut Regions) -> (taken: (Region, Region, Region, Region, Region))
        requires
            old(regions).taken().disjoint(Layout::regions_of_school()),
        ensures
            final(regions).taken() == old(regions).taken().union(Layout::regions_of_school()),
            region_number(taken.0) == 0,
            region_number(taken.1) == 1,
            region_number(taken.2) == 2,
            region_number(taken.3) == 3,
            region_number(taken.4) == 4,
    {
        let ghost school = Layout::regions_of_school();
        assert(school.contains(0u8) && school.contains(1u8) && school.contains(2u8)
            && school.contains(3u8) && school.contains(4u8));
        let counter = regions.region(0);
        let students = regions.region(1);
        let teachers = regions.region(2);
        let courses = regions.region(3);
        let classrooms = regions.region(4);
        assert(regions.taken() =~= old(regions).taken().union(school));
        (counter, students, teachers, courses, classrooms)
    }

    /// The store made of these parts, where there is an allocator.
    fn from_parts(
        ids: Option<IdAllocator>,
        students: EntityStore<StudentView, Student>,
        teachers: EntityStore<TeacherView, Teacher>,
        courses: EntityStore<CourseView, Course>,
        classrooms: EntityStore<ClassroomView, Classroom>,
    ) -> (made: Option<School>)
        ensures
            made is Some <==> ids is Some,
            made matches Some(school) ==> {
                &&& ids == Some(school.ids)
                &&& school.students == students
                &&& school.teachers == teachers
                &&& school.courses == courses
                &&& school.classrooms == classrooms
            },
    {
        match ids {
            Some(ids) => Some(School { ids, students, teachers, courses, classrooms }),
            None => None,
        }
    }

    /// The store made of parts that were opened, where each of them could be
    /// opened.
    fn from_opened(
        ids: Option<IdAllocator>,
        students: Option<EntityStore<StudentView, Student>>,
        teachers: Option<EntityStore<TeacherView, Teacher>>,
        courses: Option<EntityStore<CourseView, Course>>,
        classrooms: Option<EntityStore<ClassroomView, Classroom>>,
    ) -> (made: Option<School>)
        ensures
            made is Some <==> ids is Some && students is Some && teachers is Some
                && courses is Some && classrooms is Some,
            made matches Some(school) ==> {
                &&& ids == Some(school.ids)
                &&& students == Some(school.students)
                &&& teachers == Some(school.teachers)
                &&& courses == Some(school.courses)
                &&& classrooms == Some(school.classrooms)
            },
    {
        match (ids, students, teachers, courses, classrooms) {
            (Some(ids), Some(students), Some(teachers), Some(courses), Some(classrooms)) => Some(
                School { ids, students, teachers, courses, classrooms },
            ),
            _ => None,
        }
    }

    /// `school`, if it is sound. Every entry is read and checked.
    pub fn checked(school: School) -> (sound: Option<School>)
        ensures
            match sound {
                Some(same) => same == school && school.wf(),
                None => !school.wf(),
            },
    {
        if school.is_sound() {
            Some(school)
        } else {
            None
        }
    }

    /// The store that the default memory holds, as an earlier run left it; a
    /// store without records where the memory holds none.
    ///
    /// There is to be one store in the default memory at a time.
    ///
    /// Returns `None` where the regions, the counter or a map cannot be
    /// read, or what the memory holds is not a sound store.
    pub fn open() -> (opened: Option<School>)
        ensures
            opened matches Some(school) ==> school.wf() && school.layout() == Layout::of_school(),
    {
        match Regions::of_default_memory() {
            Some(regions) => {
                let mut regions = regions;
                School::open_in(&mut regions)
            },
            None => None,
        }
    }

    /// The store that the regions 0 to 4 hold, as an earlier run left it; a
    /// store without records where they hold none.
    ///
    /// The five regions must not have been handed out, and are handed out by
    /// this call, whatever it returns.
    ///
    /// The header of the counter and of each map is tested before it is
    /// read, and then every entry is read and checked, so that what is
    /// returned is sound.
    ///
    /// Returns `None` where the counter or a map has a header that cannot be
    /// read, or what the regions hold is not a sound store.
    pub fn open_in(regions: &mut Regions) -> (opened: Option<School>)
        requires
            old(regions).taken().disjoint(Layout::regions_of_school()),
        ensures
            final(regions).taken() == old(regions).taken().union(Layout::regions_of_school()),
            opened matches Some(school) ==> school.wf() && school.layout() == Layout::of_school(),
    {
        let (counter, students, teachers, courses, classrooms) = School::take_regions(regions);
        School::open_at(counter, students, teachers, courses, classrooms)
    }

    /// The store that five regions hold, as an earlier run left it: the
    /// counter in the first, and students, teachers, courses and classrooms
    /// in the others; a store without records where they hold none.
    ///
    /// The header of the counter and of each map is tested before it is
    /// read, and then every entry is read and checked, so that what is
    /// returned is sound.
    ///
    /// Returns `None` where the header of the counter or of a map is not
    /// fit, where the counter cannot be read for another reason, or where
    /// what the regions hold is not a sound store.
    pub fn open_at(
        counter: Region,
        students: Region,
        teachers: Region,
        courses: Region,
        classrooms: Region,
    ) -> (opened: Option<School>)
        ensures
            opened is Some ==> {
                &&& cell_head_fits(region_holds(counter))
                &&& map_head_fits(region_holds(students))
                &&& map_head_fits(region_holds(teachers))
                &&& map_head_fits(region_holds(courses))
                &&& map_head_fits(region_holds(classrooms))
            },
            opened matches Some(school) ==> school.wf() && school.layout() == (Layout {
                counter: region_number(counter),
                students: region_number(students),
                teachers: region_number(teachers),
                courses: region_number(courses),
                classrooms: region_number(classrooms),
            }),
    {
        let ids = IdAllocator::open(counter);
        let students = EntityStore::open_unchecked(students);
        let teachers = EntityStore::open_unchecked(teachers);
        let courses = EntityStore::open_unchecked(courses);
        let classrooms = EntityStore::open_unchecked(classrooms);
        match School::from_opened(ids, students, teachers, courses, classrooms) {
            Some(school) => School::checked(school),
            None => None,
        }
    }

    /// Whether no student of the store is enrolled in a course twice.
    fn enrolments_are_distinct(&self) -> (distinct: bool)
        requires
            self.students.wf(),
        ensures
            distinct == (forall|id: u64| #[trigger]
                self.students@.contains_key(id)
                    ==> self.students@[id].enrolled_courses.no_duplicates()),
    {
        let ids = self.students.ids();
        let mut i: usize = 0;
        while i < ids.len()
            invariant
                i <= ids.len(),
                self.students.wf(),
                forall|id: u64| ids@.contains(id) <==> self.students@.contains_key(id),
                forall|j: int|
                    0 <= j < i ==> self.students@[#[trigger] ids@[j]]
                        .enrolled_courses.no_duplicates(),
            decreases ids.len() - i,
        {
            assert(ids@.contains(ids@[i as int]));
            match self.students.get(ids[i]) {
                Some(student) => {
                    if !ids_distinct(&student.enrolled_courses) {
                        return false;
                    }
                },
                None => {},
            }
            i += 1;
        }
        assert forall|id: u64| #[trigger]
            self.students@.contains_key(
                id,
            ) implies self.students@[id].enrolled_courses.no_duplicates() by {
            assert(ids@.contains(id));
            let j = choose|j: int| 0 <= j < ids@.len() && ids@[j] == id;
            assert(self.students@[ids@[j]].enrolled_courses.no_duplicates());
        }
        true
    }

    /// Whether the store is sound. Every entry is read and checked.
    pub fn is_sound(&self) -> (sound: bool)
        ensures
            sound == self.wf(),
    {
        let last_id = self.ids.last_id();
        if !self.students.is_sound() || !self.teachers.is_sound() || !self.courses.is_sound()
            || !self.classrooms.is_sound() {
            return false;
        }
        if !self.enrolments_are_distinct() {
            assert(self@.students == self.students@);
            return false;
        }
        proof {
            let view = self@;
            assert forall|id: u64| #[trigger] view.students.contains_key(id) implies {
                &&& view.students[id].id == id
                &&& view.students[id].fits()
                &&& view.students[id].enrolled_courses.no_duplicates()
            } by {
                self.students.lemma_wf(id);
                assert(self.students@.contains_key(id));
            }
            assert forall|id: u64| #[trigger] view.teachers.contains_key(id) implies {
                &&& view.teachers[id].id == id
                &&& view.teachers[id].fits()
            } by {
                self.teachers.lemma_wf(id);
            }
            assert forall|id: u64| #[trigger] view.courses.contains_key(id) implies {
                &&& view.courses[id].id == id
                &&& view.courses[id].fits()
            } by {
                self.courses.lemma_wf(id);
            }
            assert forall|id: u64| #[trigger] view.classrooms.contains_key(id) implies {
                &&& view.classrooms[id].id == id
                &&& view.classrooms[id].fits()
            } by {
                self.classrooms.lemma_wf(id);
            }
            assert(view.students == self.students@ && view.teachers == self.teachers@);
            assert(view.courses == self.courses@ && view.classrooms == self.classrooms@);
        }
        if !self.students.ids_within(last_id) || !self.teachers.ids_within(last_id)
            || !self.courses.ids_within(last_id) || !self.classrooms.ids_within(last_id) {
            return false;
        }
        if !self.students.apart_from(&self.teachers) || !self.students.apart_from(&self.courses)
            || !self.students.apart_from(&self.classrooms) || !self.teachers.apart_from(
            &self.courses,
        ) || !self.teachers.apart_from(&self.classrooms) || !self.courses.apart_from(
            &self.classrooms,
        ) {
            return false;
        }
        true
    }

    // -----------------------------------------------------------------------
    // Ids
    // -----------------------------------------------------------------------
    /// The id handed out last; 0 before the first.
    pub fn last_id(&self) -> (id: u64)
        ensures
            id == self@.last_id,
    {
        self.ids.last_id()
    }

    /// Hands out the next id: one above the last. The ids of all four kinds
    /// of record come from here.
    ///
    /// Fails with `IdUnavailable`, and hands out nothing, where the last id
    /// was the greatest `u64`, and only there.
    pub fn next_id(&mut self) -> (issued: Result<u64, StoreError>)
        requires
            old(self).wf(),
        ensures
            final(self).wf(),
            final(self).layout() == old(self).layout(),
            issued == (if old(self)@.last_id < u64::MAX {
                Ok::<u64, StoreError>(old(self)@.next_id())
            } else {
                Err::<u64, StoreError>(StoreError::IdUnavailable)
            }),
            final(self)@ == (if old(self)@.last_id < u64::MAX {
                old(self)@.issued()
            } else {
                old(self)@
            }),
    {
        proof {
            if self@.last_id < u64::MAX {
                self@.lemma_issued();
            }
        }
        self.ids.next_id()
    }

    // -----------------------------------------------------------------------
    // Students
    // -----------------------------------------------------------------------
    /// Writes `student` under its id.
    fn save_student(&mut self, student: &Student)
        requires
            old(self).wf(),
            student@.fits(),
            1 <= student.id <= old(self)@.last_id,
            student@.enrolled_courses.no_duplicates(),
            !old(self)@.teachers.contains_key(student.id),
            !old(self)@.courses.contains_key(student.id),
            !old(self)@.classrooms.contains_key(student.id),
        ensures
            final(self).wf(),
            final(self).layout() == old(self).layout(),
            final(self)@ == old(self)@.with_student(student@),
    {
        proof {
            self@.lemma_with_student(student@);
        }
        self.students.insert(student);
    }

    /// Adds a student: checks the payload, hands out an id, and stores the new
    /// student under it, with every list empty.
    ///
    /// Fails with `Validation` where the payload is not valid, whatever its
    /// size, else with `IdUnavailable` where the last id was the greatest
    /// `u64`; in every other case it succeeds. A failed add stores nothing
    /// and hands out no id.
    ///
    /// Where the payload is valid, the new student must fit in a record.
    pub fn add_student(&mut self, payload: StudentPayload) -> (result: Result<Student, StoreError>)
        requires
            old(self).wf(),
            payload@.is_valid() ==> StudentView::created(0, payload@).fits(),
        ensures
            final(self).wf(),
            final(self).layout() == old(self).layout(),
            final(self)@ == old(self)@.after_add_student(payload@),
            match result {
                Ok(student) => gives(old(self)@.added_student(payload@), student@),
                Err(error) => fails_with(old(self)@.added_student(payload@), error),
            },
    {
        if !payload.is_valid() {
            return Err(StoreError::Validation(RecordKind::Student));
        }
        let id = self.next_id()?;
        let student = Student::create(id, payload);
        proof {
            StudentView::lemma_created_size(id, 0, payload@);
        }
        self.save_student(&student);
        Ok(student)
    }

    /// Looks up the student under `id`.
    ///
    /// Fails with `NotFound` where there is none.
    pub fn get_student(&self, id: u64) -> (result: Result<Student, StoreError>)
        requires
            self.wf(),
        ensures
            match result {
                Ok(student) => gives(self@.find_student(id), student@),
                Err(error) => fails_with(self@.find_student(id), error),
            },
    {
        match self.students.get(id) {
            Some(student) => Ok(student),
            None => Err(StoreError::NotFound(RecordKind::Student, id)),
        }
    }

    /// Whether the student under `id`, if there is one, would fit in a record
    /// after an update with `payload`: what `update_student` asks of its
    /// caller.
    pub fn update_student_fits(&self, id: u64, payload: &StudentPayload) -> (fits: bool)
        requires
            self.wf(),
        ensures
            fits == (self@.updated_student(id, payload@) matches Ok(updated) ==> updated.fits()),
    {
        match self.students.get(id) {
            Some(existing) => existing.fits_updated(payload),
            None => true,
        }
    }

    /// Updates the student under `id` with `payload`, and returns the student
    /// as it then is.
    ///
    /// Fails with `NotFound` where there is none, and then creates none.
    ///
    /// The updated student must fit in a record.
    pub fn update_student(&mut self, id: u64, payload: StudentPayload) -> (result: Result<
        Student,
        StoreError,
    >)
        requires
            old(self).wf(),
            old(self)@.updated_student(id, payload@) matches Ok(updated) ==> updated.fits(),
        ensures
            final(self).wf(),
            final(self).layout() == old(self).layout(),
            final(self)@ == old(self)@.after_update_student(id, payload@),
            match result {
                Ok(student) => gives(old(self)@.updated_student(id, payload@), student@),
                Err(error) => fails_with(old(self)@.updated_student(id, payload@), error),
            },
    {
        match self.students.get(id) {
            Some(existing) => {
                let student = existing.update(payload);
                self.save_student(&student);
                Ok(student)
            },
            None => Err(StoreError::NotFound(RecordKind::Student, id)),
        }
    }

    /// Deletes the student under `id`. What refers to the student elsewhere
    /// stays as it is.
    ///
    /// Fails with `NotFound` where there is none.
    pub fn delete_student(&mut self, id: u64) -> (result: Result<(), StoreError>)
        requires
            old(self).wf(),
        ensures
            final(self).wf(),
            final(self).layout() == old(self).layout(),
            final(self)@ == old(self)@.after_delete_student(id),
            result == old(self)@.deleted_student(id),
    {
        proof {
            self@.lemma_without_student(id);
        }
        match self.students.remove(id) {
            Some(_) => Ok(()),
            None => Err(StoreError::NotFound(RecordKind::Student, id)),
        }
    }

    // -----------------------------------------------------------------------
    // Teachers
    // -----------------------------------------------------------------------
    /// Writes `teacher` under its id.
    fn save_teacher(&mut self, teacher: &Teacher)
        requires
            old(self).wf(),
            teacher@.fits(),
            1 <= teacher.id <= old(self)@.last_id,
            !old(self)@.students.contains_key(teacher.id),
            !old(self)@.courses.contains_key(teacher.id),
            !old(self)@.classrooms.contains_key(teacher.id),
        ensures
            final(self).wf(),
            final(self).layout() == old(self).layout(),
            final(self)@ == old(self)@.with_teacher(teacher@),
    {
        proof {
            self@.lemma_with_teacher(teacher@);
        }
        self.teachers.insert(teacher);
    }

    /// Adds a teacher: checks the payload, hands out an id, and stores the new
    /// teacher under it, with every list empty.
    ///
    /// Fails with `Validation` where the payload is not valid, whatever its
    /// size, else with `IdUnavailable` where the last id was the greatest
    /// `u64`; in every other case it succeeds. A failed add stores nothing
    /// and hands out no id.
    ///
    /// Where the payload is valid, the new teacher must fit in a record.
    pub fn add_teacher(&mut self, payload: TeacherPayload) -> (result: Result<Teacher, StoreError>)
        requires
            old(self).wf(),
            payload@.is_valid() ==> TeacherView::created(0, payload@).fits(),
        ensures
            final(self).wf(),
            final(self).layout() == old(self).layout(),
            final(self)@ == old(self)@.after_add_teacher(payload@),
            match result {
                Ok(teacher) => gives(old(self)@.added_teacher(payload@), teacher@),
                Err(error) => fails_with(old(self)@.added_teacher(payload@), error),
            },
    {
        if !payload.is_valid() {
            return Err(StoreError::Validation(RecordKind::Teacher));
        }
        let id = self.next_id()?;
        let teacher = Teacher::create(id, payload);
        proof {
            TeacherView::lemma_created_size(id, 0, payload@);
        }
        self.save_teacher(&teacher);
        Ok(teacher)
    }

    /// Looks up the teacher under `id`.
    ///
    /// Fails with `NotFound` where there is none.
    pub fn get_teacher(&self, id: u64) -> (result: Result<Teacher, StoreError>)
        requires
            self.wf(),
        ensures
            match result {
                Ok(teacher) => gives(self@.find_teacher(id), teacher@),
                Err(error) => fails_with(self@.find_teacher(id), error),
            },
    {
        match self.teachers.get(id) {
            Some(teacher) => Ok(teacher),
            None => Err(StoreError::NotFound(RecordKind::Teacher, id)),
        }
    }

    /// Whether the teacher under `id`, if there is one, would fit in a record
    /// after an update with `payload`: what `update_teacher` asks of its
    /// caller.
    pub fn update_teacher_fits(&self, id: u64, payload: &TeacherPayload) -> (fits: bool)
        requires
            self.wf(),
        ensures
            fits == (self@.updated_teacher(id, payload@) matches Ok(updated) ==> updated.fits()),
    {
        match self.teachers.get(id) {
            Some(existing) => existing.fits_updated(payload),
            None => true,
        }
    }

    /// Updates the teacher under `id` with `payload`, and returns the teacher
    /// as it then is.
    ///
    /// Fails with `NotFound` where there is none, and then creates none.
    ///
    /// The updated teacher must fit in a record.
    pub fn update_teacher(&mut self, id: u64, payload: TeacherPayload) -> (result: Result<
        Teacher,
        StoreError,
    >)
        requires
            old(self).wf(),
            old(self)@.updated_teacher(id, payload@) matches Ok(updated) ==> updated.fits(),
        ensures
            final(self).wf(),
            final(self).layout() == old(self).layout(),
            final(self)@ == old(self)@.after_update_teacher(id, payload@),
            match result {
                Ok(teacher) => gives(old(self)@.updated_teacher(id, payload@), teacher@),
                Err(error) => fails_with(old(self)@.updated_teacher(id, payload@), error),
            },
    {
        match self.teachers.get(id) {
            Some(existing) => {
                let teacher = existing.update(payload);
                self.save_teacher(&teacher);
                Ok(teacher)
            },
            None => Err(StoreError::NotFound(RecordKind::Teacher, id)),
        }
    }

    /// Deletes the teacher under `id`. What refers to the teacher elsewhere
    /// stays as it is.
    ///
    /// Fails with `NotFound` where there is none.
    pub fn delete_teacher(&mut self, id: u64) -> (result: Result<(), StoreError>)
        requires
            old(self).wf(),
        ensures
            final(self).wf(),
            final(self).layout() == old(self).layout(),
            final(self)@ == old(self)@.after_delete_teacher(id),
            result == old(self)@.deleted_teacher(id),
    {
        proof {
            self@.lemma_without_teacher(id);
        }
        match self.teachers.remove(id) {
            Some(_) => Ok(()),
            None => Err(StoreError::NotFound(RecordKind::Teacher, id)),
        }
    }

    // -----------------------------------------------------------------------
    // Courses
    // -----------------------------------------------------------------------
    /// Writes `course` under its id.
    fn save_course(&mut self, course: &Course)
        requires
            old(self).wf(),
            course@.fits(),
            1 <= course.id <= old(self)@.last_id,
            !old(self)@.students.contains_key(course.id),
            !old(self)@.teachers.contains_key(course.id),
            !old(self)@.classrooms.contains_key(course.id),
        ensures
            final(self).wf(),
            final(self).layout() == old(self).layout(),
            final(self)@ == old(self)@.with_course(course@),
    {
        proof {
            self@.lemma_with_course(course@);
        }
        self.courses.insert(course);
    }

    /// Adds a course: checks the payload, hands out an id, and stores the new
    /// course under it, with every list empty.
    ///
    /// Fails with `Validation` where the payload is not valid, whatever its
    /// size, else with `IdUnavailable` where the last id was the greatest
    /// `u64`; in every other case it succeeds. A failed add stores nothing
    /// and hands out no id.
    ///
    /// Where the payload is valid, the new course must fit in a record.
    pub fn add_course(&mut self, payload: CoursePayload) -> (result: Result<Course, StoreError>)
        requires
            old(self).wf(),
            payload@.is_valid() ==> CourseView::created(0, payload@).fits(),
        ensures
            final(self).wf(),
            final(self).layout() == old(self).layout(),
            final(self)@ == old(self)@.after_add_course(payload@),
            match result {
                Ok(course) => gives(old(self)@.added_course(payload@), course@),
                Err(error) => fails_with(old(self)@.added_course(payload@), error),
            },
    {
        if !payload.is_valid() {
            return Err(StoreError::Validation(RecordKind::Course));
        }
        let id = self.next_id()?;
        let course = Course::create(id, payload);
        proof {
            CourseView::lemma_created_size(id, 0, payload@);
        }
        self.save_course(&course);
        Ok(course)
    }

    /// Looks up the course under `id`.
    ///
    /// Fails with `NotFound` where there is none.
    pub fn get_course(&self, id: u64) -> (result: Result<Course, StoreError>)
        requires
            self.wf(),
        ensures
            match result {
                Ok(course) => gives(self@.find_course(id), course@),
                Err(error) => fails_with(self@.find_course(id), error),
            },
    {
        match self.courses.get(id) {
            Some(course) => Ok(course),
            None => Err(StoreError::NotFound(RecordKind::Course, id)),
        }
    }

    /// Whether the course under `id`, if there is one, would fit in a record
    /// after an update with `payload`: what `update_course` asks of its caller.
    pub fn update_course_fits(&self, id: u64, payload: &CoursePayload) -> (fits: bool)
        requires
            self.wf(),
        ensures
            fits == (self@.updated_course(id, payload@) matches Ok(updated) ==> updated.fits()),
    {
        match self.courses.get(id) {
            Some(existing) => existing.fits_updated(payload),
            None => true,
        }
    }

    /// Updates the course under `id` with `payload`, and returns the course as
    /// it then is.
    ///
    /// Fails with `NotFound` where there is none, and then creates none.
    ///
    /// The updated course must fit in a record.
    pub fn update_course(&mut self, id: u64, payload: CoursePayload) -> (result: Result<
        Course,
        StoreError,
    >)
        requires
            old(self).wf(),
            old(self)@.updated_course(id, payload@) matches Ok(updated) ==> updated.fits(),
        ensures
            final(self).wf(),
            final(self).layout() == old(self).layout(),
            final(self)@ == old(self)@.after_update_course(id, payload@),
            match result {
                Ok(course) => gives(old(self)@.updated_course(id, payload@), course@),
                Err(error) => fails_with(old(self)@.updated_course(id, payload@), error),
            },
    {
        match self.courses.get(id) {
            Some(existing) => {
                let course = existing.update(payload);
                self.save_course(&course);
                Ok(course)
            },
            None => Err(StoreError::NotFound(RecordKind::Course, id)),
        }
    }

    /// Deletes the course under `id`. What refers to the course elsewhere stays
    /// as it is.
    ///
    /// Fails with `NotFound` where there is none.
    pub fn delete_course(&mut self, id: u64) -> (result: Result<(), StoreError>)
        requires
            old(self).wf(),
        ensures
            final(self).wf(),
            final(self).layout() == old(self).layout(),
            final(self)@ == old(self)@.after_delete_course(id),
            result == old(self)@.deleted_course(id),
    {
        proof {
            self@.lemma_without_course(id);
        }
        match self.courses.remove(id) {
            Some(_) => Ok(()),
            None => Err(StoreError::NotFound(RecordKind::Course, id)),
        }
    }

    // -----------------------------------------------------------------------
    // Classrooms
    // -----------------------------------------------------------------------
    /// Writes `classroom` under its id.
    fn save_classroom(&mut self, classroom: &Classroom)
        requires
            old(self).wf(),
            classroom@.fits(),
            1 <= classroom.id <= old(self)@.last_id,
            !old(self)@.students.contains_key(classroom.id),
            !old(self)@.teachers.contains_key(classroom.id),
            !old(self)@.courses.contains_key(classroom.id),
        ensures
            final(self).wf(),
            final(self).layout() == old(self).layout(),
            final(self)@ == old(self)@.with_classroom(classroom@),
    {
        proof {
            self@.lemma_with_classroom(classroom@);
        }
        self.classrooms.insert(classroom);
    }

    /// Adds a classroom: checks the payload, hands out an id, and stores the new
    /// classroom under it, with every list empty.
    ///
    /// Fails with `Validation` where the payload is not valid, whatever its
    /// size, else with `IdUnavailable` where the last id was the greatest
    /// `u64`; in every other case it succeeds. A failed add stores nothing
    /// and hands out no id.
    ///
    /// Where the payload is valid, the new classroom must fit in a record.
    pub fn add_classroom(&mut self, payload: ClassroomPayload) -> (result: Result<
        Classroom,
        StoreError,
    >)
        requires
            old(self).wf(),
            payload@.is_valid() ==> ClassroomView::created(0, payload@).fits(),
        ensures
            final(self).wf(),
            final(self).layout() == old(self).layout(),
            final(self)@ == old(self)@.after_add_classroom(payload@),
            match result {
                Ok(classroom) => gives(old(self)@.added_classroom(payload@), classroom@),
                Err(error) => fails_with(old(self)@.added_classroom(payload@), error),
            },
    {
        if !payload.is_valid() {
            return Err(StoreError::Validation(RecordKind::Classroom));
        }
        let id = self.next_id()?;
        let classroom = Classroom::create(id, payload);
        proof {
            ClassroomView::lemma_created_size(id, 0, payload@);
        }
        self.save_classroom(&classroom);
        Ok(classroom)
    }

    /// Looks up the classroom under `id`.
    ///
    /// Fails with `NotFound` where there is none.
    pub fn get_classroom(&self, id: u64) -> (result: Result<Classroom, StoreError>)
        requires
            self.wf(),
        ensures
            match result {
                Ok(classroom) => gives(self@.find_classroom(id), classroom@),
                Err(error) => fails_with(self@.find_classroom(id), error),
            },
    {
        match self.classrooms.get(id) {
            Some(classroom) => Ok(classroom),
            None => Err(StoreError::NotFound(RecordKind::Classroom, id)),
        }
    }

    /// Whether the classroom under `id`, if there is one, would fit in a
    /// record after an update with `payload`: what `update_classroom` asks of
    /// its caller.
    pub fn update_classroom_fits(&self, id: u64, payload: &ClassroomPayload) -> (fits: bool)
        requires
            self.wf(),
        ensures
            fits == (self@.updated_classroom(id, payload@) matches Ok(updated) ==> updated.fits()),
    {
        match self.classrooms.get(id) {
            Some(existing) => existing.fits_updated(payload),
            None => true,
        }
    }

    /// Updates the classroom under `id` with `payload`, and returns the
    /// classroom as it then is.
    ///
    /// Fails with `NotFound` where there is none, and then creates none.
    ///
    /// The updated classroom must fit in a record.
    pub fn update_classroom(&mut self, id: u64, payload: ClassroomPayload) -> (result: Result<
        Classroom,
        StoreError,
    >)
        requires
            old(self).wf(),
            old(self)@.updated_classroom(id, payload@) matches Ok(updated) ==> updated.fits(),
        ensures
            final(self).wf(),
            final(self).layout() == old(self).layout(),
            final(self)@ == old(self)@.after_update_classroom(id, payload@),
            match result {
                Ok(classroom) => gives(old(self)@.updated_classroom(id, payload@), classroom@),
                Err(error) => fails_with(old(self)@.updated_classroom(id, payload@), error),
            },
    {
        match self.classrooms.get(id) {
            Some(existing) => {
                let classroom = existing.update(payload);
                self.save_classroom(&classroom);
                Ok(classroom)
            },
            None => Err(StoreError::NotFound(RecordKind::Classroom, id)),
        }
    }

    /// Deletes the classroom under `id`. What refers to the classroom
    /// elsewhere stays as it is.
    ///
    /// Fails with `NotFound` where there is none.
    pub fn delete_classroom(&mut self, id: u64) -> (result: Result<(), StoreError>)
        requires
            old(self).wf(),
        ensures
            final(self).wf(),
            final(self).layout() == old(self).layout(),
            final(self)@ == old(self)@.after_delete_classroom(id),
            result == old(self)@.deleted_classroom(id),
    {
        proof {
            self@.lemma_without_classroom(id);
        }
        match self.classrooms.remove(id) {
            Some(_) => Ok(()),
            None => Err(StoreError::NotFound(RecordKind::Classroom, id)),
        }
    }

    // -----------------------------------------------------------------------
    // Operations across kinds
    // -----------------------------------------------------------------------
    /// Whether the student would fit in a record with the course added, where
    /// the enrolment is to take place: what `enroll_student_in_course` asks of
    /// its caller.
    pub fn enrollment_fits(&self, student_id: u64, course_id: u64) -> (fits: bool)
        requires
            self.wf(),
        ensures
            fits == (self@.enrollment(student_id, course_id) is Ok
                ==> self@.students[student_id].enrolled(course_id).fits()),
    {
        match self.students.get(student_id) {
            Some(student) => !self.courses.contains(course_id) || student.is_enrolled(course_id)
                || student.fits_enrolled(course_id),
            None => true,
        }
    }

    /// Enrols a student in a course: adds the course's id at the end of the
    /// student's courses. The course itself is only looked up, not changed.
    ///
    /// Fails with `NotFound` where the student is missing, else with
    /// `NotFound` where the course is missing, else with `AlreadyEnrolled`
    /// where the student is enrolled in the course already.
    ///
    /// The student with the added course must fit in a record.
    pub fn enroll_student_in_course(&mut self, student_id: u64, course_id: u64) -> (result: Result<
        (),
        StoreError,
    >)
        requires
            old(self).wf(),
            old(self)@.enrollment(student_id, course_id) is Ok
                ==> old(self)@.students[student_id].enrolled(course_id).fits(),
        ensures
            final(self).wf(),
            final(self).layout() == old(self).layout(),
            final(self)@ == old(self)@.after_enrollment(student_id, course_id),
            result == old(self)@.enrollment(student_id, course_id),
    {
        let student = match self.students.get(student_id) {
            Some(student) => student,
            None => { return Err(StoreError::NotFound(RecordKind::Student, student_id)); },
        };
        if !self.courses.contains(course_id) {
            return Err(StoreError::NotFound(RecordKind::Course, course_id));
        }
        if student.is_enrolled(course_id) {
            return Err(StoreError::AlreadyEnrolled);
        }
        let student = student.enroll(course_id);
        self.save_student(&student);
        Ok(())
    }

    /// Whether the teacher would fit in a record with the course added, where
    /// the assignment is to take place: what `assign_teacher_to_course` asks
    /// of its caller.
    pub fn assignment_fits(&self, teacher_id: u64, course_id: u64) -> (fits: bool)
        requires
            self.wf(),
        ensures
            fits == (self@.assignment(teacher_id, course_id) is Ok
                ==> self@.teachers[teacher_id].assigned(course_id).fits()),
    {
        match self.teachers.get(teacher_id) {
            Some(teacher) => match self.courses.get(course_id) {
                Some(course) => course.teacher_id == teacher_id || teacher.fits_assigned(
                    course_id,
                ),
                None => true,
            },
            None => true,
        }
    }

    /// Assigns a teacher to a course: makes the teacher the course's teacher
    /// and adds the course's id at the end of the teacher's courses.
    ///
    /// Fails with `NotFound` where the teacher is missing, else with
    /// `NotFound` where the course is missing, else with `AlreadyAssigned`
    /// where the teacher is the course's teacher already.
    ///
    /// The teacher with the added course must fit in a record.
    pub fn assign_teacher_to_course(&mut self, teacher_id: u64, course_id: u64) -> (result: Result<
        (),
        StoreError,
    >)
        requires
            old(self).wf(),
            old(self)@.assignment(teacher_id, course_id) is Ok
                ==> old(self)@.teachers[teacher_id].assigned(course_id).fits(),
        ensures
            final(self).wf(),
            final(self).layout() == old(self).layout(),
            final(self)@ == old(self)@.after_assignment(teacher_id, course_id),
            result == old(self)@.assignment(teacher_id, course_id),
    {
        let teacher = match self.teachers.get(teacher_id) {
            Some(teacher) => teacher,
            None => { return Err(StoreError::NotFound(RecordKind::Teacher, teacher_id)); },
        };
        let course = match self.courses.get(course_id) {
            Some(course) => course,
            None => { return Err(StoreError::NotFound(RecordKind::Course, course_id)); },
        };
        if course.teacher_id == teacher_id {
            return Err(StoreError::AlreadyAssigned);
        }
        proof {
            course@.lemma_taught_by_size(teacher_id);
        }
        let course = course.teach(teacher_id);
        self.save_course(&course);
        let teacher = teacher.assign(course_id);
        self.save_teacher(&teacher);
        Ok(())
    }

    /// Whether the classroom under `classroom_id`, if there is one, would fit
    /// in a record with `equipment`: what `update_classroom_equipment` asks of
    /// its caller.
    pub fn equipment_fits(&self, classroom_id: u64, equipment: &Vec<String>) -> (fits: bool)
        requires
            self.wf(),
        ensures
            fits == (self@.classrooms.contains_key(classroom_id)
                ==> self@.classrooms[classroom_id].equipped(texts_view(equipment@)).fits()),
    {
        match self.classrooms.get(classroom_id) {
            Some(classroom) => classroom.fits_equipped(equipment),
            None => true,
        }
    }

    /// Replaces a classroom's equipment with `equipment`.
    ///
    /// Fails with `NotFound` where the classroom is missing.
    ///
    /// The classroom with the new equipment must fit in a record.
    pub fn update_classroom_equipment(
        &mut self,
        classroom_id: u64,
        equipment: Vec<String>,
    ) -> (result: Result<(), StoreError>)
        requires
            old(self).wf(),
            old(self)@.classrooms.contains_key(classroom_id)
                ==> old(self)@.classrooms[classroom_id].equipped(texts_view(equipment@)).fits(),
        ensures
            final(self).wf(),
            final(self).layout() == old(self).layout(),
            final(self)@ == old(self)@.after_reequipment(classroom_id, texts_view(equipment@)),
            result == old(self)@.reequipment(classroom_id),
    {
        let classroom = match self.classrooms.get(classroom_id) {
            Some(classroom) => classroom,
            None => { return Err(StoreError::NotFound(RecordKind::Classroom, classroom_id)); },
        };
        let classroom = classroom.equip(equipment);
        self.save_classroom(&classroom);
        Ok(())
    }
}

} // verus!
