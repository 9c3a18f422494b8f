use ic_stable_structures::cell::ValueError;
use ic_stable_structures::DefaultMemoryImpl;
use school_management_backend::classroom::ClassroomPayload;
use school_management_backend::course::CoursePayload;
use school_management_backend::error::{RecordKind, StoreError};
use school_management_backend::id_allocator::{id_after_write, IdAllocator};
use school_management_backend::school::School;
use school_management_backend::storage::{Regions, StableMemory};
use school_management_backend::student::StudentPayload;
use school_management_backend::teacher::TeacherPayload;

fn student() -> StudentPayload {
    StudentPayload {
        name: "Ann".to_string(),
        email: "a@x.com".to_string(),
        ..StudentPayload::default()
    }
}

fn teacher() -> TeacherPayload {
    TeacherPayload {
        name: "Tom".to_string(),
        email: "t@x.com".to_string(),
        ..TeacherPayload::default()
    }
}

fn course() -> CoursePayload {
    CoursePayload {
        name: "Math".to_string(),
        description: "Algebra".to_string(),
        teacher_id: 0,
    }
}

fn classroom() -> ClassroomPayload {
    ClassroomPayload {
        name: "Lab".to_string(),
        location: "B1".to_string(),
        capacity: 30,
        current_course_id: 0,
    }
}

#[test]
fn a_new_store_has_handed_out_no_id() {
    let school = School::new().expect("a new store");
    assert_eq!(school.last_id(), 0);
    assert!(school.is_sound());
}

#[test]
fn next_id_counts_from_one() {
    let mut school = School::new().expect("a new store");
    assert_eq!(school.next_id(), Ok(1));
    assert_eq!(school.next_id(), Ok(2));
    assert_eq!(school.next_id(), Ok(3));
    assert_eq!(school.last_id(), 3);
}

#[test]
fn id_allocator_counts_from_one_and_remembers_the_last() {
    let memory = StableMemory::of(DefaultMemoryImpl::default());
    let mut regions = Regions::over(memory).expect("regions");
    let mut ids = IdAllocator::new(regions.region(0)).expect("a new counter");
    assert_eq!(ids.last_id(), 0);
    assert_eq!(ids.next_id(), Ok(1));
    assert_eq!(ids.last_id(), 1);
    assert_eq!(ids.next_id(), Ok(2));
    assert_eq!(ids.last_id(), 2);
}

#[test]
fn id_allocator_is_read_back_from_its_memory() {
    let memory = DefaultMemoryImpl::default();
    let mut regions = Regions::over(StableMemory::of(memory.clone())).expect("regions");
    let mut ids = IdAllocator::new(regions.region(7)).expect("a new counter");
    ids.next_id().unwrap();
    ids.next_id().unwrap();
    drop(ids);
    drop(regions);
    let mut regions = Regions::over(StableMemory::of(memory.clone())).expect("regions");
    let mut again = IdAllocator::open(regions.region(7)).expect("the counter");
    assert_eq!(again.last_id(), 2);
    assert_eq!(again.next_id(), Ok(3));
    let other = IdAllocator::open(regions.region(8)).expect("a counter");
    assert_eq!(other.last_id(), 0);
    drop(again);
    drop(other);
    drop(regions);
    let mut regions = Regions::over(StableMemory::of(memory)).expect("regions");
    let fresh = IdAllocator::new(regions.region(7)).expect("a new counter");
    assert_eq!(fresh.last_id(), 0);
}

#[test]
fn id_after_write_follows_the_answer_of_the_cell() {
    assert_eq!(id_after_write(0, Ok(0)), Ok(1));
    assert_eq!(id_after_write(41, Ok(41)), Ok(42));
    assert_eq!(id_after_write(u64::MAX - 1, Ok(0)), Ok(u64::MAX));
    assert_eq!(
        id_after_write(41, Err(ValueError::ValueTooLarge { value_size: 8 })),
        Err(StoreError::IdUnavailable)
    );
}

#[test]
fn the_four_kinds_share_one_counter() {
    let mut school = School::new().expect("a new store");
    assert_eq!(school.add_student(student()).unwrap().id, 1);
    assert_eq!(school.add_teacher(teacher()).unwrap().id, 2);
    assert_eq!(school.add_course(course()).unwrap().id, 3);
    assert_eq!(school.add_classroom(classroom()).unwrap().id, 4);
    assert_eq!(school.add_student(student()).unwrap().id, 5);
    assert_eq!(school.last_id(), 5);
    assert!(school.is_sound());
}

#[test]
fn an_id_names_a_record_of_one_kind_only() {
    let mut school = School::new().expect("a new store");
    school.add_student(student()).unwrap();
    school.add_teacher(teacher()).unwrap();
    assert_eq!(
        school.get_teacher(1),
        Err(StoreError::NotFound(RecordKind::Teacher, 1))
    );
    assert_eq!(
        school.get_student(2),
        Err(StoreError::NotFound(RecordKind::Student, 2))
    );
    assert_eq!(
        school.get_course(1),
        Err(StoreError::NotFound(RecordKind::Course, 1))
    );
    assert_eq!(
        school.get_classroom(2),
        Err(StoreError::NotFound(RecordKind::Classroom, 2))
    );
}

#[test]
fn a_deleted_id_is_not_handed_out_again() {
    let mut school = School::new().expect("a new store");
    school.add_student(student()).unwrap();
    school.add_student(student()).unwrap();
    assert_eq!(school.add_student(student()).unwrap().id, 3);
    school.delete_student(3).unwrap();
    assert_eq!(school.add_student(student()).unwrap().id, 4);
    assert_eq!(school.add_teacher(teacher()).unwrap().id, 5);
    assert_eq!(
        school.get_student(3),
        Err(StoreError::NotFound(RecordKind::Student, 3))
    );
}

#[test]
fn deleting_every_record_does_not_reset_the_counter() {
    let mut school = School::new().expect("a new store");
    school.add_course(course()).unwrap();
    school.add_classroom(classroom()).unwrap();
    school.delete_course(1).unwrap();
    school.delete_classroom(2).unwrap();
    assert_eq!(school.last_id(), 2);
    assert_eq!(school.add_course(course()).unwrap().id, 3);
}

#[test]
fn id_unavailable_has_its_own_message() {
    assert_eq!(
        StoreError::IdUnavailable.message(),
        "Cannot allocate a new ID"
    );
}

#[test]
fn regions_hand_each_region_out_once() {
    let memory = StableMemory::of(DefaultMemoryImpl::default());
    let mut regions = Regions::over(memory).expect("regions");
    assert!(regions.is_free(0));
    assert!(regions.is_free(254));
    assert!(School::regions_are_free(&regions));
    let _counter = regions.region(3);
    assert!(!regions.is_free(3));
    assert!(regions.is_free(2));
    assert!(regions.is_free(4));
    assert!(!School::regions_are_free(&regions));
    let _other = regions.region(200);
    assert!(!regions.is_free(200));
    assert!(!regions.is_free(3));
}

#[test]
fn a_store_takes_the_regions_zero_to_four() {
    let memory = StableMemory::of(DefaultMemoryImpl::default());
    let mut regions = Regions::over(memory).expect("regions");
    let _school = School::new_in(&mut regions).expect("a new store");
    for region in 0..5 {
        assert!(!regions.is_free(region));
    }
    assert!(regions.is_free(5));
    assert!(!School::regions_are_free(&regions));
}
