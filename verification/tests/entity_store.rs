use ic_stable_structures::DefaultMemoryImpl;
use school_management_backend::classroom::{Classroom, ClassroomView};
use school_management_backend::course::{Course, CoursePayload, CourseView};
use school_management_backend::entity_store::EntityStore;
use school_management_backend::storage::{Regions, StableMemory};

fn course(id: u64, name: &str) -> Course {
    Course::create(
        id,
        CoursePayload {
            name: name.to_string(),
            description: "-".to_string(),
            teacher_id: 0,
        },
    )
}

fn courses(regions: &mut Regions) -> EntityStore<CourseView, Course> {
    EntityStore::new(regions.region(3))
}

#[test]
fn a_new_entity_store_holds_nothing() {
    let memory = StableMemory::of(DefaultMemoryImpl::default());
    let mut regions = Regions::over(memory).expect("regions");
    let store = courses(&mut regions);
    assert_eq!(store.get(1), None);
    assert!(!store.contains(1));
    assert!(store.ids().is_empty());
    assert!(store.is_sound());
    assert!(store.ids_within(0));
}

#[test]
fn insert_stores_the_record_under_its_id() {
    let memory = StableMemory::of(DefaultMemoryImpl::default());
    let mut regions = Regions::over(memory).expect("regions");
    let mut store = courses(&mut regions);
    store.insert(&course(4, "Math"));
    assert_eq!(store.get(4), Some(course(4, "Math")));
    assert!(store.contains(4));
    assert_eq!(store.get(3), None);
    assert!(!store.contains(5));
}

#[test]
fn insert_overwrites_the_record_under_the_same_id() {
    let memory = StableMemory::of(DefaultMemoryImpl::default());
    let mut regions = Regions::over(memory).expect("regions");
    let mut store = courses(&mut regions);
    store.insert(&course(4, "Math"));
    store.insert(&course(5, "Art"));
    store.insert(&course(4, "Music"));
    assert_eq!(store.get(4), Some(course(4, "Music")));
    assert_eq!(store.get(5), Some(course(5, "Art")));
    assert_eq!(store.ids(), vec![4, 5]);
}

#[test]
fn remove_says_whether_there_was_a_record() {
    let memory = StableMemory::of(DefaultMemoryImpl::default());
    let mut regions = Regions::over(memory).expect("regions");
    let mut store = courses(&mut regions);
    store.insert(&course(4, "Math"));
    store.insert(&course(5, "Art"));
    assert_eq!(store.remove(6), None);
    assert_eq!(store.remove(4), Some(course(4, "Math")));
    assert_eq!(store.remove(4), None);
    assert_eq!(store.get(4), None);
    assert_eq!(store.get(5), Some(course(5, "Art")));
    assert_eq!(store.ids(), vec![5]);
}

#[test]
fn ids_lists_every_id_in_use() {
    let memory = StableMemory::of(DefaultMemoryImpl::default());
    let mut regions = Regions::over(memory).expect("regions");
    let mut store = courses(&mut regions);
    for id in [9, 2, 7, 300, 1] {
        store.insert(&course(id, "c"));
    }
    store.remove(7);
    assert_eq!(store.ids(), vec![1, 2, 9, 300]);
    assert!(store.ids_within(300));
    assert!(!store.ids_within(299));
    store.insert(&course(0, "c"));
    assert!(!store.ids_within(300));
}

#[test]
fn apart_from_finds_an_id_in_use_in_both_stores() {
    let memory = StableMemory::of(DefaultMemoryImpl::default());
    let mut regions = Regions::over(memory).expect("regions");
    let mut courses = courses(&mut regions);
    let mut classrooms: EntityStore<ClassroomView, Classroom> =
        EntityStore::new(regions.region(4));
    let classroom = |id: u64| Classroom {
        id,
        name: "Lab".to_string(),
        location: "B1".to_string(),
        capacity: 3,
        current_course_id: 0,
        equipment: vec![],
    };
    assert!(courses.apart_from(&classrooms));
    courses.insert(&course(1, "c"));
    courses.insert(&course(3, "c"));
    classrooms.insert(&classroom(2));
    assert!(courses.apart_from(&classrooms));
    assert!(classrooms.apart_from(&courses));
    classrooms.insert(&classroom(3));
    assert!(!courses.apart_from(&classrooms));
    assert!(!classrooms.apart_from(&courses));
    assert_eq!(classrooms.get(3), Some(classroom(3)));
    assert_eq!(courses.get(3), Some(course(3, "c")));
}

#[test]
fn stores_in_two_regions_do_not_mix() {
    let memory = StableMemory::of(DefaultMemoryImpl::default());
    let mut regions = Regions::over(memory).expect("regions");
    let mut first = courses(&mut regions);
    let mut second: EntityStore<CourseView, Course> = EntityStore::new(regions.region(9));
    first.insert(&course(1, "first"));
    second.insert(&course(1, "second"));
    assert_eq!(first.get(1), Some(course(1, "first")));
    assert_eq!(second.get(1), Some(course(1, "second")));
}

#[test]
fn open_reads_back_the_store_of_a_region() {
    let memory = DefaultMemoryImpl::default();
    let mut regions = Regions::over(StableMemory::of(memory.clone())).expect("regions");
    let mut store = courses(&mut regions);
    store.insert(&course(1, "Math"));
    store.insert(&course(2, "Art"));
    store.remove(1);
    drop(store);
    drop(regions);
    let mut regions = Regions::over(StableMemory::of(memory)).expect("regions");
    let store: EntityStore<CourseView, Course> =
        EntityStore::open(regions.region(3)).expect("a sound store");
    assert_eq!(store.ids(), vec![2]);
    assert_eq!(store.get(2), Some(course(2, "Art")));
    assert!(store.is_sound());
}

#[test]
fn open_refuses_a_store_of_another_kind_of_record() {
    let memory = DefaultMemoryImpl::default();
    let mut regions = Regions::over(StableMemory::of(memory.clone())).expect("regions");
    let mut store = courses(&mut regions);
    store.insert(&course(1, "Math"));
    drop(store);
    drop(regions);
    let mut regions = Regions::over(StableMemory::of(memory)).expect("regions");
    let as_classrooms: Option<EntityStore<ClassroomView, Classroom>> =
        EntityStore::open(regions.region(3));
    assert!(as_classrooms.is_none());
    let empty: Option<EntityStore<ClassroomView, Classroom>> =
        EntityStore::open(regions.region(4));
    assert!(empty.expect("a sound store").ids().is_empty());
}

#[test]
fn checked_hands_a_sound_entity_store_back() {
    let memory = StableMemory::of(DefaultMemoryImpl::default());
    let mut regions = Regions::over(memory).expect("regions");
    let mut store = courses(&mut regions);
    store.insert(&course(1, "Math"));
    let store = EntityStore::checked(store).expect("a sound store");
    assert_eq!(store.get(1), Some(course(1, "Math")));
}
