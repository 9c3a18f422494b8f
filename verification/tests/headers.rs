use ic_stable_structures::memory_manager::{MemoryId, MemoryManager, VirtualMemory};
use ic_stable_structures::storable::Blob;
use ic_stable_structures::{Cell, DefaultMemoryImpl, Memory, StableBTreeMap};
use school_management_backend::course::{Course, CourseView};
use school_management_backend::entity_store::EntityStore;
use school_management_backend::error::{RecordKind, StoreError};
use school_management_backend::headers::{
    cell_head_is_fit, has_at, manager_head_is_fit, map_head_is_fit,
};
use school_management_backend::id_allocator::IdAllocator;
use school_management_backend::school::School;
use school_management_backend::storage::{Regions, StableMemory};
use school_management_backend::student::StudentPayload;

fn map_head(version: u8, key_size: u8, value_size: [u8; 4], allocator: &[u8]) -> Vec<u8> {
    let mut head = vec![0u8; 56];
    head[..3].copy_from_slice(b"BTR");
    head[3] = version;
    head[4] = key_size;
    head[8..12].copy_from_slice(&value_size);
    head[52..56].copy_from_slice(allocator);
    head
}

#[test]
fn has_at_looks_at_the_bytes_at_the_position() {
    let bytes = vec![1, 2, 3, 4];
    assert!(has_at(&bytes, 0, &vec![]));
    assert!(has_at(&bytes, 4, &vec![]));
    assert!(!has_at(&bytes, 5, &vec![]));
    assert!(has_at(&bytes, 0, &vec![1, 2]));
    assert!(has_at(&bytes, 1, &vec![2, 3, 4]));
    assert!(!has_at(&bytes, 1, &vec![2, 4]));
    assert!(!has_at(&bytes, 2, &vec![3, 4, 5]));
    assert!(!has_at(&bytes, usize::MAX, &vec![1]));
}

#[test]
fn a_manager_head_is_fit_but_for_another_version() {
    assert!(manager_head_is_fit(&vec![]));
    assert!(manager_head_is_fit(&vec![0, 0, 0, 0]));
    assert!(manager_head_is_fit(&b"MGR\x01".to_vec()));
    assert!(manager_head_is_fit(&b"MGX\x02".to_vec()));
    assert!(!manager_head_is_fit(&b"MGR\x02".to_vec()));
    assert!(!manager_head_is_fit(&b"MGR\x00".to_vec()));
    assert!(!manager_head_is_fit(&b"MGR".to_vec()));
}

#[test]
fn a_map_head_is_fit_where_it_is_of_a_map_of_records() {
    assert!(map_head_is_fit(&vec![]));
    assert!(map_head_is_fit(&vec![0; 56]));
    assert!(map_head_is_fit(&map_head(1, 8, [0, 8, 0, 0], b"BTA\x01")));
    assert!(!map_head_is_fit(&map_head(2, 8, [0, 8, 0, 0], b"BTA\x01")));
    assert!(!map_head_is_fit(&map_head(1, 4, [0, 8, 0, 0], b"BTA\x01")));
    assert!(!map_head_is_fit(&map_head(1, 8, [0, 16, 0, 0], b"BTA\x01")));
    assert!(!map_head_is_fit(&map_head(1, 8, [8, 0, 0, 0], b"BTA\x01")));
    assert!(!map_head_is_fit(&map_head(1, 8, [0, 8, 0, 0], b"BTA\x02")));
    assert!(!map_head_is_fit(&map_head(1, 8, [0, 8, 0, 0], b"BTX\x01")));
    assert!(!map_head_is_fit(&map_head(1, 8, [0, 8, 0, 0], b"BTA\x01")[..55].to_vec()));
}

#[test]
fn a_cell_head_is_fit_where_its_value_is_of_eight_bytes() {
    assert!(cell_head_is_fit(&vec![]));
    assert!(cell_head_is_fit(&vec![0; 8]));
    assert!(cell_head_is_fit(&b"SCL\x01\x08\x00\x00\x00".to_vec()));
    assert!(cell_head_is_fit(&b"SCL\x02\x04\x00\x00\x00".to_vec()));
    assert!(!cell_head_is_fit(&b"SCL\x01\x04\x00\x00\x00".to_vec()));
    assert!(!cell_head_is_fit(&b"SCL\x01\x08\x01\x00\x00".to_vec()));
    assert!(!cell_head_is_fit(&b"SCL\x01\x08".to_vec()));
}

#[test]
fn regions_over_a_manager_of_another_version_are_refused() {
    let memory = DefaultMemoryImpl::default();
    memory.grow(1);
    memory.write(0, b"MGR\x02");
    assert!(Regions::over(StableMemory::of(memory)).is_none());
}

#[test]
fn regions_over_a_memory_that_holds_something_else_are_made_anew() {
    let memory = DefaultMemoryImpl::default();
    memory.grow(1);
    memory.write(0, b"hello");
    let mut regions = Regions::over(StableMemory::of(memory)).expect("regions");
    let school = School::new_in(&mut regions).expect("a new store");
    assert_eq!(school.last_id(), 0);
}

#[test]
fn a_map_made_for_other_values_is_refused() {
    let memory = DefaultMemoryImpl::default();
    let manager = MemoryManager::init(memory.clone());
    let mut small: StableBTreeMap<u64, u64, VirtualMemory<DefaultMemoryImpl>> =
        StableBTreeMap::new(manager.get(MemoryId::new(3)));
    small.insert(1, 2);
    let mut large: StableBTreeMap<u64, Blob<4096>, VirtualMemory<DefaultMemoryImpl>> =
        StableBTreeMap::new(manager.get(MemoryId::new(4)));
    large.insert(1, Blob::try_from(&[7u8; 3000][..]).unwrap());
    drop((small, large, manager));

    let mut regions = Regions::over(StableMemory::of(memory.clone())).expect("regions");
    let opened: Option<EntityStore<CourseView, Course>> = EntityStore::open(regions.region(3));
    assert!(opened.is_none());
    let opened: Option<EntityStore<CourseView, Course>> = EntityStore::open(regions.region(4));
    assert!(opened.is_none());
    drop(regions);

    let mut regions = Regions::over(StableMemory::of(memory)).expect("regions");
    assert!(School::open_in(&mut regions).is_none());
}

#[test]
fn a_map_of_another_version_is_refused() {
    let memory = DefaultMemoryImpl::default();
    let manager = MemoryManager::init(memory.clone());
    let region = manager.get(MemoryId::new(1));
    region.grow(1);
    region.write(0, &map_head(2, 8, [0, 8, 0, 0], b"BTA\x01"));
    drop((region, manager));
    let mut regions = Regions::over(StableMemory::of(memory)).expect("regions");
    assert!(School::open_in(&mut regions).is_none());
}

#[test]
fn a_cell_with_another_value_is_refused() {
    let memory = DefaultMemoryImpl::default();
    let manager = MemoryManager::init(memory.clone());
    Cell::new(manager.get(MemoryId::new(0)), 7u32).expect("a cell");
    let region = manager.get(MemoryId::new(5));
    region.grow(1);
    region.write(0, b"SCL\x02\x08\x00\x00\x00");
    drop((region, manager));

    let mut regions = Regions::over(StableMemory::of(memory.clone())).expect("regions");
    assert!(IdAllocator::open(regions.region(0)).is_none());
    assert!(IdAllocator::open(regions.region(5)).is_none());
    drop(regions);

    let mut regions = Regions::over(StableMemory::of(memory)).expect("regions");
    assert!(School::open_in(&mut regions).is_none());
}

#[test]
fn a_payload_that_is_not_valid_is_refused_whatever_its_size() {
    let mut school = School::new().expect("a new store");
    let payload = StudentPayload {
        name: String::new(),
        address: "a".repeat(5000),
        ..StudentPayload::default()
    };
    assert!(!payload.fits());
    assert_eq!(
        school.add_student(payload),
        Err(StoreError::Validation(RecordKind::Student))
    );
    assert_eq!(school.last_id(), 0);
}

#[test]
fn the_head_of_a_memory_is_its_first_bytes() {
    let memory = DefaultMemoryImpl::default();
    assert_eq!(StableMemory::of(memory.clone()).head(4), Vec::<u8>::new());
    memory.grow(1);
    assert_eq!(StableMemory::of(memory.clone()).head(4), vec![0, 0, 0, 0]);
    memory.write(0, b"hello");
    assert_eq!(StableMemory::of(memory.clone()).head(4), b"hell".to_vec());
    assert_eq!(StableMemory::of(memory.clone()).head(0), Vec::<u8>::new());
    assert_eq!(StableMemory::of(memory).head(6), b"hello\x00".to_vec());
}

#[test]
fn open_at_reads_the_store_from_the_regions_given() {
    let memory = DefaultMemoryImpl::default();
    let mut regions = Regions::over(StableMemory::of(memory.clone())).expect("regions");
    let mut school = School::new_in(&mut regions).expect("a new store");
    school
        .add_student(StudentPayload {
            name: "Ann".to_string(),
            email: "a@x.com".to_string(),
            ..StudentPayload::default()
        })
        .unwrap();
    drop(school);
    drop(regions);

    let mut regions = Regions::over(StableMemory::of(memory.clone())).expect("regions");
    let (counter, students, teachers, courses, classrooms) = (
        regions.region(0),
        regions.region(1),
        regions.region(2),
        regions.region(3),
        regions.region(4),
    );
    let school =
        School::open_at(counter, students, teachers, courses, classrooms).expect("the store");
    assert_eq!(school.last_id(), 1);
    assert_eq!(school.get_student(1).unwrap().name, "Ann");
    drop(school);
    drop(regions);

    // The students' map where the teachers' is expected, and the other way
    // round: both hold sound maps, but of the other kind of record.
    let mut regions = Regions::over(StableMemory::of(memory)).expect("regions");
    let (counter, students, teachers, courses, classrooms) = (
        regions.region(0),
        regions.region(1),
        regions.region(2),
        regions.region(3),
        regions.region(4),
    );
    assert!(School::open_at(counter, teachers, students, courses, classrooms).is_none());
}
