use school_management_backend::classroom::{Classroom, ClassroomPayload};
use school_management_backend::error::{RecordKind, StoreError};
use school_management_backend::school::School;

fn lab() -> ClassroomPayload {
    ClassroomPayload {
        name: "Lab".to_string(),
        location: "B1".to_string(),
        capacity: 30,
        current_course_id: 0,
    }
}

fn lab_as_stored(id: u64) -> Classroom {
    Classroom {
        id,
        name: "Lab".to_string(),
        location: "B1".to_string(),
        capacity: 30,
        current_course_id: 0,
        equipment: vec![],
    }
}

#[test]
fn add_classroom_then_get_returns_the_same_record() {
    let mut school = School::new().expect("a new store");
    let added = school.add_classroom(lab()).expect("a valid payload");
    assert_eq!(added, lab_as_stored(1));
    assert_eq!(school.get_classroom(1), Ok(added));
}

#[test]
fn add_classroom_without_name_or_location_fails_validation() {
    let mut school = School::new().expect("a new store");
    let mut no_name = lab();
    no_name.name = String::new();
    let mut no_location = lab();
    no_location.location = String::new();
    let error = school.add_classroom(no_name).unwrap_err();
    assert_eq!(error, StoreError::Validation(RecordKind::Classroom));
    assert_eq!(error.message(), "Name and location are required fields");
    assert_eq!(
        school.add_classroom(no_location),
        Err(StoreError::Validation(RecordKind::Classroom))
    );
    assert_eq!(school.last_id(), 0);
}

#[test]
fn add_classroom_accepts_capacity_zero_and_the_greatest_capacity() {
    let mut school = School::new().expect("a new store");
    let mut none = lab();
    none.capacity = 0;
    let mut most = lab();
    most.capacity = u32::MAX;
    most.current_course_id = u64::MAX;
    assert_eq!(school.add_classroom(none).unwrap().capacity, 0);
    school.add_classroom(most).unwrap();
    let stored = school.get_classroom(2).unwrap();
    assert_eq!(stored.capacity, u32::MAX);
    assert_eq!(stored.current_course_id, u64::MAX);
}

#[test]
fn get_classroom_that_is_missing_fails_with_not_found() {
    let school = School::new().expect("a new store");
    let error = school.get_classroom(0).unwrap_err();
    assert_eq!(error, StoreError::NotFound(RecordKind::Classroom, 0));
    assert_eq!(error.message(), "Classroom with ID 0 not found");
}

#[test]
fn update_classroom_replaces_the_payload_fields_and_keeps_the_equipment() {
    let mut school = School::new().expect("a new store");
    school.add_classroom(lab()).unwrap();
    school
        .update_classroom_equipment(1, vec!["projector".to_string()])
        .unwrap();
    let payload = ClassroomPayload {
        name: "Hall".to_string(),
        location: "C2".to_string(),
        capacity: 200,
        current_course_id: 5,
    };
    let expected = Classroom {
        id: 1,
        name: "Hall".to_string(),
        location: "C2".to_string(),
        capacity: 200,
        current_course_id: 5,
        equipment: vec!["projector".to_string()],
    };
    assert!(school.update_classroom_fits(1, &payload));
    assert_eq!(school.update_classroom(1, payload), Ok(expected.clone()));
    assert_eq!(school.get_classroom(1), Ok(expected));
}

#[test]
fn update_classroom_that_is_missing_fails_and_creates_nothing() {
    let mut school = School::new().expect("a new store");
    assert_eq!(
        school.update_classroom(2, lab()),
        Err(StoreError::NotFound(RecordKind::Classroom, 2))
    );
    assert_eq!(
        school.get_classroom(2),
        Err(StoreError::NotFound(RecordKind::Classroom, 2))
    );
}

#[test]
fn delete_classroom_then_get_fails_with_not_found() {
    let mut school = School::new().expect("a new store");
    school.add_classroom(lab()).unwrap();
    assert_eq!(school.delete_classroom(1), Ok(()));
    assert_eq!(
        school.get_classroom(1),
        Err(StoreError::NotFound(RecordKind::Classroom, 1))
    );
}

#[test]
fn delete_classroom_that_is_missing_fails_with_not_found() {
    let mut school = School::new().expect("a new store");
    assert_eq!(
        school.delete_classroom(8),
        Err(StoreError::NotFound(RecordKind::Classroom, 8))
    );
}

#[test]
fn update_classroom_equipment_replaces_the_whole_list() {
    let mut school = School::new().expect("a new store");
    school.add_classroom(lab()).unwrap();
    let first = vec!["projector".to_string(), "board".to_string()];
    assert!(school.equipment_fits(1, &first));
    assert_eq!(school.update_classroom_equipment(1, first.clone()), Ok(()));
    assert_eq!(school.get_classroom(1).unwrap().equipment, first);
    let second = vec!["tv".to_string()];
    assert_eq!(school.update_classroom_equipment(1, second.clone()), Ok(()));
    assert_eq!(
        school.get_classroom(1),
        Ok(Classroom {
            equipment: second,
            ..lab_as_stored(1)
        })
    );
    assert_eq!(school.update_classroom_equipment(1, vec![]), Ok(()));
    assert_eq!(school.get_classroom(1), Ok(lab_as_stored(1)));
}

#[test]
fn update_classroom_equipment_of_a_missing_classroom_fails() {
    let mut school = School::new().expect("a new store");
    let error = school
        .update_classroom_equipment(6, vec!["tv".to_string()])
        .unwrap_err();
    assert_eq!(error, StoreError::NotFound(RecordKind::Classroom, 6));
    assert_eq!(
        school.get_classroom(6),
        Err(StoreError::NotFound(RecordKind::Classroom, 6))
    );
}

#[test]
fn classroom_payload_default_is_empty() {
    assert_eq!(
        ClassroomPayload::default(),
        ClassroomPayload {
            name: String::new(),
            location: String::new(),
            capacity: 0,
            current_course_id: 0,
        }
    );
    assert!(!ClassroomPayload::default().is_valid());
    assert!(lab().is_valid());
}

#[test]
fn classroom_default_is_empty_with_the_id_zero() {
    assert_eq!(
        Classroom::default(),
        Classroom {
            id: 0,
            name: String::new(),
            location: String::new(),
            capacity: 0,
            current_course_id: 0,
            equipment: vec![],
        }
    );
}
