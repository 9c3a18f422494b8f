use school_management_backend::course::{Course, CoursePayload};
use school_management_backend::error::{RecordKind, StoreError};
use school_management_backend::school::School;

fn math() -> CoursePayload {
    CoursePayload {
        name: "Math".to_string(),
        description: "Algebra".to_string(),
        teacher_id: 0,
    }
}

fn math_as_stored(id: u64) -> Course {
    Course {
        id,
        name: "Math".to_string(),
        description: "Algebra".to_string(),
        teacher_id: 0,
        student_ids: vec![],
        schedule: String::new(),
        syllabus: String::new(),
        course_materials: vec![],
    }
}

#[test]
fn add_course_then_get_returns_the_same_record() {
    let mut school = School::new().expect("a new store");
    let added = school.add_course(math()).expect("a valid payload");
    assert_eq!(added, math_as_stored(1));
    assert_eq!(school.get_course(1), Ok(added));
}

#[test]
fn add_course_keeps_a_teacher_id_that_names_no_teacher() {
    let mut school = School::new().expect("a new store");
    let mut payload = math();
    payload.teacher_id = 77;
    let added = school.add_course(payload).unwrap();
    assert_eq!(added.teacher_id, 77);
    assert_eq!(school.get_course(1).unwrap().teacher_id, 77);
}

#[test]
fn add_course_without_name_or_description_fails_validation() {
    let mut school = School::new().expect("a new store");
    let mut no_name = math();
    no_name.name = String::new();
    let mut no_description = math();
    no_description.description = String::new();
    let error = school.add_course(no_name).unwrap_err();
    assert_eq!(error, StoreError::Validation(RecordKind::Course));
    assert_eq!(error.message(), "Name and description are required fields");
    assert_eq!(
        school.add_course(no_description),
        Err(StoreError::Validation(RecordKind::Course))
    );
    assert_eq!(school.last_id(), 0);
}

#[test]
fn get_course_that_is_missing_fails_with_not_found() {
    let school = School::new().expect("a new store");
    let error = school.get_course(100).unwrap_err();
    assert_eq!(error, StoreError::NotFound(RecordKind::Course, 100));
    assert_eq!(error.message(), "Course with ID 100 not found");
}

#[test]
fn update_course_replaces_name_description_and_teacher() {
    let mut school = School::new().expect("a new store");
    school.add_course(math()).unwrap();
    let payload = CoursePayload {
        name: "Math II".to_string(),
        description: "Algebra II".to_string(),
        teacher_id: 3,
    };
    let expected = Course {
        id: 1,
        name: "Math II".to_string(),
        description: "Algebra II".to_string(),
        teacher_id: 3,
        student_ids: vec![],
        schedule: String::new(),
        syllabus: String::new(),
        course_materials: vec![],
    };
    assert!(school.update_course_fits(1, &payload));
    assert_eq!(school.update_course(1, payload), Ok(expected.clone()));
    assert_eq!(school.get_course(1), Ok(expected));
}

#[test]
fn update_course_that_is_missing_fails_and_creates_nothing() {
    let mut school = School::new().expect("a new store");
    assert_eq!(
        school.update_course(9, math()),
        Err(StoreError::NotFound(RecordKind::Course, 9))
    );
    assert_eq!(
        school.get_course(9),
        Err(StoreError::NotFound(RecordKind::Course, 9))
    );
}

#[test]
fn delete_course_then_get_fails_with_not_found() {
    let mut school = School::new().expect("a new store");
    school.add_course(math()).unwrap();
    assert_eq!(school.delete_course(1), Ok(()));
    assert_eq!(
        school.get_course(1),
        Err(StoreError::NotFound(RecordKind::Course, 1))
    );
}

#[test]
fn delete_course_that_is_missing_fails_with_not_found() {
    let mut school = School::new().expect("a new store");
    assert_eq!(
        school.delete_course(4),
        Err(StoreError::NotFound(RecordKind::Course, 4))
    );
}

#[test]
fn course_payload_default_is_empty() {
    assert_eq!(
        CoursePayload::default(),
        CoursePayload {
            name: String::new(),
            description: String::new(),
            teacher_id: 0,
        }
    );
    assert!(!CoursePayload::default().is_valid());
    assert!(math().is_valid());
}

#[test]
fn course_teach_sets_the_teacher_only() {
    let course = Course::create(3, math()).teach(8);
    assert_eq!(
        course,
        Course {
            teacher_id: 8,
            ..math_as_stored(3)
        }
    );
}

#[test]
fn course_default_is_empty_with_the_id_zero() {
    assert_eq!(
        Course::default(),
        Course {
            id: 0,
            name: String::new(),
            description: String::new(),
            teacher_id: 0,
            student_ids: vec![],
            schedule: String::new(),
            syllabus: String::new(),
            course_materials: vec![],
        }
    );
}
