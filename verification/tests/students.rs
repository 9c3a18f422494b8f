use school_management_backend::error::{RecordKind, StoreError};
use school_management_backend::school::School;
use school_management_backend::student::{Student, StudentPayload};

fn ann() -> StudentPayload {
    StudentPayload {
        name: "Ann".to_string(),
        grade_level: 9,
        email: "a@x.com".to_string(),
        date_of_birth: "2010-04-01".to_string(),
        address: "1 Main St".to_string(),
        guardian_details: "Bob".to_string(),
    }
}

fn ann_as_stored(id: u64) -> Student {
    Student {
        id,
        name: "Ann".to_string(),
        grade_level: 9,
        enrolled_courses: vec![],
        email: "a@x.com".to_string(),
        date_of_birth: "2010-04-01".to_string(),
        address: "1 Main St".to_string(),
        guardian_details: "Bob".to_string(),
        performance_records: vec![],
        attendance_records: vec![],
    }
}

#[test]
fn add_student_returns_the_record_under_the_first_id() {
    let mut school = School::new().expect("a new store");
    let added = school.add_student(ann()).expect("a valid payload");
    assert_eq!(added, ann_as_stored(1));
}

#[test]
fn add_student_then_get_returns_the_same_record() {
    let mut school = School::new().expect("a new store");
    let added = school.add_student(ann()).expect("a valid payload");
    assert_eq!(school.get_student(added.id), Ok(added));
}

#[test]
fn add_student_with_empty_name_fails_validation() {
    let mut school = School::new().expect("a new store");
    let mut payload = ann();
    payload.name = String::new();
    let error = school.add_student(payload).unwrap_err();
    assert_eq!(error, StoreError::Validation(RecordKind::Student));
    assert_eq!(error.message(), "Name and email are required fields");
}

#[test]
fn add_student_with_empty_email_fails_validation() {
    let mut school = School::new().expect("a new store");
    let mut payload = ann();
    payload.email = String::new();
    assert_eq!(
        school.add_student(payload),
        Err(StoreError::Validation(RecordKind::Student))
    );
}

#[test]
fn add_student_that_fails_hands_out_no_id() {
    let mut school = School::new().expect("a new store");
    assert!(school.add_student(StudentPayload::default()).is_err());
    assert_eq!(school.last_id(), 0);
    assert_eq!(school.add_student(ann()).unwrap().id, 1);
}

#[test]
fn add_student_accepts_empty_optional_texts() {
    let mut school = School::new().expect("a new store");
    let payload = StudentPayload {
        name: "N".to_string(),
        email: "e".to_string(),
        ..StudentPayload::default()
    };
    let added = school.add_student(payload).unwrap();
    assert_eq!(added.date_of_birth, "");
    assert_eq!(added.grade_level, 0);
    assert_eq!(school.get_student(1), Ok(added));
}

#[test]
fn get_student_that_is_missing_fails_with_not_found() {
    let school = School::new().expect("a new store");
    let error = school.get_student(7).unwrap_err();
    assert_eq!(error, StoreError::NotFound(RecordKind::Student, 7));
    assert_eq!(error.message(), "Student with ID 7 not found");
}

#[test]
fn update_student_replaces_the_payload_fields_and_keeps_the_lists() {
    let mut school = School::new().expect("a new store");
    school.add_student(ann()).unwrap();
    let course = school
        .add_course(school_management_backend::course::CoursePayload {
            name: "Math".to_string(),
            description: "Algebra".to_string(),
            teacher_id: 0,
        })
        .unwrap();
    school.enroll_student_in_course(1, course.id).unwrap();
    let payload = StudentPayload {
        name: "Anna".to_string(),
        grade_level: 10,
        email: "anna@x.com".to_string(),
        date_of_birth: "2010-04-02".to_string(),
        address: "2 Main St".to_string(),
        guardian_details: "Carol".to_string(),
    };
    let expected = Student {
        id: 1,
        name: "Anna".to_string(),
        grade_level: 10,
        enrolled_courses: vec![course.id],
        email: "anna@x.com".to_string(),
        date_of_birth: "2010-04-02".to_string(),
        address: "2 Main St".to_string(),
        guardian_details: "Carol".to_string(),
        performance_records: vec![],
        attendance_records: vec![],
    };
    assert!(school.update_student_fits(1, &payload));
    assert_eq!(school.update_student(1, payload), Ok(expected.clone()));
    assert_eq!(school.get_student(1), Ok(expected));
}

#[test]
fn update_student_does_not_validate_the_payload() {
    let mut school = School::new().expect("a new store");
    school.add_student(ann()).unwrap();
    let updated = school.update_student(1, StudentPayload::default()).unwrap();
    assert_eq!(updated.name, "");
    assert_eq!(updated.email, "");
    assert_eq!(updated.id, 1);
}

#[test]
fn update_student_that_is_missing_fails_and_creates_nothing() {
    let mut school = School::new().expect("a new store");
    assert_eq!(
        school.update_student(5, ann()),
        Err(StoreError::NotFound(RecordKind::Student, 5))
    );
    assert_eq!(
        school.get_student(5),
        Err(StoreError::NotFound(RecordKind::Student, 5))
    );
    assert_eq!(school.last_id(), 0);
}

#[test]
fn delete_student_that_is_missing_fails_with_not_found() {
    let mut school = School::new().expect("a new store");
    assert_eq!(
        school.delete_student(3),
        Err(StoreError::NotFound(RecordKind::Student, 3))
    );
}

#[test]
fn delete_student_then_get_fails_with_not_found() {
    let mut school = School::new().expect("a new store");
    school.add_student(ann()).unwrap();
    assert_eq!(school.delete_student(1), Ok(()));
    assert_eq!(
        school.get_student(1),
        Err(StoreError::NotFound(RecordKind::Student, 1))
    );
    assert_eq!(
        school.delete_student(1),
        Err(StoreError::NotFound(RecordKind::Student, 1))
    );
}

#[test]
fn delete_student_leaves_the_other_students() {
    let mut school = School::new().expect("a new store");
    school.add_student(ann()).unwrap();
    school.add_student(ann()).unwrap();
    school.delete_student(1).unwrap();
    assert_eq!(school.get_student(2), Ok(ann_as_stored(2)));
}

#[test]
fn student_payload_default_is_empty() {
    assert_eq!(
        StudentPayload::default(),
        StudentPayload {
            name: String::new(),
            grade_level: 0,
            email: String::new(),
            date_of_birth: String::new(),
            address: String::new(),
            guardian_details: String::new(),
        }
    );
    assert!(!StudentPayload::default().is_valid());
    assert!(ann().is_valid());
}

#[test]
fn student_create_update_and_enroll_build_the_expected_records() {
    let created = Student::create(4, ann());
    assert_eq!(created, ann_as_stored(4));
    let enrolled = created.enroll(9).enroll(3);
    assert_eq!(enrolled.enrolled_courses, vec![9, 3]);
    assert!(enrolled.is_enrolled(3));
    assert!(!enrolled.is_enrolled(4));
    let updated = enrolled.update(StudentPayload {
        name: "Z".to_string(),
        ..StudentPayload::default()
    });
    assert_eq!(updated.id, 4);
    assert_eq!(updated.name, "Z");
    assert_eq!(updated.email, "");
    assert_eq!(updated.enrolled_courses, vec![9, 3]);
}

#[test]
fn student_default_is_empty_with_the_id_zero() {
    assert_eq!(
        Student::default(),
        Student {
            id: 0,
            name: String::new(),
            grade_level: 0,
            enrolled_courses: vec![],
            email: String::new(),
            date_of_birth: String::new(),
            address: String::new(),
            guardian_details: String::new(),
            performance_records: vec![],
            attendance_records: vec![],
        }
    );
    assert_eq!(Student::default(), Student::create(0, StudentPayload::default()));
}
