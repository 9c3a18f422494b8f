use school_management_backend::error::{RecordKind, StoreError};
use school_management_backend::school::School;
use school_management_backend::teacher::{Teacher, TeacherPayload};

fn tom() -> TeacherPayload {
    TeacherPayload {
        name: "Tom".to_string(),
        subject_area: "Math".to_string(),
        email: "t@x.com".to_string(),
        qualifications: "MSc".to_string(),
        employment_date: "2020-09-01".to_string(),
        address: "3 High St".to_string(),
        assigned_courses: vec![],
        schedule: vec![],
    }
}

fn tom_as_stored(id: u64) -> Teacher {
    Teacher {
        id,
        name: "Tom".to_string(),
        subject_area: "Math".to_string(),
        assigned_courses: vec![],
        email: "t@x.com".to_string(),
        qualifications: "MSc".to_string(),
        employment_date: "2020-09-01".to_string(),
        address: "3 High St".to_string(),
        schedule: vec![],
    }
}

#[test]
fn add_teacher_then_get_returns_the_same_record() {
    let mut school = School::new().expect("a new store");
    let added = school.add_teacher(tom()).expect("a valid payload");
    assert_eq!(added, tom_as_stored(1));
    assert_eq!(school.get_teacher(1), Ok(added));
}

#[test]
fn add_teacher_starts_with_empty_lists_whatever_the_payload_holds() {
    let mut school = School::new().expect("a new store");
    let mut payload = tom();
    payload.assigned_courses = vec![7, 8];
    payload.schedule = vec![1];
    let added = school.add_teacher(payload).unwrap();
    assert_eq!(added, tom_as_stored(1));
}

#[test]
fn add_teacher_without_name_or_email_fails_validation() {
    let mut school = School::new().expect("a new store");
    let mut no_name = tom();
    no_name.name = String::new();
    let mut no_email = tom();
    no_email.email = String::new();
    let error = school.add_teacher(no_name).unwrap_err();
    assert_eq!(error, StoreError::Validation(RecordKind::Teacher));
    assert_eq!(error.message(), "Name and email are required fields");
    assert_eq!(
        school.add_teacher(no_email),
        Err(StoreError::Validation(RecordKind::Teacher))
    );
    assert_eq!(school.last_id(), 0);
}

#[test]
fn get_teacher_that_is_missing_fails_with_not_found() {
    let school = School::new().expect("a new store");
    let error = school.get_teacher(12).unwrap_err();
    assert_eq!(error, StoreError::NotFound(RecordKind::Teacher, 12));
    assert_eq!(error.message(), "Teacher with ID 12 not found");
}

#[test]
fn update_teacher_replaces_every_field_but_the_id() {
    let mut school = School::new().expect("a new store");
    school.add_teacher(tom()).unwrap();
    let payload = TeacherPayload {
        name: "Tim".to_string(),
        subject_area: "Physics".to_string(),
        email: "tim@x.com".to_string(),
        qualifications: "PhD".to_string(),
        employment_date: "2021-01-01".to_string(),
        address: "4 High St".to_string(),
        assigned_courses: vec![5, 6],
        schedule: vec![9],
    };
    let expected = Teacher {
        id: 1,
        name: "Tim".to_string(),
        subject_area: "Physics".to_string(),
        assigned_courses: vec![5, 6],
        email: "tim@x.com".to_string(),
        qualifications: "PhD".to_string(),
        employment_date: "2021-01-01".to_string(),
        address: "4 High St".to_string(),
        schedule: vec![9],
    };
    assert!(school.update_teacher_fits(1, &payload));
    assert_eq!(school.update_teacher(1, payload), Ok(expected.clone()));
    assert_eq!(school.get_teacher(1), Ok(expected));
}

#[test]
fn update_teacher_that_is_missing_fails_and_creates_nothing() {
    let mut school = School::new().expect("a new store");
    assert_eq!(
        school.update_teacher(2, tom()),
        Err(StoreError::NotFound(RecordKind::Teacher, 2))
    );
    assert_eq!(
        school.get_teacher(2),
        Err(StoreError::NotFound(RecordKind::Teacher, 2))
    );
}

#[test]
fn delete_teacher_then_get_fails_with_not_found() {
    let mut school = School::new().expect("a new store");
    school.add_teacher(tom()).unwrap();
    assert_eq!(school.delete_teacher(1), Ok(()));
    assert_eq!(
        school.get_teacher(1),
        Err(StoreError::NotFound(RecordKind::Teacher, 1))
    );
}

#[test]
fn delete_teacher_that_is_missing_fails_with_not_found() {
    let mut school = School::new().expect("a new store");
    assert_eq!(
        school.delete_teacher(1),
        Err(StoreError::NotFound(RecordKind::Teacher, 1))
    );
}

#[test]
fn teacher_payload_default_is_empty() {
    assert_eq!(
        TeacherPayload::default(),
        TeacherPayload {
            name: String::new(),
            subject_area: String::new(),
            email: String::new(),
            qualifications: String::new(),
            employment_date: String::new(),
            address: String::new(),
            assigned_courses: vec![],
            schedule: vec![],
        }
    );
    assert!(!TeacherPayload::default().is_valid());
    assert!(tom().is_valid());
}

#[test]
fn teacher_assign_adds_the_course_at_the_end() {
    let teacher = Teacher::create(2, tom()).assign(5).assign(5).assign(1);
    assert_eq!(teacher.assigned_courses, vec![5, 5, 1]);
    assert_eq!(teacher.id, 2);
}

#[test]
fn teacher_default_is_empty_with_the_id_zero() {
    assert_eq!(
        Teacher::default(),
        Teacher {
            id: 0,
            name: String::new(),
            subject_area: String::new(),
            assigned_courses: vec![],
            email: String::new(),
            qualifications: String::new(),
            employment_date: String::new(),
            address: String::new(),
            schedule: vec![],
        }
    );
}
