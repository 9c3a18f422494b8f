use school_management_backend::course::{Course, CoursePayload};
use school_management_backend::error::{RecordKind, StoreError};
use school_management_backend::school::School;
use school_management_backend::student::StudentPayload;

#[test]
fn a_student_enrols_in_a_course_that_is_then_updated() {
    let mut school = School::new().expect("a new store");
    let student = school
        .add_student(StudentPayload {
            name: "Ann".to_string(),
            grade_level: 9,
            email: "a@x.com".to_string(),
            date_of_birth: "2010-04-01".to_string(),
            address: "1 Main St".to_string(),
            guardian_details: "Bob".to_string(),
        })
        .unwrap();
    assert_eq!(student.id, 1);
    let course = school
        .add_course(CoursePayload {
            name: "Math".to_string(),
            description: "Algebra".to_string(),
            teacher_id: 0,
        })
        .unwrap();
    assert_eq!(course.id, 2);
    assert_eq!(school.enroll_student_in_course(1, 2), Ok(()));
    assert_eq!(school.get_student(1).unwrap().enrolled_courses, vec![2]);
    let updated = school
        .update_course(
            2,
            CoursePayload {
                name: "Math II".to_string(),
                description: "Algebra II".to_string(),
                teacher_id: 0,
            },
        )
        .unwrap();
    assert_eq!(
        updated,
        Course {
            id: 2,
            name: "Math II".to_string(),
            description: "Algebra II".to_string(),
            teacher_id: 0,
            student_ids: vec![],
            schedule: String::new(),
            syllabus: String::new(),
            course_materials: vec![],
        }
    );
    assert_eq!(school.get_course(2), Ok(updated));
    assert_eq!(school.get_student(1).unwrap().enrolled_courses, vec![2]);
}

#[test]
fn a_student_without_a_name_is_refused_and_the_store_stays_empty() {
    let mut school = School::new().expect("a new store");
    let error = school
        .add_student(StudentPayload {
            name: String::new(),
            grade_level: 9,
            email: "a@x.com".to_string(),
            date_of_birth: "2010-04-01".to_string(),
            address: "1 Main St".to_string(),
            guardian_details: "Bob".to_string(),
        })
        .unwrap_err();
    assert_eq!(error, StoreError::Validation(RecordKind::Student));
    for id in [0, 1, 2, 3, u64::MAX] {
        assert_eq!(
            school.get_student(id),
            Err(StoreError::NotFound(RecordKind::Student, id))
        );
        assert_eq!(
            school.get_teacher(id),
            Err(StoreError::NotFound(RecordKind::Teacher, id))
        );
        assert_eq!(
            school.get_course(id),
            Err(StoreError::NotFound(RecordKind::Course, id))
        );
        assert_eq!(
            school.get_classroom(id),
            Err(StoreError::NotFound(RecordKind::Classroom, id))
        );
    }
    assert_eq!(school.last_id(), 0);
}

#[test]
fn many_records_are_kept_apart() {
    let mut school = School::new().expect("a new store");
    for n in 1..=60u64 {
        let added = school
            .add_course(CoursePayload {
                name: format!("Course {n}"),
                description: "-".to_string(),
                teacher_id: n,
            })
            .unwrap();
        assert_eq!(added.id, n);
    }
    for n in (2..=60u64).step_by(2) {
        assert_eq!(school.delete_course(n), Ok(()));
    }
    for n in 1..=60u64 {
        let found = school.get_course(n);
        if n % 2 == 0 {
            assert_eq!(found, Err(StoreError::NotFound(RecordKind::Course, n)));
        } else {
            let course = found.unwrap();
            assert_eq!(course.name, format!("Course {n}"));
            assert_eq!(course.teacher_id, n);
        }
    }
    assert!(school.is_sound());
}
