use school_management_backend::classroom::{Classroom, ClassroomPayload};
use school_management_backend::codec::{
    ids_distinct, put_ids, put_text, put_texts, put_u32, put_u64, put_u8, read_ids, read_text,
    read_texts, read_u32, read_u64, read_u8,
};
use school_management_backend::course::{Course, CoursePayload};
use school_management_backend::storage::MAX_RECORD_BYTES;
use school_management_backend::student::{Student, StudentPayload};
use school_management_backend::teacher::{Teacher, TeacherPayload};

fn classroom() -> Classroom {
    Classroom {
        id: 1,
        name: "A".to_string(),
        location: "B1".to_string(),
        capacity: 30,
        current_course_id: 2,
        equipment: vec!["tv".to_string()],
    }
}

fn classroom_bytes() -> Vec<u8> {
    vec![
        1, 0, 0, 0, 0, 0, 0, 0, // id
        1, 0, 0, 0, 0x41, // name
        2, 0, 0, 0, 0x42, 0x31, // location
        30, 0, 0, 0, // capacity
        2, 0, 0, 0, 0, 0, 0, 0, // current course
        1, 0, 0, 0, // one piece of equipment
        2, 0, 0, 0, 0x74, 0x76, // "tv"
    ]
}

fn student() -> Student {
    Student {
        id: 0x0102030405060708,
        name: "Ann".to_string(),
        grade_level: 9,
        enrolled_courses: vec![2, 258],
        email: "a@x.com".to_string(),
        date_of_birth: String::new(),
        address: String::new(),
        guardian_details: String::new(),
        performance_records: vec![],
        attendance_records: vec![u64::MAX],
    }
}

fn student_bytes() -> Vec<u8> {
    vec![
        8, 7, 6, 5, 4, 3, 2, 1, // id, least byte first
        3, 0, 0, 0, b'A', b'n', b'n', // name
        9, // grade level
        2, 0, 0, 0, // two enrolled courses
        2, 0, 0, 0, 0, 0, 0, 0, //
        2, 1, 0, 0, 0, 0, 0, 0, //
        7, 0, 0, 0, b'a', b'@', b'x', b'.', b'c', b'o', b'm', // email
        0, 0, 0, 0, // date of birth
        0, 0, 0, 0, // address
        0, 0, 0, 0, // guardian details
        0, 0, 0, 0, // no performance records
        1, 0, 0, 0, // one attendance record
        255, 255, 255, 255, 255, 255, 255, 255,
    ]
}

#[test]
fn classroom_encodes_to_its_fields_in_order() {
    assert_eq!(classroom().encode(), Some(classroom_bytes()));
}

#[test]
fn classroom_decodes_from_its_bytes() {
    assert_eq!(Classroom::decode(&classroom_bytes()), Some(classroom()));
}

#[test]
fn student_encodes_to_its_fields_in_order() {
    assert_eq!(student().encode(), Some(student_bytes()));
}

#[test]
fn student_decodes_from_its_bytes() {
    assert_eq!(Student::decode(&student_bytes()), Some(student()));
}

#[test]
fn teacher_decode_undoes_encode() {
    let teacher = Teacher {
        id: 12,
        name: "Zoë".to_string(),
        subject_area: "数学".to_string(),
        assigned_courses: vec![1, 2, 3],
        email: "z@x.com".to_string(),
        qualifications: String::new(),
        employment_date: "2020-09-01".to_string(),
        address: "🏫".to_string(),
        schedule: vec![],
    };
    let bytes = teacher.encode().expect("a small record");
    let texts = (4 + 4) + (4 + 6) + (4 + 7) + 4 + (4 + 10) + (4 + 4);
    assert_eq!(bytes.len(), 8 + texts + (4 + 24) + 4);
    assert_eq!(Teacher::decode(&bytes), Some(teacher));
}

#[test]
fn course_decode_undoes_encode() {
    let course = Course {
        id: 3,
        name: "Math".to_string(),
        description: "Algebra".to_string(),
        teacher_id: 9,
        student_ids: vec![4, 5],
        schedule: "Mon 9:00".to_string(),
        syllabus: "Groups, rings".to_string(),
        course_materials: vec!["https://x.com/a".to_string(), String::new(), "b".to_string()],
    };
    let bytes = course.encode().expect("a small record");
    assert_eq!(Course::decode(&bytes), Some(course));
}

#[test]
fn decode_refuses_bytes_that_end_early() {
    let bytes = student_bytes();
    for end in 0..bytes.len() {
        assert_eq!(Student::decode(&bytes[..end]), None, "at {end}");
    }
    let bytes = classroom_bytes();
    for end in 0..bytes.len() {
        assert_eq!(Classroom::decode(&bytes[..end]), None, "at {end}");
    }
}

#[test]
fn decode_refuses_bytes_left_over() {
    let mut bytes = student_bytes();
    bytes.push(0);
    assert_eq!(Student::decode(&bytes), None);
    let mut bytes = classroom_bytes();
    bytes.push(0);
    assert_eq!(Classroom::decode(&bytes), None);
}

#[test]
fn decode_refuses_text_that_is_not_utf8() {
    let mut bytes = classroom_bytes();
    bytes[12] = 0xff;
    assert_eq!(Classroom::decode(&bytes), None);
}

#[test]
fn decode_refuses_a_count_beyond_the_bytes() {
    let mut bytes = classroom_bytes();
    bytes[31] = 2;
    assert_eq!(Classroom::decode(&bytes), None);
    let mut bytes = student_bytes();
    bytes[19] = 0xff;
    assert_eq!(Student::decode(&bytes), None);
}

#[test]
fn decode_refuses_another_kind_of_record() {
    assert_eq!(Student::decode(&classroom_bytes()), None);
    assert_eq!(Teacher::decode(&classroom_bytes()), None);
    assert_eq!(Course::decode(&classroom_bytes()), None);
    assert_eq!(Classroom::decode(&student_bytes()), None);
}

#[test]
fn a_student_fits_up_to_the_size_of_a_record() {
    let with_name = |length: usize| Student {
        id: 1,
        name: "n".repeat(length),
        grade_level: 0,
        enrolled_courses: vec![],
        email: "e".to_string(),
        date_of_birth: String::new(),
        address: String::new(),
        guardian_details: String::new(),
        performance_records: vec![],
        attendance_records: vec![],
    };
    let largest = with_name(2006);
    assert!(largest.fits());
    assert_eq!(largest.encode().map(|bytes| bytes.len()), Some(MAX_RECORD_BYTES));
    assert_eq!(Student::decode(&largest.encode().unwrap()), Some(largest));
    let too_large = with_name(2007);
    assert!(!too_large.fits());
    assert_eq!(too_large.encode(), None);
}

#[test]
fn the_size_counts_bytes_not_characters() {
    let payload = |name: String| StudentPayload {
        name,
        email: "e".to_string(),
        ..StudentPayload::default()
    };
    assert!(payload("é".repeat(1003)).fits());
    assert!(!payload("é".repeat(1004)).fits());
    assert!(payload("n".repeat(2006)).fits());
    assert!(!payload("n".repeat(2007)).fits());
}

#[test]
fn one_more_course_takes_eight_bytes() {
    let student = |courses: usize| Student {
        id: 1,
        name: "N".to_string(),
        grade_level: 0,
        enrolled_courses: (0..courses as u64).collect(),
        email: "e".to_string(),
        date_of_birth: String::new(),
        address: String::new(),
        guardian_details: String::new(),
        performance_records: vec![],
        attendance_records: vec![],
    };
    assert_eq!(student(0).encode().unwrap().len(), 43);
    assert_eq!(student(1).encode().unwrap().len(), 51);
    // 43 + 8 * 250 = 2043: one more would make 2051.
    assert!(student(250).fits());
    assert!(!student(250).fits_enrolled(7));
    assert!(student(249).fits_enrolled(7));
    assert!(!student(251).fits());
    let teacher = |courses: usize| Teacher {
        id: 1,
        name: "N".to_string(),
        subject_area: String::new(),
        assigned_courses: (0..courses as u64).collect(),
        email: "e".to_string(),
        qualifications: String::new(),
        employment_date: String::new(),
        address: String::new(),
        schedule: vec![],
    };
    assert_eq!(teacher(0).encode().unwrap().len(), 42);
    assert!(teacher(250).fits());
    assert!(!teacher(250).fits_assigned(1));
    assert!(teacher(249).fits_assigned(1));
}

#[test]
fn fits_updated_and_fits_equipped_look_at_the_record_that_would_result() {
    let classroom = Classroom {
        id: 1,
        name: "A".to_string(),
        location: "B".to_string(),
        capacity: 1,
        current_course_id: 1,
        equipment: vec!["x".repeat(1000)],
    };
    assert_eq!(classroom.encode().unwrap().len(), 8 + 5 + 5 + 4 + 8 + 4 + 1004);
    assert!(classroom.fits_equipped(&vec!["x".repeat(2010)]));
    assert!(!classroom.fits_equipped(&vec!["x".repeat(2011)]));
    assert!(classroom.fits_equipped(&vec![String::new(); 503]));
    assert!(!classroom.fits_equipped(&vec![String::new(); 504]));
    let long_name = ClassroomPayload {
        name: "n".repeat(1011),
        location: "B".to_string(),
        capacity: 1,
        current_course_id: 1,
    };
    assert!(classroom.fits_updated(&long_name));
    let longer_name = ClassroomPayload {
        name: "n".repeat(1012),
        ..long_name
    };
    assert!(!classroom.fits_updated(&longer_name));
}

#[test]
fn payloads_fit_by_the_record_they_create() {
    assert!(StudentPayload::default().fits());
    assert!(TeacherPayload::default().fits());
    assert!(CoursePayload::default().fits());
    assert!(ClassroomPayload::default().fits());
    let teacher = TeacherPayload {
        assigned_courses: (0..1000).collect(),
        ..TeacherPayload::default()
    };
    assert!(teacher.fits());
    let course = CoursePayload {
        name: "n".repeat(2008),
        description: String::new(),
        teacher_id: 0,
    };
    assert!(course.fits());
    let course = CoursePayload {
        name: "n".repeat(2009),
        ..course
    };
    assert!(!course.fits());
}

#[test]
fn put_functions_append_the_layout_of_each_field() {
    let mut buf = vec![7];
    assert!(put_u8(&mut buf, 9));
    assert!(put_u32(&mut buf, 0x01020304));
    assert!(put_u64(&mut buf, 0x0102030405060708));
    assert!(put_text(&mut buf, "é"));
    assert!(put_ids(&mut buf, &vec![1, 256]));
    assert!(put_texts(&mut buf, &vec!["a".to_string(), String::new()]));
    assert_eq!(
        buf,
        vec![
            7, 9, 4, 3, 2, 1, 8, 7, 6, 5, 4, 3, 2, 1, 2, 0, 0, 0, 0xc3, 0xa9, 2, 0, 0, 0, 1, 0, 0,
            0, 0, 0, 0, 0, 0, 1, 0, 0, 0, 0, 0, 0, 2, 0, 0, 0, 1, 0, 0, 0, b'a', 0, 0, 0, 0
        ]
    );
}

#[test]
fn put_functions_refuse_what_would_exceed_a_record() {
    let mut buf = vec![0; MAX_RECORD_BYTES - 5];
    assert!(!put_u64(&mut buf, 1));
    assert!(!put_text(&mut buf, "ab"));
    assert!(!put_ids(&mut buf, &vec![1]));
    assert!(!put_texts(&mut buf, &vec!["ab".to_string()]));
    assert!(put_text(&mut buf, "a"));
    assert_eq!(buf.len(), MAX_RECORD_BYTES);
    assert!(!put_u8(&mut buf, 1));
    assert!(!put_u32(&mut buf, 1));
    let mut buf = vec![0; MAX_RECORD_BYTES - 4];
    assert!(put_ids(&mut buf, &vec![]));
    let mut buf = vec![0; MAX_RECORD_BYTES - 4];
    assert!(put_texts(&mut buf, &vec![]));
    let mut buf = vec![0; MAX_RECORD_BYTES - 4];
    assert!(put_u32(&mut buf, 1));
}

#[test]
fn read_functions_return_the_value_and_the_next_position() {
    let bytes = vec![
        7, 9, 4, 3, 2, 1, 8, 7, 6, 5, 4, 3, 2, 1, 2, 0, 0, 0, 0xc3, 0xa9, 2, 0, 0, 0, 1, 0, 0, 0,
        0, 0, 0, 0, 0, 1, 0, 0, 0, 0, 0, 0, 2, 0, 0, 0, 1, 0, 0, 0, b'a', 0, 0, 0, 0,
    ];
    assert_eq!(read_u8(&bytes, 1), Some((9, 2)));
    assert_eq!(read_u32(&bytes, 2), Some((0x01020304, 6)));
    assert_eq!(read_u64(&bytes, 6), Some((0x0102030405060708, 14)));
    assert_eq!(read_text(&bytes, 14), Some(("é".to_string(), 20)));
    assert_eq!(read_ids(&bytes, 20), Some((vec![1, 256], 40)));
    assert_eq!(
        read_texts(&bytes, 40),
        Some((vec!["a".to_string(), String::new()], 53))
    );
    assert_eq!(read_u8(&bytes, 53), None);
    assert_eq!(read_u32(&bytes, 50), None);
    assert_eq!(read_u64(&bytes, 46), None);
    assert_eq!(read_text(&bytes, 2), None);
    assert_eq!(read_ids(&bytes, 40), None);
    assert_eq!(read_texts(&bytes, 14), None);
}

#[test]
fn ids_distinct_finds_an_id_that_occurs_twice() {
    assert!(ids_distinct(&vec![]));
    assert!(ids_distinct(&vec![3, 1, 2]));
    assert!(!ids_distinct(&vec![3, 1, 3]));
    assert!(!ids_distinct(&vec![1, 1]));
}
