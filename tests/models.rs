use school_records::avatar::model::Avatar;
use school_records::course::model::{find_course, Course};
use school_records::error::{from_store, ServiceError};
use school_records::ids::{alphabet, generate_id, ID_LENGTH};
use school_records::student::model::{find_student, Student};
use school_records::subject::model::{Subject, SubjectCourse};

fn is_id(id: &str) -> bool {
    let symbols = alphabet();
    id.chars().count() == 10 && id.chars().all(|c| symbols.contains(&c))
}

#[test]
fn generated_ids_have_ten_symbols_of_the_alphabet() {
    for _ in 0..200 {
        let id = generate_id();
        assert_eq!(id.len(), ID_LENGTH);
        assert!(is_id(&id), "{id}");
        assert!(!id.contains('o'));
    }
}

#[test]
fn alphabet_has_thirty_five_symbols_without_o() {
    let symbols = alphabet();
    assert_eq!(symbols.len(), 35);
    assert!(!symbols.contains(&'o'));
    assert!(symbols.contains(&'0'));
    assert!(symbols.contains(&'z'));
}

#[test]
fn generated_ids_differ() {
    let a = generate_id();
    let b = generate_id();
    assert_ne!(a, b);
}

#[test]
fn course_new_gets_fresh_id() {
    let c = Course::new("Math");
    assert_eq!(c.get_name(), "Math");
    assert!(is_id(c.get_id()));
    let d = Course::new("Math");
    assert_ne!(c.get_id(), d.get_id());
}

#[test]
fn course_new_with_id_keeps_id() {
    let c = Course::new_with_id("m1", "Mathematics");
    assert_eq!(c.get_id(), "m1");
    assert_eq!(c.get_name(), "Mathematics");
}

#[test]
fn student_new_copies_fields() {
    let linux = "Linux".to_string();
    let osx = "OSX".to_string();
    let s = Student::new("Ana", "Silva", "m1", "pt", "ana@example.com", vec![&linux, &osx]);
    assert!(is_id(s.get_id()));
    assert_eq!(s.get_first_name(), "Ana");
    assert_eq!(s.get_last_name(), "Silva");
    assert_eq!(s.get_course(), "m1");
    assert_eq!(s.get_language(), "pt");
    assert_eq!(s.get_email(), "ana@example.com");
    assert_eq!(s.get_operational_systems(), &vec!["Linux".to_string(), "OSX".to_string()]);
}

#[test]
fn student_clone_is_equal() {
    let linux = "Linux".to_string();
    let s = Student::new("Ana", "Silva", "m1", "pt", "a@b", vec![&linux]);
    let t = s.clone();
    assert_eq!(t.id, s.id);
    assert_eq!(t.operational_systems, s.operational_systems);
}

#[test]
fn subject_new_copies_fields() {
    let s = Subject::new("MAT101", "Calculus", "Limits and derivatives");
    assert!(is_id(s.get_id()));
    assert_eq!(s.get_code(), "MAT101");
    assert_eq!(s.get_name(), "Calculus");
    assert_eq!(s.get_program(), "Limits and derivatives");
}

#[test]
fn subject_course_new_links() {
    let l = SubjectCourse::new("sub", "c1");
    assert!(is_id(&l.id));
    assert_eq!(l.subject_id, "sub");
    assert_eq!(l.course_id, "c1");
}

#[test]
fn avatar_new_copies_fields() {
    let a = Avatar::new("Neo", "s1");
    assert!(is_id(a.get_id()));
    assert_eq!(a.get_fantasy_name(), "Neo");
    assert_eq!(a.get_student_id(), "s1");
}

#[test]
fn find_course_gives_first_match() {
    let courses = vec![
        Course::new_with_id("a", "A"),
        Course::new_with_id("b", "B"),
        Course::new_with_id("b", "B2"),
    ];
    assert_eq!(find_course(&courses, &"b".to_string()), Some(1));
    assert_eq!(find_course(&courses, &"c".to_string()), None);
    assert_eq!(find_course(&vec![], &"a".to_string()), None);
}

#[test]
fn find_student_by_id() {
    let mut s = Student::new("Ana", "S", "m1", "pt", "e", vec![]);
    s.id = "s1".to_string();
    let students = vec![s];
    assert_eq!(find_student(&students, &"s1".to_string()), Some(0));
    assert_eq!(find_student(&students, &"s2".to_string()), None);
}

#[test]
fn status_codes_follow_error_kind() {
    assert_eq!(ServiceError::ReferenceNotFound("x".to_string()).status_code(), 422);
    assert_eq!(ServiceError::ConstraintViolation("x".to_string()).status_code(), 400);
    assert_eq!(ServiceError::StorageFailure("x".to_string()).status_code(), 500);
    assert_eq!(ServiceError::DataIntegrityError("x".to_string()).status_code(), 500);
}

#[test]
fn error_detail_is_kept() {
    assert_eq!(ServiceError::StorageFailure("disk".to_string()).detail(), "disk");
}

#[test]
fn store_errors_become_storage_failures() {
    let ok: Result<u32, String> = Ok(3);
    assert!(matches!(from_store(ok), Ok(3)));
    let err: Result<u32, String> = Err("connection refused".to_string());
    match from_store(err) {
        Err(ServiceError::StorageFailure(d)) => assert_eq!(d, "connection refused"),
        other => panic!("unexpected {other:?}"),
    }
}
