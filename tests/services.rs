use school_records::avatar::model::Avatar;
use school_records::avatar::service as avatar_service;
use school_records::course::model::Course;
use school_records::course::service as course_service;
use school_records::error::ServiceError;
use school_records::student::model::Student;
use school_records::student::service as student_service;
use school_records::subject::service::{check_course_ids, SavePhase, SubjectSave, TxAction};

fn student(id: &str, first_name: &str, course: &str) -> Student {
    Student {
        id: id.to_string(),
        first_name: first_name.to_string(),
        last_name: String::new(),
        course_id: course.to_string(),
        language: "pt".to_string(),
        email: String::new(),
        operational_systems: vec![],
    }
}

#[test]
fn student_save_without_course_is_refused() {
    let courses = vec![Course::new_with_id("m1", "Math")];
    let r = student_service::plan_save("Ana", "Silva", &"phys".to_string(), "pt", "a@b", vec![], &courses);
    assert!(matches!(r, Err(ServiceError::ReferenceNotFound(_))));
    let r = student_service::plan_save("Ana", "Silva", &"m1".to_string(), "pt", "a@b", vec![], &vec![]);
    assert!(matches!(r, Err(ServiceError::ReferenceNotFound(_))));
}

#[test]
fn student_save_with_course_builds_the_student() {
    let courses = vec![Course::new_with_id("m1", "Math")];
    let linux = "Linux".to_string();
    let s = student_service::plan_save("Ana", "Silva", &"m1".to_string(), "pt", "a@b", vec![&linux], &courses)
        .unwrap();
    assert_eq!(s.id.chars().count(), 10);
    assert_eq!(s.first_name, "Ana");
    assert_eq!(s.last_name, "Silva");
    assert_eq!(s.course_id, "m1");
    assert_eq!(s.language, "pt");
    assert_eq!(s.email, "a@b");
    assert_eq!(s.operational_systems, vec!["Linux".to_string()]);
}

#[test]
fn course_with_students_cannot_be_deleted() {
    let students = vec![student("s1", "Ana", "m1"), student("s2", "Bia", "phys")];
    let r = course_service::plan_delete(&"m1".to_string(), &students);
    match r {
        Err(e) => {
            assert!(matches!(e, ServiceError::ConstraintViolation(_)));
            assert_eq!(e.status_code(), 400);
        }
        Ok(()) => panic!("deleted a course with students"),
    }
}

#[test]
fn course_without_students_can_be_deleted() {
    let students = vec![student("s2", "Bia", "phys")];
    assert!(course_service::plan_delete(&"m1".to_string(), &students).is_ok());
    assert!(course_service::plan_delete(&"m1".to_string(), &vec![]).is_ok());
}

#[test]
fn deleting_math_after_ana() {
    let math = Course::new_with_id("m1", "Math");
    let mut students = vec![student("ana", "Ana", "m1")];
    let r = course_service::plan_delete(&math.id, &students);
    assert!(matches!(r, Err(ServiceError::ConstraintViolation(_))));
    let avatars = vec![Avatar { id: "a1".to_string(), student_id: "ana".to_string(), fantasy_name: "Neo".to_string() }];
    let dropped = student_service::plan_delete(&"ana".to_string(), &avatars);
    assert_eq!(dropped, vec!["a1".to_string()]);
    students.retain(|s| s.id != "ana");
    assert!(course_service::plan_delete(&math.id, &students).is_ok());
}

#[test]
fn student_delete_takes_its_avatars_only() {
    let avatars = vec![
        Avatar { id: "a1".to_string(), student_id: "s1".to_string(), fantasy_name: "Neo".to_string() },
        Avatar { id: "a2".to_string(), student_id: "s2".to_string(), fantasy_name: "Trinity".to_string() },
    ];
    assert_eq!(student_service::plan_delete(&"s2".to_string(), &avatars), vec!["a2".to_string()]);
    assert!(student_service::plan_delete(&"s3".to_string(), &avatars).is_empty());
}

#[test]
fn avatar_for_missing_student_is_refused() {
    let r = avatar_service::plan_save("Neo", &"s9".to_string(), &vec![student("s1", "Ana", "m1")], &vec![]);
    match r {
        Err(e) => {
            assert!(matches!(e, ServiceError::ReferenceNotFound(_)));
            assert_eq!(e.status_code(), 422);
        }
        Ok(_) => panic!("saved an avatar without a student"),
    }
}

#[test]
fn neo_then_second_avatar() {
    let students = vec![student("s1", "Ana", "m1")];
    let mut avatars: Vec<Avatar> = vec![];
    let neo = avatar_service::plan_save("Neo", &"s1".to_string(), &students, &avatars).unwrap();
    assert_eq!(neo.id.chars().count(), 10);
    assert_eq!(neo.fantasy_name, "Neo");
    assert_eq!(neo.student_id, "s1");
    avatars.push(neo.clone());
    let r = avatar_service::plan_save("Neo", &"s1".to_string(), &students, &avatars);
    assert!(matches!(r, Err(ServiceError::ConstraintViolation(_))));
    assert_eq!(avatars.len(), 1);
    assert_eq!(avatars[0].id, neo.id);
    assert_eq!(avatars[0].fantasy_name, "Neo");
}

#[test]
fn avatar_of_another_student_does_not_block() {
    let students = vec![student("s1", "Ana", "m1"), student("s2", "Bia", "m1")];
    let avatars = vec![Avatar { id: "a1".to_string(), student_id: "s1".to_string(), fantasy_name: "Neo".to_string() }];
    assert!(avatar_service::plan_save("Trinity", &"s2".to_string(), &students, &avatars).is_ok());
}

#[test]
fn subject_save_links_every_course() {
    let ids = vec!["c1".to_string(), "c2".to_string()];
    let (save, first) = SubjectSave::new("MAT", "Calculus", "Limits", &ids);
    assert_eq!(first, TxAction::Begin);
    assert_eq!(save.phase(), SavePhase::Opening);
    let subject_id = save.subject().id.clone();
    assert_eq!(subject_id.chars().count(), 10);
    assert_eq!(save.links().len(), 2);
    assert_eq!(save.links()[0].course_id, "c1");
    assert_eq!(save.links()[1].course_id, "c2");
    assert!(save.links().iter().all(|l| l.subject_id == subject_id));
    assert_ne!(save.links()[0].id, save.links()[1].id);
}

#[test]
fn subject_save_commits_after_all_writes() {
    let ids = vec!["c1".to_string(), "c2".to_string()];
    let (mut save, _) = SubjectSave::new("MAT", "Calculus", "Limits", &ids);
    assert_eq!(save.advance(Ok(())), TxAction::InsertSubject);
    assert_eq!(save.advance(Ok(())), TxAction::InsertLinks);
    assert_eq!(save.advance(Ok(())), TxAction::Commit);
    assert_eq!(save.advance(Ok(())), TxAction::Finish);
    assert_eq!(save.phase(), SavePhase::Done);
    let subject = save.outcome().unwrap();
    assert_eq!(subject.code, "MAT");
    assert_eq!(subject.name, "Calculus");
    assert_eq!(subject.program, "Limits");
}

#[test]
fn subject_save_rolls_back_failed_links() {
    let ids = vec!["c1".to_string(), "c2".to_string()];
    let (mut save, _) = SubjectSave::new("MAT", "Calculus", "Limits", &ids);
    assert_eq!(save.advance(Ok(())), TxAction::InsertSubject);
    assert_eq!(save.advance(Ok(())), TxAction::InsertLinks);
    assert_eq!(save.advance(Err("foreign key".to_string())), TxAction::Rollback);
    assert_eq!(save.advance(Ok(())), TxAction::Finish);
    match save.outcome() {
        Err(ServiceError::StorageFailure(d)) => assert_eq!(d, "foreign key"),
        other => panic!("unexpected {other:?}"),
    }
}

#[test]
fn subject_save_rolls_back_failed_subject() {
    let (mut save, _) = SubjectSave::new("MAT", "Calculus", "Limits", &vec!["c1".to_string()]);
    assert_eq!(save.advance(Ok(())), TxAction::InsertSubject);
    assert_eq!(save.advance(Err("duplicate".to_string())), TxAction::Rollback);
    assert_eq!(save.advance(Err("rollback failed".to_string())), TxAction::Finish);
    match save.outcome() {
        Err(ServiceError::StorageFailure(d)) => assert_eq!(d, "duplicate"),
        other => panic!("unexpected {other:?}"),
    }
}

#[test]
fn subject_save_stops_when_transaction_cannot_open() {
    let (mut save, _) = SubjectSave::new("MAT", "Calculus", "Limits", &vec!["c1".to_string()]);
    assert_eq!(save.advance(Err("no connection".to_string())), TxAction::Finish);
    assert_eq!(save.phase(), SavePhase::Done);
    assert!(matches!(save.outcome(), Err(ServiceError::StorageFailure(_))));
}

#[test]
fn subject_save_failed_commit_is_a_failure() {
    let (mut save, _) = SubjectSave::new("MAT", "Calculus", "Limits", &vec![]);
    assert_eq!(save.advance(Ok(())), TxAction::InsertSubject);
    assert_eq!(save.advance(Ok(())), TxAction::InsertLinks);
    assert_eq!(save.advance(Ok(())), TxAction::Commit);
    assert_eq!(save.advance(Err("serialization".to_string())), TxAction::Finish);
    assert!(matches!(save.outcome(), Err(ServiceError::StorageFailure(_))));
}

#[test]
fn subject_without_courses_is_refused() {
    assert!(matches!(check_course_ids(&vec![]), Err(ServiceError::ConstraintViolation(_))));
    assert!(check_course_ids(&vec!["c1".to_string()]).is_ok());
}
