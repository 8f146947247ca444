use school_records::course::model::Course;
use school_records::error::ServiceError;
use school_records::grouping::{group_rows, group_students, keyed_rows, Group, GroupBy};
use school_records::student::model::Student;

fn student(id: &str, course: &str, language: &str, systems: &[&str]) -> Student {
    Student {
        id: id.to_string(),
        first_name: format!("first {id}"),
        last_name: format!("last {id}"),
        course_id: course.to_string(),
        language: language.to_string(),
        email: format!("{id}@school.test"),
        operational_systems: systems.iter().map(|s| s.to_string()).collect(),
    }
}

fn ids(g: &Group) -> Vec<&str> {
    g.students.iter().map(|s| s.id.as_str()).collect()
}

fn find<'a>(groups: &'a [Group], key: &str) -> &'a Group {
    groups.iter().find(|g| g.key == key).expect("group")
}

fn courses() -> Vec<Course> {
    vec![Course::new_with_id("m1", "Math"), Course::new_with_id("phys", "Physics")]
}

#[test]
fn group_rows_keeps_row_order_within_groups() {
    let rows = vec![
        ("b".to_string(), student("s1", "m1", "pt", &[])),
        ("a".to_string(), student("s2", "m1", "pt", &[])),
        ("b".to_string(), student("s3", "m1", "pt", &[])),
    ];
    let groups = group_rows(&rows);
    assert_eq!(groups.len(), 2);
    assert_eq!(ids(find(&groups, "b")), vec!["s1", "s3"]);
    assert_eq!(find(&groups, "b").total, 2);
    assert_eq!(ids(find(&groups, "a")), vec!["s2"]);
    assert_eq!(find(&groups, "a").total, 1);
}

#[test]
fn group_rows_of_nothing_is_empty() {
    assert!(group_rows(&vec![]).is_empty());
}

#[test]
fn group_by_language() {
    let students = vec![
        student("s1", "m1", "pt", &[]),
        student("s2", "m1", "en", &[]),
        student("s3", "phys", "pt", &[]),
    ];
    let groups = group_students(&students, GroupBy::LANGUAGE, &courses()).unwrap();
    assert_eq!(groups.len(), 2);
    assert_eq!(ids(find(&groups, "pt")), vec!["s1", "s3"]);
    assert_eq!(ids(find(&groups, "en")), vec!["s2"]);
}

#[test]
fn group_by_course_uses_course_names() {
    let students = vec![
        student("s1", "m1", "pt", &[]),
        student("s2", "phys", "en", &[]),
        student("s3", "m1", "pt", &[]),
    ];
    let groups = group_students(&students, GroupBy::COURSE, &courses()).unwrap();
    assert_eq!(groups.len(), 2);
    assert_eq!(ids(find(&groups, "Math")), vec!["s1", "s3"]);
    assert_eq!(find(&groups, "Math").total, 2);
    assert_eq!(ids(find(&groups, "Physics")), vec!["s2"]);
}

#[test]
fn group_by_course_with_missing_course_fails() {
    let students = vec![student("s1", "m1", "pt", &[]), student("s2", "gone", "pt", &[])];
    match group_students(&students, GroupBy::COURSE, &courses()) {
        Err(ServiceError::DataIntegrityError(_)) => {}
        other => panic!("unexpected {other:?}"),
    }
}

#[test]
fn missing_course_does_not_matter_for_language() {
    let students = vec![student("s1", "gone", "pt", &[])];
    let groups = group_students(&students, GroupBy::LANGUAGE, &courses()).unwrap();
    assert_eq!(groups.len(), 1);
}

#[test]
fn group_by_os_fans_out() {
    let students = vec![
        student("s1", "m1", "pt", &["Linux", "OSX"]),
        student("s2", "m1", "pt", &["Windows"]),
        student("s3", "m1", "pt", &["Linux", "Windows", "OSX"]),
        student("s4", "m1", "pt", &[]),
    ];
    let groups = group_students(&students, GroupBy::OS, &courses()).unwrap();
    let members: usize = groups.iter().map(|g| g.students.len()).sum();
    let totals: usize = groups.iter().map(|g| g.total).sum();
    assert_eq!(members, 6);
    assert_eq!(totals, 6);
    assert_eq!(groups.len(), 3);
    assert_eq!(ids(find(&groups, "Linux")), vec!["s1", "s3"]);
    assert_eq!(ids(find(&groups, "OSX")), vec!["s1", "s3"]);
    assert_eq!(ids(find(&groups, "Windows")), vec!["s2", "s3"]);
}

#[test]
fn group_by_os_counts_repeated_systems() {
    let students = vec![student("s1", "m1", "pt", &["Linux", "Linux"])];
    let groups = group_students(&students, GroupBy::OS, &courses()).unwrap();
    assert_eq!(groups.len(), 1);
    assert_eq!(groups[0].total, 2);
}

#[test]
fn keyed_rows_pair_each_system() {
    let students = vec![student("s1", "m1", "pt", &["Linux", "OSX"])];
    let rows = keyed_rows(&students, GroupBy::OS, &courses()).unwrap();
    let keys: Vec<&str> = rows.iter().map(|r| r.0.as_str()).collect();
    assert_eq!(keys, vec!["Linux", "OSX"]);
}

#[test]
fn grouping_no_students_gives_no_groups() {
    for by in [GroupBy::COURSE, GroupBy::LANGUAGE, GroupBy::OS] {
        assert!(group_students(&vec![], by, &courses()).unwrap().is_empty());
    }
}

#[test]
fn group_by_parses_query_values() {
    assert_eq!(GroupBy::from_query(&"course".to_string()), Some(GroupBy::COURSE));
    assert_eq!(GroupBy::from_query(&"language".to_string()), Some(GroupBy::LANGUAGE));
    assert_eq!(GroupBy::from_query(&"os".to_string()), Some(GroupBy::OS));
    assert_eq!(GroupBy::from_query(&"OS".to_string()), None);
    assert_eq!(GroupBy::from_query(&"".to_string()), None);
}

#[test]
fn grouping_agrees_with_a_plain_count() {
    let systems = ["Linux", "OSX", "Windows", "BSD"];
    let languages = ["pt", "en", "es"];
    let mut seed: u64 = 12345;
    let mut next = move |n: u64| {
        seed = seed.wrapping_mul(6364136223846793005).wrapping_add(1442695040888963407);
        ((seed >> 33) % n) as usize
    };
    for round in 0..50 {
        let mut students = Vec::new();
        for i in 0..(round % 9) {
            let k = next(4);
            let picked: Vec<&str> = (0..k).map(|_| systems[next(4)]).collect();
            let course = if next(2) == 0 { "m1" } else { "p1x" };
            students.push(student(&format!("s{i}"), course, languages[next(3)], &picked));
        }
        let cs = vec![Course::new_with_id("m1", "Math"), Course::new_with_id("p1x", "Physics")];
        let fan_out: usize = students.iter().map(|s| s.operational_systems.len()).sum();
        for by in [GroupBy::COURSE, GroupBy::LANGUAGE, GroupBy::OS] {
            let groups = group_students(&students, by, &cs).unwrap();
            let expected_rows = match by {
                GroupBy::OS => fan_out,
                _ => students.len(),
            };
            assert_eq!(groups.iter().map(|g| g.total).sum::<usize>(), expected_rows);
            for g in &groups {
                assert_eq!(g.total, g.students.len());
                let want: Vec<&str> = students
                    .iter()
                    .flat_map(|s| {
                        let keys: Vec<String> = match by {
                            GroupBy::COURSE => {
                                vec![if s.course_id == "m1" { "Math" } else { "Physics" }.to_string()]
                            }
                            GroupBy::LANGUAGE => vec![s.language.clone()],
                            GroupBy::OS => s.operational_systems.clone(),
                        };
                        keys.into_iter().filter(|k| *k == g.key).map(move |_| s.id.as_str())
                    })
                    .collect();
                assert_eq!(ids(g), want);
            }
            let mut keys: Vec<&str> = groups.iter().map(|g| g.key.as_str()).collect();
            let n = keys.len();
            keys.sort();
            keys.dedup();
            assert_eq!(keys.len(), n);
        }
    }
}
