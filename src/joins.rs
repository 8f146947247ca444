//! Composite views built in process from the lists a store returns: each
//! primary record with the records it refers to, in the primary order.

use crate::avatar::model::{avatar_of_student, find_avatar_of, Avatar};
use crate::course::model::{course_has_id, find_course, Course};
use crate::error::ServiceError;
use crate::lookup::{first_match, lemma_first_match_at, lemma_first_match_none};
use crate::student::model::{find_student, student_has_id, Student, StudentView};
use crate::subject::model::{find_subject, subject_has_id, Subject, SubjectCourse};
use vstd::prelude::*;

verus! {

broadcast use vstd::string::to_string_from_display_ensures_for_str;

/// The avatar of a student, where `avatars` holds one.
pub open spec fn avatar_for(avatars: Seq<Avatar>, s: Student) -> Option<Avatar> {
    first_match(avatars, avatar_of_student(s.id@))
}

/// The student an avatar belongs to, where `students` holds it.
pub open spec fn owner_of(students: Seq<Student>, a: Avatar) -> Option<Student> {
    first_match(students, student_has_id(a.student_id@))
}

/// Each avatar whose student exists, with that student, in avatar order.
pub open spec fn avatar_pairs(avatars: Seq<Avatar>, students: Seq<Student>) -> Seq<
    (Avatar, StudentView),
>
    decreases avatars.len(),
{
    if avatars.len() == 0 {
        Seq::empty()
    } else {
        let a = avatars.last();
        avatar_pairs(avatars.drop_last(), students) + match owner_of(students, a) {
            Some(s) => seq![(a, s@)],
            None => Seq::empty(),
        }
    }
}

/// The students without an avatar, in order.
pub open spec fn without_avatar(students: Seq<Student>, avatars: Seq<Avatar>) -> Seq<StudentView>
    decreases students.len(),
{
    if students.len() == 0 {
        Seq::empty()
    } else {
        let s = students.last();
        without_avatar(students.drop_last(), avatars) + if avatar_for(avatars, s) is None {
            seq![s@]
        } else {
            Seq::empty()
        }
    }
}

/// The students enrolled in the course `course_id`, in order.
pub open spec fn enrolled_in(students: Seq<Student>, course_id: Seq<char>) -> Seq<StudentView>
    decreases students.len(),
{
    if students.len() == 0 {
        Seq::empty()
    } else {
        let s = students.last();
        enrolled_in(students.drop_last(), course_id) + if s.course_id@ == course_id {
            seq![s@]
        } else {
            Seq::empty()
        }
    }
}

/// The courses that `links` tie to the subject `subject_id`, in link order,
/// leaving out links to courses that `courses` does not hold.
pub open spec fn linked_courses(
    links: Seq<SubjectCourse>,
    courses: Seq<Course>,
    subject_id: Seq<char>,
) -> Seq<Course>
    decreases links.len(),
{
    if links.len() == 0 {
        Seq::empty()
    } else {
        let l = links.last();
        linked_courses(links.drop_last(), courses, subject_id) + if l.subject_id@ == subject_id {
            match first_match(courses, course_has_id(l.course_id@)) {
                Some(c) => seq![c],
                None => Seq::empty(),
            }
        } else {
            Seq::empty()
        }
    }
}

/// The subjects that `links` tie to the course `course_id`, in link order,
/// leaving out links to subjects that `subjects` does not hold.
pub open spec fn linked_subjects(
    links: Seq<SubjectCourse>,
    subjects: Seq<Subject>,
    course_id: Seq<char>,
) -> Seq<Subject>
    decreases links.len(),
{
    if links.len() == 0 {
        Seq::empty()
    } else {
        let l = links.last();
        linked_subjects(links.drop_last(), subjects, course_id) + if l.course_id@ == course_id {
            match first_match(subjects, subject_has_id(l.subject_id@)) {
                Some(s) => seq![s],
                None => Seq::empty(),
            }
        } else {
            Seq::empty()
        }
    }
}

/// Each subject linked to at least one existing course, with those courses,
/// in subject order.
pub open spec fn subject_rows(
    subjects: Seq<Subject>,
    links: Seq<SubjectCourse>,
    courses: Seq<Course>,
) -> Seq<(Subject, Seq<Course>)>
    decreases subjects.len(),
{
    if subjects.len() == 0 {
        Seq::empty()
    } else {
        let s = subjects.last();
        let linked = linked_courses(links, courses, s.id@);
        subject_rows(subjects.drop_last(), links, courses) + if linked.len() > 0 {
            seq![(s, linked)]
        } else {
            Seq::empty()
        }
    }
}

/// Every student with its avatar, if it has one, in student order.
pub fn students_with_avatars(students: &Vec<Student>, avatars: &Vec<Avatar>) -> (r: Vec<
    (Student, Option<Avatar>),
>)
    ensures
        r@.len() == students@.len(),
        forall|i: int|
            0 <= i < students@.len() ==> (#[trigger] r@[i]).0@ == students@[i]@ && r@[i].1
                == avatar_for(avatars@, students@[i]),
{
    let mut r: Vec<(Student, Option<Avatar>)> = Vec::new();
    let mut i: usize = 0;
    while i < students.len()
        invariant
            i <= students@.len(),
            r@.len() == i,
            forall|k: int|
                0 <= k < i ==> (#[trigger] r@[k]).0@ == students@[k]@ && r@[k].1 == avatar_for(
                    avatars@,
                    students@[k],
                ),
        decreases students@.len() - i,
    {
        let student = &students[i];
        let avatar = match find_avatar_of(avatars, &student.id) {
            Some(a) => {
                proof {
                    lemma_first_match_at(avatars@, avatar_of_student(student.id@), a as int);
                }
                Some(avatars[a].clone())
            },
            None => {
                proof {
                    lemma_first_match_none(avatars@, avatar_of_student(student.id@));
                }
                None
            },
        };
        r.push((student.clone(), avatar));
        i = i + 1;
    }
    r
}

/// Every avatar whose student exists, with that student, in avatar order;
/// avatars left behind by a deleted student are left out.
pub fn avatars_with_students(avatars: &Vec<Avatar>, students: &Vec<Student>) -> (r: Vec<
    (Avatar, Student),
>)
    ensures
        r@.map_values(|p: (Avatar, Student)| (p.0, p.1@)) == avatar_pairs(avatars@, students@),
{
    let mut r: Vec<(Avatar, Student)> = Vec::new();
    let mut i: usize = 0;
    while i < avatars.len()
        invariant
            i <= avatars@.len(),
            r@.map_values(|p: (Avatar, Student)| (p.0, p.1@)) == avatar_pairs(
                avatars@.subrange(0, i as int),
                students@,
            ),
        decreases avatars@.len() - i,
    {
        let ghost prev = r@;
        let avatar = &avatars[i];
        assert(avatars@.subrange(0, i + 1).drop_last() =~= avatars@.subrange(0, i as int));
        assert(avatars@.subrange(0, i + 1).last() == *avatar);
        match find_student(students, &avatar.student_id) {
            Some(s) => {
                proof {
                    lemma_first_match_at(students@, student_has_id(avatar.student_id@), s as int);
                }
                r.push((avatar.clone(), students[s].clone()));
                assert(r@.map_values(|p: (Avatar, Student)| (p.0, p.1@)) =~= prev.map_values(
                    |p: (Avatar, Student)| (p.0, p.1@),
                ) + seq![(*avatar, students@[s as int]@)]);
            },
            None => {
                proof {
                    lemma_first_match_none(students@, student_has_id(avatar.student_id@));
                }
                assert(prev.map_values(|p: (Avatar, Student)| (p.0, p.1@)) =~= prev.map_values(
                    |p: (Avatar, Student)| (p.0, p.1@),
                ) + Seq::<(Avatar, StudentView)>::empty());
            },
        }
        i = i + 1;
    }
    assert(avatars@.subrange(0, avatars@.len() as int) =~= avatars@);
    r
}

/// The students that have no avatar, in order.
pub fn students_without_avatar(students: &Vec<Student>, avatars: &Vec<Avatar>) -> (r: Vec<Student>)
    ensures
        r@.map_values(|s: Student| s@) == without_avatar(students@, avatars@),
{
    let mut r: Vec<Student> = Vec::new();
    let mut i: usize = 0;
    while i < students.len()
        invariant
            i <= students@.len(),
            r@.map_values(|s: Student| s@) == without_avatar(
                students@.subrange(0, i as int),
                avatars@,
            ),
        decreases students@.len() - i,
    {
        let ghost prev = r@;
        let student = &students[i];
        assert(students@.subrange(0, i + 1).drop_last() =~= students@.subrange(0, i as int));
        assert(students@.subrange(0, i + 1).last() == *student);
        match find_avatar_of(avatars, &student.id) {
            Some(a) => {
                proof {
                    lemma_first_match_at(avatars@, avatar_of_student(student.id@), a as int);
                }
                assert(prev.map_values(|s: Student| s@) =~= prev.map_values(|s: Student| s@)
                    + Seq::<StudentView>::empty());
            },
            None => {
                proof {
                    lemma_first_match_none(avatars@, avatar_of_student(student.id@));
                }
                r.push(student.clone());
                assert(r@.map_values(|s: Student| s@) =~= prev.map_values(|s: Student| s@)
                    + seq![student@]);
            },
        }
        i = i + 1;
    }
    assert(students@.subrange(0, students@.len() as int) =~= students@);
    r
}

/// The students enrolled in the course `course_id`, in order.
pub fn students_of_course(students: &Vec<Student>, course_id: &String) -> (r: Vec<Student>)
    ensures
        r@.map_values(|s: Student| s@) == enrolled_in(students@, course_id@),
{
    let mut r: Vec<Student> = Vec::new();
    let mut i: usize = 0;
    while i < students.len()
        invariant
            i <= students@.len(),
            r@.map_values(|s: Student| s@) == enrolled_in(
                students@.subrange(0, i as int),
                course_id@,
            ),
        decreases students@.len() - i,
    {
        let ghost prev = r@;
        let student = &students[i];
        assert(students@.subrange(0, i + 1).drop_last() =~= students@.subrange(0, i as int));
        assert(students@.subrange(0, i + 1).last() == *student);
        if student.course_id == *course_id {
            r.push(student.clone());
            assert(r@.map_values(|s: Student| s@) =~= prev.map_values(|s: Student| s@)
                + seq![student@]);
        } else {
            assert(prev.map_values(|s: Student| s@) =~= prev.map_values(|s: Student| s@)
                + Seq::<StudentView>::empty());
        }
        i = i + 1;
    }
    assert(students@.subrange(0, students@.len() as int) =~= students@);
    r
}

/// The courses that `links` tie to the subject `subject_id`, in link order.
pub fn courses_of_subject(
    links: &Vec<SubjectCourse>,
    courses: &Vec<Course>,
    subject_id: &String,
) -> (r: Vec<Course>)
    ensures
        r@ == linked_courses(links@, courses@, subject_id@),
{
    let mut r: Vec<Course> = Vec::new();
    let mut i: usize = 0;
    while i < links.len()
        invariant
            i <= links@.len(),
            r@ == linked_courses(links@.subrange(0, i as int), courses@, subject_id@),
        decreases links@.len() - i,
    {
        let ghost prev = r@;
        let link = &links[i];
        assert(links@.subrange(0, i + 1).drop_last() =~= links@.subrange(0, i as int));
        assert(links@.subrange(0, i + 1).last() == *link);
        if link.subject_id == *subject_id {
            match find_course(courses, &link.course_id) {
                Some(c) => {
                    proof {
                        lemma_first_match_at(courses@, course_has_id(link.course_id@), c as int);
                    }
                    r.push(courses[c].clone());
                    assert(r@ =~= prev + seq![courses@[c as int]]);
                },
                None => {
                    proof {
                        lemma_first_match_none(courses@, course_has_id(link.course_id@));
                    }
                    assert(prev =~= prev + Seq::<Course>::empty());
                },
            }
        } else {
            assert(prev =~= prev + Seq::<Course>::empty());
        }
        i = i + 1;
    }
    assert(links@.subrange(0, links@.len() as int) =~= links@);
    r
}

/// The subjects that `links` tie to the course `course_id`, in link order.
pub fn subjects_of_course(
    links: &Vec<SubjectCourse>,
    subjects: &Vec<Subject>,
    course_id: &String,
) -> (r: Vec<Subject>)
    ensures
        r@ == linked_subjects(links@, subjects@, course_id@),
{
    let mut r: Vec<Subject> = Vec::new();
    let mut i: usize = 0;
    while i < links.len()
        invariant
            i <= links@.len(),
            r@ == linked_subjects(links@.subrange(0, i as int), subjects@, course_id@),
        decreases links@.len() - i,
    {
        let ghost prev = r@;
        let link = &links[i];
        assert(links@.subrange(0, i + 1).drop_last() =~= links@.subrange(0, i as int));
        assert(links@.subrange(0, i + 1).last() == *link);
        if link.course_id == *course_id {
            match find_subject(subjects, &link.subject_id) {
                Some(k) => {
                    proof {
                        lemma_first_match_at(subjects@, subject_has_id(link.subject_id@), k as int);
                    }
                    r.push(subjects[k].clone());
                    assert(r@ =~= prev + seq![subjects@[k as int]]);
                },
                None => {
                    proof {
                        lemma_first_match_none(subjects@, subject_has_id(link.subject_id@));
                    }
                    assert(prev =~= prev + Seq::<Subject>::empty());
                },
            }
        } else {
            assert(prev =~= prev + Seq::<Subject>::empty());
        }
        i = i + 1;
    }
    assert(links@.subrange(0, links@.len() as int) =~= links@);
    r
}

/// Each subject that is linked to at least one existing course, with those
/// courses, in subject order.
pub fn subjects_with_courses(
    subjects: &Vec<Subject>,
    links: &Vec<SubjectCourse>,
    courses: &Vec<Course>,
) -> (r: Vec<(Subject, Vec<Course>)>)
    ensures
        r@.map_values(|p: (Subject, Vec<Course>)| (p.0, p.1@)) == subject_rows(
            subjects@,
            links@,
            courses@,
        ),
{
    let mut r: Vec<(Subject, Vec<Course>)> = Vec::new();
    let mut i: usize = 0;
    while i < subjects.len()
        invariant
            i <= subjects@.len(),
            r@.map_values(|p: (Subject, Vec<Course>)| (p.0, p.1@)) == subject_rows(
                subjects@.subrange(0, i as int),
                links@,
                courses@,
            ),
        decreases subjects@.len() - i,
    {
        let ghost prev = r@.map_values(|p: (Subject, Vec<Course>)| (p.0, p.1@));
        let subject = &subjects[i];
        assert(subjects@.subrange(0, i + 1).drop_last() =~= subjects@.subrange(0, i as int));
        assert(subjects@.subrange(0, i + 1).last() == *subject);
        let linked = courses_of_subject(links, courses, &subject.id);
        if linked.len() > 0 {
            let ghost linked_view = linked@;
            r.push((subject.clone(), linked));
            assert(r@.map_values(|p: (Subject, Vec<Course>)| (p.0, p.1@)) =~= prev + seq![
                (*subject, linked_view),
            ]);
        } else {
            assert(prev =~= prev + Seq::<(Subject, Seq<Course>)>::empty());
        }
        i = i + 1;
    }
    assert(subjects@.subrange(0, subjects@.len() as int) =~= subjects@);
    r
}

/// A student with its course and the subjects linked to that course. Fails
/// with `ReferenceNotFound` when no student has identifier `student_id`, and
/// with `DataIntegrityError` when the student's course does not exist.
pub fn student_with_course_and_subjects(
    student_id: &String,
    students: &Vec<Student>,
    courses: &Vec<Course>,
    links: &Vec<SubjectCourse>,
    subjects: &Vec<Subject>,
) -> (r: Result<(Student, Course, Vec<Subject>), ServiceError>)
    ensures
        match first_match(students@, student_has_id(student_id@)) {
            None => r is Err && r->Err_0 is ReferenceNotFound,
            Some(s) => match first_match(courses@, course_has_id(s.course_id@)) {
                None => r is Err && r->Err_0 is DataIntegrityError,
                Some(c) => r is Ok && r->Ok_0.0@ == s@ && r->Ok_0.1 == c && r->Ok_0.2@
                    == linked_subjects(links@, subjects@, c.id@),
            },
        },
{
    let k = match find_student(students, student_id) {
        Some(k) => k,
        None => {
            proof {
                lemma_first_match_none(students@, student_has_id(student_id@));
            }
            return Err(ServiceError::ReferenceNotFound("the student does not exist".to_string()));
        },
    };
    proof {
        lemma_first_match_at(students@, student_has_id(student_id@), k as int);
    }
    let student = &students[k];
    let c = match find_course(courses, &student.course_id) {
        Some(c) => c,
        None => {
            proof {
                lemma_first_match_none(courses@, course_has_id(student.course_id@));
            }
            return Err(
                ServiceError::DataIntegrityError(
                    "the student's course does not exist".to_string(),
                ),
            );
        },
    };
    proof {
        lemma_first_match_at(courses@, course_has_id(student.course_id@), c as int);
    }
    let course = courses[c].clone();
    let linked = subjects_of_course(links, subjects, &course.id);
    Ok((student.clone(), course, linked))
}

} // verus!
