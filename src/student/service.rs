//! The rules on students.

use crate::avatar::model::Avatar;
use crate::course::model::{course_has_id, find_course, Course};
use crate::error::ServiceError;
use crate::ids::is_generated_id;
use crate::lookup::none_match;
use crate::student::model::Student;
use vstd::prelude::*;

verus! {

broadcast use vstd::string::to_string_from_display_ensures_for_str;

/// Decides the save of a new student, given the courses the store holds
/// under `course_id` (or all of them). Without such a course the answer is
/// `ReferenceNotFound` and there is nothing to write; otherwise it is the new
/// student, under a fresh identifier, to be written.
pub fn plan_save(
    first_name: &str,
    last_name: &str,
    course_id: &String,
    language: &str,
    email: &str,
    operational_systems: Vec<&String>,
    courses: &Vec<Course>,
) -> (r: Result<Student, ServiceError>)
    ensures
        r is Err <==> none_match(courses@, course_has_id(course_id@)),
        r is Err ==> r->Err_0 is ReferenceNotFound,
        r is Ok ==> {
            let s = r->Ok_0;
            &&& is_generated_id(s.id@)
            &&& s.first_name@ == first_name@
            &&& s.last_name@ == last_name@
            &&& s.course_id@ == course_id@
            &&& s.language@ == language@
            &&& s.email@ == email@
            &&& s@.operational_systems == operational_systems@.map_values(|o: &String| o@)
        },
{
    match find_course(courses, course_id) {
        None => Err(ServiceError::ReferenceNotFound("the course does not exist".to_string())),
        Some(c) => Ok(
            Student::new(
                first_name,
                last_name,
                courses[c].id.as_str(),
                language,
                email,
                operational_systems,
            ),
        ),
    }
}

/// The avatars to delete together with the student `student_id`: all of
/// its own, so that none is left pointing at a student that is gone.
pub fn plan_delete(student_id: &String, avatars: &Vec<Avatar>) -> (r: Vec<String>)
    ensures
        r@.map_values(|id: String| id@) == avatars@.filter(
            |a: Avatar| a.student_id@ == student_id@,
        ).map_values(|a: Avatar| a.id@),
{
    let ghost pred = |a: Avatar| a.student_id@ == student_id@;
    let mut r: Vec<String> = Vec::new();
    let mut i: usize = 0;
    while i < avatars.len()
        invariant
            i <= avatars@.len(),
            r@.map_values(|id: String| id@) == avatars@.subrange(0, i as int).filter(
                pred,
            ).map_values(|a: Avatar| a.id@),
            pred == (|a: Avatar| a.student_id@ == student_id@),
        decreases avatars@.len() - i,
    {
        let ghost prev = r@;
        proof {
            assert(avatars@.subrange(0, i + 1) =~= avatars@.subrange(0, i as int).push(
                avatars@[i as int],
            ));
            avatars@.subrange(0, i as int).lemma_filter_push(avatars@[i as int], pred);
        }
        if avatars[i].student_id == *student_id {
            r.push(avatars[i].id.clone());
            assert(r@.map_values(|id: String| id@) =~= prev.map_values(|id: String| id@).push(
                avatars@[i as int].id@,
            ));
            assert(avatars@.subrange(0, i + 1).filter(pred).map_values(|a: Avatar| a.id@)
                =~= avatars@.subrange(0, i as int).filter(pred).map_values(|a: Avatar| a.id@).push(
                avatars@[i as int].id@,
            ));
        }
        i = i + 1;
    }
    assert(avatars@.subrange(0, avatars@.len() as int) =~= avatars@);
    r
}

} // verus!
