//! The rules on courses.

use crate::error::ServiceError;
use crate::student::model::Student;
use vstd::prelude::*;

verus! {

broadcast use vstd::string::to_string_from_display_ensures_for_str;

/// Some student in `students` is enrolled in the course `course_id`.
pub open spec fn has_enrolled(students: Seq<Student>, course_id: Seq<char>) -> bool {
    exists|i: int| 0 <= i < students.len() && (#[trigger] students[i]).course_id@ == course_id
}

/// Decides whether the course `course_id` may be deleted, given the students
/// the store holds for it (or all of them). A course with an enrolled student
/// is kept: the answer is then `ConstraintViolation` and nothing is to be
/// deleted. Otherwise the course may go.
pub fn plan_delete(course_id: &String, students: &Vec<Student>) -> (r: Result<(), ServiceError>)
    ensures
        r is Ok <==> !has_enrolled(students@, course_id@),
        r is Err ==> r->Err_0 is ConstraintViolation,
{
    let mut i: usize = 0;
    while i < students.len()
        invariant
            i <= students@.len(),
            forall|k: int| 0 <= k < i ==> (#[trigger] students@[k]).course_id@ != course_id@,
        decreases students@.len() - i,
    {
        if students[i].course_id == *course_id {
            return Err(
                ServiceError::ConstraintViolation(
                    "the course has enrolled students".to_string(),
                ),
            );
        }
        i = i + 1;
    }
    Ok(())
}

} // verus!
