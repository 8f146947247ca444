//! The rules on avatars.

use crate::avatar::model::{avatar_of_student, find_avatar_of, Avatar};
use crate::error::ServiceError;
use crate::ids::is_generated_id;
use crate::lookup::none_match;
use crate::student::model::{find_student, student_has_id, Student};
use vstd::prelude::*;

verus! {

broadcast use vstd::string::to_string_from_display_ensures_for_str;

/// Decides the save of a new avatar for the student `student_id`, given the
/// students the store holds under that identifier and the avatars it holds
/// for that student (or all of either). Without the student the answer is
/// `ReferenceNotFound`; when the student has an avatar already it is
/// `ConstraintViolation`, and that avatar stays as it is. Otherwise it is the
/// new avatar, under a fresh identifier, to be written.
pub fn plan_save(
    fantasy_name: &str,
    student_id: &String,
    students: &Vec<Student>,
    avatars: &Vec<Avatar>,
) -> (r: Result<Avatar, ServiceError>)
    ensures
        none_match(students@, student_has_id(student_id@)) ==> {
            r is Err && r->Err_0 is ReferenceNotFound
        },
        !none_match(students@, student_has_id(student_id@)) && !none_match(
            avatars@,
            avatar_of_student(student_id@),
        ) ==> {
            r is Err && r->Err_0 is ConstraintViolation
        },
        r is Ok <==> !none_match(students@, student_has_id(student_id@)) && none_match(
            avatars@,
            avatar_of_student(student_id@),
        ),
        r is Ok ==> {
            let a = r->Ok_0;
            &&& is_generated_id(a.id@)
            &&& a.fantasy_name@ == fantasy_name@
            &&& a.student_id@ == student_id@
        },
{
    if find_student(students, student_id).is_none() {
        return Err(ServiceError::ReferenceNotFound("the student does not exist".to_string()));
    }
    if find_avatar_of(avatars, student_id).is_some() {
        return Err(
            ServiceError::ConstraintViolation("the student already has an avatar".to_string()),
        );
    }
    Ok(Avatar::new(fantasy_name, student_id.as_str()))
}

/// Once an avatar of a student is stored, the avatars hold one for that
/// student: a second save for the same student meets `ConstraintViolation`
/// in `plan_save`, and the stored avatar stays as it was.
pub proof fn lemma_second_avatar_refused(
    avatars: Seq<Avatar>,
    stored: Avatar,
    student_id: Seq<char>,
)
    requires
        stored.student_id@ == student_id,
    ensures
        !none_match(avatars.push(stored), avatar_of_student(student_id)),
{
    assert(avatar_of_student(student_id)(avatars.push(stored)[avatars.len() as int]));
}

} // verus!
