//! The avatar record.

use crate::ids::{generate_id, is_generated_id};
use crate::lookup::{is_first_match, none_match};
use vstd::prelude::*;

verus! {

broadcast use vstd::string::to_string_from_display_ensures_for_str;

/// A student's avatar; a student has at most one.
#[derive(Debug)]
pub struct Avatar {
    pub id: String,
    /// The student the avatar belongs to.
    pub student_id: String,
    pub fantasy_name: String,
}

impl Clone for Avatar {
    fn clone(&self) -> (r: Self)
        ensures
            r == *self,
    {
        Avatar {
            id: self.id.clone(),
            student_id: self.student_id.clone(),
            fantasy_name: self.fantasy_name.clone(),
        }
    }
}

impl Avatar {
    /// A new avatar under a fresh identifier.
    pub fn new(fantasy_name: &str, student_id: &str) -> (r: Avatar)
        ensures
            is_generated_id(r.id@),
            r.fantasy_name@ == fantasy_name@,
            r.student_id@ == student_id@,
    {
        Avatar {
            id: generate_id(),
            fantasy_name: fantasy_name.to_string(),
            student_id: student_id.to_string(),
        }
    }

    pub fn get_id(&self) -> (r: &String)
        ensures
            r == &self.id,
    {
        &self.id
    }

    pub fn get_fantasy_name(&self) -> (r: &String)
        ensures
            r == &self.fantasy_name,
    {
        &self.fantasy_name
    }

    pub fn get_student_id(&self) -> (r: &String)
        ensures
            r == &self.student_id,
    {
        &self.student_id
    }
}

/// The avatar belongs to the student with identifier `key`.
pub open spec fn avatar_of_student(key: Seq<char>) -> spec_fn(Avatar) -> bool {
    |x: Avatar| x.student_id@ == key
}

/// The position of the first avatar in `items` whose student is `key`.
pub fn find_avatar_of(items: &Vec<Avatar>, key: &String) -> (r: Option<usize>)
    ensures
        match r {
            Some(i) => is_first_match(items@, avatar_of_student(key@), i as int),
            None => none_match(items@, avatar_of_student(key@)),
        },
{
    let mut i: usize = 0;
    while i < items.len()
        invariant
            i <= items@.len(),
            forall|k: int| 0 <= k < i ==> !avatar_of_student(key@)(#[trigger] items@[k]),
        decreases items@.len() - i,
    {
        if items[i].student_id == *key {
            return Some(i);
        }
        i = i + 1;
    }
    None
}

} // verus!
