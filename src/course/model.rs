//! The course record.

use crate::ids::{generate_id, is_generated_id};
use crate::lookup::{is_first_match, none_match};
use vstd::prelude::*;

verus! {

broadcast use vstd::string::to_string_from_display_ensures_for_str;

/// A course that students enrol in.
#[derive(Debug)]
pub struct Course {
    pub id: String,
    pub name: String,
}

impl Clone for Course {
    fn clone(&self) -> (r: Self)
        ensures
            r == *self,
    {
        Course { id: self.id.clone(), name: self.name.clone() }
    }
}

impl Course {
    /// A new course under a fresh identifier.
    pub fn new(name: &str) -> (r: Course)
        ensures
            is_generated_id(r.id@),
            r.name@ == name@,
    {
        Course { id: generate_id(), name: name.to_string() }
    }

    /// A course under an identifier it already has, as used to edit it.
    pub fn new_with_id(id: &str, name: &str) -> (r: Course)
        ensures
            r.id@ == id@,
            r.name@ == name@,
    {
        Course { id: id.to_string(), name: name.to_string() }
    }

    pub fn get_id(&self) -> (r: &String)
        ensures
            r == &self.id,
    {
        &self.id
    }

    pub fn get_name(&self) -> (r: &String)
        ensures
            r == &self.name,
    {
        &self.name
    }
}

/// The course has identifier `key`.
pub open spec fn course_has_id(key: Seq<char>) -> spec_fn(Course) -> bool {
    |x: Course| x.id@ == key
}

/// The position of the first course in `items` whose identifier is `key`.
pub fn find_course(items: &Vec<Course>, key: &String) -> (r: Option<usize>)
    ensures
        match r {
            Some(i) => is_first_match(items@, course_has_id(key@), i as int),
            None => none_match(items@, course_has_id(key@)),
        },
{
    let mut i: usize = 0;
    while i < items.len()
        invariant
            i <= items@.len(),
            forall|k: int| 0 <= k < i ==> !course_has_id(key@)(#[trigger] items@[k]),
        decreases items@.len() - i,
    {
        if items[i].id == *key {
            return Some(i);
        }
        i = i + 1;
    }
    None
}

} // verus!
