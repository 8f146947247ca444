//! The subject record and the row that links a subject to a course.

use crate::ids::{generate_id, is_generated_id};
use crate::lookup::{is_first_match, none_match};
use vstd::prelude::*;

verus! {

broadcast use vstd::string::to_string_from_display_ensures_for_str;

/// A subject taught in one or more courses.
#[derive(Debug)]
pub struct Subject {
    pub id: String,
    pub code: String,
    pub name: String,
    pub program: String,
}

/// One row of the relation between subjects and courses, with its own
/// identifier.
#[derive(Debug)]
pub struct SubjectCourse {
    pub id: String,
    pub subject_id: String,
    pub course_id: String,
}

impl Clone for Subject {
    fn clone(&self) -> (r: Self)
        ensures
            r == *self,
    {
        Subject {
            id: self.id.clone(),
            code: self.code.clone(),
            name: self.name.clone(),
            program: self.program.clone(),
        }
    }
}

impl Clone for SubjectCourse {
    fn clone(&self) -> (r: Self)
        ensures
            r == *self,
    {
        SubjectCourse {
            id: self.id.clone(),
            subject_id: self.subject_id.clone(),
            course_id: self.course_id.clone(),
        }
    }
}

impl Subject {
    /// A new subject under a fresh identifier.
    pub fn new(code: &str, name: &str, program: &str) -> (r: Subject)
        ensures
            is_generated_id(r.id@),
            r.code@ == code@,
            r.name@ == name@,
            r.program@ == program@,
    {
        Subject {
            id: generate_id(),
            code: code.to_string(),
            name: name.to_string(),
            program: program.to_string(),
        }
    }

    pub fn get_id(&self) -> (r: &String)
        ensures
            r == &self.id,
    {
        &self.id
    }

    pub fn get_code(&self) -> (r: &String)
        ensures
            r == &self.code,
    {
        &self.code
    }

    pub fn get_name(&self) -> (r: &String)
        ensures
            r == &self.name,
    {
        &self.name
    }

    pub fn get_program(&self) -> (r: &String)
        ensures
            r == &self.program,
    {
        &self.program
    }
}

impl SubjectCourse {
    /// A new link from a subject to a course, under a fresh identifier.
    pub fn new(subject_id: &str, course_id: &str) -> (r: SubjectCourse)
        ensures
            is_generated_id(r.id@),
            r.subject_id@ == subject_id@,
            r.course_id@ == course_id@,
    {
        SubjectCourse {
            id: generate_id(),
            subject_id: subject_id.to_string(),
            course_id: course_id.to_string(),
        }
    }
}

/// The subject has identifier `key`.
pub open spec fn subject_has_id(key: Seq<char>) -> spec_fn(Subject) -> bool {
    |x: Subject| x.id@ == key
}

/// The position of the first subject in `items` whose identifier is `key`.
pub fn find_subject(items: &Vec<Subject>, key: &String) -> (r: Option<usize>)
    ensures
        match r {
            Some(i) => is_first_match(items@, subject_has_id(key@), i as int),
            None => none_match(items@, subject_has_id(key@)),
        },
{
    let mut i: usize = 0;
    while i < items.len()
        invariant
            i <= items@.len(),
            forall|k: int| 0 <= k < i ==> !subject_has_id(key@)(#[trigger] items@[k]),
        decreases items@.len() - i,
    {
        if items[i].id == *key {
            return Some(i);
        }
        i = i + 1;
    }
    None
}

} // verus!
