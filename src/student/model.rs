//! The student record.

use crate::ids::{generate_id, is_generated_id};
use crate::lookup::{is_first_match, none_match};
use vstd::prelude::*;

verus! {

broadcast use vstd::string::to_string_from_display_ensures_for_str;

/// A student, enrolled in exactly one course.
#[derive(Debug)]
pub struct Student {
    pub id: String,
    pub first_name: String,
    pub last_name: String,
    /// The course the student is enrolled in.
    pub course_id: String,
    pub language: String,
    pub email: String,
    /// The operating systems the student uses.
    pub operational_systems: Vec<String>,
}

/// What a student is, as plain sequences of characters.
pub struct StudentView {
    pub id: Seq<char>,
    pub first_name: Seq<char>,
    pub last_name: Seq<char>,
    pub course_id: Seq<char>,
    pub language: Seq<char>,
    pub email: Seq<char>,
    pub operational_systems: Seq<Seq<char>>,
}

/// The views of a list of strings.
pub open spec fn views_of(v: Seq<String>) -> Seq<Seq<char>> {
    v.map_values(|s: String| s@)
}

impl View for Student {
    type V = StudentView;

    open spec fn view(&self) -> StudentView {
        StudentView {
            id: self.id@,
            first_name: self.first_name@,
            last_name: self.last_name@,
            course_id: self.course_id@,
            language: self.language@,
            email: self.email@,
            operational_systems: views_of(self.operational_systems@),
        }
    }
}

/// The views of a list of students.
pub open spec fn student_views(v: Seq<Student>) -> Seq<StudentView> {
    v.map_values(|s: Student| s@)
}

/// Owned copies of borrowed strings, in the same order.
fn owned_strings(v: &Vec<&String>) -> (r: Vec<String>)
    ensures
        views_of(r@) == v@.map_values(|s: &String| s@),
{
    let mut r: Vec<String> = Vec::new();
    let mut i: usize = 0;
    while i < v.len()
        invariant
            i <= v@.len(),
            r@.len() == i,
            forall|k: int| 0 <= k < i ==> r@[k] == *v@[k],
        decreases v@.len() - i,
    {
        r.push(v[i].clone());
        i = i + 1;
    }
    assert(views_of(r@) =~= v@.map_values(|s: &String| s@));
    r
}

impl Clone for Student {
    fn clone(&self) -> (r: Self)
        ensures
            r@ == self@,
    {
        let operational_systems = self.operational_systems.clone();
        assert(views_of(operational_systems@) =~= views_of(self.operational_systems@));
        Student {
            id: self.id.clone(),
            first_name: self.first_name.clone(),
            last_name: self.last_name.clone(),
            course_id: self.course_id.clone(),
            language: self.language.clone(),
            email: self.email.clone(),
            operational_systems,
        }
    }
}

impl Student {
    /// A new student under a fresh identifier.
    pub fn new(
        first_name: &str,
        last_name: &str,
        course_id: &str,
        language: &str,
        email: &str,
        operational_systems: Vec<&String>,
    ) -> (r: Student)
        ensures
            is_generated_id(r.id@),
            r.first_name@ == first_name@,
            r.last_name@ == last_name@,
            r.course_id@ == course_id@,
            r.language@ == language@,
            r.email@ == email@,
            r@.operational_systems == operational_systems@.map_values(|s: &String| s@),
    {
        Student {
            id: generate_id(),
            first_name: first_name.to_string(),
            last_name: last_name.to_string(),
            course_id: course_id.to_string(),
            language: language.to_string(),
            email: email.to_string(),
            operational_systems: owned_strings(&operational_systems),
        }
    }

    pub fn get_id(&self) -> (r: &String)
        ensures
            r == &self.id,
    {
        &self.id
    }

    pub fn get_first_name(&self) -> (r: &String)
        ensures
            r == &self.first_name,
    {
        &self.first_name
    }

    pub fn get_last_name(&self) -> (r: &String)
        ensures
            r == &self.last_name,
    {
        &self.last_name
    }

    /// The identifier of the student's course.
    pub fn get_course(&self) -> (r: &String)
        ensures
            r == &self.course_id,
    {
        &self.course_id
    }

    pub fn get_language(&self) -> (r: &String)
        ensures
            r == &self.language,
    {
        &self.language
    }

    pub fn get_email(&self) -> (r: &String)
        ensures
            r == &self.email,
    {
        &self.email
    }

    pub fn get_operational_systems(&self) -> (r: &Vec<String>)
        ensures
            r == &self.operational_systems,
    {
        &self.operational_systems
    }
}

/// The student has identifier `key`.
pub open spec fn student_has_id(key: Seq<char>) -> spec_fn(Student) -> bool {
    |x: Student| x.id@ == key
}

/// The position of the first student in `items` whose identifier is `key`.
pub fn find_student(items: &Vec<Student>, key: &String) -> (r: Option<usize>)
    ensures
        match r {
            Some(i) => is_first_match(items@, student_has_id(key@), i as int),
            None => none_match(items@, student_has_id(key@)),
        },
{
    let mut i: usize = 0;
    while i < items.len()
        invariant
            i <= items@.len(),
            forall|k: int| 0 <= k < i ==> !student_has_id(key@)(#[trigger] items@[k]),
        decreases items@.len() - i,
    {
        if items[i].id == *key {
            return Some(i);
        }
        i = i + 1;
    }
    None
}

} // verus!
