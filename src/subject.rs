//! Subjects and their links to courses.

pub mod model;
pub mod service;
