//! Students.

pub mod model;
pub mod service;
