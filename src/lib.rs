//! School records: students, courses, subjects and avatars, the rules that
//! tie them together, and the joins and groupings built over them.

pub mod ids;
pub mod lookup;
pub mod error;
pub mod course;
pub mod student;
pub mod subject;
pub mod avatar;
pub mod grouping;
pub mod joins;
