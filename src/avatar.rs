//! Avatars.

pub mod model;
pub mod service;
