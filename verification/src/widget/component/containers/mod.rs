//! Processors for the containers that come with the library.

pub mod size_box;
pub mod vertical_box;
