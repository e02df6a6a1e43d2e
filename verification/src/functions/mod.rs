//! The operations of the course registry.
pub mod create_course;
pub mod add_module;
pub mod delete_course;
pub mod get_courses_by_instructor;
