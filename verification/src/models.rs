//! The persistent entities of the service and their operations.
pub mod admin;
pub mod image;
pub mod recipe;
pub mod user;
