//! The request-level operations behind each route: the shapes a
//! request and a response take, and the verified work between them.
pub mod admin;
pub mod image;
pub mod recipe;
pub mod user;
