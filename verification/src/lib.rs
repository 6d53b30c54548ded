//! Core of a recipe-sharing backend: credential store, token
//! issuer/validator, authorization extraction, the recipe aggregate
//! store and the image reference ledger, all specified and verified
//! against an explicit model of the persistent state.
pub mod api;
pub mod config;
pub mod crypto;
pub mod db;
pub mod error;
pub mod ids;
pub mod laws;
pub mod models;
pub mod text;

use vstd::prelude::*;

verus! {

} // verus!
