use vstd::prelude::*;

pub mod auth;
pub mod claims;
pub mod controllers;
pub mod db;
pub mod forms;
pub mod markdown;
pub mod models;
pub mod pagination;

verus! {

/// The application secret: it signs the user tokens and salts the password
/// digests.
pub struct Secret(pub String);

} // verus!
