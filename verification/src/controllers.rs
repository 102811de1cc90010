pub mod comment;
pub mod login;
pub mod post;
pub mod user;
