//! Publishing a newsletter issue.

pub mod get;
pub mod post;
