//! The commands of the service, one module per route.

pub mod admin;
pub mod home;
pub mod login;
pub mod newsletters;
pub mod subscriptions;
pub mod subscriptions_confirm;
