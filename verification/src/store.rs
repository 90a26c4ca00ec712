//! The transactional store behind the service: subscribers, saved
//! responses, newsletter issues and the delivery queue.

pub mod memory;
pub mod model;
pub mod preservation;
