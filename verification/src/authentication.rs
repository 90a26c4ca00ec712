//! Who is making a request: user identities, and what stands between an
//! anonymous visitor and the admin pages.

pub mod middleware;
pub mod password;
