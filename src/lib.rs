//! Account identity resolution across third-party login platforms.
//!
//! The library holds the decision logic of an account service: an expiring
//! key/value cache, a per-key single-flight guard, the records of accounts and
//! their platform links, the resolution of an external identity to one
//! canonical account, and the link-code exchange that hands a resolved
//! identity from one login flow to another.
mod digest;
pub mod cache;
pub mod guard;
pub mod keyed;
pub mod link;
pub mod oauth;
pub mod platform;
pub mod records;
pub mod resolver;
pub mod responses;
pub mod store;
pub mod sync;
pub mod text;

pub use platform::AccountPlatformType;
