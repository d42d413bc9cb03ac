//! Role-based permission trees: the tree algebra that combines them, the
//! path resolver that reads one permission out of a tree, and the role cache
//! that a synchronization task keeps up to date.

use vstd::prelude::*;

pub mod app;
pub mod auth;
pub mod cache;
pub mod config;
pub mod error;
pub mod laws;
pub mod model;
pub mod path;
pub mod resolve;
pub mod role;
pub mod store;
pub mod text;

pub use auth::Auth;
pub use cache::Roles;
pub use config::{AuthBuilder, MongoDB};
pub use error::AuthError;

verus! {

pub type Result<T> = std::result::Result<T, AuthError>;

} // verus!
