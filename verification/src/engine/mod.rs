//! Model catalog, cache layout, readiness checks and the pure parts of the
//! chat / tool plumbing.

pub mod backend;
pub mod chat;
pub mod catalog;
pub mod civil;
pub mod install;
pub mod json;
pub mod paths;
pub mod prompt;
pub mod schema;
pub mod status;
pub mod toolcall;
pub mod tools;
