//! A static file server for local development: the decisions it makes, each
//! with its contract.

pub mod errors;
pub mod platform;
pub mod text;
pub mod browser;
pub mod paths;
pub mod guard;
pub mod listen;
pub mod patterns;
pub mod globs;
pub mod ignore;
pub mod watch;
pub mod serve;
pub mod banner;
pub mod laws;
