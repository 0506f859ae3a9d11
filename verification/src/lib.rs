//! Rules of a small update service: a shared-secret guard in front of one
//! route, and the rewrite of two keys in the `Version` section of an INI file.
//!
//! The crate holds what the service decides and computes; reading and writing
//! the file and serving HTTP are left to the program around it.

pub mod auth;
pub mod content;
pub mod document;
pub mod error;
pub mod laws;
pub mod service;
pub mod store;
