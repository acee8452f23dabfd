//! Configuration and path logic for remote storage backends driven by an
//! operator-style storage access layer.
use vstd::prelude::*;

pub mod backend;
pub mod config;
pub mod map;
pub mod operator;
pub mod path;
pub mod services;
pub mod text;

pub use path::path_to_str;
