//! A caching proxy for packaged assets: cache keys, requests to the asset
//! service, archive extraction, asset-path substitution and error replies.

pub mod archive;
pub mod assets;
pub mod cache;
pub mod config;
pub mod errors;
pub mod handlers;
pub mod text;

pub use crate::config::Config;
pub use crate::errors::{AppError, ErrorMessage};
