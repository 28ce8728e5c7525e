//! Typed client for the cfwidget project-metadata API.
//!
//! The crate builds the request address for a project, reads the JSON body of
//! the answer into a [`Project`], and tells a transport failure from a body that
//! cannot be interpreted. It performs no I/O itself: the caller supplies the
//! transport.

pub mod decimal;
pub mod decode;
pub mod encode;
pub mod error;
pub mod fetch;
pub mod json;
pub mod link;
pub mod rejection;
pub mod round_trip;
pub mod types;
pub mod validity;
pub mod version;

pub use crate::fetch::{fetch_project_by_id, fetch_project_by_info};
