//! Rotating "mashup" assets: random sampling of a paginated track catalog,
//! a chunked cache bundle with miss recovery, and the retained window of
//! asset records.

pub mod error;
pub mod text;
pub mod cache;
pub mod pagination;
pub mod deezer;
pub mod sampler;
pub mod retry;
pub mod dictionary;
pub mod models;
pub mod window;
pub mod mashup;
pub mod supabase;
pub mod query;
pub mod cover;
pub mod refresh;

pub use error::{Error, Result};
