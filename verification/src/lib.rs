//! Verified core of an AdoptOpenJDK installer: request paths, API error
//! handling, release listings, install bookkeeping and archive unpacking order.

pub mod error;
pub mod text;
pub mod response;
pub mod request;
pub mod api;
pub mod settings;
pub mod installer;
pub mod download;
