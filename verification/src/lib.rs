//! Document mapping and faceted search planning for a personal media and
//! bookmark collection, with every function verified against its contract.

pub mod api;
pub mod bookmarks;
pub mod codec;
pub mod document;
pub mod error;
pub mod facet;
pub mod fields;
pub mod filesystem;
pub mod ids;
pub mod objects;
pub mod query;
pub mod scan;
pub mod score;
pub mod search;
pub mod tags;
pub mod text;
pub mod utility;
