//! The shapes of what the metadata services answer.

pub mod lastfm;
pub mod tachidesk;
pub mod tmdb;
