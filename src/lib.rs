//! A front end for a lyrics site: scrapes lyric pages into verses, attaches
//! annotations and rewrites embedded links so that they go through this proxy.

pub mod annotations;
pub mod api;
pub mod genius;
pub mod links;
pub mod lyrics;
pub mod page;
pub mod resource;
pub mod search;
pub mod settings;
pub mod utils;
