//! Core logic of `ndnd`, a terminal client that keeps an AniList watch list
//! in step with episodes fetched from nyaa: request bodies, response
//! extraction, list navigation and the small text manipulations around them.

pub mod text;
pub mod json;
pub mod anilist;
pub mod nyaa;
pub mod utils;
pub mod pages;
pub mod uri;
