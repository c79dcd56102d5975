//! Verified core of a small web front end for browsing MangaDex and
//! downloading chapters to an e-reader.

pub mod text;
pub mod natural;
pub mod slug;
pub mod error;
pub mod mangadex;
pub mod requests;
pub mod chapter;
pub mod pages;
pub mod logging;
pub mod cover_download;
