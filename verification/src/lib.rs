//! Verified core of a desktop media downloader built around yt-dlp.
use vstd::prelude::*;

pub mod text;
pub mod url;
pub mod settings;
pub mod commands;
pub mod progress;
pub mod history;
pub mod version;
pub mod metadata;
pub mod tools;

verus! {
} // verus!
