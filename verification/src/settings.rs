//! The user's settings and the application state that holds them.
use std::collections::HashMap;
use std::path::PathBuf;

use vstd::prelude::*;

use crate::text::owned;

verus! {

/// The settings that the user edits and that are saved between runs.
#[derive(Clone, Debug)]
pub struct Settings {
    pub theme: String,
    pub language: String,
    pub save_path: Option<String>,
    pub parallel_downloads: u32,
    pub subtitles_enabled: bool,
    pub use_cookies: bool,
    pub cookie_source_type: String,
    pub cookies_path: Option<String>,
    pub cookie_browser: Option<String>,
    pub quality_settings: HashMap<String, String>,
    pub recent_urls: Vec<String>,
    pub skipped_ytdlp_version: Option<String>,
}

/// The settings of a first run: dark theme, Russian interface, two parallel
/// downloads, no subtitles, no cookies (file source), nothing remembered.
pub open spec fn is_default_settings(s: Settings) -> bool {
    &&& s.theme@ == "dark"@
    &&& s.language@ == "ru"@
    &&& s.save_path is None
    &&& s.parallel_downloads == 2
    &&& !s.subtitles_enabled
    &&& !s.use_cookies
    &&& s.cookie_source_type@ == "file"@
    &&& s.cookies_path is None
    &&& s.cookie_browser is None
    &&& s.quality_settings@ == Map::<String, String>::empty()
    &&& s.recent_urls@ == Seq::<String>::empty()
    &&& s.skipped_ytdlp_version is None
}

impl Default for Settings {
    fn default() -> (s: Self)
        ensures
            is_default_settings(s),
    {
        Settings {
            theme: owned("dark"),
            language: owned("ru"),
            save_path: None,
            parallel_downloads: 2,
            subtitles_enabled: false,
            use_cookies: false,
            cookie_source_type: owned("file"),
            cookies_path: None,
            cookie_browser: None,
            quality_settings: HashMap::new(),
            recent_urls: Vec::new(),
            skipped_ytdlp_version: None,
        }
    }
}

/// A file-system path, carried through unchanged.
#[verifier::external_type_specification]
#[verifier::external_body]
pub struct ExPathBuf(PathBuf);

/// What the application keeps while it runs: the current settings and where
/// the history and the settings are stored once the data directory is known.
pub struct AppState {
    pub settings: Settings,
    pub history_path: Option<PathBuf>,
    pub settings_path: Option<PathBuf>,
}

impl AppState {
    /// The state at start-up: default settings and no storage paths yet.
    pub fn new() -> (s: Self)
        ensures
            is_default_settings(s.settings),
            s.history_path is None,
            s.settings_path is None,
    {
        AppState { settings: Settings::default(), history_path: None, settings_path: None }
    }
}

} // verus!
