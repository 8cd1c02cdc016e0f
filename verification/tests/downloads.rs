use media_downloader::commands::{cookie_arguments, download_arguments, info_arguments};
use media_downloader::progress::{classify_output_line, DownloadTracker, OutputLine};
use media_downloader::settings::{AppState, Settings};

fn progress(line: &str) -> Option<(String, Option<String>, Option<String>)> {
    match classify_output_line(line) {
        OutputLine::Progress { percent, speed, eta } => Some((percent, speed, eta)),
        _ => None,
    }
}

#[test]
fn default_settings() {
    let s = Settings::default();
    assert_eq!(s.theme, "dark");
    assert_eq!(s.language, "ru");
    assert_eq!(s.save_path, None);
    assert_eq!(s.parallel_downloads, 2);
    assert!(!s.subtitles_enabled);
    assert!(!s.use_cookies);
    assert_eq!(s.cookie_source_type, "file");
    assert_eq!(s.cookies_path, None);
    assert_eq!(s.cookie_browser, None);
    assert!(s.quality_settings.is_empty());
    assert!(s.recent_urls.is_empty());
    assert_eq!(s.skipped_ytdlp_version, None);
}

#[test]
fn app_state_starts_empty() {
    let st = AppState::new();
    assert_eq!(st.settings.theme, "dark");
    assert_eq!(st.history_path, None);
    assert_eq!(st.settings_path, None);
}

#[test]
fn cookies_follow_the_settings() {
    let mut s = Settings::default();
    assert!(cookie_arguments(&s, true).is_empty());
    s.use_cookies = true;
    s.cookies_path = Some("/home/u/cookies.txt".to_string());
    assert_eq!(cookie_arguments(&s, true), vec!["--cookies", "/home/u/cookies.txt"]);
    assert!(cookie_arguments(&s, false).is_empty());
    s.cookie_source_type = "browser".to_string();
    assert!(cookie_arguments(&s, true).is_empty());
    s.cookie_browser = Some("firefox".to_string());
    assert_eq!(cookie_arguments(&s, false), vec!["--cookies-from-browser", "firefox"]);
    s.cookie_browser = Some("none".to_string());
    assert!(cookie_arguments(&s, true).is_empty());
}

#[test]
fn metadata_query_arguments() {
    let mut s = Settings::default();
    assert_eq!(
        info_arguments("https://x/y", &s, false),
        vec!["--dump-json", "--no-playlist", "--quiet", "--no-warnings", "https://x/y"]
    );
    s.use_cookies = true;
    s.cookie_source_type = "browser".to_string();
    s.cookie_browser = Some("chrome".to_string());
    assert_eq!(
        info_arguments("u", &s, false),
        vec!["--dump-json", "--no-playlist", "--quiet", "--no-warnings", "--cookies-from-browser", "chrome", "u"]
    );
}

#[test]
fn audio_download_arguments() {
    let s = Settings::default();
    let args = download_arguments("/dl", "bestaudio[ext=m4a]", "URL", None, &s, false);
    assert_eq!(
        args,
        vec![
            "--newline", "--progress", "-o", "/dl/%(title)s [%(id)s].%(ext)s", "--no-playlist",
            "--socket-timeout", "30", "--retries", "10", "--format", "bestaudio[ext=m4a]",
            "--extract-audio", "--audio-format", "mp3", "--audio-quality", "192K", "URL",
        ]
    );
}

#[test]
fn video_only_download_arguments() {
    let mut s = Settings::default();
    s.subtitles_enabled = true;
    let args = download_arguments("/dl", "video_only_stripped", "URL", Some("/opt/ffmpeg".to_string()), &s, false);
    assert_eq!(
        args,
        vec![
            "--newline", "--progress", "-o", "/dl/%(title)s [%(id)s].%(ext)s", "--no-playlist",
            "--socket-timeout", "30", "--retries", "10", "--ffmpeg-location", "/opt/ffmpeg",
            "--format", "bestvideo[ext=mp4]/bestvideo/best", "--merge-output-format", "mp4",
            "--write-subs", "--sub-langs", "en,ru,uk", "URL",
        ]
    );
}

#[test]
fn other_format_download_arguments() {
    let mut s = Settings::default();
    s.use_cookies = true;
    s.cookies_path = Some("c.txt".to_string());
    let args = download_arguments("/dl", "bestvideo+bestaudio", "URL", None, &s, true);
    assert_eq!(
        args,
        vec![
            "--newline", "--progress", "-o", "/dl/%(title)s [%(id)s].%(ext)s", "--no-playlist",
            "--socket-timeout", "30", "--retries", "10", "--format", "bestvideo+bestaudio",
            "--merge-output-format", "mp4", "--cookies", "c.txt", "URL",
        ]
    );
    assert_eq!(args.last().unwrap(), "URL");
}

#[test]
fn progress_lines_are_read() {
    assert_eq!(
        progress("[download]  45.3% of   10.00MiB at    1.23MiB/s ETA 00:05"),
        Some(("45.3".to_string(), Some("1.23MiB/s".to_string()), Some("00:05".to_string())))
    );
    assert_eq!(
        progress("[download] 100%% of 3.00MiB"),
        Some(("100".to_string(), None, None))
    );
    assert_eq!(progress("[download]  12.0% at"), Some(("12.0".to_string(), None, None)));
}

#[test]
fn progress_line_without_percent_token_is_ignored() {
    assert!(matches!(classify_output_line("[download] 50 % done"), OutputLine::Progress { .. }));
    assert!(matches!(classify_output_line("[download] x%y Destination: a"), OutputLine::Ignored));
}

#[test]
fn processing_and_destination_lines() {
    assert!(matches!(classify_output_line("[Merger] Merging formats into \"a.mp4\""), OutputLine::Processing));
    assert!(matches!(classify_output_line("[ffmpeg] Destination: a.mp3"), OutputLine::Processing));
    match classify_output_line("[download] Destination: /tmp/My Video [x1].mp4  ") {
        OutputLine::Destination { path } => assert_eq!(path, "/tmp/My Video [x1].mp4"),
        _ => panic!("expected a destination"),
    }
    assert!(matches!(
        classify_output_line("[download] /tmp/a.mp4 has already been downloaded"),
        OutputLine::Ignored
    ));
    assert!(matches!(classify_output_line("[youtube] abc: Downloading webpage"), OutputLine::Ignored));
}

#[test]
fn tracker_remembers_the_destination() {
    let mut t = DownloadTracker::new();
    assert_eq!(t.final_path, None);
    t.observe("[youtube] x: Downloading");
    assert_eq!(t.final_path, None);
    t.observe("[download] Destination: /d/a.webm");
    t.observe("[download]  10.0% of 1MiB");
    assert_eq!(t.final_path.as_deref(), Some("/d/a.webm"));
    t.observe("[download] Destination: /d/b.m4a");
    assert_eq!(t.final_path.as_deref(), Some("/d/b.m4a"));
}

use media_downloader::progress::{
    fetching_notice, finished_notice, line_notice, starting_notice, NoticePercent, ProgressNotice,
};

fn fixed_percent(n: &ProgressNotice) -> Option<u8> {
    match n.percent {
        NoticePercent::Fixed(p) => Some(p),
        NoticePercent::Scaled(_) => None,
    }
}

#[test]
fn fixed_notices() {
    let f = fetching_notice();
    assert_eq!((f.status.as_str(), fixed_percent(&f), f.message), ("fetching_info", Some(0), None));
    let s = starting_notice();
    assert_eq!(s.status, "downloading");
    assert_eq!(fixed_percent(&s), Some(0));
    assert_eq!(s.message.as_deref(), Some("Starting..."));
    let c = finished_notice(true);
    assert_eq!((c.status.as_str(), fixed_percent(&c), c.message), ("completed", Some(100), None));
    let e = finished_notice(false);
    assert_eq!(e.status, "error");
    assert_eq!(fixed_percent(&e), Some(0));
    assert_eq!(e.message.as_deref(), Some("Download failed"));
}

#[test]
fn line_notices() {
    let n = line_notice(classify_output_line("[download]  45.3% of 10MiB at 1.2MiB/s ETA 00:05")).unwrap();
    assert_eq!(n.status, "downloading");
    match &n.percent {
        NoticePercent::Scaled(t) => assert_eq!(t, "45.3"),
        NoticePercent::Fixed(_) => panic!("expected the printed percentage"),
    }
    assert_eq!(n.speed.as_deref(), Some("1.2MiB/s"));
    assert_eq!(n.eta.as_deref(), Some("00:05"));
    assert_eq!(n.message, None);
    let p = line_notice(classify_output_line("[Merger] Merging formats")).unwrap();
    assert_eq!(p.status, "processing");
    assert_eq!(fixed_percent(&p), Some(92));
    assert_eq!(p.message.as_deref(), Some("Processing..."));
    assert!(line_notice(classify_output_line("[download] Destination: a.mp4")).is_none());
    assert!(line_notice(classify_output_line("anything")).is_none());
}
