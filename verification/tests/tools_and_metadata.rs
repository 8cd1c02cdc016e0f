use media_downloader::metadata::{pypi_latest_version, text_or_default, update_check, video_fields, video_fields_from_json};
use media_downloader::tools::{
    browser_probes, configured_save_path, detected_browsers, ffmpeg_version_line, ToolSearch,
    update_result, ytdlp_candidates, ytdlp_version,
};

#[test]
fn video_metadata_from_json() {
    let json = r#"{"id":"dQw4","title":"Song","thumbnail":"https://i/t.jpg","extractor_key":"Youtube","duration":212.0,"uploader":"Rick"}"#;
    let v = video_fields_from_json(json, "https://y/w".to_string()).unwrap();
    assert_eq!(v.id, "dQw4");
    assert_eq!(v.title, "Song");
    assert_eq!(v.thumbnail.as_deref(), Some("https://i/t.jpg"));
    assert_eq!(v.platform, "Youtube");
    assert_eq!(v.uploader.as_deref(), Some("Rick"));
    assert_eq!(v.url, "https://y/w");
}

#[test]
fn missing_metadata_gets_defaults() {
    let v = video_fields_from_json(r#"{"title": 5, "uploader": null}"#, "u".to_string()).unwrap();
    assert_eq!(v.id, "");
    assert_eq!(v.title, "Unknown Title");
    assert_eq!(v.thumbnail, None);
    assert_eq!(v.platform, "Unknown");
    assert_eq!(v.uploader, None);
    let w = video_fields(None, Some("T".into()), None, None, Some("U".into()), "x".into());
    assert_eq!(w.title, "T");
    assert_eq!(w.platform, "Unknown");
    assert_eq!(w.uploader.as_deref(), Some("U"));
}

#[test]
fn broken_json_gives_the_parser_message() {
    let text = "{\"id\": ";
    let err = video_fields_from_json(text, "u".to_string()).err().unwrap();
    let want = serde_json::from_str::<serde_json::Value>(text).unwrap_err().to_string();
    assert_eq!(err, want);
    assert!(video_fields_from_json("", "u".into()).is_err());
}

#[test]
fn latest_version_from_pypi() {
    assert_eq!(
        pypi_latest_version(br#"{"info":{"version":"2025.06.30","name":"yt-dlp"}}"#),
        Ok("2025.06.30".to_string())
    );
    assert_eq!(pypi_latest_version(br#"{"info":{}}"#), Ok(String::new()));
    assert_eq!(pypi_latest_version(br#"[1, 2]"#), Ok(String::new()));
}

#[test]
fn undecodable_pypi_answers_are_decoding_errors() {
    assert_eq!(pypi_latest_version(b"not json"), Err("error decoding response body".to_string()));
    assert_eq!(pypi_latest_version(b""), Err("error decoding response body".to_string()));
    // Invalid UTF-8 inside a JSON string is rejected, not replaced.
    let bad: &[u8] = &[b'{', b'"', b'a', b'"', b':', b'"', 0xff, b'"', b'}'];
    assert_eq!(pypi_latest_version(bad), Err("error decoding response body".to_string()));
}

#[test]
fn update_check_compares_versions() {
    let c = update_check("2025.01.15\n", "2025.06.30".to_string());
    assert_eq!(c.current, "2025.01.15");
    assert_eq!(c.latest, "2025.06.30");
    assert!(c.has_update);
    let d = update_check(" 2025.6.30 ", "2025.06.30".to_string());
    assert!(!d.has_update);
}

#[test]
fn ytdlp_is_looked_for_in_order() {
    let c = ytdlp_candidates(vec!["/home/u/.local/bin/yt-dlp".to_string()]);
    assert_eq!(c, vec!["/home/u/.local/bin/yt-dlp", "yt-dlp", "yt-dlp.exe", "/usr/local/bin/yt-dlp", "/usr/bin/yt-dlp"]);
    assert_eq!(ytdlp_candidates(vec![]).len(), 4);
}

fn run_search(candidates: &[&str], outcomes: &[bool]) -> (Vec<String>, Option<String>) {
    let mut search = ToolSearch::new(candidates.iter().map(|c| c.to_string()).collect());
    let mut tried = Vec::new();
    let mut k = 0;
    while let Some(c) = search.next_candidate() {
        tried.push(c);
        search.report(outcomes[k]);
        k += 1;
    }
    (tried, search.result())
}

#[test]
fn first_working_candidate_is_taken() {
    let (tried, found) = run_search(&["a", "b", "c"], &[false, true, true]);
    assert_eq!(tried, vec!["a", "b"]);
    assert_eq!(found.as_deref(), Some("b"));
    let (tried, found) = run_search(&["a", "b", "c"], &[false, false, false]);
    assert_eq!(tried, vec!["a", "b", "c"]);
    assert_eq!(found, None);
    let (tried, found) = run_search(&[], &[]);
    assert!(tried.is_empty());
    assert_eq!(found, None);
}

#[test]
fn reports_after_the_search_ended_change_nothing() {
    let mut search = ToolSearch::new(vec!["x".to_string()]);
    search.report(true);
    search.report(false);
    assert_eq!(search.result().as_deref(), Some("x"));
    assert_eq!(search.next_candidate(), None);
}

#[test]
fn browsers_table_and_detection() {
    let probes = browser_probes();
    let names: Vec<&str> = probes.iter().map(|p| p.name.as_str()).collect();
    assert_eq!(names, vec!["chrome", "firefox", "brave", "edge", "chromium", "opera", "vivaldi"]);
    assert_eq!(probes[0].commands, vec!["google-chrome", "google-chrome-stable", "chrome"]);
    assert_eq!(probes[3].commands, vec!["microsoft-edge", "msedge"]);
    let found = vec![false, true, false, false, true, false, false];
    assert_eq!(detected_browsers(&probes, &found), vec!["none", "firefox", "chromium"]);
    assert_eq!(detected_browsers(&probes, &vec![false; 7]), vec!["none"]);
}

#[test]
fn save_path_choice() {
    assert_eq!(configured_save_path(Some("/m".into()), true).as_deref(), Some("/m"));
    assert_eq!(configured_save_path(Some("/m".into()), false), None);
    assert_eq!(configured_save_path(None, true), None);
}

#[test]
fn tool_versions() {
    assert_eq!(ytdlp_version("2025.06.30\n"), "2025.06.30");
    assert_eq!(ffmpeg_version_line("ffmpeg version 6.1 Copyright\r\nbuilt with gcc\n"), "ffmpeg version 6.1 Copyright");
    assert_eq!(ffmpeg_version_line(""), "unknown");
    assert_eq!(ffmpeg_version_line("\n"), "");
    assert_eq!(ffmpeg_version_line("single"), "single");
    for s in ["a\r", "a\r\n", "\r\nb", "x\ny"] {
        assert_eq!(ffmpeg_version_line(s), s.lines().next().unwrap_or("unknown"));
    }
}

#[test]
fn update_outcomes() {
    assert_eq!(update_result(true, "Updated yt-dlp to 2025.06.30\n", "", false), Ok("Updated yt-dlp to 2025.06.30".to_string()));
    assert_eq!(update_result(true, "a", "b", false), Ok("a\nb".to_string()));
    assert_eq!(update_result(true, " ", "\n", false), Ok("yt-dlp updated successfully".to_string()));
    assert_eq!(update_result(false, "", "", true), Ok("yt-dlp updated successfully via pip".to_string()));
    assert_eq!(
        update_result(false, "", "ERROR: no permission", false),
        Err("ERROR: no permission\n(If you are on Windows, try running the app as Administrator to update the bundled version)".to_string())
    );
}

#[test]
fn missing_texts_get_their_default() {
    assert_eq!(text_or_default(Some("2025.01.01".into()), ""), "2025.01.01");
    assert_eq!(text_or_default(None, ""), "");
    assert_eq!(text_or_default(None, "Unknown"), "Unknown");
}
