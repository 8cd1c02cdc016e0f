use media_downloader::text::{chars_of, concat_str, str_eq, trim_str, split_white_space, split_on_char};
use media_downloader::url::{apply_video_id, normalize_url};

fn words(v: Vec<Vec<char>>) -> Vec<String> {
    v.into_iter().map(|w| w.into_iter().collect()).collect()
}

#[test]
fn trim_removes_unicode_white_space() {
    assert_eq!(trim_str("  \t hello world \n"), "hello world");
    assert_eq!(trim_str("\u{3000}\u{a0}x\u{2028}"), "x");
    assert_eq!(trim_str(""), "");
    assert_eq!(trim_str(" \r\n "), "");
    for s in ["  a b ", "\u{85}z\u{205f}", "no-space", "\u{200b}keep\u{200b}"] {
        assert_eq!(trim_str(s), s.trim());
    }
}

#[test]
fn trim_is_idempotent_on_examples() {
    for s in ["  x  ", "\n\ty", "", "z"] {
        let once = trim_str(s);
        assert_eq!(trim_str(&once), once);
    }
}

#[test]
fn concat_and_equality() {
    assert_eq!(concat_str("ab", "cd"), "abcd");
    assert_eq!(concat_str("", "é"), "é");
    assert!(str_eq("file", "file"));
    assert!(!str_eq("file", "files"));
    assert_eq!(chars_of("añb"), vec!['a', 'ñ', 'b']);
}

#[test]
fn split_whitespace_matches_std() {
    for s in ["[download]  45.3% of   10.00MiB", "", "   ", "a\u{3000}b\tc ", "one"] {
        let got = words(split_white_space(&chars_of(s)));
        let want: Vec<String> = s.split_whitespace().map(String::from).collect();
        assert_eq!(got, want);
    }
}

#[test]
fn split_on_dot_matches_std() {
    for s in ["2026.03.03", "", ".", "a..b.", "no-dots"] {
        let got = words(split_on_char(&chars_of(s), '.'));
        let want: Vec<String> = s.split('.').map(String::from).collect();
        assert_eq!(got, want);
    }
}

#[test]
fn kick_video_pages_are_rewritten() {
    assert_eq!(
        normalize_url("  https://www.kick.com/somechannel/videos/1a2b3c-4d5e-6f  "),
        "https://kick.com/video/1a2b3c-4d5e-6f"
    );
    assert_eq!(
        normalize_url("http://kick.com/streamer/videos/ABCDEF"),
        "https://kick.com/video/ABCDEF"
    );
}

#[test]
fn other_urls_are_only_trimmed() {
    assert_eq!(
        normalize_url(" https://www.youtube.com/watch?v=abc \n"),
        "https://www.youtube.com/watch?v=abc"
    );
    // An id shorter than six characters is not a kick.com video id.
    assert_eq!(
        normalize_url("https://kick.com/streamer/videos/abc"),
        "https://kick.com/streamer/videos/abc"
    );
    assert_eq!(normalize_url("https://kick.com/video/abcdef12"), "https://kick.com/video/abcdef12");
}

#[test]
fn normalizing_twice_changes_nothing() {
    for u in ["  https://vimeo.com/1 ", "https://kick.com/a/videos/123456", "x"] {
        let once = normalize_url(u);
        assert_eq!(normalize_url(&once), once);
    }
}

#[test]
fn kick_urls_normalize_to_trimmed_fixed_points() {
    for u in [
        "\t https://www.kick.com/chan/videos/0a1b2c3d-4e5f \n",
        "http://kick.com/streamer/videos/ABCDEF",
    ] {
        let once = normalize_url(u);
        assert!(once.starts_with("https://kick.com/video/"));
        assert_eq!(once.trim(), once);
        assert_eq!(normalize_url(&once), once);
    }
}

#[test]
fn video_id_is_applied() {
    assert_eq!(apply_video_id("whatever", Some("abc123".to_string())), "https://kick.com/video/abc123");
    assert_eq!(apply_video_id("https://a.b/c", None), "https://a.b/c");
}
