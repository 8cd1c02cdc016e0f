//! The yt-dlp command lines: the cookie options, the metadata query and the
//! download itself.
use vstd::prelude::*;

use crate::settings::Settings;
use crate::text::{append_all, chars_of, concat_str, push_str, starts_with, starts_with_str, str_eq, texts};

verus! {

/// The cookie options for yt-dlp. Cookies are used only when enabled: with the
/// "file" source, the cookie file is passed when one is configured and exists;
/// with any other source, the configured browser is passed unless it is
/// "none".
pub open spec fn cookie_args(s: Settings, cookie_file_exists: bool) -> Seq<Seq<char>> {
    if !s.use_cookies {
        seq![]
    } else if s.cookie_source_type@ == "file"@ {
        match s.cookies_path {
            Some(p) => if cookie_file_exists {
                seq!["--cookies"@, p@]
            } else {
                seq![]
            },
            None => seq![],
        }
    } else {
        match s.cookie_browser {
            Some(b) => if b@ != "none"@ {
                seq!["--cookies-from-browser"@, b@]
            } else {
                seq![]
            },
            None => seq![],
        }
    }
}

/// The cookie options for yt-dlp, given whether the configured cookie file
/// exists on disk.
pub fn cookie_arguments(settings: &Settings, cookie_file_exists: bool) -> (r: Vec<String>)
    ensures
        texts(r@) == cookie_args(*settings, cookie_file_exists),
{
    let mut r: Vec<String> = Vec::new();
    if settings.use_cookies {
        if str_eq(settings.cookie_source_type.as_str(), "file") {
            match &settings.cookies_path {
                Some(p) => {
                    if cookie_file_exists {
                        push_str(&mut r, "--cookies");
                        push_str(&mut r, p.as_str());
                    }
                },
                None => {},
            }
        } else {
            match &settings.cookie_browser {
                Some(b) => {
                    if !str_eq(b.as_str(), "none") {
                        push_str(&mut r, "--cookies-from-browser");
                        push_str(&mut r, b.as_str());
                    }
                },
                None => {},
            }
        }
    }
    assert(texts(r@) =~= cookie_args(*settings, cookie_file_exists));
    r
}

/// The arguments that ask yt-dlp for a video's metadata as JSON.
pub open spec fn info_args(url: Seq<char>, cookies: Seq<Seq<char>>) -> Seq<Seq<char>> {
    seq!["--dump-json"@, "--no-playlist"@, "--quiet"@, "--no-warnings"@] + cookies + seq![url]
}

/// The arguments of the metadata query for `url`.
pub fn info_arguments(url: &str, settings: &Settings, cookie_file_exists: bool) -> (r: Vec<String>)
    ensures
        texts(r@) == info_args(url@, cookie_args(*settings, cookie_file_exists)),
{
    let mut r: Vec<String> = Vec::new();
    push_str(&mut r, "--dump-json");
    push_str(&mut r, "--no-playlist");
    push_str(&mut r, "--quiet");
    push_str(&mut r, "--no-warnings");
    let cookies = cookie_arguments(settings, cookie_file_exists);
    append_all(&mut r, cookies);
    push_str(&mut r, url);
    assert(texts(r@) =~= info_args(url@, cookie_args(*settings, cookie_file_exists)));
    r
}

/// Where yt-dlp writes a download: `<save_path>/<title> [<id>].<ext>`.
pub open spec fn output_template(save_path: Seq<char>) -> Seq<char> {
    save_path + "/%(title)s [%(id)s].%(ext)s"@
}

/// The format options: an audio format ("bestaudio...") is extracted to MP3 at
/// 192K; "video_only_stripped" takes the best video stream (MP4 preferred);
/// any other format is passed through and merged into MP4.
pub open spec fn format_args(format: Seq<char>) -> Seq<Seq<char>> {
    if starts_with(format, "bestaudio"@) {
        seq![
            "--format"@,
            format,
            "--extract-audio"@,
            "--audio-format"@,
            "mp3"@,
            "--audio-quality"@,
            "192K"@,
        ]
    } else if format == "video_only_stripped"@ {
        seq!["--format"@, "bestvideo[ext=mp4]/bestvideo/best"@, "--merge-output-format"@, "mp4"@]
    } else {
        seq!["--format"@, format, "--merge-output-format"@, "mp4"@]
    }
}

/// The arguments of a download: progress on separate lines, the output
/// template, no playlists, a 30 s socket timeout and 10 retries; then the
/// ffmpeg location if one is known, the format options, the subtitle options
/// (English, Russian, Ukrainian) if enabled, the cookie options, and last the
/// URL.
pub open spec fn download_args(
    save_path: Seq<char>,
    format: Seq<char>,
    url: Seq<char>,
    ffmpeg: Option<Seq<char>>,
    subtitles: bool,
    cookies: Seq<Seq<char>>,
) -> Seq<Seq<char>> {
    seq![
        "--newline"@,
        "--progress"@,
        "-o"@,
        output_template(save_path),
        "--no-playlist"@,
        "--socket-timeout"@,
        "30"@,
        "--retries"@,
        "10"@,
    ] + (match ffmpeg {
        Some(f) => seq!["--ffmpeg-location"@, f],
        None => seq![],
    }) + format_args(format) + (if subtitles {
        seq!["--write-subs"@, "--sub-langs"@, "en,ru,uk"@]
    } else {
        seq![]
    }) + cookies + seq![url]
}

/// The format options for `format`.
pub fn format_arguments(format: &str) -> (r: Vec<String>)
    ensures
        texts(r@) == format_args(format@),
{
    let mut r: Vec<String> = Vec::new();
    let f = chars_of(format);
    if starts_with_str(&f, "bestaudio") {
        push_str(&mut r, "--format");
        push_str(&mut r, format);
        push_str(&mut r, "--extract-audio");
        push_str(&mut r, "--audio-format");
        push_str(&mut r, "mp3");
        push_str(&mut r, "--audio-quality");
        push_str(&mut r, "192K");
    } else if str_eq(format, "video_only_stripped") {
        push_str(&mut r, "--format");
        push_str(&mut r, "bestvideo[ext=mp4]/bestvideo/best");
        push_str(&mut r, "--merge-output-format");
        push_str(&mut r, "mp4");
    } else {
        push_str(&mut r, "--format");
        push_str(&mut r, format);
        push_str(&mut r, "--merge-output-format");
        push_str(&mut r, "mp4");
    }
    assert(texts(r@) =~= format_args(format@));
    r
}

/// The arguments of the yt-dlp download of `url` into `save_path`.
pub fn download_arguments(
    save_path: &str,
    format: &str,
    url: &str,
    ffmpeg: Option<String>,
    settings: &Settings,
    cookie_file_exists: bool,
) -> (r: Vec<String>)
    ensures
        texts(r@) == download_args(
            save_path@,
            format@,
            url@,
            crate::text::opt_text(ffmpeg),
            settings.subtitles_enabled,
            cookie_args(*settings, cookie_file_exists),
        ),
{
    let mut r: Vec<String> = Vec::new();
    push_str(&mut r, "--newline");
    push_str(&mut r, "--progress");
    push_str(&mut r, "-o");
    let template = concat_str(save_path, "/%(title)s [%(id)s].%(ext)s");
    push_str(&mut r, template.as_str());
    push_str(&mut r, "--no-playlist");
    push_str(&mut r, "--socket-timeout");
    push_str(&mut r, "30");
    push_str(&mut r, "--retries");
    push_str(&mut r, "10");
    match &ffmpeg {
        Some(f) => {
            push_str(&mut r, "--ffmpeg-location");
            push_str(&mut r, f.as_str());
        },
        None => {},
    }
    let fa = format_arguments(format);
    append_all(&mut r, fa);
    if settings.subtitles_enabled {
        push_str(&mut r, "--write-subs");
        push_str(&mut r, "--sub-langs");
        push_str(&mut r, "en,ru,uk");
    }
    let cookies = cookie_arguments(settings, cookie_file_exists);
    append_all(&mut r, cookies);
    push_str(&mut r, url);
    assert(texts(r@) =~= download_args(
        save_path@,
        format@,
        url@,
        crate::text::opt_text(ffmpeg),
        settings.subtitles_enabled,
        cookie_args(*settings, cookie_file_exists),
    ));
    r
}

/// Every download command writes through the output template and ends with
/// the URL, whatever the options in between.
pub proof fn lemma_download_args_shape(
    save_path: Seq<char>,
    format: Seq<char>,
    url: Seq<char>,
    ffmpeg: Option<Seq<char>>,
    subtitles: bool,
    cookies: Seq<Seq<char>>,
)
    ensures
        download_args(save_path, format, url, ffmpeg, subtitles, cookies).last() == url,
        download_args(save_path, format, url, ffmpeg, subtitles, cookies)[2] == "-o"@,
        download_args(save_path, format, url, ffmpeg, subtitles, cookies)[3] == output_template(
            save_path,
        ),
        info_args(url, cookies).last() == url,
{
}

/// The metadata query is the four fixed options, then every cookie option
/// unchanged and in order, then the URL.
pub proof fn lemma_info_args_pass_cookies(url: Seq<char>, cookies: Seq<Seq<char>>)
    ensures
        info_args(url, cookies).len() == cookies.len() + 5,
        info_args(url, cookies)[0] == "--dump-json"@,
        info_args(url, cookies)[1] == "--no-playlist"@,
        info_args(url, cookies)[2] == "--quiet"@,
        info_args(url, cookies)[3] == "--no-warnings"@,
        info_args(url, cookies).subrange(4, 4 + cookies.len() as int) == cookies,
        info_args(url, cookies).last() == url,
{
    assert(info_args(url, cookies).subrange(4, 4 + cookies.len() as int) =~= cookies);
}

/// With cookies enabled from a configured file that exists, the options are
/// `--cookies <path>`; from a browser other than "none", they are
/// `--cookies-from-browser <browser>`; with cookies disabled there are none.
pub proof fn lemma_cookie_args_cases(s: Settings, cookie_file_exists: bool)
    ensures
        !s.use_cookies ==> cookie_args(s, cookie_file_exists).len() == 0,
        s.use_cookies && s.cookie_source_type@ == "file"@ && cookie_file_exists
            && s.cookies_path is Some ==> cookie_args(s, cookie_file_exists) == seq![
            "--cookies"@,
            s.cookies_path.unwrap()@,
        ],
        s.use_cookies && s.cookie_source_type@ != "file"@ && s.cookie_browser is Some
            && s.cookie_browser.unwrap()@ != "none"@ ==> cookie_args(s, cookie_file_exists)
            == seq!["--cookies-from-browser"@, s.cookie_browser.unwrap()@],
{
}

/// Whatever the format, a known ffmpeg location is passed right after the
/// fixed options (`--ffmpeg-location <path>`) and the format options follow
/// it; without one the format options follow the fixed options directly. The
/// cookie options stand unchanged just before the URL.
pub proof fn lemma_download_args_ffmpeg_and_cookies(
    save_path: Seq<char>,
    format: Seq<char>,
    url: Seq<char>,
    ffmpeg: Option<Seq<char>>,
    subtitles: bool,
    cookies: Seq<Seq<char>>,
)
    ensures
        ffmpeg matches Some(f) ==> {
            &&& download_args(save_path, format, url, ffmpeg, subtitles, cookies)[9]
                == "--ffmpeg-location"@
            &&& download_args(save_path, format, url, ffmpeg, subtitles, cookies)[10] == f
            &&& download_args(save_path, format, url, ffmpeg, subtitles, cookies)[11] == "--format"@
        },
        ffmpeg is None ==> download_args(save_path, format, url, ffmpeg, subtitles, cookies)[9]
            == "--format"@,
        ({
            let a = download_args(save_path, format, url, ffmpeg, subtitles, cookies);
            a.subrange(a.len() - 1 - cookies.len(), a.len() - 1) == cookies
        }),
{
    let a = download_args(save_path, format, url, ffmpeg, subtitles, cookies);
    assert(a.subrange(a.len() - 1 - cookies.len(), a.len() - 1) =~= cookies);
}

} // verus!
