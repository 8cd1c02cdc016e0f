//! Reading what yt-dlp prints while it downloads.
use vstd::prelude::*;

use crate::text::{
    chars_eq, chars_of, contains, contains_str, find_chars, find_from, lemma_find_from, occurs_at, opt_text,
    owned, split_white_space, split_whitespace, string_of, strip_trailing, strip_trailing_chars,
    sub_chars,
    trim, trim_chars, views,
};

verus! {

/// What one line of yt-dlp output means, over texts.
pub enum LineModel {
    /// A `[download]` progress line: the percentage (without its `%` signs),
    /// and the tokens after the first "at" (speed) and the first "ETA".
    Progress { percent: Seq<char>, speed: Option<Seq<char>>, eta: Option<Seq<char>> },
    /// A merging or post-processing step.
    Processing,
    /// The file that the download is written to.
    Destination { path: Seq<char> },
    /// Anything else.
    Ignored,
}

/// What one line of yt-dlp output means.
pub enum OutputLine {
    Progress { percent: String, speed: Option<String>, eta: Option<String> },
    Processing,
    Destination { path: String },
    Ignored,
}

impl View for OutputLine {
    type V = LineModel;

    open spec fn view(&self) -> LineModel {
        match self {
            OutputLine::Progress { percent, speed, eta } => LineModel::Progress {
                percent: percent@,
                speed: opt_text(*speed),
                eta: opt_text(*eta),
            },
            OutputLine::Processing => LineModel::Processing,
            OutputLine::Destination { path } => LineModel::Destination { path: path@ },
            OutputLine::Ignored => LineModel::Ignored,
        }
    }
}

/// The first token at or after `i` that ends with `%`.
pub open spec fn percent_token_from(parts: Seq<Seq<char>>, i: int) -> Option<int>
    decreases parts.len() - i,
{
    if i < 0 || i >= parts.len() {
        None
    } else if parts[i].len() > 0 && parts[i].last() == '%' {
        Some(i)
    } else {
        percent_token_from(parts, i + 1)
    }
}

/// The first position at or after `i` of the token `w`.
pub open spec fn position_from(parts: Seq<Seq<char>>, w: Seq<char>, i: int) -> Option<int>
    decreases parts.len() - i,
{
    if i < 0 || i >= parts.len() {
        None
    } else if parts[i] == w {
        Some(i)
    } else {
        position_from(parts, w, i + 1)
    }
}

/// The token that follows the first `w`, if both exist.
pub open spec fn token_after(parts: Seq<Seq<char>>, w: Seq<char>) -> Option<Seq<char>> {
    match position_from(parts, w, 0) {
        Some(i) => if i + 1 < parts.len() {
            Some(parts[i + 1])
        } else {
            None
        },
        None => None,
    }
}

/// How a line of yt-dlp output is read. A line with "[download]" and a `%`
/// is a progress line: its first token that ends in `%` is the percentage,
/// and the tokens after "at" and "ETA" are the speed and the time left (a
/// progress line without such a token means nothing). Otherwise a line with
/// "[Merger]" or "[ffmpeg]" is post-processing; otherwise a line with
/// "Destination:" names the output file (the trimmed text after the marker),
/// and one that only says "has already been downloaded" means nothing.
pub open spec fn classify_line(line: Seq<char>) -> LineModel {
    if contains(line, "[download]"@) && contains(line, "%"@) {
        let parts = split_whitespace(line);
        match percent_token_from(parts, 0) {
            Some(i) => LineModel::Progress {
                percent: strip_trailing(parts[i], '%'),
                speed: token_after(parts, "at"@),
                eta: token_after(parts, "ETA"@),
            },
            None => LineModel::Ignored,
        }
    } else if contains(line, "[Merger]"@) || contains(line, "[ffmpeg]"@) {
        LineModel::Processing
    } else if contains(line, "Destination:"@) || contains(line, "has already been downloaded"@) {
        match find_from(line, "Destination:"@, 0) {
            Some(i) => LineModel::Destination { path: trim(line.skip(i + 12)) },
            None => LineModel::Ignored,
        }
    } else {
        LineModel::Ignored
    }
}

/// The position of the first token that ends with `%`.
fn find_percent_token(parts: &Vec<Vec<char>>) -> (r: Option<usize>)
    ensures
        r matches Some(i) ==> i < parts@.len() && percent_token_from(views(parts@), 0) == Some(
            i as int,
        ),
        r is None ==> percent_token_from(views(parts@), 0) is None,
{
    let ghost ps = views(parts@);
    let mut i: usize = 0;
    while i < parts.len()
        invariant
            i <= parts@.len(),
            ps == views(parts@),
            percent_token_from(ps, 0) == percent_token_from(ps, i as int),
        decreases parts@.len() - i,
    {
        let p = &parts[i];
        assert(ps[i as int] == p@);
        if p.len() > 0 && p[p.len() - 1] == '%' {
            return Some(i);
        }
        i += 1;
    }
    None
}

/// The token that follows the first token equal to `w`.
fn find_token_after(parts: &Vec<Vec<char>>, w: &str) -> (r: Option<String>)
    ensures
        opt_text(r) == token_after(views(parts@), w@),
{
    let ghost ps = views(parts@);
    let wc = chars_of(w);
    let mut i: usize = 0;
    while i < parts.len()
        invariant
            i <= parts@.len(),
            ps == views(parts@),
            wc@ == w@,
            position_from(ps, w@, 0) == position_from(ps, w@, i as int),
        decreases parts@.len() - i,
    {
        assert(ps[i as int] == parts@[i as int]@);
        if chars_eq(&parts[i], &wc) {
            if i + 1 < parts.len() {
                assert(ps[i + 1] == parts@[i + 1]@);
                return Some(string_of(&parts[i + 1]));
            } else {
                return None;
            }
        }
        i += 1;
    }
    None
}

/// Reads one line of yt-dlp output.
pub fn classify_output_line(line: &str) -> (r: OutputLine)
    ensures
        r@ == classify_line(line@),
{
    let l = chars_of(line);
    if contains_str(&l, "[download]") && contains_str(&l, "%") {
        let parts = split_white_space(&l);
        match find_percent_token(&parts) {
            Some(i) => {
                let pct = strip_trailing_chars(&parts[i], '%');
                let speed = find_token_after(&parts, "at");
                let eta = find_token_after(&parts, "ETA");
                OutputLine::Progress { percent: string_of(&pct), speed, eta }
            },
            None => OutputLine::Ignored,
        }
    } else if contains_str(&l, "[Merger]") || contains_str(&l, "[ffmpeg]") {
        OutputLine::Processing
    } else if contains_str(&l, "Destination:") || contains_str(&l, "has already been downloaded") {
        let marker = chars_of("Destination:");
        match find_chars(&l, &marker) {
            Some(i) => {
                proof {
                    lemma_find_from(l@, marker@, 0);
                    reveal_strlit("Destination:");
                }
                let n = l.len();
                assert(i + 12 <= n);
                let rest = sub_chars(&l, i + 12, n);
                assert(rest@ =~= l@.skip(i + 12));
                let path = trim_chars(&rest);
                OutputLine::Destination { path: string_of(&path) }
            },
            None => OutputLine::Ignored,
        }
    } else {
        OutputLine::Ignored
    }
}

/// The state kept while a download runs: the file it writes to, once yt-dlp
/// has named it.
pub struct DownloadTracker {
    pub final_path: Option<String>,
}

impl DownloadTracker {
    pub fn new() -> (t: Self)
        ensures
            t.final_path is None,
    {
        DownloadTracker { final_path: None }
    }

    /// Reads one line of output: returns what it means and remembers the
    /// output file when the line names one.
    pub fn observe(&mut self, line: &str) -> (r: OutputLine)
        ensures
            r@ == classify_line(line@),
            opt_text(final(self).final_path) == match r@ {
                LineModel::Destination { path } => Some(path),
                _ => opt_text(old(self).final_path),
            },
    {
        let r = classify_output_line(line);
        match &r {
            OutputLine::Destination { path } => {
                self.final_path = Some(path.clone());
            },
            _ => {},
        }
        r
    }
}

// ─── Progress notices ────────────────────────────────────────────────────────

/// Where a notice's percentage comes from, over texts.
pub enum PercentModel {
    Fixed(u8),
    Scaled(Seq<char>),
}

/// A progress notice for the user interface, over texts.
pub struct NoticeModel {
    pub status: Seq<char>,
    pub percent: PercentModel,
    pub speed: Option<Seq<char>>,
    pub eta: Option<Seq<char>>,
    pub message: Option<Seq<char>>,
}

/// Where a notice's percentage comes from: a fixed value, or the percentage
/// that yt-dlp printed, which is shown scaled from 0-100 down to 0-90 (the
/// last tenth is left for post-processing).
pub enum NoticePercent {
    Fixed(u8),
    Scaled(String),
}

/// A progress notice for the user interface: the status, the percentage, the
/// speed and time left when known, and a message.
pub struct ProgressNotice {
    pub status: String,
    pub percent: NoticePercent,
    pub speed: Option<String>,
    pub eta: Option<String>,
    pub message: Option<String>,
}

impl View for ProgressNotice {
    type V = NoticeModel;

    open spec fn view(&self) -> NoticeModel {
        NoticeModel {
            status: self.status@,
            percent: match self.percent {
                NoticePercent::Fixed(p) => PercentModel::Fixed(p),
                NoticePercent::Scaled(t) => PercentModel::Scaled(t@),
            },
            speed: opt_text(self.speed),
            eta: opt_text(self.eta),
            message: opt_text(self.message),
        }
    }
}

/// A notice with a fixed percentage and an optional message.
pub open spec fn fixed_notice(status: Seq<char>, percent: u8, message: Option<Seq<char>>) -> NoticeModel {
    NoticeModel { status, percent: PercentModel::Fixed(percent), speed: None, eta: None, message }
}

/// While the metadata is fetched.
pub open spec fn fetching_notice_model() -> NoticeModel {
    fixed_notice("fetching_info"@, 0, None)
}

/// When a download starts.
pub open spec fn starting_notice_model() -> NoticeModel {
    fixed_notice("downloading"@, 0, Some("Starting..."@))
}

/// What a line of yt-dlp output is reported as: progress lines as
/// "downloading" with the scaled percentage, speed and time left; merging and
/// post-processing as "processing" at 92% with "Processing..."; nothing for
/// other lines.
pub open spec fn line_notice_model(line: LineModel) -> Option<NoticeModel> {
    match line {
        LineModel::Progress { percent, speed, eta } => Some(
            NoticeModel {
                status: "downloading"@,
                percent: PercentModel::Scaled(percent),
                speed,
                eta,
                message: None,
            },
        ),
        LineModel::Processing => Some(fixed_notice("processing"@, 92, Some("Processing..."@))),
        _ => None,
    }
}

/// When yt-dlp exits: "completed" at 100% after success, otherwise "error" at
/// 0% with "Download failed".
pub open spec fn finished_notice_model(success: bool) -> NoticeModel {
    if success {
        fixed_notice("completed"@, 100, None)
    } else {
        fixed_notice("error"@, 0, Some("Download failed"@))
    }
}

fn fixed(status: &str, percent: u8, message: Option<&str>) -> (n: ProgressNotice)
    ensures
        n@ == fixed_notice(
            status@,
            percent,
            match message {
                Some(m) => Some(m@),
                None => None,
            },
        ),
{
    let message = match message {
        Some(m) => Some(owned(m)),
        None => None,
    };
    ProgressNotice {
        status: owned(status),
        percent: NoticePercent::Fixed(percent),
        speed: None,
        eta: None,
        message,
    }
}

/// The notice shown while the metadata is fetched.
pub fn fetching_notice() -> (n: ProgressNotice)
    ensures
        n@ == fetching_notice_model(),
{
    fixed("fetching_info", 0, None)
}

/// The notice shown when a download starts.
pub fn starting_notice() -> (n: ProgressNotice)
    ensures
        n@ == starting_notice_model(),
{
    fixed("downloading", 0, Some("Starting..."))
}

/// The notice for a line of yt-dlp output, if the line is reported.
pub fn line_notice(line: OutputLine) -> (n: Option<ProgressNotice>)
    ensures
        match n {
            Some(m) => line_notice_model(line@) == Some(m@),
            None => line_notice_model(line@) is None,
        },
{
    match line {
        OutputLine::Progress { percent, speed, eta } => Some(
            ProgressNotice {
                status: owned("downloading"),
                percent: NoticePercent::Scaled(percent),
                speed,
                eta,
                message: None,
            },
        ),
        OutputLine::Processing => Some(fixed("processing", 92, Some("Processing..."))),
        _ => None,
    }
}

/// The notice shown when yt-dlp exits.
pub fn finished_notice(success: bool) -> (n: ProgressNotice)
    ensures
        n@ == finished_notice_model(success),
{
    if success {
        fixed("completed", 100, None)
    } else {
        fixed("error", 0, Some("Download failed"))
    }
}

/// A line that is neither a progress line ("[download]" with a `%`) nor a
/// post-processing line ("[Merger]", "[ffmpeg]") and holds "Destination:"
/// names the output file: the trimmed text after the first "Destination:",
/// whichever step printed it.
pub proof fn lemma_destination_names_file(line: Seq<char>, i: int)
    requires
        !(contains(line, "[download]"@) && contains(line, "%"@)),
        !contains(line, "[Merger]"@),
        !contains(line, "[ffmpeg]"@),
        occurs_at(line, "Destination:"@, i),
        forall|j: int| 0 <= j < i ==> !occurs_at(line, "Destination:"@, j),
    ensures
        classify_line(line) == (LineModel::Destination {
            path: trim(line.subrange(i + 12, line.len() as int)),
        }),
{
    reveal_strlit("Destination:");
    assert(contains(line, "Destination:"@));
    lemma_find_from(line, "Destination:"@, 0);
    assert(find_from(line, "Destination:"@, 0) == Some(i));
    assert(line.skip(i + 12) =~= line.subrange(i + 12, line.len() as int));
}

} // verus!
