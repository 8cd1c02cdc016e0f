//! Normalisation of the URLs that the user pastes.
use vstd::prelude::*;

use crate::text::{contains, opt_text, owned, trim, trim_str, concat_str, is_white_space, occurs_at};

verus! {

/// The pattern of a kick.com video page; its first group is the video id.
pub const KICK_VIDEO_PATTERN: &'static str = "https?://(?:www\\.)?kick\\.com/[^/]+/videos/([0-9a-fA-F-]{6,})";

/// What group `group` captured in the leftmost-first match of the regular
/// expression `pattern` (regex_lite syntax) in `haystack`; `None` where the
/// pattern does not compile, nothing matches, or the group took no part in the
/// match.
pub uninterp spec fn regex_capture(pattern: Seq<char>, haystack: Seq<char>, group: nat) -> Option<Seq<char>>;

/// A character that the class `[0-9a-fA-F-]` of the kick.com pattern admits.
pub open spec fn is_id_char(c: char) -> bool {
    ||| '0' <= c <= '9'
    ||| 'a' <= c <= 'f'
    ||| 'A' <= c <= 'F'
    ||| c == '-'
}

/// What the first group of the kick.com pattern can capture in `haystack`:
/// six or more id characters, standing right behind `/videos/`.
pub open spec fn kick_capture_shaped(haystack: Seq<char>) -> bool {
    regex_capture(KICK_VIDEO_PATTERN@, haystack, 1) matches Some(t) ==> {
        &&& t.len() >= 6
        &&& forall|k: int| 0 <= k < t.len() ==> is_id_char(#[trigger] t[k])
        &&& contains(haystack, "/videos/"@ + t)
    }
}

/// Compiles `pattern` with `regex_lite::Regex::new`, searches `haystack` with
/// `Regex::captures`, and takes group `group` with `Captures::get` and
/// `Match::as_str`. The result is named by `regex_capture`; beyond that the
/// contract states what `Match::as_str` documents (the captured text is a
/// piece of the haystack) and, for the kick.com pattern and its first group,
/// what the pattern's text shows of a capture: it matches
/// `[0-9a-fA-F-]{6,}` and follows `/videos/` in the haystack.
#[verifier::external_body]
fn regex_first_capture(pattern: &str, haystack: &str, group: usize) -> (r: Option<String>)
    ensures
        opt_text(r) == regex_capture(pattern@, haystack@, group as nat),
        r matches Some(t) ==> contains(haystack@, t@),
        pattern@ == KICK_VIDEO_PATTERN@ && group == 1 ==> (r matches Some(t) ==> {
            &&& t@.len() >= 6
            &&& forall|k: int| 0 <= k < t@.len() ==> is_id_char(#[trigger] t@[k])
            &&& contains(haystack@, "/videos/"@ + t@)
        }),
{
    match regex_lite::Regex::new(pattern) {
        Ok(re) => match re.captures(haystack) {
            Some(caps) => match caps.get(group) {
                Some(m) => Some(String::from(m.as_str())),
                None => None,
            },
            None => None,
        },
        Err(_) => None,
    }
}

/// The URL that a trimmed input stands for, given what the kick.com pattern
/// captured in it: a kick.com video page becomes its canonical
/// `https://kick.com/video/<id>` form, anything else stays as it is.
pub open spec fn normalized_url(trimmed: Seq<char>, video_id: Option<Seq<char>>) -> Seq<char> {
    match video_id {
        Some(id) => "https://kick.com/video/"@ + id,
        None => trimmed,
    }
}

/// The normalised form of the text the user pasted.
pub open spec fn normalize(url: Seq<char>) -> Seq<char> {
    normalized_url(trim(url), regex_capture(KICK_VIDEO_PATTERN@, trim(url), 1))
}

/// Builds the normalised URL from the trimmed input and the video id that the
/// kick.com pattern captured in it, if any.
pub fn apply_video_id(trimmed: &str, video_id: Option<String>) -> (r: String)
    ensures
        r@ == normalized_url(trimmed@, opt_text(video_id)),
{
    match video_id {
        Some(id) => concat_str("https://kick.com/video/", id.as_str()),
        None => owned(trimmed),
    }
}

/// Trims the URL and rewrites kick.com video pages
/// (`https://kick.com/<channel>/videos/<id>`, with or without `www.`) to
/// `https://kick.com/video/<id>`.
pub fn normalize_url(url: &str) -> (r: String)
    ensures
        r@ == normalize(url@),
        trim(r@) == r@,
        kick_capture_shaped(trim(url@)),
{
    let u = trim_str(url);
    let id = regex_first_capture(KICK_VIDEO_PATTERN, u.as_str(), 1);
    proof {
        if let Some(t) = opt_text(id) {
            lemma_canonical_kick_url_is_trimmed(t);
        } else {
            crate::text::lemma_trim_idempotent(url@);
        }
    }
    apply_video_id(u.as_str(), id)
}

/// The canonical form of a kick.com video page neither starts nor ends with
/// white space.
pub proof fn lemma_canonical_kick_url_is_trimmed(id: Seq<char>)
    requires
        id.len() > 0,
        forall|k: int| 0 <= k < id.len() ==> is_id_char(#[trigger] id[k]),
    ensures
        trim("https://kick.com/video/"@ + id) == "https://kick.com/video/"@ + id,
{
    reveal_strlit("https://kick.com/video/");
    let v = "https://kick.com/video/"@ + id;
    assert(v[0] == 'h');
    assert(v[v.len() - 1] == id[id.len() - 1]);
    assert(is_id_char(id[id.len() - 1]));
    assert(!is_white_space(v[0]));
    assert(!is_white_space(v[v.len() - 1]));
    assert(crate::text::skip_ws(v, 0) == 0);
    assert(crate::text::trim_back(v, 0, v.len() as int) == v.len());
    assert(v.subrange(0, v.len() as int) =~= v);
}

/// The canonical form of a kick.com video page holds no `/videos/` segment,
/// so the kick.com pattern finds nothing in it.
pub proof fn lemma_canonical_kick_url_has_no_videos_segment(id: Seq<char>, t: Seq<char>)
    requires
        forall|k: int| 0 <= k < id.len() ==> is_id_char(#[trigger] id[k]),
    ensures
        !contains("https://kick.com/video/"@ + id, "/videos/"@ + t),
{
    reveal_strlit("https://kick.com/video/");
    reveal_strlit("/videos/");
    let p = "https://kick.com/video/"@;
    let v = p + id;
    let pat = "/videos/"@ + t;
    if contains(v, pat) {
        let i = choose|i: int| occurs_at(v, pat, i);
        assert(v.subrange(i, i + pat.len())[0] == v[i]);
        assert(v.subrange(i, i + pat.len())[7] == v[i + 7]);
        assert(pat[0] == '/' && pat[7] == '/');
        if i + 7 < 23 {
            assert(p[i] == '/' && p[i + 7] == '/');
            assert(false);
        } else if i < 23 {
            assert(p[i] == '/');
            assert(i == 16 || i == 22);
            assert(v[i + 7] == id[i + 7 - 23]);
            assert(is_id_char(id[i + 7 - 23]));
            assert(false);
        } else {
            assert(v[i] == id[i - 23]);
            assert(is_id_char(id[i - 23]));
            assert(false);
        }
    }
}

/// Normalising twice gives what normalising once gave, and the result is
/// trimmed, wherever the kick.com pattern captures what it can capture (an id
/// behind `/videos/`) in the input and in its normal form; `normalize_url`
/// establishes this for every input it is called on.
pub proof fn lemma_normalize_idempotent(url: Seq<char>)
    requires
        kick_capture_shaped(trim(url)),
        kick_capture_shaped(trim(normalize(url))),
    ensures
        trim(normalize(url)) == normalize(url),
        normalize(normalize(url)) == normalize(url),
{
    match regex_capture(KICK_VIDEO_PATTERN@, trim(url), 1) {
        Some(id) => {
            let n = normalize(url);
            lemma_canonical_kick_url_is_trimmed(id);
            match regex_capture(KICK_VIDEO_PATTERN@, n, 1) {
                Some(t) => {
                    lemma_canonical_kick_url_has_no_videos_segment(id, t);
                },
                None => {},
            }
        },
        None => {
            lemma_normalize_idempotent_off_kick(url);
        },
    }
}

/// A URL that is no kick.com video page is normalised to trimmed text, and
/// normalising it again changes nothing.
pub proof fn lemma_normalize_idempotent_off_kick(url: Seq<char>)
    requires
        regex_capture(KICK_VIDEO_PATTERN@, trim(url), 1) is None,
    ensures
        trim(normalize(url)) == normalize(url),
        normalize(normalize(url)) == normalize(url),
{
    crate::text::lemma_trim_idempotent(url);
}

} // verus!
