//! Reading the JSON that yt-dlp and PyPI return: a video's metadata and the
//! latest yt-dlp version.
use vstd::prelude::*;

use crate::text::{opt_text, owned, trim, trim_str};
use crate::version::{has_update, update_available};

verus! {

/// The string member `key` of the top-level JSON object in `text`; `None`
/// where the text is no JSON, the top level is no object, the member is
/// missing or is not a string.
pub uninterp spec fn json_member_string(text: Seq<char>, key: Seq<char>) -> Option<Seq<char>>;

/// The string member `inner` of the object member `outer` of the top-level
/// JSON object in the bytes `body`; `None` where the bytes are no JSON (UTF-8
/// included) or any step is missing or of another kind.
pub uninterp spec fn json_body_nested_string(body: Seq<u8>, outer: Seq<char>, inner: Seq<char>) -> Option<Seq<char>>;

/// Whether the bytes `body` parse as JSON.
pub uninterp spec fn json_body_parses(body: Seq<u8>) -> bool;

/// The message of the error that parsing `text` as JSON gives, `None` where it
/// parses.
pub uninterp spec fn json_syntax_error(text: Seq<char>) -> Option<Seq<char>>;

/// `serde_json::from_str::<Value>` and, on success, `Value`'s indexing by `key`
/// and `Value::as_str`. The result is named by `json_member_string`; the
/// contract adds what the source shows: text that does not parse has no
/// members.
#[verifier::external_body]
fn json_member(text: &str, key: &str) -> (r: Option<String>)
    ensures
        opt_text(r) == json_member_string(text@, key@),
        json_syntax_error(text@) is Some ==> r is None,
{
    match serde_json::from_str::<serde_json::Value>(text) {
        Ok(v) => v[key].as_str().map(String::from),
        Err(_) => None,
    }
}

/// `serde_json::from_slice::<Value>` and, on success, two steps of `Value`'s
/// indexing and `Value::as_str`. The result is named by
/// `json_body_nested_string`; the contract adds that bytes which do not parse
/// have no members.
#[verifier::external_body]
fn json_body_nested_member(body: &[u8], outer: &str, inner: &str) -> (r: Option<String>)
    ensures
        opt_text(r) == json_body_nested_string(body@, outer@, inner@),
        !json_body_parses(body@) ==> r is None,
{
    match serde_json::from_slice::<serde_json::Value>(body) {
        Ok(v) => v[outer][inner].as_str().map(String::from),
        Err(_) => None,
    }
}

/// `serde_json::from_slice::<Value>`, telling success from failure. The
/// result is named by `json_body_parses`.
#[verifier::external_body]
fn json_body_valid(body: &[u8]) -> (r: bool)
    ensures
        r == json_body_parses(body@),
{
    serde_json::from_slice::<serde_json::Value>(body).is_ok()
}

/// `serde_json::from_str::<Value>`, and the `Display` text of its error. The
/// result is named by `json_syntax_error`.
#[verifier::external_body]
fn json_error(text: &str) -> (r: Option<String>)
    ensures
        opt_text(r) == json_syntax_error(text@),
{
    match serde_json::from_str::<serde_json::Value>(text) {
        Ok(_) => None,
        Err(e) => Some(e.to_string()),
    }
}

/// The facts about a video that the user sees before downloading it.
pub struct VideoFields {
    pub id: String,
    pub title: String,
    pub thumbnail: Option<String>,
    pub platform: String,
    pub uploader: Option<String>,
    pub url: String,
}

/// The text of an optional string, or a default.
pub open spec fn text_or(o: Option<Seq<char>>, default: Seq<char>) -> Seq<char> {
    match o {
        Some(t) => t,
        None => default,
    }
}

/// `o`, or an owned copy of `default` when it is missing.
pub fn text_or_default(o: Option<String>, default: &str) -> (r: String)
    ensures
        r@ == text_or(opt_text(o), default@),
{
    match o {
        Some(t) => t,
        None => owned(default),
    }
}

/// The video's fields from its JSON members: a missing id is empty, a missing
/// title is "Unknown Title" and a missing extractor is "Unknown".
pub fn video_fields(
    id: Option<String>,
    title: Option<String>,
    thumbnail: Option<String>,
    extractor_key: Option<String>,
    uploader: Option<String>,
    url: String,
) -> (v: VideoFields)
    ensures
        v.id@ == text_or(opt_text(id), ""@),
        v.title@ == text_or(opt_text(title), "Unknown Title"@),
        v.thumbnail == thumbnail,
        v.platform@ == text_or(opt_text(extractor_key), "Unknown"@),
        v.uploader == uploader,
        v.url == url,
{
    VideoFields {
        id: text_or_default(id, ""),
        title: text_or_default(title, "Unknown Title"),
        thumbnail,
        platform: text_or_default(extractor_key, "Unknown"),
        uploader,
        url,
    }
}

/// Reads the metadata that `yt-dlp --dump-json` printed for the video at
/// `url`. Text that is no JSON gives the parser's message.
pub fn video_fields_from_json(json_text: &str, url: String) -> (r: Result<VideoFields, String>)
    ensures
        r matches Err(e) ==> json_syntax_error(json_text@) == Some(e@),
        r is Ok ==> json_syntax_error(json_text@) is None,
        r matches Ok(v) ==> {
            &&& v.id@ == text_or(json_member_string(json_text@, "id"@), ""@)
            &&& v.title@ == text_or(json_member_string(json_text@, "title"@), "Unknown Title"@)
            &&& opt_text(v.thumbnail) == json_member_string(json_text@, "thumbnail"@)
            &&& v.platform@ == text_or(
                json_member_string(json_text@, "extractor_key"@),
                "Unknown"@,
            )
            &&& opt_text(v.uploader) == json_member_string(json_text@, "uploader"@)
            &&& v.url == url
        },
{
    match json_error(json_text) {
        Some(e) => Err(e),
        None => {
            let id = json_member(json_text, "id");
            let title = json_member(json_text, "title");
            let thumbnail = json_member(json_text, "thumbnail");
            let extractor = json_member(json_text, "extractor_key");
            let uploader = json_member(json_text, "uploader");
            Ok(video_fields(id, title, thumbnail, extractor, uploader, url))
        },
    }
}

/// What a JSON answer that cannot be decoded is reported as (the text of an
/// HTTP client's decoding error).
pub open spec fn body_decoding_error() -> Seq<char> {
    "error decoding response body"@
}

/// The latest yt-dlp version in PyPI's JSON answer (`info.version`), empty when
/// it is missing. A body that is no JSON (or no UTF-8) is a decoding error.
pub fn pypi_latest_version(body: &[u8]) -> (r: Result<String, String>)
    ensures
        r is Err <==> !json_body_parses(body@),
        r matches Err(e) ==> e@ == body_decoding_error(),
        r matches Ok(v) ==> v@ == text_or(json_body_nested_string(body@, "info"@, "version"@), ""@),
{
    if !json_body_valid(body) {
        return Err(owned("error decoding response body"));
    }
    let v = json_body_nested_member(body, "info", "version");
    Ok(text_or_default(v, ""))
}

/// The answer to "is there a newer yt-dlp?".
pub struct UpdateCheck {
    pub current: String,
    pub latest: String,
    pub has_update: bool,
}

/// Compares the version that `yt-dlp --version` printed with the latest one.
pub fn update_check(version_output: &str, latest: String) -> (r: UpdateCheck)
    ensures
        r.current@ == trim(version_output@),
        r.latest == latest,
        r.has_update == update_available(trim(version_output@), latest@),
{
    let current = trim_str(version_output);
    let newer = has_update(current.as_str(), latest.as_str());
    UpdateCheck { current, latest, has_update: newer }
}

} // verus!
