//! The decisions around the external tools: where yt-dlp and ffmpeg are
//! looked for, which browsers are offered for cookies, where downloads go,
//! and what the user is told about versions and updates.
use vstd::prelude::*;

use crate::text::{
    chars_of, concat_str, first_line, first_line_chars, opt_text, owned, push_str, string_of, texts,
    trim, trim_str,
};

verus! {

/// The yt-dlp executables tried after those under the home directory, in
/// order.
pub open spec fn ytdlp_fallbacks() -> Seq<Seq<char>> {
    seq!["yt-dlp"@, "yt-dlp.exe"@, "/usr/local/bin/yt-dlp"@, "/usr/bin/yt-dlp"@]
}

/// The yt-dlp executables to try, in order: the ones under the home
/// directory (`~/.local/bin/yt-dlp`, the Python 3.11 scripts folder), then
/// the plain command names and the usual system locations.
pub fn ytdlp_candidates(home_paths: Vec<String>) -> (r: Vec<String>)
    ensures
        texts(r@) == texts(home_paths@) + ytdlp_fallbacks(),
{
    let mut r = home_paths;
    let ghost start = texts(r@);
    push_str(&mut r, "yt-dlp");
    push_str(&mut r, "yt-dlp.exe");
    push_str(&mut r, "/usr/local/bin/yt-dlp");
    push_str(&mut r, "/usr/bin/yt-dlp");
    assert(texts(r@) =~= start + ytdlp_fallbacks());
    r
}

/// The state of a search for a working tool: how many candidates were tried
/// and the one that worked, if any.
pub open spec fn search_step(
    cands: Seq<Seq<char>>,
    state: (nat, Option<Seq<char>>),
    works: bool,
) -> (nat, Option<Seq<char>>) {
    if state.1 is None && state.0 < cands.len() {
        ((state.0 + 1) as nat, if works {
            Some(cands[state.0 as int])
        } else {
            None
        })
    } else {
        state
    }
}

/// The state of the search after the given outcomes were reported, in order.
pub open spec fn search_run(cands: Seq<Seq<char>>, outcomes: Seq<bool>) -> (nat, Option<Seq<char>>)
    decreases outcomes.len(),
{
    if outcomes.len() == 0 {
        (0, None)
    } else {
        search_step(cands, search_run(cands, outcomes.drop_last()), outcomes.last())
    }
}

/// A search that tries candidates in order and stops at the first that
/// works (the file exists, or the program runs).
pub struct ToolSearch {
    candidates: Vec<String>,
    tried: usize,
    found: Option<String>,
}

impl ToolSearch {
    /// The candidates, in the order they are tried.
    pub closed spec fn candidates(&self) -> Seq<Seq<char>> {
        texts(self.candidates@)
    }

    /// How many candidates were tried, and the one that worked.
    pub closed spec fn state(&self) -> (nat, Option<Seq<char>>) {
        (self.tried as nat, opt_text(self.found))
    }

    /// A search over `candidates` that has tried none of them.
    pub fn new(candidates: Vec<String>) -> (s: Self)
        ensures
            s.candidates() == texts(candidates@),
            s.state() == (0nat, None::<Seq<char>>),
    {
        ToolSearch { candidates, tried: 0, found: None }
    }

    /// The candidate to try next: none once one worked or all were tried.
    pub fn next_candidate(&self) -> (r: Option<String>)
        ensures
            opt_text(r) == if self.state().1 is None && self.state().0 < self.candidates().len() {
                Some(self.candidates()[self.state().0 as int])
            } else {
                None
            },
    {
        if self.found.is_none() && self.tried < self.candidates.len() {
            Some(self.candidates[self.tried].clone())
        } else {
            None
        }
    }

    /// Records whether the candidate returned by `next_candidate` works.
    pub fn report(&mut self, works: bool)
        ensures
            final(self).candidates() == old(self).candidates(),
            final(self).state() == search_step(old(self).candidates(), old(self).state(), works),
    {
        if self.found.is_none() && self.tried < self.candidates.len() {
            if works {
                self.found = Some(self.candidates[self.tried].clone());
            }
            self.tried = self.tried + 1;
        }
    }

    /// The candidate that worked, if one did.
    pub fn result(&self) -> (r: Option<String>)
        ensures
            opt_text(r) == self.state().1,
    {
        self.found.clone()
    }
}

/// The search yields the first candidate that works, and tries nothing after
/// it: whatever outcomes are reported, the result is the candidate at the
/// first position whose outcome is positive, or none when no candidate
/// reported so far works.
pub proof fn lemma_search_finds_first(cands: Seq<Seq<char>>, outcomes: Seq<bool>)
    ensures
        forall|i: int|
            0 <= i < outcomes.len() && i < cands.len() && outcomes[i] && (forall|j: int|
                0 <= j < i ==> !#[trigger] outcomes[j]) ==> search_run(cands, outcomes) == (
            (i + 1) as nat,
            Some(cands[i]),
        ),
        (forall|j: int| 0 <= j < outcomes.len() && j < cands.len() ==> !#[trigger] outcomes[j])
            ==> search_run(cands, outcomes) == (
            (if outcomes.len() < cands.len() {
                outcomes.len()
            } else {
                cands.len()
            }) as nat,
            None::<Seq<char>>,
        ),
    decreases outcomes.len(),
{
    if outcomes.len() > 0 {
        let init = outcomes.drop_last();
        lemma_search_finds_first(cands, init);
        assert forall|i: int|
            0 <= i < outcomes.len() && i < cands.len() && outcomes[i] && (forall|j: int|
                0 <= j < i ==> !#[trigger] outcomes[j]) implies search_run(cands, outcomes) == (
            (i + 1) as nat,
            Some(cands[i]),
        ) by {
            if i < outcomes.len() - 1 {
                assert(init[i] == outcomes[i]);
                assert forall|j: int| 0 <= j < i implies !#[trigger] init[j] by {
                    assert(init[j] == outcomes[j]);
                }
            } else {
                assert forall|j: int| 0 <= j < init.len() && j < cands.len() implies !#[trigger] init[j] by {
                    assert(init[j] == outcomes[j]);
                }
            }
        }
        if forall|j: int| 0 <= j < outcomes.len() && j < cands.len() ==> !#[trigger] outcomes[j] {
            assert forall|j: int| 0 <= j < init.len() && j < cands.len() implies !#[trigger] init[j] by {
                assert(init[j] == outcomes[j]);
            }
        }
    }
}

/// A browser whose cookies yt-dlp can read, and the commands that reveal that
/// it is installed.
pub struct BrowserProbe {
    pub name: String,
    pub commands: Vec<String>,
}

/// The browsers offered for cookies and the commands looked for, in order.
pub open spec fn browser_table() -> Seq<(Seq<char>, Seq<Seq<char>>)> {
    seq![
        ("chrome"@, seq!["google-chrome"@, "google-chrome-stable"@, "chrome"@]),
        ("firefox"@, seq!["firefox"@]),
        ("brave"@, seq!["brave-browser"@, "brave"@]),
        ("edge"@, seq!["microsoft-edge"@, "msedge"@]),
        ("chromium"@, seq!["chromium-browser"@, "chromium"@]),
        ("opera"@, seq!["opera"@]),
        ("vivaldi"@, seq!["vivaldi"@]),
    ]
}

/// The name and commands of a probe, as texts.
pub open spec fn probe_texts(p: BrowserProbe) -> (Seq<char>, Seq<Seq<char>>) {
    (p.name@, texts(p.commands@))
}

fn probe(name: &str, commands: Vec<String>) -> (p: BrowserProbe)
    ensures
        p.name@ == name@,
        p.commands == commands,
{
    BrowserProbe { name: owned(name), commands }
}

fn one_command(a: &str) -> (r: Vec<String>)
    ensures
        texts(r@) == seq![a@],
{
    let mut r: Vec<String> = Vec::new();
    push_str(&mut r, a);
    assert(texts(r@) =~= seq![a@]);
    r
}

fn two_commands(a: &str, b: &str) -> (r: Vec<String>)
    ensures
        texts(r@) == seq![a@, b@],
{
    let mut r: Vec<String> = Vec::new();
    push_str(&mut r, a);
    push_str(&mut r, b);
    assert(texts(r@) =~= seq![a@, b@]);
    r
}

/// The browser probes, in the order they are tried.
pub fn browser_probes() -> (r: Vec<BrowserProbe>)
    ensures
        r@.map_values(|p: BrowserProbe| probe_texts(p)) == browser_table(),
{
    let mut chrome: Vec<String> = Vec::new();
    push_str(&mut chrome, "google-chrome");
    push_str(&mut chrome, "google-chrome-stable");
    push_str(&mut chrome, "chrome");
    assert(texts(chrome@) =~= seq!["google-chrome"@, "google-chrome-stable"@, "chrome"@]);
    let mut r: Vec<BrowserProbe> = Vec::new();
    r.push(probe("chrome", chrome));
    r.push(probe("firefox", one_command("firefox")));
    r.push(probe("brave", two_commands("brave-browser", "brave")));
    r.push(probe("edge", two_commands("microsoft-edge", "msedge")));
    r.push(probe("chromium", two_commands("chromium-browser", "chromium")));
    r.push(probe("opera", one_command("opera")));
    r.push(probe("vivaldi", one_command("vivaldi")));
    assert(r@.map_values(|p: BrowserProbe| probe_texts(p)) =~= browser_table());
    r
}

/// "none" followed by the names of the probes that found their browser, in
/// the probes' order.
pub open spec fn detected(names: Seq<Seq<char>>, found: Seq<bool>) -> Seq<Seq<char>>
    decreases names.len(),
{
    if names.len() == 0 || found.len() == 0 {
        seq!["none"@]
    } else {
        let rest = detected(names.drop_last(), found.drop_last());
        if found.last() {
            rest.push(names.last())
        } else {
            rest
        }
    }
}

/// The browser choices for the cookie setting: "none", then every browser
/// that one of its commands revealed.
pub fn detected_browsers(probes: &Vec<BrowserProbe>, found: &Vec<bool>) -> (r: Vec<String>)
    requires
        probes@.len() == found@.len(),
    ensures
        texts(r@) == detected(probes@.map_values(|p: BrowserProbe| p.name@), found@),
{
    let ghost names = probes@.map_values(|p: BrowserProbe| p.name@);
    let mut r: Vec<String> = Vec::new();
    push_str(&mut r, "none");
    assert(names.take(0) =~= Seq::<Seq<char>>::empty());
    assert(texts(r@) =~= detected(names.take(0), found@.take(0)));
    let mut i: usize = 0;
    while i < probes.len()
        invariant
            i <= probes@.len(),
            probes@.len() == found@.len(),
            names == probes@.map_values(|p: BrowserProbe| p.name@),
            texts(r@) == detected(names.take(i as int), found@.take(i as int)),
        decreases probes@.len() - i,
    {
        assert(names.take(i + 1).drop_last() =~= names.take(i as int));
        assert(found@.take(i + 1).drop_last() =~= found@.take(i as int));
        assert(names.take(i + 1).last() == probes@[i as int].name@);
        if found[i] {
            push_str(&mut r, probes[i].name.as_str());
        }
        i += 1;
    }
    assert(names.take(probes@.len() as int) =~= names);
    assert(found@.take(probes@.len() as int) =~= found@);
    r
}

/// The configured download directory, when it is an existing directory;
/// otherwise the default directory is to be used.
pub fn configured_save_path(configured: Option<String>, configured_is_dir: bool) -> (r: Option<
    String,
>)
    ensures
        r == if configured_is_dir {
            configured
        } else {
            None::<String>
        },
{
    if configured_is_dir {
        configured
    } else {
        None
    }
}

/// The yt-dlp version as `yt-dlp --version` printed it, trimmed.
pub fn ytdlp_version(output: &str) -> (r: String)
    ensures
        r@ == trim(output@),
{
    trim_str(output)
}

/// The ffmpeg version line: the first line that `ffmpeg -version` printed,
/// "unknown" when it printed nothing.
pub fn ffmpeg_version_line(output: &str) -> (r: String)
    ensures
        r@ == match first_line(output@) {
            Some(l) => l,
            None => "unknown"@,
        },
{
    let cs = chars_of(output);
    match first_line_chars(&cs) {
        Some(l) => string_of(&l),
        None => owned("unknown"),
    }
}

/// What a successful self-update reports: the trimmed output and error
/// output, or a plain confirmation when both are blank.
pub open spec fn update_message(stdout: Seq<char>, stderr: Seq<char>) -> Seq<char> {
    let msg = trim(stdout + "\n"@ + stderr);
    if msg.len() > 0 {
        msg
    } else {
        "yt-dlp updated successfully"@
    }
}

/// The advice appended to a failed update's error output.
pub open spec fn update_failure(stderr: Seq<char>) -> Seq<char> {
    stderr
        + "\n(If you are on Windows, try running the app as Administrator to update the bundled version)"@
}

/// The outcome of `update_ytdlp`: yt-dlp's own update (`yt-dlp -U`) first; if
/// it failed, the pip fallback; if that failed too, yt-dlp's error output with
/// advice.
pub open spec fn update_outcome(
    self_update_ok: bool,
    stdout: Seq<char>,
    stderr: Seq<char>,
    pip_ok: bool,
) -> Result<Seq<char>, Seq<char>> {
    if self_update_ok {
        Ok(update_message(stdout, stderr))
    } else if pip_ok {
        Ok("yt-dlp updated successfully via pip"@)
    } else {
        Err(update_failure(stderr))
    }
}

/// The result of an update attempt, from what `yt-dlp -U` printed and whether
/// it and the pip fallback succeeded (the fallback only matters when the
/// self-update failed).
pub fn update_result(self_update_ok: bool, stdout: &str, stderr: &str, pip_ok: bool) -> (r: Result<
    String,
    String,
>)
    ensures
        match (r, update_outcome(self_update_ok, stdout@, stderr@, pip_ok)) {
            (Ok(m), Ok(n)) => m@ == n,
            (Err(m), Err(n)) => m@ == n,
            _ => false,
        },
{
    if self_update_ok {
        let joined = concat_str(stdout, "\n");
        let joined = concat_str(joined.as_str(), stderr);
        let msg = trim_str(joined.as_str());
        let cs = chars_of(msg.as_str());
        if cs.len() > 0 {
            Ok(msg)
        } else {
            Ok(owned("yt-dlp updated successfully"))
        }
    } else if pip_ok {
        Ok(owned("yt-dlp updated successfully via pip"))
    } else {
        Err(
            concat_str(
                stderr,
                "\n(If you are on Windows, try running the app as Administrator to update the bundled version)",
            ),
        )
    }
}

/// The browsers offered for cookies, in the order they are probed, with every
/// command each of them is looked for under.
pub proof fn lemma_browser_table_entries()
    ensures
        browser_table().len() == 7,
        browser_table()[0] == ("chrome"@, seq!["google-chrome"@, "google-chrome-stable"@, "chrome"@]),
        browser_table()[1] == ("firefox"@, seq!["firefox"@]),
        browser_table()[2] == ("brave"@, seq!["brave-browser"@, "brave"@]),
        browser_table()[3] == ("edge"@, seq!["microsoft-edge"@, "msedge"@]),
        browser_table()[4] == ("chromium"@, seq!["chromium-browser"@, "chromium"@]),
        browser_table()[5] == ("opera"@, seq!["opera"@]),
        browser_table()[6] == ("vivaldi"@, seq!["vivaldi"@]),
{
}

} // verus!
