//! The download history: newest entry first, at most 500 entries, each with
//! an id larger than any id before it.
use vstd::prelude::*;

verus! {

/// One finished (or failed) download.
#[derive(Clone, Debug)]
pub struct HistoryEntry {
    pub id: u64,
    pub url: String,
    pub title: String,
    pub platform: String,
    pub status: String,
    pub file_path: Option<String>,
    pub date: String,
}

/// The most entries the history keeps.
pub const HISTORY_LIMIT: usize = 500;

/// The largest id in the history, 0 when it is empty.
pub open spec fn max_id(entries: Seq<HistoryEntry>) -> nat
    decreases entries.len(),
{
    if entries.len() == 0 {
        0
    } else {
        let m = max_id(entries.drop_last());
        if entries.last().id > m {
            entries.last().id as nat
        } else {
            m
        }
    }
}

/// The history cut down to its first `HISTORY_LIMIT` entries.
pub open spec fn limited(entries: Seq<HistoryEntry>) -> Seq<HistoryEntry> {
    if entries.len() > HISTORY_LIMIT {
        entries.take(HISTORY_LIMIT as int)
    } else {
        entries
    }
}

/// The history after `entry` is recorded as the newest one.
pub open spec fn recorded(entries: Seq<HistoryEntry>, entry: HistoryEntry) -> Seq<HistoryEntry> {
    limited(seq![entry] + entries)
}

/// The history without the entries that carry `id`.
pub open spec fn without_id(entries: Seq<HistoryEntry>, id: u64) -> Seq<HistoryEntry> {
    entries.filter(|e: HistoryEntry| e.id != id)
}

/// No two entries share an id.
pub open spec fn unique_ids(entries: Seq<HistoryEntry>) -> bool {
    forall|i: int, j: int|
        0 <= i < entries.len() && 0 <= j < entries.len() && i != j ==> entries[i].id
            != entries[j].id
}

/// `max_id` bounds every id, and is one of them unless the history is empty.
pub proof fn lemma_max_id(entries: Seq<HistoryEntry>)
    ensures
        forall|k: int| 0 <= k < entries.len() ==> entries[k].id <= max_id(entries),
        entries.len() > 0 ==> exists|k: int|
            0 <= k < entries.len() && entries[k].id == max_id(entries),
    decreases entries.len(),
{
    if entries.len() > 0 {
        let init = entries.drop_last();
        lemma_max_id(init);
        assert forall|k: int| 0 <= k < entries.len() implies entries[k].id <= max_id(
            entries,
        ) by {
            if k < entries.len() - 1 {
                assert(entries[k] == init[k]);
            }
        }
        if entries.last().id <= max_id(init) && init.len() > 0 {
            let k = choose|k: int| 0 <= k < init.len() && init[k].id == max_id(init);
            assert(entries[k] == init[k]);
        }
    }
}

/// The id that the next entry gets: one more than the largest id so far.
pub fn next_history_id(entries: &Vec<HistoryEntry>) -> (id: u64)
    requires
        max_id(entries@) < u64::MAX,
    ensures
        id == max_id(entries@) + 1,
{
    let mut m: u64 = 0;
    let mut i: usize = 0;
    while i < entries.len()
        invariant
            i <= entries@.len(),
            m == max_id(entries@.take(i as int)),
        decreases entries@.len() - i,
    {
        assert(entries@.take(i + 1).drop_last() =~= entries@.take(i as int));
        if entries[i].id > m {
            m = entries[i].id;
        }
        i += 1;
    }
    assert(entries@.take(i as int) =~= entries@);
    m + 1
}

/// Records a download as the newest history entry, dated `date`, with the next
/// id; the oldest entries beyond `HISTORY_LIMIT` are dropped.
pub fn insert_history_entry(
    entries: &mut Vec<HistoryEntry>,
    url: String,
    title: String,
    platform: String,
    status: String,
    file_path: Option<String>,
    date: String,
)
    requires
        max_id(old(entries)@) < u64::MAX,
    ensures
        final(entries)@ == recorded(
            old(entries)@,
            HistoryEntry {
                id: (max_id(old(entries)@) + 1) as u64,
                url,
                title,
                platform,
                status,
                file_path,
                date,
            },
        ),
{
    let id = next_history_id(entries);
    let entry = HistoryEntry { id, url, title, platform, status, file_path, date };
    entries.insert(0, entry);
    if entries.len() > HISTORY_LIMIT {
        entries.truncate(HISTORY_LIMIT);
    }
    assert(final(entries)@ =~= recorded(old(entries)@, entry)) by {
        assert(seq![entry] + old(entries)@ =~= old(entries)@.insert(0, entry));
    }
}

/// ASCII digits fill `s[a..b]`.
pub open spec fn ascii_digits(s: Seq<char>, a: int, b: int) -> bool {
    forall|k: int| a <= k < b ==> 48 <= #[trigger] s[k] as u32 <= 57
}

/// `s` splits as an RFC 3339 timestamp whose year takes `y` characters and
/// whose fraction of a second takes `f` (its dot included).
pub open spec fn rfc3339_layout(s: Seq<char>, y: int, f: int) -> bool {
    let n = s.len() as int;
    &&& (y == 4 && ascii_digits(s, 0, 4)) || (y >= 5 && (s[0] == '+' || s[0] == '-')
        && ascii_digits(s, 1, y))
    &&& f == 0 || f == 4 || f == 7 || f == 10
    &&& n == y + 15 + f + 6
    &&& s[y] == '-' && ascii_digits(s, y + 1, y + 3) && s[y + 3] == '-'
    &&& ascii_digits(s, y + 4, y + 6) && s[y + 6] == 'T'
    &&& ascii_digits(s, y + 7, y + 9) && s[y + 9] == ':'
    &&& ascii_digits(s, y + 10, y + 12) && s[y + 12] == ':'
    &&& ascii_digits(s, y + 13, y + 15)
    &&& f > 0 ==> s[y + 15] == '.' && ascii_digits(s, y + 16, y + 15 + f)
    &&& s[n - 6] == '+' || s[n - 6] == '-'
    &&& ascii_digits(s, n - 5, n - 3) && s[n - 3] == ':' && ascii_digits(s, n - 2, n)
}

/// An RFC 3339 timestamp as `DateTime::to_rfc3339` writes it: the year (four
/// digits, or a sign and at least four digits), `-MM-DDTHH:MM:SS`, a fraction
/// of 3, 6 or 9 digits when the time has one, and the offset `±HH:MM`.
pub open spec fn is_rfc3339_timestamp(s: Seq<char>) -> bool {
    exists|y: int, f: int| rfc3339_layout(s, y, f)
}

/// `chrono::Local::now().to_rfc3339()`: the current local time in RFC 3339
/// form. Which time it is depends on the clock and the time zone; what is
/// stated is the form that `to_rfc3339` always writes (chrono's
/// `write_rfc3339` with `SecondsFormat::AutoSi` and no `Z`).
#[verifier::external_body]
fn local_time_rfc3339() -> (r: String)
    ensures
        is_rfc3339_timestamp(r@),
{
    chrono::Local::now().to_rfc3339()
}

/// Records a download as the newest history entry, dated now.
pub fn add_history_entry(
    entries: &mut Vec<HistoryEntry>,
    url: String,
    title: String,
    platform: String,
    status: String,
    file_path: Option<String>,
)
    requires
        max_id(old(entries)@) < u64::MAX,
    ensures
        final(entries)@.len() > 0,
        final(entries)@ == recorded(old(entries)@, final(entries)@[0]),
        final(entries)@[0].id == max_id(old(entries)@) + 1,
        final(entries)@[0].url == url,
        final(entries)@[0].title == title,
        final(entries)@[0].platform == platform,
        final(entries)@[0].status == status,
        final(entries)@[0].file_path == file_path,
        is_rfc3339_timestamp(final(entries)@[0].date@),
{
    let date = local_time_rfc3339();
    insert_history_entry(entries, url, title, platform, status, file_path, date);
}

/// Removes every entry with the given id, keeping the others in order.
pub fn remove_history_entry(entries: &mut Vec<HistoryEntry>, id: u64)
    ensures
        final(entries)@ == without_id(old(entries)@, id),
{
    let ghost orig = entries@;
    let ghost keep = |e: HistoryEntry| e.id != id;
    let ghost mut j: int = 0;
    let mut i: usize = 0;
    assert(orig.take(0).filter(keep) =~= Seq::<HistoryEntry>::empty());
    assert(entries@ =~= orig.take(0).filter(keep) + orig.skip(0));
    while i < entries.len()
        invariant
            0 <= j <= orig.len(),
            entries@ == orig.take(j).filter(keep) + orig.skip(j),
            i == orig.take(j).filter(keep).len(),
            keep == (|e: HistoryEntry| e.id != id),
        decreases orig.len() - j,
    {
        let ghost kept = orig.take(j).filter(keep);
        proof {
            assert(orig.take(j + 1) =~= orig.take(j).push(orig[j]));
            orig.take(j).lemma_filter_push(orig[j], keep);
            assert(entries@[i as int] == orig[j]);
        }
        if entries[i].id == id {
            entries.remove(i);
            assert(entries@ =~= orig.take(j + 1).filter(keep) + orig.skip(j + 1));
        } else {
            i += 1;
            assert(entries@ =~= orig.take(j + 1).filter(keep) + orig.skip(j + 1));
        }
        proof {
            j = j + 1;
        }
    }
    assert(orig.skip(j) =~= Seq::<HistoryEntry>::empty());
    assert(orig.take(j) =~= orig);
    assert(entries@ =~= without_id(orig, id));
}

// ─── Laws ────────────────────────────────────────────────────────────────────

/// A freshly recorded entry carries an id larger than every other entry in
/// the history.
pub proof fn lemma_recorded_id_is_largest(entries: Seq<HistoryEntry>, entry: HistoryEntry)
    requires
        entry.id == max_id(entries) + 1,
    ensures
        recorded(entries, entry)[0] == entry,
        forall|k: int|
            1 <= k < recorded(entries, entry).len() ==> #[trigger] recorded(entries, entry)[k].id
                < entry.id,
{
    lemma_max_id(entries);
    let h = recorded(entries, entry);
    assert forall|k: int| 1 <= k < h.len() implies #[trigger] h[k].id < entry.id by {
        assert(h[k] == entries[k - 1]);
    }
}

/// The history never holds more than `HISTORY_LIMIT` entries once an entry is
/// recorded, and recording drops nothing but the oldest entries beyond it.
pub proof fn lemma_recorded_is_bounded(entries: Seq<HistoryEntry>, entry: HistoryEntry)
    ensures
        recorded(entries, entry).len() <= HISTORY_LIMIT,
        recorded(entries, entry).len() == if entries.len() < HISTORY_LIMIT {
            entries.len() + 1 as int
        } else {
            HISTORY_LIMIT as int
        },
        forall|k: int|
            1 <= k < recorded(entries, entry).len() ==> #[trigger] recorded(entries, entry)[k]
                == entries[k - 1],
{
}

/// Recording an entry with a fresh id keeps the ids distinct.
pub proof fn lemma_recorded_keeps_ids_unique(entries: Seq<HistoryEntry>, entry: HistoryEntry)
    requires
        unique_ids(entries),
        entry.id == max_id(entries) + 1,
    ensures
        unique_ids(recorded(entries, entry)),
{
    lemma_max_id(entries);
    let h = recorded(entries, entry);
    assert forall|i: int, j: int|
        0 <= i < h.len() && 0 <= j < h.len() && i != j implies h[i].id != h[j].id by {
        if i > 0 {
            assert(h[i] == entries[i - 1]);
        }
        if j > 0 {
            assert(h[j] == entries[j - 1]);
        }
    }
}

/// Removing an id leaves no entry with that id.
pub proof fn lemma_without_id_removes(entries: Seq<HistoryEntry>, id: u64)
    ensures
        forall|k: int|
            0 <= k < without_id(entries, id).len() ==> #[trigger] without_id(entries, id)[k].id
                != id,
        without_id(entries, id).len() <= entries.len(),
{
    let keep = |e: HistoryEntry| e.id != id;
    entries.lemma_filter_len(keep);
    assert forall|k: int| 0 <= k < without_id(entries, id).len() implies #[trigger] without_id(
        entries,
        id,
    )[k].id != id by {
        entries.lemma_filter_pred(keep, k);
    }
}

/// Removing the same id twice is the same as removing it once.
pub proof fn lemma_without_id_idempotent(entries: Seq<HistoryEntry>, id: u64)
    ensures
        without_id(without_id(entries, id), id) == without_id(entries, id),
{
    lemma_without_id_removes(entries, id);
    lemma_filter_keeps_all(without_id(entries, id), id);
}

/// Filtering out an id that no entry carries changes nothing.
pub proof fn lemma_filter_keeps_all(entries: Seq<HistoryEntry>, id: u64)
    requires
        forall|k: int| 0 <= k < entries.len() ==> #[trigger] entries[k].id != id,
    ensures
        without_id(entries, id) == entries,
    decreases entries.len(),
{
    let keep = |e: HistoryEntry| e.id != id;
    if entries.len() > 0 {
        let init = entries.drop_last();
        assert forall|k: int| 0 <= k < init.len() implies #[trigger] init[k].id != id by {
            assert(init[k] == entries[k]);
        }
        lemma_filter_keeps_all(init, id);
        assert(init.push(entries.last()) =~= entries);
        init.lemma_filter_push(entries.last(), keep);
    } else {
        assert(entries.filter(keep) =~= entries);
    }
}

/// Removing a freshly recorded entry gives back the history as it was, as
/// long as recording it dropped nothing.
pub proof fn lemma_remove_undoes_record(entries: Seq<HistoryEntry>, entry: HistoryEntry)
    requires
        entries.len() < HISTORY_LIMIT,
        entry.id == max_id(entries) + 1,
    ensures
        without_id(recorded(entries, entry), entry.id) == entries,
{
    lemma_max_id(entries);
    let keep = |e: HistoryEntry| e.id != entry.id;
    assert forall|k: int| 0 <= k < entries.len() implies #[trigger] entries[k].id != entry.id by {}
    lemma_filter_keeps_all(entries, entry.id);
    assert(recorded(entries, entry) == seq![entry] + entries);
    entries.lemma_filter_prepend(entry, keep);
}

} // verus!
