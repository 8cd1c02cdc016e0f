//! Character-level text handling: the white-space model, trimming, searching
//! and splitting, all stated over `Seq<char>` and carried out on `Vec<char>`.
use vstd::prelude::*;

verus! {

// ─── Conversions ─────────────────────────────────────────────────────────────

/// The characters of a string slice, in order.
pub fn chars_of(s: &str) -> (v: Vec<char>)
    ensures
        v@ == s@,
{
    broadcast use vstd::string::group_string_axioms;

    let mut v: Vec<char> = Vec::new();
    for c in it: s.chars()
        invariant
            v@ == it.seq().take(it.index() as int),
    {
        v.push(c);
    }
    v
}

/// `String::from_iter` over a slice of characters: the string holds exactly
/// these characters, in the same order.
#[verifier::external_body]
pub(crate) fn string_of(v: &Vec<char>) -> (s: String)
    ensures
        s@ == v@,
{
    String::from_iter(v.iter())
}

/// An owned copy of a string slice.
pub fn owned(s: &str) -> (r: String)
    ensures
        r@ == s@,
{
    broadcast use vstd::string::group_string_axioms;

    s.to_string()
}

/// The concatenation of two strings.
pub fn concat_str(a: &str, b: &str) -> (r: String)
    ensures
        r@ == a@ + b@,
{
    let ca = chars_of(a);
    let cb = chars_of(b);
    let mut out = ca;
    let mut i: usize = 0;
    while i < cb.len()
        invariant
            0 <= i <= cb@.len(),
            out@ == a@ + cb@.take(i as int),
            cb@ == b@,
        decreases cb@.len() - i,
    {
        out.push(cb[i]);
        i += 1;
        assert(a@ + cb@.take(i as int) =~= (a@ + cb@.take(i - 1)).push(cb@[i - 1]));
    }
    assert(cb@.take(cb@.len() as int) =~= cb@);
    string_of(&out)
}

// ─── White space ─────────────────────────────────────────────────────────────

/// The Unicode `White_Space` property, which is what `char::is_whitespace`
/// and `str::trim` go by.
pub open spec fn is_white_space(c: char) -> bool {
    let n = c as u32;
    ||| 0x9 <= n <= 0xd
    ||| n == 0x20
    ||| n == 0x85
    ||| n == 0xa0
    ||| n == 0x1680
    ||| 0x2000 <= n <= 0x200a
    ||| n == 0x2028
    ||| n == 0x2029
    ||| n == 0x202f
    ||| n == 0x205f
    ||| n == 0x3000
}

pub fn is_white_space_char(c: char) -> (b: bool)
    ensures
        b == is_white_space(c),
{
    let n = c as u32;
    (0x9 <= n && n <= 0xd) || n == 0x20 || n == 0x85 || n == 0xa0 || n == 0x1680 || (0x2000 <= n
        && n <= 0x200a) || n == 0x2028 || n == 0x2029 || n == 0x202f || n == 0x205f || n == 0x3000
}

/// The first position at or after `i` that does not hold white space.
pub open spec fn skip_ws(s: Seq<char>, i: int) -> int
    decreases s.len() - i,
{
    if 0 <= i < s.len() && is_white_space(s[i]) {
        skip_ws(s, i + 1)
    } else {
        i
    }
}

/// The end of the run of non-white-space characters that starts at `i`.
pub open spec fn word_end(s: Seq<char>, i: int) -> int
    decreases s.len() - i,
{
    if 0 <= i < s.len() && !is_white_space(s[i]) {
        word_end(s, i + 1)
    } else {
        i
    }
}

/// The end of `s[lo..e]` once its trailing white space is dropped.
pub open spec fn trim_back(s: Seq<char>, lo: int, e: int) -> int
    decreases e - lo,
{
    if lo < e && is_white_space(s[e - 1]) {
        trim_back(s, lo, e - 1)
    } else {
        e
    }
}

/// `s` without its leading and trailing white space (`str::trim`).
pub open spec fn trim(s: Seq<char>) -> Seq<char> {
    let a = skip_ws(s, 0);
    s.subrange(a, trim_back(s, a, s.len() as int))
}

pub proof fn lemma_skip_ws(s: Seq<char>, i: int)
    requires
        0 <= i <= s.len(),
    ensures
        i <= skip_ws(s, i) <= s.len(),
        forall|k: int| i <= k < skip_ws(s, i) ==> is_white_space(#[trigger] s[k]),
        skip_ws(s, i) < s.len() ==> !is_white_space(s[skip_ws(s, i)]),
    decreases s.len() - i,
{
    if i < s.len() && is_white_space(s[i]) {
        lemma_skip_ws(s, i + 1);
    }
}

pub proof fn lemma_word_end(s: Seq<char>, i: int)
    requires
        0 <= i <= s.len(),
    ensures
        i <= word_end(s, i) <= s.len(),
        forall|k: int| i <= k < word_end(s, i) ==> !is_white_space(#[trigger] s[k]),
        word_end(s, i) < s.len() ==> is_white_space(s[word_end(s, i)]),
    decreases s.len() - i,
{
    if i < s.len() && !is_white_space(s[i]) {
        lemma_word_end(s, i + 1);
    }
}

pub proof fn lemma_trim_back(s: Seq<char>, lo: int, e: int)
    requires
        0 <= lo <= e <= s.len(),
    ensures
        lo <= trim_back(s, lo, e) <= e,
        forall|k: int| trim_back(s, lo, e) <= k < e ==> is_white_space(#[trigger] s[k]),
        trim_back(s, lo, e) > lo ==> !is_white_space(s[trim_back(s, lo, e) - 1]),
    decreases e - lo,
{
    if lo < e && is_white_space(s[e - 1]) {
        lemma_trim_back(s, lo, e - 1);
    }
}

/// Trimmed text neither starts nor ends with white space.
pub proof fn lemma_trim_shape(s: Seq<char>)
    ensures
        trim(s).len() > 0 ==> !is_white_space(trim(s)[0]) && !is_white_space(trim(s).last()),
{
    let a = skip_ws(s, 0);
    lemma_skip_ws(s, 0);
    lemma_trim_back(s, a, s.len() as int);
}

/// Trimming is idempotent: `trim(trim(s)) == trim(s)`.
pub proof fn lemma_trim_idempotent(s: Seq<char>)
    ensures
        trim(trim(s)) == trim(s),
{
    let t = trim(s);
    lemma_trim_shape(s);
    assert(skip_ws(t, 0) == 0);
    assert(trim_back(t, 0, t.len() as int) == t.len());
    assert(t.subrange(0, t.len() as int) =~= t);
}

/// The characters `s[a..b]` as a new vector.
pub fn sub_chars(s: &Vec<char>, a: usize, b: usize) -> (r: Vec<char>)
    requires
        a <= b <= s@.len(),
    ensures
        r@ == s@.subrange(a as int, b as int),
{
    let mut r: Vec<char> = Vec::new();
    let mut i = a;
    while i < b
        invariant
            a <= i <= b <= s@.len(),
            r@ == s@.subrange(a as int, i as int),
        decreases b - i,
    {
        r.push(s[i]);
        i += 1;
        assert(r@ =~= s@.subrange(a as int, i as int));
    }
    r
}

/// The first position at or after `i` that does not hold white space.
pub fn skip_white_space(s: &Vec<char>, i: usize) -> (j: usize)
    requires
        i <= s@.len(),
    ensures
        j == skip_ws(s@, i as int),
        i <= j <= s@.len(),
{
    let mut j = i;
    while j < s.len() && is_white_space_char(s[j])
        invariant
            i <= j <= s@.len(),
            skip_ws(s@, i as int) == skip_ws(s@, j as int),
        decreases s@.len() - j,
    {
        j += 1;
    }
    j
}

/// The end of the word that starts at `i`.
pub fn scan_word(s: &Vec<char>, i: usize) -> (j: usize)
    requires
        i <= s@.len(),
    ensures
        j == word_end(s@, i as int),
        i <= j <= s@.len(),
{
    let mut j = i;
    while j < s.len() && !is_white_space_char(s[j])
        invariant
            i <= j <= s@.len(),
            word_end(s@, i as int) == word_end(s@, j as int),
        decreases s@.len() - j,
    {
        j += 1;
    }
    j
}

/// `str::trim` on characters.
pub fn trim_chars(s: &Vec<char>) -> (r: Vec<char>)
    ensures
        r@ == trim(s@),
{
    let a = skip_white_space(s, 0);
    let n = s.len();
    let mut b = n;
    while b > a && is_white_space_char(s[b - 1])
        invariant
            a <= b <= n,
            n == s@.len(),
            trim_back(s@, a as int, n as int) == trim_back(s@, a as int, b as int),
        decreases b,
    {
        b -= 1;
    }
    sub_chars(s, a, b)
}

/// `str::trim` followed by `to_string`.
pub fn trim_str(s: &str) -> (r: String)
    ensures
        r@ == trim(s@),
{
    let cs = chars_of(s);
    let t = trim_chars(&cs);
    string_of(&t)
}

// ─── Searching ───────────────────────────────────────────────────────────────

/// `pat` occurs in `s` starting at position `i`.
pub open spec fn occurs_at(s: Seq<char>, pat: Seq<char>, i: int) -> bool {
    0 <= i && i + pat.len() <= s.len() && s.subrange(i, i + pat.len()) == pat
}

/// `str::contains` with a string pattern.
pub open spec fn contains(s: Seq<char>, pat: Seq<char>) -> bool {
    exists|i: int| occurs_at(s, pat, i)
}

/// `str::starts_with`.
pub open spec fn starts_with(s: Seq<char>, pat: Seq<char>) -> bool {
    occurs_at(s, pat, 0)
}

/// The leftmost occurrence of `pat` in `s` at or after `i` (`str::find`
/// counted in characters).
pub open spec fn find_from(s: Seq<char>, pat: Seq<char>, i: int) -> Option<int>
    decreases s.len() + 1 - i,
{
    if i < 0 || i + pat.len() > s.len() {
        None
    } else if occurs_at(s, pat, i) {
        Some(i)
    } else {
        find_from(s, pat, i + 1)
    }
}

pub proof fn lemma_find_from(s: Seq<char>, pat: Seq<char>, i: int)
    requires
        0 <= i,
    ensures
        find_from(s, pat, i) matches Some(k) ==> i <= k && occurs_at(s, pat, k) && forall|
            j: int,
        | i <= j < k ==> !occurs_at(s, pat, j),
        find_from(s, pat, i) is None ==> forall|j: int| i <= j ==> !occurs_at(s, pat, j),
    decreases s.len() + 1 - i,
{
    if i + pat.len() > s.len() {
    } else if occurs_at(s, pat, i) {
    } else {
        lemma_find_from(s, pat, i + 1);
    }
}

/// `contains` is exactly "a leftmost occurrence exists".
pub proof fn lemma_contains_find(s: Seq<char>, pat: Seq<char>)
    ensures
        contains(s, pat) <==> find_from(s, pat, 0) is Some,
{
    lemma_find_from(s, pat, 0);
}

/// Whether `pat` occurs in `s` at position `i`.
pub fn matches_at(s: &Vec<char>, pat: &Vec<char>, i: usize) -> (b: bool)
    ensures
        b == occurs_at(s@, pat@, i as int),
{
    if pat.len() > s.len() || i > s.len() - pat.len() {
        return false;
    }
    let n = s.len();
    let mut j: usize = 0;
    while j < pat.len()
        invariant
            n == s@.len(),
            j <= pat@.len(),
            i + pat@.len() <= s@.len(),
            forall|k: int| 0 <= k < j ==> s@[i + k] == pat@[k],
        decreases pat@.len() - j,
    {
        if s[i + j] != pat[j] {
            assert(s@.subrange(i as int, i + pat@.len())[j as int] != pat@[j as int]);
            return false;
        }
        j += 1;
    }
    assert(s@.subrange(i as int, i + pat@.len()) =~= pat@);
    true
}

/// The leftmost occurrence of `pat` in `s`, as a character position.
pub fn find_chars(s: &Vec<char>, pat: &Vec<char>) -> (r: Option<usize>)
    ensures
        r matches Some(k) ==> find_from(s@, pat@, 0) == Some(k as int),
        r is None ==> find_from(s@, pat@, 0) is None,
{
    if pat.len() > s.len() {
        return None;
    }
    let n = s.len();
    let last = n - pat.len();
    let mut i: usize = 0;
    loop
        invariant
            n == s@.len(),
            last + pat@.len() == s@.len(),
            i <= last,
            find_from(s@, pat@, 0) == find_from(s@, pat@, i as int),
        decreases last - i,
    {
        if matches_at(s, pat, i) {
            return Some(i);
        }
        if i == last {
            assert(find_from(s@, pat@, i as int) == find_from(s@, pat@, i + 1));
            assert(find_from(s@, pat@, i + 1) is None);
            return None;
        }
        i += 1;
    }
}

/// Whether `pat` occurs anywhere in `s`.
pub fn contains_chars(s: &Vec<char>, pat: &Vec<char>) -> (b: bool)
    ensures
        b == contains(s@, pat@),
{
    proof {
        lemma_contains_find(s@, pat@);
    }
    find_chars(s, pat).is_some()
}

/// Whether `pat` occurs anywhere in `s`, with the pattern given as text.
pub fn contains_str(s: &Vec<char>, pat: &str) -> (b: bool)
    ensures
        b == contains(s@, pat@),
{
    let p = chars_of(pat);
    contains_chars(s, &p)
}

/// Whether `s` begins with `pat`.
pub fn starts_with_str(s: &Vec<char>, pat: &str) -> (b: bool)
    ensures
        b == starts_with(s@, pat@),
{
    let p = chars_of(pat);
    matches_at(s, &p, 0)
}

/// Whether two character sequences are equal.
pub fn chars_eq(a: &Vec<char>, b: &Vec<char>) -> (r: bool)
    ensures
        r == (a@ == b@),
{
    if a.len() != b.len() {
        return false;
    }
    let r = matches_at(a, b, 0);
    assert(a@.subrange(0, b@.len() as int) =~= a@);
    r
}

/// Whether the text of `s` equals `t`.
pub fn str_eq(s: &str, t: &str) -> (r: bool)
    ensures
        r == (s@ == t@),
{
    let a = chars_of(s);
    let b = chars_of(t);
    chars_eq(&a, &b)
}

// ─── Stripping ───────────────────────────────────────────────────────────────

/// `s` with every trailing `c` removed (`str::trim_end_matches` with a char).
pub open spec fn strip_trailing(s: Seq<char>, c: char) -> Seq<char>
    decreases s.len(),
{
    if s.len() > 0 && s.last() == c {
        strip_trailing(s.drop_last(), c)
    } else {
        s
    }
}

pub fn strip_trailing_chars(s: &Vec<char>, c: char) -> (r: Vec<char>)
    ensures
        r@ == strip_trailing(s@, c),
{
    let mut e = s.len();
    assert(s@.take(e as int) =~= s@);
    while e > 0 && s[e - 1] == c
        invariant
            e <= s@.len(),
            strip_trailing(s@, c) == strip_trailing(s@.take(e as int), c),
        decreases e,
    {
        assert(s@.take(e as int).drop_last() =~= s@.take(e - 1));
        e -= 1;
    }
    assert(s@.take(e as int) =~= s@.subrange(0, e as int));
    sub_chars(s, 0, e)
}

// ─── Splitting ───────────────────────────────────────────────────────────────

/// The views of a vector of character vectors.
pub open spec fn views(v: Seq<Vec<char>>) -> Seq<Seq<char>> {
    v.map_values(|t: Vec<char>| t@)
}

/// The white-space separated words of `s[i..]`, in order
/// (`str::split_whitespace`).
pub open spec fn tokens_from(s: Seq<char>, i: int) -> Seq<Seq<char>>
    decreases s.len() - i,
{
    if i < 0 || i >= s.len() {
        seq![]
    } else {
        let j = skip_ws(s, i);
        if j >= s.len() {
            seq![]
        } else {
            proof {
                lemma_skip_ws(s, i);
                lemma_word_end(s, j + 1);
            }
            seq![s.subrange(j, word_end(s, j))] + tokens_from(s, word_end(s, j))
        }
    }
}

/// The white-space separated words of `s`.
pub open spec fn split_whitespace(s: Seq<char>) -> Seq<Seq<char>> {
    tokens_from(s, 0)
}

/// `str::split_whitespace` on characters.
pub fn split_white_space(s: &Vec<char>) -> (r: Vec<Vec<char>>)
    ensures
        views(r@) == split_whitespace(s@),
{
    let n = s.len();
    let mut out: Vec<Vec<char>> = Vec::new();
    let mut i: usize = 0;
    while i < n
        invariant
            i <= n,
            n == s@.len(),
            views(out@) + tokens_from(s@, i as int) == tokens_from(s@, 0),
        decreases n - i,
    {
        let j = skip_white_space(s, i);
        proof {
            lemma_skip_ws(s@, i as int);
        }
        if j == n {
            assert(tokens_from(s@, i as int) =~= Seq::<Seq<char>>::empty());
            assert(tokens_from(s@, n as int) =~= Seq::<Seq<char>>::empty());
            i = n;
        } else {
            let k = scan_word(s, j);
            proof {
                lemma_word_end(s@, j as int + 1);
            }
            let word = sub_chars(s, j, k);
            let ghost before = views(out@);
            out.push(word);
            assert(views(out@) =~= before.push(s@.subrange(j as int, k as int)));
            assert(tokens_from(s@, i as int) == seq![s@.subrange(j as int, k as int)]
                + tokens_from(s@, k as int));
            assert(before + tokens_from(s@, i as int) =~= before.push(
                s@.subrange(j as int, k as int),
            ) + tokens_from(s@, k as int));
            i = k;
        }
    }
    assert(tokens_from(s@, i as int) =~= Seq::<Seq<char>>::empty());
    assert(views(out@) + tokens_from(s@, i as int) =~= views(out@));
    out
}

/// The first position at or after `i` that holds `c`, or the length of `s`.
pub open spec fn next_char(s: Seq<char>, c: char, i: int) -> int
    decreases s.len() - i,
{
    if 0 <= i < s.len() && s[i] != c {
        next_char(s, c, i + 1)
    } else {
        i
    }
}

pub proof fn lemma_next_char(s: Seq<char>, c: char, i: int)
    requires
        0 <= i <= s.len(),
    ensures
        i <= next_char(s, c, i) <= s.len(),
        forall|k: int| i <= k < next_char(s, c, i) ==> #[trigger] s[k] != c,
        next_char(s, c, i) < s.len() ==> s[next_char(s, c, i)] == c,
    decreases s.len() - i,
{
    if i < s.len() && s[i] != c {
        lemma_next_char(s, c, i + 1);
    }
}

/// The pieces of `s[i..]` between occurrences of `c` (`str::split` with a
/// char): empty pieces included, and always at least one piece.
pub open spec fn pieces_from(s: Seq<char>, c: char, i: int) -> Seq<Seq<char>>
    decreases s.len() - i,
{
    if i < 0 || i > s.len() {
        seq![]
    } else {
        proof {
            lemma_next_char(s, c, i);
        }
        if next_char(s, c, i) >= s.len() {
            seq![s.subrange(i, s.len() as int)]
        } else {
            seq![s.subrange(i, next_char(s, c, i))] + pieces_from(s, c, next_char(s, c, i) + 1)
        }
    }
}

/// `str::split` with a char separator.
pub open spec fn split_on(s: Seq<char>, c: char) -> Seq<Seq<char>> {
    pieces_from(s, c, 0)
}

/// The first position at or after `i` that holds `c`, or the length.
pub fn find_char_from(s: &Vec<char>, c: char, i: usize) -> (k: usize)
    requires
        i <= s@.len(),
    ensures
        k == next_char(s@, c, i as int),
{
    let mut k = i;
    while k < s.len() && s[k] != c
        invariant
            i <= k <= s@.len(),
            next_char(s@, c, i as int) == next_char(s@, c, k as int),
        decreases s@.len() - k,
    {
        k += 1;
    }
    k
}

/// `str::split` with a char separator, on characters.
pub fn split_on_char(s: &Vec<char>, c: char) -> (r: Vec<Vec<char>>)
    ensures
        views(r@) == split_on(s@, c),
{
    let n = s.len();
    let mut out: Vec<Vec<char>> = Vec::new();
    let mut i: usize = 0;
    assert(views(out@) + pieces_from(s@, c, 0) =~= pieces_from(s@, c, 0));
    loop
        invariant
            i <= n,
            n == s@.len(),
            views(out@) + pieces_from(s@, c, i as int) == pieces_from(s@, c, 0),
        decreases n - i,
    {
        let k = find_char_from(s, c, i);
        proof {
            lemma_next_char(s@, c, i as int);
        }
        let piece = sub_chars(s, i, k);
        let ghost before = views(out@);
        out.push(piece);
        assert(views(out@) =~= before.push(s@.subrange(i as int, k as int)));
        if k == n {
            assert(pieces_from(s@, c, i as int) == seq![s@.subrange(i as int, n as int)]);
            assert(before + pieces_from(s@, c, i as int) =~= views(out@));
            return out;
        }
        assert(pieces_from(s@, c, i as int) == seq![s@.subrange(i as int, k as int)]
            + pieces_from(s@, c, k + 1));
        assert(before + pieces_from(s@, c, i as int) =~= before.push(
            s@.subrange(i as int, k as int),
        ) + pieces_from(s@, c, k + 1));
        i = k + 1;
    }
}

/// What `str::lines().next()` yields: the text before the first line feed,
/// without a carriage return just before it; `None` for empty text.
pub open spec fn first_line(s: Seq<char>) -> Option<Seq<char>> {
    if s.len() == 0 {
        None
    } else if next_char(s, '\n', 0) < s.len() {
        let l = s.take(next_char(s, '\n', 0));
        if l.len() > 0 && l.last() == '\r' {
            Some(l.drop_last())
        } else {
            Some(l)
        }
    } else {
        Some(s)
    }
}

/// The first line of `s`, as `str::lines().next()` finds it.
pub fn first_line_chars(s: &Vec<char>) -> (r: Option<Vec<char>>)
    ensures
        r matches Some(l) ==> first_line(s@) == Some(l@),
        r is None ==> first_line(s@) is None,
{
    if s.len() == 0 {
        return None;
    }
    let k = find_char_from(s, '\n', 0);
    proof {
        lemma_next_char(s@, '\n', 0);
    }
    if k < s.len() {
        if k > 0 && s[k - 1] == '\r' {
            let l = sub_chars(s, 0, k - 1);
            assert(s@.take(k as int).drop_last() =~= s@.subrange(0, k - 1));
            Some(l)
        } else {
            let l = sub_chars(s, 0, k);
            assert(s@.take(k as int) =~= s@.subrange(0, k as int));
            Some(l)
        }
    } else {
        let l = sub_chars(s, 0, k);
        assert(s@.subrange(0, k as int) =~= s@);
        Some(l)
    }
}

// ─── Lists of strings ────────────────────────────────────────────────────────

/// The texts of a list of strings.
pub open spec fn texts(v: Seq<String>) -> Seq<Seq<char>> {
    v.map_values(|t: String| t@)
}

/// The text of an optional string.
pub open spec fn opt_text(o: Option<String>) -> Option<Seq<char>> {
    match o {
        Some(t) => Some(t@),
        None => None,
    }
}

/// Appends an owned copy of `s`.
pub fn push_str(v: &mut Vec<String>, s: &str)
    ensures
        texts(final(v)@) == texts(old(v)@).push(s@),
{
    let t = owned(s);
    let ghost before = texts(v@);
    v.push(t);
    assert(texts(v@) =~= before.push(s@));
}

/// Appends every string of `w`, in order.
pub fn append_all(v: &mut Vec<String>, w: Vec<String>)
    ensures
        texts(final(v)@) == texts(old(v)@) + texts(w@),
{
    let ghost start = texts(v@);
    let mut i: usize = 0;
    while i < w.len()
        invariant
            i <= w@.len(),
            texts(v@) == start + texts(w@).take(i as int),
        decreases w@.len() - i,
    {
        let ghost before = texts(v@);
        let t = w[i].clone();
        v.push(t);
        assert(texts(v@) =~= before.push(w@[i as int]@));
        i += 1;
        assert(start + texts(w@).take(i as int) =~= (start + texts(w@).take(i - 1)).push(
            w@[i - 1]@,
        ));
    }
    assert(texts(w@).take(w@.len() as int) =~= texts(w@));
}

} // verus!
