//! yt-dlp version numbers: parsing "2026.03.03"-style versions into numbers
//! and deciding whether a newer one is available.
use vstd::prelude::*;

use crate::text::{chars_of, split_on, split_on_char, views};

verus! {

/// An ASCII decimal digit.
pub open spec fn is_digit(c: char) -> bool {
    48 <= c as u32 <= 57
}

/// The value of a string of decimal digits.
pub open spec fn digits_value(d: Seq<char>) -> nat
    decreases d.len(),
{
    if d.len() == 0 {
        0
    } else {
        digits_value(d.drop_last()) * 10 + ((d.last() as u32) - 48) as nat
    }
}

/// The digits of a number, after an optional leading `+`.
pub open spec fn unsigned_digits(s: Seq<char>) -> Seq<char> {
    if s.len() > 0 && s[0] == '+' {
        s.drop_first()
    } else {
        s
    }
}

/// What `str::parse::<u32>` accepts: an optional `+` followed by at least one
/// ASCII digit and nothing else, with a value that fits in a `u32`.
pub open spec fn parse_u32(s: Seq<char>) -> Option<u32> {
    let d = unsigned_digits(s);
    if d.len() > 0 && (forall|i: int| 0 <= i < d.len() ==> is_digit(#[trigger] d[i]))
        && digits_value(d) <= u32::MAX {
        Some(digits_value(d) as u32)
    } else {
        None
    }
}

/// Appending digits never lowers the value.
pub proof fn lemma_digits_value_grows(d: Seq<char>, k: int)
    requires
        0 <= k <= d.len(),
        forall|i: int| 0 <= i < d.len() ==> is_digit(#[trigger] d[i]),
    ensures
        digits_value(d.take(k)) <= digits_value(d),
    decreases d.len() - k,
{
    if k < d.len() {
        lemma_digits_value_grows(d, k + 1);
        assert(d.take(k + 1).drop_last() =~= d.take(k));
    } else {
        assert(d.take(k) =~= d);
    }
}

/// `str::parse::<u32>` on characters.
pub fn parse_u32_chars(s: &Vec<char>) -> (r: Option<u32>)
    ensures
        r == parse_u32(s@),
{
    let n = s.len();
    let start: usize = if n > 0 && s[0] == '+' {
        1
    } else {
        0
    };
    let ghost d = unsigned_digits(s@);
    assert(d =~= s@.skip(start as int));
    if start == n {
        return None;
    }
    let mut acc: u64 = 0;
    let mut i: usize = start;
    while i < n
        invariant
            start <= i <= n,
            n == s@.len(),
            d == s@.skip(start as int),
            d == unsigned_digits(s@),
            d.len() > 0,
            acc == digits_value(d.take(i - start)),
            acc <= u32::MAX,
            forall|k: int| 0 <= k < i - start ==> is_digit(#[trigger] d[k]),
        decreases n - i,
    {
        let c = s[i];
        let v = c as u32;
        assert(d[i - start] == c);
        if v < 48 || v > 57 {
            assert(!is_digit(d[i - start]));
            return None;
        }
        assert(d.take(i - start + 1).drop_last() =~= d.take(i - start));
        assert(d.take(i - start + 1).last() == c);
        let next = acc * 10 + (v - 48) as u64;
        assert(next == digits_value(d.take(i - start + 1)));
        if next > 0xffff_ffff {
            proof {
                let k = (i - start + 1) as int;
                if forall|j: int| 0 <= j < d.len() ==> is_digit(#[trigger] d[j]) {
                    lemma_digits_value_grows(d, k);
                }
            }
            return None;
        }
        acc = next;
        i += 1;
    }
    assert(d.take(n - start) =~= d);
    Some(acc as u32)
}

/// The numbers of a version string: the pieces between the dots that parse as
/// `u32`, in order; the others are skipped.
pub open spec fn parsed_parts(pieces: Seq<Seq<char>>) -> Seq<u32>
    decreases pieces.len(),
{
    if pieces.len() == 0 {
        seq![]
    } else {
        let rest = parsed_parts(pieces.drop_last());
        match parse_u32(pieces.last()) {
            Some(v) => rest.push(v),
            None => rest,
        }
    }
}

/// The numbers of a version string ("2026.03.03" gives 2026, 3, 3).
pub open spec fn version_numbers(v: Seq<char>) -> Seq<u32> {
    parsed_parts(split_on(v, '.'))
}

/// The numbers of a version string.
pub fn version_parts(v: &str) -> (r: Vec<u32>)
    ensures
        r@ == version_numbers(v@),
{
    let cs = chars_of(v);
    let pieces = split_on_char(&cs, '.');
    let ghost ps = views(pieces@);
    let mut out: Vec<u32> = Vec::new();
    let mut i: usize = 0;
    while i < pieces.len()
        invariant
            i <= pieces@.len(),
            ps == views(pieces@),
            ps == split_on(v@, '.'),
            out@ == parsed_parts(ps.take(i as int)),
        decreases pieces@.len() - i,
    {
        assert(ps.take(i + 1).drop_last() =~= ps.take(i as int));
        assert(ps.take(i + 1).last() == pieces@[i as int]@);
        match parse_u32_chars(&pieces[i]) {
            Some(x) => out.push(x),
            None => {},
        }
        i += 1;
    }
    assert(ps.take(pieces@.len() as int) =~= ps);
    out
}

/// Lexicographic order on number lists, as `Vec<u32>` compares: the first
/// differing number decides, and a proper prefix comes first.
pub open spec fn lex_less(a: Seq<u32>, b: Seq<u32>) -> bool
    decreases a.len(),
{
    if a.len() == 0 {
        b.len() > 0
    } else if b.len() == 0 {
        false
    } else if a[0] != b[0] {
        a[0] < b[0]
    } else {
        lex_less(a.drop_first(), b.drop_first())
    }
}

/// Whether `a` comes before `b` in lexicographic order.
pub fn numbers_less(a: &Vec<u32>, b: &Vec<u32>) -> (r: bool)
    ensures
        r == lex_less(a@, b@),
{
    let mut i: usize = 0;
    assert(a@.skip(0) =~= a@);
    assert(b@.skip(0) =~= b@);
    loop
        invariant
            i <= a@.len(),
            i <= b@.len(),
            lex_less(a@, b@) == lex_less(a@.skip(i as int), b@.skip(i as int)),
        decreases a@.len() - i,
    {
        if i == a.len() {
            return i < b.len();
        }
        if i == b.len() {
            return false;
        }
        if a[i] != b[i] {
            return a[i] < b[i];
        }
        assert(a@.skip(i as int).drop_first() =~= a@.skip(i + 1));
        assert(b@.skip(i as int).drop_first() =~= b@.skip(i + 1));
        i += 1;
    }
}

/// A newer version is available when the latest version is known and its
/// numbers come after the current version's.
pub open spec fn update_available(current: Seq<char>, latest: Seq<char>) -> bool {
    latest.len() > 0 && lex_less(version_numbers(current), version_numbers(latest))
}

/// Whether `latest` is a newer version than `current`.
pub fn has_update(current: &str, latest: &str) -> (r: bool)
    ensures
        r == update_available(current@, latest@),
{
    let l = chars_of(latest);
    if l.len() == 0 {
        return false;
    }
    let c = version_parts(current);
    let n = version_parts(latest);
    numbers_less(&c, &n)
}

// ─── Laws ────────────────────────────────────────────────────────────────────

/// No number list comes before itself.
pub proof fn lemma_lex_irreflexive(a: Seq<u32>)
    ensures
        !lex_less(a, a),
    decreases a.len(),
{
    if a.len() > 0 {
        lemma_lex_irreflexive(a.drop_first());
    }
}

/// Two number lists never come before each other.
pub proof fn lemma_lex_asymmetric(a: Seq<u32>, b: Seq<u32>)
    ensures
        lex_less(a, b) ==> !lex_less(b, a),
    decreases a.len(),
{
    if a.len() > 0 && b.len() > 0 && a[0] == b[0] {
        lemma_lex_asymmetric(a.drop_first(), b.drop_first());
    }
}

/// The order is transitive.
pub proof fn lemma_lex_transitive(a: Seq<u32>, b: Seq<u32>, c: Seq<u32>)
    requires
        lex_less(a, b),
        lex_less(b, c),
    ensures
        lex_less(a, c),
    decreases a.len(),
{
    if a.len() > 0 && b.len() > 0 && c.len() > 0 && a[0] == b[0] && b[0] == c[0] {
        lemma_lex_transitive(a.drop_first(), b.drop_first(), c.drop_first());
    }
}

/// Of two different number lists, one comes first.
pub proof fn lemma_lex_total(a: Seq<u32>, b: Seq<u32>)
    requires
        a != b,
    ensures
        lex_less(a, b) || lex_less(b, a),
    decreases a.len(),
{
    if a.len() > 0 && b.len() > 0 && a[0] == b[0] {
        if a.drop_first() == b.drop_first() {
            assert(a =~= seq![a[0]] + a.drop_first());
            assert(b =~= seq![b[0]] + b.drop_first());
        }
        lemma_lex_total(a.drop_first(), b.drop_first());
    } else if a.len() == 0 && b.len() == 0 {
        assert(a =~= b);
    }
}

/// Versions with the same numbers never update each other, whatever their
/// spelling ("2026.03.03" and "2026.3.3").
pub proof fn lemma_same_numbers_no_update(current: Seq<char>, latest: Seq<char>)
    requires
        version_numbers(current) == version_numbers(latest),
    ensures
        !update_available(current, latest),
        !update_available(latest, current),
{
    lemma_lex_irreflexive(version_numbers(current));
}

/// A version is never an update of itself, and of two versions at most one is
/// an update of the other.
pub proof fn lemma_update_asymmetric(a: Seq<char>, b: Seq<char>)
    ensures
        !update_available(a, a),
        update_available(a, b) ==> !update_available(b, a),
{
    lemma_lex_irreflexive(version_numbers(a));
    lemma_lex_asymmetric(version_numbers(a), version_numbers(b));
}

/// An update of an update is an update.
pub proof fn lemma_update_transitive(a: Seq<char>, b: Seq<char>, c: Seq<char>)
    requires
        update_available(a, b),
        update_available(b, c),
    ensures
        update_available(a, c),
{
    lemma_lex_transitive(version_numbers(a), version_numbers(b), version_numbers(c));
}

/// `a` comes before `b` exactly when, after a common prefix of some length
/// `k`, either `a` ends while `b` goes on, or `a`'s number at `k` is smaller.
pub proof fn lemma_lex_less_first_difference(a: Seq<u32>, b: Seq<u32>)
    ensures
        lex_less(a, b) <==> exists|k: int|
            0 <= k <= a.len() && k < b.len() && a.subrange(0, k) == b.subrange(0, k) && (k
                == a.len() || a[k] < b[k]),
    decreases a.len(),
{
    if a.len() > 0 && b.len() > 0 && a[0] == b[0] {
        lemma_lex_less_first_difference(a.drop_first(), b.drop_first());
        if lex_less(a, b) {
            let k = choose|k: int|
                0 <= k <= a.drop_first().len() && k < b.drop_first().len()
                    && a.drop_first().subrange(0, k) == b.drop_first().subrange(0, k) && (k
                    == a.drop_first().len() || a.drop_first()[k] < b.drop_first()[k]);
            assert(a.subrange(0, k + 1) =~= seq![a[0]] + a.drop_first().subrange(0, k));
            assert(b.subrange(0, k + 1) =~= seq![b[0]] + b.drop_first().subrange(0, k));
            assert(k + 1 == a.len() || a[k + 1] < b[k + 1]);
        }
        if exists|k: int|
            0 <= k <= a.len() && k < b.len() && a.subrange(0, k) == b.subrange(0, k) && (k
                == a.len() || a[k] < b[k]) {
            let k = choose|k: int|
                0 <= k <= a.len() && k < b.len() && a.subrange(0, k) == b.subrange(0, k) && (k
                    == a.len() || a[k] < b[k]);
            if k == 0 {
                assert(a[0] < b[0]);
            } else {
                assert(a.drop_first().subrange(0, k - 1) =~= a.subrange(0, k).drop_first());
                assert(b.drop_first().subrange(0, k - 1) =~= b.subrange(0, k).drop_first());
                assert(k - 1 == a.drop_first().len() || a.drop_first()[k - 1] < b.drop_first()[k
                    - 1]);
            }
        }
    } else {
        assert(a.subrange(0, 0) =~= b.subrange(0, 0));
        if a.len() > 0 && b.len() > 0 && a[0] > b[0] {
            assert forall|k: int|
                0 <= k <= a.len() && k < b.len() && a.subrange(0, k) == b.subrange(0, k) implies !(k
                    == a.len() || a[k] < b[k]) by {
                if k > 0 {
                    assert(a.subrange(0, k)[0] == b.subrange(0, k)[0]);
                }
            }
        }
    }
}

/// A newer version is reported exactly when the latest version is known and,
/// after the numbers the two versions share, the latest one has a larger
/// number or more numbers; every part counts, however far down it comes.
pub proof fn lemma_update_at_first_difference(current: Seq<char>, latest: Seq<char>)
    ensures
        update_available(current, latest) <==> latest.len() > 0 && exists|k: int|
            0 <= k <= version_numbers(current).len() && k < version_numbers(latest).len()
                && version_numbers(current).subrange(0, k) == version_numbers(latest).subrange(
                0,
                k,
            ) && (k == version_numbers(current).len() || version_numbers(current)[k]
                < version_numbers(latest)[k]),
{
    lemma_lex_less_first_difference(version_numbers(current), version_numbers(latest));
}

} // verus!
