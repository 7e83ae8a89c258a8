//! Character-level helpers over `&str` and `String`, stated over `Seq<char>`.
//!
//! The spec functions here say what the standard library's string operations
//! mean (`trim`, `eq_ignore_ascii_case`, `split_once`, integer parsing, ...),
//! and the executable functions compute them on character vectors.

use vstd::prelude::*;

verus! {

// ---------------------------------------------------------------------------
// Specifications
// ---------------------------------------------------------------------------

/// Unicode `White_Space`, as `char::is_whitespace` decides it.
pub open spec fn is_space(c: char) -> bool {
    ||| ('\u{9}' <= c && c <= '\u{d}')
    ||| c == ' '
    ||| c == '\u{85}'
    ||| c == '\u{a0}'
    ||| c == '\u{1680}'
    ||| ('\u{2000}' <= c && c <= '\u{200a}')
    ||| c == '\u{2028}'
    ||| c == '\u{2029}'
    ||| c == '\u{202f}'
    ||| c == '\u{205f}'
    ||| c == '\u{3000}'
}

/// Number of leading white-space characters.
pub open spec fn lead_space(s: Seq<char>) -> nat
    decreases s.len(),
{
    if s.len() > 0 && is_space(s[0]) {
        1 + lead_space(s.drop_first())
    } else {
        0
    }
}

/// Number of trailing white-space characters.
pub open spec fn trail_space(s: Seq<char>) -> nat
    decreases s.len(),
{
    if s.len() > 0 && is_space(s.last()) {
        1 + trail_space(s.drop_last())
    } else {
        0
    }
}

/// `str::trim_start`.
pub open spec fn trim_start(s: Seq<char>) -> Seq<char> {
    s.skip(lead_space(s) as int)
}

/// `str::trim_end`.
pub open spec fn trim_end(s: Seq<char>) -> Seq<char> {
    s.take(s.len() - trail_space(s))
}

/// `str::trim`.
pub open spec fn trim(s: Seq<char>) -> Seq<char> {
    trim_end(trim_start(s))
}

/// `char::to_ascii_lowercase`.
pub open spec fn lower(c: char) -> char {
    if 'A' <= c && c <= 'Z' {
        ((c as u32) + 32) as char
    } else {
        c
    }
}

/// `str::to_ascii_lowercase`.
pub open spec fn lower_all(s: Seq<char>) -> Seq<char> {
    s.map_values(|c: char| lower(c))
}

/// `str::eq_ignore_ascii_case`.
pub open spec fn eq_ignore_case(a: Seq<char>, b: Seq<char>) -> bool {
    lower_all(a) == lower_all(b)
}

/// `p` occurs in `s` starting at `i`.
pub open spec fn occurs_at(s: Seq<char>, p: Seq<char>, i: int) -> bool {
    0 <= i && i + p.len() <= s.len() && s.subrange(i, i + p.len()) == p
}

/// `str::contains` with a string pattern.
pub open spec fn contains(s: Seq<char>, p: Seq<char>) -> bool {
    exists|i: int| occurs_at(s, p, i)
}

/// `str::starts_with`.
pub open spec fn starts_with(s: Seq<char>, p: Seq<char>) -> bool {
    occurs_at(s, p, 0)
}

/// `str::ends_with`.
pub open spec fn ends_with(s: Seq<char>, p: Seq<char>) -> bool {
    occurs_at(s, p, s.len() - p.len())
}

/// Index of the first `c` in `s`, or -1.
pub open spec fn first_index(s: Seq<char>, c: char) -> int
    decreases s.len(),
{
    if s.len() == 0 {
        -1
    } else if s[0] == c {
        0
    } else {
        let r = first_index(s.drop_first(), c);
        if r < 0 {
            -1
        } else {
            r + 1
        }
    }
}

/// `str::split_once` with a character: the text before and after the first `c`.
pub open spec fn split_once(s: Seq<char>, c: char) -> Option<(Seq<char>, Seq<char>)> {
    let i = first_index(s, c);
    if i < 0 {
        None
    } else {
        Some((s.take(i), s.skip(i + 1)))
    }
}

/// `s.split(c).next()`: the text before the first `c`, or all of it.
pub open spec fn before_first(s: Seq<char>, c: char) -> Seq<char> {
    let i = first_index(s, c);
    if i < 0 {
        s
    } else {
        s.take(i)
    }
}

/// The value of a character as a digit in `radix` (10 or 16), if it is one.
pub open spec fn digit_value(c: char, radix: nat) -> Option<nat> {
    if '0' <= c && c <= '9' && (c as u32) - ('0' as u32) < radix {
        Some(((c as u32) - ('0' as u32)) as nat)
    } else if radix == 16 && 'a' <= c && c <= 'f' {
        Some(((c as u32) - ('a' as u32) + 10) as nat)
    } else if radix == 16 && 'A' <= c && c <= 'F' {
        Some(((c as u32) - ('A' as u32) + 10) as nat)
    } else {
        None
    }
}

/// All characters of `s` are digits in `radix`.
pub open spec fn all_digits(s: Seq<char>, radix: nat) -> bool {
    forall|i: int| 0 <= i < s.len() ==> (#[trigger] digit_value(s[i], radix)) is Some
}

/// The number that the digits of `s` spell in `radix`.
pub open spec fn digits_value(s: Seq<char>, radix: nat) -> nat
    decreases s.len(),
{
    if s.len() == 0 {
        0
    } else {
        digits_value(s.drop_last(), radix) * radix + match digit_value(s.last(), radix) {
            Some(d) => d,
            None => 0,
        }
    }
}

/// The digits part of an unsigned number: the text without one leading `+`.
pub open spec fn unsigned_body(s: Seq<char>) -> Seq<char> {
    if s.len() > 0 && s[0] == '+' {
        s.drop_first()
    } else {
        s
    }
}

/// `u*::from_str_radix(s, radix)` (and `str::parse` for radix 10) for an
/// unsigned type whose largest value is `max`.
pub open spec fn parse_unsigned(s: Seq<char>, radix: nat, max: nat) -> Option<nat> {
    let body = unsigned_body(s);
    if body.len() > 0 && all_digits(body, radix) && digits_value(body, radix) <= max {
        Some(digits_value(body, radix))
    } else {
        None
    }
}

/// The decimal digit character for `d < 10`.
pub open spec fn digit_char(d: nat) -> char {
    (('0' as u32) + d) as char
}

/// The decimal rendering of `n`, as `format!("{n}")` writes it.
pub open spec fn decimal(n: nat) -> Seq<char>
    decreases n,
{
    if n < 10 {
        seq![digit_char(n)]
    } else {
        decimal(n / 10).push(digit_char(n % 10))
    }
}

// ---------------------------------------------------------------------------
// Lemmas
// ---------------------------------------------------------------------------

/// `first_index` is the first position holding `c`.
pub proof fn lemma_first_index(s: Seq<char>, c: char)
    ensures
        -1 <= first_index(s, c) < s.len(),
        first_index(s, c) >= 0 ==> s[first_index(s, c)] == c,
        forall|j: int| 0 <= j < s.len() && (first_index(s, c) < 0 || j < first_index(s, c)) ==> s[j] != c,
    decreases s.len(),
{
    if s.len() > 0 && s[0] != c {
        lemma_first_index(s.drop_first(), c);
        let r = first_index(s.drop_first(), c);
        assert forall|j: int| 0 <= j < s.len() && (first_index(s, c) < 0 || j < first_index(s, c)) implies s[j] != c by {
            if j > 0 {
                assert(s[j] == s.drop_first()[j - 1]);
            }
        }
    }
}

/// A position that holds `c`, with no `c` before it, is `first_index`.
pub proof fn lemma_first_index_at(s: Seq<char>, c: char, i: int)
    requires
        0 <= i <= s.len(),
        i < s.len() ==> s[i] == c,
        forall|j: int| 0 <= j < i ==> s[j] != c,
    ensures
        first_index(s, c) == (if i < s.len() { i } else { -1 }),
{
    lemma_first_index(s, c);
}

/// Leading white space of a suffix.
proof fn lemma_lead_space_step(s: Seq<char>, i: int)
    requires
        0 <= i < s.len(),
        is_space(s[i]),
    ensures
        lead_space(s.skip(i)) == 1 + lead_space(s.skip(i + 1)),
{
    assert(s.skip(i).drop_first() =~= s.skip(i + 1));
}

/// Trailing white space of a prefix.
proof fn lemma_trail_space_step(s: Seq<char>, i: int)
    requires
        0 < i <= s.len(),
        is_space(s[i - 1]),
    ensures
        trail_space(s.take(i)) == 1 + trail_space(s.take(i - 1)),
{
    assert(s.take(i).drop_last() =~= s.take(i - 1));
}

/// Digits of a longer prefix are worth at least as much, and one more digit
/// is the previous value times the radix plus the digit.
proof fn lemma_digits_step(s: Seq<char>, radix: nat, i: int)
    requires
        0 <= i < s.len(),
        radix == 10 || radix == 16,
        digit_value(s[i], radix) is Some,
    ensures
        digits_value(s.take(i + 1), radix) == digits_value(s.take(i), radix) * radix
            + digit_value(s[i], radix)->0,
        digits_value(s.take(i + 1), radix) >= digits_value(s.take(i), radix),
{
    assert(s.take(i + 1).drop_last() =~= s.take(i));
    assert(digits_value(s.take(i), radix) * radix >= digits_value(s.take(i), radix)) by (nonlinear_arith)
        requires radix >= 1;
}

/// A prefix of an all-digit sequence is worth no more than the whole.
proof fn lemma_digits_prefix_le(s: Seq<char>, radix: nat, i: int)
    requires
        0 <= i <= s.len(),
        radix == 10 || radix == 16,
        all_digits(s, radix),
    ensures
        digits_value(s.take(i), radix) <= digits_value(s, radix),
    decreases s.len() - i,
{
    if i < s.len() {
        assert(digit_value(s[i], radix) is Some);
        lemma_digits_step(s, radix, i);
        lemma_digits_prefix_le(s, radix, i + 1);
    } else {
        assert(s.take(i) =~= s);
    }
}

// ---------------------------------------------------------------------------
// Executable helpers
// ---------------------------------------------------------------------------

/// `String::push` appends one character.
#[verifier::external_body]
pub(crate) fn push_char(s: &mut String, c: char)
    ensures
        final(s)@ == old(s)@.push(c),
{
    s.push(c);
}

/// The characters of a string slice, in order.
pub fn chars_of(s: &str) -> (v: Vec<char>)
    ensures
        v@ == s@,
{
    let mut v: Vec<char> = Vec::new();
    for c in it: s.chars()
        invariant
            it.seq() == s@,
            v@ == it.seq().take(it.index()),
    {
        v.push(c);
    }
    v
}

/// A string built from the characters `v[lo..hi]`.
pub fn string_from_range(v: &[char], lo: usize, hi: usize) -> (s: String)
    requires
        lo <= hi <= v@.len(),
    ensures
        s@ == v@.subrange(lo as int, hi as int),
{
    let mut s = String::new();
    let mut i: usize = lo;
    while i < hi
        invariant
            lo <= i <= hi <= v@.len(),
            s@ == v@.subrange(lo as int, i as int),
        decreases hi - i,
    {
        push_char(&mut s, v[i]);
        assert(v@.subrange(lo as int, i + 1) == v@.subrange(lo as int, i as int).push(v@[i as int]));
        i = i + 1;
    }
    s
}

/// Appends the characters of `t` to `s`.
pub fn push_str(s: &mut String, t: &str)
    ensures
        final(s)@ == old(s)@ + t@,
{
    let v = chars_of(t);
    let mut i: usize = 0;
    while i < v.len()
        invariant
            0 <= i <= v@.len(),
            v@ == t@,
            s@ == old(s)@ + v@.take(i as int),
        decreases v@.len() - i,
    {
        push_char(s, v[i]);
        assert(v@.take(i + 1) == v@.take(i as int).push(v@[i as int]));
        assert(old(s)@ + v@.take(i + 1) == (old(s)@ + v@.take(i as int)).push(v@[i as int]));
        i = i + 1;
    }
    assert(v@.take(v@.len() as int) == v@);
}

/// Appends the characters `v[lo..hi]` to `s`.
pub fn push_range(s: &mut String, v: &[char], lo: usize, hi: usize)
    requires
        lo <= hi <= v@.len(),
    ensures
        final(s)@ == old(s)@ + v@.subrange(lo as int, hi as int),
{
    let mut i: usize = lo;
    while i < hi
        invariant
            lo <= i <= hi <= v@.len(),
            s@ == old(s)@ + v@.subrange(lo as int, i as int),
        decreases hi - i,
    {
        push_char(s, v[i]);
        assert(v@.subrange(lo as int, i + 1) == v@.subrange(lo as int, i as int).push(v@[i as int]));
        assert(old(s)@ + v@.subrange(lo as int, i + 1) == (old(s)@ + v@.subrange(lo as int, i as int)).push(v@[i as int]));
        i = i + 1;
    }
}

/// `char::is_whitespace`.
pub fn char_is_space(c: char) -> (b: bool)
    ensures
        b == is_space(c),
{
    ('\u{9}' <= c && c <= '\u{d}') || c == ' ' || c == '\u{85}' || c == '\u{a0}' || c == '\u{1680}'
        || ('\u{2000}' <= c && c <= '\u{200a}') || c == '\u{2028}' || c == '\u{2029}' || c
        == '\u{202f}' || c == '\u{205f}' || c == '\u{3000}'
}

/// `char::to_ascii_lowercase`.
pub fn char_lower(c: char) -> (r: char)
    ensures
        r == lower(c),
{
    if 'A' <= c && c <= 'Z' {
        let n: u32 = (c as u32) + 32;
        assert(n < 0xD800);
        char_from_code(n)
    } else {
        c
    }
}

/// `char::from_u32`, which std documents to give `Some` for every code below
/// 0xD800 (no surrogate lies there); the character is the one with that code.
#[verifier::external_body]
pub(crate) fn char_from_code(n: u32) -> (c: char)
    requires
        n < 0xD800,
    ensures
        c == n as char,
{
    char::from_u32(n).unwrap()
}

/// The bounds `(a, b)` of `trim(v[lo..hi])` inside `v`.
pub fn trim_bounds(v: &[char], lo: usize, hi: usize) -> (r: (usize, usize))
    requires
        lo <= hi <= v@.len(),
    ensures
        lo <= r.0 <= r.1 <= hi,
        v@.subrange(r.0 as int, r.1 as int) == trim(v@.subrange(lo as int, hi as int)),
{
    let ghost s = v@.subrange(lo as int, hi as int);
    assert(s.skip(0) =~= s);
    let mut a: usize = lo;
    while a < hi && char_is_space(v[a])
        invariant
            lo <= a <= hi <= v@.len(),
            s == v@.subrange(lo as int, hi as int),
            lead_space(s) == (a - lo) + lead_space(s.skip(a - lo)),
        decreases hi - a,
    {
        proof {
            lemma_lead_space_step(s, a - lo);
        }
        a = a + 1;
    }
    proof {
        let t = s.skip(a - lo);
        if a < hi {
            assert(t[0] == v@[a as int]);
        }
        assert(lead_space(t) == 0);
    }
    let ghost st = trim_start(s);
    assert(st =~= v@.subrange(a as int, hi as int));
    assert(st.take(hi - a) =~= st);
    let mut b: usize = hi;
    while b > a && char_is_space(v[b - 1])
        invariant
            lo <= a <= b <= hi <= v@.len(),
            st == v@.subrange(a as int, hi as int),
            trail_space(st) == (hi - b) + trail_space(st.take(b - a)),
        decreases b - a,
    {
        proof {
            lemma_trail_space_step(st, b - a);
        }
        b = b - 1;
    }
    proof {
        let t = st.take(b - a);
        if b > a {
            assert(t.last() == v@[b - 1]);
        }
        assert(trail_space(t) == 0);
        assert(trim(s) =~= v@.subrange(a as int, b as int));
    }
    (a, b)
}

/// Whether `v[lo..hi]` equals `p` ignoring ASCII case.
pub fn range_eq_ignore_case(v: &[char], lo: usize, hi: usize, p: &[char]) -> (b: bool)
    requires
        lo <= hi <= v@.len(),
    ensures
        b == eq_ignore_case(v@.subrange(lo as int, hi as int), p@),
{
    let ghost s = v@.subrange(lo as int, hi as int);
    if hi - lo != p.len() {
        assert(lower_all(s).len() != lower_all(p@).len());
        return false;
    }
    let mut i: usize = 0;
    while i < p.len()
        invariant
            hi - lo == p@.len(),
            lo <= hi <= v@.len(),
            s == v@.subrange(lo as int, hi as int),
            0 <= i <= p@.len(),
            forall|j: int| 0 <= j < i ==> lower(s[j]) == lower(p@[j]),
        decreases p@.len() - i,
    {
        if char_lower(v[lo + i]) != char_lower(p[i]) {
            assert(lower_all(s)[i as int] != lower_all(p@)[i as int]);
            return false;
        }
        i = i + 1;
    }
    assert(lower_all(s) =~= lower_all(p@));
    true
}

/// Whether `p` occurs in `v[lo..hi]` after ASCII lowercasing of `v`.
pub fn range_lower_contains(v: &[char], lo: usize, hi: usize, p: &[char]) -> (b: bool)
    requires
        lo <= hi <= v@.len(),
    ensures
        b == contains(lower_all(v@.subrange(lo as int, hi as int)), p@),
{
    let ghost s = lower_all(v@.subrange(lo as int, hi as int));
    if p.len() > hi - lo {
        assert forall|i: int| !occurs_at(s, p@, i) by {}
        return false;
    }
    let mut i: usize = 0;
    while i <= (hi - lo) - p.len()
        invariant
            lo <= hi <= v@.len(),
            p@.len() <= hi - lo,
            s == lower_all(v@.subrange(lo as int, hi as int)),
            0 <= i <= hi - lo - p@.len() + 1,
            forall|k: int| 0 <= k < i ==> !occurs_at(s, p@, k),
        decreases hi - lo - i,
    {
        let mut j: usize = 0;
        let mut all = true;
        while j < p.len()
            invariant
                lo <= hi <= v@.len(),
                i + p@.len() <= hi - lo,
                s == lower_all(v@.subrange(lo as int, hi as int)),
                0 <= j <= p@.len(),
                all == (forall|m: int| 0 <= m < j ==> s[i + m] == p@[m]),
            decreases p@.len() - j,
        {
            if char_lower(v[lo + i + j]) != p[j] {
                all = false;
            }
            j = j + 1;
        }
        if all {
            assert(s.subrange(i as int, i + p@.len()) =~= p@);
            assert(occurs_at(s, p@, i as int));
            return true;
        }
        proof {
            if occurs_at(s, p@, i as int) {
                let m = choose|m: int| 0 <= m < p@.len() && s[i + m] != p@[m];
                assert(s.subrange(i as int, i + p@.len())[m] == s[i + m]);
            }
        }
        i = i + 1;
    }
    assert forall|k: int| !occurs_at(s, p@, k) by {
        if 0 <= k && k + p@.len() <= s.len() {
            assert(k < i);
        }
    }
    false
}

/// Whether `p` occurs in `v` at `i`.
pub fn occurs_at_exec(v: &[char], p: &[char], i: usize) -> (b: bool)
    ensures
        b == occurs_at(v@, p@, i as int),
{
    if i > v.len() || p.len() > v.len() - i {
        return false;
    }
    let mut j: usize = 0;
    while j < p.len()
        invariant
            i + p@.len() <= v@.len(),
            v@.len() == v.len(),
            0 <= j <= p@.len(),
            forall|m: int| 0 <= m < j ==> v@[i + m] == p@[m],
        decreases p@.len() - j,
    {
        if v[i + j] != p[j] {
            assert(v@.subrange(i as int, i + p@.len())[j as int] != p@[j as int]);
            return false;
        }
        j = j + 1;
    }
    assert(v@.subrange(i as int, i + p@.len()) =~= p@);
    true
}

/// The index of the first `c` in `v[lo..hi]`, relative to `lo`, or `None`.
pub fn find_char(v: &[char], lo: usize, hi: usize, c: char) -> (r: Option<usize>)
    requires
        lo <= hi <= v@.len(),
    ensures
        match r {
            Some(i) => first_index(v@.subrange(lo as int, hi as int), c) == i as int && lo + i < hi
                && v@[lo + i] == c,
            None => first_index(v@.subrange(lo as int, hi as int), c) == -1,
        },
{
    let ghost s = v@.subrange(lo as int, hi as int);
    let mut i: usize = lo;
    while i < hi
        invariant
            lo <= i <= hi <= v@.len(),
            s == v@.subrange(lo as int, hi as int),
            forall|j: int| 0 <= j < i - lo ==> s[j] != c,
        decreases hi - i,
    {
        if v[i] == c {
            proof {
                lemma_first_index_at(s, c, i - lo);
            }
            return Some(i - lo);
        }
        i = i + 1;
    }
    proof {
        lemma_first_index_at(s, c, s.len() as int);
    }
    None
}

/// `from_str_radix` / `parse` for an unsigned number no larger than `max`,
/// over the characters `v[lo..hi]`.
pub fn parse_unsigned_range(v: &[char], lo: usize, hi: usize, radix: u64, max: u64) -> (r: Option<u64>)
    requires
        lo <= hi <= v@.len(),
        radix == 10 || radix == 16,
    ensures
        match r {
            Some(n) => parse_unsigned(v@.subrange(lo as int, hi as int), radix as nat, max as nat)
                == Some(n as nat),
            None => parse_unsigned(v@.subrange(lo as int, hi as int), radix as nat, max as nat)
                is None,
        },
{
    let ghost s = v@.subrange(lo as int, hi as int);
    let mut start: usize = lo;
    if lo < hi && v[lo] == '+' {
        start = lo + 1;
    }
    let ghost body = unsigned_body(s);
    assert(body =~= v@.subrange(start as int, hi as int));
    if start == hi {
        return None;
    }
    let mut value: u64 = 0;
    let mut i: usize = start;
    while i < hi
        invariant
            lo <= start < hi <= v@.len(),
            start <= i <= hi,
            radix == 10 || radix == 16,
            body == v@.subrange(start as int, hi as int),
            body == unsigned_body(v@.subrange(lo as int, hi as int)),
            all_digits(body.take(i - start), radix as nat),
            value as nat == digits_value(body.take(i - start), radix as nat),
            value <= max,
        decreases hi - i,
    {
        let d = digit_of(v[i], radix);
        assert(body[i - start] == v@[i as int]);
        match d {
            None => {
                assert(digit_value(body[i - start], radix as nat) is None);
                assert(!all_digits(body, radix as nat));
                return None;
            },
            Some(d) => {
                proof {
                    lemma_digits_step(body, radix as nat, i - start);
                    assert(body.take(i - start + 1) =~= body.take(i - start).push(body[i - start]));
                    assert forall|k: int| 0 <= k < i - start + 1 implies (#[trigger] digit_value(
                        body.take(i - start + 1)[k],
                        radix as nat,
                    )) is Some by {
                        if k < i - start {
                            assert(body.take(i - start + 1)[k] == body.take(i - start)[k]);
                        }
                    }
                }
                if d > max || value > (max - d) / radix {
                    proof {
                        if d <= max {
                            let q: int = (max - d) as int / radix as int;
                            assert((value as int) * (radix as int) + (d as int) > max as int) by (nonlinear_arith)
                                requires value as int > q, q == (max - d) as int / radix as int, radix as int >= 10, d as int <= max as int;
                        }
                        if all_digits(body, radix as nat) {
                            lemma_digits_prefix_le(body, radix as nat, i - start + 1);
                        }
                    }
                    return None;
                }
                proof {
                    let q: int = (max - d) as int / radix as int;
                    assert((value as int) * (radix as int) + (d as int) <= max as int) by (nonlinear_arith)
                        requires value as int <= q, q == (max - d) as int / radix as int, radix as int >= 10, d as int <= max as int;
                }
                value = value * radix + d;
            },
        }
        i = i + 1;
    }
    assert(body.take(hi - start) =~= body);
    Some(value)
}

/// The value of `c` as a digit in `radix`, if it is one.
fn digit_of(c: char, radix: u64) -> (r: Option<u64>)
    requires
        radix == 10 || radix == 16,
    ensures
        match r {
            Some(d) => digit_value(c, radix as nat) == Some(d as nat) && d < radix,
            None => digit_value(c, radix as nat) is None,
        },
{
    if '0' <= c && c <= '9' {
        Some((c as u64) - ('0' as u64))
    } else if radix == 16 && 'a' <= c && c <= 'f' {
        Some((c as u64) - ('a' as u64) + 10)
    } else if radix == 16 && 'A' <= c && c <= 'F' {
        Some((c as u64) - ('A' as u64) + 10)
    } else {
        None
    }
}

/// `a == b` for string slices.
pub fn same_text(a: &str, b: &str) -> (r: bool)
    ensures
        r == (a@ == b@),
{
    let va = chars_of(a);
    let vb = chars_of(b);
    if va.len() != vb.len() {
        return false;
    }
    let mut i: usize = 0;
    while i < va.len()
        invariant
            va@ == a@,
            vb@ == b@,
            va@.len() == vb@.len(),
            0 <= i <= va@.len(),
            forall|j: int| 0 <= j < i ==> va@[j] == vb@[j],
        decreases va@.len() - i,
    {
        if va[i] != vb[i] {
            return false;
        }
        i = i + 1;
    }
    assert(va@ =~= vb@);
    true
}

/// `format!("{n}")`.
pub fn decimal_string(n: u64) -> (s: String)
    ensures
        s@ == decimal(n as nat),
    decreases n,
{
    if n < 10 {
        let mut s = String::new();
        push_char(&mut s, digit_char_exec(n));
        assert(s@ =~= seq![digit_char(n as nat)]);
        s
    } else {
        let mut s = decimal_string(n / 10);
        push_char(&mut s, digit_char_exec(n % 10));
        s
    }
}

/// The decimal digit character for `d < 10`.
fn digit_char_exec(d: u64) -> (c: char)
    requires
        d < 10,
    ensures
        c == digit_char(d as nat),
{
    let n: u32 = 48 + (d as u32);
    char_from_code(n)
}

} // verus!
