//! The HTTP message head as the Bound Port forwarder reads and rewrites it:
//! finding the end of the head, reading the request line and status line,
//! recognising `Content-Length`, `Transfer-Encoding: chunked` and
//! `Expect: 100-continue`, and rewriting the head line by line.

use vstd::prelude::*;
use crate::text::{
    before_first, char_is_space, chars_of, contains, eq_ignore_case, find_char, first_index,
    is_space, lead_space, lemma_first_index, lower_all, parse_unsigned, parse_unsigned_range, push_char, push_range,
    push_str, range_eq_ignore_case, range_lower_contains, split_once, string_from_range, trim,
    trim_bounds, trim_start,
};

verus! {

/// Most bytes of head that the forwarder buffers before it gives up.
pub const MAX_HEAD_BYTES: usize = 65536;

// ---------------------------------------------------------------------------
// Specifications
// ---------------------------------------------------------------------------

/// `buf[i..i + 4] == b"\r\n\r\n"`.
pub open spec fn blank_line_at(buf: Seq<u8>, i: int) -> bool {
    0 <= i && i + 4 <= buf.len() && buf[i] == 13u8 && buf[i + 1] == 10u8 && buf[i + 2] == 13u8
        && buf[i + 3] == 10u8
}

/// The end of the head: the index just past the first `\r\n\r\n`.
pub open spec fn head_end(buf: Seq<u8>) -> Option<int> {
    if exists|i: int| blank_line_at(buf, i) {
        let i = choose|i: int| blank_line_at(buf, i) && forall|j: int| 0 <= j < i ==> !blank_line_at(buf, j);
        Some(i + 4)
    } else {
        None
    }
}

/// `str::lines`: split at `\n`, drop a `\r` before it, no empty last line.
pub open spec fn lines(s: Seq<char>) -> Seq<Seq<char>>
    decreases s.len(),
{
    if s.len() == 0 {
        seq![]
    } else {
        let i = first_index(s, '\n');
        proof {
            lemma_first_index(s, '\n');
        }
        if i < 0 {
            seq![s]
        } else {
            let l = s.take(i);
            let l2 = if l.len() > 0 && l.last() == '\r' {
                l.drop_last()
            } else {
                l
            };
            seq![l2] + lines(s.skip(i + 1))
        }
    }
}

/// `s[j..j + 2] == "\r\n"`.
pub open spec fn crlf_at(s: Seq<char>, j: int) -> bool {
    0 <= j && j + 1 < s.len() && s[j] == '\r' && s[j + 1] == '\n'
}

/// Index of the first `\r\n` in `s`, or -1.
pub open spec fn first_crlf(s: Seq<char>) -> int
    decreases s.len(),
{
    if s.len() < 2 {
        -1
    } else if s[0] == '\r' && s[1] == '\n' {
        0
    } else {
        let r = first_crlf(s.drop_first());
        if r < 0 {
            -1
        } else {
            r + 1
        }
    }
}

/// `s.split("\r\n")`: the pieces between the separators, empty ones included.
pub open spec fn split_crlf(s: Seq<char>) -> Seq<Seq<char>>
    decreases s.len(),
{
    let i = first_crlf(s);
    proof {
        lemma_first_crlf(s);
    }
    if i < 0 {
        seq![s]
    } else {
        seq![s.take(i)] + split_crlf(s.skip(i + 2))
    }
}

/// `pieces.join("\r\n")`.
pub open spec fn join_crlf(ps: Seq<Seq<char>>) -> Seq<char>
    decreases ps.len(),
{
    if ps.len() == 0 {
        seq![]
    } else if ps.len() == 1 {
        ps[0]
    } else {
        ps[0] + seq!['\r', '\n'] + join_crlf(ps.drop_first())
    }
}

/// The header line `line` has a name (text before its first `:`) equal to
/// `name` ignoring ASCII case.
pub open spec fn header_named(line: Seq<char>, name: Seq<char>) -> bool {
    match split_once(line, ':') {
        Some((n, _)) => eq_ignore_case(n, name),
        None => false,
    }
}

/// The value (text after the first `:`) of a header line.
pub open spec fn header_value(line: Seq<char>) -> Seq<char> {
    match split_once(line, ':') {
        Some((_, v)) => v,
        None => seq![],
    }
}

/// Number of leading non-white-space characters.
pub open spec fn word_len(s: Seq<char>) -> nat
    decreases s.len(),
{
    if s.len() > 0 && !is_space(s[0]) {
        1 + word_len(s.drop_first())
    } else {
        0
    }
}

/// The next item of `split_whitespace` and the text after it.
pub open spec fn next_word(s: Seq<char>) -> Option<(Seq<char>, Seq<char>)> {
    let t = trim_start(s);
    if t.len() == 0 {
        None
    } else {
        Some((t.take(word_len(t) as int), t.skip(word_len(t) as int)))
    }
}

/// The request line's method and path (target without its query), as
/// `parse_request_line` reads the first line of a head.
pub open spec fn request_line(head: Seq<char>) -> Option<(Seq<char>, Seq<char>)> {
    let ls = lines(head);
    if ls.len() == 0 {
        None
    } else {
        match next_word(ls[0]) {
            None => None,
            Some((method, rest)) => match next_word(rest) {
                None => None,
                Some((target, _)) => Some((method, before_first(target, '?'))),
            },
        }
    }
}

/// The status code of a response head: the second word of its first line, as a `u16`.
pub open spec fn status_code(head: Seq<char>) -> Option<nat> {
    let ls = lines(head);
    if ls.len() == 0 {
        None
    } else {
        match next_word(ls[0]) {
            None => None,
            Some((_, rest)) => match next_word(rest) {
                None => None,
                Some((code, _)) => parse_unsigned(code, 10, 65535),
            },
        }
    }
}

/// Some line of the head is `Transfer-Encoding` with `chunked` in its value.
pub open spec fn is_chunked_head(head: Seq<char>) -> bool {
    exists|k: int|
        0 <= k < lines(head).len() && header_named(#[trigger] lines(head)[k], "transfer-encoding"@)
            && contains(lower_all(header_value(lines(head)[k])), "chunked"@)
}

/// Some line of the head is `Expect: 100-continue`.
pub open spec fn expects_continue_head(head: Seq<char>) -> bool {
    exists|k: int|
        0 <= k < lines(head).len() && header_named(#[trigger] lines(head)[k], "expect"@)
            && eq_ignore_case(trim(header_value(lines(head)[k])), "100-continue"@)
}

/// The value of the first line (in order) named `name`.
pub open spec fn first_header(ls: Seq<Seq<char>>, name: Seq<char>) -> Option<Seq<char>>
    decreases ls.len(),
{
    if ls.len() == 0 {
        None
    } else if header_named(ls[0], name) {
        Some(header_value(ls[0]))
    } else {
        first_header(ls.drop_first(), name)
    }
}

/// The `Content-Length` of a head: the first such line's trimmed value as a `usize`.
pub open spec fn content_length_of(head: Seq<char>) -> Option<nat> {
    match first_header(lines(head), "content-length"@) {
        Some(v) => parse_unsigned(trim(v), 10, usize::MAX as nat),
        None => None,
    }
}

/// The pieces `strip_header` keeps: non-empty ones not named `name`.
pub open spec fn kept_pieces(ps: Seq<Seq<char>>, name: Seq<char>) -> Seq<Seq<char>>
    decreases ps.len(),
{
    if ps.len() == 0 {
        seq![]
    } else if ps[0].len() == 0 || header_named(ps[0], name) {
        kept_pieces(ps.drop_first(), name)
    } else {
        seq![ps[0]] + kept_pieces(ps.drop_first(), name)
    }
}

/// `Connection: close`.
pub open spec fn close_line() -> Seq<char> {
    "Connection: close"@
}

/// The pieces `force_connection_close` keeps: non-empty ones, no `Keep-Alive`,
/// the first `Connection` line made `Connection: close` and later ones dropped,
/// and `Connection: close` appended when there was none.
pub open spec fn close_pieces(ps: Seq<Seq<char>>, saw: bool) -> Seq<Seq<char>>
    decreases ps.len(),
{
    if ps.len() == 0 {
        if saw {
            seq![]
        } else {
            seq![close_line()]
        }
    } else {
        let p = ps[0];
        if p.len() == 0 || header_named(p, "keep-alive"@) {
            close_pieces(ps.drop_first(), saw)
        } else if header_named(p, "connection"@) {
            if saw {
                close_pieces(ps.drop_first(), true)
            } else {
                seq![close_line()] + close_pieces(ps.drop_first(), true)
            }
        } else {
            seq![p] + close_pieces(ps.drop_first(), saw)
        }
    }
}

/// `spans` locate `pieces` inside `v`: piece `m` is `v[spans[m].0 .. spans[m].1]`.
#[verifier::opaque]
pub open spec fn spans_of(v: Seq<char>, spans: Seq<(usize, usize)>, pieces: Seq<Seq<char>>) -> bool {
    &&& spans.len() == pieces.len()
    &&& forall|m: int|
        0 <= m < spans.len() ==> (#[trigger] spans[m]).0 <= spans[m].1 <= v.len() && v.subrange(
            spans[m].0 as int,
            spans[m].1 as int,
        ) == pieces[m]
}

/// One span of `spans_of`.
pub proof fn lemma_span(v: Seq<char>, spans: Seq<(usize, usize)>, pieces: Seq<Seq<char>>, m: int)
    requires
        spans_of(v, spans, pieces),
        0 <= m < spans.len(),
    ensures
        spans.len() == pieces.len(),
        spans[m].0 <= spans[m].1 <= v.len(),
        v.subrange(spans[m].0 as int, spans[m].1 as int) == pieces[m],
{
    reveal(spans_of);
}

/// The text that ends a head.
pub open spec fn head_terminator() -> Seq<char> {
    seq!['\r', '\n', '\r', '\n']
}

/// How a message body is delimited.
pub enum BodyFraming {
    /// Exactly this many bytes follow the head.
    Length(usize),
    /// `Transfer-Encoding: chunked`.
    Chunked,
    /// The body runs until the peer closes (responses only).
    UntilClose,
    /// No body.
    Empty,
}

/// What `forward_message` copies after the head.
pub open spec fn framing_of(head: Seq<char>, until_close: bool) -> BodyFraming {
    match content_length_of(head) {
        Some(n) => BodyFraming::Length(n as usize),
        None => if is_chunked_head(head) {
            BodyFraming::Chunked
        } else if until_close {
            BodyFraming::UntilClose
        } else {
            BodyFraming::Empty
        },
    }
}

/// The size that a chunk-size line announces: its trimmed text up to any `;`,
/// read as hexadecimal, or 0 when that does not parse.
pub open spec fn chunk_size_of(line: Seq<char>) -> nat {
    match parse_unsigned(before_first(trim(line), ';'), 16, usize::MAX as nat) {
        Some(n) => n,
        None => 0,
    }
}

/// What the forwarder does with the bytes of a head read so far.
pub enum HeadStep {
    /// The head is complete; it ends at this index.
    Complete(usize),
    /// More bytes are needed.
    ReadMore,
    /// The head grew past `MAX_HEAD_BYTES`.
    TooLarge,
}

// ---------------------------------------------------------------------------
// Lemmas
// ---------------------------------------------------------------------------

pub proof fn lemma_first_crlf(s: Seq<char>)
    ensures
        -1 <= first_crlf(s) < s.len() - 1 || first_crlf(s) == -1,
        first_crlf(s) >= 0 ==> crlf_at(s, first_crlf(s)),
        forall|j: int|
            0 <= j < s.len() - 1 && (first_crlf(s) < 0 || j < first_crlf(s)) ==> !#[trigger] crlf_at(s, j),
    decreases s.len(),
{
    if s.len() >= 2 && !(s[0] == '\r' && s[1] == '\n') {
        lemma_first_crlf(s.drop_first());
        assert forall|j: int|
            0 <= j < s.len() - 1 && (first_crlf(s) < 0 || j < first_crlf(s)) implies !#[trigger] crlf_at(s, j) by {
            if j > 0 {
                assert(crlf_at(s, j) == crlf_at(s.drop_first(), j - 1));
            }
        }
    }
}

proof fn lemma_first_crlf_at(s: Seq<char>, i: int)
    requires
        0 <= i <= s.len(),
        i < s.len() - 1 ==> crlf_at(s, i),
        i >= s.len() - 1 ==> i == s.len(),
        forall|j: int| 0 <= j < i && j < s.len() - 1 ==> !#[trigger] crlf_at(s, j),
    ensures
        first_crlf(s) == (if i < s.len() - 1 { i } else { -1 }),
{
    lemma_first_crlf(s);
}

/// `word_len` is the index of the first white space (or the length).
proof fn lemma_word_len(s: Seq<char>, n: int)
    requires
        0 <= n <= s.len(),
        n < s.len() ==> is_space(s[n]),
        forall|j: int| 0 <= j < n ==> !is_space(s[j]),
    ensures
        word_len(s) == n,
    decreases s.len(),
{
    if n > 0 {
        lemma_word_len(s.drop_first(), n - 1);
    }
}

// ---------------------------------------------------------------------------
// Executable
// ---------------------------------------------------------------------------

/// The index just past the first `\r\n\r\n` in `buf`.
pub fn find_header_end(buf: &[u8]) -> (r: Option<usize>)
    ensures
        match r {
            Some(e) => head_end(buf@) == Some(e as int),
            None => head_end(buf@) is None,
        },
{
    let mut i: usize = 0;
    while buf.len() >= 4 && i <= buf.len() - 4
        invariant
            0 <= i <= buf@.len(),
            buf@.len() == buf.len(),
            forall|j: int| 0 <= j < i ==> !blank_line_at(buf@, j),
        decreases buf@.len() - i,
    {
        if buf[i] == 13u8 && buf[i + 1] == 10u8 && buf[i + 2] == 13u8 && buf[i + 3] == 10u8 {
            assert(blank_line_at(buf@, i as int));
            let ghost c = choose|k: int| blank_line_at(buf@, k) && forall|j: int| 0 <= j < k ==> !blank_line_at(buf@, j);
            assert(c == i) by {
                if c < i {
                    assert(!blank_line_at(buf@, c));
                } else if c > i {
                    assert(!blank_line_at(buf@, i as int));
                }
            }
            return Some(i + 4);
        }
        i = i + 1;
    }
    assert forall|j: int| !blank_line_at(buf@, j) by {
        if 0 <= j && j + 4 <= buf@.len() {
            assert(j < i);
        }
    }
    None
}

/// What to do with the head bytes read so far. After a read, a head that has
/// grown past the limit is refused before its end is looked for, as the forwarder does.
pub fn next_head_step(buf: &[u8], after_read: bool) -> (r: HeadStep)
    ensures
        after_read && buf@.len() > MAX_HEAD_BYTES ==> r is TooLarge,
        !(after_read && buf@.len() > MAX_HEAD_BYTES) ==> match head_end(buf@) {
            Some(e) => r == HeadStep::Complete(e as usize),
            None => r is ReadMore,
        },
{
    if after_read && buf.len() > MAX_HEAD_BYTES {
        return HeadStep::TooLarge;
    }
    match find_header_end(buf) {
        Some(e) => HeadStep::Complete(e),
        None => HeadStep::ReadMore,
    }
}

/// The spans `(start, end)` of `lines(v)` inside `v`.
pub fn line_spans(v: &[char]) -> (r: Vec<(usize, usize)>)
    ensures
        spans_of(v@, r@, lines(v@)),
{
    let mut r: Vec<(usize, usize)> = Vec::new();
    let mut pos: usize = 0;
    assert(v@.skip(0) =~= v@);
    while pos < v.len()
        invariant
            0 <= pos <= v@.len(),
            lines(v@) == Seq::new(r@.len(), |k: int| v@.subrange(r@[k].0 as int, r@[k].1 as int))
                + lines(v@.skip(pos as int)),
            forall|k: int| 0 <= k < r@.len() ==> (#[trigger] r@[k]).0 <= r@[k].1 <= v@.len(),
        decreases v@.len() - pos,
    {
        let ghost old_r = r@;
        let ghost rest = v@.skip(pos as int);
        let found = find_char(v, pos, v.len(), '\n');
        assert(v@.subrange(pos as int, v@.len() as int) =~= rest);
        match found {
            None => {
                r.push((pos, v.len()));
                assert(lines(rest) == seq![rest]);
                assert(v@.skip(v@.len() as int) =~= Seq::<char>::empty());
                assert(Seq::new(r@.len(), |k: int| v@.subrange(r@[k].0 as int, r@[k].1 as int))
                    =~= Seq::new(old_r.len(), |k: int| v@.subrange(old_r[k].0 as int, old_r[k].1 as int))
                    + seq![rest]);
                pos = v.len();
            },
            Some(i) => {
                let end = pos + i;
                let ghost l = rest.take(i as int);
                assert(l =~= v@.subrange(pos as int, end as int));
                let line_end = if end > pos && v[end - 1] == '\r' {
                    end - 1
                } else {
                    end
                };
                assert(rest.skip(i + 1) =~= v@.skip(end + 1));
                assert(v@.subrange(pos as int, line_end as int) == (if l.len() > 0 && l.last() == '\r' {
                    l.drop_last()
                } else {
                    l
                }));
                r.push((pos, line_end));
                assert(Seq::new(r@.len(), |k: int| v@.subrange(r@[k].0 as int, r@[k].1 as int))
                    =~= Seq::new(old_r.len(), |k: int| v@.subrange(old_r[k].0 as int, old_r[k].1 as int))
                    + seq![v@.subrange(pos as int, line_end as int)]);
                pos = end + 1;
            },
        }
    }
    assert(v@.skip(pos as int) =~= Seq::<char>::empty());
    assert(lines(v@.skip(pos as int)) =~= Seq::<Seq<char>>::empty());
    proof {
        reveal(spans_of);
        assert(lines(v@) =~= Seq::new(r@.len(), |k: int| v@.subrange(r@[k].0 as int, r@[k].1 as int)));
    }
    r
}

/// The spans `(start, end)` of `split_crlf(v)` inside `v`.
pub fn crlf_spans(v: &[char]) -> (r: Vec<(usize, usize)>)
    ensures
        spans_of(v@, r@, split_crlf(v@)),
{
    let mut r: Vec<(usize, usize)> = Vec::new();
    let mut pos: usize = 0;
    let mut i: usize = 0;
    assert(v@.skip(0) =~= v@);
    assert(Seq::new(0, |k: int| v@.subrange(r@[k].0 as int, r@[k].1 as int)) + split_crlf(v@)
        =~= split_crlf(v@));
    loop
        invariant
            0 <= pos <= i <= v@.len(),
            split_crlf(v@) == Seq::new(r@.len(), |k: int| v@.subrange(r@[k].0 as int, r@[k].1 as int))
                + split_crlf(v@.skip(pos as int)),
            forall|k: int| 0 <= k < r@.len() ==> (#[trigger] r@[k]).0 <= r@[k].1 <= v@.len(),
            forall|j: int| pos <= j < i && j + 1 < v@.len() ==> !#[trigger] crlf_at(v@, j),
        decreases v@.len() - i,
    {
        let ghost old_r = r@;
        let ghost rest = v@.skip(pos as int);
        if v.len() == 0 || i >= v.len() - 1 {
            proof {
                assert forall|j: int| 0 <= j < rest.len() && j < rest.len() - 1 implies !#[trigger] crlf_at(rest, j) by {
                    assert(crlf_at(rest, j) == crlf_at(v@, pos + j));
                }
                lemma_first_crlf_at(rest, rest.len() as int);
            }
            r.push((pos, v.len()));
            assert(rest =~= v@.subrange(pos as int, v@.len() as int));
            assert(Seq::new(r@.len(), |k: int| v@.subrange(r@[k].0 as int, r@[k].1 as int))
                =~= Seq::new(old_r.len(), |k: int| v@.subrange(old_r[k].0 as int, old_r[k].1 as int))
                + seq![rest]);
            proof {
                assert(v@.skip(v@.len() as int) =~= Seq::<char>::empty());
                reveal(spans_of);
                assert(split_crlf(v@) =~= Seq::new(r@.len(), |k: int| v@.subrange(r@[k].0 as int, r@[k].1 as int)));
            }
            return r;
        }
        if v[i] == '\r' && v[i + 1] == '\n' {
            proof {
                assert forall|j: int| 0 <= j < i - pos && j < rest.len() - 1 implies !#[trigger] crlf_at(rest, j) by {
                    assert(crlf_at(rest, j) == crlf_at(v@, pos + j));
                }
                lemma_first_crlf_at(rest, i - pos);
                assert(rest.take(i - pos) =~= v@.subrange(pos as int, i as int));
                assert(rest.skip(i - pos + 2) =~= v@.skip(i + 2));
            }
            r.push((pos, i));
            assert(Seq::new(r@.len(), |k: int| v@.subrange(r@[k].0 as int, r@[k].1 as int))
                =~= Seq::new(old_r.len(), |k: int| v@.subrange(old_r[k].0 as int, old_r[k].1 as int))
                + seq![v@.subrange(pos as int, i as int)]);
            pos = i + 2;
            i = i + 2;
        } else {
            i = i + 1;
        }
    }
}

/// Whether the line `v[lo..hi]` is a header named `name`, and where its value starts.
fn header_line_named(v: &[char], lo: usize, hi: usize, name: &[char]) -> (r: (bool, usize))
    requires
        lo <= hi <= v@.len(),
    ensures
        r.0 == header_named(v@.subrange(lo as int, hi as int), name@),
        split_once(v@.subrange(lo as int, hi as int), ':') is Some ==> lo < r.1 <= hi && v@.subrange(
            r.1 as int,
            hi as int,
        ) == header_value(v@.subrange(lo as int, hi as int)) && v@.subrange(lo as int, r.1 - 1)
            == (split_once(v@.subrange(lo as int, hi as int), ':')->0).0,
        split_once(v@.subrange(lo as int, hi as int), ':') is None ==> r.1 == hi,
{
    let ghost s = v@.subrange(lo as int, hi as int);
    match find_char(v, lo, hi, ':') {
        None => (false, hi),
        Some(i) => {
            assert(s.take(i as int) =~= v@.subrange(lo as int, lo + i));
            assert(s.skip(i + 1) =~= v@.subrange(lo + i + 1, hi as int));
            let b = range_eq_ignore_case(v, lo, lo + i, name);
            (b, lo + i + 1)
        },
    }
}

/// Whether some header line is `Transfer-Encoding` with `chunked` in its value.
pub fn is_chunked(headers: &str) -> (b: bool)
    ensures
        b == is_chunked_head(headers@),
{
    let v = chars_of(headers);
    let spans = line_spans(&v);
    proof {
        reveal(spans_of);
    }
    let name = chars_of("transfer-encoding");
    let word = chars_of("chunked");
    let mut k: usize = 0;
    while k < spans.len()
        invariant
            v@ == headers@,
            name@ == "transfer-encoding"@,
            word@ == "chunked"@,
            spans_of(v@, spans@, lines(v@)),
            spans@.len() == lines(v@).len(),
            0 <= k <= spans@.len(),
            forall|m: int|
                0 <= m < k ==> !(header_named(#[trigger] lines(v@)[m], "transfer-encoding"@)
                    && contains(lower_all(header_value(lines(v@)[m])), "chunked"@)),
        decreases spans@.len() - k,
    {
        proof {
            lemma_span(v@, spans@, lines(v@), k as int);
        }
        let (lo, hi) = spans[k];
        assert(v@.subrange(lo as int, hi as int) == lines(v@)[k as int]);
        let (named, vstart) = header_line_named(&v, lo, hi, &name);
        if named {
            if range_lower_contains(&v, vstart, hi, &word) {
                return true;
            }
        }
        k = k + 1;
    }
    false
}

/// Whether some header line is `Expect: 100-continue`.
pub fn expects_continue(headers: &str) -> (b: bool)
    ensures
        b == expects_continue_head(headers@),
{
    let v = chars_of(headers);
    let spans = line_spans(&v);
    proof {
        reveal(spans_of);
    }
    let name = chars_of("expect");
    let word = chars_of("100-continue");
    let mut k: usize = 0;
    while k < spans.len()
        invariant
            v@ == headers@,
            name@ == "expect"@,
            word@ == "100-continue"@,
            spans_of(v@, spans@, lines(v@)),
            spans@.len() == lines(v@).len(),
            0 <= k <= spans@.len(),
            forall|m: int|
                0 <= m < k ==> !(header_named(#[trigger] lines(v@)[m], "expect"@) && eq_ignore_case(
                    trim(header_value(lines(v@)[m])),
                    "100-continue"@,
                )),
        decreases spans@.len() - k,
    {
        proof {
            lemma_span(v@, spans@, lines(v@), k as int);
        }
        let (lo, hi) = spans[k];
        assert(v@.subrange(lo as int, hi as int) == lines(v@)[k as int]);
        let (named, vstart) = header_line_named(&v, lo, hi, &name);
        if named {
            let (a, b) = trim_bounds(&v, vstart, hi);
            if range_eq_ignore_case(&v, a, b, &word) {
                return true;
            }
        }
        k = k + 1;
    }
    false
}

/// The `Content-Length` of a head, if its first such line holds a `usize`.
pub fn content_length(headers: &str) -> (r: Option<usize>)
    ensures
        match r {
            Some(n) => content_length_of(headers@) == Some(n as nat),
            None => content_length_of(headers@) is None,
        },
{
    let v = chars_of(headers);
    let spans = line_spans(&v);
    proof {
        reveal(spans_of);
    }
    let name = chars_of("content-length");
    let mut k: usize = 0;
    assert(lines(v@).skip(0) =~= lines(v@));
    while k < spans.len()
        invariant
            v@ == headers@,
            name@ == "content-length"@,
            spans_of(v@, spans@, lines(v@)),
            spans@.len() == lines(v@).len(),
            0 <= k <= spans@.len(),
            first_header(lines(v@), "content-length"@) == first_header(
                lines(v@).skip(k as int),
                "content-length"@,
            ),
        decreases spans@.len() - k,
    {
        proof {
            lemma_span(v@, spans@, lines(v@), k as int);
        }
        let (lo, hi) = spans[k];
        let ghost ls = lines(v@).skip(k as int);
        assert(ls[0] == lines(v@)[k as int]);
        assert(ls.drop_first() =~= lines(v@).skip(k + 1));
        assert(v@.subrange(lo as int, hi as int) == lines(v@)[k as int]);
        let (named, vstart) = header_line_named(&v, lo, hi, &name);
        if named {
            let (a, b) = trim_bounds(&v, vstart, hi);
            let n = parse_unsigned_range(&v, a, b, 10, usize::MAX as u64);
            return match n {
                Some(n) => Some(n as usize),
                None => None,
            };
        }
        k = k + 1;
    }
    assert(lines(v@).skip(k as int) =~= Seq::<Seq<char>>::empty());
    None
}

/// The bounds of the first word of `v[lo..hi]` and where the text after it starts.
fn next_word_bounds(v: &[char], lo: usize, hi: usize) -> (r: Option<(usize, usize)>)
    requires
        lo <= hi <= v@.len(),
    ensures
        match r {
            Some((a, b)) => lo <= a < b <= hi && next_word(v@.subrange(lo as int, hi as int)) == Some(
                (v@.subrange(a as int, b as int), v@.subrange(b as int, hi as int)),
            ),
            None => next_word(v@.subrange(lo as int, hi as int)) is None,
        },
{
    let ghost s = v@.subrange(lo as int, hi as int);
    let (a, _) = trim_bounds(v, lo, hi);
    // `trim_bounds` gives `trim`; the start of `trim_start` is the same index.
    let mut a2: usize = lo;
    assert(s.skip(0) =~= s);
    while a2 < hi && char_is_space(v[a2])
        invariant
            lo <= a2 <= hi <= v@.len(),
            s == v@.subrange(lo as int, hi as int),
            lead_space(s) == (a2 - lo) + lead_space(s.skip(a2 - lo)),
        decreases hi - a2,
    {
        proof {
            assert(s.skip(a2 - lo).drop_first() =~= s.skip(a2 - lo + 1));
        }
        a2 = a2 + 1;
    }
    proof {
        if a2 == lo {
            assert(s.skip(0) =~= s);
        }
        let t0 = s.skip(a2 - lo);
        if a2 < hi {
            assert(t0[0] == v@[a2 as int]);
        }
        assert(lead_space(t0) == 0);
        assert(trim_start(s) =~= v@.subrange(a2 as int, hi as int));
    }
    if a2 == hi {
        return None;
    }
    let mut b: usize = a2;
    while b < hi && !char_is_space(v[b])
        invariant
            lo <= a2 <= b <= hi <= v@.len(),
            forall|j: int| a2 <= j < b ==> !is_space(v@[j]),
        decreases hi - b,
    {
        b = b + 1;
    }
    proof {
        let t = v@.subrange(a2 as int, hi as int);
        lemma_word_len(t, b - a2);
        assert(t.take(b - a2) =~= v@.subrange(a2 as int, b as int));
        assert(t.skip(b - a2) =~= v@.subrange(b as int, hi as int));
    }
    Some((a2, b))
}

/// The method and the path (target up to `?`) of the request line, if it has both.
pub fn parse_request_line(headers: &str) -> (r: Option<(String, String)>)
    ensures
        match r {
            Some((m, p)) => request_line(headers@) == Some((m@, p@)),
            None => request_line(headers@) is None,
        },
{
    let v = chars_of(headers);
    let spans = line_spans(&v);
    proof {
        reveal(spans_of);
    }
    proof {
        reveal(spans_of);
    }
    if spans.len() == 0 {
        return None;
    }
    proof {
        lemma_span(v@, spans@, lines(v@), 0);
    }
    let (lo, hi) = spans[0];
    assert(v@.subrange(lo as int, hi as int) == lines(v@)[0]);
    let w1 = next_word_bounds(&v, lo, hi);
    match w1 {
        None => None,
        Some((a, b)) => {
            let w2 = next_word_bounds(&v, b, hi);
            match w2 {
                None => None,
                Some((c, d)) => {
                    let method = string_from_range(&v, a, b);
                    let q = find_char(&v, c, d, '?');
                    let path_end = match q {
                        Some(i) => c + i,
                        None => d,
                    };
                    proof {
                        let t = v@.subrange(c as int, d as int);
                        if q is Some {
                            assert(t.take(path_end - c) =~= v@.subrange(c as int, path_end as int));
                        }
                    }
                    let path = string_from_range(&v, c, path_end);
                    Some((method, path))
                },
            }
        },
    }
}

/// The status code of a response head.
pub fn parse_status(headers: &str) -> (r: Option<u16>)
    ensures
        match r {
            Some(n) => status_code(headers@) == Some(n as nat),
            None => status_code(headers@) is None,
        },
{
    let v = chars_of(headers);
    let spans = line_spans(&v);
    proof {
        reveal(spans_of);
    }
    proof {
        reveal(spans_of);
    }
    if spans.len() == 0 {
        return None;
    }
    proof {
        lemma_span(v@, spans@, lines(v@), 0);
    }
    let (lo, hi) = spans[0];
    assert(v@.subrange(lo as int, hi as int) == lines(v@)[0]);
    match next_word_bounds(&v, lo, hi) {
        None => None,
        Some((_, b)) => match next_word_bounds(&v, b, hi) {
            None => None,
            Some((c, d)) => match parse_unsigned_range(&v, c, d, 10, 65535) {
                Some(n) => Some(n as u16),
                None => None,
            },
        },
    }
}

/// `head` without blank pieces and without lines named `drop_name`,
/// re-joined with `\r\n` and ended with a blank line.
#[verifier::rlimit(60)]
pub fn strip_header(headers: &str, drop_name: &str) -> (out: String)
    ensures
        out@ == join_crlf(kept_pieces(split_crlf(headers@), drop_name@)) + head_terminator(),
{
    let v = chars_of(headers);
    let name = chars_of(drop_name);
    let spans = crlf_spans(&v);
    proof {
        reveal(spans_of);
    }
    let mut out = String::new();
    let mut first = true;
    let mut k: usize = 0;
    let ghost ps = split_crlf(v@);
    assert(ps.skip(0) =~= ps);
    while k < spans.len()
        invariant
            v@ == headers@,
            name@ == drop_name@,
            ps == split_crlf(v@),
            spans_of(v@, spans@, ps),
            spans@.len() == ps.len(),
            0 <= k <= spans@.len(),
            first ==> out@.len() == 0,
            join_crlf(kept_pieces(ps, name@)) == (if first {
                join_crlf(kept_pieces(ps.skip(k as int), name@))
            } else {
                out@ + join_tail(kept_pieces(ps.skip(k as int), name@))
            }),
        decreases spans@.len() - k,
    {
        proof {
            lemma_span(v@, spans@, ps, k as int);
        }
        let (lo, hi) = spans[k];
        let ghost rest = ps.skip(k as int);
        assert(rest[0] == ps[k as int]);
        assert(rest.drop_first() =~= ps.skip(k + 1));
        assert(v@.subrange(lo as int, hi as int) == ps[k as int]);
        let (named, _) = header_line_named(&v, lo, hi, &name);
        if lo == hi || named {
            assert(kept_pieces(rest, name@) == kept_pieces(rest.drop_first(), name@));
        } else {
            let ghost later = kept_pieces(rest.drop_first(), name@);
            assert(kept_pieces(rest, name@) == seq![ps[k as int]] + later);
            proof {
                lemma_join_cons(ps[k as int], later);
            }
            if !first {
                push_char(&mut out, '\r');
                push_char(&mut out, '\n');
            }
            let ghost before = out@;
            push_range(&mut out, &v, lo, hi);
            proof {
                if first {
                    assert(before.len() == 0);
                    assert(out@ =~= ps[k as int]);
                } else {
                    assert(out@ + join_tail(later) =~= (before + ps[k as int]) + join_tail(later));
                }
            }
            first = false;
        }
        k = k + 1;
    }
    assert(ps.skip(k as int) =~= Seq::<Seq<char>>::empty());
    let ghost body = out@;
    assert(join_crlf(kept_pieces(ps, name@)) == body) by {
        if first {
            assert(out@.len() == 0);
            assert(body =~= Seq::<char>::empty());
        } else {
            assert(body + Seq::<char>::empty() =~= body);
        }
    }
    push_str(&mut out, "\r\n\r\n");
    proof {
        reveal_strlit("\r\n\r\n");
        assert("\r\n\r\n"@ =~= head_terminator());
    }
    out
}

/// `\r\n` + the joined pieces, or nothing when there are none.
pub open spec fn join_tail(ps: Seq<Seq<char>>) -> Seq<char> {
    if ps.len() == 0 {
        seq![]
    } else {
        seq!['\r', '\n'] + join_crlf(ps)
    }
}

proof fn lemma_join_cons(p: Seq<char>, ps: Seq<Seq<char>>)
    ensures
        join_crlf(seq![p] + ps) == p + join_tail(ps),
{
    let all = seq![p] + ps;
    assert(all[0] == p);
    assert(all.drop_first() =~= ps);
    if ps.len() == 0 {
        assert(p + Seq::<char>::empty() =~= p);
    } else {
        assert(p + seq!['\r', '\n'] + join_crlf(ps) =~= p + (seq!['\r', '\n'] + join_crlf(ps)));
    }
}

/// `head` re-joined with exactly one `Connection: close` and no `Keep-Alive`.
#[verifier::rlimit(60)]
pub fn force_connection_close(headers: &str) -> (out: String)
    ensures
        out@ == join_crlf(close_pieces(split_crlf(headers@), false)) + head_terminator(),
{
    let v = chars_of(headers);
    let conn = chars_of("connection");
    let keep = chars_of("keep-alive");
    let spans = crlf_spans(&v);
    proof {
        reveal(spans_of);
    }
    let mut out = String::new();
    let mut first = true;
    let mut saw = false;
    let mut k: usize = 0;
    let ghost ps = split_crlf(v@);
    assert(ps.skip(0) =~= ps);
    proof {
        reveal_strlit("Connection: close");
    }
    while k < spans.len()
        invariant
            v@ == headers@,
            conn@ == "connection"@,
            keep@ == "keep-alive"@,
            ps == split_crlf(v@),
            spans_of(v@, spans@, ps),
            spans@.len() == ps.len(),
            0 <= k <= spans@.len(),
            first ==> out@.len() == 0,
            join_crlf(close_pieces(ps, false)) == (if first {
                join_crlf(close_pieces(ps.skip(k as int), saw))
            } else {
                out@ + join_tail(close_pieces(ps.skip(k as int), saw))
            }),
        decreases spans@.len() - k,
    {
        proof {
            lemma_span(v@, spans@, ps, k as int);
        }
        let (lo, hi) = spans[k];
        let ghost rest = ps.skip(k as int);
        assert(rest[0] == ps[k as int]);
        assert(rest.drop_first() =~= ps.skip(k + 1));
        assert(v@.subrange(lo as int, hi as int) == ps[k as int]);
        let (is_keep, _) = header_line_named(&v, lo, hi, &keep);
        let (is_conn, _) = header_line_named(&v, lo, hi, &conn);
        if lo == hi || is_keep {
        } else if is_conn {
            if !saw {
                let ghost later = close_pieces(rest.drop_first(), true);
                proof {
                    lemma_join_cons(close_line(), later);
                }
                if !first {
                    push_char(&mut out, '\r');
                    push_char(&mut out, '\n');
                }
                let ghost before = out@;
                push_str(&mut out, "Connection: close");
                proof {
                    if first {
                        assert(out@ =~= close_line());
                    } else {
                        assert(out@ + join_tail(later) =~= (before + close_line()) + join_tail(later));
                    }
                }
                first = false;
                saw = true;
            }
        } else {
            let ghost later = close_pieces(rest.drop_first(), saw);
            proof {
                lemma_join_cons(ps[k as int], later);
            }
            if !first {
                push_char(&mut out, '\r');
                push_char(&mut out, '\n');
            }
            let ghost before = out@;
            push_range(&mut out, &v, lo, hi);
            proof {
                if first {
                    assert(out@ =~= ps[k as int]);
                } else {
                    assert(out@ + join_tail(later) =~= (before + ps[k as int]) + join_tail(later));
                }
            }
            first = false;
        }
        k = k + 1;
    }
    assert(ps.skip(k as int) =~= Seq::<Seq<char>>::empty());
    if !saw {
        proof {
            lemma_join_cons(close_line(), Seq::<Seq<char>>::empty());
            assert(seq![close_line()] + Seq::<Seq<char>>::empty() =~= seq![close_line()]);
        }
        let ghost before0 = out@;
        if !first {
            push_char(&mut out, '\r');
            push_char(&mut out, '\n');
        }
        push_str(&mut out, "Connection: close");
        proof {
            if first {
                assert(out@ =~= close_line());
            } else {
                assert(out@ =~= before0 + (seq!['\r', '\n'] + close_line()));
            }
            assert(out@ + Seq::<char>::empty() =~= out@);
        }
    } else {
        proof {
            if first {
                assert(out@ =~= Seq::<char>::empty());
            } else {
                assert(out@ + Seq::<char>::empty() =~= out@);
            }
        }
    }
    push_str(&mut out, "\r\n\r\n");
    proof {
        reveal_strlit("\r\n\r\n");
        assert("\r\n\r\n"@ =~= head_terminator());
    }
    out
}

/// Number of pieces named `name`.
pub open spec fn count_named(ps: Seq<Seq<char>>, name: Seq<char>) -> nat
    decreases ps.len(),
{
    if ps.len() == 0 {
        0
    } else {
        (if header_named(ps[0], name) {
            1nat
        } else {
            0nat
        }) + count_named(ps.drop_first(), name)
    }
}

/// `Connection: close` is a `Connection` line, not a `Keep-Alive` one.
proof fn lemma_close_line_named()
    ensures
        close_line().len() > 0,
        header_named(close_line(), "connection"@),
        !header_named(close_line(), "keep-alive"@),
{
    reveal_strlit("Connection: close");
    reveal_strlit("connection");
    reveal_strlit("keep-alive");
    let l = close_line();
    crate::text::lemma_first_index_at(l, ':', 10);
    assert(l.take(10) =~= seq!['C', 'o', 'n', 'n', 'e', 'c', 't', 'i', 'o', 'n']);
    assert(lower_all(l.take(10)) =~= lower_all("connection"@));
    assert(lower_all(l.take(10))[0] != lower_all("keep-alive"@)[0]);
}

/// Law: the head that `strip_header` writes keeps no blank piece and no line
/// named `name`.
pub proof fn lemma_strip_header_drops(ps: Seq<Seq<char>>, name: Seq<char>)
    ensures
        forall|i: int|
            0 <= i < kept_pieces(ps, name).len() ==> (#[trigger] kept_pieces(ps, name)[i]).len() > 0
                && !header_named(kept_pieces(ps, name)[i], name),
    decreases ps.len(),
{
    if ps.len() > 0 {
        lemma_strip_header_drops(ps.drop_first(), name);
        let rest = kept_pieces(ps.drop_first(), name);
        if !(ps[0].len() == 0 || header_named(ps[0], name)) {
            assert forall|i: int| 0 <= i < kept_pieces(ps, name).len() implies (#[trigger] kept_pieces(
                ps,
                name,
            )[i]).len() > 0 && !header_named(kept_pieces(ps, name)[i], name) by {
                if i > 0 {
                    assert(kept_pieces(ps, name)[i] == rest[i - 1]);
                }
            }
        }
    }
}

/// The pieces of a head other than blank, `Keep-Alive` and `Connection`
/// ones, in their order.
pub open spec fn plain_pieces(ps: Seq<Seq<char>>) -> Seq<Seq<char>>
    decreases ps.len(),
{
    if ps.len() == 0 {
        seq![]
    } else if ps[0].len() == 0 || header_named(ps[0], "keep-alive"@) || header_named(ps[0], "connection"@) {
        plain_pieces(ps.drop_first())
    } else {
        seq![ps[0]] + plain_pieces(ps.drop_first())
    }
}

/// Rewriting the `Connection` lines keeps every other non-blank line, other
/// than `Keep-Alive`, in its order.
proof fn lemma_close_keeps_plain(ps: Seq<Seq<char>>, saw: bool)
    ensures
        plain_pieces(close_pieces(ps, saw)) == plain_pieces(ps),
    decreases ps.len(),
{
    lemma_close_line_named();
    if ps.len() == 0 {
        if !saw {
            let out = seq![close_line()];
            assert(out.drop_first() =~= Seq::<Seq<char>>::empty());
            assert(plain_pieces(out) == plain_pieces(out.drop_first()));
        }
    } else {
        let p = ps[0];
        if p.len() == 0 || header_named(p, "keep-alive"@) {
            lemma_close_keeps_plain(ps.drop_first(), saw);
        } else if header_named(p, "connection"@) {
            lemma_close_keeps_plain(ps.drop_first(), true);
            if !saw {
                let rest = close_pieces(ps.drop_first(), true);
                let out = seq![close_line()] + rest;
                assert(out.drop_first() =~= rest);
                assert(plain_pieces(out) == plain_pieces(rest));
            }
        } else {
            lemma_close_keeps_plain(ps.drop_first(), saw);
            let rest = close_pieces(ps.drop_first(), saw);
            let out = seq![p] + rest;
            assert(out.drop_first() =~= rest);
            assert(plain_pieces(out) == seq![p] + plain_pieces(rest));
        }
    }
}

/// Law: the head that `force_connection_close` writes holds exactly one
/// `Connection` line, which is `Connection: close`, no `Keep-Alive` line and
/// no blank piece.
pub proof fn lemma_close_pieces(ps: Seq<Seq<char>>, saw: bool)
    ensures
        count_named(close_pieces(ps, saw), "connection"@) == (if saw { 0nat } else { 1nat }),
        forall|i: int|
            0 <= i < close_pieces(ps, saw).len() ==> {
                &&& (#[trigger] close_pieces(ps, saw)[i]).len() > 0
                &&& !header_named(close_pieces(ps, saw)[i], "keep-alive"@)
                &&& header_named(close_pieces(ps, saw)[i], "connection"@) ==> close_pieces(ps, saw)[i]
                    == close_line()
            },
    decreases ps.len(),
{
    lemma_close_line_named();
    let out = close_pieces(ps, saw);
    if ps.len() == 0 {
        if !saw {
            assert(out == seq![close_line()]);
            assert(out.drop_first() =~= Seq::<Seq<char>>::empty());
            assert(count_named(out.drop_first(), "connection"@) == 0);
            assert(count_named(out, "connection"@) == 1);
        } else {
            assert(count_named(out, "connection"@) == 0);
        }
    } else {
        let p = ps[0];
        if p.len() == 0 || header_named(p, "keep-alive"@) {
            lemma_close_pieces(ps.drop_first(), saw);
        } else if header_named(p, "connection"@) {
            lemma_close_pieces(ps.drop_first(), true);
            if !saw {
                let rest = close_pieces(ps.drop_first(), true);
                assert(out == seq![close_line()] + rest);
                assert(out.drop_first() =~= rest);
                assert(count_named(out, "connection"@) == 1);
                assert forall|i: int|
                    0 <= i < out.len() implies {
                    &&& (#[trigger] out[i]).len() > 0
                    &&& !header_named(out[i], "keep-alive"@)
                    &&& header_named(out[i], "connection"@) ==> out[i] == close_line()
                } by {
                    if i > 0 {
                        assert(out[i] == rest[i - 1]);
                    }
                }
            }
        } else {
            lemma_close_pieces(ps.drop_first(), saw);
            let rest = close_pieces(ps.drop_first(), saw);
            assert(out == seq![p] + rest);
            assert(out.drop_first() =~= rest);
            assert(count_named(out, "connection"@) == count_named(rest, "connection"@));
            assert forall|i: int|
                0 <= i < out.len() implies {
                &&& (#[trigger] out[i]).len() > 0
                &&& !header_named(out[i], "keep-alive"@)
                &&& header_named(out[i], "connection"@) ==> out[i] == close_line()
            } by {
                if i > 0 {
                    assert(out[i] == rest[i - 1]);
                }
            }
        }
    }
}

/// How the body after `head` is delimited.
pub fn body_framing(headers: &str, until_close: bool) -> (r: BodyFraming)
    ensures
        r == framing_of(headers@, until_close),
{
    match content_length(headers) {
        Some(n) => BodyFraming::Length(n),
        None => if is_chunked(headers) {
            BodyFraming::Chunked
        } else if until_close {
            BodyFraming::UntilClose
        } else {
            BodyFraming::Empty
        },
    }
}

/// The chunk size announced by a chunk-size line (0 when it does not parse).
pub fn chunk_size(line: &str) -> (n: usize)
    ensures
        n as nat == chunk_size_of(line@),
{
    let v = chars_of(line);
    let (a, b) = trim_bounds(&v, 0, v.len());
    assert(v@.subrange(0, v@.len() as int) =~= v@);
    let end = match find_char(&v, a, b, ';') {
        Some(i) => a + i,
        None => b,
    };
    proof {
        let t = v@.subrange(a as int, b as int);
        assert(t.take(end - a) =~= v@.subrange(a as int, end as int));
        assert(before_first(t, ';') == v@.subrange(a as int, end as int));
    }
    match parse_unsigned_range(&v, a, end, 16, usize::MAX as u64) {
        Some(n) => n as usize,
        None => 0,
    }
}

/// Longest chunk-size line the forwarder reads.
pub const MAX_CHUNK_LINE_BYTES: usize = 4096;

/// Reading a chunk-size line byte by byte: done at `\r\n`, refused past the limit.
pub enum LineStep {
    /// The line ends with `\r\n`.
    Done,
    /// Read another byte.
    More,
    /// The line grew past `MAX_CHUNK_LINE_BYTES` without ending.
    TooLong,
}

/// What to do after reading another byte of a chunk-size line.
pub fn chunk_line_step(line: &[u8]) -> (r: LineStep)
    ensures
        line@.len() >= 2 && line@[line@.len() - 2] == 13u8 && line@[line@.len() - 1] == 10u8
            ==> r is Done,
        !(line@.len() >= 2 && line@[line@.len() - 2] == 13u8 && line@[line@.len() - 1] == 10u8)
            && line@.len() > MAX_CHUNK_LINE_BYTES ==> r is TooLong,
        !(line@.len() >= 2 && line@[line@.len() - 2] == 13u8 && line@[line@.len() - 1] == 10u8)
            && line@.len() <= MAX_CHUNK_LINE_BYTES ==> r is More,
{
    let n = line.len();
    if n >= 2 && line[n - 2] == 13u8 && line[n - 1] == 10u8 {
        LineStep::Done
    } else if n > MAX_CHUNK_LINE_BYTES {
        LineStep::TooLong
    } else {
        LineStep::More
    }
}

/// A 1xx status, which the forwarder skips when it waits for the final response.
pub fn is_interim_status(status: u16) -> (b: bool)
    ensures
        b == (100 <= status < 200),
{
    100 <= status && status < 200
}

/// The method and path recorded for a request: those of its request line, or
/// `UNKNOWN` and `/` when it has none.
pub fn request_target(headers: &str) -> (r: (String, String))
    ensures
        match request_line(headers@) {
            Some((m, p)) => r.0@ == m && r.1@ == p,
            None => r.0@ == "UNKNOWN"@ && r.1@ == "/"@,
        },
{
    match parse_request_line(headers) {
        Some(mp) => mp,
        None => ("UNKNOWN".to_owned(), "/".to_owned()),
    }
}


/// A chunk-size line read: the size of the chunk that follows, and whether
/// it is the last chunk (size 0), after which the copy stops.
pub fn chunk_plan(line: &str) -> (r: (usize, bool))
    ensures
        r.0 as nat == chunk_size_of(line@),
        r.1 == (r.0 == 0),
{
    let n = chunk_size(line);
    (n, n == 0)
}

/// What the forwarder does with a Caller's request head.
#[derive(Debug)]
pub struct RequestPlan {
    /// Answer `100 Continue` before forwarding.
    pub continue_first: bool,
    /// The head sent on to the sidecar: without any `Expect` line.
    pub outbound: String,
    /// The method recorded in the Request Summary.
    pub method: String,
    /// The path recorded in the Request Summary.
    pub path: String,
}

/// The plan for a Caller's request head: `100 Continue` first when it asks
/// for it; the head forwarded without `Expect`; the method and path (without
/// query) recorded, or `UNKNOWN` and `/` when the request line is unreadable.
pub fn request_plan(head: &str) -> (p: RequestPlan)
    ensures
        p.continue_first == expects_continue_head(head@),
        p.outbound@ == join_crlf(kept_pieces(split_crlf(head@), "expect"@)) + head_terminator(),
        match request_line(head@) {
            Some((m, t)) => p.method@ == m && p.path@ == t,
            None => p.method@ == "UNKNOWN"@ && p.path@ == "/"@,
        },
{
    let (method, path) = request_target(head);
    RequestPlan {
        continue_first: expects_continue(head),
        outbound: strip_header(head, "expect"),
        method,
        path,
    }
}


/// Law: the head that `force_connection_close` gives back is made of pieces
/// joined by `\r\n` that keep every non-blank line of the original head
/// other than `Keep-Alive` and `Connection` lines (such as `Transfer-Encoding`
/// or `Content-Length`), unchanged and in their order, and that hold exactly
/// one `Connection` line, `Connection: close`, and no `Keep-Alive` line.
pub proof fn lemma_force_close_keeps_other_lines(headers: &str, out: String)
    requires
        call_ensures(force_connection_close, (headers,), out),
    ensures
        exists|ps: Seq<Seq<char>>|
            #![trigger plain_pieces(ps)]
            {
                &&& out@ == join_crlf(ps) + head_terminator()
                &&& plain_pieces(ps) == plain_pieces(split_crlf(headers@))
                &&& count_named(ps, "connection"@) == 1
                &&& forall|i: int|
                    0 <= i < ps.len() ==> {
                        &&& (#[trigger] ps[i]).len() > 0
                        &&& !header_named(ps[i], "keep-alive"@)
                        &&& header_named(ps[i], "connection"@) ==> ps[i] == close_line()
                    }
            },
{
    let ps = close_pieces(split_crlf(headers@), false);
    lemma_close_keeps_plain(split_crlf(headers@), false);
    lemma_close_pieces(split_crlf(headers@), false);
    assert(plain_pieces(ps) == plain_pieces(split_crlf(headers@)));
}

} // verus!
