//! Masking of secrets (Bridge Token, Cursor API Key) in text that is logged or kept.
//!
//! `replace_all` is `str::replace`: leftmost, non-overlapping replacement.
//! The laws at the end show that a masked text holds none of the secrets.

use vstd::prelude::*;
use crate::text::{chars_of, push_char, push_range, push_str, occurs_at, contains, occurs_at_exec};

verus! {

/// The mask that stands in for a secret.
pub open spec fn mask() -> Seq<char> {
    seq!['*', '*', '*']
}

/// `s.replace(p, r)` for a non-empty pattern `p`.
pub open spec fn replace_all(s: Seq<char>, p: Seq<char>, r: Seq<char>) -> Seq<char>
    decreases s.len(),
{
    if p.len() == 0 || s.len() < p.len() {
        s
    } else if s.take(p.len() as int) == p {
        r + replace_all(s.skip(p.len() as int), p, r)
    } else {
        seq![s[0]] + replace_all(s.drop_first(), p, r)
    }
}

/// Masks each non-empty secret in turn, first to last.
pub open spec fn redact(s: Seq<char>, secrets: Seq<Seq<char>>) -> Seq<char>
    decreases secrets.len(),
{
    if secrets.len() == 0 {
        s
    } else {
        let first = secrets[0];
        let next = if first.len() > 0 {
            replace_all(s, first, mask())
        } else {
            s
        };
        redact(next, secrets.drop_first())
    }
}

/// No character of `q` is a mask character.
pub open spec fn star_free(q: Seq<char>) -> bool {
    forall|i: int| 0 <= i < q.len() ==> q[i] != '*'
}

/// The views of a list of strings.
pub open spec fn views(v: Seq<String>) -> Seq<Seq<char>> {
    v.map_values(|s: String| s@)
}

/// The views of a list of string slices.
pub open spec fn str_views(v: Seq<&str>) -> Seq<Seq<char>> {
    v.map_values(|s: &str| s@)
}

// ---------------------------------------------------------------------------
// Lemmas about replace_all
// ---------------------------------------------------------------------------

/// One step of `replace_all` on the suffix of `s` from `i`.
proof fn lemma_replace_step(s: Seq<char>, p: Seq<char>, r: Seq<char>, i: int)
    requires
        p.len() > 0,
        0 <= i <= s.len(),
    ensures
        s.len() - i < p.len() ==> replace_all(s.skip(i), p, r) == s.skip(i),
        s.len() - i >= p.len() && occurs_at(s, p, i) ==> replace_all(s.skip(i), p, r) == r
            + replace_all(s.skip(i + p.len()), p, r),
        s.len() - i >= p.len() && !occurs_at(s, p, i) ==> replace_all(s.skip(i), p, r) == seq![
            s[i],
        ] + replace_all(s.skip(i + 1), p, r),
{
    let t = s.skip(i);
    if t.len() >= p.len() {
        assert(t.take(p.len() as int) =~= s.subrange(i, i + p.len()));
        assert(t.skip(p.len() as int) =~= s.skip(i + p.len()));
        assert(t.drop_first() =~= s.skip(i + 1));
    }
}

/// A star-free prefix of `replace_all(t, p, mask())` is a prefix of `t`.
proof fn lemma_star_free_prefix(t: Seq<char>, p: Seq<char>, m: int)
    requires
        p.len() > 0,
        0 <= m <= replace_all(t, p, mask()).len(),
        star_free(replace_all(t, p, mask()).take(m)),
    ensures
        m <= t.len(),
        replace_all(t, p, mask()).take(m) == t.take(m),
    decreases t.len(),
{
    let res = replace_all(t, p, mask());
    if t.len() < p.len() {
    } else if t.take(p.len() as int) == p {
        if m > 0 {
            assert(res.take(m)[0] == '*');
        }
        assert(res.take(m) =~= t.take(m));
    } else {
        let rest = replace_all(t.drop_first(), p, mask());
        assert(res == seq![t[0]] + rest);
        if m > 0 {
            assert forall|i: int| 0 <= i < m - 1 implies #[trigger] rest.take(m - 1)[i] != '*' by {
                assert(rest.take(m - 1)[i] == res.take(m)[i + 1]);
            }
            lemma_star_free_prefix(t.drop_first(), p, m - 1);
            assert(res.take(m) =~= seq![t[0]] + rest.take(m - 1));
            assert(t.take(m) =~= seq![t[0]] + t.drop_first().take(m - 1));
        } else {
            assert(res.take(m) =~= t.take(m));
        }
    }
}

/// Masking `p` brings in no occurrence of a star-free `q` that was not there before.
pub proof fn lemma_replace_no_new(s: Seq<char>, p: Seq<char>, q: Seq<char>)
    requires
        p.len() > 0,
        q.len() > 0,
        star_free(q),
        contains(replace_all(s, p, mask()), q),
    ensures
        contains(s, q),
    decreases s.len(),
{
    let res = replace_all(s, p, mask());
    let k = choose|k: int| occurs_at(res, q, k);
    if s.len() < p.len() {
        assert(occurs_at(s, q, k));
    } else if s.take(p.len() as int) == p {
        let rest = replace_all(s.skip(p.len() as int), p, mask());
        assert(res == mask() + rest);
        if k < 3 {
            assert(q[0] == res.subrange(k, k + q.len())[0]);
            assert(q[0] == '*');
        }
        assert(rest.subrange(k - 3, k - 3 + q.len()) =~= res.subrange(k, k + q.len()));
        assert(occurs_at(rest, q, k - 3));
        lemma_replace_no_new(s.skip(p.len() as int), p, q);
        let j = choose|j: int| occurs_at(s.skip(p.len() as int), q, j);
        assert(s.subrange(j + p.len(), j + p.len() + q.len()) =~= s.skip(p.len() as int).subrange(
            j,
            j + q.len(),
        ));
        assert(occurs_at(s, q, j + p.len()));
    } else {
        let rest = replace_all(s.drop_first(), p, mask());
        assert(res == seq![s[0]] + rest);
        if k >= 1 {
            assert(rest.subrange(k - 1, k - 1 + q.len()) =~= res.subrange(k, k + q.len()));
            assert(occurs_at(rest, q, k - 1));
            lemma_replace_no_new(s.drop_first(), p, q);
            let j = choose|j: int| occurs_at(s.drop_first(), q, j);
            assert(s.subrange(j + 1, j + 1 + q.len()) =~= s.drop_first().subrange(j, j + q.len()));
            assert(occurs_at(s, q, j + 1));
        } else {
            let m = q.len() - 1;
            assert forall|i: int| 0 <= i < m implies #[trigger] rest.take(m)[i] != '*' by {
                assert(rest.take(m)[i] == q[i + 1]);
            }
            lemma_star_free_prefix(s.drop_first(), p, m);
            assert(s.subrange(0, q.len() as int) =~= seq![s[0]] + s.drop_first().take(m));
            assert(res.subrange(0, q.len() as int) =~= seq![s[0]] + rest.take(m));
            assert(occurs_at(s, q, 0));
        }
    }
}

/// After masking a star-free `p`, no occurrence of `p` is left.
pub proof fn lemma_replace_removes(s: Seq<char>, p: Seq<char>)
    requires
        p.len() > 0,
        star_free(p),
    ensures
        !contains(replace_all(s, p, mask()), p),
    decreases s.len(),
{
    let res = replace_all(s, p, mask());
    if contains(res, p) {
        let k = choose|k: int| occurs_at(res, p, k);
        if s.len() < p.len() {
            assert(res == s);
        } else if s.take(p.len() as int) == p {
            let rest = replace_all(s.skip(p.len() as int), p, mask());
            assert(res == mask() + rest);
            if k < 3 {
                assert(p[0] == res.subrange(k, k + p.len())[0]);
            }
            assert(rest.subrange(k - 3, k - 3 + p.len()) =~= res.subrange(k, k + p.len()));
            assert(occurs_at(rest, p, k - 3));
            lemma_replace_removes(s.skip(p.len() as int), p);
        } else {
            let rest = replace_all(s.drop_first(), p, mask());
            assert(res == seq![s[0]] + rest);
            if k >= 1 {
                assert(rest.subrange(k - 1, k - 1 + p.len()) =~= res.subrange(k, k + p.len()));
                assert(occurs_at(rest, p, k - 1));
                lemma_replace_removes(s.drop_first(), p);
            } else {
                let m = p.len() - 1;
                assert forall|i: int| 0 <= i < m implies #[trigger] rest.take(m)[i] != '*' by {
                    assert(rest.take(m)[i] == p[i + 1]);
                }
                lemma_star_free_prefix(s.drop_first(), p, m);
                assert(s.take(p.len() as int) =~= seq![s[0]] + s.drop_first().take(m));
                assert(res.subrange(0, p.len() as int) =~= seq![s[0]] + rest.take(m));
            }
        }
    }
}

/// A text that holds no `q` keeps holding none after masking.
proof fn lemma_redact_keeps_absent(s: Seq<char>, secrets: Seq<Seq<char>>, q: Seq<char>)
    requires
        q.len() > 0,
        star_free(q),
        !contains(s, q),
    ensures
        !contains(redact(s, secrets), q),
    decreases secrets.len(),
{
    if secrets.len() > 0 {
        let first = secrets[0];
        let next = if first.len() > 0 {
            replace_all(s, first, mask())
        } else {
            s
        };
        if first.len() > 0 && contains(next, q) {
            lemma_replace_no_new(s, first, q);
        }
        lemma_redact_keeps_absent(next, secrets.drop_first(), q);
    }
}

/// Law: a redacted text holds none of the non-empty, star-free secrets.
///
/// For every text and every list of secrets, each secret that is not empty
/// and has no `*` in it occurs nowhere in the text that `redact_secrets` gives back.
pub proof fn lemma_redact_hides_secrets(s: Seq<char>, secrets: Seq<Seq<char>>, i: int)
    requires
        0 <= i < secrets.len(),
        secrets[i].len() > 0,
        star_free(secrets[i]),
    ensures
        !contains(redact(s, secrets), secrets[i]),
    decreases secrets.len(),
{
    let first = secrets[0];
    let next = if first.len() > 0 {
        replace_all(s, first, mask())
    } else {
        s
    };
    if i == 0 {
        lemma_replace_removes(s, first);
        lemma_redact_keeps_absent(next, secrets.drop_first(), first);
    } else {
        assert(secrets.drop_first()[i - 1] == secrets[i]);
        lemma_redact_hides_secrets(next, secrets.drop_first(), i - 1);
    }
}

/// Replacing a pattern that does not occur leaves the text as it is.
pub proof fn lemma_replace_absent_identity(s: Seq<char>, p: Seq<char>, r: Seq<char>)
    requires
        p.len() > 0,
        !contains(s, p),
    ensures
        replace_all(s, p, r) == s,
    decreases s.len(),
{
    if s.len() >= p.len() {
        if s.take(p.len() as int) == p {
            assert(occurs_at(s, p, 0));
        }
        if contains(s.drop_first(), p) {
            let j = choose|j: int| occurs_at(s.drop_first(), p, j);
            assert(s.subrange(j + 1, j + 1 + p.len()) =~= s.drop_first().subrange(j, j + p.len()));
            assert(occurs_at(s, p, j + 1));
        }
        lemma_replace_absent_identity(s.drop_first(), p, r);
        assert(s =~= seq![s[0]] + s.drop_first());
    }
}

/// Law: a text in which none of the secrets occurs comes back from
/// `redact_secrets` unchanged.
pub proof fn lemma_redact_absent_identity(s: Seq<char>, secrets: Seq<Seq<char>>)
    requires
        forall|i: int| 0 <= i < secrets.len() && secrets[i].len() > 0 ==> !contains(s, #[trigger] secrets[i]),
    ensures
        redact(s, secrets) == s,
    decreases secrets.len(),
{
    if secrets.len() > 0 {
        let first = secrets[0];
        if first.len() > 0 {
            lemma_replace_absent_identity(s, first, mask());
        }
        assert forall|i: int| 0 <= i < secrets.drop_first().len() && secrets.drop_first()[i].len() > 0
            implies !contains(s, #[trigger] secrets.drop_first()[i]) by {
            assert(secrets.drop_first()[i] == secrets[i + 1]);
        }
        lemma_redact_absent_identity(s, secrets.drop_first());
    }
}

// ---------------------------------------------------------------------------
// Executable
// ---------------------------------------------------------------------------

/// `s.replace(p, r)` for a non-empty pattern.
pub fn replace_str(s: &str, p: &str, r: &str) -> (out: String)
    requires
        p@.len() > 0,
    ensures
        out@ == replace_all(s@, p@, r@),
{
    let v = chars_of(s);
    let pv = chars_of(p);
    let mut out = String::new();
    let mut i: usize = 0;
    assert(v@.skip(0) =~= v@);
    assert(out@ + replace_all(v@, p@, r@) =~= replace_all(v@, p@, r@));
    while i < v.len()
        invariant
            v@ == s@,
            pv@ == p@,
            pv@.len() > 0,
            0 <= i <= v@.len(),
            replace_all(s@, p@, r@) == out@ + replace_all(v@.skip(i as int), p@, r@),
        decreases v@.len() - i,
    {
        proof {
            lemma_replace_step(v@, pv@, r@, i as int);
        }
        if v.len() - i < pv.len() {
            push_range(&mut out, &v, i, v.len());
            proof {
                assert(v@.skip(i as int) =~= v@.subrange(i as int, v@.len() as int));
                assert(v@.skip(v@.len() as int) =~= Seq::<char>::empty());
                assert(replace_all(v@.skip(v@.len() as int), p@, r@) =~= Seq::<char>::empty());
                assert(out@ + Seq::<char>::empty() =~= out@);
            }
            i = v.len();
        } else if occurs_at_exec(&v, &pv, i) {
            let ghost before = out@;
            push_str(&mut out, r);
            assert(before + (r@ + replace_all(v@.skip(i + pv@.len()), p@, r@)) =~= out@
                + replace_all(v@.skip(i + pv@.len()), p@, r@));
            i = i + pv.len();
        } else {
            let ghost before = out@;
            push_char(&mut out, v[i]);
            assert(before + (seq![v@[i as int]] + replace_all(v@.skip(i + 1), p@, r@)) =~= out@
                + replace_all(v@.skip(i + 1), p@, r@));
            i = i + 1;
        }
    }
    assert(v@.skip(v@.len() as int) =~= Seq::<char>::empty());
    assert(out@ + Seq::<char>::empty() =~= out@);
    out
}

/// Masks every non-empty secret in `text` with `***`, one secret after another.
pub fn redact_secrets(text: &str, secrets: &[&str]) -> (out: String)
    ensures
        out@ == redact(text@, str_views(secrets@)),
{
    let mut out = text.to_owned();
    let mut i: usize = 0;
    assert(str_views(secrets@).skip(0) =~= str_views(secrets@));
    while i < secrets.len()
        invariant
            0 <= i <= secrets@.len(),
            redact(text@, str_views(secrets@)) == redact(out@, str_views(secrets@).skip(i as int)),
        decreases secrets@.len() - i,
    {
        let ghost rest = str_views(secrets@).skip(i as int);
        assert(rest[0] == secrets@[i as int]@);
        assert(rest.drop_first() =~= str_views(secrets@).skip(i + 1));
        let secret: &str = secrets[i];
        if !secret.is_empty() {
            out = replace_str(out.as_str(), secret, "***");
            proof {
                reveal_strlit("***");
                assert("***"@ =~= mask());
            }
        }
        i = i + 1;
    }
    assert(str_views(secrets@).skip(secrets@.len() as int) =~= Seq::<Seq<char>>::empty());
    out
}

/// Masks every non-empty secret of an owned list in `text`.
pub fn redact_owned(text: &str, secrets: &Vec<String>) -> (out: String)
    ensures
        out@ == redact(text@, views(secrets@)),
{
    let mut out = text.to_owned();
    let mut i: usize = 0;
    assert(views(secrets@).skip(0) =~= views(secrets@));
    while i < secrets.len()
        invariant
            0 <= i <= secrets@.len(),
            redact(text@, views(secrets@)) == redact(out@, views(secrets@).skip(i as int)),
        decreases secrets@.len() - i,
    {
        let ghost rest = views(secrets@).skip(i as int);
        assert(rest[0] == secrets@[i as int]@);
        assert(rest.drop_first() =~= views(secrets@).skip(i + 1));
        let secret: &str = secrets[i].as_str();
        if !secret.is_empty() {
            out = replace_str(out.as_str(), secret, "***");
            proof {
                reveal_strlit("***");
                assert("***"@ =~= mask());
            }
        }
        i = i + 1;
    }
    assert(views(secrets@).skip(secrets@.len() as int) =~= Seq::<Seq<char>>::empty());
    out
}

} // verus!
