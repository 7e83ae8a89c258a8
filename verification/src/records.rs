//! Request Summaries: one record per finished Caller request (time, method,
//! status, remote address, path), at most `MAX_REQUEST_SUMMARIES` of them,
//! newest last, with the Bridge Token and Cursor API Key masked out.

use vstd::prelude::*;
use crate::redact::{redact, redact_owned, star_free, views, lemma_redact_hides_secrets};
use crate::text::{contains, same_text};

verus! {

/// Most Request Summaries kept.
pub const MAX_REQUEST_SUMMARIES: usize = 200;

/// The local record of one finished Caller request. It holds no message body.
#[derive(Debug)]
pub struct RequestSummary {
    pub time: String,
    pub method: String,
    pub status: u16,
    pub remote_addr: String,
    pub path: String,
}

impl RequestSummary {
    /// A field-for-field copy.
    pub fn duplicate(&self) -> (r: RequestSummary)
        ensures
            r == *self,
    {
        RequestSummary {
            time: self.time.clone(),
            method: self.method.clone(),
            status: self.status,
            remote_addr: self.remote_addr.clone(),
            path: self.path.clone(),
        }
    }
}

/// `summary` with every secret masked in each text field.
pub open spec fn redacted(s: RequestSummary, secrets: Seq<Seq<char>>, r: RequestSummary) -> bool {
    &&& r.time@ == redact(s.time@, secrets)
    &&& r.method@ == redact(s.method@, secrets)
    &&& r.status == s.status
    &&& r.remote_addr@ == redact(s.remote_addr@, secrets)
    &&& r.path@ == redact(s.path@, secrets)
}

/// The text fields of `r` hold no occurrence of `q`.
pub open spec fn summary_free_of(r: RequestSummary, q: Seq<char>) -> bool {
    &&& !contains(r.time@, q)
    &&& !contains(r.method@, q)
    &&& !contains(r.remote_addr@, q)
    &&& !contains(r.path@, q)
}

/// `/health` and `/healthz`: probes of the Console itself, never recorded.
pub open spec fn is_health(path: Seq<char>) -> bool {
    path == "/health"@ || path == "/healthz"@
}

/// The last `n` items of `s` (all of them when there are fewer).
pub open spec fn newest(s: Seq<RequestSummary>, n: nat) -> Seq<RequestSummary> {
    if s.len() > n {
        s.skip(s.len() - n)
    } else {
        s
    }
}

/// Whether `path` is a health probe.
pub fn is_health_path(path: &str) -> (b: bool)
    ensures
        b == is_health(path@),
{
    same_text(path, "/health") || same_text(path, "/healthz")
}

/// The Request Summaries of a running Bridge, with the secrets that the
/// forwarder masks out of each one.
pub struct RecordStore {
    summaries: Vec<RequestSummary>,
    secrets: Vec<String>,
}

impl RecordStore {
    /// At most `MAX_REQUEST_SUMMARIES` are held.
    #[verifier::type_invariant]
    spec fn bounded(self) -> bool {
        self.summaries@.len() <= MAX_REQUEST_SUMMARIES
    }

    /// The summaries held, oldest first.
    pub closed spec fn held(self) -> Seq<RequestSummary> {
        self.summaries@
    }

    /// The secrets masked out of new summaries.
    pub closed spec fn masked(self) -> Seq<Seq<char>> {
        views(self.secrets@)
    }

    /// A store with the summaries read back from App Data: the newest
    /// `MAX_REQUEST_SUMMARIES` of them, and no secrets yet.
    pub fn open(loaded: Vec<RequestSummary>) -> (r: RecordStore)
        ensures
            r.held() == newest(loaded@, MAX_REQUEST_SUMMARIES as nat),
            r.masked() == Seq::<Seq<char>>::empty(),
    {
        let mut summaries = loaded;
        if summaries.len() > MAX_REQUEST_SUMMARIES {
            let extra = summaries.len() - MAX_REQUEST_SUMMARIES;
            summaries = summaries.split_off(extra);
        }
        let r = RecordStore { summaries, secrets: Vec::new() };
        assert(views(r.secrets@) =~= Seq::<Seq<char>>::empty());
        r
    }

    /// Copies of the summaries held, oldest first.
    pub fn summaries(&self) -> (r: Vec<RequestSummary>)
        ensures
            r@ == self.held(),
    {
        let mut r: Vec<RequestSummary> = Vec::new();
        let mut i: usize = 0;
        while i < self.summaries.len()
            invariant
                0 <= i <= self.summaries@.len(),
                r@ == self.summaries@.take(i as int),
            decreases self.summaries@.len() - i,
        {
            r.push(self.summaries[i].duplicate());
            assert(self.summaries@.take(i + 1) == self.summaries@.take(i as int).push(
                self.summaries@[i as int],
            ));
            i = i + 1;
        }
        assert(self.summaries@.take(self.summaries@.len() as int) == self.summaries@);
        r
    }

    /// Number of summaries held.
    pub fn len(&self) -> (n: usize)
        ensures
            n == self.held().len(),
            n <= MAX_REQUEST_SUMMARIES,
    {
        proof {
            use_type_invariant(self);
        }
        self.summaries.len()
    }

    /// Replaces the secrets with the non-empty ones of `secrets`, in order.
    pub fn set_secrets(&mut self, secrets: Vec<String>)
        ensures
            final(self).held() == old(self).held(),
            final(self).masked() == views(secrets@).filter(|s: Seq<char>| s.len() > 0),
    {
        proof {
            use_type_invariant(&*self);
        }
        let mut kept: Vec<String> = Vec::new();
        let mut i: usize = 0;
        let ghost all = views(secrets@);
        let ghost keep = |s: Seq<char>| s.len() > 0;
        assert(all.take(0).filter(keep) =~= Seq::<Seq<char>>::empty());
        while i < secrets.len()
            invariant
                0 <= i <= secrets@.len(),
                all == views(secrets@),
                keep == (|s: Seq<char>| s.len() > 0),
                views(kept@) == all.take(i as int).filter(keep),
            decreases secrets@.len() - i,
        {
            proof {
                reveal_with_fuel(Seq::filter, 1);
                assert(all.take(i + 1).drop_last() =~= all.take(i as int));
            }
            if !secrets[i].as_str().is_empty() {
                kept.push(secrets[i].clone());
                assert(views(kept@) =~= all.take(i as int).filter(keep).push(all[i as int]));
            } else {
                assert(views(kept@) =~= all.take(i as int).filter(keep));
            }
            i = i + 1;
        }
        assert(all.take(secrets@.len() as int) =~= all);
        self.secrets = kept;
    }

    /// Records a finished request: a health probe is ignored; any other
    /// request is kept with every secret masked in its text fields, as the
    /// newest summary, and the oldest is dropped past `MAX_REQUEST_SUMMARIES`.
    pub fn record(&mut self, summary: RequestSummary)
        ensures
            final(self).masked() == old(self).masked(),
            is_health(summary.path@) ==> final(self).held() == old(self).held(),
            !is_health(summary.path@) ==> {
                &&& final(self).held() == newest(
                    old(self).held().push(final(self).held().last()),
                    MAX_REQUEST_SUMMARIES as nat,
                )
                &&& redacted(summary, old(self).masked(), final(self).held().last())
            },
    {
        proof {
            use_type_invariant(&*self);
        }
        if is_health_path(summary.path.as_str()) {
            return;
        }
        let clean = RequestSummary {
            time: redact_owned(summary.time.as_str(), &self.secrets),
            method: redact_owned(summary.method.as_str(), &self.secrets),
            status: summary.status,
            remote_addr: redact_owned(summary.remote_addr.as_str(), &self.secrets),
            path: redact_owned(summary.path.as_str(), &self.secrets),
        };
        let ghost before = self.summaries@;
        let mut items: Vec<RequestSummary> = Vec::new();
        std::mem::swap(&mut items, &mut self.summaries);
        if items.len() >= MAX_REQUEST_SUMMARIES {
            items.remove(0);
            assert(items@ =~= before.skip(1));
        }
        items.push(clean);
        self.summaries = items;
        assert(self.summaries@ =~= newest(before.push(self.summaries@.last()), MAX_REQUEST_SUMMARIES as nat));
    }

    /// Drops every summary held.
    pub fn clear(&mut self)
        ensures
            final(self).held() == Seq::<RequestSummary>::empty(),
            final(self).masked() == old(self).masked(),
    {
        self.summaries = Vec::new();
    }
}

/// Law: a recorded summary holds none of the store's secrets that are not
/// empty and have no `*` in them.
pub proof fn lemma_recorded_summary_hides_secrets(
    summary: RequestSummary,
    secrets: Seq<Seq<char>>,
    kept: RequestSummary,
    i: int,
)
    requires
        redacted(summary, secrets, kept),
        0 <= i < secrets.len(),
        secrets[i].len() > 0,
        star_free(secrets[i]),
    ensures
        summary_free_of(kept, secrets[i]),
{
    lemma_redact_hides_secrets(summary.time@, secrets, i);
    lemma_redact_hides_secrets(summary.method@, secrets, i);
    lemma_redact_hides_secrets(summary.remote_addr@, secrets, i);
    lemma_redact_hides_secrets(summary.path@, secrets, i);
}


/// Law: keeping the newest `n` after each addition keeps the newest `n` of
/// everything added, so a store that records one summary after another holds
/// the newest `MAX_REQUEST_SUMMARIES` of all that it recorded.
pub proof fn lemma_newest_of_pushed(s: Seq<RequestSummary>, x: RequestSummary, n: nat)
    requires
        n > 0,
    ensures
        newest(newest(s, n).push(x), n) == newest(s.push(x), n),
{
    if s.len() > n {
        assert(newest(s, n).push(x).skip(1) =~= s.push(x).skip(s.push(x).len() - n));
    } else if s.len() == n {
        assert(newest(s, n).push(x) =~= s.push(x));
    }
}

} // verus!
