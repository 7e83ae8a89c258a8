//! Release check: decides only whether to prompt a download of a newer
//! Release. It never touches the running exe or the unpacked folder.

use vstd::prelude::*;
use crate::text::{
    chars_of, ends_with, occurs_at_exec, parse_unsigned, parse_unsigned_range, trim, trim_bounds,
};

verus! {

/// Where the Console looks for published Releases.
pub const RELEASES_API_URL: &'static str = "https://api.github.com/repos/helloworldx55/cursor-api-proxy/releases";

/// A downloadable file of a Release.
#[derive(Debug)]
pub struct GithubAsset {
    pub name: String,
    pub browser_download_url: String,
}

/// One row of the Releases listing.
#[derive(Debug)]
pub struct GithubRelease {
    pub tag_name: String,
    pub draft: bool,
    pub prerelease: bool,
    pub html_url: String,
    pub assets: Vec<GithubAsset>,
}

/// What the Console shows when a newer Release is published.
#[derive(Debug)]
pub struct UpdatePrompt {
    pub latest_version: String,
    pub download_url: String,
}

/// The source of the Releases listing (GitHub, or a fixed list in tests).
pub trait ReleaseSource {
    fn load_releases(&self) -> Result<Vec<GithubRelease>, String>;
}

/// The project's Releases on GitHub, fetched from `url` by the Console.
#[derive(Debug)]
pub struct GitHubReleaseSource {
    pub url: String,
}

impl Default for GitHubReleaseSource {
    fn default() -> (s: Self)
        ensures
            s.url@ == RELEASES_API_URL@,
    {
        GitHubReleaseSource { url: RELEASES_API_URL.to_owned() }
    }
}

/// A version triple.
pub type Version = (u64, u64, u64);

/// `a < b` in lexicographic order.
pub open spec fn version_lt(a: Version, b: Version) -> bool {
    a.0 < b.0 || (a.0 == b.0 && (a.1 < b.1 || (a.1 == b.1 && a.2 < b.2)))
}

/// `s` without its leading `v`/`V` characters (`trim_start_matches(['v', 'V'])`).
pub open spec fn strip_v(s: Seq<char>) -> Seq<char>
    decreases s.len(),
{
    if s.len() > 0 && (s[0] == 'v' || s[0] == 'V') {
        strip_v(s.drop_first())
    } else {
        s
    }
}

/// A separator between version parts.
pub open spec fn is_version_sep(c: char) -> bool {
    c == '.' || c == '-' || c == '+'
}

/// Index of the first separator, or -1.
pub open spec fn first_sep(s: Seq<char>) -> int
    decreases s.len(),
{
    if s.len() == 0 {
        -1
    } else if is_version_sep(s[0]) {
        0
    } else {
        let r = first_sep(s.drop_first());
        if r < 0 {
            -1
        } else {
            r + 1
        }
    }
}

/// The next part of a version and the text after its separator, if any.
pub open spec fn next_part(s: Seq<char>) -> (Seq<char>, Option<Seq<char>>) {
    let i = first_sep(s);
    if i < 0 {
        (s, None)
    } else {
        (s.take(i), Some(s.skip(i + 1)))
    }
}

/// A version part as a `u64`.
pub open spec fn part_value(s: Seq<char>) -> Option<nat> {
    parse_unsigned(s, 10, u64::MAX as nat)
}

/// `parse_version`: trim, drop leading `v`/`V`, split at `.`, `-`, `+`, and
/// read the first three parts as `u64`.
pub open spec fn version_of(raw: Seq<char>) -> Option<Version> {
    let t = strip_v(trim(raw));
    let (a, r1) = next_part(t);
    match (part_value(a), r1) {
        (Some(x), Some(r1)) => {
            let (b, r2) = next_part(r1);
            match (part_value(b), r2) {
                (Some(y), Some(r2)) => {
                    let (c, _) = next_part(r2);
                    match part_value(c) {
                        Some(z) => Some((x as u64, y as u64, z as u64)),
                        None => None,
                    }
                },
                _ => None,
            }
        },
        _ => None,
    }
}

/// A published Release with a readable version.
pub open spec fn eligible(r: GithubRelease) -> bool {
    !r.draft && !r.prerelease && version_of(r.tag_name@) is Some
}

/// The first eligible Release of highest version among the first `n`.
pub open spec fn newest_upto(rs: Seq<GithubRelease>, n: int) -> Option<int>
    decreases n,
{
    if n <= 0 {
        None
    } else {
        let b = newest_upto(rs, n - 1);
        let r = rs[n - 1];
        if eligible(r) && (b is None || version_lt(
            version_of(rs[b->0].tag_name@)->0,
            version_of(r.tag_name@)->0,
        )) {
            Some(n - 1)
        } else {
            b
        }
    }
}

/// The download link of a Release: its first `.zip` asset, else its page.
pub open spec fn download_url_of(r: GithubRelease) -> Seq<char> {
    let zips = r.assets@.filter(|a: GithubAsset| ends_with(a.name@, ".zip"@));
    if zips.len() > 0 {
        zips[0].browser_download_url@
    } else {
        r.html_url@
    }
}

/// The error for an unreadable running version.
pub open spec fn bad_current_message(current: Seq<char>) -> Seq<char> {
    "无法解析当前版本 "@ + current
}

/// What `update_prompt` answers for the running version `current`.
pub open spec fn prompt_outcome(current: Seq<char>, rs: Seq<GithubRelease>) -> Result<
    Option<(Seq<char>, Seq<char>)>,
    Seq<char>,
> {
    match newest_upto(rs, rs.len() as int) {
        None => Ok(None),
        Some(i) => match version_of(current) {
            None => Err(bad_current_message(current)),
            Some(cur) => if version_lt(cur, version_of(rs[i].tag_name@)->0) {
                Ok(Some((rs[i].tag_name@, download_url_of(rs[i]))))
            } else {
                Ok(None)
            },
        },
    }
}

/// `r` is what `update_prompt` answers for the running version `current`
/// and the listing `rs`.
pub open spec fn prompt_matches(current: Seq<char>, rs: Seq<GithubRelease>, r: Result<Option<UpdatePrompt>, String>) -> bool {
    match (r, prompt_outcome(current, rs)) {
        (Ok(None), Ok(None)) => true,
        (Ok(Some(p)), Ok(Some((v, u)))) => p.latest_version@ == v && p.download_url@ == u,
        (Err(e), Err(m)) => e@ == m,
        _ => false,
    }
}

// ---------------------------------------------------------------------------
// Lemmas
// ---------------------------------------------------------------------------

proof fn lemma_first_sep_at(s: Seq<char>, i: int)
    requires
        0 <= i <= s.len(),
        i < s.len() ==> is_version_sep(s[i]),
        forall|j: int| 0 <= j < i ==> !is_version_sep(#[trigger] s[j]),
    ensures
        first_sep(s) == (if i < s.len() { i } else { -1 }),
    decreases s.len(),
{
    if s.len() > 0 && i > 0 {
        assert forall|j: int| 0 <= j < i - 1 implies !is_version_sep(#[trigger] s.drop_first()[j]) by {
            assert(s.drop_first()[j] == s[j + 1]);
        }
        lemma_first_sep_at(s.drop_first(), i - 1);
    }
}

/// Law: the Release chosen is eligible, no eligible Release has a higher
/// version, and no earlier eligible Release has the same version.
pub proof fn lemma_newest_is_maximal(rs: Seq<GithubRelease>, n: int)
    requires
        0 <= n <= rs.len(),
    ensures
        newest_upto(rs, n) is None <==> (forall|j: int| 0 <= j < n ==> !eligible(#[trigger] rs[j])),
        newest_upto(rs, n) matches Some(i) ==> {
            &&& 0 <= i < n
            &&& eligible(rs[i])
            &&& forall|j: int|
                0 <= j < n && eligible(#[trigger] rs[j]) ==> !version_lt(
                    version_of(rs[i].tag_name@)->0,
                    version_of(rs[j].tag_name@)->0,
                )
            &&& forall|j: int|
                0 <= j < i && eligible(#[trigger] rs[j]) ==> version_lt(
                    version_of(rs[j].tag_name@)->0,
                    version_of(rs[i].tag_name@)->0,
                )
        },
    decreases n,
{
    if n > 0 {
        lemma_newest_is_maximal(rs, n - 1);
    }
}

// ---------------------------------------------------------------------------
// Executable
// ---------------------------------------------------------------------------

/// Reads a version triple such as `v1.2.3`, `1.2.3-beta` or `V0.9.0+build`.
pub fn parse_version(raw: &str) -> (r: Option<Version>)
    ensures
        r == version_of(raw@),
{
    let v = chars_of(raw);
    let (a0, b) = trim_bounds(&v, 0, v.len());
    assert(v@.subrange(0, v@.len() as int) =~= v@);
    let ghost t0 = trim(raw@);
    let mut a = a0;
    while a < b && (v[a] == 'v' || v[a] == 'V')
        invariant
            a0 <= a <= b <= v@.len(),
            strip_v(t0) == strip_v(v@.subrange(a as int, b as int)),
        decreases b - a,
    {
        assert(v@.subrange(a as int, b as int).drop_first() =~= v@.subrange(a + 1, b as int));
        a = a + 1;
    }
    let ghost t = v@.subrange(a as int, b as int);
    assert(strip_v(t0) == t);
    let (e1, more1) = part_bounds(&v, a, b);
    let x = match parse_unsigned_range(&v, a, e1, 10, u64::MAX) {
        Some(x) => x,
        None => return None,
    };
    if !more1 {
        return None;
    }
    let n1 = e1 + 1;
    let (e2, more2) = part_bounds(&v, n1, b);
    let y = match parse_unsigned_range(&v, n1, e2, 10, u64::MAX) {
        Some(y) => y,
        None => return None,
    };
    if !more2 {
        return None;
    }
    let n2 = e2 + 1;
    let (e3, _) = part_bounds(&v, n2, b);
    let z = match parse_unsigned_range(&v, n2, e3, 10, u64::MAX) {
        Some(z) => z,
        None => return None,
    };
    Some((x, y, z))
}

/// The part of `v[lo..hi]` before its first separator: its end, and whether
/// a separator follows it (the rest then starts just past it).
fn part_bounds(v: &[char], lo: usize, hi: usize) -> (r: (usize, bool))
    requires
        lo <= hi <= v@.len(),
    ensures
        lo <= r.0 <= hi,
        next_part(v@.subrange(lo as int, hi as int)).0 == v@.subrange(lo as int, r.0 as int),
        r.1 ==> r.0 < hi && next_part(v@.subrange(lo as int, hi as int)).1 == Some(
            v@.subrange(r.0 + 1, hi as int),
        ),
        !r.1 ==> next_part(v@.subrange(lo as int, hi as int)).1 is None,
{
    let ghost s = v@.subrange(lo as int, hi as int);
    let mut i = lo;
    while i < hi && !(v[i] == '.' || v[i] == '-' || v[i] == '+')
        invariant
            lo <= i <= hi <= v@.len(),
            s == v@.subrange(lo as int, hi as int),
            forall|j: int| 0 <= j < i - lo ==> !is_version_sep(#[trigger] s[j]),
        decreases hi - i,
    {
        i = i + 1;
    }
    proof {
        lemma_first_sep_at(s, i - lo);
        assert(s.take(i - lo) =~= v@.subrange(lo as int, i as int));
        if i < hi {
            assert(s.skip(i - lo + 1) =~= v@.subrange(i + 1, hi as int));
        } else {
            assert(s.take(i - lo) =~= s);
        }
    }
    (i, i < hi)
}

/// The download link of a Release: its first `.zip` asset, else its page.
pub fn download_url(release: &GithubRelease) -> (r: String)
    ensures
        r@ == download_url_of(*release),
{
    let zip = chars_of(".zip");
    proof {
        reveal_strlit(".zip");
    }
    let ghost pred = |a: GithubAsset| ends_with(a.name@, ".zip"@);
    let mut i: usize = 0;
    while i < release.assets.len()
        invariant
            zip@ == ".zip"@,
            pred == (|a: GithubAsset| ends_with(a.name@, ".zip"@)),
            0 <= i <= release.assets@.len(),
            release.assets@.take(i as int).filter(pred) =~= Seq::<GithubAsset>::empty(),
        decreases release.assets@.len() - i,
    {
        let name = chars_of(release.assets[i].name.as_str());
        assert(name@ == release.assets@[i as int].name@);
        let hit = name.len() >= 4 && occurs_at_exec(&name, &zip, name.len() - 4);
        proof {
            reveal_with_fuel(Seq::filter, 1);
            assert(release.assets@.take(i + 1).drop_last() =~= release.assets@.take(i as int));
            reveal_strlit(".zip");
            assert(zip@.len() == 4);
            assert(pred(release.assets@[i as int]) == ends_with(name@, zip@));
            assert(hit == pred(release.assets@[i as int]));
        }
        if hit {
            proof {
                let all = release.assets@;
                assert(all =~= all.take(i + 1) + all.skip(i + 1));
                Seq::filter_distributes_over_add(all.take(i + 1), all.skip(i + 1), pred);
                assert(all.take(i + 1).filter(pred) =~= seq![all[i as int]]);
            }
            return release.assets[i].browser_download_url.clone();
        }
        i = i + 1;
    }
    assert(release.assets@.take(release.assets@.len() as int) =~= release.assets@);
    release.html_url.clone()
}

/// Whether a newer published Release than `current_version` exists, and
/// where to download it. Drafts, prereleases and tags that are not versions
/// are ignored; among the rest the first of highest version is offered.
pub fn update_prompt(current_version: &str, releases: &Vec<GithubRelease>) -> (r: Result<
    Option<UpdatePrompt>,
    String,
>)
    ensures
        prompt_matches(current_version@, releases@, r),
{
    let mut best: Option<(Version, usize)> = None;
    let mut i: usize = 0;
    while i < releases.len()
        invariant
            0 <= i <= releases@.len(),
            match best {
                None => newest_upto(releases@, i as int) is None,
                Some((ver, k)) => newest_upto(releases@, i as int) == Some(k as int) && version_of(
                    releases@[k as int].tag_name@,
                ) == Some(ver) && k < i,
            },
        decreases releases@.len() - i,
    {
        let release = &releases[i];
        if !release.draft && !release.prerelease {
            match parse_version(release.tag_name.as_str()) {
                None => {},
                Some(ver) => {
                    let better = match best {
                        None => true,
                        Some((b, _)) => b.0 < ver.0 || (b.0 == ver.0 && (b.1 < ver.1 || (b.1
                            == ver.1 && b.2 < ver.2))),
                    };
                    if better {
                        best = Some((ver, i));
                    }
                },
            }
        }
        i = i + 1;
    }
    let (latest, k) = match best {
        None => return Ok(None),
        Some(bk) => bk,
    };
    let current = match parse_version(current_version) {
        Some(c) => c,
        None => {
            let mut msg = "无法解析当前版本 ".to_owned();
            crate::text::push_str(&mut msg, current_version);
            proof {
                reveal_strlit("无法解析当前版本 ");
            }
            return Err(msg);
        },
    };
    let newer = current.0 < latest.0 || (current.0 == latest.0 && (current.1 < latest.1 || (
    current.1 == latest.1 && current.2 < latest.2)));
    if !newer {
        return Ok(None);
    }
    Ok(Some(UpdatePrompt {
        latest_version: releases[k].tag_name.clone(),
        download_url: download_url(&releases[k]),
    }))
}

/// Loads the Releases listing and answers `update_prompt` on it; a failed
/// load is passed on as it came.
pub fn check_for_update<S: ReleaseSource>(current_version: &str, source: &S) -> (r: Result<
    Option<UpdatePrompt>,
    String,
>)
    ensures
        r matches Ok(Some(p)) ==> version_of(p.latest_version@) matches Some(v) && version_of(
            current_version@,
        ) matches Some(c) && version_lt(c, v),
        exists|l: Result<Vec<GithubRelease>, String>|
            #![trigger call_ensures(S::load_releases, (source,), l)]
            call_ensures(S::load_releases, (source,), l) && match l {
                Err(e) => r matches Err(m) && m@ == e@,
                Ok(rs) => prompt_matches(current_version@, rs@, r),
            },
{
    match source.load_releases() {
        Err(e) => Err(e),
        Ok(releases) => {
            let r = update_prompt(current_version, &releases);
            proof {
                lemma_newest_is_maximal(releases@, releases@.len() as int);
            }
            r
        },
    }
}


/// Law: when the running version reads and some published Release has a
/// higher version, an update is offered, for a Release at least that high
/// and higher than the running version; when no published Release is higher,
/// none is offered.
pub proof fn lemma_update_offered_iff_newer(
    current: Seq<char>,
    rs: Seq<GithubRelease>,
    r: Result<Option<UpdatePrompt>, String>,
)
    requires
        prompt_matches(current, rs, r),
        version_of(current) is Some,
    ensures
        (exists|i: int| 0 <= i < rs.len() && eligible(#[trigger] rs[i]) && version_lt(
            version_of(current)->0,
            version_of(rs[i].tag_name@)->0,
        )) ==> (r matches Ok(Some(p)) && version_of(p.latest_version@) matches Some(v) && version_lt(
            version_of(current)->0,
            v,
        ) && forall|j: int|
            0 <= j < rs.len() && eligible(#[trigger] rs[j]) ==> !version_lt(v, version_of(rs[j].tag_name@)->0)),
        (forall|i: int|
            0 <= i < rs.len() && eligible(#[trigger] rs[i]) ==> !version_lt(
                version_of(current)->0,
                version_of(rs[i].tag_name@)->0,
            )) ==> r matches Ok(None),
{
    lemma_newest_is_maximal(rs, rs.len() as int);
    let c = version_of(current)->0;
    if exists|i: int| 0 <= i < rs.len() && eligible(#[trigger] rs[i]) && version_lt(c, version_of(rs[i].tag_name@)->0) {
        let i = choose|i: int| 0 <= i < rs.len() && eligible(#[trigger] rs[i]) && version_lt(c, version_of(rs[i].tag_name@)->0);
        let k = newest_upto(rs, rs.len() as int)->0;
        let vk = version_of(rs[k].tag_name@)->0;
        let vi = version_of(rs[i].tag_name@)->0;
        assert(!version_lt(vk, vi));
        assert(version_lt(c, vk));
    } else {
        match newest_upto(rs, rs.len() as int) {
            None => {},
            Some(k) => {
                assert(eligible(rs[k]));
                assert(!version_lt(c, version_of(rs[k].tag_name@)->0));
            },
        }
    }
}

/// Law: `check_for_update` answers on the listing its source loaded: a load
/// error comes back as it is; otherwise a published Release newer than the
/// running version is offered, and none is when there is no such Release.
pub proof fn lemma_check_for_update_offers_newer<S: ReleaseSource>(
    current: &str,
    source: &S,
    r: Result<Option<UpdatePrompt>, String>,
)
    requires
        call_ensures(check_for_update::<S>, (current, source), r),
        version_of(current@) is Some,
    ensures
        exists|l: Result<Vec<GithubRelease>, String>|
            #![trigger call_ensures(S::load_releases, (source,), l)]
            call_ensures(S::load_releases, (source,), l) && match l {
                Err(e) => r matches Err(m) && m@ == e@,
                Ok(rs) => ((exists|i: int| 0 <= i < rs@.len() && eligible(#[trigger] rs@[i]) && version_lt(
                    version_of(current@)->0,
                    version_of(rs@[i].tag_name@)->0,
                )) ==> (r matches Ok(Some(p)) && version_of(p.latest_version@) matches Some(v) && version_lt(
                    version_of(current@)->0,
                    v,
                ))) && ((forall|i: int|
                    0 <= i < rs@.len() && eligible(#[trigger] rs@[i]) ==> !version_lt(
                        version_of(current@)->0,
                        version_of(rs@[i].tag_name@)->0,
                    )) ==> (r matches Ok(q) && q is None)),
            },
{
    let l = choose|l: Result<Vec<GithubRelease>, String>|
        #![trigger call_ensures(S::load_releases, (source,), l)]
        call_ensures(S::load_releases, (source,), l) && match l {
            Err(e) => r matches Err(m) && m@ == e@,
            Ok(rs) => prompt_matches(current@, rs@, r),
        };
    match l {
        Err(_) => {},
        Ok(rs) => {
            lemma_update_offered_iff_newer(current@, rs@, r);
        },
    }
}

} // verus!
