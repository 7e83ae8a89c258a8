//! Finding an executable (the Agent CLI, Node) on a `PATH` value: the
//! directories in order, in each the bare name and then the name with each
//! `PATHEXT` extension as written and in lower case.

use vstd::prelude::*;
use crate::text::{chars_of, find_char, first_index, lemma_first_index, push_str, string_from_range};

verus! {

/// The names the Agent CLI goes by, in the order they are looked for.
pub const AGENT_CLI_NAMES: [&'static str; 2] = ["cursor-agent", "agent"];

/// How `PATH` is read on this platform: its separator, and the extensions
/// (`PATHEXT` on Windows, none elsewhere) tried after the bare name.
pub struct PathStyle {
    pub separator: char,
    pub extensions: Vec<String>,
}

/// A file to look for: a directory of `PATH` and a file name in it.
#[derive(Debug)]
pub struct Candidate {
    pub dir: String,
    pub file: String,
}

/// `str::to_lowercase` (Unicode lower case).
pub uninterp spec fn unicode_lowercase(s: Seq<char>) -> Seq<char>;

/// `str::to_lowercase`.
#[verifier::external_body]
fn to_lowercase(s: &str) -> (r: String)
    ensures
        r@ == unicode_lowercase(s@),
{
    s.to_lowercase()
}

/// `s.split(c)`: the pieces between the separators, empty ones included.
pub open spec fn split_char(s: Seq<char>, c: char) -> Seq<Seq<char>>
    decreases s.len(),
{
    let i = first_index(s, c);
    proof {
        lemma_first_index(s, c);
    }
    if i < 0 {
        seq![s]
    } else {
        seq![s.take(i)] + split_char(s.skip(i + 1), c)
    }
}

/// The directories of a `PATH` value: its non-empty pieces.
pub open spec fn path_dirs(path_env: Seq<char>, sep: char) -> Seq<Seq<char>> {
    split_char(path_env, sep).filter(|d: Seq<char>| d.len() > 0)
}

/// The extension candidates in one directory, extension by extension.
pub open spec fn ext_candidates(dir: Seq<char>, name: Seq<char>, exts: Seq<Seq<char>>) -> Seq<
    (Seq<char>, Seq<char>),
>
    decreases exts.len(),
{
    if exts.len() == 0 {
        seq![]
    } else {
        let e = exts.last();
        ext_candidates(dir, name, exts.drop_last()) + seq![
            (dir, name + e),
            (dir, name + unicode_lowercase(e)),
        ]
    }
}

/// The candidates in one directory: the bare name, then the extensions.
pub open spec fn dir_candidates(dir: Seq<char>, name: Seq<char>, exts: Seq<Seq<char>>) -> Seq<
    (Seq<char>, Seq<char>),
> {
    seq![(dir, name)] + ext_candidates(dir, name, exts)
}

/// The candidates of all directories, directory by directory.
pub open spec fn all_candidates(dirs: Seq<Seq<char>>, name: Seq<char>, exts: Seq<Seq<char>>) -> Seq<
    (Seq<char>, Seq<char>),
>
    decreases dirs.len(),
{
    if dirs.len() == 0 {
        seq![]
    } else {
        all_candidates(dirs.drop_last(), name, exts) + dir_candidates(dirs.last(), name, exts)
    }
}

/// The files probed for `name` on `path_env`, in order.
pub open spec fn candidates_for(path_env: Seq<char>, name: Seq<char>, style: PathStyle) -> Seq<
    (Seq<char>, Seq<char>),
> {
    all_candidates(
        path_dirs(path_env, style.separator),
        name,
        style.extensions@.map_values(|e: String| e@),
    )
}

/// The views of candidates.
pub open spec fn candidate_views(v: Seq<Candidate>) -> Seq<(Seq<char>, Seq<char>)> {
    v.map_values(|c: Candidate| (c.dir@, c.file@))
}

/// The directories of a `PATH` value, in order, without empty pieces.
pub fn split_path_env(path_env: &str, sep: char) -> (r: Vec<String>)
    ensures
        r@.map_values(|d: String| d@) == path_dirs(path_env@, sep),
{
    let v = chars_of(path_env);
    let ghost keep = |d: Seq<char>| d.len() > 0;
    let mut r: Vec<String> = Vec::new();
    let mut pos: usize = 0;
    assert(v@.skip(0) =~= v@);
    assert(split_char(v@, sep).filter(keep) =~= r@.map_values(|d: String| d@) + split_char(
        v@.skip(0),
        sep,
    ).filter(keep));
    loop
        invariant
            v@ == path_env@,
            keep == (|d: Seq<char>| d.len() > 0),
            0 <= pos <= v@.len(),
            split_char(v@, sep).filter(keep) == r@.map_values(|d: String| d@) + split_char(
                v@.skip(pos as int),
                sep,
            ).filter(keep),
        decreases v@.len() - pos,
    {
        let ghost rest = v@.skip(pos as int);
        let ghost before = r@.map_values(|d: String| d@);
        assert(v@.subrange(pos as int, v@.len() as int) =~= rest);
        match find_char(&v, pos, v.len(), sep) {
            None => {
                proof {
                    reveal_with_fuel(Seq::filter, 2);
                    assert(split_char(rest, sep) == seq![rest]);
                }
                if pos < v.len() {
                    r.push(string_from_range(&v, pos, v.len()));
                    assert(r@.map_values(|d: String| d@) =~= before.push(rest));
                    assert(seq![rest].filter(keep) =~= seq![rest]);
                } else {
                    assert(seq![rest].filter(keep) =~= Seq::<Seq<char>>::empty());
                }
                assert(r@.map_values(|d: String| d@) =~= before + seq![rest].filter(keep));
                return r;
            },
            Some(i) => {
                let end = pos + i;
                let ghost piece = rest.take(i as int);
                proof {
                    assert(piece =~= v@.subrange(pos as int, end as int));
                    assert(rest.skip(i + 1) =~= v@.skip(end + 1));
                    assert(split_char(rest, sep) == seq![piece] + split_char(v@.skip(end + 1), sep));
                    Seq::filter_distributes_over_add(seq![piece], split_char(v@.skip(end + 1), sep), keep);
                    reveal_with_fuel(Seq::filter, 2);
                }
                if end > pos {
                    r.push(string_from_range(&v, pos, end));
                    assert(seq![piece].filter(keep) =~= seq![piece]);
                    assert(r@.map_values(|d: String| d@) =~= before + seq![piece]);
                } else {
                    assert(seq![piece].filter(keep) =~= Seq::<Seq<char>>::empty());
                    assert(r@.map_values(|d: String| d@) =~= before + Seq::<Seq<char>>::empty());
                }
                pos = end + 1;
            },
        }
    }
}

/// A candidate `dir` / `name` + `suffix`.
fn candidate(dir: &str, name: &str, suffix: &str) -> (c: Candidate)
    ensures
        c.dir@ == dir@,
        c.file@ == name@ + suffix@,
{
    let mut file = name.to_owned();
    push_str(&mut file, suffix);
    Candidate { dir: dir.to_owned(), file }
}

/// The files probed for `name` on `path_env`, in order.
pub fn probe_candidates(path_env: &str, name: &str, style: &PathStyle) -> (r: Vec<Candidate>)
    ensures
        candidate_views(r@) == candidates_for(path_env@, name@, *style),
{
    let dirs = split_path_env(path_env, style.separator);
    let ghost dv = dirs@.map_values(|d: String| d@);
    let ghost ev = style.extensions@.map_values(|e: String| e@);
    let mut r: Vec<Candidate> = Vec::new();
    let mut i: usize = 0;
    assert(dv.take(0) =~= Seq::<Seq<char>>::empty());
    assert(candidate_views(r@) =~= all_candidates(dv.take(0), name@, ev));
    while i < dirs.len()
        invariant
            dv == dirs@.map_values(|d: String| d@),
            dv == path_dirs(path_env@, style.separator),
            ev == style.extensions@.map_values(|e: String| e@),
            0 <= i <= dirs@.len(),
            candidate_views(r@) == all_candidates(dv.take(i as int), name@, ev),
        decreases dirs@.len() - i,
    {
        let dir = dirs[i].as_str();
        let ghost before = candidate_views(r@);
        r.push(candidate(dir, name, ""));
        proof {
            reveal_strlit("");
            assert(candidate_views(r@) =~= before + seq![(dir@, name@)]);
        }
        let mut j: usize = 0;
        assert(ev.take(0) =~= Seq::<Seq<char>>::empty());
        assert(candidate_views(r@) =~= before + dir_candidates(dir@, name@, ev.take(0)));
        while j < style.extensions.len()
            invariant
                ev == style.extensions@.map_values(|e: String| e@),
                0 <= j <= style.extensions@.len(),
                candidate_views(r@) == before + dir_candidates(dir@, name@, ev.take(j as int)),
            decreases style.extensions@.len() - j,
        {
            let ext = style.extensions[j].as_str();
            let ghost mid = candidate_views(r@);
            r.push(candidate(dir, name, ext));
            let lower = to_lowercase(ext);
            r.push(candidate(dir, name, lower.as_str()));
            proof {
                assert(ev.take(j + 1).drop_last() =~= ev.take(j as int));
                assert(ev.take(j + 1).last() == ext@);
                assert(candidate_views(r@) =~= mid + seq![
                    (dir@, name@ + ext@),
                    (dir@, name@ + unicode_lowercase(ext@)),
                ]);
            }
            j = j + 1;
        }
        proof {
            assert(ev.take(style.extensions@.len() as int) =~= ev);
            assert(dv.take(i + 1).drop_last() =~= dv.take(i as int));
            assert(dv.take(i + 1).last() == dir@);
        }
        i = i + 1;
    }
    assert(dv.take(dirs@.len() as int) =~= dv);
    r
}

/// `is_file` gave `answer` for the file `c` on some call.
pub open spec fn probed<F: Fn(&str, &str) -> bool>(is_file: F, c: (Seq<char>, Seq<char>), answer: bool) -> bool {
    exists|d: &str, n: &str| d@ == c.0 && n@ == c.1 && call_ensures(is_file, (d, n), answer)
}

/// The first candidate, in probe order, that `is_file` accepts. Each
/// candidate before it was probed and refused; with no such candidate,
/// every one was probed and refused.
pub fn find_executable<F: Fn(&str, &str) -> bool>(
    name: &str,
    path_env: &str,
    style: &PathStyle,
    is_file: F,
) -> (r: Option<Candidate>)
    requires
        forall|d: &str, n: &str| is_file.requires((d, n)),
    ensures
        ({
            let cs = candidates_for(path_env@, name@, *style);
            &&& r matches Some(c) ==> exists|k: int|
                #![trigger cs[k]]
                0 <= k < cs.len() && cs[k] == (c.dir@, c.file@) && probed(is_file, cs[k], true)
                    && forall|j: int| 0 <= j < k ==> probed(is_file, #[trigger] cs[j], false)
            &&& r is None ==> forall|k: int| 0 <= k < cs.len() ==> probed(is_file, #[trigger] cs[k], false)
        }),
{
    let cands = probe_candidates(path_env, name, style);
    let ghost cs = candidates_for(path_env@, name@, *style);
    let mut k: usize = 0;
    while k < cands.len()
        invariant
            forall|d: &str, n: &str| is_file.requires((d, n)),
            cs == candidates_for(path_env@, name@, *style),
            candidate_views(cands@) == cs,
            0 <= k <= cands@.len(),
            forall|j: int| 0 <= j < k ==> probed(is_file, #[trigger] cs[j], false),
        decreases cands@.len() - k,
    {
        let d = cands[k].dir.as_str();
        let n = cands[k].file.as_str();
        let hit = is_file(d, n);
        assert(cs[k as int] == (d@, n@));
        if hit {
            let c = Candidate { dir: cands[k].dir.clone(), file: cands[k].file.clone() };
            assert(probed(is_file, cs[k as int], true));
            return Some(c);
        }
        assert(probed(is_file, cs[k as int], false));
        k = k + 1;
    }
    None
}

/// The Agent CLI on `path_env`: `cursor-agent` first, then `agent`; for
/// each name, the first candidate (in `PATH` order) that is a file.
pub fn find_agent_cli<F: Fn(&str, &str) -> bool>(path_env: &str, style: &PathStyle, is_file: F) -> (r:
    Option<Candidate>)
    requires
        forall|d: &str, n: &str| is_file.requires((d, n)),
    ensures
        ({
            let first = candidates_for(path_env@, "cursor-agent"@, *style);
            let second = candidates_for(path_env@, "agent"@, *style);
            &&& r matches Some(c) ==> (exists|k: int|
                #![trigger first[k]]
                0 <= k < first.len() && first[k] == (c.dir@, c.file@) && probed(is_file, first[k], true)
                    && forall|j: int| 0 <= j < k ==> probed(is_file, #[trigger] first[j], false))
                || ((forall|k: int| 0 <= k < first.len() ==> probed(is_file, #[trigger] first[k], false))
                && exists|k: int|
                #![trigger second[k]]
                0 <= k < second.len() && second[k] == (c.dir@, c.file@) && probed(is_file, second[k], true)
                    && forall|j: int| 0 <= j < k ==> probed(is_file, #[trigger] second[j], false))
            &&& r is None ==> (forall|k: int| 0 <= k < first.len() ==> probed(is_file, #[trigger] first[k], false))
                && (forall|k: int| 0 <= k < second.len() ==> probed(is_file, #[trigger] second[k], false))
        }),
{
    match find_executable("cursor-agent", path_env, style, &is_file) {
        Some(c) => Some(c),
        None => find_executable("agent", path_env, style, &is_file),
    }
}


/// The extensions Windows tries when none is given and `PATHEXT` is unset.
pub const DEFAULT_PATHEXT: &'static str = ".COM;.EXE;.BAT;.CMD";

/// The executable extensions to probe: none off Windows; on Windows the
/// non-empty pieces of `PATHEXT`, or of `DEFAULT_PATHEXT` where it is unset.
pub fn path_extensions(windows: bool, pathext: Option<&str>) -> (r: Vec<String>)
    ensures
        !windows ==> r@.len() == 0,
        windows ==> r@.map_values(|e: String| e@) == split_char(
            match pathext {
                Some(t) => t@,
                None => DEFAULT_PATHEXT@,
            },
            ';',
        ).filter(|d: Seq<char>| d.len() > 0),
{
    if !windows {
        return Vec::new();
    }
    let text = match pathext {
        Some(t) => t,
        None => DEFAULT_PATHEXT,
    };
    split_path_env(text, ';')
}

/// The `PATH` that the Console searches: the one that Windows keeps for the
/// machine and the user, when it could be read, ahead of the process's own.
pub fn combined_path_env(from_os: Option<&str>, process: &str) -> (r: String)
    ensures
        r@ == (match from_os {
            None => process@,
            Some(os) => if process@.len() == 0 {
                os@
            } else {
                os@ + seq![';'] + process@
            },
        }),
{
    match from_os {
        None => process.to_owned(),
        Some(os) => {
            if process.unicode_len() == 0 {
                os.to_owned()
            } else {
                let mut r = os.to_owned();
                crate::text::push_char(&mut r, ';');
                crate::text::push_str(&mut r, process);
                r
            }
        },
    }
}

/// What a query of the machine and user `PATH` yields: its output trimmed,
/// when the query succeeded and the output is not blank.
pub fn os_path_from_output(succeeded: bool, stdout: &str) -> (r: Option<String>)
    ensures
        !succeeded ==> r is None,
        succeeded && crate::text::trim(stdout@).len() == 0 ==> r is None,
        succeeded && crate::text::trim(stdout@).len() > 0 ==> (r matches Some(t) && t@
            == crate::text::trim(stdout@)),
{
    if !succeeded {
        return None;
    }
    let v = chars_of(stdout);
    let (a, b) = crate::text::trim_bounds(&v, 0, v.len());
    assert(v@.subrange(0, v@.len() as int) =~= v@);
    if a == b {
        None
    } else {
        Some(crate::text::string_from_range(&v, a, b))
    }
}


/// A directory separator of a file path: `/`, or the platform's own (`\` on Windows).
pub open spec fn is_dir_sep(c: char, dir_sep: char) -> bool {
    c == dir_sep || c == '/'
}

/// The path of `name` inside directory `base`: `name` when `base` is empty,
/// `base` and `name` when `base` ends with a separator, else the two joined
/// by `dir_sep`.
pub open spec fn child_of(base: Seq<char>, name: Seq<char>, dir_sep: char) -> Seq<char> {
    if base.len() == 0 {
        name
    } else if is_dir_sep(base.last(), dir_sep) {
        base + name
    } else {
        base + seq![dir_sep] + name
    }
}

/// The path of `name` inside directory `base`.
pub fn child_path(base: &str, name: &str, dir_sep: char) -> (r: String)
    ensures
        r@ == child_of(base@, name@, dir_sep),
{
    let v = chars_of(base);
    if v.len() == 0 {
        return name.to_owned();
    }
    let last = v[v.len() - 1];
    let mut r = base.to_owned();
    if !(last == dir_sep || last == '/') {
        crate::text::push_char(&mut r, dir_sep);
    }
    push_str(&mut r, name);
    r
}

} // verus!
