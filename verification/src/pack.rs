//! The portable Release zip: its names, and which files never go into it
//! (the Agent CLI, `.env` files that may hold a Cursor API Key, installers).

use vstd::prelude::*;
use crate::path_search::{child_of, child_path};
use crate::text::{chars_of, eq_ignore_case, push_str, range_eq_ignore_case, same_text};

verus! {

/// The Release zip's file name.
pub const ZIP_NAME: &'static str = "cursor2api-windows.zip";

/// The Console exe's name in the zip.
pub const CONSOLE_EXE_NAME: &'static str = "cursor2api.exe";

/// Where the bundled Node runtime sits in the zip.
pub const BUNDLED_NODE_PATH: &'static str = "runtime/node.exe";

/// Where the Bridge sidecar's entry point sits in the zip.
pub const BRIDGE_CLI_PATH: &'static str = "node_modules/cursor-api-proxy/dist/cli.js";

/// `s` ends with `p`, ignoring ASCII case.
pub open spec fn ends_with_ignore_case(s: Seq<char>, p: Seq<char>) -> bool {
    s.len() >= p.len() && eq_ignore_case(s.subrange(s.len() - p.len(), s.len() as int), p)
}

/// An environment file that may carry a Cursor API Key (any letter case, as
/// Windows file names are).
pub open spec fn is_env_file(name: Seq<char>) -> bool {
    eq_ignore_case(name, ".env"@) || eq_ignore_case(name, ".env.local"@) || eq_ignore_case(
        name,
        ".env.production"@,
    )
}

/// An installer artefact (any letter case).
pub open spec fn is_installer(name: Seq<char>) -> bool {
    ends_with_ignore_case(name, ".msi"@) || ends_with_ignore_case(name, ".nsi"@) || eq_ignore_case(
        name,
        "nsis"@,
    )
}

/// An Agent CLI executable or launcher (any letter case).
pub open spec fn is_agent_cli(name: Seq<char>, is_file: bool) -> bool {
    ||| eq_ignore_case(name, "cursor-agent"@)
    ||| eq_ignore_case(name, "cursor-agent.exe"@)
    ||| eq_ignore_case(name, "cursor-agent.cmd"@)
    ||| eq_ignore_case(name, "cursor-agent.ps1"@)
    ||| eq_ignore_case(name, "agent.exe"@)
    ||| eq_ignore_case(name, "agent.cmd"@)
    ||| eq_ignore_case(name, "agent.ps1"@)
    ||| (is_file && eq_ignore_case(name, "agent"@))
}

/// A directory entry that the Release zip leaves out.
pub open spec fn omitted(name: Seq<char>, is_file: bool) -> bool {
    is_env_file(name) || is_installer(name) || is_agent_cli(name, is_file)
}

/// Whether `name` is `lit`, ignoring ASCII case.
fn same_ignore_case(name: &[char], lit: &str) -> (b: bool)
    ensures
        b == eq_ignore_case(name@, lit@),
{
    let p = chars_of(lit);
    assert(name@.subrange(0, name@.len() as int) =~= name@);
    range_eq_ignore_case(name, 0, name.len(), &p)
}

/// Whether `name` ends with `lit`, ignoring ASCII case.
fn ends_ignore_case(name: &[char], lit: &str) -> (b: bool)
    ensures
        b == ends_with_ignore_case(name@, lit@),
{
    let p = chars_of(lit);
    if p.len() > name.len() {
        return false;
    }
    range_eq_ignore_case(name, name.len() - p.len(), name.len(), &p)
}

/// Whether a directory entry stays out of the Release zip. Names are
/// compared ignoring ASCII case, since Windows does not tell them apart.
pub fn omit_entry(name: &str, is_file: bool) -> (b: bool)
    ensures
        b == omitted(name@, is_file),
{
    let v = chars_of(name);
    if same_ignore_case(&v, ".env") || same_ignore_case(&v, ".env.local") || same_ignore_case(
        &v,
        ".env.production",
    ) {
        return true;
    }
    if ends_ignore_case(&v, ".msi") || ends_ignore_case(&v, ".nsi") || same_ignore_case(&v, "nsis") {
        return true;
    }
    same_ignore_case(&v, "cursor-agent") || same_ignore_case(&v, "cursor-agent.exe")
        || same_ignore_case(&v, "cursor-agent.cmd") || same_ignore_case(&v, "cursor-agent.ps1")
        || same_ignore_case(&v, "agent.exe") || same_ignore_case(&v, "agent.cmd")
        || same_ignore_case(&v, "agent.ps1") || (is_file && same_ignore_case(&v, "agent"))
}

/// The files a Release is packed from.
#[derive(Debug)]
pub struct PackInputs {
    pub console_exe: String,
    pub node_exe: String,
    pub bridge_cli: String,
    pub readme: String,
}

/// The five options, as far as they have been read.
pub struct ArgsSoFar {
    pub console: Option<Seq<char>>,
    pub node: Option<Seq<char>>,
    pub bridge_cli: Option<Seq<char>>,
    pub readme: Option<Seq<char>>,
    pub out_dir: Option<Seq<char>>,
}

/// Reads `args[i..]` as `--key value` pairs on top of `acc`; a later value
/// replaces an earlier one.
pub open spec fn read_args(args: Seq<Seq<char>>, i: int, acc: ArgsSoFar) -> Result<ArgsSoFar, Seq<char>>
    decreases args.len() - i,
{
    if i >= args.len() {
        Ok(acc)
    } else if i + 1 >= args.len() {
        Err("缺少 "@ + args[i] + " 的值"@)
    } else {
        let key = args[i];
        let value = args[i + 1];
        if key == "--console"@ {
            read_args(args, i + 2, ArgsSoFar { console: Some(value), ..acc })
        } else if key == "--node"@ {
            read_args(args, i + 2, ArgsSoFar { node: Some(value), ..acc })
        } else if key == "--bridge-cli"@ {
            read_args(args, i + 2, ArgsSoFar { bridge_cli: Some(value), ..acc })
        } else if key == "--readme"@ {
            read_args(args, i + 2, ArgsSoFar { readme: Some(value), ..acc })
        } else if key == "--out-dir"@ {
            read_args(args, i + 2, ArgsSoFar { out_dir: Some(value), ..acc })
        } else {
            Err("未知参数 "@ + key)
        }
    }
}

/// No option read yet.
pub open spec fn no_args() -> ArgsSoFar {
    ArgsSoFar { console: None, node: None, bridge_cli: None, readme: None, out_dir: None }
}

/// What the pack command makes of its arguments: the first missing value or
/// unknown option, else the first required option that is absent, else the inputs.
pub open spec fn pack_args_outcome(args: Seq<Seq<char>>) -> Result<
    (Seq<char>, Seq<char>, Seq<char>, Seq<char>, Seq<char>),
    Seq<char>,
> {
    match read_args(args, 0, no_args()) {
        Err(e) => Err(e),
        Ok(a) => if a.console is None {
            Err("--console 必填"@)
        } else if a.node is None {
            Err("--node 必填"@)
        } else if a.bridge_cli is None {
            Err("--bridge-cli 必填"@)
        } else if a.readme is None {
            Err("--readme 必填"@)
        } else if a.out_dir is None {
            Err("--out-dir 必填"@)
        } else {
            Ok((a.console->0, a.node->0, a.bridge_cli->0, a.readme->0, a.out_dir->0))
        },
    }
}

/// The view of an optional string.
pub open spec fn opt_view(o: Option<String>) -> Option<Seq<char>> {
    match o {
        Some(s) => Some(s@),
        None => None,
    }
}

/// Reads the pack command's arguments (`--console`, `--node`, `--bridge-cli`,
/// `--readme`, `--out-dir`, each followed by a path): the inputs and the
/// output directory.
pub fn pack_args(args: &Vec<String>) -> (r: Result<(PackInputs, String), String>)
    ensures
        match (r, pack_args_outcome(args@.map_values(|s: String| s@))) {
            (Ok((p, out)), Ok((c, n, b, m, o))) => p.console_exe@ == c && p.node_exe@ == n
                && p.bridge_cli@ == b && p.readme@ == m && out@ == o,
            (Err(e), Err(m)) => e@ == m,
            _ => false,
        },
{
    let ghost av = args@.map_values(|s: String| s@);
    let mut console: Option<String> = None;
    let mut node: Option<String> = None;
    let mut bridge_cli: Option<String> = None;
    let mut readme: Option<String> = None;
    let mut out_dir: Option<String> = None;
    let mut i: usize = 0;
    proof {
        reveal_strlit("--console");
        reveal_strlit("--node");
        reveal_strlit("--bridge-cli");
        reveal_strlit("--readme");
        reveal_strlit("--out-dir");
    }
    while i < args.len()
        invariant
            av == args@.map_values(|s: String| s@),
            0 <= i,
            read_args(av, 0, no_args()) == read_args(
                av,
                i as int,
                ArgsSoFar {
                    console: opt_view(console),
                    node: opt_view(node),
                    bridge_cli: opt_view(bridge_cli),
                    readme: opt_view(readme),
                    out_dir: opt_view(out_dir),
                },
            ),
        decreases args@.len() - i,
    {
        let key = args[i].as_str();
        if i + 1 >= args.len() {
            let mut e = "缺少 ".to_owned();
            push_str(&mut e, key);
            push_str(&mut e, " 的值");
            return Err(e);
        }
        let value = args[i + 1].clone();
        if same_text(key, "--console") {
            console = Some(value);
        } else if same_text(key, "--node") {
            node = Some(value);
        } else if same_text(key, "--bridge-cli") {
            bridge_cli = Some(value);
        } else if same_text(key, "--readme") {
            readme = Some(value);
        } else if same_text(key, "--out-dir") {
            out_dir = Some(value);
        } else {
            let mut e = "未知参数 ".to_owned();
            push_str(&mut e, key);
            return Err(e);
        }
        i = i + 2;
    }
    let console = match console {
        Some(c) => c,
        None => return Err("--console 必填".to_owned()),
    };
    let node = match node {
        Some(c) => c,
        None => return Err("--node 必填".to_owned()),
    };
    let bridge_cli = match bridge_cli {
        Some(c) => c,
        None => return Err("--bridge-cli 必填".to_owned()),
    };
    let readme = match readme {
        Some(c) => c,
        None => return Err("--readme 必填".to_owned()),
    };
    let out_dir = match out_dir {
        Some(c) => c,
        None => return Err("--out-dir 必填".to_owned()),
    };
    Ok((PackInputs { console_exe: console, node_exe: node, bridge_cli, readme }, out_dir))
}

/// The zip name of a child entry: `prefix/name`.
pub fn zip_child_name(prefix: &str, name: &str) -> (r: String)
    ensures
        r@ == prefix@ + seq!['/'] + name@,
{
    let mut r = prefix.to_owned();
    crate::text::push_char(&mut r, '/');
    push_str(&mut r, name);
    r
}


/// The index of the last `node_modules` among `c[..k]`, if any.
pub open spec fn last_node_modules(c: Seq<Seq<char>>, k: int) -> Option<int>
    decreases k,
{
    if k <= 0 {
        None
    } else if c[k - 1] == "node_modules"@ {
        Some(k - 1)
    } else {
        last_node_modules(c, k - 1)
    }
}

/// The `node_modules` directory that holds the Bridge sidecar, given the
/// components of the sidecar's path: the nearest ancestor directory named
/// `node_modules`, as the number of leading components that make it up.
pub fn node_modules_dir_len(components: &Vec<String>) -> (r: Option<usize>)
    ensures
        r == (match last_node_modules(
            components@.map_values(|s: String| s@),
            components@.len() - 1,
        ) {
            Some(j) => Some((j + 1) as usize),
            None => None,
        }),
        r matches Some(n) ==> 1 <= n < components@.len() && components@[n - 1]@
            == "node_modules"@,
{
    let ghost c = components@.map_values(|s: String| s@);
    if components.len() == 0 {
        return None;
    }
    let mut k: usize = components.len() - 1;
    proof {
        reveal_strlit("node_modules");
    }
    while k > 0
        invariant
            c == components@.map_values(|s: String| s@),
            k < components@.len(),
            last_node_modules(c, components@.len() - 1) == last_node_modules(c, k as int),
        decreases k,
    {
        if same_text(components[k - 1].as_str(), "node_modules") {
            assert(c[k - 1] == components@[k - 1]@);
            return Some(k);
        }
        assert(c[k - 1] == components@[k - 1]@);
        k = k - 1;
    }
    None
}

/// The error when the Bridge sidecar is not inside a `node_modules` directory.
pub fn outside_node_modules_message(path: &str) -> (r: String)
    ensures
        r@ == "Bridge sidecar 不在 node_modules 下："@ + path@,
{
    let mut r = "Bridge sidecar 不在 node_modules 下：".to_owned();
    push_str(&mut r, path);
    r
}


/// The Node runtime and the Bridge sidecar of an unpacked Release.
#[derive(Debug)]
pub struct BundledBridge {
    pub node: String,
    pub cli: String,
}

/// Where an unpacked Release keeps its Node runtime.
pub open spec fn bundled_node_of(install_dir: Seq<char>, dir_sep: char) -> Seq<char> {
    child_of(child_of(install_dir, "runtime"@, dir_sep), "node.exe"@, dir_sep)
}

/// Where an unpacked Release keeps the Bridge sidecar.
pub open spec fn bundled_cli_of(install_dir: Seq<char>, dir_sep: char) -> Seq<char> {
    child_of(install_dir, BRIDGE_CLI_PATH@, dir_sep)
}

/// `is_file` answered `answer` for `path`.
pub open spec fn file_probe<F: Fn(&str) -> bool>(is_file: F, path: Seq<char>, answer: bool) -> bool {
    exists|p: &str| p@ == path && call_ensures(is_file, (p,), answer)
}

/// The bundled Node and Bridge sidecar of the Release unpacked in
/// `install_dir`, when both are files; the Node runtime is probed first.
pub fn bundled_bridge<F: Fn(&str) -> bool>(install_dir: &str, dir_sep: char, is_file: F) -> (r: Option<
    BundledBridge,
>)
    requires
        forall|p: &str| is_file.requires((p,)),
    ensures
        r matches Some(b) ==> b.node@ == bundled_node_of(install_dir@, dir_sep) && b.cli@
            == bundled_cli_of(install_dir@, dir_sep) && file_probe(is_file, b.node@, true)
            && file_probe(is_file, b.cli@, true),
        r is None ==> file_probe(is_file, bundled_node_of(install_dir@, dir_sep), false) || (
        file_probe(is_file, bundled_node_of(install_dir@, dir_sep), true) && file_probe(
            is_file,
            bundled_cli_of(install_dir@, dir_sep),
            false,
        )),
{
    let runtime_dir = child_path(install_dir, "runtime", dir_sep);
    let node = child_path(runtime_dir.as_str(), "node.exe", dir_sep);
    let node_found = is_file(node.as_str());
    if !node_found {
        return None;
    }
    let cli = child_path(install_dir, BRIDGE_CLI_PATH, dir_sep);
    let cli_found = is_file(cli.as_str());
    if !cli_found {
        return None;
    }
    Some(BundledBridge { node, cli })
}


/// One entry of a directory listing: its name and whether it is a file.
#[derive(Debug)]
pub struct DirEntryName {
    pub name: String,
    pub is_file: bool,
}

/// `kept` lists, in order and with their zip names under `prefix`, exactly
/// the entries of `entries` that the Release zip does not leave out.
pub open spec fn zip_children_of(prefix: Seq<char>, entries: Seq<DirEntryName>, kept: Seq<(usize, String)>) -> bool {
    &&& forall|i: int|
        0 <= i < kept.len() ==> {
            &&& (#[trigger] kept[i]).0 < entries.len()
            &&& !omitted(entries[kept[i].0 as int].name@, entries[kept[i].0 as int].is_file)
            &&& kept[i].1@ == prefix + seq!['/'] + entries[kept[i].0 as int].name@
        }
    &&& forall|i: int, j: int| 0 <= i < j < kept.len() ==> kept[i].0 < kept[j].0
    &&& forall|j: int|
        0 <= j < entries.len() && !omitted(#[trigger] entries[j].name@, entries[j].is_file) ==> exists|i: int|
            0 <= i < kept.len() && kept[i].0 == j
}

/// The entries of a directory that go into the Release zip, each with its
/// index in the listing and its zip name under `prefix`: every entry that
/// `omit_entry` keeps, in order, and no other. So no entry packed from a
/// listing bears the name of an Agent CLI, an `.env` file or an installer.
pub fn zip_children(prefix: &str, entries: &Vec<DirEntryName>) -> (kept: Vec<(usize, String)>)
    ensures
        zip_children_of(prefix@, entries@, kept@),
{
    let mut kept: Vec<(usize, String)> = Vec::new();
    let mut j: usize = 0;
    while j < entries.len()
        invariant
            0 <= j <= entries@.len(),
            forall|i: int|
                0 <= i < kept@.len() ==> {
                    &&& (#[trigger] kept@[i]).0 < j
                    &&& !omitted(entries@[kept@[i].0 as int].name@, entries@[kept@[i].0 as int].is_file)
                    &&& kept@[i].1@ == prefix@ + seq!['/'] + entries@[kept@[i].0 as int].name@
                },
            forall|a: int, b: int| 0 <= a < b < kept@.len() ==> kept@[a].0 < kept@[b].0,
            forall|k: int|
                0 <= k < j && !omitted(#[trigger] entries@[k].name@, entries@[k].is_file) ==> exists|i: int|
                    0 <= i < kept@.len() && kept@[i].0 == k,
        decreases entries@.len() - j,
    {
        let e = &entries[j];
        if !omit_entry(e.name.as_str(), e.is_file) {
            let name = zip_child_name(prefix, e.name.as_str());
            let ghost before = kept@;
            kept.push((j, name));
            assert forall|k: int|
                0 <= k < j + 1 && !omitted(#[trigger] entries@[k].name@, entries@[k].is_file) implies exists|i: int|
                    0 <= i < kept@.len() && kept@[i].0 == k by {
                if k == j {
                    assert(kept@[kept@.len() - 1].0 == k);
                } else {
                    let i = choose|i: int| 0 <= i < before.len() && before[i].0 == k;
                    assert(kept@[i] == before[i]);
                }
            }
        }
        j = j + 1;
    }
    kept
}

} // verus!
