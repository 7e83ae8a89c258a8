use cursor2api::http_head::{chunk_line_step, LineStep, MAX_CHUNK_LINE_BYTES};
use cursor2api::pack::{zip_children, DirEntryName, bundled_bridge, node_modules_dir_len, outside_node_modules_message, pack_args};
use cursor2api::path_search::child_path;
use cursor2api::release::{GitHubReleaseSource, RELEASES_API_URL};
use cursor2api::setup::{autostart_shortcut, production_paths, startup_dir_under};

fn strings(v: &[&str]) -> Vec<String> {
    v.iter().map(|s| s.to_string()).collect()
}

#[test]
fn pack_args_reads_all_five_paths() {
    let args = strings(&[
        "--console", "c.exe", "--node", "n.exe", "--bridge-cli", "nm/x/cli.js", "--readme",
        "R.md", "--out-dir", "out",
    ]);
    let (p, out_dir) = pack_args(&args).unwrap();
    assert_eq!(p.console_exe, "c.exe");
    assert_eq!(p.node_exe, "n.exe");
    assert_eq!(p.bridge_cli, "nm/x/cli.js");
    assert_eq!(p.readme, "R.md");
    assert_eq!(out_dir, "out");
}

#[test]
fn pack_args_later_value_wins() {
    let args = strings(&[
        "--out-dir", "a", "--console", "c", "--node", "n", "--bridge-cli", "b", "--readme", "r",
        "--out-dir", "z",
    ]);
    assert_eq!(pack_args(&args).unwrap().1, "z");
}

#[test]
fn pack_args_errors() {
    assert_eq!(pack_args(&strings(&["--console"])).unwrap_err(), "缺少 --console 的值");
    assert_eq!(pack_args(&strings(&["--bogus", "x"])).unwrap_err(), "未知参数 --bogus");
    assert_eq!(pack_args(&strings(&[])).unwrap_err(), "--console 必填");
    assert_eq!(pack_args(&strings(&["--console", "c"])).unwrap_err(), "--node 必填");
    assert_eq!(
        pack_args(&strings(&["--console", "c", "--node", "n"])).unwrap_err(),
        "--bridge-cli 必填"
    );
    assert_eq!(
        pack_args(&strings(&["--console", "c", "--node", "n", "--bridge-cli", "b"])).unwrap_err(),
        "--readme 必填"
    );
    assert_eq!(
        pack_args(&strings(&[
            "--console", "c", "--node", "n", "--bridge-cli", "b", "--readme", "r"
        ]))
        .unwrap_err(),
        "--out-dir 必填"
    );
    // An unknown option is reported before a later missing value.
    assert_eq!(pack_args(&strings(&["--x", "1", "--node"])).unwrap_err(), "未知参数 --x");
}

#[test]
fn node_modules_dir_is_the_nearest_ancestor() {
    let c = strings(&["C:", "\\", "a", "node_modules", "pkg", "node_modules", "p2", "cli.js"]);
    assert_eq!(node_modules_dir_len(&c), Some(6));
    let c = strings(&["a", "node_modules", "cli.js"]);
    assert_eq!(node_modules_dir_len(&c), Some(2));
    // The file itself is never its own directory.
    let c = strings(&["a", "node_modules"]);
    assert_eq!(node_modules_dir_len(&c), None);
    assert_eq!(node_modules_dir_len(&strings(&[])), None);
    assert_eq!(
        outside_node_modules_message("x/cli.js"),
        "Bridge sidecar 不在 node_modules 下：x/cli.js"
    );
}

#[test]
fn chunk_size_line_ends_at_crlf_or_is_refused_when_too_long() {
    assert!(matches!(chunk_line_step(b"1a\r\n"), LineStep::Done));
    assert!(matches!(chunk_line_step(b"1a\r"), LineStep::More));
    assert!(matches!(chunk_line_step(b""), LineStep::More));
    let long = vec![b'a'; MAX_CHUNK_LINE_BYTES];
    assert!(matches!(chunk_line_step(&long), LineStep::More));
    let longer = vec![b'a'; MAX_CHUNK_LINE_BYTES + 1];
    assert!(matches!(chunk_line_step(&longer), LineStep::TooLong));
    let mut ended = longer.clone();
    ended.extend_from_slice(b"\r\n");
    assert!(matches!(chunk_line_step(&ended), LineStep::Done));
}

#[test]
fn bundled_bridge_needs_node_and_the_sidecar() {
    let both = |p: &str| p == "C:\\app\\runtime\\node.exe" || p == "C:\\app\\node_modules/cursor-api-proxy/dist/cli.js";
    let found = bundled_bridge("C:\\app", '\\', both).expect("both files are there");
    assert_eq!(found.node, "C:\\app\\runtime\\node.exe");
    assert_eq!(found.cli, "C:\\app\\node_modules/cursor-api-proxy/dist/cli.js");
    assert!(bundled_bridge("C:\\app", '\\', |p: &str| p.ends_with("node.exe")).is_none());
    assert!(bundled_bridge("C:\\app", '\\', |p: &str| p.ends_with("cli.js")).is_none());
    assert!(bundled_bridge("/empty", '/', |_: &str| false).is_none());
}

#[test]
fn child_paths_add_one_separator() {
    assert_eq!(child_path("C:\\a", "b", '\\'), "C:\\a\\b");
    assert_eq!(child_path("C:\\a\\", "b", '\\'), "C:\\a\\b");
    assert_eq!(child_path("C:/a/", "b", '\\'), "C:/a/b");
    assert_eq!(child_path("", "b", '/'), "b");
    assert_eq!(child_path("/x", "y", '/'), "/x/y");
}

#[test]
fn setup_paths_sit_in_app_data_and_startup() {
    let startup = startup_dir_under("C:\\Users\\o\\AppData\\Roaming", '\\');
    assert_eq!(
        startup,
        "C:\\Users\\o\\AppData\\Roaming\\Microsoft\\Windows\\Start Menu\\Programs\\Startup"
    );
    let paths = production_paths("C:\\data\\cursor2api", &startup, '\\');
    assert_eq!(paths.wizard_marker, "C:\\data\\cursor2api\\wizard.json");
    assert_eq!(paths.startup_dir, startup);
    assert_eq!(
        autostart_shortcut(&paths, '\\'),
        format!("{startup}\\cursor2api.lnk")
    );
    assert_eq!(GitHubReleaseSource::default().url, RELEASES_API_URL);
}

#[test]
fn zip_listing_leaves_out_agent_cli_env_files_and_installers() {
    let listing: Vec<DirEntryName> = [
        ("cursor-api-proxy", false),
        (".env", true),
        ("Cursor-Agent.exe", true),
        ("agent", true),
        ("agent", false),
        ("setup.MSI", true),
        ("cli.js", true),
    ]
    .iter()
    .map(|(n, f)| DirEntryName { name: n.to_string(), is_file: *f })
    .collect();
    let kept = zip_children("node_modules", &listing);
    assert_eq!(
        kept,
        vec![
            (0, "node_modules/cursor-api-proxy".to_string()),
            (4, "node_modules/agent".to_string()),
            (6, "node_modules/cli.js".to_string()),
        ]
    );
}
