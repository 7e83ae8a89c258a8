use cursor2api::console::{
    credential_view, prompt_or_none, requested_port, status_view, tray_tooltip,
};
use cursor2api::pack::{omit_entry, zip_child_name, BRIDGE_CLI_PATH, BUNDLED_NODE_PATH, ZIP_NAME};
use cursor2api::release::UpdatePrompt;
use cursor2api::runtime::{BridgeState, CredentialStatus, DEFAULT_PREFERRED_PORT};
use cursor2api::sidecar::{
    first_free_port, health_request, is_ok_response, log_secrets, logged_in_from_status, next_port, roll_start,
    sidecar_env, sidecar_search_start, EnvSetting,
};
use cursor2api::stores::{generate_bridge_token, hex_lower, interpret_secret, SecretRead};
use cursor2api::text::decimal_string;

#[test]
fn sidecar_env_binds_loopback_and_carries_the_token() {
    let env = sidecar_env("/bin", 45001, "tok", Some("key"));
    let pairs: Vec<(String, Option<String>)> = env
        .into_iter()
        .map(|e| match e {
            EnvSetting::Assign { name, value } => (name, Some(value)),
            EnvSetting::Remove { name } => (name, None),
        })
        .collect();
    assert_eq!(
        pairs,
        vec![
            ("PATH".to_string(), Some("/bin".to_string())),
            ("CURSOR_BRIDGE_HOST".to_string(), Some("127.0.0.1".to_string())),
            ("CURSOR_BRIDGE_PORT".to_string(), Some("45001".to_string())),
            ("CURSOR_BRIDGE_API_KEY".to_string(), Some("tok".to_string())),
            ("CURSOR_BRIDGE_CHAT_ONLY_WORKSPACE".to_string(), Some("false".to_string())),
            ("CURSOR_BRIDGE_PROMPT_VIA_STDIN".to_string(), Some("true".to_string())),
            ("CURSOR_API_KEY".to_string(), Some("key".to_string())),
            ("CURSOR_AUTH_TOKEN".to_string(), Some("key".to_string())),
        ]
    );
}

#[test]
fn health_probe_texts() {
    assert_eq!(
        health_request("/health", 8765),
        "GET /health HTTP/1.1\r\nHost: 127.0.0.1:8765\r\nConnection: close\r\n\r\n"
    );
    assert!(is_ok_response("HTTP/1.1 200 OK\r\n\r\n{}"));
    assert!(is_ok_response("HTTP/1.0 200 OK"));
    assert!(!is_ok_response("HTTP/1.1 401 Unauthorized"));
    assert!(!is_ok_response(""));
}

#[test]
fn agent_status_login_detection() {
    assert!(logged_in_from_status(true, "Logged in as someone@example.com"));
    assert!(!logged_in_from_status(true, "Error: NOT AUTHENTICATED"));
    assert!(!logged_in_from_status(false, "Logged in"));
}

#[test]
fn port_scan_order_wraps_and_skips() {
    assert_eq!(sidecar_search_start(8765), 8766);
    assert_eq!(sidecar_search_start(65535), 1);
    assert_eq!(next_port(8765, None, false, None), Some(8765));
    assert_eq!(next_port(8765, None, false, Some(8765)), Some(8766));
    assert_eq!(next_port(65534, None, false, Some(65535)), None);
    assert_eq!(next_port(3, Some(4), true, Some(3)), Some(5));
    assert_eq!(next_port(3, None, true, Some(65535)), Some(1));
    assert_eq!(next_port(3, Some(1), true, Some(65535)), Some(2));
    assert_eq!(next_port(3, None, true, Some(2)), None);
    assert_eq!(next_port(1, None, true, Some(65535)), None);
}

#[test]
fn log_roll_keeps_the_newest_bytes() {
    assert_eq!(roll_start(100, 0), None);
    assert_eq!(roll_start(64, 64), None);
    assert_eq!(roll_start(400, 64), Some(336));
    let secrets = log_secrets("t", None);
    assert_eq!(secrets, vec!["t".to_string()]);
    assert_eq!(log_secrets("t", Some("k")), vec!["t".to_string(), "k".to_string()]);
}

#[test]
fn tokens_are_lower_hex() {
    assert_eq!(hex_lower(&[0x00, 0x0f, 0xab, 0xff]), "000fabff");
    let t = generate_bridge_token().unwrap();
    assert_eq!(t.len(), 64);
    let u = generate_bridge_token().unwrap();
    assert_ne!(t, u);
}

#[test]
fn secrets_read_back_as_the_stores_report_them() {
    assert_eq!(interpret_secret(SecretRead::Value("v".to_string())), Ok(Some("v".to_string())));
    assert_eq!(interpret_secret(SecretRead::Value(String::new())), Ok(None));
    assert_eq!(interpret_secret(SecretRead::Missing), Ok(None));
    assert_eq!(interpret_secret(SecretRead::Failed("locked".to_string())), Err("locked".to_string()));
}

#[test]
fn release_zip_leaves_out_agent_cli_env_files_and_installers() {
    for name in [".env", ".env.local", ".env.production", "setup.msi", "x.nsi", "NSIS", "cursor-agent", "cursor-agent.exe", "cursor-agent.cmd", "cursor-agent.ps1", "agent.exe", "agent.cmd", "agent.ps1"] {
        assert!(omit_entry(name, true), "{name} must be omitted");
    }
    assert!(omit_entry("agent", true));
    assert!(!omit_entry("agent", false));
    assert!(!omit_entry("cli.js", true));
    assert!(!omit_entry("node.exe", true));
    for name in ["Cursor-Agent.exe", "AGENT.CMD", ".ENV", "Setup.MSI", "nsis"] {
        assert!(omit_entry(name, true), "{name} must be omitted in any letter case");
    }
    assert!(omit_entry("Agent", true));
    assert!(!omit_entry("Agent", false));
    assert_eq!(zip_child_name("node_modules", ".bin"), "node_modules/.bin");
    assert_eq!(ZIP_NAME, "cursor2api-windows.zip");
    assert_eq!(BUNDLED_NODE_PATH, "runtime/node.exe");
    assert!(BRIDGE_CLI_PATH.starts_with("node_modules/"));
}

#[test]
fn console_views() {
    let running = status_view(BridgeState::Running { bound_port: 8766 }, 8765, None);
    assert!(running.running);
    assert_eq!(running.bound_port, Some(8766));
    assert_eq!(tray_tooltip(&running), "cursor2api — Bridge 运行中 · Bound Port 8766");
    let stopped = status_view(BridgeState::Stopped, 8765, Some("e".to_string()));
    assert!(!stopped.running);
    assert_eq!(stopped.error.as_deref(), Some("e"));
    assert_eq!(tray_tooltip(&stopped), "cursor2api — Bridge 未启动");
    let view = credential_view(CredentialStatus { cursor_api_key_saved: true, agent_cli_logged_in: false });
    assert!(view.cursor_api_key_saved && !view.agent_cli_logged_in);
    assert_eq!(requested_port(None), DEFAULT_PREFERRED_PORT);
    assert_eq!(requested_port(Some(9000)), 9000);
    assert!(prompt_or_none(Err("offline".to_string())).is_none());
    let p = prompt_or_none(Ok(Some(UpdatePrompt { latest_version: "v1".to_string(), download_url: "u".to_string() })));
    assert_eq!(p.unwrap().latest_version, "v1");
    assert_eq!(decimal_string(0), "0");
    assert_eq!(decimal_string(18446744073709551615), "18446744073709551615");
}

#[test]
fn log_file_rolls_when_it_exceeds_the_cap() {
    // A log of 400 bytes under a cap of 64 keeps its last 64 bytes.
    assert_eq!(roll_start(400, 64), Some(336));
    assert_eq!(roll_start(64, 64), None);
}

#[test]
fn start_uses_the_lowest_free_port_from_the_preferred_one() {
    let taken = [8765u16, 8766];
    assert_eq!(first_free_port(8765, None, false, |p: u16| !taken.contains(&p)), Some(8767));
    assert_eq!(first_free_port(8765, Some(8767), true, |p: u16| !taken.contains(&p)), Some(8768));
    assert_eq!(first_free_port(65535, Some(65535), true, |p: u16| p != 1), Some(2));
    assert_eq!(first_free_port(65534, None, false, |_: u16| false), None);
}
