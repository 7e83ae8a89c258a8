use cursor2api::path_search::PathStyle;
use cursor2api::runtime::{
    after_sidecar_health, after_sidecar_port, answers, caller_config_from, credential_status_from,
    token_present,
    caller_config_for, normalized_cursor_api_key, preferred_port_or, BridgeRuntime, BridgeState,
    OperatorHealth, RuntimeConfig, StartAction, StartError, StartEvent, StartStage,
    AGENT_CLI_MISSING_MESSAGE, DEFAULT_PREFERRED_PORT, MAX_LOG_BYTES,
};
use cursor2api::sidecar::EnvSetting;
use cursor2api::stores::{
    BridgeTokenStore, CursorApiKeyStore, MemoryCursorApiKeyStore, MemoryTokenStore,
};

fn runtime_config(path_env: &str, preferred_port: u16) -> RuntimeConfig {
    RuntimeConfig {
        preferred_port,
        path_env: path_env.to_string(),
        sidecar_program: "node".to_string(),
        sidecar_args: vec!["fake-bridge.mjs".to_string()],
        startup_timeout_ms: 5000,
        log_path: None,
        summaries_path: None,
        max_log_bytes: MAX_LOG_BYTES,
        preferred_port_path: None,
    }
}

fn unix_style() -> PathStyle {
    PathStyle { separator: ':', extensions: Vec::new() }
}

/// What the outside world answers during a simulated Start.
struct World {
    agent_cli: bool,
    taken: Vec<u16>,
    logged_in: bool,
    spawn: Result<(), String>,
    sidecar_healthy: bool,
    bound_healthy: bool,
}

impl World {
    fn healthy() -> Self {
        World {
            agent_cli: true,
            taken: Vec::new(),
            logged_in: true,
            spawn: Ok(()),
            sidecar_healthy: true,
            bound_healthy: true,
        }
    }

    fn first_free(&self, from: u16, except: Option<u16>, wrap: bool) -> Option<u16> {
        let upward = (from..=u16::MAX).filter(|p| Some(*p) != except && !self.taken.contains(p));
        if wrap {
            upward
                .chain((1..from).filter(|p| Some(*p) != except && !self.taken.contains(p)))
                .next()
        } else {
            upward.into_iter().next()
        }
    }
}

/// Runs Start to its end against a simulated world; returns the result and
/// every action taken.
fn run_start<T: BridgeTokenStore, K: CursorApiKeyStore>(
    runtime: &mut BridgeRuntime<T, K>,
    world: &World,
) -> (Result<u16, StartError>, Vec<StartAction>) {
    let mut taken = Vec::new();
    let (mut stage, mut action) = runtime.begin_start();
    loop {
        let event = match &action {
            StartAction::ProbeAgentCli => StartEvent::AgentCli(world.agent_cli),
            StartAction::BindFrom(from) => StartEvent::BoundPort(world.first_free(*from, None, false)),
            StartAction::FindFreePort { from, except } => {
                StartEvent::SidecarPort(world.first_free(*from, Some(*except), true))
            }
            StartAction::ProbeLogin => StartEvent::LoggedIn(world.logged_in),
            StartAction::Spawn { .. } => StartEvent::Spawned(world.spawn.clone()),
            StartAction::WaitSidecarHealth { .. } => StartEvent::SidecarHealthy(world.sidecar_healthy),
            StartAction::ServeBound { .. } => StartEvent::BoundHealthy(world.bound_healthy),
            StartAction::Abort(_) | StartAction::Started(_) => {
                let last = action;
                let result = match &last {
                    StartAction::Started(p) => Ok(*p),
                    StartAction::Abort(e) => Err(clone_error(e)),
                    _ => unreachable!(),
                };
                taken.push(last);
                return (result, taken);
            }
        };
        taken.push(action);
        assert!(answers(&stage, &event), "each event answers its stage");
        let (next_stage, next_action) = runtime.start_step(stage, event);
        stage = next_stage;
        action = next_action;
        assert!(taken.len() < 32, "Start must finish");
        if matches!(stage, StartStage::Done) && !matches!(action, StartAction::Abort(_) | StartAction::Started(_)) {
            panic!("a finished Start must end in Abort or Started");
        }
    }
}

fn clone_error(e: &StartError) -> StartError {
    match e {
        StartError::AgentCliMissing { message } => StartError::AgentCliMissing { message: message.clone() },
        StartError::NoPortAvailable => StartError::NoPortAvailable,
        StartError::SidecarFailed { message } => StartError::SidecarFailed { message: message.clone() },
        StartError::HealthCheckTimeout => StartError::HealthCheckTimeout,
        StartError::CursorCredentialMissing { message } => {
            StartError::CursorCredentialMissing { message: message.clone() }
        }
    }
}

fn spawn_env(actions: &[StartAction]) -> Vec<(String, Option<String>)> {
    for action in actions {
        if let StartAction::Spawn { env, .. } = action {
            return env
                .iter()
                .map(|e| match e {
                    EnvSetting::Assign { name, value } => (name.clone(), Some(value.clone())),
                    EnvSetting::Remove { name } => (name.clone(), None),
                })
                .collect();
        }
    }
    panic!("no Spawn action in {actions:?}");
}

#[test]
fn start_is_refused_when_agent_cli_is_missing() {
    let mut runtime = BridgeRuntime::new(runtime_config("/nowhere", DEFAULT_PREFERRED_PORT));
    let world = World { agent_cli: false, ..World::healthy() };
    let (result, _) = run_start(&mut runtime, &world);
    let err = result.expect_err("Start must be refused without Agent CLI");
    match err {
        StartError::AgentCliMissing { message } => {
            assert!(
                message.contains("Agent CLI"),
                "refusal must name Agent CLI, got: {message}"
            );
        }
        other => panic!("expected AgentCliMissing, got {other:?}"),
    }
    assert_eq!(runtime.state(), BridgeState::Stopped);
}

#[test]
fn start_binds_loopback_when_agent_cli_is_on_path() {
    let mut runtime = BridgeRuntime::new(runtime_config("/bin", 45100));
    let (result, actions) = run_start(&mut runtime, &World::healthy());
    assert_eq!(result.unwrap(), 45100);
    assert_eq!(runtime.state(), BridgeState::Running { bound_port: 45100 });
    assert_eq!(runtime.bound_port(), Some(45100));
    let env = spawn_env(&actions);
    assert!(env.contains(&("CURSOR_BRIDGE_HOST".to_string(), Some("127.0.0.1".to_string()))));
    assert!(env.contains(&("CURSOR_BRIDGE_PORT".to_string(), Some("45101".to_string()))));
}

#[test]
fn start_uses_next_port_when_preferred_port_is_taken() {
    let mut runtime = BridgeRuntime::new(runtime_config("/bin", 45110));
    let world = World { taken: vec![45110], ..World::healthy() };
    let (result, _) = run_start(&mut runtime, &world);
    assert_eq!(result.expect("Start should fall back"), 45111);
}

#[test]
fn sidecar_port_wraps_below_the_bound_port_at_the_top() {
    let mut runtime = BridgeRuntime::new(runtime_config("/bin", 65535));
    let (result, actions) = run_start(&mut runtime, &World::healthy());
    assert_eq!(result.unwrap(), 65535);
    assert!(actions.iter().any(|a| matches!(a, StartAction::FindFreePort { from: 1, except: 65535 })));
    let env = spawn_env(&actions);
    assert!(env.contains(&("CURSOR_BRIDGE_PORT".to_string(), Some("1".to_string()))));
}

#[test]
fn first_start_generates_bridge_token_into_the_store() {
    let mut runtime = BridgeRuntime::new(runtime_config("/bin", 45150));
    assert!(!runtime.has_bridge_token().unwrap());
    run_start(&mut runtime, &World::healthy()).0.expect("Start should mint a Bridge Token");
    let saved = runtime.token_store().stored().expect("Bridge Token must be saved on first ready");
    assert_eq!(saved.len(), 64, "generated Bridge Token must be unguessable, got len {}", saved.len());
    assert!(saved.chars().all(|c| c.is_ascii_hexdigit() && !c.is_ascii_uppercase()));
    assert!(runtime.has_bridge_token().unwrap());
}

#[test]
fn start_reuses_a_stored_bridge_token() {
    let mut store = MemoryTokenStore::default();
    store.save("test-bridge-token-literal").unwrap();
    let mut runtime = BridgeRuntime::with_token_store(runtime_config("/bin", 45140), store);
    let (_, actions) = run_start(&mut runtime, &World::healthy());
    let env = spawn_env(&actions);
    assert!(env.contains(&(
        "CURSOR_BRIDGE_API_KEY".to_string(),
        Some("test-bridge-token-literal".to_string())
    )));
    assert_eq!(runtime.token_store().stored().as_deref(), Some("test-bridge-token-literal"));
}

#[test]
fn start_injects_stored_cursor_api_key_into_the_sidecar() {
    let mut runtime = BridgeRuntime::new(runtime_config("/bin", 45200));
    runtime.save_cursor_api_key("cursor-dashboard-key-literal").unwrap();
    let world = World { logged_in: false, ..World::healthy() };
    let (result, actions) = run_start(&mut runtime, &world);
    result.expect("Start with stored Cursor API Key");
    assert!(!actions.iter().any(|a| matches!(a, StartAction::ProbeLogin)));
    let env = spawn_env(&actions);
    assert!(env.contains(&("CURSOR_API_KEY".to_string(), Some("cursor-dashboard-key-literal".to_string()))));
    assert!(env.contains(&("CURSOR_AUTH_TOKEN".to_string(), Some("cursor-dashboard-key-literal".to_string()))));
    let secrets = actions
        .iter()
        .find_map(|a| match a {
            StartAction::ServeBound { record_secrets, .. } => Some(record_secrets.clone()),
            _ => None,
        })
        .unwrap();
    assert_eq!(secrets.len(), 2);
    assert_eq!(secrets[1], "cursor-dashboard-key-literal");
}

#[test]
fn start_without_cursor_api_key_when_agent_cli_is_logged_in() {
    let mut runtime = BridgeRuntime::new(runtime_config("/bin", 45240));
    let (result, actions) = run_start(&mut runtime, &World::healthy());
    result.expect("Start with Agent CLI login and no Cursor API Key");
    let env = spawn_env(&actions);
    assert!(env.contains(&("CURSOR_API_KEY".to_string(), None)));
    assert!(env.contains(&("CURSOR_AUTH_TOKEN".to_string(), None)));
}

#[test]
fn start_is_refused_without_cursor_api_key_or_agent_cli_login() {
    let mut runtime = BridgeRuntime::new(runtime_config("/bin", 45250));
    let world = World { logged_in: false, ..World::healthy() };
    let err = run_start(&mut runtime, &world)
        .0
        .expect_err("Start must be refused without Cursor API Key or Agent CLI login");
    match err {
        StartError::CursorCredentialMissing { message } => {
            assert!(message.contains("Cursor API Key"), "refusal must name Cursor API Key, got: {message}");
            assert!(message.contains("Agent CLI"), "refusal must name Agent CLI, got: {message}");
        }
        other => panic!("expected CursorCredentialMissing, got {other:?}"),
    }
    assert_eq!(runtime.state(), BridgeState::Stopped);
}

#[test]
fn no_free_port_is_reported() {
    let mut runtime = BridgeRuntime::new(runtime_config("/bin", 65535));
    let world = World { taken: vec![65535], ..World::healthy() };
    assert!(matches!(run_start(&mut runtime, &world).0, Err(StartError::NoPortAvailable)));
}

#[test]
fn spawn_failure_is_reported_with_its_cause() {
    let mut runtime = BridgeRuntime::new(runtime_config("/bin", 45260));
    let world = World { spawn: Err("not found".to_string()), ..World::healthy() };
    match run_start(&mut runtime, &world).0 {
        Err(StartError::SidecarFailed { message }) => {
            assert_eq!(message, "无法拉起 Bridge sidecar：not found")
        }
        other => panic!("expected SidecarFailed, got {other:?}"),
    }
    assert_eq!(runtime.state(), BridgeState::Stopped);
}

#[test]
fn health_timeouts_leave_the_bridge_stopped() {
    let mut runtime = BridgeRuntime::new(runtime_config("/bin", 45270));
    let world = World { sidecar_healthy: false, ..World::healthy() };
    assert!(matches!(run_start(&mut runtime, &world).0, Err(StartError::HealthCheckTimeout)));
    assert_eq!(runtime.state(), BridgeState::Stopped);
    let world = World { bound_healthy: false, ..World::healthy() };
    assert!(matches!(run_start(&mut runtime, &world).0, Err(StartError::HealthCheckTimeout)));
    assert_eq!(runtime.state(), BridgeState::Stopped);
}

struct FailingSaveStore;

impl BridgeTokenStore for FailingSaveStore {
    fn load(&self) -> Result<Option<String>, String> {
        Ok(None)
    }

    fn save(&mut self, _token: &str) -> Result<(), String> {
        Err("凭据库写入失败".into())
    }
}

#[test]
fn failed_start_does_not_leave_an_orphaned_sidecar() {
    let mut runtime = BridgeRuntime::with_token_store(runtime_config("/bin", 45420), FailingSaveStore);
    let (result, actions) = run_start(&mut runtime, &World::healthy());
    match result {
        Err(StartError::SidecarFailed { message }) => assert_eq!(message, "凭据库写入失败"),
        other => panic!("expected SidecarFailed, got {other:?}"),
    }
    assert!(actions.iter().any(|a| matches!(a, StartAction::Spawn { .. })));
    assert!(!actions.iter().any(|a| matches!(a, StartAction::ServeBound { .. })));
    assert!(matches!(actions.last(), Some(StartAction::Abort(_))));
    assert_eq!(runtime.state(), BridgeState::Stopped);
}

#[test]
fn health_distinguishes_missing_agent_cli_from_stopped() {
    let missing = BridgeRuntime::new(runtime_config("/nowhere", DEFAULT_PREFERRED_PORT));
    assert_eq!(missing.operator_health(false), OperatorHealth::AgentCliMissing);
    assert!(!missing.start_enabled(false));
    assert!(missing.start_block_reason(false).expect("block copy").contains("Agent CLI"));
    assert_eq!(missing.operator_health(true), OperatorHealth::Stopped);
    assert!(missing.start_enabled(true));
    assert!(missing.start_block_reason(true).is_none());
}

#[test]
fn health_is_running_only_while_bridge_is_up() {
    let mut runtime = BridgeRuntime::new(runtime_config("/bin", 45400));
    let bound = run_start(&mut runtime, &World::healthy()).0.unwrap();
    assert_eq!(runtime.operator_health(true), OperatorHealth::Running { bound_port: bound });
    assert!(!runtime.start_enabled(true));
    runtime.stop();
    assert_eq!(runtime.operator_health(true), OperatorHealth::Stopped);
    assert!(runtime.start_enabled(true));
}

#[test]
fn ensure_bridge_token_mints_without_starting_the_bridge() {
    let mut runtime = BridgeRuntime::new(runtime_config("/bin", 45410));
    assert!(!runtime.has_bridge_token().unwrap());
    let token = runtime
        .ensure_bridge_token()
        .expect("first successful setup must mint a Bridge Token");
    assert!(token.len() >= 32);
    assert_eq!(runtime.token_store().stored().as_deref(), Some(token.as_str()));
    assert_eq!(runtime.state(), BridgeState::Stopped);
    let again = runtime.ensure_bridge_token().unwrap();
    assert_eq!(again, token);
}

#[test]
fn caller_config_uses_bound_port_and_current_token() {
    let mut store = MemoryTokenStore::default();
    store.save("copy-me-bridge-token").unwrap();
    let mut runtime = BridgeRuntime::with_token_store(runtime_config("/bin", 45160), store);
    assert_eq!(
        runtime.caller_config().unwrap_err(),
        "Bridge 未启动，没有 Bound Port 可复制给 Caller。"
    );
    let world = World { taken: vec![45160], ..World::healthy() };
    let bound = run_start(&mut runtime, &world).0.expect("copy while running");
    let copy = runtime.caller_config().unwrap();
    assert!(
        copy.contains(&format!("http://127.0.0.1:{bound}/v1")),
        "copy text must use Bound Port Base URL, got: {copy}"
    );
    assert!(
        copy.contains("copy-me-bridge-token"),
        "copy text must include current Bridge Token, got: {copy}"
    );
    assert_eq!(copy, "Base URL: http://127.0.0.1:45161/v1\nBridge Token: copy-me-bridge-token");
}

#[test]
fn caller_display_omits_the_bridge_token() {
    let mut store = MemoryTokenStore::default();
    store.save("must-not-stay-on-screen").unwrap();
    let mut runtime = BridgeRuntime::with_token_store(runtime_config("/bin", 45430), store);
    let bound = run_start(&mut runtime, &World::healthy()).0.unwrap();
    let copy = runtime.caller_config().unwrap();
    assert!(copy.contains("must-not-stay-on-screen"));
    let display = runtime
        .caller_config_display()
        .expect("settings can show a Bound Port hint");
    assert!(
        display.contains(&format!("http://127.0.0.1:{bound}/v1")),
        "display must still show Base URL with Bound Port, got: {display}"
    );
    assert!(
        !display.contains("must-not-stay-on-screen"),
        "settings must not keep the Bridge Token on screen, got: {display}"
    );
}

#[test]
fn rotating_bridge_token_invalidates_the_old_one() {
    let mut store = MemoryTokenStore::default();
    store.save("old-bridge-token-literal").unwrap();
    let mut runtime = BridgeRuntime::with_token_store(runtime_config("/bin", 45170), store);
    let rotated = runtime.rotate_token().expect("rotate Bridge Token");
    assert_ne!(rotated, "old-bridge-token-literal");
    assert_eq!(rotated.len(), 64);
    assert_eq!(runtime.token_store().stored().as_deref(), Some(rotated.as_str()));
}

#[test]
fn credential_status_shows_saved_key_without_echoing_it() {
    let mut runtime = BridgeRuntime::new(runtime_config("/bin", 45220));
    runtime.save_cursor_api_key("  secret-cursor-api-key-literal \n").unwrap();
    assert_eq!(
        runtime.cursor_api_key_store().stored().as_deref(),
        Some("secret-cursor-api-key-literal")
    );
    let status = runtime.credential_status(false).expect("credential status");
    assert!(status.cursor_api_key_saved);
    assert!(!status.agent_cli_logged_in, "unauthenticated Agent CLI must not look logged in");
    assert!(
        !format!("{status:?}").contains("secret-cursor-api-key-literal"),
        "CredentialStatus must not echo the Cursor API Key"
    );
}

#[test]
fn credential_status_shows_agent_cli_login_without_requiring_a_key() {
    let runtime = BridgeRuntime::new(runtime_config("/bin", 45230));
    let status = runtime.credential_status(true).expect("credential status");
    assert!(!status.cursor_api_key_saved);
    assert!(status.agent_cli_logged_in);
}

#[test]
fn empty_cursor_api_key_is_refused() {
    let mut runtime = BridgeRuntime::new(runtime_config("/bin", 45230));
    assert_eq!(runtime.save_cursor_api_key(" \t\n").unwrap_err(), "Cursor API Key 不能为空。");
    assert!(runtime.cursor_api_key_store().stored().is_none());
    assert_eq!(normalized_cursor_api_key(" k "), Ok("k".to_string()));
}

#[test]
fn redetect_agent_cli_picks_up_a_new_path() {
    let files = ["/opt/cli/cursor-agent".to_string()];
    let exists = |dir: &str, name: &str| files.contains(&format!("{dir}/{name}"));
    let mut runtime = BridgeRuntime::new(runtime_config("/usr/bin", DEFAULT_PREFERRED_PORT));
    assert!(!runtime.agent_cli_present(&unix_style(), exists));
    assert!(
        runtime.redetect_agent_cli("/usr/bin:/opt/cli".to_string(), &unix_style(), exists),
        "re-detect must find Agent CLI after it appears on PATH"
    );
    assert!(runtime.agent_cli_present(&unix_style(), exists));
    assert_eq!(runtime.operator_health(true), OperatorHealth::Stopped);
}

#[test]
fn preferred_port_is_reread_from_app_data_by_a_new_runtime() {
    let mut first = BridgeRuntime::new(runtime_config("/bin", DEFAULT_PREFERRED_PORT));
    first.set_preferred_port(8777);
    assert_eq!(first.preferred_port(), 8777);
    assert_eq!(preferred_port_or(Some(8777), DEFAULT_PREFERRED_PORT), 8777);
    assert_eq!(preferred_port_or(Some(0), DEFAULT_PREFERRED_PORT), DEFAULT_PREFERRED_PORT);
    assert_eq!(preferred_port_or(None, 9000), 9000);
}

#[test]
fn start_error_messages_match_the_console_text() {
    assert_eq!(StartError::NoPortAvailable.message(), "从 Preferred Port 起没有可用端口");
    assert_eq!(StartError::HealthCheckTimeout.message(), "Bridge 启动后未能在超时内响应 /health");
    assert_eq!(
        StartError::AgentCliMissing { message: AGENT_CLI_MISSING_MESSAGE.to_string() }.message(),
        AGENT_CLI_MISSING_MESSAGE
    );
    assert_eq!(caller_config_for(8765, "t"), "Base URL: http://127.0.0.1:8765/v1\nBridge Token: t");
}

#[test]
fn memory_key_store_keeps_the_last_key() {
    let mut store = MemoryCursorApiKeyStore::default();
    assert_eq!(store.load(), Ok(None));
    store.save("a").unwrap();
    store.save("b").unwrap();
    assert_eq!(store.load(), Ok(Some("b".to_string())));
}

#[test]
fn stop_releases_the_bound_port() {
    let mut runtime = BridgeRuntime::new(runtime_config("/bin", 45120));
    let bound = run_start(&mut runtime, &World::healthy()).0.unwrap();
    assert_eq!(bound, 45120);
    runtime.stop();
    assert_eq!(runtime.state(), BridgeState::Stopped);
    assert!(runtime.bound_port().is_none());
}

#[test]
fn sidecar_port_step_follows_the_stores() {
    let (stage, action) = after_sidecar_port("/bin", 45100, 45101, Ok("tok".into()), Ok(Some("key".into())));
    assert!(matches!(stage, StartStage::AwaitSpawn { cursor_api_key: Some(ref k), .. } if k == "key"));
    assert!(matches!(action, StartAction::Spawn { sidecar_port: 45101, .. }));
    let (stage, action) = after_sidecar_port("/bin", 45100, 45101, Ok("tok".into()), Ok(Some(String::new())));
    assert!(matches!(stage, StartStage::AwaitLogin { ref token, .. } if token == "tok"));
    assert!(matches!(action, StartAction::ProbeLogin));
    let (_, action) = after_sidecar_port("/bin", 45100, 45101, Ok("tok".into()), Ok(None));
    assert!(matches!(action, StartAction::ProbeLogin));
    let (stage, action) = after_sidecar_port("/bin", 45100, 45101, Ok("tok".into()), Err("locked".into()));
    assert!(matches!(stage, StartStage::Done));
    assert!(matches!(action, StartAction::Abort(StartError::SidecarFailed { ref message }) if message == "locked"));
    let (_, action) = after_sidecar_port("/bin", 45100, 45101, Err("no random".into()), Ok(Some("key".into())));
    assert!(matches!(action, StartAction::Abort(StartError::SidecarFailed { ref message }) if message == "no random"));
}

#[test]
fn sidecar_health_step_keeps_the_token_first() {
    let (stage, action) = after_sidecar_health(45100, 45101, "tok", &Some("key".into()), Ok(()));
    assert!(matches!(stage, StartStage::AwaitBoundHealth { bound_port: 45100 }));
    match action {
        StartAction::ServeBound { bound_port, sidecar_port, record_secrets } => {
            assert_eq!((bound_port, sidecar_port), (45100, 45101));
            assert_eq!(record_secrets, vec!["tok".to_string(), "key".to_string()]);
        }
        other => panic!("expected ServeBound, got {other:?}"),
    }
    let (_, action) = after_sidecar_health(45100, 45101, "tok", &None, Err("write failed".into()));
    assert!(matches!(action, StartAction::Abort(StartError::SidecarFailed { ref message }) if message == "write failed"));
}

#[test]
fn the_sidecar_never_gets_the_bound_port() {
    let stage = StartStage::AwaitSidecarPort { bound_port: 45100 };
    assert!(!answers(&stage, &StartEvent::SidecarPort(Some(45100))));
    assert!(answers(&stage, &StartEvent::SidecarPort(Some(45101))));
    assert!(answers(&stage, &StartEvent::SidecarPort(None)));
}

#[test]
fn store_reads_are_interpreted_exactly() {
    assert_eq!(token_present(Ok(Some("t".into()))), Ok(true));
    assert_eq!(token_present(Ok(Some(String::new()))), Ok(false));
    assert_eq!(token_present(Ok(None)), Ok(false));
    assert_eq!(token_present(Err("locked".into())), Err("locked".to_string()));
    assert_eq!(
        caller_config_from(45100, Ok(Some("copy-me-bridge-token".into()))),
        Ok("Base URL: http://127.0.0.1:45100/v1\nBridge Token: copy-me-bridge-token".to_string())
    );
    assert_eq!(caller_config_from(45100, Ok(Some(String::new()))), Err("尚未生成 Bridge Token。".to_string()));
    assert_eq!(caller_config_from(45100, Ok(None)), Err("尚未生成 Bridge Token。".to_string()));
    assert_eq!(caller_config_from(45100, Err("locked".into())), Err("locked".to_string()));
    let s = credential_status_from(Ok(Some("k".into())), false).unwrap();
    assert!(s.cursor_api_key_saved && !s.agent_cli_logged_in);
    let s = credential_status_from(Ok(Some(String::new())), true).unwrap();
    assert!(!s.cursor_api_key_saved && s.agent_cli_logged_in);
    assert_eq!(credential_status_from(Err("locked".into()), true), Err("locked".to_string()));
}
