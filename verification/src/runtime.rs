//! The Bridge runtime: its state (Stopped, or Running on a Bound Port), the
//! Operator's health view, the Bridge Token and Cursor API Key, the Caller
//! configuration, and the decisions of Start as a state machine whose
//! outside work (probing files, binding ports, spawning the sidecar, waiting
//! for health) the Console performs and reports back.

use vstd::prelude::*;
use crate::path_search::{candidates_for, find_agent_cli, probed, PathStyle};
use crate::sidecar::{
    sidecar_env, sidecar_env_spec, log_secrets, sidecar_search_start, EnvSetting, env_view,
};
use crate::stores::{
    generate_bridge_token, is_minted_token, mint_failed_prefix, BridgeTokenStore,
    CursorApiKeyStore, MemoryCursorApiKeyStore, MemoryTokenStore,
};
use crate::text::{chars_of, decimal, decimal_string, push_str, string_from_range, trim, trim_bounds};

verus! {

/// The Preferred Port when the Operator has chosen none.
pub const DEFAULT_PREFERRED_PORT: u16 = 8765;

/// Largest size of the rolling Bridge log.
pub const MAX_LOG_BYTES: u64 = 2097152;

/// Why Start is refused without the Agent CLI.
pub const AGENT_CLI_MISSING_MESSAGE: &'static str = "未在 PATH 上找到 Agent CLI（cursor-agent 或 agent），无法 Start Bridge。";

/// How the Console runs the Bridge.
#[derive(Debug)]
pub struct RuntimeConfig {
    pub preferred_port: u16,
    pub path_env: String,
    pub sidecar_program: String,
    pub sidecar_args: Vec<String>,
    pub startup_timeout_ms: u64,
    pub log_path: Option<String>,
    pub summaries_path: Option<String>,
    pub max_log_bytes: u64,
    pub preferred_port_path: Option<String>,
}

/// Whether the Bridge runs.
#[derive(Debug, Clone, Copy, PartialEq, Eq, Structural)]
pub enum BridgeState {
    Stopped,
    Running { bound_port: u16 },
}

/// What the Operator sees of the Bridge.
#[derive(Debug, Clone, Copy, PartialEq, Eq, Structural)]
pub enum OperatorHealth {
    AgentCliMissing,
    Stopped,
    Running { bound_port: u16 },
}

/// Why Start failed.
#[derive(Debug)]
pub enum StartError {
    AgentCliMissing { message: String },
    NoPortAvailable,
    SidecarFailed { message: String },
    HealthCheckTimeout,
    CursorCredentialMissing { message: String },
}

/// Which credentials the Bridge can use.
#[derive(Debug, Clone, Copy, PartialEq, Eq, Structural)]
pub struct CredentialStatus {
    pub cursor_api_key_saved: bool,
    pub agent_cli_logged_in: bool,
}

/// The text of a Start error, as the Console shows it.
pub open spec fn start_error_text(e: StartError) -> Seq<char> {
    match e {
        StartError::AgentCliMissing { message } => message@,
        StartError::NoPortAvailable => "从 Preferred Port 起没有可用端口"@,
        StartError::SidecarFailed { message } => message@,
        StartError::HealthCheckTimeout => "Bridge 启动后未能在超时内响应 /health"@,
        StartError::CursorCredentialMissing { message } => message@,
    }
}

impl StartError {
    /// The text shown to the Operator.
    pub fn message(&self) -> (r: String)
        ensures
            r@ == start_error_text(*self),
    {
        match self {
            StartError::AgentCliMissing { message } => message.clone(),
            StartError::NoPortAvailable => "从 Preferred Port 起没有可用端口".to_owned(),
            StartError::SidecarFailed { message } => message.clone(),
            StartError::HealthCheckTimeout => "Bridge 启动后未能在超时内响应 /health".to_owned(),
            StartError::CursorCredentialMissing { message } => message.clone(),
        }
    }
}

/// Message: the Cursor API Key must not be empty.
pub open spec fn empty_key_message() -> Seq<char> {
    "Cursor API Key 不能为空。"@
}

/// Message: Start needs a Cursor API Key or a logged-in Agent CLI.
pub open spec fn credential_missing_message() -> Seq<char> {
    "需要 Cursor API Key 或已登录的 Agent CLI，才能 Start Bridge。"@
}

/// Message: no Bound Port while the Bridge is stopped.
pub open spec fn not_running_message() -> Seq<char> {
    "Bridge 未启动，没有 Bound Port 可复制给 Caller。"@
}

/// Message: no Bridge Token yet.
pub open spec fn no_token_message() -> Seq<char> {
    "尚未生成 Bridge Token。"@
}

/// Prefix of a sidecar spawn failure.
pub open spec fn spawn_failed_prefix() -> Seq<char> {
    "无法拉起 Bridge sidecar："@
}

/// The Base URL line for a Bound Port.
pub open spec fn base_url_line(port: nat) -> Seq<char> {
    "Base URL: http://127.0.0.1:"@ + decimal(port) + "/v1\nBridge Token: "@
}

/// The Caller configuration copied to the clipboard.
pub open spec fn caller_config_text(port: nat, token: Seq<char>) -> Seq<char> {
    base_url_line(port) + token
}

/// The Caller configuration shown in the window: the token is not displayed.
pub open spec fn caller_display_text(port: nat) -> Seq<char> {
    base_url_line(port) + "（点「复制 Caller 配置」写入剪贴板，不在此窗长期显示）"@
}

/// What a token store's answer means for Start: use the stored token,
/// mint a new one, or fail with the store's error.
pub enum TokenChoice {
    Use(String),
    Mint,
    Fail(String),
}

/// A stored token when there is a non-empty one, else mint; a store error fails.
pub fn token_choice(loaded: Result<Option<String>, String>) -> (r: TokenChoice)
    ensures
        match loaded {
            Err(e) => r matches TokenChoice::Fail(m) && m@ == e@,
            Ok(Some(t)) => if t@.len() > 0 {
                r matches TokenChoice::Use(u) && u@ == t@
            } else {
                r is Mint
            },
            Ok(None) => r is Mint,
        },
{
    match loaded {
        Err(e) => TokenChoice::Fail(e),
        Ok(Some(t)) => if t.as_str().is_empty() {
            TokenChoice::Mint
        } else {
            TokenChoice::Use(t)
        },
        Ok(None) => TokenChoice::Mint,
    }
}

/// A stored secret that counts: present and not empty.
pub fn present_secret(loaded: Result<Option<String>, String>) -> (r: Result<Option<String>, String>)
    ensures
        match loaded {
            Err(e) => r matches Err(m) && m@ == e@,
            Ok(Some(t)) => if t@.len() > 0 {
                r matches Ok(Some(u)) && u@ == t@
            } else {
                r matches Ok(None)
            },
            Ok(None) => r matches Ok(None),
        },
{
    match loaded {
        Err(e) => Err(e),
        Ok(Some(t)) => if t.as_str().is_empty() {
            Ok(None)
        } else {
            Ok(Some(t))
        },
        Ok(None) => Ok(None),
    }
}

/// Whether the token must be saved: not when the store already holds it.
pub fn token_needs_save(loaded: &Result<Option<String>, String>, token: &str) -> (r: Result<
    bool,
    String,
>)
    ensures
        match loaded {
            Err(e) => r matches Err(m) && m@ == e@,
            Ok(Some(t)) => r == Ok::<bool, String>(t@ != token@),
            Ok(None) => r == Ok::<bool, String>(true),
        },
{
    match loaded {
        Err(e) => Err(e.clone()),
        Ok(Some(t)) => Ok(!crate::text::same_text(t.as_str(), token)),
        Ok(None) => Ok(true),
    }
}

/// The Cursor API Key as saved: trimmed, and refused when nothing is left.
pub fn normalized_cursor_api_key(key: &str) -> (r: Result<String, String>)
    ensures
        trim(key@).len() == 0 ==> (r matches Err(e) && e@ == empty_key_message()),
        trim(key@).len() > 0 ==> (r matches Ok(k) && k@ == trim(key@)),
{
    let v = chars_of(key);
    let (a, b) = trim_bounds(&v, 0, v.len());
    assert(v@.subrange(0, v@.len() as int) =~= v@);
    if a == b {
        return Err("Cursor API Key 不能为空。".to_owned());
    }
    Ok(string_from_range(&v, a, b))
}

/// The Preferred Port read back from App Data, when it is a real port.
pub fn preferred_port_or(stored: Option<u16>, fallback: u16) -> (p: u16)
    ensures
        p == (match stored {
            Some(s) => if s > 0 { s } else { fallback },
            None => fallback,
        }),
{
    match stored {
        Some(s) => if s > 0 {
            s
        } else {
            fallback
        },
        None => fallback,
    }
}

// ---------------------------------------------------------------------------
// Start as a state machine
// ---------------------------------------------------------------------------

/// Where a Start attempt stands.
#[derive(Debug)]
pub enum StartStage {
    AwaitAgentCli,
    AwaitBoundPort,
    AwaitSidecarPort { bound_port: u16 },
    AwaitLogin { bound_port: u16, sidecar_port: u16, token: String },
    AwaitSpawn { bound_port: u16, sidecar_port: u16, token: String, cursor_api_key: Option<String> },
    AwaitSidecarHealth {
        bound_port: u16,
        sidecar_port: u16,
        token: String,
        cursor_api_key: Option<String>,
    },
    AwaitBoundHealth { bound_port: u16 },
    Done,
}

/// What the Console found out, doing the last action.
#[derive(Debug)]
pub enum StartEvent {
    /// Whether the Agent CLI is on `PATH`.
    AgentCli(bool),
    /// The Bound Port bound on loopback, if any port was free.
    BoundPort(Option<u16>),
    /// A free port for the sidecar, if any.
    SidecarPort(Option<u16>),
    /// Whether the Agent CLI reports a login.
    LoggedIn(bool),
    /// Whether the sidecar process started, with the failure text.
    Spawned(Result<(), String>),
    /// Whether the sidecar answered its health check in time.
    SidecarHealthy(bool),
    /// Whether the Bound Port answered its health check in time.
    BoundHealthy(bool),
}

/// What the Console does next for Start.
#[derive(Debug)]
pub enum StartAction {
    /// Look for the Agent CLI on `PATH`.
    ProbeAgentCli,
    /// Bind loopback on the first free port from this one upward.
    BindFrom(u16),
    /// Find a free port for the sidecar from `from`, wrapping, but not `except`.
    FindFreePort { from: u16, except: u16 },
    /// Run `agent status` to see whether the Agent CLI is logged in.
    ProbeLogin,
    /// Start the sidecar on this port with this environment, masking these
    /// secrets in its log.
    Spawn { sidecar_port: u16, env: Vec<EnvSetting>, log_secrets: Vec<String> },
    /// Wait for the sidecar's health check.
    WaitSidecarHealth { sidecar_port: u16 },
    /// Mask these secrets in Request Summaries, forward the Bound Port to the
    /// sidecar, and wait for the Bound Port's health check.
    ServeBound { bound_port: u16, sidecar_port: u16, record_secrets: Vec<String> },
    /// Give up: release everything acquired for this attempt.
    Abort(StartError),
    /// The Bridge runs on this Bound Port.
    Started(u16),
}

/// The event that answers a stage's action.
pub open spec fn event_fits(stage: StartStage, event: StartEvent) -> bool {
    match stage {
        StartStage::AwaitAgentCli => event is AgentCli,
        StartStage::AwaitBoundPort => event is BoundPort,
        StartStage::AwaitSidecarPort { bound_port } => event matches StartEvent::SidecarPort(p) && (
        p matches Some(s) ==> s != bound_port),
        StartStage::AwaitLogin { .. } => event is LoggedIn,
        StartStage::AwaitSpawn { .. } => event is Spawned,
        StartStage::AwaitSidecarHealth { .. } => event is SidecarHealthy,
        StartStage::AwaitBoundHealth { .. } => event is BoundHealthy,
        StartStage::Done => false,
    }
}

/// Whether `event` answers the action of `stage`; the Console checks this
/// before it hands an event to `start_step`.
pub fn answers(stage: &StartStage, event: &StartEvent) -> (b: bool)
    ensures
        b == event_fits(*stage, *event),
{
    match stage {
        StartStage::AwaitAgentCli => matches!(event, StartEvent::AgentCli(_)),
        StartStage::AwaitBoundPort => matches!(event, StartEvent::BoundPort(_)),
        StartStage::AwaitSidecarPort { bound_port } => match event {
            StartEvent::SidecarPort(p) => match p {
                Some(s) => *s != *bound_port,
                None => true,
            },
            _ => false,
        },
        StartStage::AwaitLogin { .. } => matches!(event, StartEvent::LoggedIn(_)),
        StartStage::AwaitSpawn { .. } => matches!(event, StartEvent::Spawned(_)),
        StartStage::AwaitSidecarHealth { .. } => matches!(event, StartEvent::SidecarHealthy(_)),
        StartStage::AwaitBoundHealth { .. } => matches!(event, StartEvent::BoundHealthy(_)),
        StartStage::Done => false,
    }
}

/// An optional string's view.
pub open spec fn opt_view(o: Option<String>) -> Option<Seq<char>> {
    match o {
        Some(s) => Some(s@),
        None => None,
    }
}

/// A spawn action for these values.
pub open spec fn is_spawn(
    a: StartAction,
    path_env: Seq<char>,
    sidecar_port: u16,
    token: Seq<char>,
    key: Option<Seq<char>>,
) -> bool {
    &&& a matches StartAction::Spawn { sidecar_port: p, env, log_secrets }
    &&& p == sidecar_port
    &&& env@.map_values(|e: EnvSetting| env_view(e)) == sidecar_env_spec(
        path_env,
        sidecar_port as nat,
        token,
        key,
    )
    &&& log_secrets@.map_values(|s: String| s@) == (match key {
        Some(k) => seq![token, k],
        None => seq![token],
    })
}

/// The view of a result that carries a text either way.
pub open spec fn text_result_view(r: Result<String, String>) -> Result<Seq<char>, Seq<char>> {
    match r {
        Ok(t) => Ok(t@),
        Err(e) => Err(e@),
    }
}

/// The view of what a store's `load` returned.
pub open spec fn loaded_view(l: Result<Option<String>, String>) -> Result<Option<Seq<char>>, Seq<char>> {
    match l {
        Ok(Some(t)) => Ok(Some(t@)),
        Ok(None) => Ok(None),
        Err(e) => Err(e@),
    }
}

/// The view of a result without a value.
pub open spec fn unit_result_view(r: Result<(), String>) -> Result<(), Seq<char>> {
    match r {
        Ok(()) => Ok(()),
        Err(e) => Err(e@),
    }
}

/// Where Start goes once a port for the sidecar is found, from the Bridge
/// Token (or the text of why there is none) and what the Cursor API Key
/// store's `load` returned: a store or minting error aborts with its text; a
/// non-empty key spawns the sidecar with it; otherwise the Agent CLI's login
/// is probed.
pub open spec fn sidecar_port_outcome(
    stage: StartStage,
    action: StartAction,
    path_env: Seq<char>,
    bound_port: u16,
    sidecar_port: u16,
    token: Result<Seq<char>, Seq<char>>,
    key: Result<Option<Seq<char>>, Seq<char>>,
) -> bool {
    match token {
        Err(e) => stage is Done && (action matches StartAction::Abort(StartError::SidecarFailed { message })
            && message@ == e),
        Ok(t) => match key {
            Err(m) => stage is Done && (action matches StartAction::Abort(
                StartError::SidecarFailed { message },
            ) && message@ == m),
            Ok(o) => if o is Some && o->0.len() > 0 {
                &&& stage matches StartStage::AwaitSpawn {
                    bound_port: b,
                    sidecar_port: s,
                    token: t2,
                    cursor_api_key: Some(k2),
                }
                &&& b == bound_port && s == sidecar_port && t2@ == t && k2@ == o->0
                &&& is_spawn(action, path_env, sidecar_port, t, Some(o->0))
            } else {
                &&& stage matches StartStage::AwaitLogin { bound_port: b, sidecar_port: s, token: t2 }
                &&& b == bound_port && s == sidecar_port && t2@ == t
                &&& action is ProbeLogin
            },
        },
    }
}

/// Where Start goes once the sidecar is healthy, from whether the Bridge
/// Token could be kept in its store: a store error aborts with its text;
/// otherwise the Bound Port is served with the token and key masked.
pub open spec fn sidecar_health_outcome(
    stage: StartStage,
    action: StartAction,
    bound_port: u16,
    sidecar_port: u16,
    token: Seq<char>,
    key: Option<Seq<char>>,
    persisted: Result<(), Seq<char>>,
) -> bool {
    match persisted {
        Err(m) => stage is Done && (action matches StartAction::Abort(StartError::SidecarFailed { message })
            && message@ == m),
        Ok(()) => {
            &&& stage == StartStage::AwaitBoundHealth { bound_port }
            &&& action matches StartAction::ServeBound { bound_port: b, sidecar_port: s, record_secrets }
            &&& b == bound_port && s == sidecar_port
            &&& record_secrets@.map_values(|x: String| x@) == (match key {
                Some(k) => seq![token, k],
                None => seq![token],
            })
        },
    }
}

/// The spawn action for the sidecar port, token and key.
fn spawn_action_for(path_env: &str, sidecar_port: u16, token: &str, key: Option<&str>) -> (a: StartAction)
    ensures
        is_spawn(
            a,
            path_env@,
            sidecar_port,
            token@,
            match key {
                Some(k) => Some(k@),
                None => None,
            },
        ),
{
    let env = sidecar_env(path_env, sidecar_port, token, key);
    let secrets = log_secrets(token, key);
    StartAction::Spawn { sidecar_port, env, log_secrets: secrets }
}

/// The step of Start after a sidecar port is found, from the Bridge Token (or
/// why there is none) and what the Cursor API Key store's `load` returned.
pub fn after_sidecar_port(
    path_env: &str,
    bound_port: u16,
    sidecar_port: u16,
    token: Result<String, String>,
    loaded_key: Result<Option<String>, String>,
) -> (r: (StartStage, StartAction))
    ensures
        sidecar_port_outcome(
            r.0,
            r.1,
            path_env@,
            bound_port,
            sidecar_port,
            text_result_view(token),
            loaded_view(loaded_key),
        ),
{
    let token = match token {
        Ok(t) => t,
        Err(message) => {
            return (StartStage::Done, StartAction::Abort(StartError::SidecarFailed { message }));
        },
    };
    let key = match present_secret(loaded_key) {
        Ok(k) => k,
        Err(message) => {
            return (StartStage::Done, StartAction::Abort(StartError::SidecarFailed { message }));
        },
    };
    match key {
        None => (StartStage::AwaitLogin { bound_port, sidecar_port, token }, StartAction::ProbeLogin),
        Some(k) => {
            let action = spawn_action_for(path_env, sidecar_port, token.as_str(), Some(k.as_str()));
            (
                StartStage::AwaitSpawn { bound_port, sidecar_port, token, cursor_api_key: Some(k) },
                action,
            )
        },
    }
}

/// The step of Start after the sidecar answered its health check, from
/// whether the Bridge Token could be kept in its store.
pub fn after_sidecar_health(
    bound_port: u16,
    sidecar_port: u16,
    token: &str,
    key: &Option<String>,
    persisted: Result<(), String>,
) -> (r: (StartStage, StartAction))
    ensures
        sidecar_health_outcome(
            r.0,
            r.1,
            bound_port,
            sidecar_port,
            token@,
            opt_view(*key),
            unit_result_view(persisted),
        ),
{
    match persisted {
        Err(message) => (StartStage::Done, StartAction::Abort(StartError::SidecarFailed { message })),
        Ok(()) => {
            let secrets = match key {
                Some(k) => log_secrets(token, Some(k.as_str())),
                None => log_secrets(token, None),
            };
            (
                StartStage::AwaitBoundHealth { bound_port },
                StartAction::ServeBound { bound_port, sidecar_port, record_secrets: secrets },
            )
        },
    }
}

/// `token` is the Bridge Token that Start uses, given what the token store's
/// `load` returned: the stored token when it is not empty, else a newly
/// minted one (64 lower-case hex digits); a store error leaves none.
pub open spec fn token_resolved(loaded: Result<Option<String>, String>, token: Seq<char>) -> bool {
    match loaded {
        Err(_) => false,
        Ok(Some(t)) => if t@.len() > 0 {
            token == t@
        } else {
            is_minted_token(token)
        },
        Ok(None) => is_minted_token(token),
    }
}

/// `r` answers whether a token store holds a Bridge Token, given what its
/// `load` returned: a store error comes back as it is; a stored token counts
/// when it is not empty.
pub open spec fn token_present_rel(loaded: Result<Option<String>, String>, r: Result<bool, String>) -> bool {
    match loaded {
        Err(m) => r matches Err(e) && e@ == m@,
        Ok(Some(t)) => r == Ok::<bool, String>(t@.len() > 0),
        Ok(None) => r == Ok::<bool, String>(false),
    }
}

/// `r` is the Caller configuration for a Bound Port, given what the token
/// store's `load` returned: a store error comes back as it is; a missing or
/// empty token is refused; a token gives the Base URL and that token.
pub open spec fn caller_config_rel(bound_port: u16, loaded: Result<Option<String>, String>, r: Result<String, String>) -> bool {
    match loaded {
        Err(m) => r matches Err(e) && e@ == m@,
        Ok(Some(t)) => if t@.len() > 0 {
            r matches Ok(c) && c@ == caller_config_text(bound_port as nat, t@)
        } else {
            r matches Err(e) && e@ == no_token_message()
        },
        Ok(None) => r matches Err(e) && e@ == no_token_message(),
    }
}

/// `r` is the credential status, given what the key store's `load` returned
/// and the Agent CLI's login: a store error comes back as it is; a key counts
/// as saved when it is present and not empty.
pub open spec fn credential_status_rel(
    loaded: Result<Option<String>, String>,
    agent_cli_logged_in: bool,
    r: Result<CredentialStatus, String>,
) -> bool {
    match loaded {
        Err(m) => r matches Err(e) && e@ == m@,
        Ok(o) => r matches Ok(s) && s.cursor_api_key_saved == (o is Some && o->0@.len() > 0)
            && s.agent_cli_logged_in == agent_cli_logged_in,
    }
}

/// Whether a token store holds a Bridge Token, from what its `load` returned:
/// a store error comes back as it is; a stored token counts when it is not empty.
pub fn token_present(loaded: Result<Option<String>, String>) -> (r: Result<bool, String>)
    ensures
        token_present_rel(loaded, r),
{
    match loaded {
        Err(m) => Err(m),
        Ok(Some(t)) => Ok(!t.as_str().is_empty()),
        Ok(None) => Ok(false),
    }
}

/// The Caller configuration for a Bound Port, from what the token store's
/// `load` returned: a store error comes back as it is; a missing or empty
/// token is refused; a token gives the Base URL and that token.
pub fn caller_config_from(bound_port: u16, loaded: Result<Option<String>, String>) -> (r: Result<
    String,
    String,
>)
    ensures
        caller_config_rel(bound_port, loaded, r),
{
    match present_secret(loaded) {
        Err(m) => Err(m),
        Ok(Some(t)) => Ok(caller_config_for(bound_port, t.as_str())),
        Ok(None) => Err("尚未生成 Bridge Token。".to_owned()),
    }
}

/// The credential status, from what the key store's `load` returned and the
/// Agent CLI's login: a store error comes back as it is; a key counts as
/// saved when it is present and not empty.
pub fn credential_status_from(loaded: Result<Option<String>, String>, agent_cli_logged_in: bool) -> (r:
    Result<CredentialStatus, String>)
    ensures
        credential_status_rel(loaded, agent_cli_logged_in, r),
{
    match present_secret(loaded) {
        Err(m) => Err(m),
        Ok(k) => Ok(CredentialStatus { cursor_api_key_saved: k.is_some(), agent_cli_logged_in }),
    }
}

/// The Bridge runtime: its configuration, its stores and its Bound Port.
pub struct BridgeRuntime<T: BridgeTokenStore, K: CursorApiKeyStore> {
    config: RuntimeConfig,
    token_store: T,
    cursor_api_key_store: K,
    bound_port: Option<u16>,
}

impl BridgeRuntime<MemoryTokenStore, MemoryCursorApiKeyStore> {
    /// A stopped runtime with in-memory stores.
    pub fn new(config: RuntimeConfig) -> (r: Self)
        ensures
            r.bound_port_view() is None,
            r.config_view() == config,
            r.preferred_port_view() == config.preferred_port,
            r.path_env_view() == config.path_env@,
            r.token_store_view().stored_view() is None,
            r.cursor_api_key_store_view().stored_view() is None,
    {
        BridgeRuntime::with_stores(config, MemoryTokenStore::new(), MemoryCursorApiKeyStore::new())
    }
}

impl<T: BridgeTokenStore> BridgeRuntime<T, MemoryCursorApiKeyStore> {
    /// A stopped runtime with this token store and an in-memory key store.
    pub fn with_token_store(config: RuntimeConfig, token_store: T) -> (r: Self)
        ensures
            r.bound_port_view() is None,
            r.config_view() == config,
            r.preferred_port_view() == config.preferred_port,
            r.path_env_view() == config.path_env@,
            r.token_store_view() == token_store,
            r.cursor_api_key_store_view().stored_view() is None,
    {
        BridgeRuntime::with_stores(config, token_store, MemoryCursorApiKeyStore::new())
    }
}

impl<T: BridgeTokenStore, K: CursorApiKeyStore> BridgeRuntime<T, K> {
    /// The configuration held.
    pub closed spec fn config_view(self) -> RuntimeConfig {
        self.config
    }

    /// The Bound Port while running.
    pub closed spec fn bound_port_view(self) -> Option<u16> {
        self.bound_port
    }

    /// The Preferred Port.
    pub closed spec fn preferred_port_view(self) -> u16 {
        self.config.preferred_port
    }

    /// The `PATH` the Agent CLI is looked for on.
    pub closed spec fn path_env_view(self) -> Seq<char> {
        self.config.path_env@
    }

    /// The Bridge Token store held.
    pub closed spec fn token_store_view(self) -> T {
        self.token_store
    }

    /// The Cursor API Key store held.
    pub closed spec fn cursor_api_key_store_view(self) -> K {
        self.cursor_api_key_store
    }

    /// A stopped runtime with these stores.
    pub fn with_stores(config: RuntimeConfig, token_store: T, cursor_api_key_store: K) -> (r: Self)
        ensures
            r.token_store_view() == token_store,
            r.cursor_api_key_store_view() == cursor_api_key_store,
            r.config_view() == config,
            r.bound_port_view() is None,
            r.preferred_port_view() == config.preferred_port,
            r.path_env_view() == config.path_env@,
    {
        BridgeRuntime { config, token_store, cursor_api_key_store, bound_port: None }
    }

    /// The configuration.
    pub fn config(&self) -> (c: &RuntimeConfig)
        ensures
            *c == self.config_view(),
            c.preferred_port == self.preferred_port_view(),
            c.path_env@ == self.path_env_view(),
    {
        &self.config
    }

    /// The Bridge Token store.
    pub fn token_store(&self) -> (s: &T)
        ensures
            *s == self.token_store_view(),
    {
        &self.token_store
    }

    /// The Cursor API Key store.
    pub fn cursor_api_key_store(&self) -> (s: &K)
        ensures
            *s == self.cursor_api_key_store_view(),
    {
        &self.cursor_api_key_store
    }

    /// Stopped, or Running on the Bound Port.
    pub fn state(&self) -> (s: BridgeState)
        ensures
            s == (match self.bound_port_view() {
                Some(p) => BridgeState::Running { bound_port: p },
                None => BridgeState::Stopped,
            }),
    {
        match self.bound_port {
            Some(bound_port) => BridgeState::Running { bound_port },
            None => BridgeState::Stopped,
        }
    }

    /// The Bound Port while running.
    pub fn bound_port(&self) -> (p: Option<u16>)
        ensures
            p == self.bound_port_view(),
    {
        self.bound_port
    }

    /// The Preferred Port.
    pub fn preferred_port(&self) -> (p: u16)
        ensures
            p == self.preferred_port_view(),
    {
        self.config.preferred_port
    }

    /// Sets the Preferred Port (the Console also keeps it in App Data).
    pub fn set_preferred_port(&mut self, preferred_port: u16)
        ensures
            final(self).preferred_port_view() == preferred_port,
            final(self).config_view() == (RuntimeConfig { preferred_port, ..old(self).config_view() }),
            final(self).token_store_view() == old(self).token_store_view(),
            final(self).cursor_api_key_store_view() == old(self).cursor_api_key_store_view(),
            final(self).bound_port_view() == old(self).bound_port_view(),
            final(self).path_env_view() == old(self).path_env_view(),
    {
        self.config.preferred_port = preferred_port;
    }

    /// Whether the Agent CLI is on the configured `PATH`.
    pub fn agent_cli_present<F: Fn(&str, &str) -> bool>(&self, style: &PathStyle, is_file: F) -> (b: bool)
        requires
            forall|d: &str, n: &str| is_file.requires((d, n)),
        ensures
            ({
                let first = candidates_for(self.path_env_view(), "cursor-agent"@, *style);
                let second = candidates_for(self.path_env_view(), "agent"@, *style);
                &&& b ==> (exists|k: int| 0 <= k < first.len() && probed(is_file, #[trigger] first[k], true))
                    || (exists|k: int| 0 <= k < second.len() && probed(is_file, #[trigger] second[k], true))
                &&& !b ==> (forall|k: int| 0 <= k < first.len() ==> probed(is_file, #[trigger] first[k], false))
                    && (forall|k: int| 0 <= k < second.len() ==> probed(is_file, #[trigger] second[k], false))
            }),
    {
        let path = self.config.path_env.as_str();
        assert(path@ == self.path_env_view());
        let found = find_agent_cli(path, style, is_file);
        found.is_some()
    }

    /// Takes a new `PATH` and looks for the Agent CLI on it again.
    pub fn redetect_agent_cli<F: Fn(&str, &str) -> bool>(
        &mut self,
        path_env: String,
        style: &PathStyle,
        is_file: F,
    ) -> (b: bool)
        requires
            forall|d: &str, n: &str| is_file.requires((d, n)),
        ensures
            final(self).path_env_view() == path_env@,
            final(self).config_view() == (RuntimeConfig { path_env, ..old(self).config_view() }),
            final(self).token_store_view() == old(self).token_store_view(),
            final(self).cursor_api_key_store_view() == old(self).cursor_api_key_store_view(),
            final(self).bound_port_view() == old(self).bound_port_view(),
            final(self).preferred_port_view() == old(self).preferred_port_view(),
            ({
                let first = candidates_for(path_env@, "cursor-agent"@, *style);
                let second = candidates_for(path_env@, "agent"@, *style);
                &&& b ==> (exists|k: int| 0 <= k < first.len() && probed(is_file, #[trigger] first[k], true))
                    || (exists|k: int| 0 <= k < second.len() && probed(is_file, #[trigger] second[k], true))
                &&& !b ==> (forall|k: int| 0 <= k < first.len() ==> probed(is_file, #[trigger] first[k], false))
                    && (forall|k: int| 0 <= k < second.len() ==> probed(is_file, #[trigger] second[k], false))
            }),
    {
        self.config.path_env = path_env;
        self.agent_cli_present(style, is_file)
    }

    /// The Operator's view: Running on the Bound Port; when stopped, whether
    /// the Agent CLI is missing.
    pub fn operator_health(&self, agent_cli_present: bool) -> (h: OperatorHealth)
        ensures
            h == (match self.bound_port_view() {
                Some(p) => OperatorHealth::Running { bound_port: p },
                None => if agent_cli_present {
                    OperatorHealth::Stopped
                } else {
                    OperatorHealth::AgentCliMissing
                },
            }),
    {
        match self.state() {
            BridgeState::Running { bound_port } => OperatorHealth::Running { bound_port },
            BridgeState::Stopped => if !agent_cli_present {
                OperatorHealth::AgentCliMissing
            } else {
                OperatorHealth::Stopped
            },
        }
    }

    /// Start is offered when the Bridge is stopped and the Agent CLI is present.
    pub fn start_enabled(&self, agent_cli_present: bool) -> (b: bool)
        ensures
            b == (self.bound_port_view() is None && agent_cli_present),
    {
        self.bound_port.is_none() && agent_cli_present
    }

    /// Why Start is not offered: the Agent CLI is missing.
    pub fn start_block_reason(&self, agent_cli_present: bool) -> (r: Option<String>)
        ensures
            agent_cli_present ==> r is None,
            !agent_cli_present ==> (r matches Some(m) && m@ == AGENT_CLI_MISSING_MESSAGE@),
    {
        if agent_cli_present {
            None
        } else {
            Some(AGENT_CLI_MISSING_MESSAGE.to_owned())
        }
    }

    /// The stored Bridge Token if there is one, else a newly minted one.
    fn resolve_bridge_token(&self) -> (r: Result<String, String>)
        ensures
            r matches Ok(t) ==> t@.len() > 0,
            r matches Ok(t) ==> exists|l: Result<Option<String>, String>|
                #![trigger call_ensures(T::load, (&self.token_store_view(),), l)]
                call_ensures(T::load, (&self.token_store_view(),), l) && token_resolved(l, t@),
    {
        let loaded = self.token_store.load();
        let ghost l = loaded;
        assert(call_ensures(T::load, (&self.token_store_view(),), l));
        match token_choice(loaded) {
            TokenChoice::Use(t) => Ok(t),
            TokenChoice::Mint => generate_bridge_token(),
            TokenChoice::Fail(message) => Err(message),
        }
    }

    /// Saves `token` unless the store already holds it.
    fn persist_bridge_token(&mut self, token: &str) -> (r: Result<(), String>)
        ensures
            final(self).config_view() == old(self).config_view(),
            final(self).cursor_api_key_store_view() == old(self).cursor_api_key_store_view(),
            final(self).bound_port_view() == old(self).bound_port_view(),
            final(self).preferred_port_view() == old(self).preferred_port_view(),
            final(self).path_env_view() == old(self).path_env_view(),
    {
        let loaded = self.token_store.load();
        match token_needs_save(&loaded, token) {
            Err(message) => Err(message),
            Ok(false) => Ok(()),
            Ok(true) => self.token_store.save(token),
        }
    }

    /// Makes sure a Bridge Token exists (minting one when needed) without
    /// starting the Bridge, and returns it.
    pub fn ensure_bridge_token(&mut self) -> (r: Result<String, StartError>)
        ensures
            r matches Ok(t) ==> t@.len() > 0,
            r matches Ok(t) ==> exists|l: Result<Option<String>, String>|
                #![trigger call_ensures(T::load, (&old(self).token_store_view(),), l)]
                call_ensures(T::load, (&old(self).token_store_view(),), l) && token_resolved(l, t@),
            r matches Err(e) ==> e is SidecarFailed,
            final(self).bound_port_view() == old(self).bound_port_view(),
            final(self).preferred_port_view() == old(self).preferred_port_view(),
    {
        let token = match self.resolve_bridge_token() {
            Ok(t) => t,
            Err(message) => return Err(StartError::SidecarFailed { message }),
        };
        match self.persist_bridge_token(token.as_str()) {
            Ok(()) => Ok(token),
            Err(message) => Err(StartError::SidecarFailed { message }),
        }
    }

    /// Whether a non-empty Bridge Token is stored.
    pub fn has_bridge_token(&self) -> (r: Result<bool, String>)
        ensures
            exists|l: Result<Option<String>, String>|
                #![trigger call_ensures(T::load, (&self.token_store_view(),), l)]
                call_ensures(T::load, (&self.token_store_view(),), l) && token_present_rel(l, r),
    {
        let loaded = self.token_store.load();
        let ghost l = loaded;
        let r = token_present(loaded);
        assert(call_ensures(T::load, (&self.token_store_view(),), l));
        r
    }

    /// Saves the Cursor API Key, trimmed; an empty key is refused before
    /// the store is touched.
    pub fn save_cursor_api_key(&mut self, key: &str) -> (r: Result<(), String>)
        ensures
            trim(key@).len() == 0 ==> (r matches Err(e) && e@ == empty_key_message()),
            final(self).bound_port_view() == old(self).bound_port_view(),
            final(self).preferred_port_view() == old(self).preferred_port_view(),
    {
        let key = normalized_cursor_api_key(key)?;
        self.cursor_api_key_store.save(key.as_str())
    }

    /// Whether a Cursor API Key is saved, with the Agent CLI's login state.
    /// The key itself is not returned.
    pub fn credential_status(&self, agent_cli_logged_in: bool) -> (r: Result<CredentialStatus, String>)
        ensures
            r matches Ok(s) ==> s.agent_cli_logged_in == agent_cli_logged_in,
            exists|l: Result<Option<String>, String>|
                #![trigger call_ensures(K::load, (&self.cursor_api_key_store_view(),), l)]
                call_ensures(K::load, (&self.cursor_api_key_store_view(),), l) && credential_status_rel(
                    l,
                    agent_cli_logged_in,
                    r,
                ),
    {
        let loaded = self.cursor_api_key_store.load();
        let ghost l = loaded;
        let r = credential_status_from(loaded, agent_cli_logged_in);
        assert(call_ensures(K::load, (&self.cursor_api_key_store_view(),), l));
        r
    }

    /// Marks the Bridge stopped (the Console stops the sidecar and the forwarder).
    pub fn stop(&mut self)
        ensures
            final(self).bound_port_view() is None,
            final(self).config_view() == old(self).config_view(),
            final(self).token_store_view() == old(self).token_store_view(),
            final(self).cursor_api_key_store_view() == old(self).cursor_api_key_store_view(),
            final(self).preferred_port_view() == old(self).preferred_port_view(),
            final(self).path_env_view() == old(self).path_env_view(),
    {
        self.bound_port = None;
    }

    /// The Caller configuration for the clipboard: Base URL on the Bound
    /// Port and the current Bridge Token.
    pub fn caller_config(&self) -> (r: Result<String, String>)
        ensures
            self.bound_port_view() is None ==> (r matches Err(e) && e@ == not_running_message()),
            r matches Ok(c) ==> exists|t: Seq<char>|
                t.len() > 0 && c@ == caller_config_text(self.bound_port_view()->0 as nat, t),
            self.bound_port_view() matches Some(p) ==> exists|l: Result<Option<String>, String>|
                #![trigger call_ensures(T::load, (&self.token_store_view(),), l)]
                call_ensures(T::load, (&self.token_store_view(),), l) && caller_config_rel(p, l, r),
    {
        let bound_port = match self.bound_port {
            Some(p) => p,
            None => return Err("Bridge 未启动，没有 Bound Port 可复制给 Caller。".to_owned()),
        };
        let loaded = self.token_store.load();
        let ghost l = loaded;
        let r = caller_config_from(bound_port, loaded);
        assert(call_ensures(T::load, (&self.token_store_view(),), l));
        assert(caller_config_rel(bound_port, l, r));
        r
    }

    /// The Caller configuration for the window: the Base URL, without the token.
    pub fn caller_config_display(&self) -> (r: Result<String, String>)
        ensures
            self.bound_port_view() is None ==> (r matches Err(e) && e@ == not_running_message()),
            self.bound_port_view() matches Some(p) ==> (r matches Ok(c) && c@ == caller_display_text(
                p as nat,
            )),
    {
        let bound_port = match self.bound_port {
            Some(p) => p,
            None => return Err("Bridge 未启动，没有 Bound Port 可复制给 Caller。".to_owned()),
        };
        let mut r = base_url_for(bound_port);
        push_str(&mut r, "（点「复制 Caller 配置」写入剪贴板，不在此窗长期显示）");
        Ok(r)
    }

    /// Mints and saves a new Bridge Token. The Console restarts a running
    /// Bridge with it.
    pub fn rotate_token(&mut self) -> (r: Result<String, StartError>)
        ensures
            r matches Ok(t) ==> is_minted_token(t@),
            r matches Err(e) ==> e is SidecarFailed,
            final(self).bound_port_view() == old(self).bound_port_view(),
            final(self).preferred_port_view() == old(self).preferred_port_view(),
    {
        let token = match generate_bridge_token() {
            Ok(t) => t,
            Err(message) => return Err(StartError::SidecarFailed { message }),
        };
        match self.token_store.save(token.as_str()) {
            Ok(()) => Ok(token),
            Err(message) => Err(StartError::SidecarFailed { message }),
        }
    }

    /// Begins a Start attempt: the Bridge is stopped first, then the Agent
    /// CLI is looked for.
    pub fn begin_start(&mut self) -> (r: (StartStage, StartAction))
        ensures
            r.0 is AwaitAgentCli,
            r.1 is ProbeAgentCli,
            final(self).bound_port_view() is None,
            final(self).config_view() == old(self).config_view(),
            final(self).token_store_view() == old(self).token_store_view(),
            final(self).cursor_api_key_store_view() == old(self).cursor_api_key_store_view(),
            final(self).preferred_port_view() == old(self).preferred_port_view(),
            final(self).path_env_view() == old(self).path_env_view(),
    {
        self.stop();
        (StartStage::AwaitAgentCli, StartAction::ProbeAgentCli)
    }

    /// One step of Start: from where the attempt stands and what the Console
    /// found out, the next stage and what the Console does next. A step that
    /// aborts leaves the Bridge stopped; only a step that starts it sets the
    /// Bound Port.
    pub fn start_step(&mut self, stage: StartStage, event: StartEvent) -> (r: (StartStage, StartAction))
        requires
            event_fits(stage, event),
        ensures
            final(self).config_view() == old(self).config_view(),
            final(self).cursor_api_key_store_view() == old(self).cursor_api_key_store_view(),
            !(stage is AwaitSidecarHealth) ==> final(self).token_store_view() == old(self).token_store_view(),
            final(self).preferred_port_view() == old(self).preferred_port_view(),
            final(self).path_env_view() == old(self).path_env_view(),
            !(stage is AwaitBoundHealth) && !(r.1 is Abort) ==> final(self).bound_port_view() == old(
                self,
            ).bound_port_view(),
            r.1 is Abort ==> final(self).bound_port_view() is None,
            r.1 matches StartAction::Started(p) ==> final(self).bound_port_view() == Some(p),
            match (stage, event) {
                (StartStage::AwaitAgentCli, StartEvent::AgentCli(found)) => if found {
                    r.0 is AwaitBoundPort && r.1 == StartAction::BindFrom(old(self).preferred_port_view())
                } else {
                    r.0 is Done && (r.1 matches StartAction::Abort(StartError::AgentCliMissing { message })
                        && message@ == AGENT_CLI_MISSING_MESSAGE@)
                },
                (StartStage::AwaitBoundPort, StartEvent::BoundPort(p)) => match p {
                    None => r.0 is Done && r.1 matches StartAction::Abort(StartError::NoPortAvailable),
                    Some(b) => r.0 == StartStage::AwaitSidecarPort { bound_port: b } && r.1
                        == StartAction::FindFreePort {
                        from: (if b < 65535 { (b + 1) as u16 } else { 1u16 }),
                        except: b,
                    },
                },
                (StartStage::AwaitSidecarPort { bound_port }, StartEvent::SidecarPort(p)) => match p {
                    None => r.0 is Done && r.1 matches StartAction::Abort(StartError::NoPortAvailable),
                    Some(s) => exists|t: Result<Seq<char>, Seq<char>>, k: Result<Option<Seq<char>>, Seq<char>>|
                        #![trigger sidecar_port_outcome(r.0, r.1, old(self).path_env_view(), bound_port, s, t, k)]
                        (t matches Ok(x) ==> x.len() > 0) && (t matches Ok(x) ==> exists|l: Result<
                            Option<String>,
                            String,
                        >|
                            #![trigger call_ensures(T::load, (&old(self).token_store_view(),), l)]
                            call_ensures(T::load, (&old(self).token_store_view(),), l) && token_resolved(l, x))
                            && (t is Ok ==> exists|l: Result<Option<String>, String>|
                            #![trigger call_ensures(K::load, (&old(self).cursor_api_key_store_view(),), l)]
                            call_ensures(K::load, (&old(self).cursor_api_key_store_view(),), l) && loaded_view(l)
                                == k) && sidecar_port_outcome(
                            r.0,
                            r.1,
                            old(self).path_env_view(),
                            bound_port,
                            s,
                            t,
                            k,
                        ),
                },
                (StartStage::AwaitLogin { bound_port, sidecar_port, token }, StartEvent::LoggedIn(ok)) => if ok {
                    r.0 matches StartStage::AwaitSpawn { bound_port: b2, sidecar_port: s2, token: t2, cursor_api_key: None }
                        && b2 == bound_port && s2 == sidecar_port && t2@ == token@
                        && is_spawn(r.1, old(self).path_env_view(), sidecar_port, token@, None)
                } else {
                    r.0 is Done && (r.1 matches StartAction::Abort(StartError::CursorCredentialMissing { message })
                        && message@ == credential_missing_message())
                },
                (
                    StartStage::AwaitSpawn { bound_port, sidecar_port, token, cursor_api_key },
                    StartEvent::Spawned(res),
                ) => match res {
                    Err(e) => r.0 is Done && (r.1 matches StartAction::Abort(StartError::SidecarFailed { message })
                        && message@ == spawn_failed_prefix() + e@),
                    Ok(()) => r.0 matches StartStage::AwaitSidecarHealth {
                        bound_port: b2,
                        sidecar_port: s2,
                        token: t2,
                        cursor_api_key: k2,
                    } && b2 == bound_port && s2 == sidecar_port && t2@ == token@ && opt_view(k2) == opt_view(
                        cursor_api_key,
                    ) && r.1 == StartAction::WaitSidecarHealth { sidecar_port },
                },
                (
                    StartStage::AwaitSidecarHealth { bound_port, sidecar_port, token, cursor_api_key },
                    StartEvent::SidecarHealthy(ok),
                ) => if ok {
                    exists|p: Result<(), Seq<char>>|
                        #![trigger sidecar_health_outcome(r.0, r.1, bound_port, sidecar_port, token@, opt_view(cursor_api_key), p)]
                        sidecar_health_outcome(
                            r.0,
                            r.1,
                            bound_port,
                            sidecar_port,
                            token@,
                            opt_view(cursor_api_key),
                            p,
                        )
                } else {
                    r.0 is Done && r.1 matches StartAction::Abort(StartError::HealthCheckTimeout)
                },
                (StartStage::AwaitBoundHealth { bound_port }, StartEvent::BoundHealthy(ok)) => if ok {
                    r.0 is Done && r.1 == StartAction::Started(bound_port) && final(self).bound_port_view()
                        == Some(bound_port)
                } else {
                    r.0 is Done && (r.1 matches StartAction::Abort(StartError::HealthCheckTimeout))
                        && final(self).bound_port_view() is None
                },
                _ => false,
            },
    {
        let r = match (stage, event) {
            (StartStage::AwaitAgentCli, StartEvent::AgentCli(found)) => {
                if found {
                    (StartStage::AwaitBoundPort, StartAction::BindFrom(self.config.preferred_port))
                } else {
                    (
                        StartStage::Done,
                        StartAction::Abort(
                            StartError::AgentCliMissing { message: AGENT_CLI_MISSING_MESSAGE.to_owned() },
                        ),
                    )
                }
            },
            (StartStage::AwaitBoundPort, StartEvent::BoundPort(p)) => match p {
                None => (StartStage::Done, StartAction::Abort(StartError::NoPortAvailable)),
                Some(b) => (
                    StartStage::AwaitSidecarPort { bound_port: b },
                    StartAction::FindFreePort { from: sidecar_search_start(b), except: b },
                ),
            },
            (StartStage::AwaitSidecarPort { bound_port }, StartEvent::SidecarPort(p)) => match p {
                None => (StartStage::Done, StartAction::Abort(StartError::NoPortAvailable)),
                Some(s) => {
                    let token = self.resolve_bridge_token();
                    let ghost tv = text_result_view(token);
                    let loaded: Result<Option<String>, String> = if token.is_ok() {
                        let key_loaded = self.cursor_api_key_store.load();
                        assert(call_ensures(K::load, (&self.cursor_api_key_store_view(),), key_loaded));
                        key_loaded
                    } else {
                        Ok(None)
                    };
                    let ghost kv = loaded_view(loaded);
                    let r = after_sidecar_port(self.config.path_env.as_str(), bound_port, s, token, loaded);
                    assert(sidecar_port_outcome(r.0, r.1, self.path_env_view(), bound_port, s, tv, kv));
                    r
                },
            },
            (StartStage::AwaitLogin { bound_port, sidecar_port, token }, StartEvent::LoggedIn(ok)) => {
                if ok {
                    let action = spawn_action_for(self.config.path_env.as_str(), sidecar_port, token.as_str(), None);
                    (
                        StartStage::AwaitSpawn { bound_port, sidecar_port, token, cursor_api_key: None },
                        action,
                    )
                } else {
                    (
                        StartStage::Done,
                        StartAction::Abort(
                            StartError::CursorCredentialMissing {
                                message: "需要 Cursor API Key 或已登录的 Agent CLI，才能 Start Bridge。".to_owned(),
                            },
                        ),
                    )
                }
            },
            (
                StartStage::AwaitSpawn { bound_port, sidecar_port, token, cursor_api_key },
                StartEvent::Spawned(res),
            ) => match res {
                Err(e) => {
                    let mut message = "无法拉起 Bridge sidecar：".to_owned();
                    push_str(&mut message, e.as_str());
                    (StartStage::Done, StartAction::Abort(StartError::SidecarFailed { message }))
                },
                Ok(()) => (
                    StartStage::AwaitSidecarHealth { bound_port, sidecar_port, token, cursor_api_key },
                    StartAction::WaitSidecarHealth { sidecar_port },
                ),
            },
            (
                StartStage::AwaitSidecarHealth { bound_port, sidecar_port, token, cursor_api_key },
                StartEvent::SidecarHealthy(ok),
            ) => {
                if !ok {
                    (StartStage::Done, StartAction::Abort(StartError::HealthCheckTimeout))
                } else {
                    let persisted = self.persist_bridge_token(token.as_str());
                    let ghost pv = unit_result_view(persisted);
                    let r = after_sidecar_health(bound_port, sidecar_port, token.as_str(), &cursor_api_key, persisted);
                    assert(sidecar_health_outcome(
                        r.0,
                        r.1,
                        bound_port,
                        sidecar_port,
                        token@,
                        opt_view(cursor_api_key),
                        pv,
                    ));
                    r
                }
            },
            (StartStage::AwaitBoundHealth { bound_port }, StartEvent::BoundHealthy(ok)) => {
                if ok {
                    self.bound_port = Some(bound_port);
                    (StartStage::Done, StartAction::Started(bound_port))
                } else {
                    self.stop();
                    (StartStage::Done, StartAction::Abort(StartError::HealthCheckTimeout))
                }
            },
            _ => (StartStage::Done, StartAction::Abort(StartError::NoPortAvailable)),
        };
        if matches!(r.1, StartAction::Abort(_)) {
            self.stop();
        }
        r
    }
}

/// The Base URL line for a Bound Port, up to the token.
fn base_url_for(port: u16) -> (r: String)
    ensures
        r@ == base_url_line(port as nat),
{
    let mut r = "Base URL: http://127.0.0.1:".to_owned();
    let p = decimal_string(port as u64);
    push_str(&mut r, p.as_str());
    push_str(&mut r, "/v1\nBridge Token: ");
    r
}

/// The Caller configuration for a Bound Port and a token.
pub fn caller_config_for(port: u16, token: &str) -> (r: String)
    ensures
        r@ == caller_config_text(port as nat, token@),
{
    let mut r = base_url_for(port);
    push_str(&mut r, token);
    r
}


/// Law: `has_bridge_token` answers from the Bridge Token store alone: it says
/// yes exactly when the store's `load` gave a non-empty token, no when it gave
/// none or an empty one, and passes a store error on; whether the Bridge runs
/// plays no part.
pub proof fn lemma_has_bridge_token_reads_the_store<T: BridgeTokenStore, K: CursorApiKeyStore>(
    rt: BridgeRuntime<T, K>,
    r: Result<bool, String>,
)
    requires
        call_ensures(BridgeRuntime::<T, K>::has_bridge_token, (&rt,), r),
    ensures
        exists|l: Result<Option<String>, String>|
            #![trigger call_ensures(T::load, (&rt.token_store_view(),), l)]
            {
                &&& call_ensures(T::load, (&rt.token_store_view(),), l)
                &&& r is Ok <==> l is Ok
                &&& r matches Ok(b) ==> (b <==> (l matches Ok(Some(t)) && t@.len() > 0))
                &&& r matches Err(e) ==> (l matches Err(m) && e@ == m@)
            },
{
    let l = choose|l: Result<Option<String>, String>|
        #![trigger call_ensures(T::load, (&rt.token_store_view(),), l)]
        call_ensures(T::load, (&rt.token_store_view(),), l) && token_present_rel(l, r);
    assert(call_ensures(T::load, (&rt.token_store_view(),), l));
}

/// Law: while the Bridge runs on Bound Port `p`, `caller_config` gives the
/// Base URL on `p` with the very token that the Bridge Token store's `load`
/// gave, when that token is not empty, and an error otherwise; no other store
/// takes part.
pub proof fn lemma_caller_config_carries_the_bridge_token<T: BridgeTokenStore, K: CursorApiKeyStore>(
    rt: BridgeRuntime<T, K>,
    p: u16,
    r: Result<String, String>,
)
    requires
        call_ensures(BridgeRuntime::<T, K>::caller_config, (&rt,), r),
        rt.bound_port_view() == Some(p),
    ensures
        exists|l: Result<Option<String>, String>|
            #![trigger call_ensures(T::load, (&rt.token_store_view(),), l)]
            {
                &&& call_ensures(T::load, (&rt.token_store_view(),), l)
                &&& r is Ok <==> (l matches Ok(Some(t)) && t@.len() > 0)
                &&& r matches Ok(c) ==> (l matches Ok(Some(t)) && c@ == caller_config_text(p as nat, t@))
            },
{
    let l = choose|l: Result<Option<String>, String>|
        #![trigger call_ensures(T::load, (&rt.token_store_view(),), l)]
        call_ensures(T::load, (&rt.token_store_view(),), l) && caller_config_rel(p, l, r);
    assert(call_ensures(T::load, (&rt.token_store_view(),), l));
}

} // verus!
