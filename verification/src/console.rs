//! What the Console window and tray show of the runtime.

use vstd::prelude::*;
use crate::release::UpdatePrompt;
use crate::runtime::{BridgeState, CredentialStatus, DEFAULT_PREFERRED_PORT};
use crate::text::{decimal, decimal_string, push_str};

verus! {

/// The Bridge as the settings window shows it.
#[derive(Debug)]
pub struct BridgeStatusView {
    pub running: bool,
    pub bound_port: Option<u16>,
    pub preferred_port: u16,
    pub error: Option<String>,
}

/// The credentials as the settings window shows them (never the key itself).
#[derive(Debug, Clone, Copy, PartialEq, Eq, Structural)]
pub struct CredentialStatusView {
    pub cursor_api_key_saved: bool,
    pub agent_cli_logged_in: bool,
}

/// The tray tooltip for a status view.
pub open spec fn tooltip_text(running: bool, bound_port: Option<u16>) -> Seq<char> {
    if running {
        "cursor2api — Bridge 运行中 · Bound Port "@ + decimal(
            match bound_port {
                Some(p) => p as nat,
                None => 0,
            },
        )
    } else {
        "cursor2api — Bridge 未启动"@
    }
}

/// The status view of a runtime state, its Preferred Port and the last error.
pub fn status_view(state: BridgeState, preferred_port: u16, error: Option<String>) -> (v: BridgeStatusView)
    ensures
        v.running == (state is Running),
        v.bound_port == (match state {
            BridgeState::Running { bound_port } => Some(bound_port),
            BridgeState::Stopped => None,
        }),
        v.preferred_port == preferred_port,
        v.error == error,
{
    match state {
        BridgeState::Running { bound_port } => BridgeStatusView {
            running: true,
            bound_port: Some(bound_port),
            preferred_port,
            error,
        },
        BridgeState::Stopped => BridgeStatusView {
            running: false,
            bound_port: None,
            preferred_port,
            error,
        },
    }
}

/// The tray tooltip: the Bound Port while running.
pub fn tray_tooltip(view: &BridgeStatusView) -> (r: String)
    ensures
        r@ == tooltip_text(view.running, view.bound_port),
{
    if view.running {
        let port: u16 = match view.bound_port {
            Some(p) => p,
            None => 0,
        };
        let mut r = "cursor2api — Bridge 运行中 · Bound Port ".to_owned();
        let p = decimal_string(port as u64);
        push_str(&mut r, p.as_str());
        r
    } else {
        "cursor2api — Bridge 未启动".to_owned()
    }
}

/// The credentials view of a credential status.
pub fn credential_view(status: CredentialStatus) -> (v: CredentialStatusView)
    ensures
        v.cursor_api_key_saved == status.cursor_api_key_saved,
        v.agent_cli_logged_in == status.agent_cli_logged_in,
{
    CredentialStatusView {
        cursor_api_key_saved: status.cursor_api_key_saved,
        agent_cli_logged_in: status.agent_cli_logged_in,
    }
}

/// The Preferred Port a Start request asks for: the default when none is given.
pub fn requested_port(preferred_port: Option<u16>) -> (p: u16)
    ensures
        p == (match preferred_port {
            Some(q) => q,
            None => DEFAULT_PREFERRED_PORT,
        }),
{
    match preferred_port {
        Some(q) => q,
        None => DEFAULT_PREFERRED_PORT,
    }
}

/// The release check as the Console answers it: a failed check shows no prompt.
pub fn prompt_or_none(checked: Result<Option<UpdatePrompt>, String>) -> (r: Option<UpdatePrompt>)
    ensures
        checked is Err ==> r is None,
        checked matches Ok(p) ==> r == p,
{
    match checked {
        Ok(p) => p,
        Err(_) => None,
    }
}

} // verus!
