//! What the Console hands the Bridge sidecar and how it reads it back:
//! the sidecar's environment, the health probe, the Agent CLI login probe,
//! the order in which ports are tried, and the rolling log's cut.

use vstd::prelude::*;
use crate::text::{
    chars_of, contains, decimal, decimal_string, lower_all, occurs_at_exec, push_str,
    range_lower_contains, starts_with,
};

verus! {

/// The only host the Bridge and the Bound Port listen on.
pub const BIND_HOST: &'static str = "127.0.0.1";

/// One change to the sidecar's environment.
#[derive(Debug)]
pub enum EnvSetting {
    /// Set a variable.
    Assign { name: String, value: String },
    /// Remove a variable inherited from the Console.
    Remove { name: String },
}

/// An environment change as `(name, Some(value))` or `(name, None)`.
pub open spec fn env_view(e: EnvSetting) -> (Seq<char>, Option<Seq<char>>) {
    match e {
        EnvSetting::Assign { name, value } => (name@, Some(value@)),
        EnvSetting::Remove { name } => (name@, None),
    }
}

/// The environment the sidecar is started with: the Console's `PATH`, the
/// loopback host, its port, the Bridge Token, the fixed Bridge switches, and
/// the Cursor API Key when one is saved (removed from the environment otherwise).
pub open spec fn sidecar_env_spec(
    path_env: Seq<char>,
    sidecar_port: nat,
    token: Seq<char>,
    key: Option<Seq<char>>,
) -> Seq<(Seq<char>, Option<Seq<char>>)> {
    seq![
        ("PATH"@, Some(path_env)),
        ("CURSOR_BRIDGE_HOST"@, Some("127.0.0.1"@)),
        ("CURSOR_BRIDGE_PORT"@, Some(decimal(sidecar_port))),
        ("CURSOR_BRIDGE_API_KEY"@, Some(token)),
        ("CURSOR_BRIDGE_CHAT_ONLY_WORKSPACE"@, Some("false"@)),
        ("CURSOR_BRIDGE_PROMPT_VIA_STDIN"@, Some("true"@)),
    ] + match key {
        Some(k) => seq![("CURSOR_API_KEY"@, Some(k)), ("CURSOR_AUTH_TOKEN"@, Some(k))],
        None => seq![("CURSOR_API_KEY"@, None), ("CURSOR_AUTH_TOKEN"@, None)],
    }
}

/// The health request the Console sends to a port.
pub open spec fn health_request_text(path: Seq<char>, port: nat) -> Seq<char> {
    "GET "@ + path + " HTTP/1.1\r\nHost: 127.0.0.1:"@ + decimal(port)
        + "\r\nConnection: close\r\n\r\n"@
}

/// A reply that answers the health request with 200.
pub open spec fn is_ok_reply(text: Seq<char>) -> bool {
    starts_with(text, "HTTP/1.1 200"@) || starts_with(text, "HTTP/1.0 200"@)
}

/// `agent status` reports a login: it succeeded and does not say
/// `not authenticated` in any letter case.
pub open spec fn logged_in_spec(succeeded: bool, output: Seq<char>) -> bool {
    succeeded && !contains(lower_all(output), "not authenticated"@)
}

/// The order in which ports are tried from `preferred`: upward to 65535,
/// and, when wrapping, on from 1 up to just below `preferred`.
pub open spec fn port_rank(preferred: nat, p: nat) -> int {
    if p >= preferred {
        p - preferred
    } else {
        65536 - preferred + p - 1
    }
}

/// A port that the scan visits.
pub open spec fn port_in_scan(preferred: nat, except: Option<u16>, wrap: bool, p: nat) -> bool {
    &&& p <= 65535
    &&& (p >= preferred || (wrap && 1 <= p))
    &&& except != Some(p as u16)
}

/// The sidecar's environment.
pub fn sidecar_env(path_env: &str, sidecar_port: u16, token: &str, key: Option<&str>) -> (r: Vec<
    EnvSetting,
>)
    ensures
        r@.map_values(|e: EnvSetting| env_view(e)) == sidecar_env_spec(
            path_env@,
            sidecar_port as nat,
            token@,
            match key {
                Some(k) => Some(k@),
                None => None,
            },
        ),
{
    let mut r: Vec<EnvSetting> = Vec::new();
    r.push(EnvSetting::Assign { name: "PATH".to_owned(), value: path_env.to_owned() });
    r.push(EnvSetting::Assign { name: "CURSOR_BRIDGE_HOST".to_owned(), value: BIND_HOST.to_owned() });
    r.push(
        EnvSetting::Assign {
            name: "CURSOR_BRIDGE_PORT".to_owned(),
            value: decimal_string(sidecar_port as u64),
        },
    );
    r.push(EnvSetting::Assign { name: "CURSOR_BRIDGE_API_KEY".to_owned(), value: token.to_owned() });
    r.push(
        EnvSetting::Assign {
            name: "CURSOR_BRIDGE_CHAT_ONLY_WORKSPACE".to_owned(),
            value: "false".to_owned(),
        },
    );
    r.push(
        EnvSetting::Assign {
            name: "CURSOR_BRIDGE_PROMPT_VIA_STDIN".to_owned(),
            value: "true".to_owned(),
        },
    );
    match key {
        Some(k) => {
            r.push(EnvSetting::Assign { name: "CURSOR_API_KEY".to_owned(), value: k.to_owned() });
            r.push(EnvSetting::Assign { name: "CURSOR_AUTH_TOKEN".to_owned(), value: k.to_owned() });
        },
        None => {
            r.push(EnvSetting::Remove { name: "CURSOR_API_KEY".to_owned() });
            r.push(EnvSetting::Remove { name: "CURSOR_AUTH_TOKEN".to_owned() });
        },
    }
    assert(r@.map_values(|e: EnvSetting| env_view(e)) =~= sidecar_env_spec(
        path_env@,
        sidecar_port as nat,
        token@,
        match key {
            Some(k) => Some(k@),
            None => None,
        },
    ));
    r
}

/// The health request for `path` on `port`.
pub fn health_request(path: &str, port: u16) -> (r: String)
    ensures
        r@ == health_request_text(path@, port as nat),
{
    let mut r = "GET ".to_owned();
    push_str(&mut r, path);
    push_str(&mut r, " HTTP/1.1\r\nHost: 127.0.0.1:");
    let p = decimal_string(port as u64);
    push_str(&mut r, p.as_str());
    push_str(&mut r, "\r\nConnection: close\r\n\r\n");
    r
}

/// Whether a reply answers the health request with 200.
pub fn is_ok_response(text: &str) -> (b: bool)
    ensures
        b == is_ok_reply(text@),
{
    let v = chars_of(text);
    let a = chars_of("HTTP/1.1 200");
    let b = chars_of("HTTP/1.0 200");
    occurs_at_exec(&v, &a, 0) || occurs_at_exec(&v, &b, 0)
}

/// Whether `agent status` reports a login, from its exit and its combined output.
pub fn logged_in_from_status(succeeded: bool, output: &str) -> (b: bool)
    ensures
        b == logged_in_spec(succeeded, output@),
{
    if !succeeded {
        return false;
    }
    let v = chars_of(output);
    let p = chars_of("not authenticated");
    assert(v@.subrange(0, v@.len() as int) =~= v@);
    !range_lower_contains(&v, 0, v.len(), &p)
}

/// The port the sidecar search starts from: just above the Bound Port, or 1
/// when the Bound Port is 65535.
pub fn sidecar_search_start(bound_port: u16) -> (p: u16)
    ensures
        p == (if bound_port < 65535 { bound_port + 1 } else { 1 }),
{
    if bound_port < 65535 {
        bound_port + 1
    } else {
        1
    }
}

/// The next port to try after `after` (the first one when `after` is
/// `None`): the visited port of least rank above `after`'s.
pub fn next_port(preferred: u16, except: Option<u16>, wrap: bool, after: Option<u16>) -> (r: Option<
    u16,
>)
    requires
        after matches Some(a) ==> port_in_scan(preferred as nat, except, wrap, a as nat) || a
            == preferred,
    ensures
        r matches Some(q) ==> port_in_scan(preferred as nat, except, wrap, q as nat) && (after matches Some(
            a,
        ) ==> port_rank(preferred as nat, q as nat) > port_rank(preferred as nat, a as nat)),
        forall|p: nat|
            port_in_scan(preferred as nat, except, wrap, p) && (after matches Some(a) ==> port_rank(
                preferred as nat,
                p,
            ) > port_rank(preferred as nat, a as nat)) ==> (r matches Some(q) && port_rank(
                preferred as nat,
                q as nat,
            ) <= port_rank(preferred as nat, p)),
{
    let first = match after {
        None => Some(preferred),
        Some(a) => step_port(preferred, wrap, a),
    };
    let ghost base = match after {
        None => -1int,
        Some(a) => port_rank(preferred as nat, a as nat),
    };
    assert(first matches Some(p) ==> port_rank(preferred as nat, p as nat) == base + 1);
    match first {
        None => {
            assert forall|x: nat|
                port_in_scan(preferred as nat, except, wrap, x) implies port_rank(preferred as nat, x) <= base by {
            }
            None
        },
        Some(p) => {
            if except == Some(p) {
                let r = step_port(preferred, wrap, p);
                proof {
                    assert forall|x: nat|
                        port_in_scan(preferred as nat, except, wrap, x) && port_rank(preferred as nat, x) > base
                        implies (r matches Some(q) && port_rank(preferred as nat, q as nat) <= port_rank(
                        preferred as nat,
                        x,
                    )) by {
                        if port_rank(preferred as nat, x) == base + 1 {
                            assert(x == p as nat);
                        }
                    }
                }
                r
            } else {
                Some(p)
            }
        },
    }
}

/// `free` answered `answer` for port `p`.
pub open spec fn port_probe<F: Fn(u16) -> bool>(free: F, p: u16, answer: bool) -> bool {
    call_ensures(free, (p,), answer)
}

/// The first port of the scan from `preferred` (skipping `except`, and
/// wrapping to 1 when `wrap`) for which `free` answers yes: every port the
/// scan visits before it was tried and answered no. `None` when every port of
/// the scan answered no.
pub fn first_free_port<F: Fn(u16) -> bool>(preferred: u16, except: Option<u16>, wrap: bool, free: F) -> (r:
    Option<u16>)
    requires
        forall|p: u16| free.requires((p,)),
    ensures
        r matches Some(q) ==> port_in_scan(preferred as nat, except, wrap, q as nat) && port_probe(
            free,
            q,
            true,
        ) && forall|p: u16|
            port_in_scan(preferred as nat, except, wrap, p as nat) && port_rank(preferred as nat, p as nat)
                < port_rank(preferred as nat, q as nat) ==> #[trigger] port_probe(free, p, false),
        r is None ==> forall|p: u16|
            port_in_scan(preferred as nat, except, wrap, p as nat) ==> #[trigger] port_probe(free, p, false),
{
    let mut after: Option<u16> = None;
    loop
        invariant
            forall|p: u16| free.requires((p,)),
            after matches Some(a) ==> port_in_scan(preferred as nat, except, wrap, a as nat),
            forall|p: u16|
                port_in_scan(preferred as nat, except, wrap, p as nat) && (after matches Some(a)
                    && port_rank(preferred as nat, p as nat) <= port_rank(preferred as nat, a as nat))
                    ==> #[trigger] port_probe(free, p, false),
        decreases (match after {
            None => 65536int,
            Some(a) => 65535 - port_rank(preferred as nat, a as nat),
        }),
    {
        let next = next_port(preferred, except, wrap, after);
        match next {
            None => {
                assert forall|p: u16| port_in_scan(preferred as nat, except, wrap, p as nat) implies #[trigger] port_probe(
                    free,
                    p,
                    false,
                ) by {
                    if !(after matches Some(a) && port_rank(preferred as nat, p as nat) <= port_rank(
                        preferred as nat,
                        a as nat,
                    )) {
                        assert(port_in_scan(preferred as nat, except, wrap, p as nat));
                    }
                }
                return None;
            },
            Some(q) => {
                let ok = free(q);
                if ok {
                    assert forall|p: u16|
                        port_in_scan(preferred as nat, except, wrap, p as nat) && port_rank(
                            preferred as nat,
                            p as nat,
                        ) < port_rank(preferred as nat, q as nat) implies #[trigger] port_probe(free, p, false) by {
                        if !(after matches Some(a) && port_rank(preferred as nat, p as nat) <= port_rank(
                            preferred as nat,
                            a as nat,
                        )) {
                            assert(port_in_scan(preferred as nat, except, wrap, p as nat));
                        }
                    }
                    return Some(q);
                }
                assert(port_probe(free, q, false));
                assert forall|p: u16|
                    port_in_scan(preferred as nat, except, wrap, p as nat) && port_rank(preferred as nat, p as nat)
                        <= port_rank(preferred as nat, q as nat) implies #[trigger] port_probe(free, p, false) by {
                    if p != q && !(after matches Some(a) && port_rank(preferred as nat, p as nat) <= port_rank(
                        preferred as nat,
                        a as nat,
                    )) {
                        assert(port_in_scan(preferred as nat, except, wrap, p as nat));
                    }
                }
                after = Some(q);
            },
        }
    }
}

/// The port after `p` in the scan order, ignoring the excepted port.
fn step_port(preferred: u16, wrap: bool, p: u16) -> (r: Option<u16>)
    requires
        p >= preferred || (wrap && 1 <= p),
    ensures
        r matches Some(q) ==> (q >= preferred || (wrap && 1 <= q)) && port_rank(preferred as nat, q as nat)
            == port_rank(preferred as nat, p as nat) + 1,
        r is None ==> forall|x: nat|
            x <= 65535 && (x >= preferred || (wrap && 1 <= x)) ==> port_rank(preferred as nat, x)
                <= port_rank(preferred as nat, p as nat),
{
    if p >= preferred {
        if p < 65535 {
            Some(p + 1)
        } else if wrap && preferred > 1 {
            Some(1)
        } else {
            None
        }
    } else if p + 1 < preferred {
        Some(p + 1)
    } else {
        None
    }
}

/// Where a log of `len` bytes is cut so that only the newest `max_bytes`
/// remain: nowhere when there is no cap (0) or the log is within it.
pub open spec fn roll_point(len: nat, max_bytes: nat) -> Option<nat> {
    if max_bytes == 0 || len <= max_bytes {
        None
    } else {
        Some((len - max_bytes) as nat)
    }
}

/// The log after `data` is appended to `log` and the log is cut at its
/// `roll_point`.
pub open spec fn rolled_log(log: Seq<u8>, data: Seq<u8>, max_bytes: nat) -> Seq<u8> {
    let all = log + data;
    match roll_point(all.len(), max_bytes) {
        None => all,
        Some(s) => all.skip(s as int),
    }
}

/// Law: the rolling log holds everything when there is no cap, and
/// otherwise the last `min(|log| + |data|, max_bytes)` bytes of the log
/// followed by the new data, so it never exceeds the cap and always ends
/// with the newest bytes.
pub proof fn lemma_rolled_log_keeps_newest(log: Seq<u8>, data: Seq<u8>, max_bytes: nat)
    ensures
        max_bytes == 0 ==> rolled_log(log, data, max_bytes) == log + data,
        max_bytes > 0 ==> {
            let all = log + data;
            let n = if all.len() < max_bytes { all.len() } else { max_bytes };
            &&& rolled_log(log, data, max_bytes).len() == n
            &&& rolled_log(log, data, max_bytes) == all.subrange(all.len() - n, all.len() as int)
        },
{
    let all = log + data;
    assert(all.skip(0) =~= all);
    if max_bytes > 0 && all.len() > max_bytes {
        assert(all.skip(all.len() - max_bytes) =~= all.subrange(all.len() - max_bytes, all.len() as int));
    } else {
        assert(all.subrange(0, all.len() as int) =~= all);
    }
}

/// Where the rolling log must be cut so that only the newest `max_bytes`
/// remain: `None` when no cut is needed (no cap, or within the cap).
pub fn roll_start(len: u64, max_bytes: u64) -> (r: Option<u64>)
    ensures
        max_bytes == 0 || len <= max_bytes ==> r is None,
        max_bytes > 0 && len > max_bytes ==> r == Some((len - max_bytes) as u64),
        match roll_point(len as nat, max_bytes as nat) {
            None => r is None,
            Some(s) => r == Some(s as u64),
        },
{
    if max_bytes == 0 || len <= max_bytes {
        None
    } else {
        Some(len - max_bytes)
    }
}

/// The secrets masked in the sidecar's log and in Request Summaries: the
/// Bridge Token, and the Cursor API Key when one is used.
pub fn log_secrets(token: &str, key: Option<&str>) -> (r: Vec<String>)
    ensures
        r@.map_values(|s: String| s@) == (match key {
            Some(k) => seq![token@, k@],
            None => seq![token@],
        }),
{
    let mut r: Vec<String> = Vec::new();
    r.push(token.to_owned());
    match key {
        Some(k) => r.push(k.to_owned()),
        None => {},
    }
    assert(r@.map_values(|s: String| s@) =~= (match key {
        Some(k) => seq![token@, k@],
        None => seq![token@],
    }));
    r
}


/// Law: whatever the Cursor API Key, the sidecar's environment first sets
/// `PATH` to exactly the `PATH` the Console searched (where the Agent CLI was
/// found), then the loopback host, the sidecar port, the Bridge Token and the
/// two Bridge switches; two Starts that differ only in the key differ only in
/// the last two entries, `CURSOR_API_KEY` and `CURSOR_AUTH_TOKEN`, which carry
/// the key when there is one and are removed otherwise.
pub proof fn lemma_sidecar_env_path_and_key(
    path_env: &str,
    sidecar_port: u16,
    token: &str,
    key1: Option<&str>,
    key2: Option<&str>,
    r1: Vec<EnvSetting>,
    r2: Vec<EnvSetting>,
)
    requires
        call_ensures(sidecar_env, (path_env, sidecar_port, token, key1), r1),
        call_ensures(sidecar_env, (path_env, sidecar_port, token, key2), r2),
    ensures
        r1@.len() == 8 && r2@.len() == 8,
        env_view(r1@[0]) == ("PATH"@, Some(path_env@)),
        env_view(r1@[1]) == ("CURSOR_BRIDGE_HOST"@, Some(BIND_HOST@)),
        forall|i: int| 0 <= i < 6 ==> env_view(#[trigger] r1@[i]) == env_view(r2@[i]),
        match key1 {
            Some(k) => env_view(r1@[6]) == ("CURSOR_API_KEY"@, Some(k@)) && env_view(r1@[7]) == (
                "CURSOR_AUTH_TOKEN"@,
                Some(k@),
            ),
            None => env_view(r1@[6]) == ("CURSOR_API_KEY"@, None::<Seq<char>>) && env_view(r1@[7]) == (
                "CURSOR_AUTH_TOKEN"@,
                None::<Seq<char>>,
            ),
        },
{
    reveal_strlit("127.0.0.1");
    let v1 = r1@.map_values(|e: EnvSetting| env_view(e));
    let v2 = r2@.map_values(|e: EnvSetting| env_view(e));
    assert(v1.len() == 8);
    assert(v2.len() == 8);
    assert(r2@.len() == v2.len());
    assert forall|i: int| 0 <= i < 6 implies env_view(#[trigger] r1@[i]) == env_view(r2@[i]) by {
        assert(v1[i] == env_view(r1@[i]));
        assert(v2[i] == env_view(r2@[i]));
    }
    assert(v1[0] == env_view(r1@[0]));
    assert(v1[1] == env_view(r1@[1]));
    assert(v1[6] == env_view(r1@[6]));
    assert(v1[7] == env_view(r1@[7]));
}

} // verus!
