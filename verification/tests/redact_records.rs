use cursor2api::records::{is_health_path, RecordStore, RequestSummary, MAX_REQUEST_SUMMARIES};
use cursor2api::redact::{redact_owned, redact_secrets, replace_str};
use cursor2api::sidecar::log_secrets;

fn summary(path: &str) -> RequestSummary {
    RequestSummary {
        time: "1700000000000".to_string(),
        method: "GET".to_string(),
        status: 200,
        remote_addr: "127.0.0.1:50000".to_string(),
        path: path.to_string(),
    }
}

#[test]
fn replace_is_leftmost_and_non_overlapping() {
    assert_eq!(replace_str("aaaa", "aa", "b"), "bb");
    assert_eq!(replace_str("aaa", "aa", "b"), "ba");
    assert_eq!(replace_str("abc", "x", "y"), "abc");
    assert_eq!(replace_str("", "x", "y"), "");
}

#[test]
fn redaction_masks_every_secret() {
    let text = "token=must-not-appear key=sk-live-1 again must-not-appear";
    let out = redact_secrets(text, &["must-not-appear", "", "sk-live-1"]);
    assert_eq!(out, "token=*** key=*** again ***");
    assert!(!out.contains("must-not-appear"));
    assert!(!out.contains("sk-live-1"));
    let owned = redact_owned(text, &vec!["sk-live-1".to_string()]);
    assert_eq!(owned, "token=must-not-appear key=*** again must-not-appear");
}

#[test]
fn redaction_leaves_text_without_secrets_alone() {
    assert_eq!(redact_secrets("nothing here", &["secret"]), "nothing here");
    assert_eq!(redact_secrets("nothing here", &[]), "nothing here");
}

#[test]
fn health_probes_are_not_recorded() {
    assert!(is_health_path("/health"));
    assert!(is_health_path("/healthz"));
    assert!(!is_health_path("/health/x"));
    let mut store = RecordStore::open(Vec::new());
    store.record(summary("/health"));
    store.record(summary("/healthz"));
    assert_eq!(store.len(), 0);
    store.record(summary("/v1/models"));
    assert_eq!(store.len(), 1);
}

#[test]
fn request_summaries_keep_only_the_latest_200() {
    let mut store = RecordStore::open(Vec::new());
    for i in 1..=201 {
        store.record(summary(&format!("/v1/n/{i}")));
    }
    let summaries = store.summaries();
    assert_eq!(summaries.len(), MAX_REQUEST_SUMMARIES);
    assert_eq!(summaries[0].path, "/v1/n/2");
    assert_eq!(summaries[199].path, "/v1/n/201");
    assert!(summaries.iter().all(|s| s.path != "/v1/n/1"));
}

#[test]
fn opening_keeps_the_newest_summaries_on_disk() {
    let loaded: Vec<RequestSummary> = (0..250).map(|i| summary(&format!("/p/{i}"))).collect();
    let store = RecordStore::open(loaded);
    let summaries = store.summaries();
    assert_eq!(summaries.len(), 200);
    assert_eq!(summaries[0].path, "/p/50");
    assert_eq!(summaries[199].path, "/p/249");
}

#[test]
fn request_summary_redacts_secrets_from_its_fields() {
    let mut store = RecordStore::open(Vec::new());
    store.set_secrets(vec![
        "path-redact-token".to_string(),
        String::new(),
        "must-not-appear-as-cursor-api-key".to_string(),
    ]);
    store.record(RequestSummary {
        time: "1".to_string(),
        method: "GET".to_string(),
        status: 200,
        remote_addr: "127.0.0.1:1".to_string(),
        path: "/v1/must-not-appear-as-cursor-api-key?t=path-redact-token".to_string(),
    });
    let dumped = format!("{:?}", store.summaries());
    assert!(!dumped.contains("must-not-appear-as-cursor-api-key"), "got {dumped}");
    assert!(!dumped.contains("path-redact-token"), "got {dumped}");
    assert_eq!(store.summaries()[0].path, "/v1/***?t=***");
    assert_eq!(store.summaries()[0].status, 200);
}

#[test]
fn clear_drops_every_summary() {
    let mut store = RecordStore::open(vec![summary("/a"), summary("/b")]);
    assert_eq!(store.len(), 2);
    store.clear();
    assert_eq!(store.len(), 0);
    assert!(store.summaries().is_empty());
}

#[test]
fn log_file_does_not_contain_the_bridge_token() {
    let secrets = log_secrets("must-not-appear-in-logs", None);
    let line = redact_owned("leaked Bridge Token must-not-appear-in-logs\n", &secrets);
    assert!(line.contains("leaked Bridge Token"));
    assert!(!line.contains("must-not-appear-in-logs"));
}

#[test]
fn log_file_does_not_contain_the_cursor_api_key() {
    let secrets = log_secrets("tok", Some("must-not-appear-as-cursor-api-key"));
    let line = redact_owned("key=must-not-appear-as-cursor-api-key tok\n", &secrets);
    assert_eq!(line, "key=*** ***\n");
}

#[test]
fn request_summary_redacts_cursor_api_key_from_path() {
    let mut store = RecordStore::open(Vec::new());
    store.set_secrets(log_secrets("path-redact-token", Some("must-not-appear-as-cursor-api-key")));
    store.record(summary("/v1/must-not-appear-as-cursor-api-key"));
    let dumped = format!("{:?}", store.summaries());
    assert!(!dumped.contains("must-not-appear-as-cursor-api-key"), "{dumped}");
    assert_eq!(store.summaries()[0].path, "/v1/***");
}

#[test]
fn request_summary_does_not_contain_bridge_token_or_request_body() {
    let mut store = RecordStore::open(Vec::new());
    store.set_secrets(log_secrets("must-not-appear-in-summary", None));
    let mut s = summary("/v1/models");
    s.method = "POST".to_string();
    s.remote_addr = "must-not-appear-in-summary@127.0.0.1".to_string();
    store.record(s);
    let summaries = store.summaries();
    assert_eq!(summaries.len(), 1);
    let dumped = format!("{:?}", summaries);
    assert!(!dumped.contains("must-not-appear-in-summary"), "{dumped}");
    assert!(!dumped.contains("secret-request-body-literal"), "{dumped}");
}

#[test]
fn finished_caller_request_is_kept_as_request_summary() {
    let mut store = RecordStore::open(Vec::new());
    store.set_secrets(log_secrets("summary-bridge-token", None));
    store.record(summary("/v1/models"));
    let summaries = store.summaries();
    assert_eq!(summaries.len(), 1);
    assert_eq!(summaries[0].method, "GET");
    assert_eq!(summaries[0].status, 200);
    assert_eq!(summaries[0].path, "/v1/models");
    assert!(summaries[0].remote_addr.contains("127.0.0.1"));
}

#[test]
fn clear_records_wipes_summaries_and_logs_in_memory_and_on_disk() {
    let mut store = RecordStore::open(vec![summary("/v1/a"), summary("/v1/b")]);
    assert_eq!(store.len(), 2);
    store.clear();
    assert!(store.summaries().is_empty());
}
