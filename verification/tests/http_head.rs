use cursor2api::http_head::{
    body_framing, chunk_plan, chunk_size, request_plan, content_length, expects_continue, find_header_end,
    force_connection_close, is_chunked, is_interim_status, next_head_step, parse_request_line,
    parse_status, request_target, strip_header, BodyFraming, HeadStep, MAX_HEAD_BYTES,
};

#[test]
fn header_end_is_just_past_the_blank_line() {
    assert_eq!(find_header_end(b"GET / HTTP/1.1\r\nHost: x\r\n\r\nbody"), Some(27));
    assert_eq!(find_header_end(b"GET / HTTP/1.1\r\n\r\n\r\n\r\n"), Some(18));
    assert_eq!(find_header_end(b"GET / HTTP/1.1\r\nHost: x\r\n"), None);
    assert_eq!(find_header_end(b""), None);
}

#[test]
fn head_step_refuses_an_oversized_head_after_a_read() {
    let mut big = vec![b'a'; MAX_HEAD_BYTES + 1];
    assert!(matches!(next_head_step(&big, true), HeadStep::TooLarge));
    big.extend_from_slice(b"\r\n\r\n");
    assert!(matches!(next_head_step(&big, true), HeadStep::TooLarge));
    assert!(matches!(next_head_step(&big, false), HeadStep::Complete(n) if n == MAX_HEAD_BYTES + 5));
    assert!(matches!(next_head_step(b"GET /", true), HeadStep::ReadMore));
}

#[test]
fn request_line_gives_method_and_path_without_query() {
    let head = "POST /v1/chat/completions?stream=true HTTP/1.1\r\nHost: 127.0.0.1\r\n\r\n";
    assert_eq!(
        parse_request_line(head),
        Some(("POST".to_string(), "/v1/chat/completions".to_string()))
    );
    assert_eq!(parse_request_line("  GET    /x   HTTP/1.1"), Some(("GET".to_string(), "/x".to_string())));
    assert_eq!(parse_request_line("GET\r\n"), None);
    assert_eq!(parse_request_line(""), None);
    assert_eq!(request_target(""), ("UNKNOWN".to_string(), "/".to_string()));
}

#[test]
fn status_code_is_the_second_word_of_the_first_line() {
    assert_eq!(parse_status("HTTP/1.1 200 OK\r\nContent-Length: 2\r\n\r\n"), Some(200));
    assert_eq!(parse_status("HTTP/1.1 100 Continue\r\n\r\n"), Some(100));
    assert_eq!(parse_status("HTTP/1.1 99999 Nope\r\n\r\n"), None);
    assert_eq!(parse_status("HTTP/1.1\r\n\r\n"), None);
    assert!(is_interim_status(100));
    assert!(is_interim_status(199));
    assert!(!is_interim_status(200));
}

#[test]
fn content_length_uses_the_first_such_line() {
    let head = "HTTP/1.1 200 OK\r\ncontent-LENGTH:  42 \r\nContent-Length: 7\r\n\r\n";
    assert_eq!(content_length(head), Some(42));
    assert_eq!(content_length("HTTP/1.1 200 OK\r\nContent-Length: abc\r\nContent-Length: 7\r\n\r\n"), None);
    assert_eq!(content_length("HTTP/1.1 204 No Content\r\n\r\n"), None);
    assert_eq!(content_length("X\r\nContent-Length: +5\r\n"), Some(5));
}

#[test]
fn chunked_and_continue_are_recognised_in_any_case() {
    assert!(is_chunked("HTTP/1.1 200 OK\r\nTransfer-Encoding: gzip, CHUNKED\r\n\r\n"));
    assert!(!is_chunked("HTTP/1.1 200 OK\r\nX-Transfer-Encoding: chunked\r\n\r\n"));
    assert!(expects_continue("POST / HTTP/1.1\r\nEXPECT:  100-Continue \r\n\r\n"));
    assert!(!expects_continue("POST / HTTP/1.1\r\nExpect: 100-continue-please\r\n\r\n"));
}

#[test]
fn body_framing_prefers_content_length() {
    assert!(matches!(
        body_framing("HTTP/1.1 200 OK\r\nContent-Length: 3\r\nTransfer-Encoding: chunked\r\n\r\n", true),
        BodyFraming::Length(3)
    ));
    assert!(matches!(
        body_framing("HTTP/1.1 200 OK\r\nTransfer-Encoding: chunked\r\n\r\n", true),
        BodyFraming::Chunked
    ));
    assert!(matches!(body_framing("HTTP/1.1 200 OK\r\n\r\n", true), BodyFraming::UntilClose));
    assert!(matches!(body_framing("GET / HTTP/1.1\r\n\r\n", false), BodyFraming::Empty));
}

#[test]
fn chunk_size_lines_are_hexadecimal() {
    assert_eq!(chunk_size("1a\r\n"), 26);
    assert_eq!(chunk_size("FF;ext=1\r\n"), 255);
    assert_eq!(chunk_size("0\r\n"), 0);
    assert_eq!(chunk_size("zz\r\n"), 0);
    assert_eq!(chunk_size(""), 0);
}

#[test]
fn strip_header_drops_the_named_lines() {
    let head = "POST / HTTP/1.1\r\nHost: x\r\nExpect: 100-continue\r\nEXPECT: again\r\n\r\n";
    assert_eq!(strip_header(head, "expect"), "POST / HTTP/1.1\r\nHost: x\r\n\r\n");
    assert_eq!(strip_header("", "expect"), "\r\n\r\n");
}

#[test]
fn connection_is_forced_closed_once() {
    let head = "HTTP/1.1 200 OK\r\nKeep-Alive: timeout=5\r\nConnection: keep-alive\r\nCONNECTION: upgrade\r\nContent-Length: 2\r\n\r\n";
    assert_eq!(
        force_connection_close(head),
        "HTTP/1.1 200 OK\r\nConnection: close\r\nContent-Length: 2\r\n\r\n"
    );
    assert_eq!(
        force_connection_close("HTTP/1.1 200 OK\r\n\r\n"),
        "HTTP/1.1 200 OK\r\nConnection: close\r\n\r\n"
    );
    let out = force_connection_close("HTTP/1.1 204 No Content\r\nconnection: close\r\n\r\n");
    assert_eq!(out.matches("Connection: close").count(), 1);
}

#[test]
fn request_plan_continues_strips_expect_and_records_the_target() {
    let head = "POST /v1/chat?x=1 HTTP/1.1\r\nHost: a\r\nExpect: 100-continue\r\n\r\n";
    let plan = request_plan(head);
    assert!(plan.continue_first);
    assert_eq!(plan.outbound, "POST /v1/chat?x=1 HTTP/1.1\r\nHost: a\r\n\r\n");
    assert_eq!((plan.method.as_str(), plan.path.as_str()), ("POST", "/v1/chat"));
    let plan = request_plan("\r\n\r\n");
    assert!(!plan.continue_first);
    assert_eq!((plan.method.as_str(), plan.path.as_str()), ("UNKNOWN", "/"));
}

#[test]
fn the_zero_size_chunk_is_the_last() {
    assert_eq!(chunk_plan("1a\r\n"), (26, false));
    assert_eq!(chunk_plan("0\r\n"), (0, true));
    assert_eq!(chunk_plan("zz\r\n"), (0, true));
}
