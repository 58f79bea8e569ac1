use mcp_run::client::{collect_forwarded_env, parse_args, resolve_server_url, server_rejected,
    status_is_success, LineBuffer, RemoteClientError, ReplayAction, ReplayState};
use mcp_run::events::RawStreamEvent;

#[test]
fn parse_requires_delimiter() {
    let args = vec!["echo".to_string(), "hello".to_string()];
    let err = parse_args(&args).expect_err("missing delimiter should fail");
    assert!(matches!(err, RemoteClientError::MissingDelimiter));
}

#[test]
fn resolve_server_url_requires_full_url() {
    let err = resolve_server_url(Some("127.0.0.1:8000".to_string()))
        .expect_err("host:port shorthand should fail");
    assert!(matches!(err, RemoteClientError::InvalidServerUrl));
}

#[test]
fn resolve_server_url_accepts_http_and_trims() {
    let url = resolve_server_url(Some("  http://127.0.0.1:8000/raw ".to_string()))
        .expect("full url should resolve");
    assert_eq!(url, "http://127.0.0.1:8000/raw");
    assert!(resolve_server_url(Some("https://example.test/raw".to_string())).is_ok());
    assert!(matches!(
        resolve_server_url(None),
        Err(RemoteClientError::MissingServerUrl)
    ));
    assert!(matches!(
        resolve_server_url(Some("   ".to_string())),
        Err(RemoteClientError::MissingServerUrl)
    ));
    assert!(matches!(
        resolve_server_url(Some("http:///nohost".to_string())),
        Err(RemoteClientError::InvalidServerUrl)
    ));
}

#[test]
fn keep_env_fails_for_missing_local_variables() {
    let names = vec!["ONE".to_string(), "MISSING".to_string()];
    let values = vec![Some("1".to_string()), None];
    let err = collect_forwarded_env(&names, &values).expect_err("missing vars should fail");
    assert!(matches!(err, RemoteClientError::MissingLocalEnv(_)));
    assert!(err.message().contains("MISSING"));
}

#[test]
fn keep_env_collects_values_and_sorts_missing() {
    let names = vec!["B".to_string(), "A".to_string(), "C".to_string()];
    let values = vec![None, Some("a".to_string()), None];
    let err = collect_forwarded_env(&names, &values).expect_err("missing vars should fail");
    match err {
        RemoteClientError::MissingLocalEnv(list) => assert_eq!(list, "B, C"),
        _ => panic!("wrong error variant"),
    }

    let values = vec![
        Some("b".to_string()),
        Some("a".to_string()),
        Some("c".to_string()),
    ];
    let env = collect_forwarded_env(&names, &values).expect("all values present");
    assert_eq!(env.get(&"A".to_string()).map(String::as_str), Some("a"));
    assert_eq!(env.get(&"B".to_string()).map(String::as_str), Some("b"));
    assert_eq!(env.get(&"C".to_string()).map(String::as_str), Some("c"));
}

#[test]
fn parse_args_collects_keep_env_in_order_without_duplicates() {
    let args = vec![
        "--keep-env".to_string(),
        "B, A".to_string(),
        "--keep-env=A,C,,  ".to_string(),
        "--".to_string(),
        "echo".to_string(),
        "hello".to_string(),
        "world".to_string(),
    ];
    let parsed = parse_args(&args).expect("should parse");
    assert_eq!(parsed.keep_env, vec!["B".to_string(), "A".to_string(), "C".to_string()]);
    assert_eq!(parsed.executable, "echo");
    assert_eq!(parsed.args, vec!["hello".to_string(), "world".to_string()]);
}

#[test]
fn parse_args_rejects_unknown_option_and_missing_value() {
    let args = vec!["--verbose".to_string(), "--".to_string(), "x".to_string()];
    let err = parse_args(&args).expect_err("unknown option should fail");
    match err {
        RemoteClientError::UnknownOption(o) => assert_eq!(o, "--verbose"),
        _ => panic!("wrong error variant"),
    }

    let args = vec!["--keep-env".to_string(), "--".to_string(), "x".to_string()];
    let err = parse_args(&args).expect_err("missing value should fail");
    assert!(matches!(err, RemoteClientError::MissingKeepEnvValue));

    let args = vec!["--".to_string()];
    let err = parse_args(&args).expect_err("missing executable should fail");
    assert!(matches!(err, RemoteClientError::MissingExecutable));
}

#[test]
fn line_buffer_splits_lines_across_chunks() {
    let mut buf = LineBuffer::new();
    let lines = buf.push_chunk(b"{\"a\":1}\n{\"b\"");
    assert_eq!(lines, vec![b"{\"a\":1}".to_vec()]);
    let lines = buf.push_chunk(b":2}\n\ntail");
    assert_eq!(lines, vec![b"{\"b\":2}".to_vec(), b"".to_vec()]);
    assert_eq!(buf.take_rest(), b"tail".to_vec());
}

#[test]
fn replay_writes_streams_and_propagates_exit_code() {
    // The mock-server scenario, at the decision level: start, stdout
    // "hello", stderr [0xff, 0x00], exit 7.
    let mut state = ReplayState::new();
    let mut stdout: Vec<u8> = Vec::new();
    let mut stderr: Vec<u8> = Vec::new();

    let events = vec![
        RawStreamEvent::Start,
        RawStreamEvent::Stdout { data_b64: "aGVsbG8=".to_string() },
        RawStreamEvent::Stderr { data_b64: "/wA=".to_string() },
        RawStreamEvent::Exit { exit_code: Some(7) },
    ];
    for event in events {
        match state.handle_event(event).expect("event should be handled") {
            ReplayAction::WriteStdout(bytes) => stdout.extend_from_slice(&bytes),
            ReplayAction::WriteStderr(bytes) => stderr.extend_from_slice(&bytes),
            ReplayAction::Proceed => {}
        }
        if let Some(code) = state.exit_code {
            assert_eq!(code, 7);
            break;
        }
    }
    assert_eq!(stdout, b"hello".to_vec());
    assert_eq!(stderr, vec![0xff, 0x00]);
}

#[test]
fn replay_rejects_exit_before_start_and_missing_exit() {
    let mut state = ReplayState::new();
    let err = state
        .handle_event(RawStreamEvent::Exit { exit_code: Some(0) })
        .expect_err("exit before start should fail");
    assert!(matches!(err, RemoteClientError::Protocol(_)));

    let state = ReplayState::new();
    let err = state.finish().expect_err("missing exit should fail");
    match err {
        RemoteClientError::Protocol(m) => assert_eq!(m, "stream ended before exit event"),
        _ => panic!("wrong error variant"),
    }
}

#[test]
fn replay_signaled_child_maps_to_one() {
    let mut state = ReplayState::new();
    state.handle_event(RawStreamEvent::Start).expect("start");
    state
        .handle_event(RawStreamEvent::Exit { exit_code: None })
        .expect("exit without code");
    assert_eq!(state.finish().expect("finish"), 1);
}

#[test]
fn replay_remote_error_aborts() {
    let mut state = ReplayState::new();
    state.handle_event(RawStreamEvent::Start).expect("start");
    let err = state
        .handle_event(RawStreamEvent::Error { message: "boom".to_string() })
        .expect_err("remote error should abort");
    match err {
        RemoteClientError::RemoteRuntime(m) => assert_eq!(m, "boom"),
        _ => panic!("wrong error variant"),
    }
}

#[test]
fn rejected_response_replays_server_error() {
    assert!(!status_is_success(403));
    assert!(status_is_success(200));
    let err = server_rejected(403, Some("blocked".to_string()), "{\"error\":\"blocked\"}");
    assert!(matches!(
        err,
        RemoteClientError::ServerRejected { status: 403, .. }
    ));
    assert!(err.message().contains("blocked"));

    let fallback = server_rejected(500, None, "  plain body \n");
    match fallback {
        RemoteClientError::ServerRejected { message, .. } => assert_eq!(message, "plain body"),
        _ => panic!("wrong error variant"),
    }
}

#[test]
fn replay_rejects_payload_before_start() {
    let mut state = ReplayState::new();
    let err = state
        .handle_event(RawStreamEvent::Stdout { data_b64: "aGVsbG8=".to_string() })
        .expect_err("payload before start should fail");
    match err {
        RemoteClientError::Protocol(m) => {
            assert_eq!(m, "received stdout event before start event")
        }
        _ => panic!("wrong error variant"),
    }
}
