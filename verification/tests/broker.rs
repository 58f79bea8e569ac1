use mcp_run::engine::{build_rego_input, decide_from_eval, PolicyEngine, PolicyMode, PolicySource,
    RegoDirListing};
use mcp_run::envmap::EnvMap;
use mcp_run::executor::{build_command_env, finalize_capture, make_output, plan_spawn, BrokerEnv,
    CaptureBuffer, RunNetworkToolInput, ToolError};
use mcp_run::events::{decode_b64_payload, encode_event, preflight_status, stderr_chunk_event,
    stdout_chunk_event, RawStreamEvent};
use mcp_run::policy_rules::{ArgCheck, CommandRule, ValidationError};
use mcp_run::session::{OutputStreamKind, ReaderEvent, SessionEvent, SessionStep, StreamSession};
use mcp_run::{MAX_OUTPUT_BYTES, TRUNCATION_MARKER};

fn no_env() -> EnvMap {
    EnvMap::new()
}

fn rego_source(dir: &str, files: Vec<(&str, &str)>) -> PolicySource {
    PolicySource {
        rego_dir: Some(RegoDirListing {
            dir: dir.to_string(),
            files: Ok(files
                .into_iter()
                .map(|(n, s)| (n.to_string(), s.to_string()))
                .collect()),
        }),
        legacy: None,
    }
}

const ALLOW_HASH_POLICY: &str = "package sandbox.main\n\nimport rego.v1\n\ndefault allow := false\n\nallow if {\n  input.hash == \"feedface\"\n  startswith(input.path, \"/\")\n}\n";

#[test]
fn unconfigured_engine_denies_all_requests() {
    // With no policy source, every validation fails closed.
    let engine = PolicyEngine::from_sources(PolicySource { rego_dir: None, legacy: None });
    assert_eq!(engine.mode(), PolicyMode::DenyAll);
    for command in ["echo", "true", "anything"] {
        let err = engine
            .validate_resolved(
                &command.to_string(),
                &"/bin/echo".to_string(),
                &"".to_string(),
                &vec![],
                &vec![],
                &no_env(),
            )
            .expect_err("deny-all expected");
        assert!(matches!(err, ValidationError::PolicyUnavailable { .. }));
        assert!(err.message().contains("no policy source configured"));
    }
}

#[test]
fn unreadable_policy_dir_denies_all_requests() {
    let engine = PolicyEngine::from_sources(PolicySource {
        rego_dir: Some(RegoDirListing {
            dir: "/etc/policies".to_string(),
            files: Err("permission denied".to_string()),
        }),
        legacy: None,
    });
    assert_eq!(engine.mode(), PolicyMode::DenyAll);
    let err = engine
        .validate_resolved(
            &"echo".to_string(),
            &"/bin/echo".to_string(),
            &"".to_string(),
            &vec![],
            &vec![],
            &no_env(),
        )
        .expect_err("deny-all expected");
    assert_eq!(
        err.message(),
        "Policy deny-all is active: rego policy load failed: failed reading policy directory \
         '/etc/policies': permission denied"
    );
}

#[test]
fn reload_transitions_invalid_to_deny_all_and_recovers() {
    // Hot reload: a policy that allows X, then a syntactically broken
    // module, then the original again.
    let good = rego_source(
        "policies",
        vec![(
            "main.rego",
            "package sandbox.main\n\nimport rego.v1\n\ndefault allow := false\n\nallow if {\n  input.command == \"echo\"\n}\n",
        )],
    );
    let bad = rego_source(
        "policies",
        vec![("main.rego", "package sandbox.main\nallow if")],
    );

    let mut engine = PolicyEngine::from_sources(good);
    assert_eq!(engine.mode(), PolicyMode::Rego);
    assert!(engine
        .validate_resolved(
            &"echo".to_string(),
            &"/bin/echo".to_string(),
            &"".to_string(),
            &vec![],
            &vec![],
            &no_env(),
        )
        .is_ok());

    engine.reload_with(bad);
    assert_eq!(engine.mode(), PolicyMode::DenyAll);
    let err = engine
        .validate_resolved(
            &"echo".to_string(),
            &"/bin/echo".to_string(),
            &"".to_string(),
            &vec![],
            &vec![],
            &no_env(),
        )
        .expect_err("deny-all expected");
    assert!(matches!(err, ValidationError::PolicyUnavailable { .. }));

    let good_again = rego_source(
        "policies",
        vec![(
            "main.rego",
            "package sandbox.main\n\nimport rego.v1\n\ndefault allow := false\n\nallow if {\n  input.command == \"echo\"\n}\n",
        )],
    );
    engine.reload_with(good_again);
    assert_eq!(engine.mode(), PolicyMode::Rego);
    assert!(engine
        .validate_resolved(
            &"echo".to_string(),
            &"/bin/echo".to_string(),
            &"".to_string(),
            &vec![],
            &vec![],
            &no_env(),
        )
        .is_ok());
}

#[test]
fn reload_is_idempotent_for_the_same_source() {
    let bad = || rego_source("policies", vec![("main.rego", "package sandbox.main\nallow if")]);
    let mut once = PolicyEngine::from_sources(bad());
    let first_err = once
        .validate_resolved(
            &"echo".to_string(),
            &"/".to_string(),
            &"".to_string(),
            &vec![],
            &vec![],
            &no_env(),
        )
        .expect_err("deny-all expected")
        .message();
    once.reload_with(bad());
    let second_err = once
        .validate_resolved(
            &"echo".to_string(),
            &"/".to_string(),
            &"".to_string(),
            &vec![],
            &vec![],
            &no_env(),
        )
        .expect_err("deny-all expected")
        .message();
    assert_eq!(once.mode(), PolicyMode::DenyAll);
    assert_eq!(first_err, second_err);
}

#[test]
fn rego_input_exposes_command_path_hash_args_and_env() {
    // A policy matching on the hash accepts the right hash and rejects a
    // mismatched one.
    let engine = PolicyEngine::from_sources(rego_source(
        "policies",
        vec![("main.rego", ALLOW_HASH_POLICY)],
    ));
    assert_eq!(engine.mode(), PolicyMode::Rego);

    assert!(engine
        .validate_resolved(
            &"tool".to_string(),
            &"/usr/bin/tool".to_string(),
            &"feedface".to_string(),
            &vec![],
            &vec![],
            &no_env(),
        )
        .is_ok());

    let err = engine
        .validate_resolved(
            &"tool".to_string(),
            &"/usr/bin/tool".to_string(),
            &"deadbeef".to_string(),
            &vec![],
            &vec![],
            &no_env(),
        )
        .expect_err("mismatched hash should be denied");
    assert!(matches!(err, ValidationError::CommandNotAllowed(_)));
    assert_eq!(err.message(), "Command not allowed: tool");
}

#[test]
fn rego_input_is_rendered_with_all_five_fields() {
    let mut env = EnvMap::new();
    env.insert("FLAG".to_string(), "1".to_string());
    let input = build_rego_input(
        &"echo".to_string(),
        &"/bin/echo".to_string(),
        &"abc".to_string(),
        &vec!["ok".to_string()],
        &env,
    );
    assert_eq!(
        input,
        "{\"command\":\"echo\",\"path\":\"/bin/echo\",\"hash\":\"abc\",\"args\":[\"ok\"],\"env\":{\"FLAG\":\"1\"}}"
    );
}

#[test]
fn policy_dir_takes_precedence_over_legacy_policy() {
    let source = PolicySource {
        rego_dir: Some(RegoDirListing {
            dir: "policies".to_string(),
            files: Ok(vec![(
                "main.rego".to_string(),
                "package sandbox.main\n\nimport rego.v1\n\ndefault allow := false\n".to_string(),
            )]),
        }),
        legacy: Some(Ok(vec![])),
    };
    let engine = PolicyEngine::from_sources(source);
    assert_eq!(engine.mode(), PolicyMode::Rego);
    let err = engine
        .validate_resolved(
            &"echo".to_string(),
            &"/bin/echo".to_string(),
            &"".to_string(),
            &vec![],
            &vec![],
            &no_env(),
        )
        .expect_err("rego deny should win");
    assert!(err.message().contains("Command not allowed"));
}

#[test]
fn eval_outcomes_map_to_validation_results() {
    assert!(decide_from_eval(&"x".to_string(), Ok(true)).is_ok());
    let denied = decide_from_eval(&"x".to_string(), Ok(false)).expect_err("clean false denies");
    assert!(matches!(denied, ValidationError::CommandNotAllowed(_)));
    let failed = decide_from_eval(&"x".to_string(), Err("type error".to_string()))
        .expect_err("evaluation failure denies");
    assert_eq!(
        failed.message(),
        "Policy evaluation failed for 'x': type error"
    );
}

#[test]
fn command_env_prefers_broker_critical_values() {
    let mut user = EnvMap::new();
    user.insert("CUSTOM_USER_ENV".to_string(), "allowed".to_string());
    user.insert("HOME".to_string(), "user-home".to_string());
    user.insert("LANG".to_string(), "user-lang".to_string());
    user.insert("PATH".to_string(), "user-path".to_string());
    user.insert("http_proxy".to_string(), "user-http".to_string());
    user.insert("https_proxy".to_string(), "user-https".to_string());
    user.insert("no_proxy".to_string(), "user-no".to_string());
    user.insert("HTTP_PROXY".to_string(), "user-http-upper".to_string());
    user.insert("HTTPS_PROXY".to_string(), "user-https-upper".to_string());
    user.insert("NO_PROXY".to_string(), "user-no-upper".to_string());

    let broker = BrokerEnv {
        home: None,
        lang: None,
        path: Some("/usr/bin".to_string()),
        http_proxy: Some("http://proxy:3128".to_string()),
        https_proxy: None,
        no_proxy: Some("localhost".to_string()),
    };

    let merged = build_command_env(&user, &broker);

    let get = |k: &str| merged.get(&k.to_string()).cloned();
    assert_eq!(get("CUSTOM_USER_ENV"), Some("allowed".to_string()));
    assert_eq!(get("HOME"), Some("user-home".to_string()));
    assert_eq!(get("LANG"), Some("user-lang".to_string()));
    assert_eq!(get("PATH"), Some("/usr/bin".to_string()));
    assert_eq!(get("http_proxy"), Some("http://proxy:3128".to_string()));
    assert_eq!(get("HTTP_PROXY"), Some("http://proxy:3128".to_string()));
    assert_eq!(get("https_proxy"), None);
    assert_eq!(get("HTTPS_PROXY"), None);
    assert_eq!(get("no_proxy"), Some("localhost".to_string()));
    assert_eq!(get("NO_PROXY"), Some("localhost".to_string()));
}

#[test]
fn capture_truncates_at_one_mebibyte() {
    // A stream producing the cap plus a few bytes keeps exactly the cap and
    // gains the marker.
    let mut capture = CaptureBuffer::new();
    let chunk = vec![b'z'; 8192];
    let mut produced = 0usize;
    while produced + 8192 <= MAX_OUTPUT_BYTES + 5 {
        capture.push_chunk(&chunk);
        produced += 8192;
    }
    capture.push_chunk(&vec![b'z'; MAX_OUTPUT_BYTES + 5 - produced]);
    assert!(capture.is_truncated());
    assert_eq!(capture.byte_len(), MAX_OUTPUT_BYTES);
    let rendered = finalize_capture(capture);
    assert_eq!(rendered.len(), MAX_OUTPUT_BYTES + TRUNCATION_MARKER.len());
    assert!(rendered.ends_with(TRUNCATION_MARKER));
}

#[test]
fn capture_below_the_cap_is_untouched() {
    let mut capture = CaptureBuffer::new();
    capture.push_chunk(b"ok");
    assert!(!capture.is_truncated());
    let stderr = CaptureBuffer::new();
    let output = make_output(capture, stderr, Some(0));
    assert_eq!(output.stdout, "ok");
    assert_eq!(output.stderr, "");
    assert_eq!(output.exit_code, Some(0));
}

#[test]
fn spawn_plan_uses_caller_cwd_and_composed_env() {
    let input = RunNetworkToolInput {
        executable: "tool".to_string(),
        args: vec!["-v".to_string()],
        cwd: Some("/work".to_string()),
        env: None,
    };
    let broker = BrokerEnv {
        home: Some("/root".to_string()),
        lang: None,
        path: Some("/usr/bin".to_string()),
        http_proxy: None,
        https_proxy: None,
        no_proxy: None,
    };
    let plan = plan_spawn(input, "/usr/bin/tool".to_string(), &"/srv".to_string(), &broker);
    assert_eq!(plan.program, "/usr/bin/tool");
    assert_eq!(plan.args, vec!["-v".to_string()]);
    assert_eq!(plan.cwd, "/work");
    assert_eq!(plan.env.get(&"PATH".to_string()).map(String::as_str), Some("/usr/bin"));

    let input = RunNetworkToolInput {
        executable: "tool".to_string(),
        args: vec![],
        cwd: None,
        env: None,
    };
    let plan = plan_spawn(input, "/usr/bin/tool".to_string(), &"/srv".to_string(), &broker);
    assert_eq!(plan.cwd, "/srv");
}

#[test]
fn events_encode_to_canonical_json_lines() {
    assert_eq!(encode_event(&RawStreamEvent::Start), "{\"event\":\"start\"}");
    assert_eq!(
        encode_event(&RawStreamEvent::Stdout { data_b64: "aGVsbG8=".to_string() }),
        "{\"event\":\"stdout\",\"data_b64\":\"aGVsbG8=\"}"
    );
    assert_eq!(
        encode_event(&RawStreamEvent::Exit { exit_code: Some(0) }),
        "{\"event\":\"exit\",\"exitCode\":0}"
    );
    assert_eq!(
        encode_event(&RawStreamEvent::Exit { exit_code: Some(-7) }),
        "{\"event\":\"exit\",\"exitCode\":-7}"
    );
    assert_eq!(
        encode_event(&RawStreamEvent::Exit { exit_code: None }),
        "{\"event\":\"exit\",\"exitCode\":null}"
    );
    assert_eq!(
        encode_event(&RawStreamEvent::Error { message: "a\"b\\c\nd".to_string() }),
        "{\"event\":\"error\",\"message\":\"a\\\"b\\\\c\\nd\"}"
    );
}

#[test]
fn payload_events_round_trip_exact_bytes() {
    // Binary safety: the bytes 0xff 0x00 0x41 survive the encode/decode
    // round trip exactly.
    let bytes = vec![0xffu8, 0x00u8, 0x41u8];
    let event = stdout_chunk_event(&bytes);
    match &event {
        RawStreamEvent::Stdout { data_b64 } => {
            assert_eq!(decode_b64_payload(data_b64).expect("payload decodes"), bytes);
        }
        _ => panic!("wrong event kind"),
    }
    let event = stderr_chunk_event(b"oops");
    match &event {
        RawStreamEvent::Stderr { data_b64 } => {
            assert_eq!(data_b64, "b29wcw==");
            assert_eq!(decode_b64_payload(data_b64).expect("payload decodes"), b"oops".to_vec());
        }
        _ => panic!("wrong event kind"),
    }
    assert!(decode_b64_payload(&"!!".to_string()).is_err());
}

#[test]
fn session_emits_start_payloads_and_exit_in_order() {
    // Happy path with interleaved output, at the decision level: one start,
    // stdout chunks in order, a stderr chunk, then exit 0 once the child is
    // waited and both streams are drained.
    let mut session = StreamSession::new();
    let mut emitted: Vec<String> = Vec::new();
    emitted.push(encode_event(&session.begin()));

    let script = vec![
        SessionEvent::Reader(ReaderEvent::Chunk {
            stream: OutputStreamKind::Stdout,
            data: b"o1".to_vec(),
        }),
        SessionEvent::Reader(ReaderEvent::Chunk {
            stream: OutputStreamKind::Stderr,
            data: b"e1".to_vec(),
        }),
        SessionEvent::Reader(ReaderEvent::Chunk {
            stream: OutputStreamKind::Stdout,
            data: b"o2".to_vec(),
        }),
        SessionEvent::WaitDone { exit_code: Some(0) },
        SessionEvent::Reader(ReaderEvent::Done { stream: OutputStreamKind::Stdout }),
        SessionEvent::Reader(ReaderEvent::Done { stream: OutputStreamKind::Stderr }),
    ];
    let mut ended = false;
    for event in script {
        assert!(!ended, "no event may follow the exit event");
        match session.step(event) {
            SessionStep::Continue => {}
            SessionStep::Emit(e) => emitted.push(encode_event(&e)),
            SessionStep::EmitExit(e) => {
                emitted.push(encode_event(&e));
                ended = true;
            }
            SessionStep::FailWith(_) => panic!("no failure expected"),
        }
    }
    assert!(ended);
    assert_eq!(
        emitted,
        vec![
            "{\"event\":\"start\"}".to_string(),
            "{\"event\":\"stdout\",\"data_b64\":\"bzE=\"}".to_string(),
            "{\"event\":\"stderr\",\"data_b64\":\"ZTE=\"}".to_string(),
            "{\"event\":\"stdout\",\"data_b64\":\"bzI=\"}".to_string(),
            "{\"event\":\"exit\",\"exitCode\":0}".to_string(),
        ]
    );
}

#[test]
fn session_read_failure_emits_error_and_kills() {
    let mut session = StreamSession::new();
    let _ = session.begin();
    match session.step(SessionEvent::Reader(ReaderEvent::ReadError {
        stream: OutputStreamKind::Stdout,
        message: "pipe broke".to_string(),
    })) {
        SessionStep::FailWith(RawStreamEvent::Error { message }) => {
            assert_eq!(message, "Failed reading stdout: pipe broke");
        }
        _ => panic!("expected failure step"),
    }
}

#[test]
fn preflight_failures_map_to_statuses() {
    // A policy denial is a 403; any other pre-stream failure is a 500.
    let denial = ToolError::Validation(ValidationError::CommandNotAllowed("echo".to_string()));
    assert_eq!(preflight_status(&denial), 403);
    assert_eq!(
        denial.message(),
        "Command not allowed: echo"
    );
    let spawn = ToolError::Spawn { details: "no such file".to_string() };
    assert_eq!(preflight_status(&spawn), 500);
    assert_eq!(spawn.message(), "Failed to start subprocess: no such file");
}

#[test]
fn rego_mode_selected_when_policy_dir_is_set() {
    let engine = PolicyEngine::from_sources(rego_source(
        "policies",
        vec![(
            "main.rego",
            "package sandbox.main\n\nimport rego.v1\n\ndefault allow := false\n\nallow if {\n  input.command == \"echo\"\n}\n",
        )],
    ));
    assert_eq!(engine.mode(), PolicyMode::Rego);
}

#[test]
fn invalid_startup_policy_is_deny_all() {
    let engine = PolicyEngine::from_sources(rego_source(
        "policies",
        vec![("bad.rego", "package sandbox.main\nallow if")],
    ));
    assert_eq!(engine.mode(), PolicyMode::DenyAll);
    let err = engine
        .validate_resolved(
            &"echo".to_string(),
            &"/bin/echo".to_string(),
            &"".to_string(),
            &vec![],
            &vec![],
            &no_env(),
        )
        .expect_err("deny-all expected");
    assert!(matches!(err, ValidationError::PolicyUnavailable { .. }));
}

#[test]
fn legacy_json_fallback_mode_works_without_policy_dir() {
    let rules = vec![CommandRule {
        command: "echo".to_string(),
        args: vec![ArgCheck::Exact {
            value: "ok".to_string(),
            position: Some(0),
            required: Some(true),
        }],
        env: vec![],
        description: None,
    }];
    let engine = PolicyEngine::from_sources(PolicySource {
        rego_dir: None,
        legacy: Some(Ok(rules)),
    });
    assert_eq!(engine.mode(), PolicyMode::LegacyJson);
    assert!(engine
        .validate_resolved(
            &"echo".to_string(),
            &"/bin/echo".to_string(),
            &"".to_string(),
            &vec!["ok".to_string()],
            &vec![None],
            &no_env(),
        )
        .is_ok());
}

#[test]
fn rego_input_contains_command_path_args_env() {
    // The policy matches on the command token, one argument, one environment
    // value, and an absolute path; the full path as token does not match.
    let policy = "package sandbox.main\n\nimport rego.v1\n\ndefault allow := false\n\nallow if {\n  input.command == \"echo\"\n  input.args[0] == \"ok\"\n  input.env.FLAG == \"1\"\n  startswith(input.path, \"/\")\n}\n";
    let engine = PolicyEngine::from_sources(rego_source("policies", vec![("main.rego", policy)]));
    let mut env = EnvMap::new();
    env.insert("FLAG".to_string(), "1".to_string());
    let args = vec!["ok".to_string()];
    let files = vec![None];
    assert!(engine
        .validate_resolved(
            &"echo".to_string(),
            &"/bin/echo".to_string(),
            &"".to_string(),
            &args,
            &files,
            &env,
        )
        .is_ok());

    let err = engine
        .validate_resolved(
            &"/bin/echo".to_string(),
            &"/bin/echo".to_string(),
            &"".to_string(),
            &args,
            &files,
            &env,
        )
        .expect_err("command token should not match when full path is sent");
    assert!(err.message().contains("Command not allowed"));
}

#[test]
fn session_stream_is_uncapped() {
    // The raw stream applies no byte cap: well past the buffered cap, every
    // chunk still goes out whole and the exit event closes the stream.
    let mut session = StreamSession::new();
    let _ = session.begin();
    let chunk = vec![0u8; 8192];
    let requested = MAX_OUTPUT_BYTES + 4096;
    let mut sent = 0usize;
    let mut forwarded = 0usize;
    while sent < requested {
        let take = (requested - sent).min(8192);
        let step = session.step(SessionEvent::Reader(ReaderEvent::Chunk {
            stream: OutputStreamKind::Stdout,
            data: chunk[..take].to_vec(),
        }));
        match step {
            SessionStep::Emit(RawStreamEvent::Stdout { data_b64 }) => {
                forwarded += decode_b64_payload(&data_b64).expect("payload decodes").len();
            }
            _ => panic!("chunk should be forwarded"),
        }
        sent += take;
    }
    assert_eq!(forwarded, requested);

    session.step(SessionEvent::WaitDone { exit_code: Some(0) });
    session.step(SessionEvent::Reader(ReaderEvent::Done { stream: OutputStreamKind::Stdout }));
    match session.step(SessionEvent::Reader(ReaderEvent::Done {
        stream: OutputStreamKind::Stderr,
    })) {
        SessionStep::EmitExit(RawStreamEvent::Exit { exit_code }) => {
            assert_eq!(exit_code, Some(0));
        }
        _ => panic!("exit should close the stream"),
    }
}
