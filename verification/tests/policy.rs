use mcp_run::envmap::EnvMap;
use mcp_run::policy_rules::{validate_invocation, validate_legacy_invocation, ArgCheck,
    CommandRule, HashAlgorithm, ValidationError};

fn no_files(args: &Vec<String>) -> Vec<Option<Vec<u8>>> {
    args.iter().map(|_| None).collect()
}

fn npm_install_or_test_policy() -> Vec<CommandRule> {
    vec![
        CommandRule {
            command: "npm".to_string(),
            args: vec![ArgCheck::Exact {
                value: "install".to_string(),
                position: Some(0),
                required: Some(true),
            }],
            env: vec![],
            description: None,
        },
        CommandRule {
            command: "npm".to_string(),
            args: vec![ArgCheck::Exact {
                value: "test".to_string(),
                position: Some(0),
                required: Some(true),
            }],
            env: vec![],
            description: None,
        },
    ]
}

#[test]
fn lib_policy_applies_or_across_multiple_rules() {
    let policy = npm_install_or_test_policy();

    let good = vec!["test".to_string()];
    let files = no_files(&good);
    assert!(
        validate_invocation(&policy, &"npm".to_string(), &good, &files, &EnvMap::new()).is_ok()
    );

    let bad = vec!["publish".to_string()];
    let files = no_files(&bad);
    let err = validate_invocation(&policy, &"npm".to_string(), &bad, &files, &EnvMap::new())
        .expect_err("unknown mode should fail");
    assert!(err.message().contains("Tried 2 rule(s)"));
}

#[test]
fn policy_policy_applies_or_across_multiple_rules() {
    let policy = npm_install_or_test_policy();

    let good = vec!["test".to_string()];
    let files = no_files(&good);
    assert!(validate_legacy_invocation(
        &policy,
        &"npm".to_string(),
        &good,
        &files,
        &EnvMap::new()
    )
    .is_ok());

    let bad = vec!["publish".to_string()];
    let files = no_files(&bad);
    let err = validate_legacy_invocation(&policy, &"npm".to_string(), &bad, &files, &EnvMap::new())
        .expect_err("unknown mode should fail");
    assert!(err.message().contains("Tried 2 rule(s)"));
}

fn git_commit_policy() -> Vec<CommandRule> {
    vec![CommandRule {
        command: "git".to_string(),
        args: vec![
            ArgCheck::Exact {
                value: "commit".to_string(),
                position: Some(0),
                required: Some(true),
            },
            ArgCheck::Exact {
                value: "-m".to_string(),
                position: None,
                required: Some(true),
            },
            ArgCheck::Regex {
                pattern: ".*".to_string(),
                position: None,
                required: Some(false),
            },
        ],
        env: vec![],
        description: None,
    }]
}

#[test]
fn lib_policy_enforces_position_and_required_rules() {
    let policy = git_commit_policy();

    let missing_required = vec!["commit".to_string(), "message".to_string()];
    let files = no_files(&missing_required);
    let err = validate_invocation(
        &policy,
        &"git".to_string(),
        &missing_required,
        &files,
        &EnvMap::new(),
    )
    .expect_err("missing -m should fail");
    assert!(err.message().contains("Missing required argument matching: -m"));

    let good = vec![
        "commit".to_string(),
        "-m".to_string(),
        "message".to_string(),
    ];
    let files = no_files(&good);
    assert!(
        validate_invocation(&policy, &"git".to_string(), &good, &files, &EnvMap::new()).is_ok()
    );
}

#[test]
fn policy_policy_enforces_position_and_required_rules() {
    let policy = git_commit_policy();

    let missing_required = vec!["commit".to_string(), "message".to_string()];
    let files = no_files(&missing_required);
    let err = validate_legacy_invocation(
        &policy,
        &"git".to_string(),
        &missing_required,
        &files,
        &EnvMap::new(),
    )
    .expect_err("missing -m should fail");
    assert!(err.message().contains("Missing required argument matching: -m"));

    let good = vec![
        "commit".to_string(),
        "-m".to_string(),
        "message".to_string(),
    ];
    let files = no_files(&good);
    assert!(validate_legacy_invocation(
        &policy,
        &"git".to_string(),
        &good,
        &files,
        &EnvMap::new()
    )
    .is_ok());
}

fn npm_env_policy() -> Vec<CommandRule> {
    vec![CommandRule {
        command: "npm".to_string(),
        args: vec![ArgCheck::Regex {
            pattern: ".*".to_string(),
            position: None,
            required: Some(false),
        }],
        env: vec!["TOKEN".to_string()],
        description: None,
    }]
}

#[test]
fn lib_policy_enforces_env_allowlist() {
    let policy = npm_env_policy();
    let mut env = EnvMap::new();
    env.insert("UNSAFE".to_string(), "1".to_string());
    let args = vec!["test".to_string()];
    let files = no_files(&args);
    let err = validate_invocation(&policy, &"npm".to_string(), &args, &files, &env)
        .expect_err("disallowed env key should fail");
    assert!(err.message().contains("Environment variable not allowed: UNSAFE"));
}

#[test]
fn policy_policy_enforces_env_allowlist() {
    let policy = npm_env_policy();
    let mut env = EnvMap::new();
    env.insert("UNSAFE".to_string(), "1".to_string());
    let args = vec!["test".to_string()];
    let files = no_files(&args);
    let err = validate_legacy_invocation(&policy, &"npm".to_string(), &args, &files, &env)
        .expect_err("disallowed env key should fail");
    assert!(err.message().contains("Environment variable not allowed: UNSAFE"));
}

#[test]
fn policy_checks_exact_regex_hash_and_env_without_reading_files() {
    let content = b"hello-hash".to_vec();
    let expected_hash = mcp_run::digest::sha256_hex(&content);

    let policy = vec![CommandRule {
        command: "cmd".to_string(),
        args: vec![
            ArgCheck::Exact {
                value: "install".to_string(),
                position: Some(0),
                required: Some(true),
            },
            ArgCheck::Regex {
                pattern: "^pkg-[a-z]+$".to_string(),
                position: Some(1),
                required: Some(true),
            },
            ArgCheck::Hash {
                value: expected_hash,
                algorithm: Some(HashAlgorithm::Sha256),
                position: Some(2),
                required: Some(true),
            },
        ],
        env: vec!["TOKEN".to_string()],
        description: None,
    }];

    let args = vec![
        "install".to_string(),
        "pkg-core".to_string(),
        "payload.bin".to_string(),
    ];
    let files = vec![None, None, Some(content)];
    let mut env = EnvMap::new();
    env.insert("TOKEN".to_string(), "abc".to_string());

    assert!(validate_invocation(&policy, &"cmd".to_string(), &args, &files, &env).is_ok());

    let wrong_files = vec![None, None, Some(b"other".to_vec())];
    assert!(validate_invocation(&policy, &"cmd".to_string(), &args, &wrong_files, &env).is_err());
}

#[test]
fn unknown_command_is_not_allowed() {
    let policy = npm_env_policy();
    let args: Vec<String> = vec![];
    let files = no_files(&args);
    let err = validate_invocation(&policy, &"echo".to_string(), &args, &files, &EnvMap::new())
        .expect_err("unknown command should fail");
    assert!(matches!(err, ValidationError::CommandNotAllowed(_)));
    assert_eq!(err.message(), "Command not allowed: echo");
}

#[test]
fn rule_without_checks_rejects_arguments() {
    let policy = vec![CommandRule {
        command: "true".to_string(),
        args: vec![],
        env: vec![],
        description: None,
    }];
    let args = vec!["x".to_string()];
    let files = no_files(&args);
    let err = validate_invocation(&policy, &"true".to_string(), &args, &files, &EnvMap::new())
        .expect_err("arguments should be rejected");
    assert!(err.message().contains("Command does not allow arguments."));
}

#[test]
fn sha256_hex_renders_the_known_empty_digest() {
    assert_eq!(
        mcp_run::digest::sha256_hex(&vec![]),
        "e3b0c44298fc1c149afbf4c8996fb92427ae41e4649b934ca495991b7852b855"
    );
}
