use vstd::prelude::*;

use crate::envmap::EnvMap;
use crate::jsonenc::{append_json_string, append_json_string_array, append_json_string_object,
    json_string, json_string_array, json_string_object};
use crate::policy_rules::{failing_details, has_matching_rule, legacy_allows, matching_rule_count,
    validate_legacy_invocation, Policy, ValidationError};
use crate::rego::{rego_parse_err, RegoArtifact};

verus! {

/// The query path at which a policy set exposes its `allow` decision.
pub const REGO_ALLOW_QUERY: &'static str = "data.sandbox.main.allow";

/// Which kind of policy the engine currently enforces.
#[derive(Debug, PartialEq, Eq, Structural)]
pub enum PolicyMode {
    Rego,
    LegacyJson,
    DenyAll,
}

/// The policy state consulted by every validation. Exactly one snapshot is
/// installed at a time; a reload replaces it wholesale and never edits it.
pub enum PolicySnapshot {
    /// A compiled policy artifact.
    Rego(RegoArtifact),
    /// A legacy rule list.
    LegacyJson(Policy),
    /// Fail-closed state: every validation is rejected with the reason.
    DenyAll(String),
}

/// One directory listing handed to the engine: the directory's name, for
/// messages, and the policy modules found under it (name and source, in
/// load order), or the error that reading the directory produced.
pub struct RegoDirListing {
    pub dir: String,
    pub files: Result<Vec<(String, String)>, String>,
}

/// What the engine loads from: a policy directory takes precedence over a
/// legacy policy file; with neither configured the engine denies all.
pub struct PolicySource {
    pub rego_dir: Option<RegoDirListing>,
    pub legacy: Option<Result<Policy, String>>,
}

pub open spec fn deny_no_source() -> Seq<char> {
    "no policy source configured (set POLICY_DIR or POLICY_FILE)"@
}

pub open spec fn deny_dir_read(dir: Seq<char>, err: Seq<char>) -> Seq<char> {
    "rego policy load failed: failed reading policy directory '"@ + dir + "': "@ + err
}

pub open spec fn deny_no_files(dir: Seq<char>) -> Seq<char> {
    "rego policy load failed: no .rego files found under policy directory '"@ + dir + "'"@
}

pub open spec fn deny_compile(name: Seq<char>, err: Seq<char>) -> Seq<char> {
    "rego policy load failed: failed compiling '"@ + name + "': "@ + err
}

pub open spec fn deny_legacy_load(err: Seq<char>) -> Seq<char> {
    "legacy JSON policy load failed ("@ + err + ")"@
}

/// The first module regorus fails to parse, or the module count.
pub open spec fn first_parse_fail(files: Seq<(String, String)>, from: int) -> int
    decreases files.len() - from,
{
    if from < 0 || from >= files.len() {
        files.len() as int
    } else if rego_parse_err(files[from].0@, files[from].1@) is Some {
        from
    } else {
        first_parse_fail(files, from + 1)
    }
}

/// The mode that loading from `source` must produce.
pub open spec fn source_mode(source: PolicySource) -> PolicyMode {
    match source.rego_dir {
        Some(listing) => match listing.files {
            Ok(files) => if files@.len() > 0 && first_parse_fail(files@, 0) == files@.len() {
                PolicyMode::Rego
            } else {
                PolicyMode::DenyAll
            },
            Err(_) => PolicyMode::DenyAll,
        },
        None => match source.legacy {
            Some(Ok(_)) => PolicyMode::LegacyJson,
            Some(Err(_)) => PolicyMode::DenyAll,
            None => PolicyMode::DenyAll,
        },
    }
}

/// The deny reason that loading from `source` must produce, meaningful when
/// the mode is deny-all.
pub open spec fn source_deny_reason(source: PolicySource) -> Seq<char> {
    match source.rego_dir {
        Some(listing) => match listing.files {
            Ok(files) => if files@.len() == 0 {
                deny_no_files(listing.dir@)
            } else {
                let k = first_parse_fail(files@, 0);
                deny_compile(files@[k].0@, rego_parse_err(files@[k].0@, files@[k].1@).unwrap())
            },
            Err(e) => deny_dir_read(listing.dir@, e@),
        },
        None => match source.legacy {
            Some(Ok(_)) => Seq::empty(),
            Some(Err(e)) => deny_legacy_load(e@),
            None => deny_no_source(),
        },
    }
}

/// Whether an installed snapshot is exactly what loading `source` produces:
/// the snapshot is an observable function of the source alone.
pub open spec fn snapshot_matches_source(s: PolicySnapshot, source: PolicySource) -> bool {
    match s {
        PolicySnapshot::Rego(artifact) => source_mode(source) == PolicyMode::Rego
            && (match source.rego_dir {
            Some(listing) => match listing.files {
                Ok(files) => artifact.modules() == files@,
                Err(_) => false,
            },
            None => false,
        }),
        PolicySnapshot::LegacyJson(rules) => source_mode(source) == PolicyMode::LegacyJson
            && (match source.legacy {
            Some(Ok(p)) => rules@ == p@,
            _ => false,
        }),
        PolicySnapshot::DenyAll(reason) => source_mode(source) == PolicyMode::DenyAll && reason@
            == source_deny_reason(source),
    }
}

pub open spec fn snapshot_mode(s: PolicySnapshot) -> PolicyMode {
    match s {
        PolicySnapshot::Rego(_) => PolicyMode::Rego,
        PolicySnapshot::LegacyJson(_) => PolicyMode::LegacyJson,
        PolicySnapshot::DenyAll(_) => PolicyMode::DenyAll,
    }
}

/// Loading is a function of the source: two snapshots loaded from the same
/// source agree on the mode and on everything a validation can observe.
/// In particular, reloading twice from the same source is the same as
/// reloading once.
pub proof fn lemma_reload_deterministic(s1: PolicySnapshot, s2: PolicySnapshot, source: PolicySource)
    requires
        snapshot_matches_source(s1, source),
        snapshot_matches_source(s2, source),
    ensures
        snapshot_mode(s1) == snapshot_mode(s2),
        s1 matches PolicySnapshot::DenyAll(r1) ==> (s2 matches PolicySnapshot::DenyAll(r2)
            && r1@ == r2@),
        s1 matches PolicySnapshot::Rego(a1) ==> (s2 matches PolicySnapshot::Rego(a2)
            && a1.modules() == a2.modules()),
        s1 matches PolicySnapshot::LegacyJson(p1) ==> (s2 matches PolicySnapshot::LegacyJson(p2)
            && p1@ == p2@),
{
}

/// Builds the snapshot that `source` describes: compiles the modules of a
/// policy directory in order, falls back to the legacy rule list, and
/// otherwise — or on any failure — installs the deny-all state with the
/// failure's reason.
fn build_snapshot(source: PolicySource) -> (s: PolicySnapshot)
    ensures
        snapshot_matches_source(s, source),
{
    proof {
        reveal_strlit("no policy source configured (set POLICY_DIR or POLICY_FILE)");
        reveal_strlit("rego policy load failed: failed reading policy directory '");
        reveal_strlit("rego policy load failed: no .rego files found under policy directory '");
        reveal_strlit("rego policy load failed: failed compiling '");
        reveal_strlit("legacy JSON policy load failed (");
        reveal_strlit("': ");
        reveal_strlit("'");
        reveal_strlit(")");
    }
    match source.rego_dir {
        Some(listing) => match listing.files {
            Err(e) => {
                let mut reason = String::new();
                reason.append("rego policy load failed: failed reading policy directory '");
                reason.append(listing.dir.as_str());
                reason.append("': ");
                reason.append(e.as_str());
                PolicySnapshot::DenyAll(reason)
            }
            Ok(files) => {
                if files.len() == 0 {
                    let mut reason = String::new();
                    reason.append(
                        "rego policy load failed: no .rego files found under policy directory '",
                    );
                    reason.append(listing.dir.as_str());
                    reason.append("'");
                    return PolicySnapshot::DenyAll(reason);
                }
                let n = files.len();
                let mut artifact = RegoArtifact::new();
                let mut i: usize = 0;
                while i < n
                    invariant
                        i <= n,
                        n == files@.len(),
                        n >= 1,
                        source.rego_dir matches Some(l) && l.files matches Ok(fs) && fs@ == files@,
                        artifact.modules() =~= files@.take(i as int),
                        first_parse_fail(files@, 0) == first_parse_fail(files@, i as int),
                    decreases n - i,
                {
                    let name = files[i].0.clone();
                    let text = files[i].1.clone();
                    match artifact.add_module(name, text) {
                        Ok(()) => {
                            proof {
                                assert(artifact.modules() =~= files@.take(i as int + 1));
                            }
                        }
                        Err(e) => {
                            proof {
                                reveal_strlit("rego policy load failed: failed compiling '");
                                reveal_strlit("': ");
                                assert(first_parse_fail(files@, i as int) == i as int);
                            }
                            let mut reason = String::new();
                            reason.append("rego policy load failed: failed compiling '");
                            reason.append(files[i].0.as_str());
                            reason.append("': ");
                            reason.append(e.as_str());
                            proof {
                                assert(reason@ =~= deny_compile(
                                    files@[i as int].0@,
                                    rego_parse_err(files@[i as int].0@, files@[i as int].1@).unwrap(),
                                ));
                            }
                            return PolicySnapshot::DenyAll(reason);
                        }
                    }
                    i = i + 1;
                }
                proof {
                    assert(files@.take(n as int) =~= files@);
                    assert(first_parse_fail(files@, n as int) == n as int);
                }
                PolicySnapshot::Rego(artifact)
            }
        },
        None => match source.legacy {
            Some(Ok(policy)) => PolicySnapshot::LegacyJson(policy),
            Some(Err(e)) => {
                let mut reason = String::new();
                reason.append("legacy JSON policy load failed (");
                reason.append(e.as_str());
                reason.append(")");
                PolicySnapshot::DenyAll(reason)
            }
            None => {
                let mut reason = String::new();
                reason.append("no policy source configured (set POLICY_DIR or POLICY_FILE)");
                PolicySnapshot::DenyAll(reason)
            }
        },
    }
}

/// The policy engine: one installed snapshot, consulted by every
/// validation, replaced atomically by `reload_with`.
pub struct PolicyEngine {
    snapshot: PolicySnapshot,
}

impl PolicyEngine {
    /// The installed snapshot.
    pub closed spec fn snapshot(&self) -> PolicySnapshot {
        self.snapshot
    }

    /// Builds an engine from a policy source; a failed load yields a
    /// deny-all engine, never a construction failure.
    pub fn from_sources(source: PolicySource) -> (r: PolicyEngine)
        ensures
            snapshot_matches_source(r.snapshot(), source),
    {
        PolicyEngine { snapshot: build_snapshot(source) }
    }

    /// Builds an engine directly over a legacy rule list.
    pub fn from_legacy_policy_for_tests(policy: Policy) -> (r: PolicyEngine)
        ensures
            r.snapshot() matches PolicySnapshot::LegacyJson(p) && p@ == policy@,
    {
        PolicyEngine { snapshot: PolicySnapshot::LegacyJson(policy) }
    }

    /// Re-reads the source and swaps the snapshot. A reader sees either the
    /// old snapshot or the new one, never a mix; a failed load installs the
    /// deny-all state rather than leaving a broken artifact live.
    pub fn reload_with(&mut self, source: PolicySource)
        ensures
            snapshot_matches_source(final(self).snapshot(), source),
    {
        self.snapshot = build_snapshot(source);
    }

    /// The mode of the installed snapshot.
    pub fn mode(&self) -> (r: PolicyMode)
        ensures
            r == snapshot_mode(self.snapshot()),
    {
        match &self.snapshot {
            PolicySnapshot::Rego(_) => PolicyMode::Rego,
            PolicySnapshot::LegacyJson(_) => PolicyMode::LegacyJson,
            PolicySnapshot::DenyAll(_) => PolicyMode::DenyAll,
        }
    }
}

} // verus!
verus! {

/// The JSON evaluation input: the command token, the resolved path, the
/// executable's content hash, the argument list, and the caller environment.
pub open spec fn rego_input_json(
    command: Seq<char>,
    path: Seq<char>,
    hash: Seq<char>,
    args: Seq<String>,
    env: Seq<(String, String)>,
) -> Seq<char> {
    "{\"command\":"@ + json_string(command) + ",\"path\":"@ + json_string(path) + ",\"hash\":"@
        + json_string(hash) + ",\"args\":"@ + json_string_array(args) + ",\"env\":"@
        + json_string_object(env) + "}"@
}

/// Renders the evaluation input the policy sees. Every field the policy may
/// match on — command, path, hash, args, env — stands in the result.
pub fn build_rego_input(
    command: &String,
    path: &String,
    hash: &String,
    args: &Vec<String>,
    env: &EnvMap,
) -> (r: String)
    ensures
        r@ == rego_input_json(command@, path@, hash@, args@, env.seq()),
{
    proof {
        reveal_strlit("{\"command\":");
        reveal_strlit(",\"path\":");
        reveal_strlit(",\"hash\":");
        reveal_strlit(",\"args\":");
        reveal_strlit(",\"env\":");
        reveal_strlit("}");
    }
    let mut out = String::new();
    out.append("{\"command\":");
    append_json_string(&mut out, command.as_str());
    out.append(",\"path\":");
    append_json_string(&mut out, path.as_str());
    out.append(",\"hash\":");
    append_json_string(&mut out, hash.as_str());
    out.append(",\"args\":");
    append_json_string_array(&mut out, args);
    out.append(",\"env\":");
    append_json_string_object(&mut out, env);
    out.append("}");
    proof {
        assert(out@ =~= rego_input_json(command@, path@, hash@, args@, env.seq()));
    }
    out
}

/// Maps the outcome of a policy evaluation to the validation result: a clean
/// `true` allows, a clean `false` is a denial naming the command, and an
/// evaluation failure is surfaced distinctly — and still denies.
pub fn decide_from_eval(command: &String, outcome: Result<bool, String>) -> (r: Result<
    (),
    ValidationError,
>)
    ensures
        r is Ok <==> outcome == Ok::<bool, String>(true),
        outcome == Ok::<bool, String>(false) <==> (r matches Err(e) && e matches
            ValidationError::CommandNotAllowed(c) && c@ == command@),
        outcome matches Err(d) ==> (r matches Err(e) && e matches
            ValidationError::PolicyEvaluationFailed { command: c, details } && c@ == command@
            && details == d),
        outcome is Err <==> (r matches Err(e) && e is PolicyEvaluationFailed),
        r is Ok || (r matches Err(e) && ((e matches ValidationError::CommandNotAllowed(c) && c@
            == command@) || (e matches ValidationError::PolicyEvaluationFailed { command: c2, .. }
            && c2@ == command@))),
{
    match outcome {
        Ok(true) => Ok(()),
        Ok(false) => Err(ValidationError::CommandNotAllowed(command.clone())),
        Err(details) => Err(
            ValidationError::PolicyEvaluationFailed { command: command.clone(), details },
        ),
    }
}

/// The error reported when the executable path cannot be resolved.
pub fn resolution_failed_error(command: &String, details: &String) -> (r: ValidationError)
    ensures
        r matches ValidationError::RuleValidationFailed { command: c, rule_count, details: d }
            && c@ == command@ && rule_count == 1 && d@ == "unable to resolve executable path: "@
            + details@,
{
    proof {
        reveal_strlit("unable to resolve executable path: ");
    }
    let mut d = String::new();
    d.append("unable to resolve executable path: ");
    d.append(details.as_str());
    proof {
        assert(d@ =~= "unable to resolve executable path: "@ + details@);
    }
    ValidationError::RuleValidationFailed { command: command.clone(), rule_count: 1, details: d }
}

impl PolicyEngine {
    /// Validates a resolved invocation against the installed snapshot.
    ///
    /// `path` is the resolved executable and `hash` the hex digest of its
    /// contents (empty when unreadable); `files` holds, for each argument,
    /// the contents of the file the argument names, for hash checks of a
    /// legacy policy. In deny-all state every input is rejected with
    /// `PolicyUnavailable`; a legacy snapshot decides exactly as
    /// `validate_legacy_invocation`; a policy artifact is asked for the
    /// `allow` decision over the rendered evaluation input, and its answer
    /// is mapped as `decide_from_eval`.
    pub fn validate_resolved(
        &self,
        command: &String,
        path: &String,
        hash: &String,
        args: &Vec<String>,
        files: &Vec<Option<Vec<u8>>>,
        env: &EnvMap,
    ) -> (r: Result<(), ValidationError>)
        requires
            files@.len() == args@.len(),
        ensures
            self.snapshot() matches PolicySnapshot::DenyAll(reason) ==> (r matches Err(e)
                && e matches ValidationError::PolicyUnavailable { details } && details@ == reason@),
            (r matches Err(e) && e is PolicyUnavailable) ==> self.snapshot() is DenyAll,
            self.snapshot() matches PolicySnapshot::LegacyJson(policy) ==> {
                &&& (r is Ok <==> legacy_allows(policy@, command@, args@, files@, env.seq()))
                &&& !has_matching_rule(policy@, command@, 0) ==> (r matches Err(e) && e matches
                    ValidationError::CommandNotAllowed(c) && c@ == command@)
                &&& (has_matching_rule(policy@, command@, 0) && !legacy_allows(
                    policy@,
                    command@,
                    args@,
                    files@,
                    env.seq(),
                )) ==> (r matches Err(e) && e matches ValidationError::RuleValidationFailed {
                    command: c,
                    rule_count,
                    details,
                } && c@ == command@ && rule_count == matching_rule_count(policy@, command@, 0)
                    && details@ == failing_details(policy@, command@, args@, files@, env.seq(), 0))
            },
            self.snapshot() is Rego ==> (r is Ok || (r matches Err(e) && ((e matches
                ValidationError::CommandNotAllowed(c) && c@ == command@) || (e matches
                ValidationError::PolicyEvaluationFailed { command: c2, .. } && c2@ == command@)))),
    {
        match &self.snapshot {
            PolicySnapshot::DenyAll(reason) => Err(
                ValidationError::PolicyUnavailable { details: reason.clone() },
            ),
            PolicySnapshot::LegacyJson(policy) => validate_legacy_invocation(
                policy,
                command,
                args,
                files,
                env,
            ),
            PolicySnapshot::Rego(artifact) => {
                let input = build_rego_input(command, path, hash, args, env);
                let outcome = artifact.eval_bool(REGO_ALLOW_QUERY, input.as_str());
                decide_from_eval(command, outcome)
            }
        }
    }
}

} // verus!
