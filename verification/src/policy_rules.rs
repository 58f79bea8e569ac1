use vstd::prelude::*;

use crate::digest::sha256_hex_of;

verus! {

/// Whether the regex crate's parser accepts `pattern`.
pub uninterp spec fn regex_valid(pattern: Seq<char>) -> bool;

/// Whether the regular expression `pattern` matches somewhere inside `text`,
/// as the regex crate decides it. Meaningful only when `regex_valid(pattern)`.
pub uninterp spec fn regex_match(pattern: Seq<char>, text: Seq<char>) -> bool;

/// Relies on regex::Regex::new and regex::Regex::is_match: whether the
/// pattern compiles, and whether it matches the text, are functions of the
/// pattern and the text alone.
#[verifier::external_body]
fn regex_is_match(pattern: &String, text: &String) -> (r: bool)
    ensures
        r == (regex_valid(pattern@) && regex_match(pattern@, text@)),
{
    regex::Regex::new(pattern).is_ok_and(|re| re.is_match(text))
}

/// Hash algorithms a policy rule may name for a hash check.
pub enum HashAlgorithm {
    Sha256,
}

/// One check that a rule applies to command arguments.
pub enum ArgCheck {
    Exact { value: String, position: Option<usize>, required: Option<bool> },
    Regex { pattern: String, position: Option<usize>, required: Option<bool> },
    Hash {
        value: String,
        algorithm: Option<HashAlgorithm>,
        position: Option<usize>,
        required: Option<bool>,
    },
}

/// One rule of a policy: a command name, the argument checks, and the
/// environment keys the rule allows.
pub struct CommandRule {
    pub command: String,
    pub args: Vec<ArgCheck>,
    pub env: Vec<String>,
    pub description: Option<String>,
}

pub type Policy = Vec<CommandRule>;

pub open spec fn spec_position(check: ArgCheck) -> Option<usize> {
    match check {
        ArgCheck::Exact { position, .. } => position,
        ArgCheck::Regex { position, .. } => position,
        ArgCheck::Hash { position, .. } => position,
    }
}

pub open spec fn spec_required(check: ArgCheck) -> bool {
    match check {
        ArgCheck::Exact { required, .. } => required == Some(true),
        ArgCheck::Regex { required, .. } => required == Some(true),
        ArgCheck::Hash { required, .. } => required == Some(true),
    }
}

pub open spec fn spec_expected_description(check: ArgCheck) -> Seq<char> {
    match check {
        ArgCheck::Exact { value, .. } => value@,
        ArgCheck::Regex { .. } => "regex"@,
        ArgCheck::Hash { .. } => "hash"@,
    }
}

impl ArgCheck {
    /// The fixed argument position this check is pinned to, if any.
    pub fn position(&self) -> (r: Option<usize>)
        ensures
            r == spec_position(*self),
    {
        match self {
            ArgCheck::Exact { position, .. } => *position,
            ArgCheck::Regex { position, .. } => *position,
            ArgCheck::Hash { position, .. } => *position,
        }
    }

    /// Whether some argument must satisfy this check.
    pub fn required(&self) -> (r: bool)
        ensures
            r == spec_required(*self),
    {
        let required = match self {
            ArgCheck::Exact { required, .. } => required,
            ArgCheck::Regex { required, .. } => required,
            ArgCheck::Hash { required, .. } => required,
        };
        match required {
            Some(b) => *b,
            None => false,
        }
    }

    /// The text a missing-required-argument error names for this check.
    pub fn expected_description(&self) -> (r: String)
        ensures
            r@ == spec_expected_description(*self),
    {
        match self {
            ArgCheck::Exact { value, .. } => value.clone(),
            ArgCheck::Regex { .. } => String::from_str("regex"),
            ArgCheck::Hash { .. } => String::from_str("hash"),
        }
    }
}

/// The contents of the file an argument names, as a byte sequence, or
/// nothing if the file was unreadable.
pub open spec fn opt_bytes_view(f: Option<Vec<u8>>) -> Option<Seq<u8>> {
    match f {
        Some(v) => Some(v@),
        None => None,
    }
}

/// Whether `arg` satisfies `check`. A hash check reads the file the argument
/// names; `file` holds that file's contents, or nothing if it was unreadable.
pub open spec fn arg_matches(check: ArgCheck, arg: Seq<char>, file: Option<Seq<u8>>) -> bool {
    match check {
        ArgCheck::Exact { value, .. } => arg == value@,
        ArgCheck::Regex { pattern, .. } => regex_valid(pattern@) && regex_match(pattern@, arg),
        ArgCheck::Hash { value, .. } => match file {
            Some(bytes) => sha256_hex_of(bytes) == value@,
            None => false,
        },
    }
}

/// Decides `arg_matches`. Every configured hash algorithm is SHA-256.
pub fn check_arg(check: &ArgCheck, arg: &String, file: &Option<Vec<u8>>) -> (r: bool)
    ensures
        r == arg_matches(*check, arg@, opt_bytes_view(*file)),
{
    match check {
        ArgCheck::Exact { value, .. } => arg.eq(value),
        ArgCheck::Regex { pattern, .. } => regex_is_match(pattern, arg),
        ArgCheck::Hash { value, algorithm, .. } => {
            let _ = algorithm;
            match file {
                Some(bytes) => {
                    let hex = crate::digest::sha256_hex(bytes);
                    hex.eq(value)
                }
                None => false,
            }
        }
    }
}

} // verus!
use crate::text::{append_u64, dec_digits};

verus! {

/// Whether a check pinned to a position applies to the argument at `index`.
pub open spec fn pos_admits(check: ArgCheck, index: int) -> bool {
    match spec_position(check) {
        None => true,
        Some(p) => p == index,
    }
}

/// Whether some check of the rule accepts the argument at `index`.
pub open spec fn matches_at(
    checks: Seq<ArgCheck>,
    index: int,
    arg: Seq<char>,
    file: Option<Seq<u8>>,
) -> bool {
    exists|c: int|
        0 <= c < checks.len() && pos_admits(checks[c], index) && arg_matches(
            checks[c],
            arg,
            file,
        )
}

/// Whether a required check is satisfied by the argument list.
pub open spec fn required_satisfied(
    check: ArgCheck,
    args: Seq<String>,
    files: Seq<Option<Vec<u8>>>,
) -> bool {
    match spec_position(check) {
        Some(p) => p < args.len() && arg_matches(check, args[p as int]@, opt_bytes_view(
            files[p as int],
        )),
        None => exists|i: int|
            0 <= i < args.len() && arg_matches(check, args[i]@, opt_bytes_view(files[i])),
    }
}

/// Whether the rule's checks admit the argument list: a rule without checks
/// admits only an empty list; otherwise every argument must satisfy some
/// applicable check, and every required check must be satisfied.
pub open spec fn rule_admits(
    checks: Seq<ArgCheck>,
    args: Seq<String>,
    files: Seq<Option<Vec<u8>>>,
) -> bool {
    if checks.len() == 0 {
        args.len() == 0
    } else {
        (forall|i: int|
            0 <= i < args.len() ==> matches_at(checks, i, args[i]@, opt_bytes_view(files[i])))
            && (forall|c: int|
            0 <= c < checks.len() && spec_required(checks[c]) ==> required_satisfied(
                checks[c],
                args,
                files,
            ))
    }
}

/// The first argument index not admitted by any check, or `args.len()`.
pub open spec fn first_unmatched_arg(
    checks: Seq<ArgCheck>,
    args: Seq<String>,
    files: Seq<Option<Vec<u8>>>,
    from: int,
) -> int
    decreases args.len() - from,
{
    if from < 0 || from >= args.len() {
        args.len() as int
    } else if matches_at(checks, from, args[from]@, opt_bytes_view(files[from])) {
        first_unmatched_arg(checks, args, files, from + 1)
    } else {
        from
    }
}

/// The first required check the argument list leaves unsatisfied, or `checks.len()`.
pub open spec fn first_unmet_required(
    checks: Seq<ArgCheck>,
    args: Seq<String>,
    files: Seq<Option<Vec<u8>>>,
    from: int,
) -> int
    decreases checks.len() - from,
{
    if from < 0 || from >= checks.len() {
        checks.len() as int
    } else if spec_required(checks[from]) && !required_satisfied(checks[from], args, files) {
        from
    } else {
        first_unmet_required(checks, args, files, from + 1)
    }
}

/// The message `validate_rule` returns when the rule does not admit the
/// argument list.
pub open spec fn rule_error_msg(
    checks: Seq<ArgCheck>,
    args: Seq<String>,
    files: Seq<Option<Vec<u8>>>,
) -> Seq<char> {
    if checks.len() == 0 {
        "Command does not allow arguments."@
    } else {
        let i = first_unmatched_arg(checks, args, files, 0);
        if i < args.len() {
            "Argument not allowed at position "@ + dec_digits(i as nat) + ": "@ + args[i]@
        } else {
            let c = first_unmet_required(checks, args, files, 0);
            match spec_position(checks[c]) {
                Some(p) => "Missing required argument at position "@ + dec_digits(p as nat),
                None => "Missing required argument matching: "@ + spec_expected_description(
                    checks[c],
                ),
            }
        }
    }
}

/// Decides whether some check admits the argument at `index`.
fn matches_any_check(
    checks: &Vec<ArgCheck>,
    index: usize,
    arg: &String,
    file: &Option<Vec<u8>>,
) -> (r: bool)
    ensures
        r == matches_at(checks@, index as int, arg@, opt_bytes_view(*file)),
{
    let n = checks.len();
    let mut c: usize = 0;
    while c < n
        invariant
            c <= n,
            n == checks@.len(),
            forall|j: int|
                0 <= j < c ==> !(pos_admits(checks@[j], index as int) && arg_matches(
                    checks@[j],
                    arg@,
                    opt_bytes_view(*file),
                )),
        decreases n - c,
    {
        let admits = match checks[c].position() {
            Some(p) => p == index,
            None => true,
        };
        if admits && check_arg(&checks[c], arg, file) {
            return true;
        }
        c = c + 1;
    }
    false
}

/// Decides whether a required check is satisfied by the argument list.
fn check_satisfied(
    check: &ArgCheck,
    args: &Vec<String>,
    files: &Vec<Option<Vec<u8>>>,
) -> (r: bool)
    requires
        files@.len() == args@.len(),
    ensures
        r == required_satisfied(*check, args@, files@),
{
    match check.position() {
        Some(p) => {
            if p < args.len() {
                check_arg(check, &args[p], &files[p])
            } else {
                false
            }
        }
        None => {
            let n = args.len();
            let mut i: usize = 0;
            while i < n
                invariant
                    i <= n,
                    n == args@.len(),
                    files@.len() == args@.len(),
                    spec_position(*check) is None,
                    forall|j: int|
                        0 <= j < i ==> !arg_matches(*check, args@[j]@, opt_bytes_view(files@[j])),
                decreases n - i,
            {
                if check_arg(check, &args[i], &files[i]) {
                    return true;
                }
                i = i + 1;
            }
            false
        }
    }
}

/// Validates the argument list against one rule's checks. `files` holds, for
/// each argument, the contents of the file that argument names, where it
/// names a readable one; hash checks consult it.
pub fn validate_rule(
    args: &Vec<String>,
    files: &Vec<Option<Vec<u8>>>,
    checks: &Vec<ArgCheck>,
) -> (r: Result<(), String>)
    requires
        files@.len() == args@.len(),
    ensures
        r is Ok <==> rule_admits(checks@, args@, files@),
        r matches Err(m) ==> m@ == rule_error_msg(checks@, args@, files@),
{
    if checks.len() == 0 {
        if args.len() == 0 {
            return Ok(());
        }
        proof {
            reveal_strlit("Command does not allow arguments.");
        }
        return Err(String::from_str("Command does not allow arguments."));
    }

    let n = args.len();
    let mut i: usize = 0;
    while i < n
        invariant
            i <= n,
            n == args@.len(),
            files@.len() == args@.len(),
            checks@.len() > 0,
            forall|j: int|
                0 <= j < i ==> matches_at(checks@, j, args@[j]@, opt_bytes_view(files@[j])),
            first_unmatched_arg(checks@, args@, files@, 0) == first_unmatched_arg(
                checks@,
                args@,
                files@,
                i as int,
            ),
        decreases n - i,
    {
        if !matches_any_check(checks, i, &args[i], &files[i]) {
            let mut m = String::new();
            proof {
                reveal_strlit("Argument not allowed at position ");
                reveal_strlit(": ");
            }
            m.append("Argument not allowed at position ");
            append_u64(&mut m, i as u64);
            m.append(": ");
            m.append(args[i].as_str());
            return Err(m);
        }
        i = i + 1;
    }

    let cn = checks.len();
    let mut c: usize = 0;
    while c < cn
        invariant
            c <= cn,
            cn == checks@.len(),
            n == args@.len(),
            files@.len() == args@.len(),
            checks@.len() > 0,
            forall|j: int|
                0 <= j < n ==> matches_at(checks@, j, args@[j]@, opt_bytes_view(files@[j])),
            first_unmatched_arg(checks@, args@, files@, 0) == args@.len(),
            forall|j: int|
                0 <= j < c && spec_required(checks@[j]) ==> required_satisfied(
                    checks@[j],
                    args@,
                    files@,
                ),
            first_unmet_required(checks@, args@, files@, 0) == first_unmet_required(
                checks@,
                args@,
                files@,
                c as int,
            ),
        decreases cn - c,
    {
        if checks[c].required() && !check_satisfied(&checks[c], args, files) {
            let mut m = String::new();
            match checks[c].position() {
                Some(p) => {
                    proof {
                        reveal_strlit("Missing required argument at position ");
                    }
                    m.append("Missing required argument at position ");
                    append_u64(&mut m, p as u64);
                }
                None => {
                    proof {
                        reveal_strlit("Missing required argument matching: ");
                    }
                    m.append("Missing required argument matching: ");
                    let desc = checks[c].expected_description();
                    m.append(desc.as_str());
                }
            }
            return Err(m);
        }
        c = c + 1;
    }
    Ok(())
}

} // verus!
use crate::envmap::EnvMap;

verus! {

/// Whether `k` is one of the allowed environment keys.
pub open spec fn allowed_contains(allowed: Seq<String>, k: Seq<char>) -> bool {
    exists|j: int| 0 <= j < allowed.len() && allowed[j]@ == k
}

/// Whether every key of the caller environment is allowed.
pub open spec fn env_allowed(env_entries: Seq<(String, String)>, allowed: Seq<String>) -> bool {
    forall|i: int| 0 <= i < env_entries.len() ==> allowed_contains(allowed, env_entries[i].0@)
}

/// The first entry whose key is not allowed, or the entry count.
pub open spec fn first_disallowed(
    env_entries: Seq<(String, String)>,
    allowed: Seq<String>,
    from: int,
) -> int
    decreases env_entries.len() - from,
{
    if from < 0 || from >= env_entries.len() {
        env_entries.len() as int
    } else if allowed_contains(allowed, env_entries[from].0@) {
        first_disallowed(env_entries, allowed, from + 1)
    } else {
        from
    }
}

/// The message `validate_env` returns for a disallowed key.
pub open spec fn env_error_msg(
    env_entries: Seq<(String, String)>,
    allowed: Seq<String>,
) -> Seq<char> {
    "Environment variable not allowed: "@ + env_entries[first_disallowed(
        env_entries,
        allowed,
        0,
    )].0@
}

fn allowed_has(allowed: &Vec<String>, k: &String) -> (r: bool)
    ensures
        r == allowed_contains(allowed@, k@),
{
    let n = allowed.len();
    let mut j: usize = 0;
    while j < n
        invariant
            j <= n,
            n == allowed@.len(),
            forall|t: int| 0 <= t < j ==> allowed@[t]@ != k@,
        decreases n - j,
    {
        if allowed[j].eq(k) {
            return true;
        }
        j = j + 1;
    }
    false
}

/// Checks every key of the caller-supplied environment against the rule's
/// allowlist, in entry order.
pub fn validate_env(env: &EnvMap, allowed: &Vec<String>) -> (r: Result<(), String>)
    ensures
        r is Ok <==> env_allowed(env.seq(), allowed@),
        r matches Err(m) ==> m@ == env_error_msg(env.seq(), allowed@),
{
    let n = env.len();
    let mut i: usize = 0;
    while i < n
        invariant
            i <= n,
            n == env.seq().len(),
            forall|j: int| 0 <= j < i ==> allowed_contains(allowed@, env.seq()[j].0@),
            first_disallowed(env.seq(), allowed@, 0) == first_disallowed(
                env.seq(),
                allowed@,
                i as int,
            ),
        decreases n - i,
    {
        let key = env.key_at(i);
        if !allowed_has(allowed, key) {
            let mut m = String::new();
            proof {
                reveal_strlit("Environment variable not allowed: ");
            }
            m.append("Environment variable not allowed: ");
            m.append(key.as_str());
            return Err(m);
        }
        i = i + 1;
    }
    Ok(())
}

/// Whether one rule accepts the invocation: its checks admit the arguments
/// and its allowlist admits the environment.
pub open spec fn rule_accepts(
    rule: CommandRule,
    args: Seq<String>,
    files: Seq<Option<Vec<u8>>>,
    env_entries: Seq<(String, String)>,
) -> bool {
    rule_admits(rule.args@, args, files) && env_allowed(env_entries, rule.env@)
}

/// The failure message one rule contributes when it does not accept.
pub open spec fn rule_failure_msg(
    rule: CommandRule,
    args: Seq<String>,
    files: Seq<Option<Vec<u8>>>,
    env_entries: Seq<(String, String)>,
) -> Seq<char> {
    if !rule_admits(rule.args@, args, files) {
        rule_error_msg(rule.args@, args, files)
    } else {
        env_error_msg(env_entries, rule.env@)
    }
}

} // verus!
verus! {

/// Why an invocation was rejected.
#[derive(Debug)]
pub enum ValidationError {
    /// The engine is in deny-all state; nothing runs until a reload succeeds.
    PolicyUnavailable { details: String },
    /// The policy artifact failed while evaluating; treated as a denial.
    PolicyEvaluationFailed { command: String, details: String },
    /// The policy evaluated cleanly to a denial.
    CommandNotAllowed(String),
    /// Rules for the command exist, but none accepted the invocation.
    RuleValidationFailed { command: String, rule_count: usize, details: String },
}

/// The message text of a validation error.
pub open spec fn validation_error_text(e: ValidationError) -> Seq<char> {
    match e {
        ValidationError::PolicyUnavailable { details } => "Policy deny-all is active: "@
            + details@,
        ValidationError::PolicyEvaluationFailed { command, details } =>
            "Policy evaluation failed for '"@ + command@ + "': "@ + details@,
        ValidationError::CommandNotAllowed(command) => "Command not allowed: "@ + command@,
        ValidationError::RuleValidationFailed { command, rule_count, details } =>
            "Command validation failed for '"@ + command@ + "'. Tried "@ + dec_digits(
            rule_count as nat,
        ) + " rule(s):\n- "@ + details@,
    }
}

impl ValidationError {
    /// Renders the error as its message text.
    pub fn message(&self) -> (r: String)
        ensures
            r@ == validation_error_text(*self),
    {
        let mut m = String::new();
        match self {
            ValidationError::PolicyUnavailable { details } => {
                proof {
                    reveal_strlit("Policy deny-all is active: ");
                }
                m.append("Policy deny-all is active: ");
                m.append(details.as_str());
            }
            ValidationError::PolicyEvaluationFailed { command, details } => {
                proof {
                    reveal_strlit("Policy evaluation failed for '");
                    reveal_strlit("': ");
                }
                m.append("Policy evaluation failed for '");
                m.append(command.as_str());
                m.append("': ");
                m.append(details.as_str());
            }
            ValidationError::CommandNotAllowed(command) => {
                proof {
                    reveal_strlit("Command not allowed: ");
                }
                m.append("Command not allowed: ");
                m.append(command.as_str());
            }
            ValidationError::RuleValidationFailed { command, rule_count, details } => {
                proof {
                    reveal_strlit("Command validation failed for '");
                    reveal_strlit("'. Tried ");
                    reveal_strlit(" rule(s):\n- ");
                }
                m.append("Command validation failed for '");
                m.append(command.as_str());
                m.append("'. Tried ");
                append_u64(&mut m, *rule_count as u64);
                m.append(" rule(s):\n- ");
                m.append(details.as_str());
            }
        }
        m
    }
}

/// Whether the rule is declared for this command token.
pub open spec fn cmd_matches(rule: CommandRule, cmd: Seq<char>) -> bool {
    rule.command@ == cmd
}

/// Whether any rule at or after `from` is declared for the command.
pub open spec fn has_matching_rule(policy: Seq<CommandRule>, cmd: Seq<char>, from: int) -> bool {
    exists|i: int| from <= i < policy.len() && cmd_matches(policy[i], cmd)
}

/// How many rules at or after `from` are declared for the command.
pub open spec fn matching_rule_count(policy: Seq<CommandRule>, cmd: Seq<char>, from: int) -> nat
    decreases policy.len() - from,
{
    if from < 0 || from >= policy.len() {
        0
    } else {
        (if cmd_matches(policy[from], cmd) {
            1nat
        } else {
            0nat
        }) + matching_rule_count(policy, cmd, from + 1)
    }
}

/// Whether some rule declared for the command accepts the invocation.
pub open spec fn legacy_allows(
    policy: Seq<CommandRule>,
    cmd: Seq<char>,
    args: Seq<String>,
    files: Seq<Option<Vec<u8>>>,
    env_entries: Seq<(String, String)>,
) -> bool {
    exists|i: int|
        0 <= i < policy.len() && cmd_matches(policy[i], cmd) && rule_accepts(
            policy[i],
            args,
            files,
            env_entries,
        )
}

/// The joined failure messages of the matching rules at or after `from`,
/// separated by a newline and a list dash.
pub open spec fn failing_details(
    policy: Seq<CommandRule>,
    cmd: Seq<char>,
    args: Seq<String>,
    files: Seq<Option<Vec<u8>>>,
    env_entries: Seq<(String, String)>,
    from: int,
) -> Seq<char>
    decreases policy.len() - from,
{
    if from < 0 || from >= policy.len() {
        Seq::empty()
    } else if !cmd_matches(policy[from], cmd) {
        failing_details(policy, cmd, args, files, env_entries, from + 1)
    } else if has_matching_rule(policy, cmd, from + 1) {
        rule_failure_msg(policy[from], args, files, env_entries) + "\n- "@ + failing_details(
            policy,
            cmd,
            args,
            files,
            env_entries,
            from + 1,
        )
    } else {
        rule_failure_msg(policy[from], args, files, env_entries)
    }
}

fn any_rule_matches_after(policy: &Vec<CommandRule>, command: &String, from: usize) -> (r: bool)
    requires
        from <= policy@.len(),
    ensures
        r == has_matching_rule(policy@, command@, from as int),
{
    let n = policy.len();
    let mut i: usize = from;
    while i < n
        invariant
            from <= i <= n,
            n == policy@.len(),
            forall|j: int| from <= j < i ==> !cmd_matches(policy@[j], command@),
        decreases n - i,
    {
        if policy[i].command.eq(command) {
            return true;
        }
        i = i + 1;
    }
    false
}

/// Validates an invocation against the policy's rules: the rules declared
/// for the command are tried in order, and the first acceptance wins. With
/// no rule declared for the command the invocation is not allowed; with
/// matching rules that all fail, the error reports each rule's reason.
pub fn validate_legacy_invocation(
    policy: &Vec<CommandRule>,
    command: &String,
    args: &Vec<String>,
    files: &Vec<Option<Vec<u8>>>,
    env: &EnvMap,
) -> (r: Result<(), ValidationError>)
    requires
        files@.len() == args@.len(),
    ensures
        r is Ok <==> legacy_allows(policy@, command@, args@, files@, env.seq()),
        !has_matching_rule(policy@, command@, 0) ==> (r matches Err(e) && e matches
            ValidationError::CommandNotAllowed(c) && c@ == command@),
        has_matching_rule(policy@, command@, 0) && !legacy_allows(
            policy@,
            command@,
            args@,
            files@,
            env.seq(),
        ) ==> (r matches Err(e) && e matches ValidationError::RuleValidationFailed {
            command: c,
            rule_count,
            details,
        } && c@ == command@ && rule_count == matching_rule_count(policy@, command@, 0)
            && details@ == failing_details(policy@, command@, args@, files@, env.seq(), 0)),
{
    let n = policy.len();
    let mut i: usize = 0;
    let mut found_any = false;
    let mut count: usize = 0;
    let mut details = String::new();
    proof {
        reveal_strlit("\n- ");
        assert(details@ + failing_details(policy@, command@, args@, files@, env.seq(), 0)
            =~= failing_details(policy@, command@, args@, files@, env.seq(), 0));
    }
    while i < n
        invariant
            i <= n,
            count <= i,
            n == policy@.len(),
            files@.len() == args@.len(),
            found_any ==> has_matching_rule(policy@, command@, 0),
            !found_any ==> forall|j: int| 0 <= j < i ==> !cmd_matches(policy@[j], command@),
            forall|j: int|
                0 <= j < i ==> !(cmd_matches(policy@[j], command@) && rule_accepts(
                    policy@[j],
                    args@,
                    files@,
                    env.seq(),
                )),
            count + matching_rule_count(policy@, command@, i as int) == matching_rule_count(
                policy@,
                command@,
                0,
            ),
            details@ + failing_details(policy@, command@, args@, files@, env.seq(), i as int)
                == failing_details(policy@, command@, args@, files@, env.seq(), 0),
        decreases n - i,
    {
        if policy[i].command.eq(command) {
            found_any = true;
            count = count + 1;
            let rule_result = validate_rule(args, files, &policy[i].args);
            match rule_result {
                Ok(()) => {
                    match validate_env(env, &policy[i].env) {
                        Ok(()) => {
                            return Ok(());
                        }
                        Err(m) => {
                            let ghost d0 = details@;
                            details.append(m.as_str());
                            if any_rule_matches_after(policy, command, i + 1) {
                                details.append("\n- ");
                                proof {
                                    lemma_details_step(policy@, command@, args@, files@, env.seq(), i as int, d0, m@, true);
                                }
                            } else {
                                proof {
                                    lemma_details_step(policy@, command@, args@, files@, env.seq(), i as int, d0, m@, false);
                                }
                            }
                        }
                    }
                }
                Err(m) => {
                    let ghost d0 = details@;
                    details.append(m.as_str());
                    if any_rule_matches_after(policy, command, i + 1) {
                        details.append("\n- ");
                        proof {
                            lemma_details_step(policy@, command@, args@, files@, env.seq(), i as int, d0, m@, true);
                        }
                    } else {
                        proof {
                            lemma_details_step(policy@, command@, args@, files@, env.seq(), i as int, d0, m@, false);
                        }
                    }
                }
            }
        }
        i = i + 1;
    }
    proof {
        assert(failing_details(policy@, command@, args@, files@, env.seq(), n as int)
            =~= Seq::<char>::empty());
        assert(details@ + Seq::<char>::empty() =~= details@);
    }
    if !found_any {
        return Err(ValidationError::CommandNotAllowed(command.clone()));
    }
    Err(ValidationError::RuleValidationFailed {
        command: command.clone(),
        rule_count: count,
        details,
    })
}

/// Validates an invocation against a legacy policy.
pub fn validate_invocation(
    policy: &Vec<CommandRule>,
    command: &String,
    args: &Vec<String>,
    files: &Vec<Option<Vec<u8>>>,
    env: &EnvMap,
) -> (r: Result<(), ValidationError>)
    requires
        files@.len() == args@.len(),
    ensures
        r is Ok <==> legacy_allows(policy@, command@, args@, files@, env.seq()),
        !has_matching_rule(policy@, command@, 0) ==> (r matches Err(e) && e matches
            ValidationError::CommandNotAllowed(c) && c@ == command@),
        has_matching_rule(policy@, command@, 0) && !legacy_allows(
            policy@,
            command@,
            args@,
            files@,
            env.seq(),
        ) ==> (r matches Err(e) && e matches ValidationError::RuleValidationFailed {
            command: c,
            rule_count,
            details,
        } && c@ == command@ && rule_count == matching_rule_count(policy@, command@, 0)
            && details@ == failing_details(policy@, command@, args@, files@, env.seq(), 0)),
{
    validate_legacy_invocation(policy, command, args, files, env)
}

} // verus!
verus! {

/// One step of the joined-details bookkeeping: appending the failure message
/// of the matching rule at `i` (and the separator, when more matching rules
/// follow) keeps the suffix equation intact.
proof fn lemma_details_step(
    policy: Seq<CommandRule>,
    cmd: Seq<char>,
    args: Seq<String>,
    files: Seq<Option<Vec<u8>>>,
    env_entries: Seq<(String, String)>,
    i: int,
    d0: Seq<char>,
    m: Seq<char>,
    more: bool,
)
    requires
        0 <= i < policy.len(),
        cmd_matches(policy[i], cmd),
        m == rule_failure_msg(policy[i], args, files, env_entries),
        more == has_matching_rule(policy, cmd, i + 1),
        d0 + failing_details(policy, cmd, args, files, env_entries, i) == failing_details(
            policy,
            cmd,
            args,
            files,
            env_entries,
            0,
        ),
    ensures
        more ==> (d0 + m + "\n- "@) + failing_details(policy, cmd, args, files, env_entries, i + 1)
            == failing_details(policy, cmd, args, files, env_entries, 0),
        !more ==> (d0 + m) + failing_details(policy, cmd, args, files, env_entries, i + 1)
            == failing_details(policy, cmd, args, files, env_entries, 0),
{
    if more {
        assert(failing_details(policy, cmd, args, files, env_entries, i) == m + "\n- "@
            + failing_details(policy, cmd, args, files, env_entries, i + 1));
        assert((d0 + m + "\n- "@) + failing_details(policy, cmd, args, files, env_entries, i + 1)
            =~= d0 + (m + "\n- "@ + failing_details(policy, cmd, args, files, env_entries, i + 1)));
    } else {
        assert(failing_details(policy, cmd, args, files, env_entries, i) == m);
        lemma_details_empty(policy, cmd, args, files, env_entries, i + 1);
        assert((d0 + m) + Seq::<char>::empty() =~= d0 + m);
    }
}

/// With no matching rule at or after `from`, the joined details are empty.
proof fn lemma_details_empty(
    policy: Seq<CommandRule>,
    cmd: Seq<char>,
    args: Seq<String>,
    files: Seq<Option<Vec<u8>>>,
    env_entries: Seq<(String, String)>,
    from: int,
)
    requires
        !has_matching_rule(policy, cmd, from),
    ensures
        failing_details(policy, cmd, args, files, env_entries, from) == Seq::<char>::empty(),
    decreases policy.len() - from,
{
    if 0 <= from < policy.len() {
        assert(!cmd_matches(policy[from], cmd));
        lemma_details_empty(policy, cmd, args, files, env_entries, from + 1);
    }
}

} // verus!
