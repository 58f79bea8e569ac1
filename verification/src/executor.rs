use vstd::prelude::*;

use crate::envmap::EnvMap;
use crate::policy_rules::{validation_error_text, ValidationError};
use crate::MAX_OUTPUT_BYTES;

verus! {

/// The broker process's own values of the variables that subprocess
/// environments are composed from.
pub struct BrokerEnv {
    pub home: Option<String>,
    pub lang: Option<String>,
    pub path: Option<String>,
    pub http_proxy: Option<String>,
    pub https_proxy: Option<String>,
    pub no_proxy: Option<String>,
}

/// `m` with `k` bound to the option's value, or unchanged when absent.
pub open spec fn with_opt(
    m: Map<Seq<char>, Seq<char>>,
    k: Seq<char>,
    v: Option<String>,
) -> Map<Seq<char>, Seq<char>> {
    match v {
        Some(s) => m.insert(k, s@),
        None => m,
    }
}

/// The keys the broker always strips from the caller-supplied environment.
pub open spec fn critical_key(k: Seq<char>) -> bool {
    ||| k == "PATH"@
    ||| k == "http_proxy"@
    ||| k == "https_proxy"@
    ||| k == "no_proxy"@
    ||| k == "HTTP_PROXY"@
    ||| k == "HTTPS_PROXY"@
    ||| k == "NO_PROXY"@
}

/// The subprocess environment: start from the broker's HOME and LANG, let
/// the caller's variables win, strip the path and proxy keys, then re-insert
/// the broker's PATH and proxy values, mirroring each lowercase proxy value
/// into its uppercase form.
pub open spec fn env_composition(
    user: Map<Seq<char>, Seq<char>>,
    broker: BrokerEnv,
) -> Map<Seq<char>, Seq<char>> {
    let base = with_opt(with_opt(Map::empty(), "HOME"@, broker.home), "LANG"@, broker.lang);
    let merged = base.union_prefer_right(user);
    let cleaned = merged.remove("PATH"@).remove("http_proxy"@).remove("https_proxy"@).remove(
        "no_proxy"@,
    ).remove("HTTP_PROXY"@).remove("HTTPS_PROXY"@).remove("NO_PROXY"@);
    let with_path = with_opt(cleaned, "PATH"@, broker.path);
    let lower = with_opt(
        with_opt(with_opt(with_path, "http_proxy"@, broker.http_proxy), "https_proxy"@,
            broker.https_proxy),
        "no_proxy"@,
        broker.no_proxy,
    );
    with_opt(
        with_opt(with_opt(lower, "HTTP_PROXY"@, broker.http_proxy), "HTTPS_PROXY"@,
            broker.https_proxy),
        "NO_PROXY"@,
        broker.no_proxy,
    )
}

fn insert_opt(m: &mut EnvMap, k: &str, v: &Option<String>)
    requires
        old(m).wf(),
    ensures
        final(m)@ == with_opt(old(m)@, k@, *v),
        final(m).wf(),
{
    match v {
        Some(s) => {
            m.insert(String::from_str(k), s.clone());
        }
        None => {}
    }
}

/// Composes the subprocess environment from the caller-supplied variables
/// and the broker's own, following `env_composition` exactly.
pub fn build_command_env(user: &EnvMap, broker: &BrokerEnv) -> (r: EnvMap)
    requires
        user.wf(),
    ensures
        r@ == env_composition(user@, *broker),
        r.wf(),
{
    let mut m = EnvMap::new();
    insert_opt(&mut m, "HOME", &broker.home);
    insert_opt(&mut m, "LANG", &broker.lang);
    let ghost base = m@;

    let n = user.len();
    let mut i: usize = 0;
    proof {
        assert(base.union_prefer_right(crate::envmap::map_of(user.seq().take(0))) =~= base);
        assert(user.seq().take(0) =~= Seq::<(String, String)>::empty());
    }
    while i < n
        invariant
            i <= n,
            n == user.seq().len(),
            user.wf(),
            m.wf(),
            m@ == base.union_prefer_right(crate::envmap::map_of(user.seq().take(i as int))),
        decreases n - i,
    {
        let k = user.key_at(i).clone();
        let v = user.val_at(i).clone();
        proof {
            let prefix = user.seq().take(i as int);
            let next = user.seq().take(i as int + 1);
            assert(next.drop_last() =~= prefix);
            assert(base.union_prefer_right(crate::envmap::map_of(prefix)).insert(k@, v@)
                =~= base.union_prefer_right(crate::envmap::map_of(next)));
        }
        m.insert(k, v);
        i = i + 1;
    }
    proof {
        assert(user.seq().take(n as int) =~= user.seq());
    }

    m.remove(&String::from_str("PATH"));
    m.remove(&String::from_str("http_proxy"));
    m.remove(&String::from_str("https_proxy"));
    m.remove(&String::from_str("no_proxy"));
    m.remove(&String::from_str("HTTP_PROXY"));
    m.remove(&String::from_str("HTTPS_PROXY"));
    m.remove(&String::from_str("NO_PROXY"));

    insert_opt(&mut m, "PATH", &broker.path);
    insert_opt(&mut m, "http_proxy", &broker.http_proxy);
    insert_opt(&mut m, "https_proxy", &broker.https_proxy);
    insert_opt(&mut m, "no_proxy", &broker.no_proxy);
    insert_opt(&mut m, "HTTP_PROXY", &broker.http_proxy);
    insert_opt(&mut m, "HTTPS_PROXY", &broker.https_proxy);
    insert_opt(&mut m, "NO_PROXY", &broker.no_proxy);
    proof {
        user.lemma_view();
        assert(m@ =~= env_composition(user@, *broker));
    }
    m
}

/// What the composition guarantees: the caller's PATH and proxy settings are
/// dropped; the broker's PATH and proxy values are present where set, each
/// proxy value mirrored into its uppercase form; and every other
/// caller-supplied variable survives with its value.
#[verifier::rlimit(60)]
pub proof fn lemma_env_composition(user: Map<Seq<char>, Seq<char>>, broker: BrokerEnv)
    ensures
        broker.path matches Some(p) ==> env_composition(user, broker).contains_key("PATH"@)
            && env_composition(user, broker)["PATH"@] == p@,
        broker.path is None ==> !env_composition(user, broker).contains_key("PATH"@),
        broker.http_proxy matches Some(v) ==> env_composition(user, broker)["http_proxy"@] == v@
            && env_composition(user, broker)["HTTP_PROXY"@] == v@,
        broker.http_proxy is None ==> !env_composition(user, broker).contains_key("http_proxy"@)
            && !env_composition(user, broker).contains_key("HTTP_PROXY"@),
        broker.https_proxy matches Some(v) ==> env_composition(user, broker)["https_proxy"@] == v@
            && env_composition(user, broker)["HTTPS_PROXY"@] == v@,
        broker.https_proxy is None ==> !env_composition(user, broker).contains_key("https_proxy"@)
            && !env_composition(user, broker).contains_key("HTTPS_PROXY"@),
        broker.no_proxy matches Some(v) ==> env_composition(user, broker)["no_proxy"@] == v@
            && env_composition(user, broker)["NO_PROXY"@] == v@,
        broker.no_proxy is None ==> !env_composition(user, broker).contains_key("no_proxy"@)
            && !env_composition(user, broker).contains_key("NO_PROXY"@),
        forall|k: Seq<char>|
            user.contains_key(k) && !critical_key(k) ==> env_composition(user, broker).contains_key(
                k,
            ) && env_composition(user, broker)[k] == user[k],
{
    reveal_strlit("PATH");
    reveal_strlit("http_proxy");
    reveal_strlit("https_proxy");
    reveal_strlit("no_proxy");
    reveal_strlit("HTTP_PROXY");
    reveal_strlit("HTTPS_PROXY");
    reveal_strlit("NO_PROXY");
    reveal_strlit("HOME");
    reveal_strlit("LANG");
    assert("http_proxy"@[0] == 'h' && "HTTP_PROXY"@[0] == 'H');
    assert("https_proxy"@[0] == 'h' && "HTTPS_PROXY"@[0] == 'H');
    assert("no_proxy"@[0] == 'n' && "NO_PROXY"@[0] == 'N');
    assert("PATH"@[0] == 'P' && "HOME"@[0] == 'H' && "LANG"@[0] == 'L');
    assert("PATH"@.len() == 4);
    assert("http_proxy"@.len() == 10);
    assert("https_proxy"@.len() == 11);
    assert("no_proxy"@.len() == 8);
    assert("HTTP_PROXY"@.len() == 10);
    assert("HTTPS_PROXY"@.len() == 11);
    assert("NO_PROXY"@.len() == 8);
    assert("HOME"@.len() == 4);
    assert("LANG"@.len() == 4);
    assert("PATH"@ != "HOME"@);
    assert("PATH"@ != "LANG"@);
    assert("http_proxy"@ != "HTTP_PROXY"@);
    assert("https_proxy"@ != "HTTPS_PROXY"@);
    assert("no_proxy"@ != "NO_PROXY"@);
    assert("HOME"@ != "LANG"@);
    let base = with_opt(with_opt(Map::empty(), "HOME"@, broker.home), "LANG"@, broker.lang);
    let merged = base.union_prefer_right(user);
    let cleaned = merged.remove("PATH"@).remove("http_proxy"@).remove("https_proxy"@).remove(
        "no_proxy"@,
    ).remove("HTTP_PROXY"@).remove("HTTPS_PROXY"@).remove("NO_PROXY"@);
    let with_path = with_opt(cleaned, "PATH"@, broker.path);
    let lower1 = with_opt(with_path, "http_proxy"@, broker.http_proxy);
    let lower2 = with_opt(lower1, "https_proxy"@, broker.https_proxy);
    let lower3 = with_opt(lower2, "no_proxy"@, broker.no_proxy);
    let upper1 = with_opt(lower3, "HTTP_PROXY"@, broker.http_proxy);
    let upper2 = with_opt(upper1, "HTTPS_PROXY"@, broker.https_proxy);
    let comp = with_opt(upper2, "NO_PROXY"@, broker.no_proxy);
    assert(comp == env_composition(user, broker));
    assert(!cleaned.contains_key("PATH"@));
    assert(!cleaned.contains_key("http_proxy"@));
    assert(!cleaned.contains_key("https_proxy"@));
    assert(!cleaned.contains_key("no_proxy"@));
    assert(!cleaned.contains_key("HTTP_PROXY"@));
    assert(!cleaned.contains_key("HTTPS_PROXY"@));
    assert(!cleaned.contains_key("NO_PROXY"@));
    assert forall|k: Seq<char>|
        user.contains_key(k) && !critical_key(k) implies comp.contains_key(k) && comp[k]
        == user[k] by {
        assert(merged.contains_key(k) && merged[k] == user[k]);
        assert(cleaned.contains_key(k) && cleaned[k] == user[k]);
    }
}

} // verus!
verus! {

/// One step of bounded capture: a chunk is appended up to the byte cap;
/// overflow keeps only what fits and marks the capture truncated; once
/// truncated, further chunks are drained but discarded.
pub open spec fn capture_push(data: Seq<u8>, truncated: bool, chunk: Seq<u8>) -> (Seq<u8>, bool)
    recommends
        data.len() <= MAX_OUTPUT_BYTES,
{
    if truncated {
        (data, true)
    } else if chunk.len() <= MAX_OUTPUT_BYTES - data.len() {
        (data + chunk, false)
    } else {
        (data + chunk.take(MAX_OUTPUT_BYTES - data.len()), true)
    }
}

/// A bounded capture of one output stream.
pub struct CaptureBuffer {
    data: Vec<u8>,
    truncated: bool,
}

impl CaptureBuffer {
    pub closed spec fn data(&self) -> Seq<u8> {
        self.data@
    }

    pub closed spec fn truncated(&self) -> bool {
        self.truncated
    }

    /// The capture never exceeds the byte cap, and is full when truncated.
    pub closed spec fn wf(&self) -> bool {
        self.data@.len() <= MAX_OUTPUT_BYTES && (self.truncated ==> self.data@.len()
            == MAX_OUTPUT_BYTES)
    }

    pub fn new() -> (r: CaptureBuffer)
        ensures
            r.data() =~= Seq::<u8>::empty(),
            !r.truncated(),
            r.wf(),
    {
        CaptureBuffer { data: Vec::new(), truncated: false }
    }

    pub fn is_truncated(&self) -> (r: bool)
        ensures
            r == self.truncated(),
    {
        self.truncated
    }

    pub fn byte_len(&self) -> (r: usize)
        ensures
            r == self.data().len(),
    {
        self.data.len()
    }

    /// Feeds one chunk read from the stream into the capture.
    pub fn push_chunk(&mut self, chunk: &[u8])
        requires
            old(self).wf(),
        ensures
            (final(self).data(), final(self).truncated()) == capture_push(
                old(self).data(),
                old(self).truncated(),
                chunk@,
            ),
            final(self).wf(),
    {
        if self.truncated {
            return ;
        }
        let room = MAX_OUTPUT_BYTES - self.data.len();
        if chunk.len() <= room {
            self.data.extend_from_slice(chunk);
        } else {
            let mut i: usize = 0;
            while i < room
                invariant
                    i <= room,
                    room <= chunk@.len(),
                    self.data@ =~= old(self).data() + chunk@.take(i as int),
                    self.data@.len() == old(self).data().len() + i,
                    room == MAX_OUTPUT_BYTES - old(self).data().len(),
                    self.truncated == old(self).truncated(),
                decreases room - i,
            {
                self.data.push(chunk[i]);
                proof {
                    assert(self.data@ =~= old(self).data() + chunk@.take(i as int + 1));
                }
                i = i + 1;
            }
            self.truncated = true;
        }
    }
}

/// The characters of an ASCII byte sequence.
pub open spec fn ascii_chars_of(bytes: Seq<u8>) -> Seq<char> {
    bytes.map(|i: int, b: u8| b as char)
}

/// Whether every byte is ASCII.
pub open spec fn is_ascii_bytes(bytes: Seq<u8>) -> bool {
    forall|i: int| 0 <= i < bytes.len() ==> bytes[i] < 128
}

/// The characters String::from_utf8_lossy decodes from a byte sequence:
/// a function of the bytes alone.
pub uninterp spec fn utf8_lossy_of(bytes: Seq<u8>) -> Seq<char>;

/// Relies on String::from_utf8_lossy: the decoding depends on the bytes
/// alone, and valid UTF-8 — in particular ASCII — is preserved unchanged.
#[verifier::external_body]
fn utf8_lossy(bytes: &Vec<u8>) -> (r: String)
    ensures
        r@ == utf8_lossy_of(bytes@),
        is_ascii_bytes(bytes@) ==> r@ == ascii_chars_of(bytes@),
{
    String::from_utf8_lossy(bytes).into_owned()
}

/// The string a finished capture renders to: the lossily decoded bytes,
/// with the truncation marker appended when the capture overflowed.
pub open spec fn finalize_spec(data: Seq<u8>, truncated: bool) -> Seq<char> {
    if truncated {
        utf8_lossy_of(data) + "\n...truncated..."@
    } else {
        utf8_lossy_of(data)
    }
}

/// Renders a finished capture, appending the truncation marker if the
/// stream overflowed the cap. A truncated capture always ends with the
/// marker; a truncated ASCII capture renders to exactly the cap plus the
/// marker's sixteen characters, with the marker from the cap onward.
pub fn finalize_capture(buf: CaptureBuffer) -> (r: String)
    requires
        buf.wf(),
    ensures
        r@ == finalize_spec(buf.data(), buf.truncated()),
        buf.truncated() ==> r@.len() >= 16 && r@.skip(r@.len() - 16) == "\n...truncated..."@,
        buf.truncated() && is_ascii_bytes(buf.data()) ==> r@.len() == MAX_OUTPUT_BYTES + 16
            && r@.skip(MAX_OUTPUT_BYTES as int) == "\n...truncated..."@,
{
    let truncated = buf.is_truncated();
    let mut s = utf8_lossy(&buf.data);
    if truncated {
        proof {
            reveal_strlit("\n...truncated...");
        }
        s.append(crate::TRUNCATION_MARKER);
        proof {
            assert(s@.skip(s@.len() - 16) =~= "\n...truncated..."@);
            if is_ascii_bytes(buf.data()) {
                assert(ascii_chars_of(buf.data()).len() == MAX_OUTPUT_BYTES);
                assert(s@.skip(MAX_OUTPUT_BYTES as int) =~= "\n...truncated..."@);
            }
        }
    }
    s
}

} // verus!
verus! {

/// A request to run an executable: the command token, its arguments, an
/// optional working directory, and the caller-supplied environment.
pub struct RunNetworkToolInput {
    pub executable: String,
    pub args: Vec<String>,
    pub cwd: Option<String>,
    pub env: Option<EnvMap>,
}

/// The buffered response: each stream capped and rendered, and the child's
/// exit code — absent when the child was killed by a signal.
pub struct RunNetworkToolOutput {
    pub stdout: String,
    pub stderr: String,
    pub exit_code: Option<i32>,
}

/// Why a buffered run failed.
#[derive(Debug)]
pub enum ToolError {
    Validation(ValidationError),
    Spawn { details: String },
    Wait { details: String },
    StdoutRead { details: String },
    StderrRead { details: String },
    StdoutJoin { details: String },
    StderrJoin { details: String },
}

/// The message text of a tool error.
pub open spec fn tool_error_text(e: ToolError) -> Seq<char> {
    match e {
        ToolError::Validation(inner) => validation_error_text(inner),
        ToolError::Spawn { details } => "Failed to start subprocess: "@ + details@,
        ToolError::Wait { details } => "Failed to wait for subprocess: "@ + details@,
        ToolError::StdoutRead { details } => "Failed to read stdout: "@ + details@,
        ToolError::StderrRead { details } => "Failed to read stderr: "@ + details@,
        ToolError::StdoutJoin { details } => "Failed to join stdout reader: "@ + details@,
        ToolError::StderrJoin { details } => "Failed to join stderr reader: "@ + details@,
    }
}

impl ToolError {
    /// Renders the error as its message text.
    pub fn message(&self) -> (r: String)
        ensures
            r@ == tool_error_text(*self),
    {
        match self {
            ToolError::Validation(inner) => inner.message(),
            ToolError::Spawn { details } => {
                proof {
                    reveal_strlit("Failed to start subprocess: ");
                }
                let mut m = String::new();
                m.append("Failed to start subprocess: ");
                m.append(details.as_str());
                m
            }
            ToolError::Wait { details } => {
                proof {
                    reveal_strlit("Failed to wait for subprocess: ");
                }
                let mut m = String::new();
                m.append("Failed to wait for subprocess: ");
                m.append(details.as_str());
                m
            }
            ToolError::StdoutRead { details } => {
                proof {
                    reveal_strlit("Failed to read stdout: ");
                }
                let mut m = String::new();
                m.append("Failed to read stdout: ");
                m.append(details.as_str());
                m
            }
            ToolError::StderrRead { details } => {
                proof {
                    reveal_strlit("Failed to read stderr: ");
                }
                let mut m = String::new();
                m.append("Failed to read stderr: ");
                m.append(details.as_str());
                m
            }
            ToolError::StdoutJoin { details } => {
                proof {
                    reveal_strlit("Failed to join stdout reader: ");
                }
                let mut m = String::new();
                m.append("Failed to join stdout reader: ");
                m.append(details.as_str());
                m
            }
            ToolError::StderrJoin { details } => {
                proof {
                    reveal_strlit("Failed to join stderr reader: ");
                }
                let mut m = String::new();
                m.append("Failed to join stderr reader: ");
                m.append(details.as_str());
                m
            }
        }
    }
}

/// Everything a spawned child is configured with: the resolved program, the
/// arguments as given, the working directory, and the composed environment.
/// The child also gets a closed stdin, piped stdout and stderr, and
/// kill-on-drop; those have no value-level content to state here.
pub struct SpawnPlan {
    pub program: String,
    pub args: Vec<String>,
    pub cwd: String,
    pub env: EnvMap,
}

/// Lays out the spawn of a validated request: the resolved path is run with
/// the caller's arguments, in the caller's working directory if one was
/// given and the broker's default otherwise, under the composed environment.
pub fn plan_spawn(
    input: RunNetworkToolInput,
    resolved_path: String,
    default_cwd: &String,
    broker: &BrokerEnv,
) -> (r: SpawnPlan)
    requires
        input.env matches Some(e) ==> e.wf(),
    ensures
        r.program == resolved_path,
        r.args == input.args,
        r.cwd@ == (match input.cwd {
            Some(c) => c@,
            None => default_cwd@,
        }),
        r.env@ == env_composition(
            match input.env {
                Some(e) => e@,
                None => Map::empty(),
            },
            *broker,
        ),
        r.env.wf(),
{
    let user = match input.env {
        Some(e) => e,
        None => EnvMap::new(),
    };
    let env = build_command_env(&user, broker);
    let cwd = match input.cwd {
        Some(c) => c,
        None => default_cwd.clone(),
    };
    SpawnPlan { program: resolved_path, args: input.args, cwd, env }
}

/// Assembles the buffered response from the two finished captures and the
/// child's exit status.
pub fn make_output(stdout: CaptureBuffer, stderr: CaptureBuffer, exit_code: Option<i32>) -> (r:
    RunNetworkToolOutput)
    requires
        stdout.wf(),
        stderr.wf(),
    ensures
        r.stdout@ == finalize_spec(stdout.data(), stdout.truncated()),
        r.stderr@ == finalize_spec(stderr.data(), stderr.truncated()),
        r.exit_code == exit_code,
{
    RunNetworkToolOutput {
        stdout: finalize_capture(stdout),
        stderr: finalize_capture(stderr),
        exit_code,
    }
}

} // verus!
