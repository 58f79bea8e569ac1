use vstd::prelude::*;

use crate::envmap::EnvMap;
use crate::text::{append_u64, chars_vec, dec_digits, starts_with, str_eq_str, str_starts_with,
    string_from_chars};

verus! {

/// Why a remote replay failed locally: every variant maps to the reserved
/// local-failure exit code.
#[derive(Debug)]
pub enum RemoteClientError {
    MissingServerUrl,
    InvalidServerUrl,
    MissingDelimiter,
    MissingExecutable,
    UnknownOption(String),
    MissingKeepEnvValue,
    MissingLocalEnv(String),
    CurrentDir(String),
    Request(String),
    ServerRejected { status: u16, message: String },
    Protocol(String),
    OutputWrite(String),
    RemoteRuntime(String),
}

/// The message text of a remote client error.
pub open spec fn remote_error_text(e: RemoteClientError) -> Seq<char> {
    match e {
        RemoteClientError::MissingServerUrl => "RUN_REMOTE_SERVER must be set"@,
        RemoteClientError::InvalidServerUrl =>
            "RUN_REMOTE_SERVER must be a full URL (example: http://127.0.0.1:8000/raw)"@,
        RemoteClientError::MissingDelimiter =>
            "missing required `--` delimiter before remote executable"@,
        RemoteClientError::MissingExecutable => "missing remote executable after `--`"@,
        RemoteClientError::UnknownOption(o) => "unknown option: "@ + o@,
        RemoteClientError::MissingKeepEnvValue => "missing value for --keep-env"@,
        RemoteClientError::MissingLocalEnv(names) =>
            "local environment variable(s) are not set: "@ + names@,
        RemoteClientError::CurrentDir(d) =>
            "failed to determine current working directory: "@ + d@,
        RemoteClientError::Request(d) => "request failed: "@ + d@,
        RemoteClientError::ServerRejected { status, message } => "server rejected request ("@
            + dec_digits(status as nat) + "): "@ + message@,
        RemoteClientError::Protocol(d) => "stream protocol error: "@ + d@,
        RemoteClientError::OutputWrite(d) => "failed to write output: "@ + d@,
        RemoteClientError::RemoteRuntime(d) => "remote runtime error: "@ + d@,
    }
}

impl RemoteClientError {
    /// Renders the error as its message text.
    pub fn message(&self) -> (r: String)
        ensures
            r@ == remote_error_text(*self),
    {
        let mut m = String::new();
        match self {
            RemoteClientError::MissingServerUrl => {
                proof {
                    reveal_strlit("RUN_REMOTE_SERVER must be set");
                }
                m.append("RUN_REMOTE_SERVER must be set");
            }
            RemoteClientError::InvalidServerUrl => {
                proof {
                    reveal_strlit(
                        "RUN_REMOTE_SERVER must be a full URL (example: http://127.0.0.1:8000/raw)",
                    );
                }
                m.append(
                    "RUN_REMOTE_SERVER must be a full URL (example: http://127.0.0.1:8000/raw)",
                );
            }
            RemoteClientError::MissingDelimiter => {
                proof {
                    reveal_strlit("missing required `--` delimiter before remote executable");
                }
                m.append("missing required `--` delimiter before remote executable");
            }
            RemoteClientError::MissingExecutable => {
                proof {
                    reveal_strlit("missing remote executable after `--`");
                }
                m.append("missing remote executable after `--`");
            }
            RemoteClientError::UnknownOption(o) => {
                proof {
                    reveal_strlit("unknown option: ");
                }
                m.append("unknown option: ");
                m.append(o.as_str());
            }
            RemoteClientError::MissingKeepEnvValue => {
                proof {
                    reveal_strlit("missing value for --keep-env");
                }
                m.append("missing value for --keep-env");
            }
            RemoteClientError::MissingLocalEnv(names) => {
                proof {
                    reveal_strlit("local environment variable(s) are not set: ");
                }
                m.append("local environment variable(s) are not set: ");
                m.append(names.as_str());
            }
            RemoteClientError::CurrentDir(d) => {
                proof {
                    reveal_strlit("failed to determine current working directory: ");
                }
                m.append("failed to determine current working directory: ");
                m.append(d.as_str());
            }
            RemoteClientError::Request(d) => {
                proof {
                    reveal_strlit("request failed: ");
                }
                m.append("request failed: ");
                m.append(d.as_str());
            }
            RemoteClientError::ServerRejected { status, message } => {
                proof {
                    reveal_strlit("server rejected request (");
                    reveal_strlit("): ");
                }
                m.append("server rejected request (");
                append_u64(&mut m, *status as u64);
                m.append("): ");
                m.append(message.as_str());
            }
            RemoteClientError::Protocol(d) => {
                proof {
                    reveal_strlit("stream protocol error: ");
                }
                m.append("stream protocol error: ");
                m.append(d.as_str());
            }
            RemoteClientError::OutputWrite(d) => {
                proof {
                    reveal_strlit("failed to write output: ");
                }
                m.append("failed to write output: ");
                m.append(d.as_str());
            }
            RemoteClientError::RemoteRuntime(d) => {
                proof {
                    reveal_strlit("remote runtime error: ");
                }
                m.append("remote runtime error: ");
                m.append(d.as_str());
            }
        }
        m
    }
}

/// The command line of the remote replay client, parsed.
#[derive(Debug)]
pub struct ParsedArgs {
    pub keep_env: Vec<String>,
    pub executable: String,
    pub args: Vec<String>,
}

/// The views of a string sequence.
pub open spec fn views_of(s: Seq<String>) -> Seq<Seq<char>> {
    s.map_values(|x: String| x@)
}

pub open spec fn is_space(c: char) -> bool {
    c == ' ' || c == '\t' || c == '\n' || c == '\r'
}

/// The first index at or after `from` holding a non-space character.
pub open spec fn first_nonspace(s: Seq<char>, from: int) -> int
    decreases s.len() - from,
{
    if from < 0 || from >= s.len() {
        s.len() as int
    } else if is_space(s[from]) {
        first_nonspace(s, from + 1)
    } else {
        from
    }
}

/// One past the last non-space character strictly before `upto`.
pub open spec fn last_nonspace(s: Seq<char>, upto: int) -> int
    decreases upto,
{
    if upto <= 0 {
        0
    } else if is_space(s[upto - 1]) {
        last_nonspace(s, upto - 1)
    } else {
        upto
    }
}

/// `s` without leading and trailing spaces.
pub open spec fn trim_of(s: Seq<char>) -> Seq<char> {
    let lo = first_nonspace(s, 0);
    let hi = last_nonspace(s, s.len() as int);
    if lo >= hi {
        Seq::empty()
    } else {
        s.subrange(lo, hi)
    }
}

/// The first comma at or after `from`, or the length.
pub open spec fn first_comma(s: Seq<char>, from: int) -> int
    decreases s.len() - from,
{
    if from < 0 || from >= s.len() {
        s.len() as int
    } else if s[from] == ',' {
        from
    } else {
        first_comma(s, from + 1)
    }
}

/// `acc` with `name` appended, unless it is empty or already present.
pub open spec fn push_unique(acc: Seq<Seq<char>>, name: Seq<char>) -> Seq<Seq<char>> {
    if name.len() == 0 || acc.contains(name) {
        acc
    } else {
        acc.push(name)
    }
}

/// `acc` after one `--keep-env` value: the value is split on commas, each
/// part trimmed, and each nonempty new name appended in order.
pub open spec fn keep_env_after(acc: Seq<Seq<char>>, value: Seq<char>) -> Seq<Seq<char>>
    decreases value.len(),
{
    let i = first_comma(value, 0);
    if i < 0 || i >= value.len() {
        push_unique(acc, trim_of(value))
    } else {
        keep_env_after(push_unique(acc, trim_of(value.take(i))), value.skip(i + 1))
    }
}

} // verus!
verus! {

/// The index of the first `--` argument, or the length.
pub open spec fn find_delim(args: Seq<String>, from: int) -> int
    decreases args.len() - from,
{
    if from < 0 || from >= args.len() {
        args.len() as int
    } else if args[from]@ == "--"@ {
        from
    } else {
        find_delim(args, from + 1)
    }
}

/// The outcome of scanning the options before the delimiter.
pub enum OptScan {
    /// All options parsed; the accumulated keep-env names.
    Parsed(Seq<Seq<char>>),
    /// The option at this index is not recognized.
    Unknown(int),
    /// A `--keep-env` flag without a value before the delimiter.
    MissingValue,
}

/// Scans the arguments before the delimiter: each `--keep-env=NAMES` or
/// `--keep-env NAMES` adds names; anything else is unknown.
pub open spec fn scan_opts(
    args: Seq<String>,
    delim: int,
    i: int,
    acc: Seq<Seq<char>>,
) -> OptScan
    decreases delim - i,
{
    if i < 0 || i >= delim || i >= args.len() {
        OptScan::Parsed(acc)
    } else if starts_with(args[i]@, "--keep-env="@) {
        scan_opts(args, delim, i + 1, keep_env_after(acc, args[i]@.skip("--keep-env="@.len() as int)))
    } else if args[i]@ == "--keep-env"@ {
        if i + 1 >= delim {
            OptScan::MissingValue
        } else {
            scan_opts(args, delim, i + 2, keep_env_after(acc, args[i + 1]@))
        }
    } else {
        OptScan::Unknown(i)
    }
}

proof fn lemma_last_nonspace_le(s: Seq<char>, u: int)
    requires
        u >= 0,
    ensures
        0 <= last_nonspace(s, u) <= u,
    decreases u,
{
    if u > 0 && is_space(s[u - 1]) {
        lemma_last_nonspace_le(s, u - 1);
    }
}

fn is_space_char(c: char) -> (r: bool)
    ensures
        r == is_space(c),
{
    c == ' ' || c == '\t' || c == '\n' || c == '\r'
}

/// The trimmed segment `chars[start..end]` as a string.
fn trimmed_segment(chars: &Vec<char>, start: usize, end: usize) -> (r: String)
    requires
        start <= end <= chars@.len(),
    ensures
        r@ == trim_of(chars@.subrange(start as int, end as int)),
{
    let ghost seg = chars@.subrange(start as int, end as int);
    let mut lo: usize = start;
    while lo < end && is_space_char(chars[lo])
        invariant
            start <= lo <= end,
            end <= chars@.len(),
            seg == chars@.subrange(start as int, end as int),
            first_nonspace(seg, 0) == first_nonspace(seg, lo - start),
        decreases end - lo,
    {
        proof {
            assert(seg[lo - start] == chars@[lo as int]);
        }
        lo = lo + 1;
    }
    proof {
        if lo < end {
            assert(seg[lo - start] == chars@[lo as int]);
            assert(first_nonspace(seg, lo - start) == lo - start);
        } else {
            assert(first_nonspace(seg, lo - start) == seg.len());
        }
    }
    let mut hi: usize = end;
    while hi > lo && is_space_char(chars[hi - 1])
        invariant
            lo <= hi <= end,
            end <= chars@.len(),
            seg == chars@.subrange(start as int, end as int),
            lo >= start,
            last_nonspace(seg, end - start) == last_nonspace(seg, hi - start),
        decreases hi,
    {
        proof {
            assert(seg[hi - start - 1] == chars@[hi - 1]);
        }
        hi = hi - 1;
    }
    proof {
        if hi > lo {
            assert(seg[hi - start - 1] == chars@[hi - 1]);
            assert(last_nonspace(seg, hi - start) == hi - start);
        } else {
            lemma_last_nonspace_le(seg, hi - start);
        }
    }
    let mut out: Vec<char> = Vec::new();
    let mut i: usize = lo;
    while i < hi
        invariant
            lo <= i <= hi,
            hi <= end <= chars@.len(),
            out@ =~= chars@.subrange(lo as int, i as int),
        decreases hi - i,
    {
        out.push(chars[i]);
        proof {
            assert(out@ =~= chars@.subrange(lo as int, i as int + 1));
        }
        i = i + 1;
    }
    let s = string_from_chars(&out);
    proof {
        if lo < hi {
            assert(chars@.subrange(lo as int, hi as int) =~= seg.subrange(
                lo - start,
                hi - start,
            ));
            assert(s@ =~= trim_of(seg));
        } else {
            assert(s@ =~= trim_of(seg));
        }
    }
    s
}

fn vec_contains_str(v: &Vec<String>, x: &String) -> (r: bool)
    ensures
        r == views_of(v@).contains(x@),
{
    let n = v.len();
    let mut i: usize = 0;
    while i < n
        invariant
            i <= n,
            n == v@.len(),
            forall|j: int| 0 <= j < i ==> v@[j]@ != x@,
        decreases n - i,
    {
        if v[i].eq(x) {
            proof {
                assert(views_of(v@)[i as int] == x@);
            }
            return true;
        }
        i = i + 1;
    }
    proof {
        assert forall|j: int| 0 <= j < views_of(v@).len() implies views_of(v@)[j] != x@ by {}
    }
    false
}

fn push_unique_exec(keep_env: &mut Vec<String>, name: String)
    ensures
        views_of(final(keep_env)@) == push_unique(views_of(old(keep_env)@), name@),
{
    if name.as_str().is_empty() {
        return ;
    }
    if !vec_contains_str(keep_env, &name) {
        keep_env.push(name);
        proof {
            assert(views_of(final(keep_env)@) =~= views_of(old(keep_env)@).push(
                final(keep_env)@.last()@,
            ));
        }
    }
}

/// Splits one `--keep-env` value on commas and adds each trimmed, nonempty,
/// not-yet-present name, in order.
pub fn add_keep_env_value(keep_env: &mut Vec<String>, value: &str)
    ensures
        views_of(final(keep_env)@) == keep_env_after(views_of(old(keep_env)@), value@),
{
    let chars = chars_vec(value);
    let n = chars.len();
    let mut pos: usize = 0;
    proof {
        assert(value@.skip(0) =~= value@);
    }
    loop
        invariant
            pos <= n,
            n == value@.len(),
            chars@ == value@,
            keep_env_after(views_of(old(keep_env)@), value@) == keep_env_after(
                views_of(keep_env@),
                value@.skip(pos as int),
            ),
        decreases n - pos,
    {
        let ghost rest = value@.skip(pos as int);
        let mut k: usize = pos;
        while k < n && chars[k] != ','
            invariant
                pos <= k <= n,
                n == value@.len(),
                chars@ == value@,
                first_comma(rest, 0) == first_comma(rest, k - pos),
                rest == value@.skip(pos as int),
            decreases n - k,
        {
            proof {
                assert(rest[k - pos] == value@[k as int]);
            }
            k = k + 1;
        }
        proof {
            if k < n {
                assert(rest[k - pos] == value@[k as int]);
                assert(first_comma(rest, 0) == k - pos);
            } else {
                assert(first_comma(rest, 0) == rest.len());
            }
        }
        let seg = trimmed_segment(&chars, pos, k);
        proof {
            assert(chars@.subrange(pos as int, k as int) =~= rest.take(k - pos));
            if k >= n {
                assert(rest.take(k - pos) =~= rest);
            }
        }
        push_unique_exec(keep_env, seg);
        if k >= n {
            return ;
        }
        proof {
            assert(value@.skip(k as int + 1) =~= rest.skip(k - pos + 1));
        }
        pos = k + 1;
    }
}

} // verus!
verus! {

/// Parses the replay client's command line:
/// `[--keep-env NAMES | --keep-env=NAMES]* -- executable args...`.
/// The `--` delimiter is mandatory; the accumulated keep-env names are
/// deduplicated in first-appearance order.
pub fn parse_args(args: &Vec<String>) -> (r: Result<ParsedArgs, RemoteClientError>)
    ensures
        find_delim(args@, 0) == args@.len() ==> (r matches Err(e) && e is MissingDelimiter),
        find_delim(args@, 0) < args@.len() ==> match scan_opts(
            args@,
            find_delim(args@, 0),
            0,
            Seq::empty(),
        ) {
            OptScan::Unknown(i) => (r matches Err(e) && e matches
                RemoteClientError::UnknownOption(o) && o@ == args@[i]@),
            OptScan::MissingValue => (r matches Err(e) && e is MissingKeepEnvValue),
            OptScan::Parsed(acc) => {
                &&& find_delim(args@, 0) + 1 == args@.len() ==> (r matches Err(e)
                    && e is MissingExecutable)
                &&& find_delim(args@, 0) + 1 < args@.len() ==> (r matches Ok(p) && views_of(
                    p.keep_env@,
                ) == acc && p.executable@ == args@[find_delim(args@, 0) + 1]@ && views_of(p.args@)
                    == views_of(args@.skip(find_delim(args@, 0) + 2)))
            },
        },
{
    proof {
        reveal_strlit("--");
        reveal_strlit("--keep-env");
        reveal_strlit("--keep-env=");
    }
    let n = args.len();
    let mut d: usize = 0;
    while d < n && !str_eq_str(args[d].as_str(), "--")
        invariant
            d <= n,
            n == args@.len(),
            find_delim(args@, 0) == find_delim(args@, d as int),
        decreases n - d,
    {
        d = d + 1;
    }
    if d == n {
        return Err(RemoteClientError::MissingDelimiter);
    }
    let ghost delim = d as int;
    proof {
        assert(find_delim(args@, 0) == delim);
    }

    let mut keep_env: Vec<String> = Vec::new();
    let mut i: usize = 0;
    proof {
        assert(views_of(keep_env@) =~= Seq::<Seq<char>>::empty());
    }
    while i < d
        invariant
            i <= d,
            d < n,
            n == args@.len(),
            find_delim(args@, 0) == delim,
            delim == d as int,
            scan_opts(args@, delim, 0, Seq::empty()) == scan_opts(
                args@,
                delim,
                i as int,
                views_of(keep_env@),
            ),
        decreases d - i,
    {
        let arg = &args[i];
        proof {
            reveal_strlit("--keep-env=");
            reveal_strlit("--keep-env");
            assert("--keep-env="@.len() == 11);
        }
        if str_starts_with(arg.as_str(), "--keep-env=") {
            let value = arg.as_str().substring_char(11, arg.as_str().unicode_len());
            proof {
                assert(value@ =~= arg@.skip(11));
            }
            add_keep_env_value(&mut keep_env, value);
            i = i + 1;
        } else if str_eq_str(arg.as_str(), "--keep-env") {
            if i + 1 >= d {
                return Err(RemoteClientError::MissingKeepEnvValue);
            }
            add_keep_env_value(&mut keep_env, args[i + 1].as_str());
            i = i + 2;
        } else {
            return Err(RemoteClientError::UnknownOption(arg.clone()));
        }
    }

    if d + 1 >= n {
        return Err(RemoteClientError::MissingExecutable);
    }
    let executable = args[d + 1].clone();
    let mut rest: Vec<String> = Vec::new();
    let mut j: usize = d + 2;
    while j < n
        invariant
            d + 2 <= j <= n,
            n == args@.len(),
            delim == d as int,
            rest@ =~= args@.subrange(delim + 2, j as int),
        decreases n - j,
    {
        rest.push(args[j].clone());
        proof {
            assert(rest@ =~= args@.subrange(delim + 2, j as int + 1));
        }
        j = j + 1;
    }
    proof {
        assert(rest@ =~= args@.skip(delim + 2));
        assert(views_of(rest@) =~= views_of(args@.skip(delim + 2)));
    }
    Ok(ParsedArgs { keep_env, executable, args: rest })
}

/// Whether a trimmed RUN_REMOTE_SERVER value is an absolute http or https
/// URL with a host: a scheme prefix followed by a nonempty authority.
pub open spec fn valid_server_url(s: Seq<char>) -> bool {
    ||| (starts_with(s, "http://"@) && s.len() > 7 && s[7] != '/')
    ||| (starts_with(s, "https://"@) && s.len() > 8 && s[8] != '/')
}

/// Trims a string.
pub fn trim_string(s: &str) -> (r: String)
    ensures
        r@ == trim_of(s@),
{
    let chars = chars_vec(s);
    let n = chars.len();
    let r = trimmed_segment(&chars, 0, n);
    proof {
        assert(chars@.subrange(0, n as int) =~= s@);
    }
    r
}

/// Resolves the remote server URL from the RUN_REMOTE_SERVER value: it must
/// be set, nonempty after trimming, and an absolute http(s) URL with a host;
/// the trimmed URL is returned.
pub fn resolve_server_url(raw: Option<String>) -> (r: Result<String, RemoteClientError>)
    ensures
        match raw {
            None => (r matches Err(e) && e is MissingServerUrl),
            Some(v) => {
                &&& trim_of(v@).len() == 0 ==> (r matches Err(e) && e is MissingServerUrl)
                &&& (trim_of(v@).len() > 0 && !valid_server_url(trim_of(v@))) ==> (r matches Err(e)
                    && e is InvalidServerUrl)
                &&& (trim_of(v@).len() > 0 && valid_server_url(trim_of(v@))) ==> (r matches Ok(url)
                    && url@ == trim_of(v@))
            },
        },
{
    proof {
        reveal_strlit("http://");
        reveal_strlit("https://");
        reveal_strlit("/");
    }
    let v = match raw {
        Some(v) => v,
        None => {
            return Err(RemoteClientError::MissingServerUrl);
        }
    };
    let url = trim_string(v.as_str());
    let url_str = url.as_str();
    let len = url_str.unicode_len();
    if len == 0 {
        return Err(RemoteClientError::MissingServerUrl);
    }
    let ok = if str_starts_with(url_str, "http://") {
        len > 7 && url_str.get_char(7) != '/'
    } else if str_starts_with(url_str, "https://") {
        len > 8 && url_str.get_char(8) != '/'
    } else {
        false
    };
    if !ok {
        proof {
            assert("http://"@.len() == 7);
            assert("https://"@.len() == 8);
            assert("http://"@[4] == ':' && "https://"@[4] == 's');
            if starts_with(url@, "http://"@) {
                assert(url@.take(7)[4] == url@[4]);
            }
            if starts_with(url@, "https://"@) {
                assert(url@.take(8)[4] == url@[4]);
            }
        }
        return Err(RemoteClientError::InvalidServerUrl);
    }
    Ok(url)
}

} // verus!
use crate::events::{b64_decode_of, RawStreamEvent};
use crate::text::{lex_le, string_le};

verus! {

/// The environment forwarded for the kept names: each name bound to its
/// local value.
pub open spec fn forwarded_env(names: Seq<String>, values: Seq<Option<String>>) -> Map<
    Seq<char>,
    Seq<char>,
>
    decreases names.len(),
{
    if names.len() == 0 {
        Map::empty()
    } else {
        match values.last() {
            Some(v) => forwarded_env(names.drop_last(), values.drop_last()).insert(
                names.last()@,
                v@,
            ),
            None => forwarded_env(names.drop_last(), values.drop_last()),
        }
    }
}

/// The kept names whose local values are missing, in order.
pub open spec fn missing_names(names: Seq<String>, values: Seq<Option<String>>) -> Seq<Seq<char>>
    decreases names.len(),
{
    if names.len() == 0 {
        Seq::empty()
    } else {
        match values.last() {
            Some(_) => missing_names(names.drop_last(), values.drop_last()),
            None => missing_names(names.drop_last(), values.drop_last()).push(names.last()@),
        }
    }
}

/// `x` inserted into the sorted sequence `s`, before the first element it
/// precedes or equals.
pub open spec fn insert_lex(s: Seq<Seq<char>>, x: Seq<char>) -> Seq<Seq<char>>
    decreases s.len(),
{
    if s.len() == 0 {
        seq![x]
    } else if lex_le(x, s[0]) {
        seq![x] + s
    } else {
        seq![s[0]] + insert_lex(s.skip(1), x)
    }
}

/// `s` sorted by insertion.
pub open spec fn sort_lex(s: Seq<Seq<char>>) -> Seq<Seq<char>>
    decreases s.len(),
{
    if s.len() == 0 {
        Seq::empty()
    } else {
        insert_lex(sort_lex(s.drop_last()), s.last())
    }
}

/// `s` with adjacent duplicates removed.
pub open spec fn dedup_from(s: Seq<Seq<char>>, i: int) -> Seq<Seq<char>>
    decreases s.len() - i,
{
    if i < 0 || i >= s.len() {
        Seq::empty()
    } else if i > 0 && s[i] == s[i - 1] {
        dedup_from(s, i + 1)
    } else {
        seq![s[i]] + dedup_from(s, i + 1)
    }
}

/// The names joined with a comma and a space.
pub open spec fn join_names(s: Seq<Seq<char>>, i: int) -> Seq<char>
    decreases s.len() - i,
{
    if i < 0 || i >= s.len() {
        Seq::empty()
    } else if i == s.len() - 1 {
        s[i]
    } else {
        s[i] + ", "@ + join_names(s, i + 1)
    }
}

/// The text a missing-variables error lists: the missing names, sorted,
/// deduplicated, and joined.
pub open spec fn missing_text(names: Seq<String>, values: Seq<Option<String>>) -> Seq<char> {
    join_names(dedup_from(sort_lex(missing_names(names, values)), 0), 0)
}

fn insert_sorted(v: &mut Vec<String>, x: String)
    ensures
        views_of(final(v)@) == insert_lex(views_of(old(v)@), x@),
{
    let n = v.len();
    let mut j: usize = 0;
    proof {
        assert(views_of(v@).skip(0) =~= views_of(v@));
        assert(views_of(v@).take(0) + insert_lex(views_of(v@), x@) =~= insert_lex(
            views_of(v@),
            x@,
        ));
    }
    while j < n && !string_le(&x, &v[j])
        invariant
            j <= n,
            n == v@.len(),
            insert_lex(views_of(v@), x@) =~= views_of(v@).take(j as int) + insert_lex(
                views_of(v@).skip(j as int),
                x@,
            ),
        decreases n - j,
    {
        proof {
            let vs = views_of(v@);
            assert(vs.skip(j as int)[0] == vs[j as int]);
            assert(insert_lex(vs.skip(j as int), x@) == seq![vs[j as int]] + insert_lex(
                vs.skip(j as int).skip(1),
                x@,
            ));
            assert(vs.skip(j as int).skip(1) =~= vs.skip(j as int + 1));
            assert(vs.take(j as int) + (seq![vs[j as int]] + insert_lex(vs.skip(j as int + 1), x@))
                =~= vs.take(j as int + 1) + insert_lex(vs.skip(j as int + 1), x@));
        }
        j = j + 1;
    }
    proof {
        let vs = views_of(v@);
        if j < n {
            assert(vs.skip(j as int)[0] == vs[j as int]);
            assert(insert_lex(vs.skip(j as int), x@) == seq![x@] + vs.skip(j as int));
        } else {
            assert(vs.skip(j as int) =~= Seq::<Seq<char>>::empty());
        }
    }
    v.insert(j, x);
    proof {
        assert(views_of(final(v)@) =~= views_of(old(v)@).take(j as int) + (seq![x@] + views_of(
            old(v)@,
        ).skip(j as int)));
    }
}

fn sort_strings(v: &Vec<String>) -> (r: Vec<String>)
    ensures
        views_of(r@) == sort_lex(views_of(v@)),
{
    let n = v.len();
    let mut out: Vec<String> = Vec::new();
    let mut i: usize = 0;
    proof {
        assert(views_of(out@) =~= Seq::<Seq<char>>::empty());
        assert(views_of(v@.take(0)) =~= Seq::<Seq<char>>::empty());
    }
    while i < n
        invariant
            i <= n,
            n == v@.len(),
            views_of(out@) == sort_lex(views_of(v@.take(i as int))),
        decreases n - i,
    {
        insert_sorted(&mut out, v[i].clone());
        proof {
            let prefix = views_of(v@.take(i as int));
            let next = views_of(v@.take(i as int + 1));
            assert(next.drop_last() =~= prefix);
            assert(next.last() == v@[i as int]@);
            assert(sort_lex(next) == insert_lex(sort_lex(prefix), v@[i as int]@));
        }
        i = i + 1;
    }
    proof {
        assert(v@.take(n as int) =~= v@);
    }
    out
}

fn dedup_strings(v: &Vec<String>) -> (r: Vec<String>)
    ensures
        views_of(r@) == dedup_from(views_of(v@), 0),
{
    let n = v.len();
    let mut out: Vec<String> = Vec::new();
    let mut i: usize = 0;
    proof {
        assert(views_of(out@) =~= Seq::<Seq<char>>::empty());
        assert(views_of(out@) + dedup_from(views_of(v@), 0) =~= dedup_from(views_of(v@), 0));
    }
    while i < n
        invariant
            i <= n,
            n == v@.len(),
            views_of(out@) + dedup_from(views_of(v@), i as int) == dedup_from(views_of(v@), 0),
        decreases n - i,
    {
        let ghost vs = views_of(v@);
        let skip = i > 0 && v[i].eq(&v[i - 1]);
        if !skip {
            let ghost o0 = views_of(out@);
            out.push(v[i].clone());
            proof {
                assert(views_of(out@) =~= o0 + seq![vs[i as int]]);
                assert((o0 + seq![vs[i as int]]) + dedup_from(vs, i as int + 1) =~= o0 + (seq![
                    vs[i as int],
                ] + dedup_from(vs, i as int + 1)));
            }
        }
        i = i + 1;
    }
    proof {
        assert(dedup_from(views_of(v@), n as int) =~= Seq::<Seq<char>>::empty());
        assert(views_of(out@) + Seq::<Seq<char>>::empty() =~= views_of(out@));
    }
    out
}

fn join_strings(v: &Vec<String>) -> (r: String)
    ensures
        r@ == join_names(views_of(v@), 0),
{
    proof {
        reveal_strlit(", ");
    }
    let n = v.len();
    let mut out = String::new();
    let mut i: usize = 0;
    proof {
        assert(out@ + join_names(views_of(v@), 0) =~= join_names(views_of(v@), 0));
    }
    while i < n
        invariant
            i <= n,
            n == v@.len(),
            out@ + join_names(views_of(v@), i as int) == join_names(views_of(v@), 0),
            i == n ==> out@ == join_names(views_of(v@), 0),
        decreases n - i,
    {
        let ghost o0 = out@;
        let ghost vs = views_of(v@);
        out.append(v[i].as_str());
        if i + 1 < n {
            proof {
                reveal_strlit(", ");
            }
            out.append(", ");
            proof {
                assert(join_names(vs, i as int) == vs[i as int] + ", "@ + join_names(
                    vs,
                    i as int + 1,
                ));
                assert((o0 + vs[i as int] + ", "@) + join_names(vs, i as int + 1) =~= o0
                    + (vs[i as int] + ", "@ + join_names(vs, i as int + 1)));
            }
        } else {
            proof {
                assert(join_names(vs, i as int) == vs[i as int]);
                assert(join_names(vs, i as int + 1) =~= Seq::<char>::empty());
                assert((o0 + vs[i as int]) + Seq::<char>::empty() =~= o0 + vs[i as int]);
            }
        }
        i = i + 1;
    }
    proof {
        assert(join_names(views_of(v@), n as int) =~= Seq::<char>::empty());
        assert(out@ + Seq::<char>::empty() =~= out@);
    }
    out
}

/// Collects the environment to forward: `values` holds the local value of
/// each kept name, in order. When every name has a value, the forwarded map
/// binds each name to its value; otherwise the error lists the missing
/// names, sorted and deduplicated.
pub fn collect_forwarded_env(keep_env: &Vec<String>, values: &Vec<Option<String>>) -> (r: Result<
    EnvMap,
    RemoteClientError,
>)
    requires
        values@.len() == keep_env@.len(),
    ensures
        r is Ok <==> (forall|i: int| 0 <= i < values@.len() ==> values@[i] is Some),
        r matches Ok(m) ==> m@ == forwarded_env(keep_env@, values@) && m.wf(),
        r matches Err(e) ==> (e matches RemoteClientError::MissingLocalEnv(names) && names@
            == missing_text(keep_env@, values@)),
{
    let n = keep_env.len();
    let mut env = EnvMap::new();
    let mut missing: Vec<String> = Vec::new();
    let mut i: usize = 0;
    proof {
        assert(keep_env@.take(0) =~= Seq::<String>::empty());
        assert(values@.take(0) =~= Seq::<Option<String>>::empty());
        assert(views_of(missing@) =~= Seq::<Seq<char>>::empty());
        assert(missing_names(keep_env@.take(0), values@.take(0)) =~= Seq::<Seq<char>>::empty());
    }
    while i < n
        invariant
            i <= n,
            n == keep_env@.len(),
            values@.len() == keep_env@.len(),
            env@ == forwarded_env(keep_env@.take(i as int), values@.take(i as int)),
            env.wf(),
            views_of(missing@) == missing_names(keep_env@.take(i as int), values@.take(i as int)),
            missing@.len() == 0 <==> (forall|j: int| 0 <= j < i ==> values@[j] is Some),
        decreases n - i,
    {
        proof {
            assert(keep_env@.take(i as int + 1).drop_last() =~= keep_env@.take(i as int));
            assert(values@.take(i as int + 1).drop_last() =~= values@.take(i as int));
            assert(keep_env@.take(i as int + 1).last() == keep_env@[i as int]);
            assert(values@.take(i as int + 1).last() == values@[i as int]);
        }
        match &values[i] {
            Some(value) => {
                env.insert(keep_env[i].clone(), value.clone());
            }
            None => {
                let ghost m0 = views_of(missing@);
                missing.push(keep_env[i].clone());
                proof {
                    assert(views_of(missing@) =~= m0.push(keep_env@[i as int]@));
                }
            }
        }
        i = i + 1;
    }
    proof {
        assert(keep_env@.take(n as int) =~= keep_env@);
        assert(values@.take(n as int) =~= values@);
    }
    if missing.len() == 0 {
        return Ok(env);
    }
    let sorted = sort_strings(&missing);
    let deduped = dedup_strings(&sorted);
    let joined = join_strings(&deduped);
    Err(RemoteClientError::MissingLocalEnv(joined))
}

} // verus!
verus! {

/// The first newline byte at or after `from`, or the length.
pub open spec fn first_nl(s: Seq<u8>, from: int) -> int
    decreases s.len() - from,
{
    if from < 0 || from >= s.len() {
        s.len() as int
    } else if s[from] == 10 {
        from
    } else {
        first_nl(s, from + 1)
    }
}

/// The complete (newline-terminated) lines of `s`, newlines excluded.
pub open spec fn complete_lines(s: Seq<u8>) -> Seq<Seq<u8>>
    decreases s.len(),
{
    let i = first_nl(s, 0);
    if i < 0 || i >= s.len() {
        Seq::empty()
    } else {
        seq![s.take(i)] + complete_lines(s.skip(i + 1))
    }
}

/// What remains of `s` after its last complete line.
pub open spec fn line_rest(s: Seq<u8>) -> Seq<u8>
    decreases s.len(),
{
    let i = first_nl(s, 0);
    if i < 0 || i >= s.len() {
        s
    } else {
        line_rest(s.skip(i + 1))
    }
}

/// Splits an ND-JSON byte stream into lines across chunk boundaries.
pub struct LineBuffer {
    rest: Vec<u8>,
}

impl LineBuffer {
    /// The bytes after the last newline seen so far.
    pub closed spec fn rest(&self) -> Seq<u8> {
        self.rest@
    }

    /// No unconsumed newline sits in the buffer.
    pub closed spec fn wf(&self) -> bool {
        forall|i: int| 0 <= i < self.rest@.len() ==> self.rest@[i] != 10
    }

    pub fn new() -> (r: LineBuffer)
        ensures
            r.rest() =~= Seq::<u8>::empty(),
            r.wf(),
    {
        LineBuffer { rest: Vec::new() }
    }

    /// Feeds one chunk and returns the lines it completes, in order; the
    /// bytes after the chunk's last newline stay buffered.
    pub fn push_chunk(&mut self, chunk: &[u8]) -> (lines: Vec<Vec<u8>>)
        requires
            old(self).wf(),
        ensures
            lines.deep_view() == complete_lines(old(self).rest() + chunk@),
            final(self).rest() == line_rest(old(self).rest() + chunk@),
            final(self).wf(),
    {
        let ghost whole = old(self).rest() + chunk@;
        let mut lines: Vec<Vec<u8>> = Vec::new();
        let mut k: usize = 0;
        proof {
            assert(lines.deep_view() =~= Seq::<Seq<u8>>::empty());
            assert(self.rest@ + chunk@.take(0) =~= self.rest@);
            lemma_rest_only(self.rest@);
        }
        while k < chunk.len()
            invariant
                k <= chunk@.len(),
                whole == old(self).rest() + chunk@,
                self.wf(),
                self.rest@ == line_rest(old(self).rest() + chunk@.take(k as int)),
                lines.deep_view() == complete_lines(old(self).rest() + chunk@.take(k as int)),
            decreases chunk@.len() - k,
        {
            let b = chunk[k];
            let ghost prefix = old(self).rest() + chunk@.take(k as int);
            if b == 10 {
                let mut line: Vec<u8> = Vec::new();
                core::mem::swap(&mut self.rest, &mut line);
                lines.push(line);
                proof {
                    assert(old(self).rest() + chunk@.take(k as int + 1) =~= prefix + seq![10u8]);
                    lemma_lines_newline(prefix, line_rest(prefix));
                    assert(lines.deep_view() =~~= complete_lines(prefix).push(line_rest(prefix)));
                    assert(self.rest@ =~= Seq::<u8>::empty());
                }
            } else {
                self.rest.push(b);
                proof {
                    assert(old(self).rest() + chunk@.take(k as int + 1) =~= prefix + seq![b]);
                    lemma_lines_nonl(prefix, b);
                }
            }
            k = k + 1;
        }
        proof {
            assert(old(self).rest() + chunk@.take(chunk@.len() as int) =~= whole);
        }
        lines
    }

    /// Hands out whatever is buffered after the final chunk.
    pub fn take_rest(&mut self) -> (r: Vec<u8>)
        ensures
            r@ == old(self).rest(),
            final(self).rest() =~= Seq::<u8>::empty(),
            final(self).wf(),
    {
        let mut r: Vec<u8> = Vec::new();
        core::mem::swap(&mut self.rest, &mut r);
        r
    }
}

/// A newline-free sequence has no complete lines and is all rest.
proof fn lemma_rest_only(s: Seq<u8>)
    requires
        forall|i: int| 0 <= i < s.len() ==> s[i] != 10,
    ensures
        complete_lines(s) =~= Seq::<Seq<u8>>::empty(),
        line_rest(s) == s,
    decreases s.len(),
{
    lemma_first_nl_all(s, 0);
}

proof fn lemma_first_nl_all(s: Seq<u8>, from: int)
    requires
        0 <= from <= s.len(),
        forall|i: int| from <= i < s.len() ==> s[i] != 10,
    ensures
        first_nl(s, from) == s.len(),
    decreases s.len() - from,
{
    if from < s.len() {
        lemma_first_nl_all(s, from + 1);
    }
}

/// Appending a newline to a rest-only prefix completes one line.
proof fn lemma_lines_newline(s: Seq<u8>, rest: Seq<u8>)
    requires
        rest == line_rest(s),
        forall|i: int| 0 <= i < rest.len() ==> rest[i] != 10,
    ensures
        complete_lines(s + seq![10u8]) == complete_lines(s).push(rest),
        line_rest(s + seq![10u8]) =~= Seq::<u8>::empty(),
    decreases s.len(),
{
    let t = s + seq![10u8];
    let i = first_nl(s, 0);
    let j = first_nl(t, 0);
    lemma_first_nl_extend(s, seq![10u8]);
    if 0 <= i < s.len() {
        assert(t.take(j) =~= s.take(i));
        assert(t.skip(j + 1) =~= s.skip(i + 1) + seq![10u8]);
        lemma_lines_newline(s.skip(i + 1), rest);
        assert(complete_lines(t) == seq![t.take(j)] + complete_lines(t.skip(j + 1)));
        assert(line_rest(t) == line_rest(t.skip(j + 1)));
        assert(seq![s.take(i)] + complete_lines(s.skip(i + 1)).push(rest) =~= (seq![s.take(i)]
            + complete_lines(s.skip(i + 1))).push(rest));
        assert(complete_lines(t) =~= complete_lines(s).push(rest));
    } else {
        assert(j == s.len());
        assert(t.take(j) =~= s);
        assert(rest == s);
        assert(t.skip(j + 1) =~= Seq::<u8>::empty());
        assert(complete_lines(Seq::<u8>::empty()) =~= Seq::<Seq<u8>>::empty());
        assert(complete_lines(t) =~= complete_lines(s).push(rest));
        assert(line_rest(t) == line_rest(t.skip(j + 1)));
        assert(line_rest(Seq::<u8>::empty()) =~= Seq::<u8>::empty());
    }
}

/// Appending a non-newline byte only grows the rest.
proof fn lemma_lines_nonl(s: Seq<u8>, b: u8)
    requires
        b != 10,
    ensures
        complete_lines(s + seq![b]) == complete_lines(s),
        line_rest(s + seq![b]) == line_rest(s) + seq![b],
    decreases s.len(),
{
    let t = s + seq![b];
    let i = first_nl(s, 0);
    let j = first_nl(t, 0);
    lemma_first_nl_extend(s, seq![b]);
    if 0 <= i < s.len() {
        assert(t.take(j) =~= s.take(i));
        assert(t.skip(j + 1) =~= s.skip(i + 1) + seq![b]);
        lemma_lines_nonl(s.skip(i + 1), b);
        assert(complete_lines(t) =~= complete_lines(s));
    } else {
        assert(j == t.len());
        assert(complete_lines(t) =~= complete_lines(s));
        assert(line_rest(t) == t);
        assert(line_rest(s) == s);
    }
}

/// The first newline of `s + ext` is that of `s` when `s` has one.
proof fn lemma_first_nl_extend(s: Seq<u8>, ext: Seq<u8>)
    ensures
        0 <= first_nl(s, 0) <= s.len(),
        first_nl(s, 0) < s.len() ==> first_nl(s + ext, 0) == first_nl(s, 0),
        first_nl(s, 0) == s.len() && ext.len() == 1 && ext[0] == 10 ==> first_nl(s + ext, 0)
            == s.len(),
        first_nl(s, 0) == s.len() && ext.len() == 1 && ext[0] != 10 ==> first_nl(s + ext, 0) == (s
            + ext).len(),
{
    lemma_first_nl_from(s, ext, 0);
}

proof fn lemma_first_nl_from(s: Seq<u8>, ext: Seq<u8>, from: int)
    requires
        0 <= from <= s.len(),
    ensures
        from <= first_nl(s, from) <= s.len(),
        first_nl(s, from) < s.len() ==> first_nl(s + ext, from) == first_nl(s, from),
        first_nl(s, from) == s.len() && ext.len() == 1 && ext[0] == 10 ==> first_nl(s + ext, from)
            == s.len(),
        first_nl(s, from) == s.len() && ext.len() == 1 && ext[0] != 10 ==> first_nl(s + ext, from)
            == (s + ext).len(),
    decreases s.len() - from,
{
    if from < s.len() {
        assert((s + ext)[from] == s[from]);
        if s[from] != 10 {
            lemma_first_nl_from(s, ext, from + 1);
        }
    } else {
        if ext.len() == 1 {
            assert((s + ext)[from] == ext[0]);
            if ext[0] != 10 {
                assert(first_nl(s + ext, from + 1) == (s + ext).len());
            }
        }
    }
}

} // verus!
verus! {

/// What the replay client does with one decoded event.
#[derive(Debug)]
pub enum ReplayAction {
    /// Nothing to write.
    Proceed,
    /// Write these bytes to the local stdout and flush.
    WriteStdout(Vec<u8>),
    /// Write these bytes to the local stderr and flush.
    WriteStderr(Vec<u8>),
}

/// The replay client's view of the stream so far.
pub struct ReplayState {
    pub saw_start: bool,
    pub exit_code: Option<i32>,
}

impl ReplayState {
    pub fn new() -> (r: ReplayState)
        ensures
            !r.saw_start,
            (r.exit_code is None),
    {
        ReplayState { saw_start: false, exit_code: None }
    }

    /// Dispatches one decoded event: payloads are decoded and written to the
    /// matching local stream; any payload or exit event before the start
    /// event is a protocol error; a signaled child's missing code is
    /// replaced with one; a remote error event aborts the replay.
    pub fn handle_event(&mut self, event: RawStreamEvent) -> (r: Result<
        ReplayAction,
        RemoteClientError,
    >)
        requires
            (old(self).exit_code is None),
        ensures
            match event {
                RawStreamEvent::Start => r == Ok::<ReplayAction, RemoteClientError>(
                    ReplayAction::Proceed,
                ) && final(self).saw_start && final(self).exit_code == old(self).exit_code,
                RawStreamEvent::Stdout { data_b64 } => {
                    &&& *final(self) == *old(self)
                    &&& (!old(self).saw_start ==> (r matches Err(e) && e matches
                        RemoteClientError::Protocol(m) && m@
                        == "received stdout event before start event"@))
                    &&& (old(self).saw_start && b64_decode_of(data_b64@) is Some ==> (r matches Ok(
                        a,
                    ) && a matches ReplayAction::WriteStdout(w) && w@ == b64_decode_of(
                        data_b64@,
                    ).unwrap()))
                    &&& (old(self).saw_start && b64_decode_of(data_b64@) is None ==> (r matches Err(
                        e,
                    ) && e matches RemoteClientError::Protocol(m) && starts_with(
                        m@,
                        "invalid stdout base64 payload: "@,
                    )))
                },
                RawStreamEvent::Stderr { data_b64 } => {
                    &&& *final(self) == *old(self)
                    &&& (!old(self).saw_start ==> (r matches Err(e) && e matches
                        RemoteClientError::Protocol(m) && m@
                        == "received stderr event before start event"@))
                    &&& (old(self).saw_start && b64_decode_of(data_b64@) is Some ==> (r matches Ok(
                        a,
                    ) && a matches ReplayAction::WriteStderr(w) && w@ == b64_decode_of(
                        data_b64@,
                    ).unwrap()))
                    &&& (old(self).saw_start && b64_decode_of(data_b64@) is None ==> (r matches Err(
                        e,
                    ) && e matches RemoteClientError::Protocol(m) && starts_with(
                        m@,
                        "invalid stderr base64 payload: "@,
                    )))
                },
                RawStreamEvent::Exit { exit_code } => {
                    &&& !old(self).saw_start ==> (r matches Err(e) && e matches
                        RemoteClientError::Protocol(m) && m@
                        == "received exit event before start event"@ && *final(self) == *old(self))
                    &&& old(self).saw_start ==> (r == Ok::<ReplayAction, RemoteClientError>(
                        ReplayAction::Proceed,
                    ) && final(self).exit_code == Some(
                        match exit_code {
                            Some(c) => c,
                            None => 1i32,
                        },
                    ) && final(self).saw_start == old(self).saw_start)
                },
                RawStreamEvent::Error { message } => (r matches Err(e) && e matches
                    RemoteClientError::RemoteRuntime(m) && m == message && *final(self) == *old(
                    self,
                )),
            },
    {
        match event {
            RawStreamEvent::Start => {
                self.saw_start = true;
                Ok(ReplayAction::Proceed)
            }
            RawStreamEvent::Stdout { data_b64 } => {
                if !self.saw_start {
                    proof {
                        reveal_strlit("received stdout event before start event");
                    }
                    let mut m = String::new();
                    m.append("received stdout event before start event");
                    return Err(RemoteClientError::Protocol(m));
                }
                match crate::events::decode_b64_payload(&data_b64) {
                    Ok(bytes) => Ok(ReplayAction::WriteStdout(bytes)),
                    Err(details) => {
                        proof {
                            reveal_strlit("invalid stdout base64 payload: ");
                        }
                        let mut m = String::new();
                        m.append("invalid stdout base64 payload: ");
                        m.append(details.as_str());
                        proof {
                            assert(m@.take("invalid stdout base64 payload: "@.len() as int)
                                =~= "invalid stdout base64 payload: "@);
                        }
                        Err(RemoteClientError::Protocol(m))
                    }
                }
            }
            RawStreamEvent::Stderr { data_b64 } => {
                if !self.saw_start {
                    proof {
                        reveal_strlit("received stderr event before start event");
                    }
                    let mut m = String::new();
                    m.append("received stderr event before start event");
                    return Err(RemoteClientError::Protocol(m));
                }
                match crate::events::decode_b64_payload(&data_b64) {
                    Ok(bytes) => Ok(ReplayAction::WriteStderr(bytes)),
                    Err(details) => {
                        proof {
                            reveal_strlit("invalid stderr base64 payload: ");
                        }
                        let mut m = String::new();
                        m.append("invalid stderr base64 payload: ");
                        m.append(details.as_str());
                        proof {
                            assert(m@.take("invalid stderr base64 payload: "@.len() as int)
                                =~= "invalid stderr base64 payload: "@);
                        }
                        Err(RemoteClientError::Protocol(m))
                    }
                }
            }
            RawStreamEvent::Exit { exit_code } => {
                if !self.saw_start {
                    proof {
                        reveal_strlit("received exit event before start event");
                    }
                    let mut m = String::new();
                    m.append("received exit event before start event");
                    return Err(RemoteClientError::Protocol(m));
                }
                self.exit_code = Some(
                    match exit_code {
                        Some(code) => code,
                        None => 1,
                    },
                );
                Ok(ReplayAction::Proceed)
            }
            RawStreamEvent::Error { message } => Err(RemoteClientError::RemoteRuntime(message)),
        }
    }

    /// Closes the replay when the stream ends: the recorded exit code, or a
    /// protocol error if the stream ended before an exit event.
    pub fn finish(self) -> (r: Result<i32, RemoteClientError>)
        ensures
            self.exit_code matches Some(code) ==> r == Ok::<i32, RemoteClientError>(code),
            (self.exit_code is None) ==> (r matches Err(e) && e matches
                RemoteClientError::Protocol(m) && m@ == "stream ended before exit event"@),
    {
        match self.exit_code {
            Some(code) => Ok(code),
            None => {
                proof {
                    reveal_strlit("stream ended before exit event");
                }
                let mut m = String::new();
                m.append("stream ended before exit event");
                Err(RemoteClientError::Protocol(m))
            }
        }
    }
}

/// Whether an HTTP status is a success.
pub fn status_is_success(status: u16) -> (r: bool)
    ensures
        r == (200 <= status < 300),
{
    200 <= status && status < 300
}

/// The error for a rejected request: the server's status, and the `error`
/// field of its JSON body when it parsed as one, else the trimmed raw body.
pub fn server_rejected(status: u16, parsed_error: Option<String>, body: &str) -> (r:
    RemoteClientError)
    ensures
        r matches RemoteClientError::ServerRejected { status: st, message } && st == status
            && message@ == (match parsed_error {
            Some(e) => e@,
            None => trim_of(body@),
        }),
{
    let message = match parsed_error {
        Some(e) => e,
        None => trim_string(body),
    };
    RemoteClientError::ServerRejected { status, message }
}

} // verus!
