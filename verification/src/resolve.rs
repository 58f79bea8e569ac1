use vstd::prelude::*;

use crate::network::first_sep;
use crate::text::{chars_vec, starts_with, string_from_chars};

verus! {

/// Whether the command token names a path (and skips the PATH search).
pub open spec fn names_path(s: Seq<char>) -> bool {
    exists|i: int| 0 <= i < s.len() && s[i] == '/'
}

/// Decides `names_path`.
pub fn command_names_path(command: &str) -> (r: bool)
    ensures
        r == names_path(command@),
{
    let n = command.unicode_len();
    let mut i: usize = 0;
    while i < n
        invariant
            i <= n,
            n == command@.len(),
            forall|j: int| 0 <= j < i ==> command@[j] != '/',
        decreases n - i,
    {
        if command.get_char(i) == '/' {
            return true;
        }
        i = i + 1;
    }
    false
}

/// A directory joined with a file name, exactly as the strings read: an
/// empty directory yields the bare name, and no separator is doubled.
pub open spec fn join_path(dir: Seq<char>, name: Seq<char>) -> Seq<char> {
    if dir.len() == 0 {
        name
    } else if dir.last() == '/' {
        dir + name
    } else {
        dir + "/"@ + name
    }
}

/// The candidate paths a PATH search probes, in order: each PATH entry —
/// kept verbatim, symlinks and all, never canonicalized — joined with the
/// command.
pub open spec fn candidates_of(path: Seq<char>, command: Seq<char>) -> Seq<Seq<char>>
    decreases path.len(),
{
    let i = first_sep(path, ':', 0);
    if i < 0 || i >= path.len() {
        seq![join_path(path, command)]
    } else {
        seq![join_path(path.take(i), command)] + candidates_of(path.skip(i + 1), command)
    }
}

fn join_segment(chars: &Vec<char>, start: usize, end: usize, name: &str) -> (r: String)
    requires
        start <= end <= chars@.len(),
    ensures
        r@ == join_path(chars@.subrange(start as int, end as int), name@),
{
    proof {
        reveal_strlit("/");
    }
    let ghost seg = chars@.subrange(start as int, end as int);
    if start == end {
        return name.to_owned();
    }
    let mut out_chars: Vec<char> = Vec::new();
    let mut i: usize = start;
    while i < end
        invariant
            start <= i <= end,
            end <= chars@.len(),
            out_chars@ =~= chars@.subrange(start as int, i as int),
        decreases end - i,
    {
        out_chars.push(chars[i]);
        proof {
            assert(out_chars@ =~= chars@.subrange(start as int, i as int + 1));
        }
        i = i + 1;
    }
    let mut out = string_from_chars(&out_chars);
    if chars[end - 1] != '/' {
        out.append("/");
    }
    out.append(name);
    proof {
        assert(seg.last() == chars@[end - 1]);
        assert(out@ =~= join_path(seg, name@));
    }
    out
}

/// The candidate paths of a PATH search for `command`, in PATH order. Each
/// candidate is the PATH entry's own text joined with the command: a PATH
/// entry that is a symlink resolves to the link's path, not its target's.
pub fn path_candidates(command: &str, path_var: &str) -> (r: Vec<String>)
    ensures
        crate::client::views_of(r@) == candidates_of(path_var@, command@),
{
    let chars = chars_vec(path_var);
    let n = chars.len();
    let mut out: Vec<String> = Vec::new();
    let mut pos: usize = 0;
    proof {
        assert(path_var@.skip(0) =~= path_var@);
        assert(crate::client::views_of(out@) + candidates_of(path_var@, command@)
            =~= candidates_of(path_var@, command@));
    }
    loop
        invariant
            pos <= n,
            n == path_var@.len(),
            chars@ == path_var@,
            crate::client::views_of(out@) + candidates_of(path_var@.skip(pos as int), command@)
                == candidates_of(path_var@, command@),
        decreases n - pos,
    {
        let ghost rest = path_var@.skip(pos as int);
        let mut k: usize = pos;
        while k < n && chars[k] != ':'
            invariant
                pos <= k <= n,
                n == path_var@.len(),
                chars@ == path_var@,
                rest == path_var@.skip(pos as int),
                first_sep(rest, ':', 0) == first_sep(rest, ':', k - pos),
            decreases n - k,
        {
            proof {
                assert(rest[k - pos] == path_var@[k as int]);
            }
            k = k + 1;
        }
        proof {
            if k < n {
                assert(rest[k - pos] == path_var@[k as int]);
                assert(first_sep(rest, ':', 0) == k - pos);
            } else {
                assert(first_sep(rest, ':', 0) == rest.len());
            }
        }
        let candidate = join_segment(&chars, pos, k, command);
        let ghost o0 = crate::client::views_of(out@);
        out.push(candidate);
        proof {
            assert(crate::client::views_of(out@) =~= o0.push(join_path(
                chars@.subrange(pos as int, k as int),
                command@,
            )));
            assert(chars@.subrange(pos as int, k as int) =~= rest.take(k - pos));
        }
        if k >= n {
            proof {
                assert(rest.take(k - pos) =~= rest);
                assert(candidates_of(rest, command@) =~= seq![join_path(rest, command@)]);
                assert(o0.push(join_path(rest, command@)) + Seq::<Seq<char>>::empty() =~= o0.push(
                    join_path(rest, command@),
                ));
                assert(crate::client::views_of(out@) + Seq::<Seq<char>>::empty()
                    =~= crate::client::views_of(out@));
            }
            return out;
        }
        proof {
            assert(path_var@.skip(k as int + 1) =~= rest.skip(k - pos + 1));
            assert(candidates_of(rest, command@) == seq![join_path(rest.take(k - pos), command@)]
                + candidates_of(rest.skip(k - pos + 1), command@));
            assert(o0.push(join_path(rest.take(k - pos), command@)) + candidates_of(
                rest.skip(k - pos + 1),
                command@,
            ) =~= o0 + candidates_of(rest, command@));
        }
        pos = k + 1;
    }
}

/// The path a command token that names a path resolves to: the token itself
/// when absolute, else the working directory joined with it. The token's
/// text is kept as given; nothing is canonicalized.
pub fn resolve_literal(command: &str, cwd: &str) -> (r: String)
    ensures
        starts_with(command@, "/"@) ==> r@ == command@,
        !starts_with(command@, "/"@) ==> r@ == join_path(cwd@, command@),
{
    proof {
        reveal_strlit("/");
    }
    if crate::text::str_starts_with(command, "/") {
        command.to_owned()
    } else {
        let chars = chars_vec(cwd);
        let n = chars.len();
        let r = join_segment(&chars, 0, n, command);
        proof {
            assert(chars@.subrange(0, n as int) =~= cwd@);
        }
        r
    }
}

/// The resolution error for a command not found on PATH.
pub fn not_found_on_path(command: &str) -> (r: String)
    ensures
        r@ == "'"@ + command@ + "' was not found on PATH"@,
{
    proof {
        reveal_strlit("'");
        reveal_strlit("' was not found on PATH");
    }
    let mut m = String::new();
    m.append("'");
    m.append(command);
    m.append("' was not found on PATH");
    m
}

/// The resolution error for an unset PATH.
pub fn path_not_set() -> (r: String)
    ensures
        r@ == "PATH is not set"@,
{
    proof {
        reveal_strlit("PATH is not set");
    }
    let mut m = String::new();
    m.append("PATH is not set");
    m
}

/// The resolution error for a path that is not a regular file.
pub fn not_a_file(path: &str) -> (r: String)
    ensures
        r@ == "'"@ + path@ + "' is not a file"@,
{
    proof {
        reveal_strlit("'");
        reveal_strlit("' is not a file");
    }
    let mut m = String::new();
    m.append("'");
    m.append(path);
    m.append("' is not a file");
    m
}

/// The resolution error for a file without an execute bit.
pub fn not_executable(path: &str) -> (r: String)
    ensures
        r@ == "'"@ + path@ + "' is not executable"@,
{
    proof {
        reveal_strlit("'");
        reveal_strlit("' is not executable");
    }
    let mut m = String::new();
    m.append("'");
    m.append(path);
    m.append("' is not executable");
    m
}

} // verus!
