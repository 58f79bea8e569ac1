use vstd::prelude::*;

verus! {

/// The hex digit character for a value below sixteen.
pub open spec fn hex_digit(d: nat) -> char
    recommends
        d < 16,
{
    if d == 0 { '0' }
    else if d == 1 { '1' }
    else if d == 2 { '2' }
    else if d == 3 { '3' }
    else if d == 4 { '4' }
    else if d == 5 { '5' }
    else if d == 6 { '6' }
    else if d == 7 { '7' }
    else if d == 8 { '8' }
    else if d == 9 { '9' }
    else if d == 10 { 'a' }
    else if d == 11 { 'b' }
    else if d == 12 { 'c' }
    else if d == 13 { 'd' }
    else if d == 14 { 'e' }
    else { 'f' }
}

/// How one character appears inside a JSON string literal: quotes and
/// backslashes are escaped, common control characters use their short
/// escapes, and the remaining control characters use a unicode escape.
pub open spec fn escape_char(c: char) -> Seq<char> {
    if c == '"' {
        seq!['\\', '"']
    } else if c == '\\' {
        seq!['\\', '\\']
    } else if c == '\n' {
        seq!['\\', 'n']
    } else if c == '\r' {
        seq!['\\', 'r']
    } else if c == '\t' {
        seq!['\\', 't']
    } else if (c as u32) < 32 {
        seq!['\\', 'u', '0', '0'] + seq![hex_digit(((c as u32) / 16) as nat)] + seq![
            hex_digit(((c as u32) % 16) as nat),
        ]
    } else {
        seq![c]
    }
}

/// The body of a JSON string literal for `s`.
pub open spec fn json_escaped(s: Seq<char>) -> Seq<char>
    decreases s.len(),
{
    if s.len() == 0 {
        Seq::empty()
    } else {
        escape_char(s[0]) + json_escaped(s.skip(1))
    }
}

/// The JSON string literal for `s`, quotes included.
pub open spec fn json_string(s: Seq<char>) -> Seq<char> {
    seq!['"'] + json_escaped(s) + seq!['"']
}

fn hex_str(d: u32) -> (s: &'static str)
    requires
        d < 16,
    ensures
        s@ =~= seq![hex_digit(d as nat)],
{
    proof {
        reveal_strlit("0");
        reveal_strlit("1");
        reveal_strlit("2");
        reveal_strlit("3");
        reveal_strlit("4");
        reveal_strlit("5");
        reveal_strlit("6");
        reveal_strlit("7");
        reveal_strlit("8");
        reveal_strlit("9");
        reveal_strlit("a");
        reveal_strlit("b");
        reveal_strlit("c");
        reveal_strlit("d");
        reveal_strlit("e");
        reveal_strlit("f");
    }
    if d == 0 { "0" }
    else if d == 1 { "1" }
    else if d == 2 { "2" }
    else if d == 3 { "3" }
    else if d == 4 { "4" }
    else if d == 5 { "5" }
    else if d == 6 { "6" }
    else if d == 7 { "7" }
    else if d == 8 { "8" }
    else if d == 9 { "9" }
    else if d == 10 { "a" }
    else if d == 11 { "b" }
    else if d == 12 { "c" }
    else if d == 13 { "d" }
    else if d == 14 { "e" }
    else { "f" }
}

/// Appends one escaped character to `out`.
fn append_escaped_char(out: &mut String, s: &str, i: usize)
    requires
        i < s@.len(),
        i < usize::MAX,
    ensures
        final(out)@ == old(out)@ + escape_char(s@[i as int]),
{
    let c = s.get_char(i);
    proof {
        reveal_strlit("\\\"");
        reveal_strlit("\\\\");
        reveal_strlit("\\n");
        reveal_strlit("\\r");
        reveal_strlit("\\t");
        reveal_strlit("\\u00");
    }
    if c == '"' {
        out.append("\\\"");
        proof {
            assert("\\\""@ =~= escape_char('"'));
        }
    } else if c == '\\' {
        out.append("\\\\");
        proof {
            assert("\\\\"@ =~= escape_char('\\'));
        }
    } else if c == '\n' {
        out.append("\\n");
        proof {
            assert("\\n"@ =~= escape_char('\n'));
        }
    } else if c == '\r' {
        out.append("\\r");
        proof {
            assert("\\r"@ =~= escape_char('\r'));
        }
    } else if (c as u32) < 32 {
        if c == '\t' {
            out.append("\\t");
            proof {
                assert("\\t"@ =~= escape_char('\t'));
            }
        } else {
            let v = c as u32;
            out.append("\\u00");
            out.append(hex_str(v / 16));
            out.append(hex_str(v % 16));
            proof {
                assert(old(out)@ + "\\u00"@ + seq![hex_digit((v / 16) as nat)] + seq![
                    hex_digit((v % 16) as nat),
                ] =~= old(out)@ + escape_char(c));
            }
        }
    } else {
        let piece = s.substring_char(i, i + 1);
        out.append(piece);
        proof {
            assert(piece@ =~= escape_char(c));
        }
    }
}

/// Appends the JSON string literal for `s` to `out`.
pub fn append_json_string(out: &mut String, s: &str)
    ensures
        final(out)@ == old(out)@ + json_string(s@),
{
    proof {
        reveal_strlit("\"");
    }
    out.append("\"");
    let n = s.unicode_len();
    let mut i: usize = 0;
    proof {
        assert(s@.skip(0) =~= s@);
        assert(out@ =~= old(out)@ + "\""@ + json_escaped(s@.take(0)));
    }
    while i < n
        invariant
            i <= n,
            n == s@.len(),
            out@ == old(out)@ + "\""@ + json_escaped(s@.take(i as int)),
        decreases n - i,
    {
        append_escaped_char(out, s, i);
        proof {
            lemma_json_escaped_step(s@, i as int);
            assert(old(out)@ + "\""@ + json_escaped(s@.take(i as int)) + escape_char(s@[i as int])
                =~= old(out)@ + "\""@ + (json_escaped(s@.take(i as int)) + escape_char(
                s@[i as int],
            )));
        }
        i = i + 1;
    }
    out.append("\"");
    proof {
        assert(s@.take(n as int) =~= s@);
        assert(old(out)@ + "\""@ + json_escaped(s@) + "\""@ =~= old(out)@ + json_string(s@));
    }
}

/// Escaping a sequence one character longer appends that character's escape.
proof fn lemma_json_escaped_step(s: Seq<char>, i: int)
    requires
        0 <= i < s.len(),
    ensures
        json_escaped(s.take(i + 1)) == json_escaped(s.take(i)) + escape_char(s[i]),
    decreases i,
{
    if i == 0 {
        assert(s.take(1) =~= seq![s[0]]);
        assert(s.take(1).skip(1) =~= Seq::<char>::empty());
        assert(s.take(0) =~= Seq::<char>::empty());
        assert(json_escaped(s.take(0)) + escape_char(s[0]) =~= escape_char(s[0])
            + json_escaped(Seq::empty()));
    } else {
        lemma_json_escaped_step(s.skip(1), i - 1);
        assert(s.take(i + 1)[0] == s[0]);
        assert(s.take(i + 1).skip(1) =~= s.skip(1).take(i));
        assert(s.take(i)[0] == s[0]);
        assert(s.take(i).skip(1) =~= s.skip(1).take(i - 1));
        assert(s.skip(1)[i - 1] == s[i]);
        assert(escape_char(s[0]) + (json_escaped(s.skip(1).take(i - 1)) + escape_char(s[i]))
            =~= (escape_char(s[0]) + json_escaped(s.skip(1).take(i - 1))) + escape_char(s[i]));
    }
}

} // verus!
use crate::envmap::EnvMap;

verus! {

/// The comma-joined JSON string literals of `items[from..]`.
pub open spec fn json_string_items(items: Seq<String>, from: int) -> Seq<char>
    decreases items.len() - from,
{
    if from < 0 || from >= items.len() {
        Seq::empty()
    } else if from == items.len() - 1 {
        json_string(items[from]@)
    } else {
        json_string(items[from]@) + seq![','] + json_string_items(items, from + 1)
    }
}

/// The JSON array of string literals for `items`.
pub open spec fn json_string_array(items: Seq<String>) -> Seq<char> {
    seq!['['] + json_string_items(items, 0) + seq![']']
}

/// The comma-joined `"key":"value"` members of `entries[from..]`.
pub open spec fn json_object_members(entries: Seq<(String, String)>, from: int) -> Seq<char>
    decreases entries.len() - from,
{
    if from < 0 || from >= entries.len() {
        Seq::empty()
    } else if from == entries.len() - 1 {
        json_string(entries[from].0@) + seq![':'] + json_string(entries[from].1@)
    } else {
        json_string(entries[from].0@) + seq![':'] + json_string(entries[from].1@) + seq![',']
            + json_object_members(entries, from + 1)
    }
}

/// The JSON object of string members for `entries`, in entry order.
pub open spec fn json_string_object(entries: Seq<(String, String)>) -> Seq<char> {
    seq!['{'] + json_object_members(entries, 0) + seq!['}']
}

/// Appends the JSON array of string literals for `items` to `out`.
pub fn append_json_string_array(out: &mut String, items: &Vec<String>)
    ensures
        final(out)@ == old(out)@ + json_string_array(items@),
{
    proof {
        reveal_strlit("[");
        reveal_strlit("]");
        reveal_strlit(",");
    }
    out.append("[");
    let n = items.len();
    let mut i: usize = 0;
    proof {
        assert(out@ =~= old(out)@ + "["@ + Seq::<char>::empty());
    }
    while i < n
        invariant
            i <= n,
            n == items@.len(),
            out@ + json_string_items(items@, i as int) == old(out)@ + "["@ + json_string_items(
                items@,
                0,
            ),
            i == n ==> out@ == old(out)@ + "["@ + json_string_items(items@, 0),
        decreases n - i,
    {
        let ghost o0 = out@;
        append_json_string(out, items[i].as_str());
        if i + 1 < n {
            out.append(",");
            proof {
                reveal_strlit(",");
                assert(json_string_items(items@, i as int) == json_string(items@[i as int]@)
                    + seq![','] + json_string_items(items@, i as int + 1));
                assert((o0 + json_string(items@[i as int]@) + ","@) + json_string_items(
                    items@,
                    i as int + 1,
                ) =~= o0 + (json_string(items@[i as int]@) + seq![','] + json_string_items(
                    items@,
                    i as int + 1,
                )));
            }
        } else {
            proof {
                reveal_strlit(",");
                assert(json_string_items(items@, i as int) == json_string(items@[i as int]@));
                assert(json_string_items(items@, i as int + 1) =~= Seq::<char>::empty());
                assert((o0 + json_string(items@[i as int]@)) + Seq::<char>::empty() =~= o0
                    + json_string(items@[i as int]@));
            }
        }
        i = i + 1;
    }
    proof {
        assert(json_string_items(items@, n as int) =~= Seq::<char>::empty());
        assert(out@ + Seq::<char>::empty() =~= out@);
    }
    out.append("]");
    proof {
        assert((old(out)@ + "["@ + json_string_items(items@, 0)) + "]"@ =~= old(out)@
            + json_string_array(items@));
    }
}

/// Appends the JSON object of string members for `map` to `out`.
pub fn append_json_string_object(out: &mut String, map: &EnvMap)
    ensures
        final(out)@ == old(out)@ + json_string_object(map.seq()),
{
    proof {
        reveal_strlit("{");
        reveal_strlit("}");
        reveal_strlit(",");
        reveal_strlit(":");
    }
    out.append("{");
    let n = map.len();
    let mut i: usize = 0;
    proof {
        assert(out@ =~= old(out)@ + "{"@ + Seq::<char>::empty());
    }
    while i < n
        invariant
            i <= n,
            n == map.seq().len(),
            out@ + json_object_members(map.seq(), i as int) == old(out)@ + "{"@
                + json_object_members(map.seq(), 0),
            i == n ==> out@ == old(out)@ + "{"@ + json_object_members(map.seq(), 0),
        decreases n - i,
    {
        let ghost o0 = out@;
        let ghost entries = map.seq();
        append_json_string(out, map.key_at(i).as_str());
        out.append(":");
        append_json_string(out, map.val_at(i).as_str());
        if i + 1 < n {
            out.append(",");
            proof {
                reveal_strlit(",");
                reveal_strlit(":");
                assert(json_object_members(entries, i as int) == json_string(entries[i as int].0@)
                    + seq![':'] + json_string(entries[i as int].1@) + seq![',']
                    + json_object_members(entries, i as int + 1));
                assert((o0 + json_string(entries[i as int].0@) + ":"@ + json_string(
                    entries[i as int].1@,
                ) + ","@) + json_object_members(entries, i as int + 1) =~= o0 + (json_string(
                    entries[i as int].0@,
                ) + seq![':'] + json_string(entries[i as int].1@) + seq![','] + json_object_members(
                    entries,
                    i as int + 1,
                )));
            }
        } else {
            proof {
                reveal_strlit(",");
                reveal_strlit(":");
                assert(json_object_members(entries, i as int) == json_string(entries[i as int].0@)
                    + seq![':'] + json_string(entries[i as int].1@));
                assert(json_object_members(entries, i as int + 1) =~= Seq::<char>::empty());
                assert((o0 + json_string(entries[i as int].0@) + ":"@ + json_string(
                    entries[i as int].1@,
                )) + Seq::<char>::empty() =~= o0 + (json_string(entries[i as int].0@) + seq![':']
                    + json_string(entries[i as int].1@)));
            }
        }
        i = i + 1;
    }
    proof {
        assert(json_object_members(map.seq(), n as int) =~= Seq::<char>::empty());
        assert(out@ + Seq::<char>::empty() =~= out@);
    }
    out.append("}");
    proof {
        assert((old(out)@ + "{"@ + json_object_members(map.seq(), 0)) + "}"@ =~= old(out)@
            + json_string_object(map.seq()));
    }
}

} // verus!
