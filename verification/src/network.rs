use vstd::prelude::*;

use crate::text::{append_u64, dec_digits};

verus! {

pub open spec fn is_digit(c: char) -> bool {
    '0' <= c && c <= '9'
}

pub open spec fn all_digits(s: Seq<char>) -> bool {
    forall|i: int| 0 <= i < s.len() ==> is_digit(s[i])
}

/// The numeric value of a digit string.
pub open spec fn digits_val(s: Seq<char>) -> nat
    decreases s.len(),
{
    if s.len() == 0 {
        0
    } else {
        digits_val(s.drop_last()) * 10 + (if is_digit(s.last()) {
            ((s.last() as int) - ('0' as int)) as nat
        } else {
            0
        })
    }
}

/// A decimal octet: one or more digits with a value below 256.
pub open spec fn parse_octet_of(s: Seq<char>) -> Option<u8> {
    if s.len() > 0 && all_digits(s) && digits_val(s) <= 255 {
        Some(digits_val(s) as u8)
    } else {
        None
    }
}

proof fn lemma_digits_val_mono(s: Seq<char>, i: int)
    requires
        0 <= i <= s.len(),
        all_digits(s),
    ensures
        digits_val(s.take(i)) <= digits_val(s),
    decreases s.len() - i,
{
    if i < s.len() {
        lemma_digits_val_mono(s, i + 1);
        assert(s.take(i + 1).drop_last() =~= s.take(i));
        assert(s.take(i + 1).last() == s[i]);
        assert(digits_val(s.take(i)) <= digits_val(s.take(i + 1)));
    } else {
        assert(s.take(i) =~= s);
    }
}

/// Parses the characters `chars[start..end]` as a decimal octet.
fn parse_octet(chars: &Vec<char>, start: usize, end: usize) -> (r: Option<u8>)
    requires
        start <= end <= chars@.len(),
    ensures
        r == parse_octet_of(chars@.subrange(start as int, end as int)),
{
    let ghost seg = chars@.subrange(start as int, end as int);
    if start == end {
        return None;
    }
    let mut val: u32 = 0;
    let mut i: usize = start;
    proof {
        assert(seg.take(0) =~= Seq::<char>::empty());
    }
    while i < end
        invariant
            start <= i <= end,
            end <= chars@.len(),
            seg == chars@.subrange(start as int, end as int),
            all_digits(seg.take(i - start)),
            val == digits_val(seg.take(i - start)),
            val <= 255,
        decreases end - i,
    {
        let c = chars[i];
        proof {
            assert(seg[i - start] == chars@[i as int]);
            assert(seg.take(i - start + 1).drop_last() =~= seg.take(i - start));
            assert(seg.take(i - start + 1).last() == seg[i - start]);
        }
        if !('0' <= c && c <= '9') {
            proof {
                assert(!all_digits(seg));
            }
            return None;
        }
        let d = (c as u32) - ('0' as u32);
        val = val * 10 + d;
        if val > 255 {
            proof {
                if all_digits(seg) {
                    lemma_digits_val_mono(seg, i - start + 1);
                }
            }
            return None;
        }
        i = i + 1;
    }
    proof {
        assert(seg.take(end - start) =~= seg);
    }
    Some(val as u8)
}

/// The first index at or after `from` holding `sep`, or the length.
pub open spec fn first_sep(s: Seq<char>, sep: char, from: int) -> int
    decreases s.len() - from,
{
    if from < 0 || from >= s.len() {
        s.len() as int
    } else if s[from] == sep {
        from
    } else {
        first_sep(s, sep, from + 1)
    }
}

/// A dotted quad, as a number: four octets separated by dots, combined
/// big-endian.
pub open spec fn ipv4_of(s: Seq<char>) -> Option<u32> {
    let d1 = first_sep(s, '.', 0);
    let d2 = first_sep(s, '.', d1 + 1);
    let d3 = first_sep(s, '.', d2 + 1);
    let d4 = first_sep(s, '.', d3 + 1);
    if d1 >= s.len() || d2 >= s.len() || d3 >= s.len() || d4 < s.len() {
        None
    } else {
        match (parse_octet_of(s.subrange(0, d1)), parse_octet_of(s.subrange(d1 + 1, d2)),
            parse_octet_of(s.subrange(d2 + 1, d3)), parse_octet_of(s.subrange(d3 + 1, s.len() as int))) {
            (Some(a), Some(b), Some(c), Some(d)) => Some(
                ((a as u32) << 24) | ((b as u32) << 16) | ((c as u32) << 8) | (d as u32),
            ),
            _ => None,
        }
    }
}

fn find_dot(chars: &Vec<char>, from: usize) -> (r: usize)
    requires
        from <= chars@.len(),
    ensures
        r == first_sep(chars@, '.', from as int),
        from <= r <= chars@.len(),
{
    let n = chars.len();
    let mut i: usize = from;
    while i < n && chars[i] != '.'
        invariant
            from <= i <= n,
            n == chars@.len(),
            first_sep(chars@, '.', from as int) == first_sep(chars@, '.', i as int),
        decreases n - i,
    {
        i = i + 1;
    }
    i
}

/// Parses a dotted-quad IPv4 address into its numeric value.
pub fn ipv4_to_int(ip: &str) -> (r: Option<u32>)
    ensures
        r == ipv4_of(ip@),
{
    let chars = crate::text::chars_vec(ip);
    let n = chars.len();
    let d1 = find_dot(&chars, 0);
    if d1 >= n {
        return None;
    }
    let d2 = find_dot(&chars, d1 + 1);
    if d2 >= n {
        return None;
    }
    let d3 = find_dot(&chars, d2 + 1);
    if d3 >= n {
        return None;
    }
    let d4 = find_dot(&chars, d3 + 1);
    if d4 < n {
        return None;
    }
    let a = parse_octet(&chars, 0, d1);
    let b = parse_octet(&chars, d1 + 1, d2);
    let c = parse_octet(&chars, d2 + 1, d3);
    let d = parse_octet(&chars, d3 + 1, n);
    match (a, b, c, d) {
        (Some(a), Some(b), Some(c), Some(d)) => Some(
            ((a as u32) << 24) | ((b as u32) << 16) | ((c as u32) << 8) | (d as u32),
        ),
        _ => None,
    }
}

/// The dotted-quad text of a numeric IPv4 address.
pub open spec fn ipv4_text(value: u32) -> Seq<char> {
    dec_digits(((value >> 24) & 0xff) as nat) + "."@ + dec_digits(((value >> 16) & 0xff) as nat)
        + "."@ + dec_digits(((value >> 8) & 0xff) as nat) + "."@ + dec_digits((value & 0xff) as nat)
}

/// Renders a numeric IPv4 address as its dotted quad.
pub fn int_to_ipv4(value: u32) -> (r: String)
    ensures
        r@ == ipv4_text(value),
{
    proof {
        reveal_strlit(".");
        assert(((value >> 24) & 0xff) <= 0xff) by (bit_vector);
        assert(((value >> 16) & 0xff) <= 0xff) by (bit_vector);
        assert(((value >> 8) & 0xff) <= 0xff) by (bit_vector);
        assert((value & 0xff) <= 0xff) by (bit_vector);
    }
    let mut out = String::new();
    append_u64(&mut out, ((value >> 24) & 0xff) as u64);
    out.append(".");
    append_u64(&mut out, ((value >> 16) & 0xff) as u64);
    out.append(".");
    append_u64(&mut out, ((value >> 8) & 0xff) as u64);
    out.append(".");
    append_u64(&mut out, (value & 0xff) as u64);
    proof {
        assert(out@ =~= ipv4_text(value));
    }
    out
}

/// Whether `value` is IPv4 CIDR notation: a dotted quad, a slash, and a
/// prefix length of at most 32.
pub open spec fn is_cidr(value: Seq<char>) -> bool {
    let slash = first_sep(value, '/', 0);
    &&& slash < value.len()
    &&& (parse_octet_of(value.skip(slash + 1)) matches Some(p) && p <= 32)
    &&& (ipv4_of(value.take(slash)) is Some)
}

/// Decides `is_cidr`.
pub fn is_ipv4_cidr(value: &str) -> (r: bool)
    ensures
        r == is_cidr(value@),
{
    let chars = crate::text::chars_vec(value);
    let n = chars.len();
    let mut slash: usize = 0;
    while slash < n && chars[slash] != '/'
        invariant
            slash <= n,
            n == value@.len(),
            chars@ == value@,
            first_sep(value@, '/', 0) == first_sep(value@, '/', slash as int),
        decreases n - slash,
    {
        slash = slash + 1;
    }
    if slash >= n {
        return false;
    }
    let prefix_ok = match parse_octet(&chars, slash + 1, n) {
        Some(p) => p <= 32,
        None => false,
    };
    if !prefix_ok {
        proof {
            assert(chars@.subrange(slash + 1, n as int) =~= value@.skip(slash + 1));
        }
        return false;
    }
    let mut ip_chars: Vec<char> = Vec::new();
    let mut i: usize = 0;
    while i < slash
        invariant
            i <= slash,
            slash < n,
            n == value@.len(),
            chars@ == value@,
            ip_chars@ =~= value@.take(slash as int).take(i as int),
        decreases slash - i,
    {
        ip_chars.push(chars[i]);
        proof {
            assert(ip_chars@ =~= value@.take(slash as int).take(i as int + 1));
        }
        i = i + 1;
    }
    proof {
        assert(ip_chars@ =~= value@.take(slash as int));
        assert(chars@.subrange(slash + 1, n as int) =~= value@.skip(slash + 1));
    }
    let ip = crate::text::string_from_chars(&ip_chars);
    ipv4_to_int(ip.as_str()).is_some()
}

} // verus!
use crate::cli_error::Error;
use crate::client::trim_of;
use crate::text::string_from_chars;

verus! {

/// The addresses and names derived from a project name and its subnet.
#[derive(Debug)]
pub struct NetworkSettings {
    pub network: String,
    pub network_subnet: String,
    pub proxy_ip: String,
    pub sandbox_ip: String,
    pub cli_ip: String,
    pub proxy_pod_name: String,
    pub sandbox_pod_name: String,
    pub cli_pod_name: String,
}

/// The netmask of a prefix length.
pub open spec fn mask_of(prefix: u8) -> u32 {
    if prefix == 0 {
        0
    } else {
        0xffffffffu32 << ((32 - prefix) as u32)
    }
}

/// Positions within a trimmed CIDR string, once it splits on the slash.
pub open spec fn cidr_slash(s: Seq<char>) -> int {
    first_sep(s, '/', 0)
}

/// Why a subnet cannot be used, or nothing when it can: it must split into
/// a nonempty address and prefix, the prefix must be a number up to 32, the
/// address must be a dotted quad, and the network must leave room for a
/// gateway and three pod addresses below the broadcast address.
pub open spec fn subnet_err(s: Seq<char>) -> Option<Seq<char>> {
    let slash = cidr_slash(s);
    if slash >= s.len() || slash == 0 || slash + 1 >= s.len() {
        Some("invalid subnet format"@)
    } else {
        match parse_octet_of(s.skip(slash + 1)) {
            None => Some("invalid subnet prefix"@),
            Some(prefix) => if prefix > 32 {
                Some("invalid subnet prefix"@)
            } else {
                match ipv4_of(s.take(slash)) {
                    None => Some("invalid subnet ip"@),
                    Some(ip) => {
                        let network = ip & mask_of(prefix);
                        let broadcast = network | !mask_of(prefix);
                        if network + 4 >= broadcast {
                            Some("subnet too small"@)
                        } else {
                            None
                        }
                    },
                }
            },
        }
    }
}

/// The network base address of a usable subnet.
pub open spec fn subnet_network(s: Seq<char>) -> u32
    recommends
        subnet_err(s) is None,
{
    (ipv4_of(s.take(cidr_slash(s))).unwrap()) & mask_of(
        parse_octet_of(s.skip(cidr_slash(s) + 1)).unwrap(),
    )
}

/// Derives the network, the pod addresses, and the pod names from the
/// project name and its subnet in CIDR form. The gateway address is skipped;
/// the proxy, sandbox and cli pods take the next three addresses.
pub fn resolve_network_settings(name: &str, subnet: &str) -> (r: Result<NetworkSettings, Error>)
    ensures
        subnet_err(trim_of(subnet@)) matches Some(m) ==> (r matches Err(e) && e matches
            Error::Message(msg) && msg@ == m),
        subnet_err(trim_of(subnet@)) is None ==> (r matches Ok(ns) && {
            let s = trim_of(subnet@);
            let network = subnet_network(s);
            let prefix = parse_octet_of(s.skip(cidr_slash(s) + 1)).unwrap();
            &&& ns.network@ == name@ + "_cladding_net"@
            &&& ns.network_subnet@ == ipv4_text(network) + "/"@ + crate::text::dec_digits(
                prefix as nat,
            )
            &&& ns.proxy_ip@ == ipv4_text((network + 2) as u32)
            &&& ns.sandbox_ip@ == ipv4_text((network + 3) as u32)
            &&& ns.cli_ip@ == ipv4_text((network + 4) as u32)
            &&& ns.proxy_pod_name@ == name@ + "-proxy-pod"@
            &&& ns.sandbox_pod_name@ == name@ + "-sandbox-pod"@
            &&& ns.cli_pod_name@ == name@ + "-cli-pod"@
        }),
{
    proof {
        reveal_strlit("invalid subnet format");
        reveal_strlit("invalid subnet prefix");
        reveal_strlit("invalid subnet ip");
        reveal_strlit("subnet too small");
        reveal_strlit("_cladding_net");
        reveal_strlit("-proxy-pod");
        reveal_strlit("-sandbox-pod");
        reveal_strlit("-cli-pod");
        reveal_strlit("/");
    }
    let trimmed = crate::client::trim_string(subnet);
    let chars = crate::text::chars_vec(trimmed.as_str());
    let n = chars.len();
    let ghost s = trim_of(subnet@);
    let mut slash: usize = 0;
    while slash < n && chars[slash] != '/'
        invariant
            slash <= n,
            n == s.len(),
            chars@ == s,
            first_sep(s, '/', 0) == first_sep(s, '/', slash as int),
        decreases n - slash,
    {
        slash = slash + 1;
    }
    if slash >= n || slash == 0 || slash + 1 >= n {
        return Err(Error::message("invalid subnet format"));
    }
    let prefix = match parse_octet(&chars, slash + 1, n) {
        Some(p) => p,
        None => {
            proof {
                assert(chars@.subrange(slash + 1, n as int) =~= s.skip(slash + 1));
            }
            return Err(Error::message("invalid subnet prefix"));
        }
    };
    proof {
        assert(chars@.subrange(slash + 1, n as int) =~= s.skip(slash + 1));
    }
    if prefix > 32 {
        return Err(Error::message("invalid subnet prefix"));
    }
    let mut ip_chars: Vec<char> = Vec::new();
    let mut i: usize = 0;
    while i < slash
        invariant
            i <= slash,
            slash < n,
            n == s.len(),
            chars@ == s,
            ip_chars@ =~= s.take(slash as int).take(i as int),
        decreases slash - i,
    {
        ip_chars.push(chars[i]);
        proof {
            assert(ip_chars@ =~= s.take(slash as int).take(i as int + 1));
        }
        i = i + 1;
    }
    proof {
        assert(ip_chars@ =~= s.take(slash as int));
    }
    let ip_text = string_from_chars(&ip_chars);
    let ip = match ipv4_to_int(ip_text.as_str()) {
        Some(v) => v,
        None => {
            return Err(Error::message("invalid subnet ip"));
        }
    };
    let mask: u32 = if prefix == 0 {
        0
    } else {
        proof {
            assert(32 - prefix < 32);
        }
        0xffffffffu32 << ((32 - prefix) as u32)
    };
    let network = ip & mask;
    let broadcast = network | !mask;
    if (network as u64) + 4 >= (broadcast as u64) {
        return Err(Error::message("subnet too small"));
    }
    proof {
        assert(network <= broadcast) by (bit_vector)
            requires
                network == ip & mask && broadcast == (ip & mask) | !mask,
        ;
    }
    let mut network_name = name.to_owned();
    network_name.append("_cladding_net");
    let mut network_subnet = int_to_ipv4(network);
    network_subnet.append("/");
    append_u64(&mut network_subnet, prefix as u64);
    let proxy_ip = int_to_ipv4(network + 2);
    let sandbox_ip = int_to_ipv4(network + 3);
    let cli_ip = int_to_ipv4(network + 4);
    let mut proxy_pod_name = name.to_owned();
    proxy_pod_name.append("-proxy-pod");
    let mut sandbox_pod_name = name.to_owned();
    sandbox_pod_name.append("-sandbox-pod");
    let mut cli_pod_name = name.to_owned();
    cli_pod_name.append("-cli-pod");
    Ok(NetworkSettings {
        network: network_name,
        network_subnet,
        proxy_ip,
        sandbox_ip,
        cli_ip,
        proxy_pod_name,
        sandbox_pod_name,
        cli_pod_name,
    })
}

/// Whether a name is nonempty lowercase alphanumeric ASCII.
pub open spec fn lowercase_alnum(s: Seq<char>) -> bool {
    s.len() > 0 && forall|i: int|
        0 <= i < s.len() ==> (('a' <= s[i] && s[i] <= 'z') || ('0' <= s[i] && s[i] <= '9'))
}

/// Decides `lowercase_alnum`.
pub fn is_lowercase_alnum(name: &str) -> (r: bool)
    ensures
        r == lowercase_alnum(name@),
{
    let n = name.unicode_len();
    if n == 0 {
        return false;
    }
    let mut i: usize = 0;
    while i < n
        invariant
            i <= n,
            n == name@.len(),
            forall|j: int|
                0 <= j < i ==> (('a' <= name@[j] && name@[j] <= 'z') || ('0' <= name@[j]
                    && name@[j] <= '9')),
        decreases n - i,
    {
        let c = name.get_char(i);
        if !(('a' <= c && c <= 'z') || ('0' <= c && c <= '9')) {
            return false;
        }
        i = i + 1;
    }
    true
}

/// The candidate subnet tried at slot `i` when picking a free one.
pub open spec fn candidate_subnet(i: int) -> Seq<char> {
    "10.90."@ + crate::text::dec_digits(i as nat) + ".0/24"@
}

/// Picks the first `10.90.x.0/24` slice not already used. Fails with one
/// code when the used list could not be read (handled by the caller) and
/// with another when all slices are taken.
pub fn pick_available_subnet(used_subnets: &Vec<String>) -> (r: Result<String, i32>)
    ensures
        r matches Ok(s) ==> exists|i: int|
            0 <= i <= 255 && s@ == candidate_subnet(i) && !crate::policy_rules::allowed_contains(
                used_subnets@,
                candidate_subnet(i),
            ),
        r matches Err(code) ==> code == 2 && (forall|i: int|
            0 <= i <= 255 ==> crate::policy_rules::allowed_contains(
                used_subnets@,
                candidate_subnet(i),
            )),
{
    proof {
        reveal_strlit("10.90.");
        reveal_strlit(".0/24");
    }
    let mut i: u64 = 0;
    while i <= 255
        invariant
            i <= 256,
            forall|j: int|
                0 <= j < i ==> crate::policy_rules::allowed_contains(
                    used_subnets@,
                    candidate_subnet(j),
                ),
        decreases 256 - i,
    {
        let mut candidate = String::new();
        proof {
            reveal_strlit("10.90.");
            reveal_strlit(".0/24");
        }
        candidate.append("10.90.");
        append_u64(&mut candidate, i);
        candidate.append(".0/24");
        let mut used = false;
        let m = used_subnets.len();
        let mut j: usize = 0;
        while j < m
            invariant
                j <= m,
                m == used_subnets@.len(),
                used == exists|t: int| 0 <= t < j && used_subnets@[t]@ == candidate@,
            decreases m - j,
        {
            if used_subnets[j].eq(&candidate) {
                used = true;
            }
            j = j + 1;
        }
        if !used {
            proof {
                assert(candidate@ == candidate_subnet(i as int));
            }
            return Ok(candidate);
        }
        proof {
            assert(crate::policy_rules::allowed_contains(used_subnets@, candidate_subnet(i as int)));
        }
        i = i + 1;
    }
    Err(2)
}

} // verus!
