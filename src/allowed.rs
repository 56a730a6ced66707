//! The allow-list: which outbound addresses a guest may reach.
//!
//! An address is read as a URL `scheme://[userinfo@]host[:port][/path][?query][#fragment]`.
//! The scheme is compared without regard to case; the host and port are
//! compared with the policy's endpoints, with the scheme's default port
//! standing in when the address gives none. The port is what follows the
//! host's last `:`, so a bracketed IPv6 host must carry its port.

use vstd::prelude::*;
use vstd::string::StrSliceExecFns;

verus! {

/// One permitted endpoint: a scheme, a host and a port.
#[derive(Debug, Clone)]
pub struct AllowedHost {
    pub scheme: String,
    pub host: String,
    pub port: u16,
}

/// The policy: everything, or a list of permitted endpoints.
#[derive(Debug, Clone)]
pub enum AllowedHostsConfig {
    All,
    SpecificHosts(Vec<AllowedHost>),
}

impl Default for AllowedHostsConfig {
    /// No endpoint is permitted.
    fn default() -> (r: Self)
        ensures
            r is SpecificHosts && r->SpecificHosts_0@.len() == 0,
    {
        AllowedHostsConfig::SpecificHosts(Vec::new())
    }
}

/// `x` and `y` are the same character, or the same ASCII letter in another case.
pub open spec fn same_ignoring_case(x: char, y: char) -> bool {
    ||| x == y
    ||| (97 <= y as u32 <= 122 && x as u32 + 32 == y as u32)
    ||| (97 <= x as u32 <= 122 && y as u32 + 32 == x as u32)
}

/// `a` starts with `scheme` (in any case) followed by `://`.
pub open spec fn scheme_matches(a: Seq<char>, scheme: Seq<char>) -> bool {
    let n = scheme.len() as int;
    &&& n + 3 <= a.len()
    &&& forall|i: int| 0 <= i < n ==> same_ignoring_case(#[trigger] a[i], scheme[i])
    &&& a[n] == ':'
    &&& a[n + 1] == '/'
    &&& a[n + 2] == '/'
}

/// `c` ends the authority of a URL: a path, a query or a fragment follows.
pub open spec fn ends_authority(c: char) -> bool {
    c == '/' || c == '?' || c == '#'
}

/// `e` is where the authority that starts at `start` ends.
pub open spec fn is_authority_end(a: Seq<char>, start: int, e: int) -> bool {
    &&& start <= e <= a.len()
    &&& forall|i: int| start <= i < e ==> !ends_authority(#[trigger] a[i])
    &&& e < a.len() ==> ends_authority(a[e])
}

/// `hs` is where the host of the authority `start..e` starts: after its
/// last `@`, or at `start` when it has none.
pub open spec fn is_host_start(a: Seq<char>, start: int, e: int, hs: int) -> bool {
    &&& start <= hs <= e
    &&& hs > start ==> a[hs - 1] == '@'
    &&& forall|i: int| hs <= i < e ==> #[trigger] a[i] != '@'
}

/// `c` is the last `:` of `hs..e`.
pub open spec fn is_last_colon(a: Seq<char>, hs: int, e: int, c: int) -> bool {
    &&& hs <= c < e
    &&& a[c] == ':'
    &&& forall|i: int| c < i < e ==> #[trigger] a[i] != ':'
}

pub open spec fn is_digit(c: char) -> bool {
    48 <= c as u32 <= 57
}

/// The number that the decimal digits `s` write.
pub open spec fn digits_value(s: Seq<char>) -> int
    decreases s.len(),
{
    if s.len() == 0 {
        0
    } else {
        digits_value(s.drop_last()) * 10 + (s.last() as u32 - 48)
    }
}

/// `from..to` is a port: one or more decimal digits that write `v`.
pub open spec fn is_port(a: Seq<char>, from: int, to: int, v: u16) -> bool {
    &&& from < to
    &&& forall|i: int| from <= i < to ==> is_digit(#[trigger] a[i])
    &&& digits_value(a.subrange(from, to)) == v as int
}

/// The host and port of `hs..e` are those of `h`; without a port the
/// default port stands in.
pub open spec fn host_port_matches(a: Seq<char>, hs: int, e: int, default_port: u16, h: AllowedHost) -> bool {
    ||| ((forall|i: int| hs <= i < e ==> #[trigger] a[i] != ':') && a.subrange(hs, e) == h.host@ && h.port == default_port)
    ||| exists|c: int| #[trigger] is_last_colon(a, hs, e, c) && a.subrange(hs, c) == h.host@ && is_port(a, c + 1, e, h.port)
}

/// `addr` names the endpoint `h` under `scheme`.
pub open spec fn addresses_host(a: Seq<char>, scheme: Seq<char>, default_port: u16, h: AllowedHost) -> bool {
    let start = scheme.len() as int + 3;
    &&& h.scheme@ == scheme
    &&& scheme_matches(a, scheme)
    &&& exists|e: int, hs: int|
        is_authority_end(a, start, e) && #[trigger] is_host_start(a, start, e, hs) && host_port_matches(a, hs, e, default_port, h)
}

/// The policy admits `addr` under `scheme`, whose default port is
/// `default_port`: the address carries that scheme, and under a list of
/// endpoints its host and port are those of one of them.
pub open spec fn is_allowed_spec(cfg: AllowedHostsConfig, addr: Seq<char>, scheme: Seq<char>, default_port: u16) -> bool {
    match cfg {
        AllowedHostsConfig::All => scheme_matches(addr, scheme),
        AllowedHostsConfig::SpecificHosts(hosts) => exists|k: int|
            0 <= k < hosts@.len() && addresses_host(addr, scheme, default_port, #[trigger] hosts@[k]),
    }
}

proof fn lemma_authority_end_unique(a: Seq<char>, start: int, e1: int, e2: int)
    requires
        is_authority_end(a, start, e1),
        is_authority_end(a, start, e2),
    ensures
        e1 == e2,
{
    if e1 < e2 {
        assert(!ends_authority(a[e1]));
    } else if e2 < e1 {
        assert(!ends_authority(a[e2]));
    }
}

proof fn lemma_host_start_unique(a: Seq<char>, start: int, e: int, h1: int, h2: int)
    requires
        is_host_start(a, start, e, h1),
        is_host_start(a, start, e, h2),
    ensures
        h1 == h2,
{
    if h1 < h2 {
        assert(a[h2 - 1] != '@');
    } else if h2 < h1 {
        assert(a[h1 - 1] != '@');
    }
}

proof fn lemma_last_colon_unique(a: Seq<char>, hs: int, e: int, c1: int, c2: int)
    requires
        is_last_colon(a, hs, e, c1),
        is_last_colon(a, hs, e, c2),
    ensures
        c1 == c2,
{
    if c1 < c2 {
        assert(a[c2] != ':');
    } else if c2 < c1 {
        assert(a[c1] != ':');
    }
}

/// A longer run of digits writes no smaller a number.
proof fn lemma_digits_value_grows(s: Seq<char>, k: int)
    requires
        0 <= k <= s.len(),
        forall|i: int| 0 <= i < s.len() ==> is_digit(#[trigger] s[i]),
    ensures
        digits_value(s.subrange(0, k)) <= digits_value(s),
        0 <= digits_value(s),
    decreases s.len(),
{
    if s.len() > 0 {
        let t = s.drop_last();
        assert forall|i: int| 0 <= i < t.len() implies is_digit(#[trigger] t[i]) by {
            assert(t[i] == s[i]);
        }
        assert(is_digit(s[s.len() - 1]));
        if k == s.len() {
            assert(s.subrange(0, k) =~= s);
            lemma_digits_value_grows(t, 0);
        } else {
            lemma_digits_value_grows(t, k);
            assert(t.subrange(0, k) =~= s.subrange(0, k));
        }
    } else {
        assert(s.subrange(0, k) =~= s);
    }
}

/// Whether `t` occurs in `s` at offset `off`.
fn occurs_at(s: &str, off: usize, t: &str) -> (r: bool)
    ensures
        r == (off + t@.len() <= s@.len() && s@.subrange(off as int, off + t@.len()) == t@),
{
    let n = s.unicode_len();
    let m = t.unicode_len();
    if off > n || m > n - off {
        return false;
    }
    let mut i: usize = 0;
    while i < m
        invariant
            n == s@.len(),
            m == t@.len(),
            off + m <= n,
            0 <= i <= m,
            forall|j: int| 0 <= j < i ==> #[trigger] t@[j] == s@[off + j],
        decreases m - i,
    {
        if s.get_char(off + i) != t.get_char(i) {
            assert(s@.subrange(off as int, off + m)[i as int] != t@[i as int]);
            return false;
        }
        i = i + 1;
    }
    assert(s@.subrange(off as int, off + m) =~= t@);
    true
}

/// Whether `x` and `y` are the same character up to ASCII case.
fn eq_ignoring_case(x: char, y: char) -> (r: bool)
    ensures
        r == same_ignoring_case(x, y),
{
    let xu = x as u32;
    let yu = y as u32;
    xu == yu || (97 <= yu && yu <= 122 && xu == yu - 32) || (97 <= xu && xu <= 122 && yu == xu - 32)
}

/// Whether `addr` starts with `scheme` (in any case) followed by `://`.
fn scheme_prefix_matches(addr: &str, scheme: &str) -> (r: bool)
    ensures
        r == scheme_matches(addr@, scheme@),
{
    let n = scheme.unicode_len();
    let len = addr.unicode_len();
    if n > len || len - n < 3 {
        return false;
    }
    let mut i: usize = 0;
    while i < n
        invariant
            n == scheme@.len(),
            len == addr@.len(),
            n + 3 <= len,
            0 <= i <= n,
            forall|j: int| 0 <= j < i ==> same_ignoring_case(#[trigger] addr@[j], scheme@[j]),
        decreases n - i,
    {
        if !eq_ignoring_case(addr.get_char(i), scheme.get_char(i)) {
            return false;
        }
        i = i + 1;
    }
    addr.get_char(n) == ':' && addr.get_char(n + 1) == '/' && addr.get_char(n + 2) == '/'
}

fn ends_authority_char(c: char) -> (r: bool)
    ensures
        r == ends_authority(c),
{
    c == '/' || c == '?' || c == '#'
}

/// Where the authority that starts at `start` ends.
fn authority_end(addr: &str, start: usize) -> (e: usize)
    requires
        start <= addr@.len(),
    ensures
        is_authority_end(addr@, start as int, e as int),
{
    let len = addr.unicode_len();
    let mut i = start;
    while i < len && !ends_authority_char(addr.get_char(i))
        invariant
            len == addr@.len(),
            start <= i <= len,
            forall|j: int| start <= j < i ==> !ends_authority(#[trigger] addr@[j]),
        decreases len - i,
    {
        i = i + 1;
    }
    i
}

/// Where the host of the authority `start..e` starts.
fn host_start(addr: &str, start: usize, e: usize) -> (hs: usize)
    requires
        start <= e <= addr@.len(),
    ensures
        is_host_start(addr@, start as int, e as int, hs as int),
{
    let mut j = e;
    while j > start && addr.get_char(j - 1) != '@'
        invariant
            start <= j <= e <= addr@.len(),
            forall|i: int| j <= i < e ==> #[trigger] addr@[i] != '@',
        decreases j,
    {
        j = j - 1;
    }
    j
}

/// The last `:` of `hs..e`, if there is one.
fn last_colon(addr: &str, hs: usize, e: usize) -> (r: Option<usize>)
    requires
        hs <= e <= addr@.len(),
    ensures
        match r {
            Some(c) => is_last_colon(addr@, hs as int, e as int, c as int),
            None => forall|i: int| hs <= i < e ==> #[trigger] addr@[i] != ':',
        },
{
    let mut j = e;
    while j > hs && addr.get_char(j - 1) != ':'
        invariant
            hs <= j <= e <= addr@.len(),
            forall|i: int| j <= i < e ==> #[trigger] addr@[i] != ':',
        decreases j,
    {
        j = j - 1;
    }
    if j == hs {
        None
    } else {
        Some(j - 1)
    }
}

/// The port that `from..to` writes, if it is one.
fn parse_port(addr: &str, from: usize, to: usize) -> (r: Option<u16>)
    requires
        from <= to <= addr@.len(),
    ensures
        match r {
            Some(v) => is_port(addr@, from as int, to as int, v),
            None => forall|w: u16| !#[trigger] is_port(addr@, from as int, to as int, w),
        },
{
    let ghost a = addr@;
    if from == to {
        return None;
    }
    let mut v: u32 = 0;
    let mut i = from;
    assert(a.subrange(from as int, from as int) =~= Seq::<char>::empty());
    while i < to
        invariant
            a == addr@,
            from < to <= a.len(),
            from <= i <= to,
            v <= 65535,
            forall|j: int| from <= j < i ==> is_digit(#[trigger] a[j]),
            v == digits_value(a.subrange(from as int, i as int)),
        decreases to - i,
    {
        let cu = addr.get_char(i) as u32;
        if cu < 48 || cu > 57 {
            assert forall|w: u16| !#[trigger] is_port(a, from as int, to as int, w) by {
                assert(!is_digit(a[i as int]));
            }
            return None;
        }
        let nv = v * 10 + (cu - 48);
        assert(a.subrange(from as int, i + 1).drop_last() =~= a.subrange(from as int, i as int));
        if nv > 65535 {
            assert forall|w: u16| !#[trigger] is_port(a, from as int, to as int, w) by {
                if is_port(a, from as int, to as int, w) {
                    let s = a.subrange(from as int, to as int);
                    assert forall|k: int| 0 <= k < s.len() implies is_digit(#[trigger] s[k]) by {
                        assert(s[k] == a[from + k]);
                    }
                    lemma_digits_value_grows(s, i + 1 - from);
                    assert(s.subrange(0, i + 1 - from) =~= a.subrange(from as int, i + 1));
                }
            }
            return None;
        }
        v = nv;
        i = i + 1;
    }
    Some(v as u16)
}

/// Whether `h` is the endpoint that `addr` names, given where its parts lie.
fn endpoint_matches(
    h: &AllowedHost,
    addr: &str,
    scheme: &str,
    default_port: u16,
    e: usize,
    hs: usize,
    colon: Option<usize>,
    port: Option<u16>,
) -> (r: bool)
    requires
        scheme_matches(addr@, scheme@),
        is_authority_end(addr@, scheme@.len() as int + 3, e as int),
        is_host_start(addr@, scheme@.len() as int + 3, e as int, hs as int),
        match colon {
            Some(c) => is_last_colon(addr@, hs as int, e as int, c as int) && match port {
                Some(v) => is_port(addr@, c + 1, e as int, v),
                None => forall|w: u16| !#[trigger] is_port(addr@, c + 1, e as int, w),
            },
            None => (forall|i: int| hs <= i < e ==> #[trigger] addr@[i] != ':') && port == Some(default_port),
        },
    ensures
        r == addresses_host(addr@, scheme@, default_port, *h),
{
    let ghost a = addr@;
    let ghost start = scheme@.len() as int + 3;
    let ls = h.scheme.as_str().unicode_len();
    let same_scheme = scheme.unicode_len() == ls && occurs_at(scheme, 0, h.scheme.as_str());
    proof {
        assert(scheme@.subrange(0, scheme@.len() as int) =~= scheme@);
    }
    if !same_scheme {
        return false;
    }
    let host_end = match colon {
        Some(c) => c,
        None => e,
    };
    let lh = h.host.as_str().unicode_len();
    let host_ok = host_end - hs == lh && occurs_at(addr, hs, h.host.as_str());
    let port_ok = match port {
        Some(v) => v == h.port,
        None => false,
    };
    proof {
        assert forall|e2: int, hs2: int|
            is_authority_end(a, start, e2) && #[trigger] is_host_start(a, start, e2, hs2) implies e2 == e && hs2 == hs by {
            lemma_authority_end_unique(a, start, e2, e as int);
            lemma_host_start_unique(a, start, e as int, hs2, hs as int);
        }
        match colon {
            Some(c) => {
                assert forall|c2: int| #[trigger] is_last_colon(a, hs as int, e as int, c2) implies c2 == c by {
                    lemma_last_colon_unique(a, hs as int, e as int, c2, c as int);
                }
                assert(!(forall|i: int| hs <= i < e ==> #[trigger] a[i] != ':')) by {
                    assert(a[c as int] == ':');
                }
                if host_ok && port_ok {
                    assert(is_last_colon(a, hs as int, e as int, c as int));
                    assert(host_port_matches(a, hs as int, e as int, default_port, *h));
                    assert(is_host_start(a, start, e as int, hs as int));
                }
            },
            None => {
                assert forall|c2: int| !#[trigger] is_last_colon(a, hs as int, e as int, c2) by {
                    if hs <= c2 < e {
                        assert(a[c2] != ':');
                    }
                }
                if host_ok && port_ok {
                    assert(host_port_matches(a, hs as int, e as int, default_port, *h));
                    assert(is_host_start(a, start, e as int, hs as int));
                }
            },
        }
    }
    host_ok && port_ok
}

/// Whether some endpoint of `hosts` is the one that `addr` names.
#[verifier::loop_isolation(false)]
fn any_host_matches(
    hosts: &Vec<AllowedHost>,
    addr: &str,
    scheme: &str,
    default_port: u16,
    e: usize,
    hs: usize,
    colon: Option<usize>,
    port: Option<u16>,
) -> (r: bool)
    requires
        scheme_matches(addr@, scheme@),
        is_authority_end(addr@, scheme@.len() as int + 3, e as int),
        is_host_start(addr@, scheme@.len() as int + 3, e as int, hs as int),
        match colon {
            Some(c) => is_last_colon(addr@, hs as int, e as int, c as int) && match port {
                Some(v) => is_port(addr@, c + 1, e as int, v),
                None => forall|w: u16| !#[trigger] is_port(addr@, c + 1, e as int, w),
            },
            None => (forall|i: int| hs <= i < e ==> #[trigger] addr@[i] != ':') && port == Some(default_port),
        },
    ensures
        r == exists|k: int| 0 <= k < hosts@.len() && addresses_host(addr@, scheme@, default_port, #[trigger] hosts@[k]),
{
    let mut k: usize = 0;
    while k < hosts.len()
        invariant
            0 <= k <= hosts@.len(),
            forall|j: int| 0 <= j < k ==> !addresses_host(addr@, scheme@, default_port, #[trigger] hosts@[j]),
        decreases hosts@.len() - k,
    {
        if endpoint_matches(&hosts[k], addr, scheme, default_port, e, hs, colon, port) {
            assert(addresses_host(addr@, scheme@, default_port, hosts@[k as int]));
            return true;
        }
        k = k + 1;
    }
    false
}

/// Whether the policy admits `address` under `scheme`, whose default port
/// is `default_port`. Pure: no I/O, no mutation.
pub fn is_allowed(cfg: &AllowedHostsConfig, address: &str, scheme: &str, default_port: u16) -> (r: bool)
    ensures
        r == is_allowed_spec(*cfg, address@, scheme@, default_port),
{
    if !scheme_prefix_matches(address, scheme) {
        return false;
    }
    match cfg {
        AllowedHostsConfig::All => true,
        AllowedHostsConfig::SpecificHosts(hosts) => {
            let _len = address.unicode_len();
            let start = scheme.unicode_len() + 3;
            let e = authority_end(address, start);
            let hs = host_start(address, start, e);
            let colon = last_colon(address, hs, e);
            let port = match colon {
                Some(c) => parse_port(address, c + 1, e),
                None => Some(default_port),
            };
            any_host_matches(hosts, address, scheme, default_port, e, hs, colon, port)
        },
    }
}

} // verus!
