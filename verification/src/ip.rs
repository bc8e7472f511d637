//! IP addresses: their textual forms as the standard library reads them, and
//! the address ranges that the agent treats as local.
use vstd::prelude::*;
use crate::text::{
    all_digits, chars_of, decimal_value, parse_unsigned, parse_unsigned_at, ranges_are_parts, split_all,
    split_once_in, split_once_spec, split_ranges,
};

verus! {

/// An IP address; IPv4 as its 32-bit value, IPv6 as its 128-bit value.
#[derive(Clone, Copy, Debug, PartialEq, Eq, Structural)]
pub enum IpAddr {
    V4(u32),
    V6(u128),
}

/// An IP address and a port.
#[derive(Clone, Copy, Debug, PartialEq, Eq, Structural)]
pub struct SocketAddr {
    pub ip: IpAddr,
    pub port: u16,
}

pub open spec fn is_hex_digit(c: char) -> bool {
    ||| ('0' <= c && c <= '9')
    ||| ('a' <= c && c <= 'f')
    ||| ('A' <= c && c <= 'F')
}

pub open spec fn hex_digit_value(c: char) -> nat {
    if '0' <= c && c <= '9' {
        ((c as u32) - ('0' as u32)) as nat
    } else if 'a' <= c && c <= 'f' {
        ((c as u32) - ('a' as u32) + 10) as nat
    } else {
        ((c as u32) - ('A' as u32) + 10) as nat
    }
}

pub open spec fn hex_value(s: Seq<char>) -> nat
    decreases s.len(),
{
    if s.len() == 0 {
        0
    } else {
        hex_value(s.drop_last()) * 16 + hex_digit_value(s.last())
    }
}

/// One group of an IPv6 address: one to four hexadecimal digits.
pub open spec fn hex_group(t: Seq<char>) -> Option<nat> {
    if 1 <= t.len() <= 4 && forall|i: int| 0 <= i < t.len() ==> is_hex_digit(#[trigger] t[i]) {
        Some(hex_value(t))
    } else {
        None
    }
}

/// One part of a dotted IPv4 address: one to three decimal digits, no
/// leading zero, at most 255.
pub open spec fn ipv4_octet(t: Seq<char>) -> Option<nat> {
    if 1 <= t.len() <= 3 && all_digits(t) && !(t.len() > 1 && t[0] == '0') && decimal_value(t)
        <= 255 {
        Some(decimal_value(t))
    } else {
        None
    }
}

/// `Ipv4Addr::from_str`: four octets separated by dots.
pub open spec fn parse_ipv4(s: Seq<char>) -> Option<u32> {
    let p = split_all(s, '.');
    if p.len() == 4 && ipv4_octet(p[0]) is Some && ipv4_octet(p[1]) is Some && ipv4_octet(
        p[2],
    ) is Some && ipv4_octet(p[3]) is Some {
        Some(
            (((ipv4_octet(p[0])->0 * 256 + ipv4_octet(p[1])->0) * 256 + ipv4_octet(p[2])->0) * 256
                + ipv4_octet(p[3])->0) as u32,
        )
    } else {
        None
    }
}

/// The 16-bit groups of a colon-separated list: each part a hexadecimal group,
/// except that the last part may be a dotted IPv4 address, which stands for
/// two groups.
pub open spec fn v6_groups(parts: Seq<Seq<char>>, allow_ipv4: bool) -> Option<Seq<nat>>
    decreases parts.len(),
{
    if parts.len() == 0 {
        Some(Seq::<nat>::empty())
    } else {
        let init = v6_groups(parts.drop_last(), false);
        match init {
            None => None,
            Some(g) => match hex_group(parts.last()) {
                Some(x) => Some(g.push(x)),
                None => if allow_ipv4 && parse_ipv4(parts.last()) is Some {
                    let a = parse_ipv4(parts.last())->0 as nat;
                    Some(g.push(a / 65536).push(a % 65536))
                } else {
                    None
                },
            },
        }
    }
}

/// The number that a list of 16-bit groups spells, most significant first.
pub open spec fn groups_value(g: Seq<nat>) -> nat
    decreases g.len(),
{
    if g.len() == 0 {
        0
    } else {
        groups_value(g.drop_last()) * 65536 + g.last()
    }
}

/// Whether `::` starts at position `i`.
pub open spec fn double_colon_at(s: Seq<char>, i: int) -> bool {
    0 <= i < s.len() - 1 && s[i] == ':' && s[i + 1] == ':'
}

/// The first position of `::`, if the text holds one.
pub open spec fn first_double_colon(s: Seq<char>) -> Option<int> {
    if exists|i: int| #[trigger] double_colon_at(s, i) {
        Some(
            choose|i: int|
                #[trigger] double_colon_at(s, i) && forall|j: int|
                    0 <= j < i ==> !double_colon_at(s, j),
        )
    } else {
        None
    }
}

/// `Ipv6Addr::from_str`. Without `::` the address is eight groups (or six and
/// a trailing IPv4 address). With `::`, the groups before it are hexadecimal,
/// the groups after it may end in an IPv4 address, and `::` stands for at
/// least one zero group.
pub open spec fn parse_ipv6(s: Seq<char>) -> Option<u128> {
    match first_double_colon(s) {
        None => uncompressed_ipv6(s),
        Some(k) => compressed_ipv6(s.subrange(0, k), s.subrange(k + 2, s.len() as int)),
    }
}

/// An IPv6 address written without `::`.
#[verifier::opaque]
pub open spec fn uncompressed_ipv6(s: Seq<char>) -> Option<u128> {
    match v6_groups(split_all(s, ':'), true) {
        Some(g) => if g.len() == 8 {
            Some(groups_value(g) as u128)
        } else {
            None
        },
        None => None,
    }
}

/// The groups written on one side of `::`; none when that side is empty.
pub open spec fn side_groups(text: Seq<char>, allow_ipv4: bool) -> Option<Seq<nat>> {
    if text.len() == 0 {
        Some(Seq::<nat>::empty())
    } else {
        v6_groups(split_all(text, ':'), allow_ipv4)
    }
}

/// An IPv6 address written with `::` between `head_text` and `tail_text`.
#[verifier::opaque]
pub open spec fn compressed_ipv6(head_text: Seq<char>, tail_text: Seq<char>) -> Option<u128> {
    match (side_groups(head_text, false), side_groups(tail_text, true)) {
        (Some(h), Some(t)) => if h.len() + t.len() <= 7 {
            Some(
                groups_value(h + Seq::new((8 - h.len() - t.len()) as nat, |i: int| 0nat) + t) as u128,
            )
        } else {
            None
        },
        _ => None,
    }
}

/// `IpAddr::from_str`: an IPv4 address, or else an IPv6 address.
pub open spec fn parse_ip(s: Seq<char>) -> Option<IpAddr> {
    match parse_ipv4(s) {
        Some(a) => Some(IpAddr::V4(a)),
        None => match parse_ipv6(s) {
            Some(a) => Some(IpAddr::V6(a)),
            None => None,
        },
    }
}

/// The octet of an IPv4 address at position `i` (0 is the first written).
pub open spec fn octet(a: u32, i: int) -> nat {
    if i == 0 {
        (a as nat / 16777216) % 256
    } else if i == 1 {
        (a as nat / 65536) % 256
    } else if i == 2 {
        (a as nat / 256) % 256
    } else {
        a as nat % 256
    }
}

/// `Ipv4Addr::is_loopback`: 127.0.0.0/8.
pub open spec fn v4_is_loopback(a: u32) -> bool {
    octet(a, 0) == 127
}

/// `Ipv4Addr::is_private`: 10.0.0.0/8, 172.16.0.0/12 and 192.168.0.0/16.
pub open spec fn v4_is_private(a: u32) -> bool {
    ||| octet(a, 0) == 10
    ||| (octet(a, 0) == 172 && 16 <= octet(a, 1) <= 31)
    ||| (octet(a, 0) == 192 && octet(a, 1) == 168)
}

/// `Ipv4Addr::is_link_local`: 169.254.0.0/16.
pub open spec fn v4_is_link_local(a: u32) -> bool {
    octet(a, 0) == 169 && octet(a, 1) == 254
}

/// Shared address space for carrier-grade NAT: 100.64.0.0/10.
pub open spec fn v4_is_shared(a: u32) -> bool {
    octet(a, 0) == 100 && 64 <= octet(a, 1) <= 127
}

/// The first 16-bit group of an IPv6 address.
pub open spec fn v6_first_group(a: u128) -> nat {
    a as nat / 0x10000_0000_0000_0000_0000_0000_0000
}

/// `Ipv6Addr::is_loopback`: `::1`.
pub open spec fn v6_is_loopback(a: u128) -> bool {
    a == 1
}

/// `Ipv6Addr::is_unique_local`: fc00::/7, the first group masked by 0xfe00 is 0xfc00.
pub open spec fn v6_is_unique_local(a: u128) -> bool {
    v6_first_group(a) / 512 == 0xfc00nat / 512
}

/// `Ipv6Addr::is_unicast_link_local`: fe80::/10, the first group masked by 0xffc0 is 0xfe80.
pub open spec fn v6_is_unicast_link_local(a: u128) -> bool {
    v6_first_group(a) / 64 == 0xfe80nat / 64
}

pub fn ipv4_octet_of(a: u32, i: u8) -> (r: u32)
    requires
        i < 4,
    ensures
        r == octet(a, i as int),
{
    if i == 0 {
        (a / 16777216) % 256
    } else if i == 1 {
        (a / 65536) % 256
    } else if i == 2 {
        (a / 256) % 256
    } else {
        a % 256
    }
}

pub fn is_v4_loopback(a: u32) -> (r: bool)
    ensures
        r == v4_is_loopback(a),
{
    ipv4_octet_of(a, 0) == 127
}

pub fn is_v4_private(a: u32) -> (r: bool)
    ensures
        r == v4_is_private(a),
{
    let o0 = ipv4_octet_of(a, 0);
    let o1 = ipv4_octet_of(a, 1);
    o0 == 10 || (o0 == 172 && 16 <= o1 && o1 <= 31) || (o0 == 192 && o1 == 168)
}

pub fn is_v4_link_local(a: u32) -> (r: bool)
    ensures
        r == v4_is_link_local(a),
{
    ipv4_octet_of(a, 0) == 169 && ipv4_octet_of(a, 1) == 254
}

pub fn is_v4_shared(a: u32) -> (r: bool)
    ensures
        r == v4_is_shared(a),
{
    let o1 = ipv4_octet_of(a, 1);
    ipv4_octet_of(a, 0) == 100 && 64 <= o1 && o1 <= 127
}

pub fn is_v6_loopback(a: u128) -> (r: bool)
    ensures
        r == v6_is_loopback(a),
{
    a == 1
}

pub fn is_v6_unique_local(a: u128) -> (r: bool)
    ensures
        r == v6_is_unique_local(a),
{
    a / 0x10000_0000_0000_0000_0000_0000_0000 / 512 == 0xfc00 / 512
}

pub fn is_v6_unicast_link_local(a: u128) -> (r: bool)
    ensures
        r == v6_is_unicast_link_local(a),
{
    a / 0x10000_0000_0000_0000_0000_0000_0000 / 64 == 0xfe80 / 64
}

pub fn char_is_hex_digit(c: char) -> (r: bool)
    ensures
        r == is_hex_digit(c),
{
    ('0' <= c && c <= '9') || ('a' <= c && c <= 'f') || ('A' <= c && c <= 'F')
}

/// Reads one IPv6 group from `v[start..end]`.
pub fn parse_hex_group(v: &Vec<char>, start: usize, end: usize) -> (r: Option<u32>)
    requires
        start <= end <= v@.len(),
    ensures
        match hex_group(v@.subrange(start as int, end as int)) {
            Some(n) => r == Some(n as u32) && n < 65536,
            None => r is None,
        },
{
    let ghost t = v@.subrange(start as int, end as int);
    if end - start < 1 || end - start > 4 {
        return None;
    }
    let mut acc: u32 = 0;
    let mut i = start;
    while i < end
        invariant
            start <= i <= end <= v@.len(),
            end - start <= 4,
            t == v@.subrange(start as int, end as int),
            forall|j: int| start <= j < i ==> is_hex_digit(#[trigger] v@[j]),
            acc == hex_value(v@.subrange(start as int, i as int)),
            acc < pow16(i - start),
        decreases end - i,
    {
        let c = v[i];
        if !char_is_hex_digit(c) {
            assert(t[i - start] == c);
            return None;
        }
        let d: u32 = if '0' <= c && c <= '9' {
            (c as u32) - ('0' as u32)
        } else if 'a' <= c && c <= 'f' {
            (c as u32) - ('a' as u32) + 10
        } else {
            (c as u32) - ('A' as u32) + 10
        };
        let ghost prefix = v@.subrange(start as int, i + 1);
        assert(prefix.drop_last() =~= v@.subrange(start as int, i as int));
        proof {
            lemma_pow16_step(i - start);
            assert(acc * 16 + d < pow16(i + 1 - start)) by (nonlinear_arith)
                requires
                    acc < pow16(i - start),
                    d < 16,
                    pow16(i + 1 - start) == pow16(i - start) * 16,
            ;
            assert(pow16(i + 1 - start) <= 65536) by {
                lemma_pow16_le4(i + 1 - start);
            }
        }
        acc = acc * 16 + d;
        i = i + 1;
    }
    proof {
        lemma_pow16_le4(end - start);
        assert forall|j: int| 0 <= j < t.len() implies is_hex_digit(#[trigger] t[j]) by {
            assert(t[j] == v@[start + j]);
        }
    }
    Some(acc)
}

pub open spec fn pow16(n: int) -> nat
    decreases n,
{
    if n <= 0 {
        1
    } else {
        16 * pow16(n - 1)
    }
}

pub proof fn lemma_pow16_step(n: int)
    requires
        n >= 0,
    ensures
        pow16(n + 1) == pow16(n) * 16,
{
}

pub proof fn lemma_pow16_le4(n: int)
    requires
        0 <= n <= 4,
    ensures
        pow16(n) <= 65536,
{
    reveal_with_fuel(pow16, 5);
}

/// Reads one dotted-IPv4 octet from `v[start..end]`.
pub fn parse_ipv4_octet(v: &Vec<char>, start: usize, end: usize) -> (r: Option<u32>)
    requires
        start <= end <= v@.len(),
    ensures
        match ipv4_octet(v@.subrange(start as int, end as int)) {
            Some(n) => r == Some(n as u32) && n <= 255,
            None => r is None,
        },
{
    let ghost t = v@.subrange(start as int, end as int);
    if end - start < 1 || end - start > 3 {
        return None;
    }
    if end - start > 1 && v[start] == '0' {
        assert(t[0] == v@[start as int]);
        return None;
    }
    if v[start] == '+' {
        assert(t[0] == '+');
        assert(!all_digits(t));
        return None;
    }
    let r = parse_unsigned_at(v, start, end, 255);
    proof {
        assert(t.len() > 0 && t[0] != '+');
        assert((if t.len() > 0 && t[0] == '+' {
            t.drop_first()
        } else {
            t
        }) == t);
    }
    match r {
        Some(n) => Some(n as u32),
        None => None,
    }
}

/// Reads a dotted IPv4 address from `v[start..end]`.
pub fn parse_ipv4_at(v: &Vec<char>, start: usize, end: usize) -> (r: Option<u32>)
    requires
        start <= end <= v@.len(),
    ensures
        r == parse_ipv4(v@.subrange(start as int, end as int)),
{
    let parts = split_ranges(v, start, end, '.');
    let ghost p = split_all(v@.subrange(start as int, end as int), '.');
    if parts.len() != 4 {
        return None;
    }
    let a = parse_ipv4_octet(v, parts[0].0, parts[0].1);
    let b = parse_ipv4_octet(v, parts[1].0, parts[1].1);
    let c = parse_ipv4_octet(v, parts[2].0, parts[2].1);
    let d = parse_ipv4_octet(v, parts[3].0, parts[3].1);
    assert(v@.subrange(parts@[0].0 as int, parts@[0].1 as int) == p[0]);
    assert(v@.subrange(parts@[1].0 as int, parts@[1].1 as int) == p[1]);
    assert(v@.subrange(parts@[2].0 as int, parts@[2].1 as int) == p[2]);
    assert(v@.subrange(parts@[3].0 as int, parts@[3].1 as int) == p[3]);
    match (a, b, c, d) {
        (Some(a), Some(b), Some(c), Some(d)) => {
            let value = ((a * 256 + b) * 256 + c) * 256 + d;
            Some(value)
        },
        _ => None,
    }
}

/// The groups held in a vector, as numbers.
pub open spec fn nat_groups(g: Seq<u32>) -> Seq<nat> {
    g.map_values(|x: u32| x as nat)
}

/// Reads the 16-bit groups of the colon-separated parts of `v` given by
/// `parts`; the last part may be an IPv4 address when `allow_ipv4` holds.
pub fn parse_v6_groups(v: &Vec<char>, parts: &Vec<(usize, usize)>, allow_ipv4: bool) -> (r: Option<
    Vec<u32>,
>)
    requires
        forall|i: int|
            0 <= i < parts@.len() ==> (#[trigger] parts@[i]).0 <= parts@[i].1 <= v@.len(),
    ensures
        match v6_groups(
            parts@.map_values(|p: (usize, usize)| v@.subrange(p.0 as int, p.1 as int)),
            allow_ipv4,
        ) {
            Some(g) => r is Some && nat_groups(r->0@) == g && forall|i: int|
                0 <= i < r->0@.len() ==> #[trigger] r->0@[i] < 65536,
            None => r is None,
        },
{
    let ghost texts = parts@.map_values(|p: (usize, usize)| v@.subrange(p.0 as int, p.1 as int));
    let n = parts.len();
    let mut g: Vec<u32> = Vec::new();
    let mut i: usize = 0;
    if n == 0 {
        assert(texts.len() == 0);
        assert(nat_groups(g@) =~= Seq::<nat>::empty());
        return Some(g);
    }
    assert(texts.subrange(0, 0).len() == 0);
    assert(nat_groups(g@) =~= Seq::<nat>::empty());
    while i + 1 < n
        invariant
            n == parts@.len(),
            n >= 1,
            i + 1 <= n,
            texts == parts@.map_values(|p: (usize, usize)| v@.subrange(p.0 as int, p.1 as int)),
            forall|k: int|
                0 <= k < parts@.len() ==> (#[trigger] parts@[k]).0 <= parts@[k].1 <= v@.len(),
            v6_groups(texts.subrange(0, i as int), false) == Some(nat_groups(g@)),
            forall|k: int| 0 <= k < g@.len() ==> #[trigger] g@[k] < 65536,
        decreases n - i,
    {
        let x = parse_hex_group(v, parts[i].0, parts[i].1);
        let ghost sub = texts.subrange(0, i + 1);
        assert(sub.drop_last() =~= texts.subrange(0, i as int));
        assert(sub.last() == texts[i as int]);
        match x {
            Some(x) => {
                let ghost g0 = g@;
                g.push(x);
                assert(nat_groups(g@) =~= nat_groups(g0).push(x as nat));
            },
            None => {
                assert(v6_groups(sub, false) is None);
                proof {
                    lemma_v6_groups_prefix_none(texts, i + 1, allow_ipv4);
                }
                return None;
            },
        }
        i = i + 1;
    }
    // the last part
    assert(texts.subrange(0, n as int) =~= texts);
    assert(texts.drop_last() =~= texts.subrange(0, i as int));
    let last = parse_hex_group(v, parts[i].0, parts[i].1);
    match last {
        Some(x) => {
            let ghost g0 = g@;
            g.push(x);
            assert(nat_groups(g@) =~= nat_groups(g0).push(x as nat));
            Some(g)
        },
        None => {
            if !allow_ipv4 {
                return None;
            }
            let a = parse_ipv4_at(v, parts[i].0, parts[i].1);
            match a {
                Some(a) => {
                    let ghost g0 = g@;
                    g.push(a / 65536);
                    g.push(a % 65536);
                    assert(nat_groups(g@) =~= nat_groups(g0).push((a / 65536) as nat).push(
                        (a % 65536) as nat,
                    ));
                    assert(a / 65536 < 65536) by (nonlinear_arith)
                        requires a <= 0xffff_ffff,
                    ;
                    Some(g)
                },
                None => None,
            }
        },
    }
}

pub proof fn lemma_v6_groups_prefix_none(texts: Seq<Seq<char>>, k: int, allow: bool)
    requires
        1 <= k <= texts.len(),
        v6_groups(texts.subrange(0, k), false) is None,
        k < texts.len() || !allow,
    ensures
        v6_groups(texts, allow) is None,
    decreases texts.len() - k,
{
    if k < texts.len() {
        let sub = texts.subrange(0, k + 1);
        assert(sub.drop_last() =~= texts.subrange(0, k));
        if k + 1 < texts.len() {
            lemma_v6_groups_prefix_none(texts, k + 1, allow);
        } else {
            assert(sub =~= texts);
        }
    } else {
        assert(texts.subrange(0, k) =~= texts);
    }
}

pub open spec fn pow65536(n: nat) -> nat
    decreases n,
{
    if n == 0 {
        1
    } else {
        65536 * pow65536((n - 1) as nat)
    }
}

pub proof fn lemma_groups_value_bound(g: Seq<nat>)
    requires
        forall|i: int| 0 <= i < g.len() ==> #[trigger] g[i] < 65536,
    ensures
        groups_value(g) < pow65536(g.len()),
    decreases g.len(),
{
    if g.len() > 0 {
        lemma_groups_value_bound(g.drop_last());
        let p = pow65536(g.drop_last().len());
        assert(groups_value(g.drop_last()) * 65536 + g.last() < p * 65536) by (nonlinear_arith)
            requires
                groups_value(g.drop_last()) < p,
                g.last() < 65536,
        ;
    }
}

pub proof fn lemma_pow65536_8()
    ensures
        pow65536(8) == 0x1_0000_0000_0000_0000_0000_0000_0000_0000,
{
    reveal_with_fuel(pow65536, 9);
}

pub proof fn lemma_pow65536_mono(a: nat, b: nat)
    requires
        a <= b,
    ensures
        pow65536(a) <= pow65536(b),
    decreases b,
{
    if a < b {
        lemma_pow65536_mono(a, (b - 1) as nat);
    }
}

/// The 128-bit value of at most eight 16-bit groups.
pub fn groups_to_u128(g: &Vec<u32>) -> (r: u128)
    requires
        g@.len() <= 8,
        forall|i: int| 0 <= i < g@.len() ==> #[trigger] g@[i] < 65536,
    ensures
        r == groups_value(nat_groups(g@)),
{
    let mut acc: u128 = 0;
    let mut i: usize = 0;
    while i < g.len()
        invariant
            i <= g@.len() <= 8,
            forall|k: int| 0 <= k < g@.len() ==> #[trigger] g@[k] < 65536,
            acc == groups_value(nat_groups(g@.subrange(0, i as int))),
        decreases g@.len() - i,
    {
        let ghost pre = nat_groups(g@.subrange(0, i + 1));
        assert(pre.drop_last() =~= nat_groups(g@.subrange(0, i as int)));
        assert(pre.last() == g@[i as int] as nat);
        proof {
            let q = nat_groups(g@.subrange(0, i as int));
            assert forall|k: int| 0 <= k < q.len() implies #[trigger] q[k] < 65536 by {
                assert(q[k] == g@[k] as nat);
            }
            assert forall|k: int| 0 <= k < pre.len() implies #[trigger] pre[k] < 65536 by {
                assert(pre[k] == g@[k] as nat);
            }
            lemma_groups_value_bound(pre);
            lemma_pow65536_mono(pre.len(), 8);
            lemma_pow65536_8();
        }
        acc = acc * 65536 + g[i] as u128;
        i = i + 1;
    }
    assert(g@.subrange(0, i as int) =~= g@);
    acc
}

/// The position of the first `::` in `v[start..end]`.
pub fn find_double_colon(v: &Vec<char>, start: usize, end: usize) -> (r: Option<usize>)
    requires
        start <= end <= v@.len(),
    ensures
        match first_double_colon(v@.subrange(start as int, end as int)) {
            Some(k) => r is Some && r->0 == start + k,
            None => r is None,
        },
        r matches Some(i) ==> start <= i && i + 2 <= end,
{
    let ghost s = v@.subrange(start as int, end as int);
    let mut i = start;
    while end - i > 1
        invariant
            start <= i <= end,
            end <= v@.len(),
            s == v@.subrange(start as int, end as int),
            forall|j: int| 0 <= j < i - start ==> !double_colon_at(s, j),
        decreases end - i,
    {
        if v[i] == ':' && v[i + 1] == ':' {
            assert(double_colon_at(s, i - start));
            let ghost k = choose|k: int|
                #[trigger] double_colon_at(s, k) && forall|j: int|
                    0 <= j < k ==> !double_colon_at(s, j);
            assert(k == i - start) by {
                if k < i - start {
                    assert(!double_colon_at(s, k));
                }
                if k > i - start {
                    assert(!double_colon_at(s, i - start));
                }
            }
            return Some(i);
        }
        assert(!double_colon_at(s, i - start));
        i = i + 1;
    }
    assert forall|j: int| !double_colon_at(s, j) by {
        if 0 <= j < s.len() - 1 {
            assert(j < i - start);
        }
    }
    None
}

pub proof fn lemma_map_parts(v: Seq<char>, r: Seq<(usize, usize)>, parts: Seq<Seq<char>>)
    requires
        ranges_are_parts(v, r, parts),
    ensures
        r.map_values(|p: (usize, usize)| v.subrange(p.0 as int, p.1 as int)) == parts,
{
    assert(r.map_values(|p: (usize, usize)| v.subrange(p.0 as int, p.1 as int)) =~= parts);
}

/// The eight groups of an address written with `::`: the groups before it,
/// then zero groups, then the groups after it.
pub fn join_groups(h: &Vec<u32>, t: &Vec<u32>) -> (all: Vec<u32>)
    requires
        h@.len() + t@.len() <= 7,
        forall|i: int| 0 <= i < h@.len() ==> #[trigger] h@[i] < 65536,
        forall|i: int| 0 <= i < t@.len() ==> #[trigger] t@[i] < 65536,
    ensures
        all@.len() == 8,
        nat_groups(all@) == nat_groups(h@) + Seq::new(
            (8 - h@.len() - t@.len()) as nat,
            |i: int| 0nat,
        ) + nat_groups(t@),
        forall|i: int| 0 <= i < all@.len() ==> #[trigger] all@[i] < 65536,
{
    let mut all: Vec<u32> = Vec::new();
    let mut j: usize = 0;
    while j < h.len()
        invariant
            j <= h@.len(),
            all@ == h@.subrange(0, j as int),
        decreases h@.len() - j,
    {
        all.push(h[j]);
        j = j + 1;
        assert(all@ =~= h@.subrange(0, j as int));
    }
    let zeros = 8 - h.len() - t.len();
    let mut z: usize = 0;
    assert(h@.subrange(0, h@.len() as int) =~= h@);
    while z < zeros
        invariant
            z <= zeros,
            all@ == h@ + Seq::new(z as nat, |i: int| 0u32),
        decreases zeros - z,
    {
        all.push(0);
        z = z + 1;
        assert(all@ =~= h@ + Seq::new(z as nat, |i: int| 0u32));
    }
    let mut j: usize = 0;
    let ghost mid = all@;
    while j < t.len()
        invariant
            j <= t@.len(),
            all@ == mid + t@.subrange(0, j as int),
        decreases t@.len() - j,
    {
        all.push(t[j]);
        j = j + 1;
        assert(all@ =~= mid + t@.subrange(0, j as int));
    }
    assert(t@.subrange(0, t@.len() as int) =~= t@);
    let ghost zs = Seq::new(zeros as nat, |i: int| 0nat);
    assert(nat_groups(all@) =~= nat_groups(h@) + zs + nat_groups(t@));
    assert forall|i: int| 0 <= i < all@.len() implies #[trigger] all@[i] < 65536 by {
        if i < h@.len() {
            assert(all@[i] == h@[i]);
        } else if i >= h@.len() + zeros {
            assert(all@[i] == t@[i - h@.len() - zeros]);
        }
    }
    all
}

/// Reads an IPv6 address written without `::` from `v[start..end]`.
pub fn parse_uncompressed_ipv6(v: &Vec<char>, start: usize, end: usize) -> (r: Option<u128>)
    requires
        start <= end <= v@.len(),
    ensures
        r == uncompressed_ipv6(v@.subrange(start as int, end as int)),
{
    reveal(uncompressed_ipv6);
    let ghost s = v@.subrange(start as int, end as int);
    let parts = split_ranges(v, start, end, ':');
    proof {
        lemma_map_parts(v@, parts@, split_all(s, ':'));
    }
    match parse_v6_groups(v, &parts, true) {
        Some(g) => {
            if g.len() == 8 {
                let x = groups_to_u128(&g);
                assert(nat_groups(g@).len() == 8);
                Some(x)
            } else {
                assert(nat_groups(g@).len() == g@.len());
                None
            }
        },
        None => None,
    }
}

/// Reads an IPv6 address from `v[start..end]`.
pub fn parse_ipv6_at(v: &Vec<char>, start: usize, end: usize) -> (r: Option<u128>)
    requires
        start <= end <= v@.len(),
    ensures
        r == parse_ipv6(v@.subrange(start as int, end as int)),
{
    let ghost s = v@.subrange(start as int, end as int);
    match find_double_colon(v, start, end) {
        None => {
            assert(first_double_colon(s) is None);
            parse_uncompressed_ipv6(v, start, end)
        },
        Some(k) => {
            let ghost kk = (k - start) as int;
            assert(first_double_colon(s) == Some(kk));
            assert(s.subrange(0, kk) =~= v@.subrange(start as int, k as int));
            assert(s.subrange(kk + 2, s.len() as int) =~= v@.subrange(k + 2, end as int));
            parse_compressed_ipv6(v, start, k, end)
        },
    }
}

/// Reads one side of `::` in an IPv6 address.
pub fn parse_side_groups(v: &Vec<char>, start: usize, end: usize, allow_ipv4: bool) -> (r: Option<
    Vec<u32>,
>)
    requires
        start <= end <= v@.len(),
    ensures
        match side_groups(v@.subrange(start as int, end as int), allow_ipv4) {
            Some(g) => r is Some && nat_groups(r->0@) == g && forall|i: int|
                0 <= i < r->0@.len() ==> #[trigger] r->0@[i] < 65536,
            None => r is None,
        },
{
    if start == end {
        let g: Vec<u32> = Vec::new();
        assert(nat_groups(g@) =~= Seq::<nat>::empty());
        Some(g)
    } else {
        let p = split_ranges(v, start, end, ':');
        proof {
            lemma_map_parts(v@, p@, split_all(v@.subrange(start as int, end as int), ':'));
        }
        parse_v6_groups(v, &p, allow_ipv4)
    }
}

/// Reads an IPv6 address written with `::` at position `k` of `v[start..end]`.
pub fn parse_compressed_ipv6(v: &Vec<char>, start: usize, k: usize, end: usize) -> (r: Option<u128>)
    requires
        start <= k,
        k + 2 <= end <= v@.len(),
    ensures
        r == compressed_ipv6(v@.subrange(start as int, k as int), v@.subrange(k + 2, end as int)),
{
    reveal(compressed_ipv6);
    let head = parse_side_groups(v, start, k, false);
    let tail = parse_side_groups(v, k + 2, end, true);
    match (head, tail) {
        (Some(h), Some(t)) => {
            assert(nat_groups(h@).len() == h@.len());
            assert(nat_groups(t@).len() == t@.len());
            if h.len() > 7 || t.len() > 7 - h.len() {
                return None;
            }
            let all = join_groups(&h, &t);
            let x = groups_to_u128(&all);
            Some(x)
        },
        _ => None,
    }
}

/// Reads an IP address as `IpAddr::from_str` does.
pub fn parse_ip_at(v: &Vec<char>, start: usize, end: usize) -> (r: Option<IpAddr>)
    requires
        start <= end <= v@.len(),
    ensures
        r == parse_ip(v@.subrange(start as int, end as int)),
{
    match parse_ipv4_at(v, start, end) {
        Some(a) => Some(IpAddr::V4(a)),
        None => match parse_ipv6_at(v, start, end) {
            Some(a) => Some(IpAddr::V6(a)),
            None => None,
        },
    }
}

/// Reads an IP address from a string, as `IpAddr::from_str` does.
pub fn parse_ip_str(s: &str) -> (r: Option<IpAddr>)
    ensures
        r == parse_ip(s@),
{
    let v = chars_of(s);
    assert(v@.subrange(0, v@.len() as int) =~= v@);
    parse_ip_at(&v, 0, v.len())
}

/// A port or a scope id as `SocketAddr::from_str` reads it: decimal digits
/// only, with a value of at most `max`.
pub open spec fn socket_number(s: Seq<char>, max: nat) -> Option<nat> {
    if s.len() > 0 && s[0] != '+' {
        parse_unsigned(s, max)
    } else {
        None
    }
}

/// The IPv6 part of `[addr]:port`: the address, optionally followed by `%`
/// and a numeric scope id, which is read and dropped.
pub open spec fn bracketed_ipv6(s: Seq<char>) -> Option<u128> {
    match split_once_spec(s, '%') {
        Some((a, scope)) => if socket_number(scope, 0xffff_ffff) is Some {
            parse_ipv6(a)
        } else {
            None
        },
        None => parse_ipv6(s),
    }
}

/// `[v6]:port`, the IPv6 form of a socket address.
pub open spec fn v6_socket_addr(s: Seq<char>) -> Option<SocketAddr> {
    match split_once_spec(s.drop_first(), ']') {
        Some((inside, rest)) => if rest.len() > 0 && rest[0] == ':' {
            match (bracketed_ipv6(inside), socket_number(rest.drop_first(), 65535)) {
                (Some(a), Some(p)) => Some(SocketAddr { ip: IpAddr::V6(a), port: p as u16 }),
                _ => None,
            }
        } else {
            None
        },
        None => None,
    }
}

/// `a.b.c.d:port`, the IPv4 form of a socket address.
pub open spec fn v4_socket_addr(s: Seq<char>) -> Option<SocketAddr> {
    match split_once_spec(s, ':') {
        Some((a, p)) => match (parse_ipv4(a), socket_number(p, 65535)) {
            (Some(a), Some(p)) => Some(SocketAddr { ip: IpAddr::V4(a), port: p as u16 }),
            _ => None,
        },
        None => None,
    }
}

/// `SocketAddr::from_str`: `a.b.c.d:port` or `[v6]:port`.
pub open spec fn parse_socket_addr(s: Seq<char>) -> Option<SocketAddr> {
    if s.len() > 0 && s[0] == '[' {
        v6_socket_addr(s)
    } else {
        v4_socket_addr(s)
    }
}

fn socket_number_at(v: &Vec<char>, start: usize, end: usize, max: u64) -> (r: Option<u64>)
    requires
        start <= end <= v@.len(),
    ensures
        match socket_number(v@.subrange(start as int, end as int), max as nat) {
            Some(n) => r == Some(n as u64),
            None => r is None,
        },
{
    if start < end && v[start] != '+' {
        parse_unsigned_at(v, start, end, max)
    } else {
        None
    }
}

fn bracketed_ipv6_at(v: &Vec<char>, start: usize, end: usize) -> (r: Option<u128>)
    requires
        start <= end <= v@.len(),
    ensures
        r == bracketed_ipv6(v@.subrange(start as int, end as int)),
{
    match split_once_in(v, start, end, '%') {
        Some(i) => match socket_number_at(v, i + 1, end, 0xffff_ffff) {
            Some(_) => parse_ipv6_at(v, start, i),
            None => None,
        },
        None => parse_ipv6_at(v, start, end),
    }
}

fn v6_socket_addr_of(v: &Vec<char>) -> (r: Option<SocketAddr>)
    requires
        v@.len() > 0,
    ensures
        r == v6_socket_addr(v@),
{
    let n = v.len();
    assert(v@.subrange(1, n as int) =~= v@.drop_first());
    let close = match split_once_in(v, 1, n, ']') {
        Some(c) => c,
        None => {
            return None;
        },
    };
    if close + 1 >= n || v[close + 1] != ':' {
        assert(close + 1 < n ==> v@.subrange(close + 1, n as int)[0] == v@[close + 1]);
        return None;
    }
    assert(v@.subrange(close + 1, n as int)[0] == ':');
    assert(v@.subrange(close + 1, n as int).drop_first() =~= v@.subrange(close + 2, n as int));
    let port = socket_number_at(v, close + 2, n, 65535);
    let ip = bracketed_ipv6_at(v, 1, close);
    match (ip, port) {
        (Some(a), Some(p)) => Some(SocketAddr { ip: IpAddr::V6(a), port: p as u16 }),
        _ => None,
    }
}

fn v4_socket_addr_of(v: &Vec<char>) -> (r: Option<SocketAddr>)
    ensures
        r == v4_socket_addr(v@),
{
    let n = v.len();
    let colon = match crate::text::split_once_at(v, ':') {
        Some(c) => c,
        None => {
            return None;
        },
    };
    let ip = parse_ipv4_at(v, 0, colon);
    let port = socket_number_at(v, colon + 1, n, 65535);
    match ip {
        Some(a) => match port {
            Some(p) => Some(SocketAddr { ip: IpAddr::V4(a), port: p as u16 }),
            None => None,
        },
        None => None,
    }
}

/// Reads a socket address as `SocketAddr::from_str` does.
pub fn parse_socket_addr_str(s: &str) -> (r: Option<SocketAddr>)
    ensures
        r == parse_socket_addr(s@),
{
    let v = chars_of(s);
    if v.len() > 0 && v[0] == '[' {
        v6_socket_addr_of(&v)
    } else {
        v4_socket_addr_of(&v)
    }
}

} // verus!
