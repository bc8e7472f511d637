//! Query strings of the Control admin lists: percent-encoding of values and
//! the filters that a list request carries.
use vstd::prelude::*;
use vstd::utf8::{encode_scalar, encode_utf8, encode_utf8_decode_utf8};
use crate::ids::{DeviceId, UserId};
use crate::text::{decimal_string, decimal_text, owned, push_char, push_str, trim, trimmed};

verus! {

/// Appending a character appends its UTF-8 bytes.
pub proof fn lemma_encode_utf8_push(s: Seq<char>, c: char)
    ensures
        encode_utf8(s.push(c)) == encode_utf8(s) + encode_scalar(c as u32),
    decreases s.len(),
{
    if s.len() == 0 {
        assert(s.push(c).drop_first() =~= Seq::<char>::empty());
        assert(s.push(c)[0] == c);
        assert(encode_utf8(Seq::<char>::empty()) =~= Seq::<u8>::empty());
        assert(encode_utf8(s.push(c)) =~= encode_scalar(c as u32));
    } else {
        assert(s.push(c).drop_first() =~= s.drop_first().push(c));
        lemma_encode_utf8_push(s.drop_first(), c);
        assert(encode_utf8(s.push(c)) =~= encode_utf8(s) + encode_scalar(c as u32));
    }
}

/// Different strings have different UTF-8 encodings.
pub proof fn lemma_encode_utf8_injective(s1: Seq<char>, s2: Seq<char>)
    requires
        encode_utf8(s1) == encode_utf8(s2),
    ensures
        s1 == s2,
{
    encode_utf8_decode_utf8(s1);
    encode_utf8_decode_utf8(s2);
}

/// Bytes that a query value carries as they are: ASCII letters and digits,
/// `-`, `.`, `_` and `~`.
pub open spec fn is_unreserved(b: u8) -> bool {
    ||| 0x41 <= b <= 0x5a
    ||| 0x61 <= b <= 0x7a
    ||| 0x30 <= b <= 0x39
    ||| b == 0x2d
    ||| b == 0x2e
    ||| b == 0x5f
    ||| b == 0x7e
}

/// An uppercase hex digit.
pub open spec fn hex_upper(d: int) -> char {
    if d < 10 {
        (d + 0x30) as char
    } else {
        (d - 10 + 0x41) as char
    }
}

/// One byte as a query value writes it: itself, or `%` and two uppercase hex
/// digits.
pub open spec fn encode_byte(b: u8) -> Seq<char> {
    if is_unreserved(b) {
        seq![b as char]
    } else {
        seq!['%', hex_upper((b / 16) as int), hex_upper((b % 16) as int)]
    }
}

pub open spec fn encode_bytes(bs: Seq<u8>) -> Seq<char>
    decreases bs.len(),
{
    if bs.len() == 0 {
        Seq::empty()
    } else {
        encode_bytes(bs.drop_last()) + encode_byte(bs.last())
    }
}

/// A value percent-encoded for a query string.
pub open spec fn encode_query(s: Seq<char>) -> Seq<char> {
    encode_bytes(encode_utf8(s))
}

pub proof fn lemma_encode_bytes_append(a: Seq<u8>, b: Seq<u8>)
    ensures
        encode_bytes(a + b) == encode_bytes(a) + encode_bytes(b),
    decreases b.len(),
{
    if b.len() == 0 {
        assert(a + b =~= a);
        assert(encode_bytes(a) + encode_bytes(b) =~= encode_bytes(a));
    } else {
        lemma_encode_bytes_append(a, b.drop_last());
        assert((a + b).drop_last() =~= a + b.drop_last());
        assert(encode_bytes(a) + encode_bytes(b) =~= encode_bytes(a) + encode_bytes(b.drop_last())
            + encode_byte(b.last()));
    }
}

/// The UTF-8 bytes of one character.
pub fn char_utf8(c: char) -> (r: Vec<u8>)
    ensures
        r@ == encode_scalar(c as u32),
{
    let v = c as u32;
    proof {
        vstd::utf8::char_is_scalar(c);
    }
    let mut r: Vec<u8> = Vec::new();
    if v <= 0x7F {
        r.push((v & 0x7F) as u8);
    } else if v <= 0x7FF {
        r.push(0xC0 | ((v >> 6) & 0x1F) as u8);
        r.push(0x80 | (v & 0x3F) as u8);
    } else if v <= 0xFFFF {
        r.push(0xE0 | ((v >> 12) & 0x0F) as u8);
        r.push(0x80 | ((v >> 6) & 0x3F) as u8);
        r.push(0x80 | (v & 0x3F) as u8);
    } else {
        r.push(0xF0 | ((v >> 18) & 0x7) as u8);
        r.push(0x80 | ((v >> 12) & 0x3F) as u8);
        r.push(0x80 | ((v >> 6) & 0x3F) as u8);
        r.push(0x80 | (v & 0x3F) as u8);
    }
    assert(r@ =~= encode_scalar(v));
    r
}

pub fn hex_upper_char(d: u8) -> (c: char)
    requires
        d < 16,
    ensures
        c == hex_upper(d as int),
{
    match d {
        0 => '0',
        1 => '1',
        2 => '2',
        3 => '3',
        4 => '4',
        5 => '5',
        6 => '6',
        7 => '7',
        8 => '8',
        9 => '9',
        10 => 'A',
        11 => 'B',
        12 => 'C',
        13 => 'D',
        14 => 'E',
        _ => 'F',
    }
}

/// Appends one byte as a query value writes it.
pub fn push_encoded_byte(out: &mut String, b: u8)
    ensures
        final(out)@ == old(out)@ + encode_byte(b),
        (0x41 <= b <= 0x5a || 0x61 <= b <= 0x7a || 0x30 <= b <= 0x39 || b == 0x2d || b == 0x2e
            || b == 0x5f || b == 0x7e) ==> final(out)@ == old(out)@.push(b as char),
        !(0x41 <= b <= 0x5a || 0x61 <= b <= 0x7a || 0x30 <= b <= 0x39 || b == 0x2d || b == 0x2e
            || b == 0x5f || b == 0x7e) ==> {
            let n = old(out)@.len() as int;
            &&& final(out)@.len() == n + 3
            &&& final(out)@.subrange(0, n) == old(out)@
            &&& final(out)@[n] == '%'
            &&& ('0' <= final(out)@[n + 1] <= '9' || 'A' <= final(out)@[n + 1] <= 'F')
            &&& ('0' <= final(out)@[n + 2] <= '9' || 'A' <= final(out)@[n + 2] <= 'F')
            &&& hex_digit_value(final(out)@[n + 1]) * 16 + hex_digit_value(final(out)@[n + 2]) == b
        },
{
    let unreserved = (0x41 <= b && b <= 0x5a) || (0x61 <= b && b <= 0x7a) || (0x30 <= b && b
        <= 0x39) || b == 0x2d || b == 0x2e || b == 0x5f || b == 0x7e;
    if unreserved {
        push_char(out, b as char);
    } else {
        push_char(out, '%');
        push_char(out, hex_upper_char(b / 16));
        push_char(out, hex_upper_char(b % 16));
    }
    assert(out@ =~= old(out)@ + encode_byte(b));
}

/// The value of a hex digit, either case.
pub open spec fn hex_digit_value(c: char) -> int {
    if '0' <= c && c <= '9' {
        c as int - 0x30
    } else if 'A' <= c && c <= 'F' {
        c as int - 0x41 + 10
    } else if 'a' <= c && c <= 'f' {
        c as int - 0x61 + 10
    } else {
        0
    }
}

/// Percent-decoding: `%` and two hex digits stand for one byte, any other
/// character for its own code.
pub open spec fn percent_decode(s: Seq<char>) -> Seq<u8>
    decreases s.len(),
{
    if s.len() == 0 {
        Seq::empty()
    } else if s[0] == '%' && s.len() >= 3 {
        seq![(hex_digit_value(s[1]) * 16 + hex_digit_value(s[2])) as u8] + percent_decode(
            s.subrange(3, s.len() as int),
        )
    } else {
        seq![s[0] as u8] + percent_decode(s.drop_first())
    }
}

/// A character that an encoded query value may hold: an unreserved
/// character, or `%` (whose two hex digits are unreserved).
pub open spec fn is_query_char(c: char) -> bool {
    c == '%' || (c as u32) < 0x80 && is_unreserved(c as u8)
}

proof fn lemma_decode_encoded_byte(b: u8, rest: Seq<char>)
    ensures
        percent_decode(encode_byte(b) + rest) == seq![b] + percent_decode(rest),
        forall|i: int| 0 <= i < encode_byte(b).len() ==> is_query_char(#[trigger] encode_byte(b)[i]),
{
    let e = encode_byte(b);
    let s = e + rest;
    if is_unreserved(b) {
        assert(s[0] == b as char);
        assert(s.drop_first() =~= rest);
        assert((b as char) as u8 == b);
    } else {
        let hi = (b / 16) as int;
        let lo = (b % 16) as int;
        assert(s[0] == '%' && s[1] == hex_upper(hi) && s[2] == hex_upper(lo));
        assert(hex_digit_value(hex_upper(hi)) == hi);
        assert(hex_digit_value(hex_upper(lo)) == lo);
        assert(hi * 16 + lo == b);
        assert(s.subrange(3, s.len() as int) =~= rest);
        assert(is_unreserved(hex_upper(hi) as u8) && is_unreserved(hex_upper(lo) as u8));
    }
}

proof fn lemma_decode_encoded_bytes(bs: Seq<u8>)
    ensures
        percent_decode(encode_bytes(bs)) == bs,
        forall|i: int| 0 <= i < encode_bytes(bs).len() ==> is_query_char(#[trigger] encode_bytes(bs)[i]),
    decreases bs.len(),
{
    if bs.len() == 0 {
        assert(percent_decode(encode_bytes(bs)) =~= bs);
    } else {
        let first = seq![bs[0]];
        let rest = bs.drop_first();
        assert(first + rest =~= bs);
        lemma_encode_bytes_append(first, rest);
        assert(first.drop_last() =~= Seq::<u8>::empty());
        assert(first.last() == bs[0]);
        assert(encode_bytes(first.drop_last()) =~= Seq::<char>::empty());
        assert(encode_bytes(first) == encode_bytes(first.drop_last()) + encode_byte(first.last()));
        assert(encode_bytes(first) =~= encode_byte(bs[0]));
        lemma_decode_encoded_bytes(rest);
        lemma_decode_encoded_byte(bs[0], encode_bytes(rest));
        assert(seq![bs[0]] + rest =~= bs);
        let e = encode_bytes(bs);
        assert forall|i: int| 0 <= i < e.len() implies is_query_char(#[trigger] e[i]) by {
            let k = encode_byte(bs[0]).len() as int;
            if i < k {
                assert(e[i] == encode_byte(bs[0])[i]);
            } else {
                assert(e[i] == encode_bytes(rest)[i - k]);
            }
        }
    }
}

/// An encoded query value holds only unreserved characters and `%`, and
/// percent-decoding it gives back the value's UTF-8 bytes, which belong to
/// no other value.
pub proof fn law_query_encoding_decodes_back(value: Seq<char>)
    ensures
        percent_decode(encode_query(value)) == encode_utf8(value),
        forall|i: int| 0 <= i < encode_query(value).len() ==> is_query_char(#[trigger] encode_query(value)[i]),
        forall|other: Seq<char>| #[trigger] encode_utf8(other) == percent_decode(encode_query(value)) ==> other == value,
{
    lemma_decode_encoded_bytes(encode_utf8(value));
    assert forall|other: Seq<char>| #[trigger] encode_utf8(other) == percent_decode(encode_query(value)) implies other == value by {
        lemma_encode_utf8_injective(other, value);
    }
}

/// A byte outside ASCII letters, digits, `-`, `.`, `_` and `~` is written as
/// `%` and two uppercase hex digits whose value is the byte; one inside is
/// written as itself.
pub proof fn law_reserved_bytes_are_percent_encoded(b: u8)
    ensures
        (0x41 <= b <= 0x5a || 0x61 <= b <= 0x7a || 0x30 <= b <= 0x39 || b == 0x2d || b == 0x2e
            || b == 0x5f || b == 0x7e) ==> encode_byte(b) == seq![b as char],
        !(0x41 <= b <= 0x5a || 0x61 <= b <= 0x7a || 0x30 <= b <= 0x39 || b == 0x2d || b == 0x2e
            || b == 0x5f || b == 0x7e) ==> {
            let e = encode_byte(b);
            &&& e.len() == 3
            &&& e[0] == '%'
            &&& ('0' <= e[1] <= '9' || 'A' <= e[1] <= 'F')
            &&& ('0' <= e[2] <= '9' || 'A' <= e[2] <= 'F')
            &&& hex_digit_value(e[1]) * 16 + hex_digit_value(e[2]) == b
        },
{
    let hi = (b / 16) as int;
    let lo = (b % 16) as int;
    assert(hex_digit_value(hex_upper(hi)) == hi);
    assert(hex_digit_value(hex_upper(lo)) == lo);
}

/// An encoded query value holds only ASCII letters, digits, `-`, `.`, `_`,
/// `~` and `%`: never `+`, `&`, `=` or another reserved character.
pub proof fn law_query_encoding_alphabet(value: Seq<char>)
    ensures
        forall|k: int|
            0 <= k < encode_query(value).len() ==> {
                let c = #[trigger] encode_query(value)[k];
                ||| 'A' <= c <= 'Z'
                ||| 'a' <= c <= 'z'
                ||| '0' <= c <= '9'
                ||| c == '-' || c == '.' || c == '_' || c == '~' || c == '%'
            },
{
    lemma_encoded_bytes_alphabet(encode_utf8(value));
}

proof fn lemma_encoded_bytes_alphabet(bs: Seq<u8>)
    ensures
        forall|k: int|
            0 <= k < encode_bytes(bs).len() ==> {
                let c = #[trigger] encode_bytes(bs)[k];
                ||| 'A' <= c <= 'Z'
                ||| 'a' <= c <= 'z'
                ||| '0' <= c <= '9'
                ||| c == '-' || c == '.' || c == '_' || c == '~' || c == '%'
            },
    decreases bs.len(),
{
    if bs.len() > 0 {
        lemma_encoded_bytes_alphabet(bs.drop_last());
        law_reserved_bytes_are_percent_encoded(bs.last());
        let front = encode_bytes(bs.drop_last());
        let e = encode_byte(bs.last());
        assert(encode_bytes(bs) == front + e);
        assert forall|k: int| 0 <= k < encode_bytes(bs).len() implies {
            let c = #[trigger] encode_bytes(bs)[k];
            ||| 'A' <= c <= 'Z'
            ||| 'a' <= c <= 'z'
            ||| '0' <= c <= '9'
            ||| c == '-' || c == '.' || c == '_' || c == '~' || c == '%'
        } by {
            if k < front.len() {
                assert(encode_bytes(bs)[k] == front[k]);
            } else {
                assert(encode_bytes(bs)[k] == e[k - front.len()]);
            }
        }
    }
}

/// Percent-encodes a query value, byte by byte of its UTF-8 form.
pub fn encode_query_value(value: &str) -> (r: String)
    ensures
        r@ == encode_query(value@),
        forall|k: int| 0 <= k < r@.len() ==> is_query_char(#[trigger] r@[k]),
        forall|k: int|
            0 <= k < r@.len() ==> {
                let c = #[trigger] r@[k];
                ||| 'A' <= c <= 'Z'
                ||| 'a' <= c <= 'z'
                ||| '0' <= c <= '9'
                ||| c == '-' || c == '.' || c == '_' || c == '~' || c == '%'
            },
        percent_decode(r@) == encode_utf8(value@),
{
    let chars = crate::text::chars_of(value);
    let mut out = String::new();
    let mut i: usize = 0;
    assert(chars@.take(0) =~= Seq::<char>::empty());
    assert(out@ =~= encode_bytes(encode_utf8(chars@.take(0))));
    while i < chars.len()
        invariant
            i <= chars@.len(),
            out@ == encode_bytes(encode_utf8(chars@.take(i as int))),
        decreases chars@.len() - i,
    {
        let bytes = char_utf8(chars[i]);
        let ghost before = out@;
        let mut j: usize = 0;
        assert(bytes@.take(0) =~= Seq::<u8>::empty());
        assert(out@ =~= before + encode_bytes(bytes@.take(0)));
        while j < bytes.len()
            invariant
                j <= bytes@.len(),
                out@ == before + encode_bytes(bytes@.take(j as int)),
            decreases bytes@.len() - j,
        {
            push_encoded_byte(&mut out, bytes[j]);
            assert(bytes@.take(j + 1).drop_last() =~= bytes@.take(j as int));
            assert(out@ =~= before + encode_bytes(bytes@.take(j + 1)));
            j = j + 1;
        }
        proof {
            assert(bytes@.take(j as int) =~= bytes@);
            assert(chars@.take(i + 1).drop_last() =~= chars@.take(i as int));
            assert(chars@.take(i + 1) =~= chars@.take(i as int).push(chars@[i as int]));
            lemma_encode_utf8_push(chars@.take(i as int), chars@[i as int]);
            lemma_encode_bytes_append(encode_utf8(chars@.take(i as int)), encode_scalar(chars@[i as int] as u32));
        }
        i = i + 1;
    }
    assert(chars@.take(i as int) =~= value@);
    proof {
        law_query_encoding_decodes_back(value@);
        law_query_encoding_alphabet(value@);
    }
    out
}

/// One `name=value` pair, the value encoded.
pub open spec fn query_param(name: Seq<char>, value: Seq<char>) -> Seq<char> {
    name + seq!['='] + encode_query(value)
}

/// Adds `name=value` to the parameters, the value encoded.
pub fn push_query_param(params: &mut Vec<String>, name: &str, value: &str)
    ensures
        final(params)@.len() == old(params)@.len() + 1,
        forall|i: int| 0 <= i < old(params)@.len() ==> (#[trigger] final(params)@[i]) == old(params)@[i],
        final(params)@[old(params)@.len() as int]@ == query_param(name@, value@),
{
    let mut p = owned(name);
    push_char(&mut p, '=');
    let encoded = encode_query_value(value);
    push_str(&mut p, encoded.as_str());
    assert(p@ =~= query_param(name@, value@));
    params.push(p);
}

/// The filters of an admin list request.
#[derive(Clone, Debug, Default, PartialEq, Eq)]
pub struct AdminListQuery {
    pub limit: Option<u32>,
    pub offset: Option<u32>,
    pub sort: Option<String>,
    pub q: Option<String>,
    pub role: Option<String>,
    pub enabled: Option<bool>,
    pub status: Option<String>,
    pub user_id: Option<UserId>,
    pub device_id: Option<DeviceId>,
    pub healthy: Option<bool>,
    pub action: Option<String>,
    pub target_type: Option<String>,
}

pub open spec fn bool_text(b: bool) -> Seq<char> {
    if b {
        "true"@
    } else {
        "false"@
    }
}

/// A numeric filter, when it is set.
pub open spec fn number_param(ps: Seq<Seq<char>>, name: Seq<char>, v: Option<u32>) -> Seq<Seq<char>> {
    match v {
        Some(n) => ps.push(query_param(name, decimal_text(n as nat))),
        None => ps,
    }
}

/// A text filter, trimmed, when it is set and not blank.
pub open spec fn text_param(ps: Seq<Seq<char>>, name: Seq<char>, v: Option<String>) -> Seq<Seq<char>> {
    match v {
        Some(s) => if trim(s@).len() > 0 {
            ps.push(query_param(name, trim(s@)))
        } else {
            ps
        },
        None => ps,
    }
}

/// A yes/no filter, when it is set.
pub open spec fn bool_param(ps: Seq<Seq<char>>, name: Seq<char>, v: Option<bool>) -> Seq<Seq<char>> {
    match v {
        Some(b) => ps.push(query_param(name, bool_text(b))),
        None => ps,
    }
}

/// An identifier filter, as it is, when it is set.
pub open spec fn id_param(ps: Seq<Seq<char>>, name: Seq<char>, v: Option<Seq<char>>) -> Seq<Seq<char>> {
    match v {
        Some(s) => ps.push(query_param(name, s)),
        None => ps,
    }
}

pub open spec fn opt_user(v: Option<UserId>) -> Option<Seq<char>> {
    match v {
        Some(u) => Some(u@),
        None => None,
    }
}

pub open spec fn opt_device(v: Option<DeviceId>) -> Option<Seq<char>> {
    match v {
        Some(d) => Some(d@),
        None => None,
    }
}

/// The parameters of a query, in the order the server documents them.
pub open spec fn admin_query_params(q: AdminListQuery) -> Seq<Seq<char>> {
    let p0 = Seq::<Seq<char>>::empty();
    let p1 = number_param(p0, "limit"@, q.limit);
    let p2 = number_param(p1, "offset"@, q.offset);
    let p3 = text_param(p2, "sort"@, q.sort);
    let p4 = text_param(p3, "q"@, q.q);
    let p5 = text_param(p4, "role"@, q.role);
    let p6 = bool_param(p5, "enabled"@, q.enabled);
    let p7 = text_param(p6, "status"@, q.status);
    let p8 = id_param(p7, "user_id"@, opt_user(q.user_id));
    let p9 = id_param(p8, "device_id"@, opt_device(q.device_id));
    let p10 = bool_param(p9, "healthy"@, q.healthy);
    let p11 = text_param(p10, "action"@, q.action);
    text_param(p11, "target_type"@, q.target_type)
}

/// Parts joined by `&`.
pub open spec fn join_amp(ps: Seq<Seq<char>>) -> Seq<char>
    decreases ps.len(),
{
    if ps.len() == 0 {
        Seq::empty()
    } else if ps.len() == 1 {
        ps[0]
    } else {
        join_amp(ps.drop_last()) + seq!['&'] + ps.last()
    }
}

/// A list path with its query string, or the path alone when no filter is set.
pub open spec fn admin_path(path: Seq<char>, q: AdminListQuery) -> Seq<char> {
    let ps = admin_query_params(q);
    if ps.len() == 0 {
        path
    } else {
        path + seq!['?'] + join_amp(ps)
    }
}

pub open spec fn string_views(v: Seq<String>) -> Seq<Seq<char>> {
    v.map_values(|s: String| s@)
}

fn push_number_param(params: &mut Vec<String>, name: &str, v: Option<u32>)
    ensures
        string_views(final(params)@) == number_param(string_views(old(params)@), name@, v),
{
    if let Some(n) = v {
        let text = decimal_string(n as u64);
        push_query_param(params, name, text.as_str());
        assert(string_views(params@) =~= string_views(old(params)@).push(query_param(name@, text@)));
    }
}

fn push_text_param(params: &mut Vec<String>, name: &str, v: &Option<String>)
    ensures
        string_views(final(params)@) == text_param(string_views(old(params)@), name@, *v),
{
    if let Some(s) = v {
        let t = trimmed(s.as_str());
        if t.unicode_len() > 0 {
            push_query_param(params, name, t.as_str());
            assert(string_views(params@) =~= string_views(old(params)@).push(query_param(name@, t@)));
        }
    }
}

fn push_bool_param(params: &mut Vec<String>, name: &str, v: Option<bool>)
    ensures
        string_views(final(params)@) == bool_param(string_views(old(params)@), name@, v),
{
    if let Some(b) = v {
        let text = if b {
            "true"
        } else {
            "false"
        };
        push_query_param(params, name, text);
        assert(string_views(params@) =~= string_views(old(params)@).push(query_param(name@, text@)));
    }
}

fn push_id_param(params: &mut Vec<String>, name: &str, v: Option<&str>)
    ensures
        string_views(final(params)@) == id_param(
            string_views(old(params)@),
            name@,
            match v {
                Some(s) => Some(s@),
                None => None,
            },
        ),
{
    if let Some(s) = v {
        push_query_param(params, name, s);
        assert(string_views(params@) =~= string_views(old(params)@).push(query_param(name@, s@)));
    }
}

/// The parts joined by `&`.
pub fn join_with_amp(params: &Vec<String>) -> (r: String)
    ensures
        r@ == join_amp(string_views(params@)),
{
    let mut out = String::new();
    let mut i: usize = 0;
    while i < params.len()
        invariant
            i <= params@.len(),
            out@ == join_amp(string_views(params@).take(i as int)),
        decreases params@.len() - i,
    {
        let ghost t = string_views(params@).take(i + 1);
        assert(t.drop_last() =~= string_views(params@).take(i as int));
        if i > 0 {
            push_char(&mut out, '&');
        }
        push_str(&mut out, params[i].as_str());
        if i == 0 {
            assert(out@ =~= t[0]);
        } else {
            assert(out@ =~= join_amp(t.drop_last()) + seq!['&'] + t.last());
        }
        i = i + 1;
    }
    assert(string_views(params@).take(i as int) =~= string_views(params@));
    out
}

/// The path of an admin list with the query string of its filters.
pub fn admin_query_path(path: &str, query: AdminListQuery) -> (r: String)
    ensures
        r@ == admin_path(path@, query),
{
    let mut params: Vec<String> = Vec::new();
    assert(string_views(params@) =~= Seq::<Seq<char>>::empty());
    push_number_param(&mut params, "limit", query.limit);
    push_number_param(&mut params, "offset", query.offset);
    push_text_param(&mut params, "sort", &query.sort);
    push_text_param(&mut params, "q", &query.q);
    push_text_param(&mut params, "role", &query.role);
    push_bool_param(&mut params, "enabled", query.enabled);
    push_text_param(&mut params, "status", &query.status);
    let user = match &query.user_id {
        Some(u) => Some(u.as_str()),
        None => None,
    };
    push_id_param(&mut params, "user_id", user);
    let device = match &query.device_id {
        Some(d) => Some(d.as_str()),
        None => None,
    };
    push_id_param(&mut params, "device_id", device);
    push_bool_param(&mut params, "healthy", query.healthy);
    push_text_param(&mut params, "action", &query.action);
    push_text_param(&mut params, "target_type", &query.target_type);
    if params.len() == 0 {
        owned(path)
    } else {
        let mut out = owned(path);
        push_char(&mut out, '?');
        let joined = join_with_amp(&params);
        push_str(&mut out, joined.as_str());
        assert(out@ =~= path@ + seq!['?'] + join_amp(string_views(params@)));
        out
    }
}

} // verus!
