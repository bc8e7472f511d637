//! Character-level helpers shared by the parsers of this crate: conversion
//! between strings and character vectors, whitespace trimming, splitting on a
//! separator, and decimal number reading and writing.
use vstd::prelude::*;

verus! {

/// `char::is_whitespace`: the Unicode `White_Space` property.
pub open spec fn is_ws(c: char) -> bool {
    let v = c as u32;
    ||| (0x9 <= v && v <= 0xd)
    ||| v == 0x20
    ||| v == 0x85
    ||| v == 0xa0
    ||| v == 0x1680
    ||| (0x2000 <= v && v <= 0x200a)
    ||| v == 0x2028
    ||| v == 0x2029
    ||| v == 0x202f
    ||| v == 0x205f
    ||| v == 0x3000
}

pub fn char_is_ws(c: char) -> (r: bool)
    ensures
        r == is_ws(c),
{
    let v = c as u32;
    (0x9 <= v && v <= 0xd) || v == 0x20 || v == 0x85 || v == 0xa0 || v == 0x1680 || (0x2000
        <= v && v <= 0x200a) || v == 0x2028 || v == 0x2029 || v == 0x202f || v == 0x205f || v
        == 0x3000
}

/// Leading whitespace removed.
pub open spec fn trim_start(s: Seq<char>) -> Seq<char>
    decreases s.len(),
{
    if s.len() > 0 && is_ws(s[0]) {
        trim_start(s.drop_first())
    } else {
        s
    }
}

/// Trailing whitespace removed.
pub open spec fn trim_end(s: Seq<char>) -> Seq<char>
    decreases s.len(),
{
    if s.len() > 0 && is_ws(s.last()) {
        trim_end(s.drop_last())
    } else {
        s
    }
}

/// `str::trim`.
pub open spec fn trim(s: Seq<char>) -> Seq<char> {
    trim_end(trim_start(s))
}

pub open spec fn is_ascii_digit(c: char) -> bool {
    '0' <= c && c <= '9'
}

pub open spec fn digit_value(c: char) -> nat {
    ((c as u32) - ('0' as u32)) as nat
}

pub open spec fn all_digits(s: Seq<char>) -> bool {
    forall|i: int| 0 <= i < s.len() ==> is_ascii_digit(#[trigger] s[i])
}

/// The number written by a string of decimal digits.
pub open spec fn decimal_value(s: Seq<char>) -> nat
    decreases s.len(),
{
    if s.len() == 0 {
        0
    } else {
        decimal_value(s.drop_last()) * 10 + digit_value(s.last())
    }
}

/// What the standard library's `FromStr` for an unsigned integer type accepts:
/// an optional `+`, then at least one decimal digit; the value is returned
/// when it is at most `max`.
pub open spec fn parse_unsigned(s: Seq<char>, max: nat) -> Option<nat> {
    let body = if s.len() > 0 && s[0] == '+' {
        s.drop_first()
    } else {
        s
    };
    if body.len() == 0 || !all_digits(body) || decimal_value(body) > max {
        None
    } else {
        Some(decimal_value(body))
    }
}

pub open spec fn digit_char(d: nat) -> char {
    ((d % 10) + ('0' as u32)) as char
}

/// The decimal text of a number, as `Display` writes it for unsigned integers.
pub open spec fn decimal_text(n: nat) -> Seq<char>
    decreases n,
{
    if n < 10 {
        seq![digit_char(n)]
    } else {
        decimal_text(n / 10).push(digit_char(n % 10))
    }
}

/// The characters of a string, in order.
pub fn chars_of(s: &str) -> (v: Vec<char>)
    ensures
        v@ == s@,
{
    let n = s.unicode_len();
    let mut v: Vec<char> = Vec::new();
    let mut i: usize = 0;
    while i < n
        invariant
            n == s@.len(),
            i <= n,
            v@ == s@.subrange(0, i as int),
        decreases n - i,
    {
        let c = s.get_char(i);
        v.push(c);
        i = i + 1;
        assert(v@ =~= s@.subrange(0, i as int));
    }
    assert(v@ =~= s@);
    v
}

/// `String::push`.
#[verifier::external_body]
pub(crate) fn push_char(s: &mut String, c: char)
    ensures
        final(s)@ == old(s)@.push(c),
{
    s.push(c);
}

/// Appends a string slice.
pub fn push_str(s: &mut String, t: &str)
    ensures
        final(s)@ == old(s)@ + t@,
{
    s.append(t);
}

/// Appends the characters of a sequence held in a vector, from `start` to `end`.
pub fn push_chars(s: &mut String, v: &Vec<char>, start: usize, end: usize)
    requires
        start <= end <= v@.len(),
    ensures
        final(s)@ == old(s)@ + v@.subrange(start as int, end as int),
{
    let mut i = start;
    while i < end
        invariant
            start <= i <= end,
            end <= v@.len(),
            s@ == old(s)@ + v@.subrange(start as int, i as int),
        decreases end - i,
    {
        push_char(s, v[i]);
        i = i + 1;
        assert(s@ =~= old(s)@ + v@.subrange(start as int, i as int));
    }
}

/// A string holding the characters `v[start..end]`.
pub fn string_of(v: &Vec<char>, start: usize, end: usize) -> (s: String)
    requires
        start <= end <= v@.len(),
    ensures
        s@ == v@.subrange(start as int, end as int),
{
    let mut s = String::new();
    push_chars(&mut s, v, start, end);
    assert(s@ =~= v@.subrange(start as int, end as int));
    s
}

/// A copy of a string slice.
pub fn owned(t: &str) -> (s: String)
    ensures
        s@ == t@,
{
    let mut s = String::new();
    push_str(&mut s, t);
    assert(s@ =~= t@);
    s
}

/// A copy of a string.
pub fn copy_string(t: &String) -> (s: String)
    ensures
        s@ == t@,
{
    t.clone()
}

/// Equality of two strings by their characters.
pub fn str_eq(a: &str, b: &str) -> (r: bool)
    ensures
        r == (a@ == b@),
{
    let x = chars_of(a);
    let y = chars_of(b);
    chars_eq(&x, &y)
}

pub fn chars_eq(x: &Vec<char>, y: &Vec<char>) -> (r: bool)
    ensures
        r == (x@ == y@),
{
    if x.len() != y.len() {
        return false;
    }
    let mut i: usize = 0;
    while i < x.len()
        invariant
            x@.len() == y@.len(),
            i <= x@.len(),
            forall|j: int| 0 <= j < i ==> x@[j] == y@[j],
        decreases x@.len() - i,
    {
        if x[i] != y[i] {
            return false;
        }
        i = i + 1;
    }
    assert(x@ =~= y@);
    true
}

pub proof fn lemma_trim_start_is_suffix(s: Seq<char>)
    ensures
        exists|k: int|
            0 <= k <= s.len() && #[trigger] trim_start(s) == s.subrange(k, s.len() as int) && (
            forall|j: int| 0 <= j < k ==> is_ws(s[j])) && (k < s.len() ==> !is_ws(s[k])),
    decreases s.len(),
{
    if s.len() > 0 && is_ws(s[0]) {
        lemma_trim_start_is_suffix(s.drop_first());
        let k = choose|k: int|
            0 <= k <= s.drop_first().len() && #[trigger] trim_start(s.drop_first())
                == s.drop_first().subrange(k, s.drop_first().len() as int) && (forall|j: int|
                0 <= j < k ==> is_ws(s.drop_first()[j])) && (k < s.drop_first().len() ==> !is_ws(
                s.drop_first()[k],
            ));
        assert(s.drop_first().subrange(k, s.drop_first().len() as int) =~= s.subrange(
            k + 1,
            s.len() as int,
        ));
        assert forall|j: int| 0 <= j < k + 1 implies is_ws(s[j]) by {
            if j > 0 {
                assert(s[j] == s.drop_first()[j - 1]);
            }
        }
        if k + 1 < s.len() {
            assert(s[k + 1] == s.drop_first()[k]);
        }
    } else {
        assert(s.subrange(0, s.len() as int) =~= s);
    }
}

pub proof fn lemma_trim_end_is_prefix(s: Seq<char>)
    ensures
        exists|k: int|
            0 <= k <= s.len() && #[trigger] trim_end(s) == s.subrange(0, k) && (forall|j: int|
                k <= j < s.len() ==> is_ws(s[j])) && (k > 0 ==> !is_ws(s[k - 1])),
    decreases s.len(),
{
    if s.len() > 0 && is_ws(s.last()) {
        lemma_trim_end_is_prefix(s.drop_last());
        let k = choose|k: int|
            0 <= k <= s.drop_last().len() && #[trigger] trim_end(s.drop_last())
                == s.drop_last().subrange(0, k) && (forall|j: int|
                k <= j < s.drop_last().len() ==> is_ws(s.drop_last()[j])) && (k > 0 ==> !is_ws(
                s.drop_last()[k - 1],
            ));
        assert(s.drop_last().subrange(0, k) =~= s.subrange(0, k));
        assert forall|j: int| k <= j < s.len() implies is_ws(s[j]) by {
            if j < s.len() - 1 {
                assert(s[j] == s.drop_last()[j]);
            }
        }
        if k > 0 {
            assert(s[k - 1] == s.drop_last()[k - 1]);
        }
    } else {
        assert(s.subrange(0, s.len() as int) =~= s);
    }
}

/// The bounds of `str::trim` inside a character vector.
pub fn trim_bounds(v: &Vec<char>) -> (r: (usize, usize))
    ensures
        r.0 <= r.1 <= v@.len(),
        v@.subrange(r.0 as int, r.1 as int) == trim(v@),
{
    let mut a: usize = 0;
    assert(v@.subrange(0, v@.len() as int) =~= v@);
    while a < v.len() && char_is_ws(v[a])
        invariant
            a <= v@.len(),
            trim_start(v@) == trim_start(v@.subrange(a as int, v@.len() as int)),
        decreases v@.len() - a,
    {
        assert(v@.subrange(a as int, v@.len() as int).drop_first() =~= v@.subrange(
            a + 1,
            v@.len() as int,
        ));
        a = a + 1;
    }
    assert(trim_start(v@.subrange(a as int, v@.len() as int)) == v@.subrange(
        a as int,
        v@.len() as int,
    ));
    let mut b: usize = v.len();
    while b > a && char_is_ws(v[b - 1])
        invariant
            a <= b <= v@.len(),
            trim_end(v@.subrange(a as int, v@.len() as int)) == trim_end(
                v@.subrange(a as int, b as int),
            ),
        decreases b - a,
    {
        assert(v@.subrange(a as int, b as int).drop_last() =~= v@.subrange(
            a as int,
            b - 1,
        ));
        b = b - 1;
    }
    assert(trim_end(v@.subrange(a as int, b as int)) == v@.subrange(a as int, b as int));
    (a, b)
}

/// `str::trim`, as an owned string.
pub fn trimmed(s: &str) -> (t: String)
    ensures
        t@ == trim(s@),
{
    let v = chars_of(s);
    let (a, b) = trim_bounds(&v);
    string_of(&v, a, b)
}

/// Whether `str::trim` leaves nothing.
pub fn is_blank(s: &str) -> (r: bool)
    ensures
        r == (trim(s@).len() == 0),
{
    let v = chars_of(s);
    let (a, b) = trim_bounds(&v);
    a == b
}

/// The first position of `c` at or after `from`, if any.
pub fn find_char(v: &Vec<char>, c: char, from: usize) -> (r: Option<usize>)
    requires
        from <= v@.len(),
    ensures
        match r {
            Some(i) => from <= i < v@.len() && v@[i as int] == c && forall|j: int|
                from <= j < i ==> v@[j] != c,
            None => forall|j: int| from <= j < v@.len() ==> v@[j] != c,
        },
{
    let mut i = from;
    while i < v.len()
        invariant
            from <= i <= v@.len(),
            forall|j: int| from <= j < i ==> v@[j] != c,
        decreases v@.len() - i,
    {
        if v[i] == c {
            return Some(i);
        }
        i = i + 1;
    }
    None
}

/// The last position of `c` in `v`, if any.
pub fn rfind_char(v: &Vec<char>, c: char) -> (r: Option<usize>)
    ensures
        match r {
            Some(i) => i < v@.len() && v@[i as int] == c && forall|j: int|
                i < j < v@.len() ==> v@[j] != c,
            None => forall|j: int| 0 <= j < v@.len() ==> v@[j] != c,
        },
{
    let mut i = v.len();
    while i > 0
        invariant
            i <= v@.len(),
            forall|j: int| i <= j < v@.len() ==> v@[j] != c,
        decreases i,
    {
        if v[i - 1] == c {
            return Some(i - 1);
        }
        i = i - 1;
    }
    None
}

/// `str::split_once` on a character: the parts before and after the first
/// occurrence of `c`.
pub open spec fn split_once_spec(s: Seq<char>, c: char) -> Option<(Seq<char>, Seq<char>)> {
    if s.contains(c) {
        let i = choose|i: int| 0 <= i < s.len() && s[i] == c && forall|j: int| 0 <= j < i ==> s[j] != c;
        Some((s.subrange(0, i), s.subrange(i + 1, s.len() as int)))
    } else {
        None
    }
}

/// `str::rsplit_once` on a character: the parts before and after the last
/// occurrence of `c`.
pub open spec fn rsplit_once_spec(s: Seq<char>, c: char) -> Option<(Seq<char>, Seq<char>)> {
    if s.contains(c) {
        let i = choose|i: int| 0 <= i < s.len() && s[i] == c && forall|j: int| i < j < s.len() ==> s[j] != c;
        Some((s.subrange(0, i), s.subrange(i + 1, s.len() as int)))
    } else {
        None
    }
}

pub proof fn lemma_first_index_unique(s: Seq<char>, c: char, i: int, k: int)
    requires
        0 <= i < s.len() && s[i] == c && forall|j: int| 0 <= j < i ==> s[j] != c,
        0 <= k < s.len() && s[k] == c && forall|j: int| 0 <= j < k ==> s[j] != c,
    ensures
        i == k,
{
    if i < k {
        assert(s[i] != c);
    }
    if k < i {
        assert(s[k] != c);
    }
}

pub proof fn lemma_last_index_unique(s: Seq<char>, c: char, i: int, k: int)
    requires
        0 <= i < s.len() && s[i] == c && forall|j: int| i < j < s.len() ==> s[j] != c,
        0 <= k < s.len() && s[k] == c && forall|j: int| k < j < s.len() ==> s[j] != c,
    ensures
        i == k,
{
    if i < k {
        assert(s[k] != c);
    }
    if k < i {
        assert(s[i] != c);
    }
}

/// The position that `split_once` splits at.
pub fn split_once_at(v: &Vec<char>, c: char) -> (r: Option<usize>)
    ensures
        match r {
            Some(i) => i < v@.len() && split_once_spec(v@, c) == Some(
                (v@.subrange(0, i as int), v@.subrange(i + 1, v@.len() as int)),
            ),
            None => split_once_spec(v@, c) is None,
        },
{
    let r = find_char(v, c, 0);
    match r {
        Some(i) => {
            assert(v@.contains(c));
            let ghost k = choose|k: int|
                0 <= k < v@.len() && v@[k] == c && forall|j: int| 0 <= j < k ==> v@[j] != c;
            proof {
                lemma_first_index_unique(v@, c, i as int, k);
            }
        },
        None => {},
    }
    r
}

/// The position that `rsplit_once` splits at.
pub fn rsplit_once_at(v: &Vec<char>, c: char) -> (r: Option<usize>)
    ensures
        match r {
            Some(i) => i < v@.len() && rsplit_once_spec(v@, c) == Some(
                (v@.subrange(0, i as int), v@.subrange(i + 1, v@.len() as int)),
            ),
            None => rsplit_once_spec(v@, c) is None,
        },
{
    let r = rfind_char(v, c);
    match r {
        Some(i) => {
            assert(v@.contains(c));
            let ghost k = choose|k: int|
                0 <= k < v@.len() && v@[k] == c && forall|j: int| k < j < v@.len() ==> v@[j] != c;
            proof {
                lemma_last_index_unique(v@, c, i as int, k);
            }
        },
        None => {},
    }
    r
}

pub proof fn lemma_decimal_value_bound(s: Seq<char>)
    requires
        all_digits(s),
    ensures
        decimal_value(s) >= 0,
        s.len() > 0 && is_ascii_digit(s[0]) && s[0] != '0' ==> decimal_value(s) >= 1,
    decreases s.len(),
{
    if s.len() > 1 {
        lemma_decimal_value_bound(s.drop_last());
        assert(s.drop_last()[0] == s[0]);
    }
}

/// Reads an unsigned decimal number from `v[start..end]` as `FromStr` for an
/// unsigned type whose largest value is `max` does.
pub fn parse_unsigned_at(v: &Vec<char>, start: usize, end: usize, max: u64) -> (r: Option<u64>)
    requires
        start <= end <= v@.len(),
    ensures
        match parse_unsigned(v@.subrange(start as int, end as int), max as nat) {
            Some(n) => r == Some(n as u64),
            None => r is None,
        },
{
    let ghost s = v@.subrange(start as int, end as int);
    let mut i = start;
    if i < end && v[i] == '+' {
        i = i + 1;
    }
    let ghost body = v@.subrange(i as int, end as int);
    assert(body =~= (if s.len() > 0 && s[0] == '+' {
        s.drop_first()
    } else {
        s
    }));
    if i == end {
        assert(body.len() == 0);
        assert((if s.len() > 0 && s[0] == '+' {
            s.drop_first()
        } else {
            s
        }).len() == 0);
        assert(parse_unsigned(s, max as nat) is None);
        return None;
    }
    let body_start = i;
    let mut acc: u64 = 0;
    while i < end
        invariant
            body_start <= i <= end <= v@.len(),
            body == v@.subrange(body_start as int, end as int),
            s == v@.subrange(start as int, end as int),
            body == (if s.len() > 0 && s[0] == '+' {
                s.drop_first()
            } else {
                s
            }),
            all_digits(v@.subrange(body_start as int, i as int)),
            acc == decimal_value(v@.subrange(body_start as int, i as int)),
            acc <= max,
        decreases end - i,
    {
        let c = v[i];
        if !('0' <= c && c <= '9') {
            assert(body[i - body_start] == c);
            assert(!all_digits(body));
            assert(parse_unsigned(s, max as nat) is None);
            return None;
        }
        let d = (c as u32 - '0' as u32) as u64;
        let ghost prefix = v@.subrange(body_start as int, i + 1);
        assert(prefix.drop_last() =~= v@.subrange(body_start as int, i as int));
        assert(prefix.last() == c);
        if d > max || acc > (max - d) / 10 {
            proof {
                if d <= max {
                    assert(acc * 10 + d > max) by (nonlinear_arith)
                        requires
                            acc > (max - d) / 10,
                            d <= max,
                    ;
                }
                lemma_prefix_value_grows(body, (i + 1 - body_start) as int);
                assert(body.subrange(0, (i + 1 - body_start) as int) =~= prefix);
            }
            return None;
        }
        proof {
            assert(acc * 10 + d <= max) by (nonlinear_arith)
                requires
                    acc <= (max - d) / 10,
                    d <= max,
            ;
        }
        acc = acc * 10 + d;
        i = i + 1;
        assert(all_digits(v@.subrange(body_start as int, i as int))) by {
            assert forall|j: int| 0 <= j < v@.subrange(body_start as int, i as int).len()
                implies is_ascii_digit(#[trigger] v@.subrange(body_start as int, i as int)[j]) by {
                if j < i - 1 - body_start {
                    assert(v@.subrange(body_start as int, i as int)[j] == v@.subrange(
                        body_start as int,
                        i - 1,
                    )[j]);
                }
            }
        }
    }
    assert(body =~= v@.subrange(body_start as int, i as int));
    Some(acc)
}

/// A longer run of digits never has a smaller value than its prefix.
pub proof fn lemma_prefix_value_grows(s: Seq<char>, k: int)
    requires
        0 <= k <= s.len(),
    ensures
        all_digits(s) ==> decimal_value(s.subrange(0, k)) <= decimal_value(s),
    decreases s.len() - k,
{
    if k < s.len() && all_digits(s) {
        lemma_prefix_value_grows(s, k + 1);
        let t = s.subrange(0, k + 1);
        assert(t.drop_last() =~= s.subrange(0, k));
        assert(decimal_value(t) == decimal_value(s.subrange(0, k)) * 10 + digit_value(t.last()));
    } else if k == s.len() {
        assert(s.subrange(0, k) =~= s);
    }
}

pub fn digit_to_char(d: u8) -> (c: char)
    requires
        d < 10,
    ensures
        c == digit_char(d as nat),
{
    match d {
        0 => '0',
        1 => '1',
        2 => '2',
        3 => '3',
        4 => '4',
        5 => '5',
        6 => '6',
        7 => '7',
        8 => '8',
        _ => '9',
    }
}

/// The decimal text of an unsigned number, as `Display` writes it.
pub fn decimal_string(n: u64) -> (s: String)
    ensures
        s@ == decimal_text(n as nat),
    decreases n,
{
    let mut s = if n >= 10 {
        decimal_string(n / 10)
    } else {
        String::new()
    };
    let ch = digit_to_char((n % 10) as u8);
    push_char(&mut s, ch);
    assert(s@ =~= decimal_text(n as nat));
    s
}

/// All the parts between occurrences of `c`, as `str::split` yields them.
pub open spec fn split_all(s: Seq<char>, c: char) -> Seq<Seq<char>>
    decreases s.len(),
{
    if s.len() == 0 {
        seq![Seq::<char>::empty()]
    } else {
        let rest = split_all(s.drop_last(), c);
        if s.last() == c {
            rest.push(Seq::<char>::empty())
        } else {
            rest.update(rest.len() - 1, rest.last().push(s.last()))
        }
    }
}

pub proof fn lemma_split_all_nonempty(s: Seq<char>, c: char)
    ensures
        split_all(s, c).len() >= 1,
    decreases s.len(),
{
    if s.len() > 0 {
        lemma_split_all_nonempty(s.drop_last(), c);
    }
}

/// Whether the ranges in `r` cut `v[start..end]` into the parts of `split_all`.
pub open spec fn ranges_are_parts(v: Seq<char>, r: Seq<(usize, usize)>, parts: Seq<Seq<char>>) -> bool {
    &&& r.len() == parts.len()
    &&& forall|i: int|
        0 <= i < r.len() ==> (#[trigger] r[i]).0 <= r[i].1 <= v.len() && v.subrange(
            r[i].0 as int,
            r[i].1 as int,
        ) == parts[i]
}

/// The ranges of the parts of `v[start..end]` between occurrences of `c`.
pub fn split_ranges(v: &Vec<char>, start: usize, end: usize, c: char) -> (r: Vec<(usize, usize)>)
    requires
        start <= end <= v@.len(),
    ensures
        ranges_are_parts(v@, r@, split_all(v@.subrange(start as int, end as int), c)),
        forall|i: int| 0 <= i < r@.len() ==> start <= (#[trigger] r@[i]).0,
{
    let mut r: Vec<(usize, usize)> = Vec::new();
    let mut cur = start;
    let mut i = start;
    assert(v@.subrange(start as int, start as int) =~= Seq::<char>::empty());
    while i < end
        invariant
            start <= cur <= i <= end <= v@.len(),
            ranges_are_parts(
                v@,
                r@.push((cur, i)),
                split_all(v@.subrange(start as int, i as int), c),
            ),
            forall|j: int| 0 <= j < r@.len() ==> start <= (#[trigger] r@[j]).0,
        decreases end - i,
    {
        let ghost old_r = r@.push((cur, i));
        let ghost s = v@.subrange(start as int, i + 1);
        assert(s.drop_last() =~= v@.subrange(start as int, i as int));
        assert(s.last() == v@[i as int]);
        if v[i] == c {
            r.push((cur, i));
            cur = i + 1;
            i = i + 1;
            proof {
                let parts = split_all(v@.subrange(start as int, i as int), c);
                assert(v@.subrange(cur as int, i as int) =~= Seq::<char>::empty());
                assert(r@.push((cur, i)) =~= old_r.push((cur, i)));
                assert forall|j: int| 0 <= j < r@.push((cur, i)).len() implies (#[trigger] r@.push(
                    (cur, i),
                )[j]).0 <= r@.push((cur, i))[j].1 <= v@.len() && v@.subrange(
                    r@.push((cur, i))[j].0 as int,
                    r@.push((cur, i))[j].1 as int,
                ) == parts[j] by {
                    if j < old_r.len() {
                        assert(r@.push((cur, i))[j] == old_r[j]);
                    }
                }
            }
        } else {
            i = i + 1;
            proof {
                let parts = split_all(v@.subrange(start as int, i as int), c);
                let prev = split_all(v@.subrange(start as int, (i - 1) as int), c);
                lemma_split_all_nonempty(v@.subrange(start as int, (i - 1) as int), c);
                assert(v@.subrange(cur as int, i as int) =~= v@.subrange(
                    cur as int,
                    (i - 1) as int,
                ).push(v@[i - 1]));
                assert forall|j: int| 0 <= j < r@.push((cur, i)).len() implies (#[trigger] r@.push(
                    (cur, i),
                )[j]).0 <= r@.push((cur, i))[j].1 <= v@.len() && v@.subrange(
                    r@.push((cur, i))[j].0 as int,
                    r@.push((cur, i))[j].1 as int,
                ) == parts[j] by {
                    if j < r@.len() {
                        assert(r@.push((cur, i))[j] == old_r[j]);
                    } else {
                        assert(old_r[j] == (cur, (i - 1) as usize));
                    }
                }
            }
        }
    }
    r.push((cur, i));
    r
}

/// `Ord` for strings: lexicographic order of the characters (for UTF-8 text
/// the same as the order of the bytes).
pub open spec fn seq_lt(a: Seq<char>, b: Seq<char>) -> bool
    decreases a.len(),
{
    if b.len() == 0 {
        false
    } else if a.len() == 0 {
        true
    } else if a[0] != b[0] {
        a[0] < b[0]
    } else {
        seq_lt(a.drop_first(), b.drop_first())
    }
}

pub proof fn lemma_seq_lt_irreflexive(a: Seq<char>)
    ensures
        !seq_lt(a, a),
    decreases a.len(),
{
    if a.len() > 0 {
        lemma_seq_lt_irreflexive(a.drop_first());
    }
}

pub proof fn lemma_seq_lt_transitive(a: Seq<char>, b: Seq<char>, c: Seq<char>)
    requires
        seq_lt(a, b),
        seq_lt(b, c),
    ensures
        seq_lt(a, c),
    decreases a.len(),
{
    if a.len() > 0 && b.len() > 0 && c.len() > 0 && a[0] == b[0] && b[0] == c[0] {
        lemma_seq_lt_transitive(a.drop_first(), b.drop_first(), c.drop_first());
    }
}

/// Of two different strings one is below the other.
pub proof fn lemma_seq_lt_total(a: Seq<char>, b: Seq<char>)
    ensures
        a != b ==> seq_lt(a, b) || seq_lt(b, a),
    decreases a.len(),
{
    if a.len() > 0 && b.len() > 0 && a[0] == b[0] {
        lemma_seq_lt_total(a.drop_first(), b.drop_first());
        if a.drop_first() == b.drop_first() {
            assert(a =~= seq![a[0]] + a.drop_first());
            assert(b =~= seq![b[0]] + b.drop_first());
        }
    } else if a.len() == 0 && b.len() == 0 {
        assert(a =~= b);
    }
}

/// Whether `a` sorts strictly before `b`.
pub fn str_lt(a: &str, b: &str) -> (r: bool)
    ensures
        r == seq_lt(a@, b@),
{
    let x = chars_of(a);
    let y = chars_of(b);
    let mut i: usize = 0;
    assert(x@.skip(0) =~= x@ && y@.skip(0) =~= y@);
    while i < x.len() && i < y.len() && x[i] == y[i]
        invariant
            i <= x@.len() && i <= y@.len(),
            seq_lt(x@, y@) == seq_lt(x@.skip(i as int), y@.skip(i as int)),
        decreases x@.len() - i,
    {
        assert(x@.skip(i as int).drop_first() =~= x@.skip(i + 1));
        assert(y@.skip(i as int).drop_first() =~= y@.skip(i + 1));
        i = i + 1;
    }
    if i == y.len() {
        false
    } else if i == x.len() {
        true
    } else {
        x[i] < y[i]
    }
}

/// The length of the run of non-whitespace characters that starts `t`.
pub open spec fn word_len(t: Seq<char>) -> nat
    decreases t.len(),
{
    if t.len() == 0 || is_ws(t[0]) {
        0
    } else {
        1 + word_len(t.drop_first())
    }
}

/// The `k`-th (from 0) whitespace-separated word, as `split_whitespace`
/// yields it.
pub open spec fn word_at(s: Seq<char>, k: nat) -> Option<Seq<char>>
    decreases k,
{
    let t = trim_start(s);
    if t.len() == 0 {
        None
    } else if k == 0 {
        Some(t.take(word_len(t) as int))
    } else {
        word_at(t.skip(word_len(t) as int), (k - 1) as nat)
    }
}

pub proof fn lemma_word_len_bound(t: Seq<char>)
    ensures
        word_len(t) <= t.len(),
        t.len() > 0 && !is_ws(t[0]) ==> word_len(t) >= 1,
    decreases t.len(),
{
    if t.len() > 0 && !is_ws(t[0]) {
        lemma_word_len_bound(t.drop_first());
    }
}

/// The first position at or after `pos` that is not whitespace.
pub fn skip_ws(v: &Vec<char>, pos: usize, end: usize) -> (p: usize)
    requires
        pos <= end <= v@.len(),
    ensures
        pos <= p <= end,
        v@.subrange(p as int, end as int) == trim_start(v@.subrange(pos as int, end as int)),
{
    let mut p = pos;
    while p < end && char_is_ws(v[p])
        invariant
            pos <= p <= end <= v@.len(),
            trim_start(v@.subrange(pos as int, end as int)) == trim_start(v@.subrange(p as int, end as int)),
        decreases end - p,
    {
        assert(v@.subrange(p as int, end as int).drop_first() =~= v@.subrange(p + 1, end as int));
        p = p + 1;
    }
    p
}

/// The end of the word that starts at `pos`.
pub fn word_end(v: &Vec<char>, pos: usize, end: usize) -> (q: usize)
    requires
        pos <= end <= v@.len(),
    ensures
        pos <= q <= end,
        q - pos == word_len(v@.subrange(pos as int, end as int)),
{
    let mut q = pos;
    while q < end && !char_is_ws(v[q])
        invariant
            pos <= q <= end <= v@.len(),
            word_len(v@.subrange(pos as int, end as int)) == (q - pos) + word_len(v@.subrange(q as int, end as int)),
        decreases end - q,
    {
        assert(v@.subrange(q as int, end as int).drop_first() =~= v@.subrange(q + 1, end as int));
        q = q + 1;
    }
    q
}

/// The bounds of the `k`-th whitespace-separated word of `v[start..end]`.
pub fn nth_word(v: &Vec<char>, start: usize, end: usize, k: usize) -> (r: Option<(usize, usize)>)
    requires
        start <= end <= v@.len(),
    ensures
        match word_at(v@.subrange(start as int, end as int), k as nat) {
            Some(w) => r matches Some((a, b)) && a <= b <= end && v@.subrange(a as int, b as int) == w,
            None => r is None,
        },
{
    let mut pos = start;
    let mut n: usize = 0;
    while n <= k
        invariant
            start <= pos <= end <= v@.len(),
            n <= k,
            word_at(v@.subrange(start as int, end as int), k as nat) == word_at(v@.subrange(pos as int, end as int), (k - n) as nat),
        decreases k + 1 - n,
    {
        let p = skip_ws(v, pos, end);
        let ghost t = v@.subrange(p as int, end as int);
        assert(t == trim_start(v@.subrange(pos as int, end as int)));
        if p == end {
            assert(t.len() == 0);
            return None;
        }
        let q = word_end(v, p, end);
        proof {
            lemma_trim_start_is_suffix(v@.subrange(pos as int, end as int));
            assert(trim_start(t) == t) by {
                let kk = choose|kk: int| 0 <= kk <= v@.subrange(pos as int, end as int).len() && #[trigger] trim_start(v@.subrange(pos as int, end as int)) == v@.subrange(pos as int, end as int).subrange(kk, (end - pos) as int) && (forall|j: int| 0 <= j < kk ==> is_ws(v@.subrange(pos as int, end as int)[j])) && (kk < v@.subrange(pos as int, end as int).len() ==> !is_ws(v@.subrange(pos as int, end as int)[kk]));
                assert(t.len() > 0 ==> !is_ws(t[0]));
            }
        }
        if n == k {
            assert(v@.subrange(p as int, q as int) =~= t.take(word_len(t) as int));
            return Some((p, q));
        }
        assert(t.skip(word_len(t) as int) =~= v@.subrange(q as int, end as int));
        pos = q;
        n = n + 1;
    }
    proof {
        assert(false);
    }
    None
}

/// The position that `rsplit_once` splits `v[start..end]` at.
pub fn rsplit_once_in(v: &Vec<char>, start: usize, end: usize, c: char) -> (r: Option<usize>)
    requires
        start <= end <= v@.len(),
    ensures
        match rsplit_once_spec(v@.subrange(start as int, end as int), c) {
            Some((a, b)) => r matches Some(i) && start <= i < end && a == v@.subrange(start as int, i as int)
                && b == v@.subrange(i + 1, end as int),
            None => r is None,
        },
{
    let ghost s = v@.subrange(start as int, end as int);
    let mut i = end;
    while i > start
        invariant
            start <= i <= end <= v@.len(),
            s == v@.subrange(start as int, end as int),
            forall|j: int| i <= j < end ==> v@[j] != c,
        decreases i - start,
    {
        if v[i - 1] == c {
            let k = i - 1;
            proof {
                assert(s[k - start] == c);
                assert(s.contains(c));
                let m = choose|m: int| 0 <= m < s.len() && s[m] == c && forall|j: int| m < j < s.len() ==> s[j] != c;
                assert forall|j: int| (k - start) < j < s.len() implies s[j] != c by {
                    assert(s[j] == v@[start + j]);
                }
                lemma_last_index_unique(s, c, (k - start) as int, m);
                assert(s.subrange(0, (k - start) as int) =~= v@.subrange(start as int, k as int));
                assert(s.subrange((k - start) + 1, s.len() as int) =~= v@.subrange(k + 1, end as int));
            }
            return Some(k);
        }
        i = i - 1;
    }
    assert forall|j: int| 0 <= j < s.len() implies s[j] != c by {
        assert(s[j] == v@[start + j]);
    }
    None
}

proof fn lemma_split_once_in(v: Seq<char>, start: int, end: int, c: char, i: int)
    requires
        0 <= start <= i < end <= v.len(),
        v[i] == c,
        forall|j: int| start <= j < i ==> v[j] != c,
    ensures
        split_once_spec(v.subrange(start, end), c) == Some(
            (v.subrange(start, i), v.subrange(i + 1, end)),
        ),
{
    let s = v.subrange(start, end);
    assert(s[i - start] == c);
    assert(s.contains(c));
    let m = choose|m: int| 0 <= m < s.len() && s[m] == c && forall|j: int| 0 <= j < m ==> s[j] != c;
    assert forall|j: int| 0 <= j < i - start implies s[j] != c by {
        assert(s[j] == v[start + j]);
    }
    lemma_first_index_unique(s, c, i - start, m);
    assert(s.subrange(0, i - start) =~= v.subrange(start, i));
    assert(s.subrange(i - start + 1, s.len() as int) =~= v.subrange(i + 1, end));
}

/// The position that `split_once` splits `v[start..end]` at.
pub fn split_once_in(v: &Vec<char>, start: usize, end: usize, c: char) -> (r: Option<usize>)
    requires
        start <= end <= v@.len(),
    ensures
        match split_once_spec(v@.subrange(start as int, end as int), c) {
            Some((a, b)) => r matches Some(i) && start <= i < end && a == v@.subrange(start as int, i as int)
                && b == v@.subrange(i + 1, end as int),
            None => r is None,
        },
{
    match find_char(v, c, start) {
        Some(i) => if i < end {
            proof {
                lemma_split_once_in(v@, start as int, end as int, c, i as int);
            }
            return Some(i);
        },
        None => {},
    }
    let ghost s = v@.subrange(start as int, end as int);
    assert forall|j: int| 0 <= j < s.len() implies s[j] != c by {
        assert(s[j] == v@[start + j]);
    }
    None
}

} // verus!
