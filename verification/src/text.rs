//! Small tools on strings, stated over their sequences of characters.

use vstd::prelude::*;

verus! {

/// The characters of `s`, in order.
pub fn chars_of(s: &str) -> (v: Vec<char>)
    ensures
        v@ == s@,
{
    let n = s.unicode_len();
    let mut v: Vec<char> = Vec::new();
    let mut i: usize = 0;
    while i < n
        invariant
            n == s@.len(),
            i <= n,
            v@ == s@.subrange(0, i as int),
        decreases n - i,
    {
        let c = s.get_char(i);
        v.push(c);
        i = i + 1;
        assert(v@ == s@.subrange(0, i as int));
    }
    assert(s@.subrange(0, n as int) == s@);
    v
}

/// `String::from_iter` over the characters of a vector: the string that holds
/// exactly those characters, in order.
#[verifier::external_body]
pub(crate) fn string_from_chars(v: &Vec<char>) -> (s: String)
    ensures
        s@ == v@,
{
    v.iter().collect()
}

/// Whether two strings hold the same characters.
pub fn same_text(a: &str, b: &str) -> (r: bool)
    ensures
        r == (a@ == b@),
{
    let x = a.to_owned();
    let y = b.to_owned();
    x == y
}

/// A copy of an optional string.
pub fn clone_opt(o: &Option<String>) -> (r: Option<String>)
    ensures
        r == *o,
{
    match o {
        Some(s) => Some(s.clone()),
        None => None,
    }
}

/// A copy of a list of strings.
pub fn clone_strings(v: &Vec<String>) -> (r: Vec<String>)
    ensures
        r@ == v@,
{
    let mut out: Vec<String> = Vec::new();
    let mut i: usize = 0;
    while i < v.len()
        invariant
            i <= v.len(),
            out@ == v@.subrange(0, i as int),
        decreases v.len() - i,
    {
        out.push(v[i].clone());
        i = i + 1;
        assert(out@ == v@.subrange(0, i as int));
    }
    assert(v@.subrange(0, v.len() as int) == v@);
    out
}

/// The text of an optional string, if there is one.
pub open spec fn opt_text(o: Option<String>) -> Option<Seq<char>> {
    match o {
        Some(s) => Some(s@),
        None => None,
    }
}

/// The text of an optional string slice, if there is one.
pub open spec fn opt_str_text(o: Option<&str>) -> Option<Seq<char>> {
    match o {
        Some(s) => Some(s@),
        None => None,
    }
}

/// An owned copy of an optional string slice.
pub fn own_opt(o: Option<&str>) -> (r: Option<String>)
    ensures
        opt_text(r) == opt_str_text(o),
{
    match o {
        Some(s) => Some(s.to_owned()),
        None => None,
    }
}

/// The decimal digits of `n`, most significant first.
pub open spec fn decimal_text(n: nat) -> Seq<char>
    decreases n,
{
    if n < 10 {
        seq![digit_char(n)]
    } else {
        decimal_text(n / 10).push(digit_char(n % 10))
    }
}

/// The character for a digit below ten.
pub open spec fn digit_char(d: nat) -> char {
    (('0' as u8) + (d as u8)) as char
}

/// `n` written in decimal.
pub fn decimal(n: u64) -> (r: String)
    ensures
        r@ == decimal_text(n as nat),
{
    let mut rev: Vec<char> = Vec::new();
    let mut m: u64 = n;
    // digits from the least significant up
    while m >= 10
        invariant
            decimal_text(n as nat) == decimal_text(m as nat) + rev@.reverse(),
        decreases m,
    {
        let d: u8 = (m % 10) as u8;
        let c: char = (48u8 + d) as char;
        proof {
            assert(c == digit_char((m % 10) as nat));
            assert(decimal_text(m as nat) == decimal_text((m / 10) as nat).push(c));
            assert(rev@.push(c).reverse() =~= seq![c] + rev@.reverse());
            assert(decimal_text((m / 10) as nat).push(c) + rev@.reverse() =~= decimal_text(
                (m / 10) as nat,
            ) + rev@.push(c).reverse());
        }
        rev.push(c);
        m = m / 10;
    }
    let c: char = (48u8 + (m as u8)) as char;
    proof {
        assert(c == digit_char(m as nat));
        assert(decimal_text(m as nat) == seq![c]);
        assert(rev@.push(c).reverse() =~= seq![c] + rev@.reverse());
    }
    rev.push(c);
    let mut out: Vec<char> = Vec::new();
    let mut i: usize = rev.len();
    while i > 0
        invariant
            i <= rev.len(),
            out.len() == rev.len() - i,
            forall|j: int| 0 <= j < out.len() ==> out[j] == rev[rev.len() - 1 - j],
        decreases i,
    {
        i = i - 1;
        out.push(rev[i]);
    }
    assert(out@ =~= rev@.reverse());
    string_from_chars(&out)
}

/// Whether all of `s` are digits from `0` to `9`.
pub open spec fn all_digits(s: Seq<char>) -> bool {
    forall|i: int| 0 <= i < s.len() ==> '0' <= #[trigger] s[i] <= '9'
}

/// The number that the digits `s` write in decimal.
pub open spec fn digits_value(s: Seq<char>) -> int
    decreases s.len(),
{
    if s.len() == 0 {
        0
    } else {
        10 * digits_value(s.drop_last()) + (s.last() as int - '0' as int)
    }
}

/// Whether `s` starts with a sign.
pub open spec fn has_sign(s: Seq<char>) -> bool {
    s.len() > 0 && (s[0] == '+' || s[0] == '-')
}

/// The digits of `s`: all of it but its sign.
pub open spec fn unsigned_part(s: Seq<char>) -> Seq<char> {
    if has_sign(s) {
        s.drop_first()
    } else {
        s
    }
}

/// The whole number that `s` writes: a sign or none, then digits and nothing
/// else, with a value that a 32-bit number holds.
pub open spec fn whole_number(s: Seq<char>) -> Option<i32> {
    let body = unsigned_part(s);
    let value = if has_sign(s) && s[0] == '-' {
        -digits_value(body)
    } else {
        digits_value(body)
    };
    if body.len() > 0 && all_digits(body) && i32::MIN <= value <= i32::MAX {
        Some(value as i32)
    } else {
        None
    }
}

/// More digits do not write a smaller number.
proof fn lemma_digits_grow(s: Seq<char>, k: int)
    requires
        all_digits(s),
        0 <= k <= s.len(),
    ensures
        0 <= digits_value(s.subrange(0, k)) <= digits_value(s),
    decreases s.len() - k,
{
    if k == s.len() {
        assert(s.subrange(0, k) == s);
        lemma_digits_not_negative(s);
    } else {
        lemma_digits_grow(s, k + 1);
        let longer = s.subrange(0, k + 1);
        assert(longer.drop_last() == s.subrange(0, k));
        assert(longer.last() == s[k]);
        lemma_digits_not_negative_part(s, k);
    }
}

proof fn lemma_digits_not_negative_part(s: Seq<char>, k: int)
    requires
        all_digits(s),
        0 <= k <= s.len(),
    ensures
        0 <= digits_value(s.subrange(0, k)),
{
    let part = s.subrange(0, k);
    assert forall|i: int| 0 <= i < part.len() implies '0' <= #[trigger] part[i] <= '9' by {
        assert(part[i] == s[i]);
    }
    lemma_digits_not_negative(part);
}

proof fn lemma_digits_not_negative(s: Seq<char>)
    requires
        all_digits(s),
    ensures
        0 <= digits_value(s),
    decreases s.len(),
{
    if s.len() > 0 {
        assert forall|i: int| 0 <= i < s.drop_last().len() implies '0' <= #[trigger] s.drop_last()[i]
            <= '9' by {
            assert(s.drop_last()[i] == s[i]);
        }
        lemma_digits_not_negative(s.drop_last());
    }
}

/// The whole number that `s` writes, if it writes one.
pub fn parse_whole(s: &str) -> (r: Option<i32>)
    ensures
        r == whole_number(s@),
{
    let v = chars_of(s);
    let n = v.len();
    if n == 0 {
        return None;
    }
    let signed = v[0] == '+' || v[0] == '-';
    let negative = v[0] == '-';
    let start: usize = if signed {
        1
    } else {
        0
    };
    let ghost body = unsigned_part(v@);
    assert(body == v@.subrange(start as int, n as int));
    if start == n {
        return None;
    }
    let mut acc: i64 = 0;
    let mut i: usize = start;
    assert(body.subrange(0, 0).len() == 0);
    while i < n
        invariant
            start <= i <= n,
            n == v.len(),
            v@ == s@,
            body == unsigned_part(s@),
            body == v@.subrange(start as int, n as int),
            forall|j: int| 0 <= j < i - start ==> '0' <= #[trigger] body[j] <= '9',
            acc == digits_value(body.subrange(0, i - start)),
            0 <= acc <= 0x8000_0000,
        decreases n - i,
    {
        let c = v[i];
        assert(body[i - start] == c);
        if !('0' <= c && c <= '9') {
            return None;
        }
        let d: i64 = (c as u8 - 48u8) as i64;
        let next: i64 = acc * 10 + d;
        proof {
            let longer = body.subrange(0, i + 1 - start);
            assert(longer.drop_last() == body.subrange(0, i - start));
            assert(longer.last() == c);
        }
        if next > 0x8000_0000 {
            proof {
                if all_digits(body) {
                    lemma_digits_grow(body, i + 1 - start);
                }
            }
            return None;
        }
        acc = next;
        i = i + 1;
    }
    assert(body.subrange(0, n - start) == body);
    if negative {
        Some((0 - acc) as i32)
    } else if acc == 0x8000_0000 {
        None
    } else {
        Some(acc as i32)
    }
}

} // verus!
