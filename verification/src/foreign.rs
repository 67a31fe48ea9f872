//! The calls this library makes into other crates. Each function here is
//! believed, not proved: its doc comment says what is claimed of the call.

use vstd::prelude::*;

verus! {

/// What the logic reads of a parsed URL.
pub struct UrlParts {
    pub scheme: String,
    pub cannot_be_a_base: bool,
}

/// What `url::Url::parse` makes of a string: `None` where it refuses the
/// string, else the scheme of the parsed URL and whether it cannot be a base.
pub uninterp spec fn parsed_url(s: Seq<char>) -> Option<(Seq<char>, bool)>;

/// Calls `url::Url::parse`, then `Url::scheme` and `Url::cannot_be_a_base` on
/// the outcome. Claimed: the outcome depends on the characters of `s` alone.
#[verifier::external_body]
pub(crate) fn parse_url(s: &str) -> (r: Option<UrlParts>)
    ensures
        match r {
            Some(p) => parsed_url(s@) == Some((p.scheme@, p.cannot_be_a_base)),
            None => parsed_url(s@) is None,
        },
{
    match url::Url::parse(s) {
        Ok(u) => Some(
            UrlParts { scheme: u.scheme().to_string(), cannot_be_a_base: u.cannot_be_a_base() },
        ),
        Err(_) => None,
    }
}

/// What `license_exprs::validate_license_expr` says of one expression: `None`
/// where it accepts it, else the text of its error.
pub uninterp spec fn license_refusal(s: Seq<char>) -> Option<Seq<char>>;

/// Calls `license_exprs::validate_license_expr` and renders its error, if any,
/// with `Display`. Claimed: the outcome depends on the characters of `part`
/// alone.
#[verifier::external_body]
pub(crate) fn check_license_expr(part: &str) -> (r: Option<String>)
    ensures
        match r {
            Some(e) => license_refusal(part@) == Some(e@),
            None => license_refusal(part@) is None,
        },
{
    match license_exprs::validate_license_expr(part) {
        Ok(()) => None,
        Err(e) => Some(format!("{}", e)),
    }
}

/// Whether `c` is one of `0` to `9`.
pub open spec fn is_digit(c: char) -> bool {
    '0' <= c && c <= '9'
}

/// How many digits stand in a row just before position `i` of `s`.
pub open spec fn digits_before(s: Seq<char>, i: int) -> nat
    decreases i,
{
    if i <= 0 || i > s.len() || !is_digit(s[i - 1]) {
        0
    } else {
        1 + digits_before(s, i - 1)
    }
}

/// Fewer than twenty digits stand in a row anywhere in `s`, so that every
/// number written in `s` is below `10^19` and fits in 64 bits.
pub open spec fn digit_runs_short(s: Seq<char>) -> bool {
    forall|i: int| 0 <= i <= s.len() ==> #[trigger] digits_before(s, i) < 20
}

/// Whether `semver::Version::parse` accepts a string.
pub uninterp spec fn semver_accepts(s: Seq<char>) -> bool;

/// Calls `semver::Version::parse` and tells whether it returned a version.
/// The parser unwraps the conversion of each number to `u64`, so strings with
/// a number of twenty digits or more are left out. Claimed: the answer depends
/// on the characters of `s` alone.
#[verifier::external_body]
pub(crate) fn version_parses(s: &str) -> (r: bool)
    requires
        digit_runs_short(s@),
    ensures
        r == semver_accepts(s@),
{
    semver::Version::parse(s).is_ok()
}

/// How `semver::Version` orders the versions that two strings parse to:
/// negative, zero or positive as the first is less than, equal to or greater
/// than the second.
pub uninterp spec fn semver_order(a: Seq<char>, b: Seq<char>) -> int;

/// What an order gives whenever it answers `r` for `a` against `b`: the
/// reverse question gets the reverse answer; and where `a` is no greater than
/// `b`, every version that is no greater than `a` is no greater than `b`, and
/// likewise with "no less".
pub open spec fn order_is_coherent(r: i8, a: Seq<char>, b: Seq<char>) -> bool {
    &&& semver_order(b, a) + r == 0
    &&& r <= 0 ==> forall|c: Seq<char>|
        semver_accepts(c) && #[trigger] semver_order(c, a) <= 0 ==> semver_order(c, b) <= 0
    &&& r >= 0 ==> forall|c: Seq<char>|
        semver_accepts(c) && #[trigger] semver_order(c, a) >= 0 ==> semver_order(c, b) >= 0
}

/// Parses both strings with `semver::Version::parse` and compares the versions
/// with `Ord`. Claimed: the answer is -1, 0 or 1 and depends on the characters
/// alone; and, as `Ord` promises of any total order, it is antisymmetric and
/// transitive.
#[verifier::external_body]
pub(crate) fn order_versions(a: &str, b: &str) -> (r: i8)
    requires
        digit_runs_short(a@),
        digit_runs_short(b@),
        semver_accepts(a@),
        semver_accepts(b@),
    ensures
        r == semver_order(a@, b@),
        -1 <= r <= 1,
        order_is_coherent(r, a@, b@),
{
    let x = semver::Version::parse(a).unwrap();
    let y = semver::Version::parse(b).unwrap();
    match x.cmp(&y) {
        std::cmp::Ordering::Less => -1,
        std::cmp::Ordering::Equal => 0,
        std::cmp::Ordering::Greater => 1,
    }
}

/// The lower-case hexadecimal digit of a value below sixteen.
pub open spec fn hex_digit(n: u8) -> char {
    if n < 10 {
        (('0' as u8) + n) as char
    } else {
        (('a' as u8) + (n - 10) as u8) as char
    }
}

/// Two lower-case hexadecimal digits for each byte, high half first.
pub open spec fn hex_text(bytes: Seq<u8>) -> Seq<char> {
    Seq::new(
        2 * bytes.len(),
        |i: int|
            if i % 2 == 0 {
                hex_digit(bytes[i / 2] / 16)
            } else {
                hex_digit(bytes[i / 2] % 16)
            },
    )
}

/// Calls `rustc_serialize::hex::ToHex::to_hex` on the bytes, which writes two
/// digits of `0123456789abcdef` per byte.
#[verifier::external_body]
pub(crate) fn hex_of(bytes: &Vec<u8>) -> (r: String)
    ensures
        r@ == hex_text(bytes@),
{
    rustc_serialize::hex::ToHex::to_hex(&bytes[..])
}

/// The last second that is written with a four-digit year.
pub const LAST_SECOND: i64 = 253402300799;

/// What `time::at_utc` and `Tm::rfc3339` write for a moment given in seconds
/// and nanoseconds since 1970.
pub uninterp spec fn rfc3339_utc(sec: int, nsec: int) -> Seq<char>;

/// Calls `time::at_utc` on a `Timespec` and renders `Tm::rfc3339` with
/// `Display`. `at_utc` panics where the C library cannot convert the moment,
/// so the moments are kept within the years 1970 to 9999. Claimed: the text
/// depends on the two numbers alone.
#[verifier::external_body]
pub(crate) fn format_rfc3339(sec: i64, nsec: i32) -> (r: String)
    requires
        0 <= sec <= LAST_SECOND,
        0 <= nsec < 1_000_000_000,
    ensures
        r@ == rfc3339_utc(sec as int, nsec as int),
{
    format!("{}", time::at_utc(time::Timespec { sec: sec, nsec: nsec }).rfc3339())
}

} // verus!
