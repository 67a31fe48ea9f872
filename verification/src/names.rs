//! Crate names: the canonical form under which a name is unique, and the
//! shapes that names of crates and of features may have.

use vstd::prelude::*;
use crate::text::{chars_of, string_from_chars};

verus! {

/// One character of a canonical name: ASCII capitals become small letters and
/// a hyphen becomes an underscore.
pub open spec fn canon_char(c: char) -> char {
    if 'A' <= c && c <= 'Z' {
        ((c as u8) + 32) as char
    } else if c == '-' {
        '_'
    } else {
        c
    }
}

/// The canonical form of a name. Two names stand for the same slot of the
/// registry exactly when their canonical forms are equal.
pub open spec fn canonicalize(name: Seq<char>) -> Seq<char> {
    Seq::new(name.len(), |i: int| canon_char(name[i]))
}

/// Whether two names stand for the same slot of the registry.
#[verifier::opaque]
pub open spec fn same_slot(a: Seq<char>, b: Seq<char>) -> bool {
    canonicalize(a) == canonicalize(b)
}

pub open spec fn is_ascii_letter(c: char) -> bool {
    ('a' <= c && c <= 'z') || ('A' <= c && c <= 'Z')
}

/// A character that may stand in a crate name.
pub open spec fn is_name_char(c: char) -> bool {
    is_ascii_letter(c) || ('0' <= c && c <= '9') || c == '_' || c == '-'
}

/// A crate name is not empty, starts with an ASCII letter and holds only
/// ASCII letters, digits, `_` and `-`.
pub open spec fn is_valid_name(name: Seq<char>) -> bool {
    &&& name.len() > 0
    &&& is_ascii_letter(name[0])
    &&& forall|i: int| 0 <= i < name.len() ==> is_name_char(#[trigger] name[i])
}

/// A feature name is a crate name, or two crate names with one `/` between.
pub open spec fn is_valid_feature_name(name: Seq<char>) -> bool {
    ||| is_valid_name(name)
    ||| exists|k: int|
        0 <= k < name.len() && #[trigger] name[k] == '/' && is_valid_name(name.subrange(0, k))
            && is_valid_name(name.subrange(k + 1, name.len() as int))
}

fn canon_char_exec(c: char) -> (r: char)
    ensures
        r == canon_char(c),
{
    if 'A' <= c && c <= 'Z' {
        ((c as u8) + 32) as char
    } else if c == '-' {
        '_'
    } else {
        c
    }
}

/// The canonical form of `name`.
pub fn canon_crate_name(name: &str) -> (r: String)
    ensures
        r@ == canonicalize(name@),
{
    let v = chars_of(name);
    let mut out: Vec<char> = Vec::new();
    let mut i: usize = 0;
    while i < v.len()
        invariant
            i <= v.len(),
            out.len() == i,
            forall|j: int| 0 <= j < i ==> out[j] == canon_char(v[j]),
        decreases v.len() - i,
    {
        out.push(canon_char_exec(v[i]));
        i = i + 1;
    }
    assert(out@ == canonicalize(v@));
    string_from_chars(&out)
}

/// Whether `a` and `b` have the same canonical form.
pub fn canon_eq(a: &str, b: &str) -> (r: bool)
    ensures
        r == same_slot(a@, b@),
{
    let x = canon_crate_name(a);
    let y = canon_crate_name(b);
    proof {
        reveal(same_slot);
    }
    x == y
}

fn is_ascii_letter_exec(c: char) -> (r: bool)
    ensures
        r == is_ascii_letter(c),
{
    ('a' <= c && c <= 'z') || ('A' <= c && c <= 'Z')
}

fn is_name_char_exec(c: char) -> (r: bool)
    ensures
        r == is_name_char(c),
{
    is_ascii_letter_exec(c) || ('0' <= c && c <= '9') || c == '_' || c == '-'
}

/// Whether the characters of `v` from `from` up to `to` form a crate name.
fn valid_name_in(v: &Vec<char>, from: usize, to: usize) -> (r: bool)
    requires
        from <= to <= v.len(),
    ensures
        r == is_valid_name(v@.subrange(from as int, to as int)),
{
    let ghost part = v@.subrange(from as int, to as int);
    if from == to {
        return false;
    }
    if !is_ascii_letter_exec(v[from]) {
        assert(part[0] == v[from as int]);
        return false;
    }
    assert(part[0] == v[from as int]);
    let mut i: usize = from;
    while i < to
        invariant
            from <= i <= to <= v.len(),
            part == v@.subrange(from as int, to as int),
            forall|j: int| 0 <= j < i - from ==> is_name_char(#[trigger] part[j]),
        decreases to - i,
    {
        if !is_name_char_exec(v[i]) {
            assert(part[i - from] == v[i as int]);
            return false;
        }
        assert(part[i - from] == v[i as int]);
        i = i + 1;
    }
    true
}

/// Whether `name` may be the name of a crate.
pub fn check_name(name: &str) -> (r: bool)
    ensures
        r == is_valid_name(name@),
{
    let v = chars_of(name);
    assert(v@.subrange(0, v.len() as int) == v@);
    valid_name_in(&v, 0, v.len())
}

/// Whether `name` may be the name of a feature.
pub fn check_feature_name(name: &str) -> (r: bool)
    ensures
        r == is_valid_feature_name(name@),
{
    let v = chars_of(name);
    let n = v.len();
    let mut k: usize = 0;
    while k < n && v[k] != '/'
        invariant
            k <= n,
            n == v.len(),
            forall|j: int| 0 <= j < k ==> v[j] != '/',
        decreases n - k,
    {
        k = k + 1;
    }
    assert(v@.subrange(0, n as int) == v@);
    if k == n {
        let r = valid_name_in(&v, 0, n);
        proof {
            assert(forall|j: int| 0 <= j < n ==> v@[j] != '/');
        }
        r
    } else {
        let r = valid_name_in(&v, 0, k) && valid_name_in(&v, k + 1, n);
        proof {
            assert(!is_name_char('/'));
            assert(!is_valid_name(v@)) by {
                assert(v@[k as int] == '/');
            }
            if r {
                assert(v@[k as int] == '/');
            } else {
                assert forall|j: int|
                    0 <= j < n && #[trigger] v@[j] == '/' && is_valid_name(v@.subrange(0, j))
                        && is_valid_name(v@.subrange(j + 1, n as int)) implies false by {
                    if j > k {
                        assert(v@.subrange(0, j)[k as int] == '/');
                    }
                }
            }
        }
        r
    }
}

/// Equal names fall into the same slot, and the slot relation is symmetric and
/// transitive.
pub proof fn lemma_same_slot_is_equivalence(a: Seq<char>, b: Seq<char>, c: Seq<char>)
    ensures
        same_slot(a, a),
        same_slot(a, b) == same_slot(b, a),
        same_slot(a, b) && same_slot(b, c) ==> same_slot(a, c),
{
    reveal(same_slot);
}

/// Names that differ only in the case of ASCII letters, or in `-` against `_`,
/// fall into the same slot.
pub proof fn lemma_case_and_hyphen_fold(a: Seq<char>, b: Seq<char>)
    requires
        a.len() == b.len(),
        forall|i: int| 0 <= i < a.len() ==> canon_char(#[trigger] a[i]) == canon_char(b[i]),
    ensures
        same_slot(a, b),
{
    reveal(same_slot);
    assert(canonicalize(a) =~= canonicalize(b));
}

} // verus!
