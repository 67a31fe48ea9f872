//! Putting rows in order: a stable sort of row positions under any ranking
//! that is total and transitive, and the two rankings that the registry uses.

use vstd::prelude::*;
use crate::foreign::{order_versions, semver_order};
use crate::model::Version;
use crate::registry::is_version_number;

verus! {

/// A ranking of the rows `0..size()` of some table.
pub trait Ranking {
    /// The number of rows.
    spec fn size(&self) -> nat;

    /// What must hold of the table for its rows to be ranked.
    spec fn valid(&self) -> bool;

    /// Whether row `a` ranks before row `b` or level with it.
    spec fn no_later(&self, a: int, b: int) -> bool;

    /// Compares two rows. With each answer comes what makes the ranking
    /// usable for sorting: of two rows one is no later than the other, and
    /// what is no later than `a` is no later than anything `a` is no later
    /// than.
    fn ranks_no_later(&self, a: usize, b: usize) -> (r: bool)
        requires
            self.valid(),
            a < self.size(),
            b < self.size(),
        ensures
            r == self.no_later(a as int, b as int),
            !r ==> self.no_later(b as int, a as int),
            r ==> forall|c: int|
                0 <= c < self.size() && #[trigger] self.no_later(c, a as int) ==> self.no_later(
                    c,
                    b as int,
                ),
    ;
}

/// The positions rise from left to right.
pub open spec fn rising(s: Seq<usize>) -> bool {
    forall|i: int, j: int| 0 <= i < j < s.len() ==> s[i] < s[j]
}

/// `out` is in the order of the ranking, and rows that rank level keep the
/// order of their positions.
pub open spec fn ranked<R: Ranking>(r: &R, out: Seq<usize>) -> bool {
    forall|i: int, j: int|
        0 <= i < j < out.len() ==> r.no_later(out[i] as int, out[j] as int) && (r.no_later(
            out[j] as int,
            out[i] as int,
        ) ==> out[i] < out[j])
}

/// `out` holds the positions that `picked` holds, each once.
pub open spec fn rearranged(out: Seq<usize>, picked: Seq<usize>) -> bool {
    &&& out.len() == picked.len()
    &&& forall|i: int| 0 <= i < out.len() ==> picked.contains(#[trigger] out[i])
    &&& forall|i: int| 0 <= i < picked.len() ==> out.contains(#[trigger] picked[i])
    &&& forall|i: int, j: int| 0 <= i < j < out.len() ==> out[i] != out[j]
}

/// The positions `picked`, put in the order of the ranking `r`. Rows that rank
/// level stay in the order of their positions.
pub fn sort_positions<R: Ranking>(r: &R, picked: &Vec<usize>) -> (out: Vec<usize>)
    requires
        r.valid(),
        rising(picked@),
        forall|i: int| 0 <= i < picked.len() ==> picked[i] < r.size(),
    ensures
        rearranged(out@, picked@),
        ranked(r, out@),
{
    let mut out: Vec<usize> = Vec::new();
    let mut m: usize = 0;
    while m < picked.len()
        invariant
            m <= picked.len(),
            r.valid(),
            rising(picked@),
            forall|i: int| 0 <= i < picked.len() ==> picked[i] < r.size(),
            rearranged(out@, picked@.subrange(0, m as int)),
            ranked(r, out@),
        decreases picked.len() - m,
    {
        let k = picked[m];
        let ghost before = out@;
        let ghost taken = picked@.subrange(0, m as int);
        proof {
            assert forall|i: int| 0 <= i < before.len() implies #[trigger] before[i] < k by {
                assert(taken.contains(before[i]));
                let w = choose|w: int| 0 <= w < taken.len() && taken[w] == before[i];
                assert(picked[w] == before[i]);
            }
        }
        let mut p: usize = out.len();
        while p > 0 && !r.ranks_no_later(out[p - 1], k)
            invariant
                p <= out.len(),
                out@ == before,
                r.valid(),
                k < r.size(),
                forall|i: int| 0 <= i < before.len() ==> #[trigger] before[i] < k,
                forall|i: int| 0 <= i < before.len() ==> #[trigger] before[i] < r.size(),
                forall|j: int|
                    p <= j < before.len() ==> r.no_later(k as int, #[trigger] before[j] as int)
                        && !r.no_later(before[j] as int, k as int),
            decreases p,
        {
            p = p - 1;
        }
        proof {
            if p > 0 {
                assert(r.no_later(before[p - 1] as int, k as int));
                assert forall|i: int| 0 <= i < p implies r.no_later(
                    #[trigger] before[i] as int,
                    k as int,
                ) by {
                    if i < p - 1 {
                        assert(r.no_later(before[i] as int, before[p - 1] as int));
                    }
                }
            }
        }
        out.insert(p, k);
        proof {
            let after = out@;
            let grown = picked@.subrange(0, m + 1);
            assert(after == before.insert(p as int, k));
            assert forall|i: int|
                0 <= i < after.len() implies grown.contains(#[trigger] after[i]) by {
                if i == p {
                    assert(grown[m as int] == k);
                } else {
                    let o = if i < p {
                        i
                    } else {
                        i - 1
                    };
                    assert(after[i] == before[o]);
                    assert(taken.contains(before[o]));
                    let w = choose|w: int| 0 <= w < taken.len() && taken[w] == before[o];
                    assert(grown[w] == before[o]);
                }
            }
            assert forall|i: int|
                0 <= i < grown.len() implies after.contains(#[trigger] grown[i]) by {
                if i == m {
                    assert(after[p as int] == k);
                } else {
                    assert(taken[i] == grown[i]);
                    assert(before.contains(taken[i]));
                    let w = choose|w: int| 0 <= w < before.len() && before[w] == taken[i];
                    if w < p {
                        assert(after[w] == before[w]);
                    } else {
                        assert(after[w + 1] == before[w]);
                    }
                }
            }
            assert forall|i: int, j: int| 0 <= i < j < after.len() implies after[i] != after[j]
                && r.no_later(after[i] as int, after[j] as int) && (r.no_later(
                after[j] as int,
                after[i] as int,
            ) ==> after[i] < after[j]) by {
                let oi = if i < p {
                    i
                } else {
                    i - 1
                };
                let oj = if j < p {
                    j
                } else {
                    j - 1
                };
                if i != p {
                    assert(after[i] == before[oi]);
                }
                if j != p {
                    assert(after[j] == before[oj]);
                }
            }
        }
        m = m + 1;
    }
    assert(picked@.subrange(0, m as int) == picked@);
    out
}

/// The versions of a table, greatest first.
pub struct GreatestFirst<'a> {
    pub rows: &'a Vec<Version>,
}

impl<'a> Ranking for GreatestFirst<'a> {
    open spec fn size(&self) -> nat {
        self.rows@.len()
    }

    open spec fn valid(&self) -> bool {
        forall|i: int|
            0 <= i < self.rows@.len() ==> is_version_number((#[trigger] self.rows@[i]).num@)
    }

    open spec fn no_later(&self, a: int, b: int) -> bool {
        semver_order(self.rows@[a].num@, self.rows@[b].num@) >= 0
    }

    fn ranks_no_later(&self, a: usize, b: usize) -> (r: bool) {
        order_versions(self.rows[a].num.as_str(), self.rows[b].num.as_str()) >= 0
    }
}

/// Whether `a` comes before `b` in a dictionary that goes by the code points
/// of the characters, or is `b`.
pub open spec fn text_le(a: Seq<char>, b: Seq<char>) -> bool
    decreases a.len(),
{
    if a.len() == 0 {
        true
    } else if b.len() == 0 {
        false
    } else if a[0] != b[0] {
        a[0] < b[0]
    } else {
        text_le(a.drop_first(), b.drop_first())
    }
}

/// Of two texts one is no later than the other.
pub proof fn lemma_text_le_total(a: Seq<char>, b: Seq<char>)
    ensures
        text_le(a, b) || text_le(b, a),
    decreases a.len(),
{
    if a.len() > 0 && b.len() > 0 && a[0] == b[0] {
        lemma_text_le_total(a.drop_first(), b.drop_first());
    }
}

/// The dictionary order carries over.
pub proof fn lemma_text_le_transitive(a: Seq<char>, b: Seq<char>, c: Seq<char>)
    requires
        text_le(a, b),
        text_le(b, c),
    ensures
        text_le(a, c),
    decreases a.len(),
{
    if a.len() > 0 && b.len() > 0 && c.len() > 0 && a[0] == b[0] && b[0] == c[0] {
        lemma_text_le_transitive(a.drop_first(), b.drop_first(), c.drop_first());
    }
}

/// Whether `a` comes before `b` in the dictionary, or is `b`.
pub fn chars_le(a: &Vec<char>, b: &Vec<char>) -> (r: bool)
    ensures
        r == text_le(a@, b@),
{
    let mut i: usize = 0;
    assert(a@.skip(0) == a@ && b@.skip(0) == b@);
    while i < a.len() && i < b.len()
        invariant
            i <= a.len(),
            i <= b.len(),
            text_le(a@, b@) == text_le(a@.skip(i as int), b@.skip(i as int)),
        decreases a.len() - i,
    {
        assert(a@.skip(i as int).drop_first() == a@.skip(i + 1));
        assert(b@.skip(i as int).drop_first() == b@.skip(i + 1));
        assert(a@.skip(i as int)[0] == a@[i as int]);
        assert(b@.skip(i as int)[0] == b@[i as int]);
        if a[i] != b[i] {
            return a[i] < b[i];
        }
        i = i + 1;
    }
    i == a.len()
}

/// What a row is ranked by: two numbers and a text, each rising, the first
/// number weighing most and the text least.
#[derive(Debug)]
pub struct RankKey {
    pub first: i64,
    pub second: i64,
    pub text: Vec<char>,
}

/// What a key holds.
pub struct KeyView {
    pub first: int,
    pub second: int,
    pub text: Seq<char>,
}

impl View for RankKey {
    type V = KeyView;

    open spec fn view(&self) -> KeyView {
        KeyView { first: self.first as int, second: self.second as int, text: self.text@ }
    }
}

/// Whether the key `a` ranks before the key `b` or level with it.
pub open spec fn key_le(a: KeyView, b: KeyView) -> bool {
    a.first < b.first || (a.first == b.first && (a.second < b.second || (a.second == b.second
        && text_le(a.text, b.text))))
}

/// `pos` is in the order of the keys of its rows, and rows whose keys rank
/// level are in the order of their positions.
pub open spec fn in_key_order(keys: Seq<KeyView>, pos: Seq<usize>) -> bool {
    forall|i: int, j: int|
        0 <= i < j < pos.len() ==> key_le(keys[pos[i] as int], keys[pos[j] as int]) && (key_le(
            keys[pos[j] as int],
            keys[pos[i] as int],
        ) ==> pos[i] < pos[j])
}

/// What a list of keys holds.
pub open spec fn key_views(keys: Seq<RankKey>) -> Seq<KeyView> {
    Seq::new(keys.len(), |i: int| keys[i]@)
}

/// Rows ranked by their keys.
pub struct ByKey {
    pub keys: Vec<RankKey>,
}

impl Ranking for ByKey {
    open spec fn size(&self) -> nat {
        self.keys@.len()
    }

    open spec fn valid(&self) -> bool {
        true
    }

    open spec fn no_later(&self, a: int, b: int) -> bool {
        key_le(self.keys@[a]@, self.keys@[b]@)
    }

    fn ranks_no_later(&self, a: usize, b: usize) -> (r: bool) {
        let x = &self.keys[a];
        let y = &self.keys[b];
        let r = if x.first != y.first {
            x.first < y.first
        } else if x.second != y.second {
            x.second < y.second
        } else {
            chars_le(&x.text, &y.text)
        };
        proof {
            lemma_text_le_total(x.text@, y.text@);
            if r {
                assert forall|c: int|
                    0 <= c < self.size() && #[trigger] self.no_later(c, a as int) implies self.no_later(
                    c,
                    b as int,
                ) by {
                    let z = self.keys@[c];
                    if z.first == x.first && x.first == y.first && z.second == x.second && x.second
                        == y.second {
                        lemma_text_le_transitive(z.text@, x.text@, y.text@);
                    }
                }
            }
        }
        r
    }
}

/// The positions `picked`, put in the order of the keys of their rows.
pub fn sort_by_keys(keys: Vec<RankKey>, picked: &Vec<usize>) -> (out: Vec<usize>)
    requires
        rising(picked@),
        forall|i: int| 0 <= i < picked.len() ==> picked[i] < keys.len(),
    ensures
        rearranged(out@, picked@),
        in_key_order(key_views(keys@), out@),
        forall|k: int| 0 <= k < out@.len() ==> #[trigger] out@[k] < keys.len(),
{
    let ranking = ByKey { keys };
    let out = sort_positions(&ranking, picked);
    proof {
        assert forall|k: int|
            0 <= k < out@.len() implies #[trigger] out@[k] < ranking.keys.len() by {
            assert(picked@.contains(out@[k]));
        }
        assert forall|i: int, j: int| 0 <= i < j < out@.len() implies key_le(
            key_views(ranking.keys@)[out@[i] as int],
            key_views(ranking.keys@)[out@[j] as int],
        ) && (key_le(
            key_views(ranking.keys@)[out@[j] as int],
            key_views(ranking.keys@)[out@[i] as int],
        ) ==> out@[i] < out@[j]) by {
            assert(ranking.no_later(out@[i] as int, out@[j] as int));
        }
    }
    out
}

/// The positions below `n` that `keep` holds of, rising.
pub open spec fn positions_where(n: int, keep: spec_fn(int) -> bool) -> Seq<usize>
    decreases n,
{
    if n <= 0 {
        Seq::empty()
    } else if keep(n - 1) {
        positions_where(n - 1, keep).push((n - 1) as usize)
    } else {
        positions_where(n - 1, keep)
    }
}

/// `positions_where` holds each position that `keep` holds of, once, and no
/// other; the positions rise.
pub proof fn lemma_positions_where(n: int, keep: spec_fn(int) -> bool)
    requires
        0 <= n <= usize::MAX,
    ensures
        rising(positions_where(n, keep)),
        positions_where(n, keep).len() <= n,
        forall|k: int|
            0 <= k < positions_where(n, keep).len() ==> (#[trigger] positions_where(n, keep)[k]) < n
                && keep(positions_where(n, keep)[k] as int),
        forall|i: int|
            0 <= i < n && #[trigger] keep(i) ==> positions_where(n, keep).contains(i as usize),
    decreases n,
{
    if n > 0 {
        lemma_positions_where(n - 1, keep);
        let less = positions_where(n - 1, keep);
        let all = positions_where(n, keep);
        if keep(n - 1) {
            assert(all == less.push((n - 1) as usize));
            assert forall|i: int|
                0 <= i < n && #[trigger] keep(i) implies all.contains(i as usize) by {
                if i < n - 1 {
                    let w = choose|w: int| 0 <= w < less.len() && less[w] == i as usize;
                    assert(all[w] == i as usize);
                } else {
                    assert(all[less.len() as int] == i as usize);
                }
            }
        } else {
            assert(all == less);
        }
    }
}

/// The part of `s` that a page shows: `limit` items at most, from `offset` on.
pub open spec fn page_of<T>(s: Seq<T>, offset: int, limit: int) -> Seq<T> {
    let lo = if offset < 0 {
        0
    } else if offset > s.len() {
        s.len() as int
    } else {
        offset
    };
    let hi = if limit <= 0 {
        lo
    } else if lo + limit > s.len() {
        s.len() as int
    } else {
        lo + limit
    };
    s.subrange(lo, hi)
}

/// The bounds of a page within `n` items.
pub fn page_bounds(n: usize, offset: i64, limit: i64) -> (r: (usize, usize))
    ensures
        r.0 <= r.1 <= n,
        forall|s: Seq<usize>|
            s.len() == n ==> #[trigger] page_of(s, offset as int, limit as int) == s.subrange(r.0 as int, r.1 as int),
{
    let lo: usize = if offset < 0 {
        0
    } else if offset as u64 > n as u64 {
        n
    } else {
        offset as usize
    };
    let hi: usize = if limit <= 0 {
        lo
    } else if limit as u64 > (n - lo) as u64 {
        n
    } else {
        lo + (limit as usize)
    };
    (lo, hi)
}

} // verus!
