//! What is filed with a crate besides its versions: keywords, categories and
//! badges. A publish request replaces all three.

use vstd::prelude::*;
use crate::listing::{lower_chars, lower_text};
use crate::model::{
    distinct_keys, keys_distinct,
    clone_attributes, Attribute, Badge, Category, Crate, CrateCategory, CrateKeyword, Keyword,
};
use crate::ranking::{lemma_positions_where, positions_where};
use crate::registry::{badges_wf, Registry};
use crate::text::{same_text, string_from_chars};
use crate::versions::{as_count, count_of};

verus! {

/// The rows of `rows` at the positions `pos`, in that order.
pub open spec fn pick<T>(rows: Seq<T>, pos: Seq<usize>) -> Seq<T> {
    Seq::new(pos.len(), |k: int| rows[pos[k] as int])
}

/// One more position picks one more row.
pub proof fn lemma_pick_push<T>(rows: Seq<T>, pos: Seq<usize>, i: usize)
    requires
        i < rows.len(),
    ensures
        pick(rows, pos.push(i)) == pick(rows, pos).push(rows[i as int]),
{
    assert(pick(rows, pos.push(i)) =~= pick(rows, pos).push(rows[i as int]));
}

/// The test that picks the keywords of the crate `id`, or those of all other
/// crates.
pub open spec fn keyword_of(links: Seq<CrateKeyword>, id: i32, own: bool) -> spec_fn(int) -> bool {
    |i: int| (links[i].crate_id == id) == own
}

/// The test that picks the categories of the crate `id`, or those of all
/// other crates.
pub open spec fn category_of(
    links: Seq<CrateCategory>,
    id: i32,
    own: bool,
) -> spec_fn(int) -> bool {
    |i: int| (links[i].crate_id == id) == own
}

/// The test that picks the badges of all crates but `id`.
pub open spec fn badge_of_other(badges: Seq<Badge>, id: i32) -> spec_fn(int) -> bool {
    |i: int| badges[i].crate_id != id
}

/// The keywords of all crates but `id`, in the order in which they are on
/// record.
pub open spec fn other_keywords(links: Seq<CrateKeyword>, id: i32) -> Seq<CrateKeyword> {
    pick(links, positions_where(links.len() as int, keyword_of(links, id, false)))
}

/// The categories of all crates but `id`, in the order in which they are on
/// record.
pub open spec fn other_categories(links: Seq<CrateCategory>, id: i32) -> Seq<CrateCategory> {
    pick(links, positions_where(links.len() as int, category_of(links, id, false)))
}

/// The badges of all crates but `id`, in the order in which they are on
/// record.
pub open spec fn other_badges(badges: Seq<Badge>, id: i32) -> Seq<Badge> {
    pick(badges, positions_where(badges.len() as int, badge_of_other(badges, id)))
}

/// `post` holds the keywords of the other crates as before, and behind them
/// `keywords` for the crate `id`, in small letters.
pub open spec fn keywords_set(
    pre: Seq<CrateKeyword>,
    post: Seq<CrateKeyword>,
    id: i32,
    keywords: Seq<String>,
) -> bool {
    let kept = other_keywords(pre, id);
    &&& post.len() == kept.len() + keywords.len()
    &&& post.subrange(0, kept.len() as int) == kept
    &&& forall|k: int|
        0 <= k < keywords.len() ==> (#[trigger] post[kept.len() + k]).crate_id == id && post[kept.len()
            + k].keyword@ == lower_text(keywords[k]@)
}

/// Whether a category with the slug `slug` is on record.
pub open spec fn known_category(cats: Seq<Category>, slug: Seq<char>) -> bool {
    exists|i: int| 0 <= i < cats.len() && (#[trigger] cats[i]).slug@ == slug
}

/// The test that picks the slugs that are on record, or those that are not.
pub open spec fn slug_known(
    cats: Seq<Category>,
    slugs: Seq<String>,
    known: bool,
) -> spec_fn(int) -> bool {
    |k: int| known_category(cats, slugs[k]@) == known
}

/// `post` holds the categories of the other crates as before, and behind them
/// those of `slugs` that are on record, for the crate `id`.
pub open spec fn categories_set(
    cats: Seq<Category>,
    pre: Seq<CrateCategory>,
    post: Seq<CrateCategory>,
    id: i32,
    slugs: Seq<String>,
) -> bool {
    let kept = other_categories(pre, id);
    let valid = pick(slugs, positions_where(slugs.len() as int, slug_known(cats, slugs, true)));
    &&& post.len() == kept.len() + valid.len()
    &&& post.subrange(0, kept.len() as int) == kept
    &&& forall|k: int|
        0 <= k < valid.len() ==> (#[trigger] post[kept.len() + k]).crate_id == id && post[kept.len()
            + k].slug == valid[k]
}

/// A badge as a publish request names it, with its attributes where they
/// could be read.
#[derive(Debug, PartialEq, Eq)]
pub struct BadgeInput {
    pub badge_type: String,
    pub attributes: Option<Vec<Attribute>>,
}

/// Whether the badge at `k` is taken: its attributes could be read and name
/// no key twice, and no badge before it in the list has its type. The badges
/// of a request are a map from types, and the attributes of a badge a map
/// from keys, so what comes again is passed over.
pub open spec fn is_taken(inputs: Seq<BadgeInput>, k: int) -> bool {
    &&& inputs[k].attributes matches Some(attributes)
    &&& distinct_keys(attributes@)
    &&& forall|j: int|
        0 <= j < k ==> (#[trigger] inputs[j]).badge_type@ != inputs[k].badge_type@
}

/// The test that picks the badges that are taken, or those that are passed
/// over.
pub open spec fn badge_read(inputs: Seq<BadgeInput>, read: bool) -> spec_fn(int) -> bool {
    |k: int| is_taken(inputs, k) == read
}

/// `post` holds what the badges of the other crates held, and behind them the
/// badges of `inputs` that are taken, for the crate `id`.
pub open spec fn badges_set(
    pre: Seq<Badge>,
    post: Seq<Badge>,
    id: i32,
    inputs: Seq<BadgeInput>,
) -> bool {
    let kept = other_badges(pre, id);
    let valid = pick(inputs, positions_where(inputs.len() as int, badge_read(inputs, true)));
    &&& post.len() == kept.len() + valid.len()
    &&& forall|k: int| 0 <= k < kept.len() ==> (#[trigger] post[k])@ == kept[k]@
    &&& forall|k: int|
        0 <= k < valid.len() ==> (#[trigger] post[kept.len() + k]).crate_id == id && post[kept.len()
            + k].badge_type == valid[k].badge_type && post[kept.len() + k].attributes@
            == valid[k].attributes->0@
}

impl Registry {
    /// Replaces the keywords of the crate `id` by `keywords`, in small
    /// letters.
    pub fn update_keywords(&mut self, id: i32, keywords: &Vec<String>)
        requires
            old(self).wf(),
        ensures
            final(self).wf(),
            keywords_set(old(self).crates_keywords@, final(self).crates_keywords@, id, keywords@),
            *final(self) == (Registry { crates_keywords: final(self).crates_keywords, ..*old(self) }),
    {
        let mut out: Vec<CrateKeyword> = Vec::new();
        let ghost links = self.crates_keywords@;
        let mut i: usize = 0;
        while i < self.crates_keywords.len()
            invariant
                i <= self.crates_keywords.len(),
                links == self.crates_keywords@,
                out@ == pick(links, positions_where(i as int, keyword_of(links, id, false))),
            decreases self.crates_keywords.len() - i,
        {
            if self.crates_keywords[i].crate_id != id {
                proof {
                    lemma_pick_push(
                        links,
                        positions_where(i as int, keyword_of(links, id, false)),
                        i,
                    );
                }
                out.push(self.crates_keywords[i].clone());
            }
            i = i + 1;
        }
        let ghost kept = out@;
        let mut k: usize = 0;
        while k < keywords.len()
            invariant
                k <= keywords.len(),
                out.len() == kept.len() + k,
                out@.subrange(0, kept.len() as int) == kept,
                forall|j: int|
                    0 <= j < k ==> (#[trigger] out@[kept.len() + j]).crate_id == id && out@[kept.len()
                        + j].keyword@ == lower_text(keywords@[j]@),
            decreases keywords.len() - k,
        {
            let text = string_from_chars(&lower_chars(keywords[k].as_str()));
            out.push(CrateKeyword { crate_id: id, keyword: text });
            k = k + 1;
            assert(out@.subrange(0, kept.len() as int) == kept);
        }
        self.crates_keywords = out;
    }

    /// Whether a category with the slug `slug` is on record.
    pub fn knows_category(&self, slug: &str) -> (r: bool)
        ensures
            r == known_category(self.categories@, slug@),
    {
        let mut i: usize = 0;
        while i < self.categories.len()
            invariant
                i <= self.categories.len(),
                forall|j: int| 0 <= j < i ==> (#[trigger] self.categories@[j]).slug@ != slug@,
            decreases self.categories.len() - i,
        {
            if same_text(self.categories[i].slug.as_str(), slug) {
                return true;
            }
            i = i + 1;
        }
        false
    }

    /// Replaces the categories of the crate `id` by those of `slugs` that are
    /// on record, and hands back the slugs that are not.
    pub fn update_categories(&mut self, id: i32, slugs: &Vec<String>) -> (invalid: Vec<String>)
        requires
            old(self).wf(),
        ensures
            final(self).wf(),
            categories_set(
                old(self).categories@,
                old(self).crates_categories@,
                final(self).crates_categories@,
                id,
                slugs@,
            ),
            invalid@ == pick(
                slugs@,
                positions_where(
                    slugs@.len() as int,
                    slug_known(old(self).categories@, slugs@, false),
                ),
            ),
            *final(self) == (Registry {
                crates_categories: final(self).crates_categories,
                ..*old(self)
            }),
    {
        let mut out: Vec<CrateCategory> = Vec::new();
        let ghost links = self.crates_categories@;
        let ghost cats = self.categories@;
        let mut i: usize = 0;
        while i < self.crates_categories.len()
            invariant
                i <= self.crates_categories.len(),
                links == self.crates_categories@,
                out@ == pick(links, positions_where(i as int, category_of(links, id, false))),
            decreases self.crates_categories.len() - i,
        {
            if self.crates_categories[i].crate_id != id {
                proof {
                    lemma_pick_push(
                        links,
                        positions_where(i as int, category_of(links, id, false)),
                        i,
                    );
                }
                out.push(self.crates_categories[i].clone());
            }
            i = i + 1;
        }
        let ghost kept = out@;
        let mut invalid: Vec<String> = Vec::new();
        let mut k: usize = 0;
        while k < slugs.len()
            invariant
                k <= slugs.len(),
                cats == self.categories@,
                out.len() == kept.len() + pick(
                    slugs@,
                    positions_where(k as int, slug_known(cats, slugs@, true)),
                ).len(),
                out@.subrange(0, kept.len() as int) == kept,
                forall|j: int|
                    0 <= j < out.len() - kept.len() ==> (#[trigger] out@[kept.len() + j]).crate_id
                        == id && out@[kept.len() + j].slug == pick(
                        slugs@,
                        positions_where(k as int, slug_known(cats, slugs@, true)),
                    )[j],
                invalid@ == pick(
                    slugs@,
                    positions_where(k as int, slug_known(cats, slugs@, false)),
                ),
            decreases slugs.len() - k,
        {
            proof {
                lemma_pick_push(
                    slugs@,
                    positions_where(k as int, slug_known(cats, slugs@, true)),
                    k,
                );
                lemma_pick_push(
                    slugs@,
                    positions_where(k as int, slug_known(cats, slugs@, false)),
                    k,
                );
            }
            if self.knows_category(slugs[k].as_str()) {
                out.push(CrateCategory { crate_id: id, slug: slugs[k].clone() });
            } else {
                invalid.push(slugs[k].clone());
            }
            k = k + 1;
            assert(out@.subrange(0, kept.len() as int) == kept);
        }
        self.crates_categories = out;
        invalid
    }

    /// Replaces the badges of the crate `id` by those of `inputs` that are
    /// taken, and hands back the types of those that are passed over: the
    /// badges whose attributes could not be read or name a key twice, and the
    /// badges whose type the list has named before.
    pub fn update_badges(&mut self, id: i32, inputs: &Vec<BadgeInput>) -> (invalid: Vec<String>)
        requires
            old(self).wf(),
        ensures
            final(self).wf(),
            badges_set(old(self).badges@, final(self).badges@, id, inputs@),
            invalid@.len() == positions_where(
                inputs@.len() as int,
                badge_read(inputs@, false),
            ).len(),
            forall|k: int|
                0 <= k < invalid@.len() ==> #[trigger] invalid@[k] == inputs@[positions_where(
                    inputs@.len() as int,
                    badge_read(inputs@, false),
                )[k] as int].badge_type,
            *final(self) == (Registry { badges: final(self).badges, ..*old(self) }),
    {
        let mut out: Vec<Badge> = Vec::new();
        let ghost rows = self.badges@;
        let mut i: usize = 0;
        while i < self.badges.len()
            invariant
                i <= self.badges.len(),
                rows == self.badges@,
                out.len() == positions_where(i as int, badge_of_other(rows, id)).len(),
                forall|j: int|
                    0 <= j < out.len() ==> (#[trigger] out@[j])@ == pick(
                        rows,
                        positions_where(i as int, badge_of_other(rows, id)),
                    )[j]@,
            decreases self.badges.len() - i,
        {
            if self.badges[i].crate_id != id {
                proof {
                    lemma_pick_push(rows, positions_where(i as int, badge_of_other(rows, id)), i);
                }
                out.push(self.badges[i].clone());
            }
            i = i + 1;
        }
        let ghost kept_len = out.len();
        let ghost kept = out@;
        let mut invalid: Vec<String> = Vec::new();
        let mut k: usize = 0;
        while k < inputs.len()
            invariant
                k <= inputs.len(),
                kept_len == kept.len(),
                out.len() == kept_len + positions_where(
                    k as int,
                    badge_read(inputs@, true),
                ).len(),
                out@.subrange(0, kept_len as int) == kept,
                forall|j: int|
                    0 <= j < out.len() - kept_len ==> (#[trigger] out@[kept_len + j]).crate_id == id
                        && distinct_keys(out@[kept_len + j].attributes@)
                        && out@[kept_len + j].badge_type == pick(
                        inputs@,
                        positions_where(k as int, badge_read(inputs@, true)),
                    )[j].badge_type && out@[kept_len + j].attributes@ == pick(
                        inputs@,
                        positions_where(k as int, badge_read(inputs@, true)),
                    )[j].attributes->0@,
                invalid@.len() == positions_where(k as int, badge_read(inputs@, false)).len(),
                forall|j: int|
                    0 <= j < invalid@.len() ==> #[trigger] invalid@[j] == inputs@[positions_where(
                        k as int,
                        badge_read(inputs@, false),
                    )[j] as int].badge_type,
            decreases inputs.len() - k,
        {
            proof {
                lemma_pick_push(inputs@, positions_where(k as int, badge_read(inputs@, true)), k);
            }
            let first = type_is_new(inputs, k);
            match &inputs[k].attributes {
                Some(attributes) => {
                    if first && keys_distinct(attributes) {
                        out.push(
                            Badge {
                                crate_id: id,
                                badge_type: inputs[k].badge_type.clone(),
                                attributes: clone_attributes(attributes),
                            },
                        );
                    } else {
                        invalid.push(inputs[k].badge_type.clone());
                    }
                },
                None => {
                    invalid.push(inputs[k].badge_type.clone());
                },
            }
            k = k + 1;
            assert(out@.subrange(0, kept_len as int) == kept);
        }
        let ghost n = rows.len() as int;
        let m = inputs.len();
        proof {
            assert forall|j: int| 0 <= j < kept.len() implies (#[trigger] out@[j])@ == other_badges(
                rows,
                id,
            )[j]@ by {
                assert(out@[j] == out@.subrange(0, kept_len as int)[j]);
            }
            reveal(badges_wf);
            let others = positions_where(n, badge_of_other(rows, id));
            let taken = positions_where(m as int, badge_read(inputs@, true));
            lemma_positions_where(n, badge_of_other(rows, id));
            lemma_positions_where(m as int, badge_read(inputs@, true));
            let after = out@;
            assert forall|a: int| 0 <= a < after.len() implies distinct_keys(
                (#[trigger] after[a]).attributes@,
            ) by {
                if a < kept_len {
                    assert(after[a]@ == rows[others[a] as int]@);
                } else {
                    assert(distinct_keys(after[kept_len + (a - kept_len)].attributes@));
                }
            }
            assert forall|a: int, b: int|
                #![trigger after[a], after[b]]
                0 <= a < after.len() && 0 <= b < after.len() && a != b && after[a].crate_id
                    == after[b].crate_id implies after[a].badge_type@ != after[b].badge_type@ by {
                if a < kept_len && b < kept_len {
                    assert(after[a]@ == rows[others[a] as int]@);
                    assert(after[b]@ == rows[others[b] as int]@);
                    assert(others[a] != others[b]);
                } else if a < kept_len {
                    assert(after[a]@ == rows[others[a] as int]@);
                    assert(badge_of_other(rows, id)(others[a] as int));
                    assert(after[kept_len + (b - kept_len)].crate_id == id);
                } else if b < kept_len {
                    assert(after[b]@ == rows[others[b] as int]@);
                    assert(badge_of_other(rows, id)(others[b] as int));
                    assert(after[kept_len + (a - kept_len)].crate_id == id);
                } else {
                    let x = a - kept_len;
                    let y = b - kept_len;
                    assert(after[kept_len + x].badge_type == inputs@[taken[x] as int].badge_type);
                    assert(after[kept_len + y].badge_type == inputs@[taken[y] as int].badge_type);
                    assert(badge_read(inputs@, true)(taken[x] as int));
                    assert(badge_read(inputs@, true)(taken[y] as int));
                    if x < y {
                        assert(taken[x] < taken[y]);
                    } else {
                        assert(taken[y] < taken[x]);
                    }
                }
            }
        }
        self.badges = out;
        invalid
    }
}

/// Whether no badge before the one at `k` has its type.
fn type_is_new(inputs: &Vec<BadgeInput>, k: usize) -> (r: bool)
    requires
        k < inputs.len(),
    ensures
        r == forall|j: int|
            0 <= j < k ==> (#[trigger] inputs@[j]).badge_type@ != inputs@[k as int].badge_type@,
{
    let mut j: usize = 0;
    while j < k
        invariant
            j <= k < inputs.len(),
            forall|a: int|
                0 <= a < j ==> (#[trigger] inputs@[a]).badge_type@ != inputs@[k as int].badge_type@,
        decreases k - j,
    {
        if same_text(inputs[j].badge_type.as_str(), inputs[k].badge_type.as_str()) {
            return false;
        }
        j = j + 1;
    }
    true
}

/// How many of `links` carry the keyword `text`.
pub open spec fn count_keyword(links: Seq<CrateKeyword>, text: Seq<char>) -> nat
    decreases links.len(),
{
    if links.len() == 0 {
        0
    } else {
        count_keyword(links.drop_last(), text) + if links.last().keyword@ == text {
            1nat
        } else {
            0nat
        }
    }
}

/// The keywords of the crate `id`, in the order in which they are on record,
/// each with the number of crates that carry it.
pub open spec fn keywords_at(rows: Seq<Keyword>, links: Seq<CrateKeyword>, id: i32) -> bool {
    let own = pick(links, positions_where(links.len() as int, keyword_of(links, id, true)));
    rows.len() == own.len() && forall|k: int|
        0 <= k < own.len() ==> (#[trigger] rows[k]).keyword == own[k].keyword && rows[k].crates_cnt
            == as_count(count_keyword(links, own[k].keyword@))
}

/// The first category with the slug `slug`.
pub open spec fn find_category(cats: Seq<Category>, slug: Seq<char>) -> Option<Category>
    decreases cats.len(),
{
    if cats.len() == 0 {
        None
    } else if cats[0].slug@ == slug {
        Some(cats[0])
    } else {
        find_category(cats.drop_first(), slug)
    }
}

/// The categories that the first `n` links file the crate `id` under, in the
/// order of the links. A link to a category that is not on record gives none.
pub open spec fn categories_of(
    links: Seq<CrateCategory>,
    id: i32,
    cats: Seq<Category>,
    n: int,
) -> Seq<Category>
    decreases n,
{
    if n <= 0 {
        Seq::empty()
    } else {
        let rest = categories_of(links, id, cats, n - 1);
        if links[n - 1].crate_id == id {
            match find_category(cats, links[n - 1].slug@) {
                Some(c) => rest.push(c),
                None => rest,
            }
        } else {
            rest
        }
    }
}

impl Registry {
    /// How many links carry the keyword `text`.
    pub fn keyword_count(&self, text: &str) -> (r: usize)
        ensures
            r == count_keyword(self.crates_keywords@, text@),
    {
        let mut n: usize = 0;
        let mut i: usize = 0;
        let ghost links = self.crates_keywords@;
        while i < self.crates_keywords.len()
            invariant
                i <= self.crates_keywords.len(),
                links == self.crates_keywords@,
                n <= i,
                n == count_keyword(links.subrange(0, i as int), text@),
            decreases self.crates_keywords.len() - i,
        {
            proof {
                assert(links.subrange(0, i + 1).drop_last() == links.subrange(0, i as int));
                assert(links.subrange(0, i + 1).last() == links[i as int]);
            }
            if same_text(self.crates_keywords[i].keyword.as_str(), text) {
                n = n + 1;
            }
            i = i + 1;
        }
        assert(links.subrange(0, i as int) == links);
        n
    }

    /// The first category with the slug `slug`.
    pub fn category_by_slug(&self, slug: &str) -> (r: Option<&Category>)
        ensures
            match r {
                Some(c) => find_category(self.categories@, slug@) == Some(*c),
                None => find_category(self.categories@, slug@) is None,
            },
    {
        let mut i: usize = 0;
        assert(self.categories@.skip(0) == self.categories@);
        while i < self.categories.len()
            invariant
                i <= self.categories.len(),
                find_category(self.categories@, slug@) == find_category(
                    self.categories@.skip(i as int),
                    slug@,
                ),
            decreases self.categories.len() - i,
        {
            assert(self.categories@.skip(i as int).drop_first() == self.categories@.skip(i + 1));
            if same_text(self.categories[i].slug.as_str(), slug) {
                return Some(&self.categories[i]);
            }
            i = i + 1;
        }
        None
    }
}

impl Crate {
    /// The keywords of the crate, each with the number of crates that carry
    /// it.
    pub fn keywords(&self, conn: &Registry) -> (r: Vec<Keyword>)
        ensures
            keywords_at(r@, conn.crates_keywords@, self.id),
    {
        let mut out: Vec<Keyword> = Vec::new();
        let ghost links = conn.crates_keywords@;
        let mut i: usize = 0;
        while i < conn.crates_keywords.len()
            invariant
                i <= conn.crates_keywords.len(),
                links == conn.crates_keywords@,
                out.len() == positions_where(i as int, keyword_of(links, self.id, true)).len(),
                forall|k: int|
                    0 <= k < out.len() ==> (#[trigger] out@[k]).keyword == pick(
                        links,
                        positions_where(i as int, keyword_of(links, self.id, true)),
                    )[k].keyword && out@[k].crates_cnt == as_count(
                        count_keyword(links, out@[k].keyword@),
                    ),
            decreases conn.crates_keywords.len() - i,
        {
            if conn.crates_keywords[i].crate_id == self.id {
                proof {
                    lemma_pick_push(
                        links,
                        positions_where(i as int, keyword_of(links, self.id, true)),
                        i,
                    );
                }
                let n = conn.keyword_count(conn.crates_keywords[i].keyword.as_str());
                out.push(
                    Keyword {
                        keyword: conn.crates_keywords[i].keyword.clone(),
                        crates_cnt: count_of(n),
                    },
                );
            }
            i = i + 1;
        }
        out
    }

    /// The categories of the crate, in the order in which it was filed under
    /// them.
    pub fn categories(&self, conn: &Registry) -> (r: Vec<Category>)
        ensures
            r@ == categories_of(
                conn.crates_categories@,
                self.id,
                conn.categories@,
                conn.crates_categories@.len() as int,
            ),
    {
        let mut out: Vec<Category> = Vec::new();
        let mut i: usize = 0;
        while i < conn.crates_categories.len()
            invariant
                i <= conn.crates_categories.len(),
                out@ == categories_of(conn.crates_categories@, self.id, conn.categories@, i as int),
            decreases conn.crates_categories.len() - i,
        {
            if conn.crates_categories[i].crate_id == self.id {
                match conn.category_by_slug(conn.crates_categories[i].slug.as_str()) {
                    Some(c) => out.push(c.clone()),
                    None => {},
                }
            }
            i = i + 1;
        }
        out
    }
}

} // verus!
