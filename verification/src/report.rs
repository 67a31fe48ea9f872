//! What the registry reports of one crate and of all crates together.

use vstd::prelude::*;
use crate::encode::{shows, EncodableCrate};
use crate::errors::{Error, ErrorKind};
use crate::listing::{entries_shown, slug_within, chars_eq, has_prefix, crate_badges};
use crate::model::{Category, Crate, CrateCategory, CrateKeyword, Keyword, Version};
use crate::ranking::{
    in_key_order, key_views, lemma_positions_where, page_bounds, page_of, positions_where,
    rearranged, sort_by_keys, KeyView, RankKey,
};
use crate::registry::{first_in_slot, slot_taken, Registry};
use crate::tags::{categories_of, count_keyword, keywords_at};
use crate::text::{chars_of, same_text};
use crate::versions::{as_count, count_of, is_max_version, versions_at, versions_listed};

verus! {

/// All that is on record of one crate.
#[derive(Debug)]
pub struct CrateReport {
    pub krate: EncodableCrate,
    pub versions: Vec<Version>,
    pub keywords: Vec<Keyword>,
    pub categories: Vec<Category>,
}

/// The identifiers of `rows`, in that order.
pub open spec fn ids_of(rows: Seq<Version>) -> Seq<i32> {
    Seq::new(rows.len(), |k: int| rows[k].id)
}

/// `r` reports the crate `c`: its versions greatest first, its keywords, its
/// categories, and the crate as clients see it, with the greatest version
/// that is not yanked and with its badges.
pub open spec fn reports(r: CrateReport, conn: Registry, c: Crate) -> bool {
    &&& exists|pos: Seq<usize>| #[trigger]
        versions_listed(conn.versions@, c.id, pos) && versions_at(r.versions@, conn.versions@, pos)
    &&& keywords_at(r.keywords@, conn.crates_keywords@, c.id)
    &&& r.categories@ == categories_of(
        conn.crates_categories@,
        c.id,
        conn.categories@,
        conn.crates_categories@.len() as int,
    )
    &&& is_max_version(conn.versions@, c.id, false, r.krate.max_version@)
    &&& shows(
        r.krate,
        c,
        r.krate.max_version@,
        Some(ids_of(r.versions@)),
        Some(r.keywords@),
        Some(r.categories@),
        Some(crate_badges(conn, c.id)),
    )
}

/// The identifiers of `rows`, in that order.
pub fn version_ids(rows: &Vec<Version>) -> (r: Vec<i32>)
    ensures
        r@ == ids_of(rows@),
{
    let mut out: Vec<i32> = Vec::new();
    let mut k: usize = 0;
    while k < rows.len()
        invariant
            k <= rows.len(),
            out.len() == k,
            forall|j: int| 0 <= j < k ==> out@[j] == rows@[j].id,
        decreases rows.len() - k,
    {
        out.push(rows[k].id);
        k = k + 1;
    }
    assert(out@ =~= ids_of(rows@));
    out
}

/// Reports the crate `crate_name`.
pub fn show(conn: &Registry, crate_name: &str) -> (r: Result<CrateReport, Error>)
    requires
        conn.wf(),
    ensures
        match r {
            Ok(report) => slot_taken(conn.crates@, crate_name@) && reports(
                report,
                *conn,
                conn.crates@[first_in_slot(conn.crates@, crate_name@)],
            ),
            Err(e) => !slot_taken(conn.crates@, crate_name@) && e@ == (
                ErrorKind::NotFound,
                Seq::<char>::empty(),
            ),
        },
{
    let c = Crate::find_by_name(conn, crate_name)?;
    let versions = c.versions(conn);
    let ids = version_ids(&versions);
    let keywords = c.keywords(conn);
    let categories = c.categories(conn);
    let badges = c.badges(conn);
    let max_version = c.max_version(conn);
    let ghost id = c.id;
    let ghost row = c;
    let krate = c.encodable(max_version, Some(ids), Some(&keywords), Some(&categories), Some(badges));
    proof {
        let shown = krate.badges->0@;
        let have = crate_badges(*conn, id);
        assert forall|i: int| 0 <= i < have.len() implies (#[trigger] shown[i]).badge_type@
            == have[i].badge_type@ && shown[i].attributes@ == have[i].attributes@ by {
            assert(badges@[i]@ == have[i]@);
        }
    }
    Ok(CrateReport { krate, versions, keywords, categories })
}

/// How a list of crates is put in order for the front page.
#[derive(Debug, Clone, Copy, PartialEq, Eq, Structural)]
pub enum FrontOrder {
    /// The crates created last come first.
    Newest,
    /// The crates updated last come first; crates that were never updated are
    /// left out.
    JustUpdated,
    /// The crates downloaded most come first.
    MostDownloaded,
}

/// The test that picks the crates of a front-page list.
pub open spec fn front_pick(conn: Registry, order: FrontOrder) -> spec_fn(int) -> bool {
    |i: int| order != FrontOrder::JustUpdated || conn.crates@[i].updated_at != conn.crates@[i].created_at
}

/// What the crate `c` is ranked by in a front-page list.
pub open spec fn front_key(c: Crate, order: FrontOrder) -> KeyView {
    match order {
        FrontOrder::Newest => KeyView {
            first: -c.created_at.secs(),
            second: -c.created_at.nanos(),
            text: Seq::empty(),
        },
        FrontOrder::JustUpdated => KeyView {
            first: -c.updated_at.secs(),
            second: -c.updated_at.nanos(),
            text: Seq::empty(),
        },
        FrontOrder::MostDownloaded => KeyView {
            first: -(c.downloads as int),
            second: 0,
            text: Seq::empty(),
        },
    }
}

/// The keys of all crates for a front-page list, by position.
pub open spec fn front_keys(conn: Registry, order: FrontOrder) -> Seq<KeyView> {
    Seq::new(conn.crates@.len(), |i: int| front_key(conn.crates@[i], order))
}

/// `rows` shows the first ten crates of a front-page list.
pub open spec fn front_list(rows: Seq<EncodableCrate>, conn: Registry, order: FrontOrder) -> bool {
    exists|pos: Seq<usize>|
        {
            &&& #[trigger] rearranged(
                pos,
                positions_where(conn.crates@.len() as int, front_pick(conn, order)),
            )
            &&& in_key_order(front_keys(conn, order), pos)
            &&& entries_shown(rows, conn, page_of(pos, 0, 10), false, false)
        }
}

impl Registry {
    /// The first ten crates of a front-page list, as clients see them.
    pub fn front(&self, order: FrontOrder) -> (r: Vec<EncodableCrate>)
        requires
            self.wf(),
        ensures
            front_list(r@, *self, order),
    {
        let mut picked: Vec<usize> = Vec::new();
        let mut keys: Vec<RankKey> = Vec::new();
        let n = self.crates.len();
        let mut i: usize = 0;
        while i < n
            invariant
                i <= n,
                n == self.crates.len(),
                picked@ == positions_where(i as int, front_pick(*self, order)),
                keys.len() == i,
                forall|j: int|
                    0 <= j < i ==> (#[trigger] keys@[j])@ == front_key(self.crates@[j], order),
            decreases n - i,
        {
            let c = &self.crates[i];
            let key = match order {
                FrontOrder::Newest => RankKey {
                    first: -c.created_at.sec(),
                    second: -(c.created_at.nsec() as i64),
                    text: Vec::new(),
                },
                FrontOrder::JustUpdated => RankKey {
                    first: -c.updated_at.sec(),
                    second: -(c.updated_at.nsec() as i64),
                    text: Vec::new(),
                },
                FrontOrder::MostDownloaded => RankKey {
                    first: -(c.downloads as i64),
                    second: 0,
                    text: Vec::new(),
                },
            };
            keys.push(key);
            let keep = match order {
                FrontOrder::JustUpdated => !(c.updated_at.sec() == c.created_at.sec()
                    && c.updated_at.nsec() == c.created_at.nsec()),
                _ => true,
            };
            proof {
                if !keep {
                    c.updated_at.lemma_same_moment(c.created_at);
                }
            }
            if keep {
                picked.push(i);
            }
            i = i + 1;
        }
        proof {
            lemma_positions_where(n as int, front_pick(*self, order));
            assert(key_views(keys@) =~= front_keys(*self, order));
        }
        let pos = sort_by_keys(keys, &picked);
        let (lo, hi) = page_bounds(pos.len(), 0, 10);
        let rows = self.entries(&pos, lo, hi, false, false);
        proof {
            assert(page_of(pos@, 0, 10) == pos@.subrange(lo as int, hi as int));
        }
        rows
    }
}

/// The test that picks the first link of each keyword.
pub open spec fn first_of_keyword(links: Seq<CrateKeyword>) -> spec_fn(int) -> bool {
    |i: int| forall|j: int| 0 <= j < i ==> (#[trigger] links[j]).keyword@ != links[i].keyword@
}

/// What a keyword is ranked by: the more crates carry it, the earlier.
pub open spec fn keyword_keys(links: Seq<CrateKeyword>) -> Seq<KeyView> {
    Seq::new(
        links.len(),
        |i: int|
            KeyView {
                first: -as_count(count_keyword(links, links[i].keyword@)),
                second: 0,
                text: Seq::empty(),
            },
    )
}

/// `rows` holds the ten keywords that most crates carry, most first, each
/// once.
pub open spec fn popular_keywords_listed(rows: Seq<Keyword>, links: Seq<CrateKeyword>) -> bool {
    exists|pos: Seq<usize>|
        {
            &&& #[trigger] rearranged(
                pos,
                positions_where(links.len() as int, first_of_keyword(links)),
            )
            &&& in_key_order(keyword_keys(links), pos)
            &&& rows.len() == page_of(pos, 0, 10).len()
            &&& forall|k: int|
                0 <= k < rows.len() ==> (#[trigger] rows[k]).keyword == links[page_of(
                    pos,
                    0,
                    10,
                )[k] as int].keyword && rows[k].crates_cnt == as_count(
                    count_keyword(links, rows[k].keyword@),
                )
        }
}

/// A category with the number of crates filed under it or below it.
#[derive(Debug, PartialEq, Eq)]
pub struct PopularCategory {
    pub category: Category,
    pub crates_cnt: i64,
}

/// Whether a slug names a category of the top level: it holds no `::`.
pub open spec fn is_toplevel(slug: Seq<char>) -> bool {
    forall|i: int|
        0 <= i && i + 1 < slug.len() ==> !(#[trigger] slug[i] == ':' && slug[i + 1] == ':')
}

/// How many of `links` file a crate under `cat` or below it.
pub open spec fn count_within(links: Seq<CrateCategory>, cat: Seq<char>) -> nat
    decreases links.len(),
{
    if links.len() == 0 {
        0
    } else {
        count_within(links.drop_last(), cat) + if slug_within(links.last().slug@, cat) {
            1nat
        } else {
            0nat
        }
    }
}

/// The test that picks the categories of the top level.
pub open spec fn toplevel_pick(cats: Seq<Category>) -> spec_fn(int) -> bool {
    |i: int| is_toplevel(cats[i].slug@)
}

/// What a category is ranked by: the more crates are filed under it or below
/// it, the earlier.
pub open spec fn category_keys(cats: Seq<Category>, links: Seq<CrateCategory>) -> Seq<KeyView> {
    Seq::new(
        cats.len(),
        |i: int|
            KeyView {
                first: -as_count(count_within(links, cats[i].slug@)),
                second: 0,
                text: Seq::empty(),
            },
    )
}

/// `rows` holds the ten categories of the top level that hold most crates,
/// most first.
pub open spec fn popular_categories_listed(
    rows: Seq<PopularCategory>,
    cats: Seq<Category>,
    links: Seq<CrateCategory>,
) -> bool {
    exists|pos: Seq<usize>|
        {
            &&& #[trigger] rearranged(pos, positions_where(cats.len() as int, toplevel_pick(cats)))
            &&& in_key_order(category_keys(cats, links), pos)
            &&& rows.len() == page_of(pos, 0, 10).len()
            &&& forall|k: int|
                0 <= k < rows.len() ==> (#[trigger] rows[k]).category == cats[page_of(
                    pos,
                    0,
                    10,
                )[k] as int] && rows[k].crates_cnt == as_count(
                    count_within(links, rows[k].category.slug@),
                )
        }
}

impl Registry {
    /// Whether the link at `i` is the first of its keyword.
    fn starts_keyword(&self, i: usize) -> (r: bool)
        requires
            i < self.crates_keywords@.len(),
        ensures
            r == first_of_keyword(self.crates_keywords@)(i as int),
    {
        let mut j: usize = 0;
        while j < i
            invariant
                j <= i < self.crates_keywords@.len(),
                forall|k: int|
                    0 <= k < j ==> (#[trigger] self.crates_keywords@[k]).keyword@
                        != self.crates_keywords@[i as int].keyword@,
            decreases i - j,
        {
            if same_text(self.crates_keywords[j].keyword.as_str(), self.crates_keywords[i].keyword.as_str()) {
                return false;
            }
            j = j + 1;
        }
        true
    }

    /// The ten keywords that most crates carry, most first.
    pub fn popular_keywords(&self) -> (r: Vec<Keyword>)
        ensures
            popular_keywords_listed(r@, self.crates_keywords@),
    {
        let n = self.crates_keywords.len();
        let ghost links = self.crates_keywords@;
        let mut picked: Vec<usize> = Vec::new();
        let mut keys: Vec<RankKey> = Vec::new();
        let mut counts: Vec<i64> = Vec::new();
        let mut i: usize = 0;
        while i < n
            invariant
                i <= n,
                n == self.crates_keywords.len(),
                links == self.crates_keywords@,
                picked@ == positions_where(i as int, first_of_keyword(links)),
                keys.len() == i,
                counts.len() == i,
                forall|j: int| 0 <= j < i ==> (#[trigger] keys@[j])@ == keyword_keys(links)[j],
                forall|j: int|
                    0 <= j < i ==> #[trigger] counts@[j] == as_count(
                        count_keyword(links, links[j].keyword@),
                    ),
            decreases n - i,
        {
            let count = count_of(self.keyword_count(self.crates_keywords[i].keyword.as_str()));
            keys.push(RankKey { first: -count, second: 0, text: Vec::new() });
            counts.push(count);
            if self.starts_keyword(i) {
                picked.push(i);
            }
            i = i + 1;
        }
        proof {
            lemma_positions_where(n as int, first_of_keyword(links));
            assert(key_views(keys@) =~= keyword_keys(links));
        }
        let pos = sort_by_keys(keys, &picked);
        let (lo, hi) = page_bounds(pos.len(), 0, 10);
        let ghost page = pos@.subrange(lo as int, hi as int);
        assert(page_of(pos@, 0, 10) == page);
        let mut out: Vec<Keyword> = Vec::new();
        let mut k: usize = lo;
        while k < hi
            invariant
                lo <= k <= hi <= pos.len(),
                n == self.crates_keywords.len(),
                links == self.crates_keywords@,
                counts.len() == n,
                forall|j: int| 0 <= j < pos.len() ==> #[trigger] pos@[j] < n,
                forall|j: int|
                    0 <= j < n ==> #[trigger] counts@[j] == as_count(
                        count_keyword(links, links[j].keyword@),
                    ),
                out.len() == k - lo,
                forall|j: int|
                    0 <= j < k - lo ==> (#[trigger] out@[j]).keyword == links[pos@[lo + j] as int].keyword
                        && out@[j].crates_cnt == as_count(count_keyword(links, out@[j].keyword@)),
            decreases hi - k,
        {
            let at = pos[k];
            out.push(
                Keyword { keyword: self.crates_keywords[at].keyword.clone(), crates_cnt: counts[at] },
            );
            k = k + 1;
        }
        out
    }

    /// How many links file a crate under `cat` or below it.
    pub fn count_filed(&self, cat: &str) -> (r: usize)
        ensures
            r == count_within(self.crates_categories@, cat@),
    {
        let wanted = chars_of(cat);
        let mut below: Vec<char> = chars_of(cat);
        below.push(':');
        below.push(':');
        proof {
            reveal_strlit("::");
            assert(below@ =~= cat@ + "::"@);
        }
        let ghost links = self.crates_categories@;
        let mut n: usize = 0;
        let mut i: usize = 0;
        while i < self.crates_categories.len()
            invariant
                i <= self.crates_categories.len(),
                links == self.crates_categories@,
                wanted@ == cat@,
                below@ == cat@ + "::"@,
                n <= i,
                n == count_within(links.subrange(0, i as int), cat@),
            decreases self.crates_categories.len() - i,
        {
            proof {
                assert(links.subrange(0, i + 1).drop_last() == links.subrange(0, i as int));
                assert(links.subrange(0, i + 1).last() == links[i as int]);
            }
            let slug = chars_of(self.crates_categories[i].slug.as_str());
            if chars_eq(&slug, &wanted) || has_prefix(&below, &slug) {
                n = n + 1;
            }
            i = i + 1;
        }
        assert(links.subrange(0, i as int) == links);
        n
    }

    /// The ten categories of the top level that hold most crates, most first.
    pub fn popular_categories(&self) -> (r: Vec<PopularCategory>)
        ensures
            popular_categories_listed(r@, self.categories@, self.crates_categories@),
    {
        let n = self.categories.len();
        let ghost cats = self.categories@;
        let ghost links = self.crates_categories@;
        let mut picked: Vec<usize> = Vec::new();
        let mut keys: Vec<RankKey> = Vec::new();
        let mut counts: Vec<i64> = Vec::new();
        let mut i: usize = 0;
        while i < n
            invariant
                i <= n,
                n == self.categories.len(),
                cats == self.categories@,
                links == self.crates_categories@,
                picked@ == positions_where(i as int, toplevel_pick(cats)),
                keys.len() == i,
                counts.len() == i,
                forall|j: int|
                    0 <= j < i ==> (#[trigger] keys@[j])@ == category_keys(cats, links)[j],
                forall|j: int|
                    0 <= j < i ==> #[trigger] counts@[j] == as_count(
                        count_within(links, cats[j].slug@),
                    ),
            decreases n - i,
        {
            let count = count_of(self.count_filed(self.categories[i].slug.as_str()));
            keys.push(RankKey { first: -count, second: 0, text: Vec::new() });
            counts.push(count);
            if toplevel(self.categories[i].slug.as_str()) {
                picked.push(i);
            }
            i = i + 1;
        }
        proof {
            lemma_positions_where(n as int, toplevel_pick(cats));
            assert(key_views(keys@) =~= category_keys(cats, links));
        }
        let pos = sort_by_keys(keys, &picked);
        let (lo, hi) = page_bounds(pos.len(), 0, 10);
        let ghost page = pos@.subrange(lo as int, hi as int);
        assert(page_of(pos@, 0, 10) == page);
        let mut out: Vec<PopularCategory> = Vec::new();
        let mut k: usize = lo;
        while k < hi
            invariant
                lo <= k <= hi <= pos.len(),
                n == self.categories.len(),
                cats == self.categories@,
                links == self.crates_categories@,
                counts.len() == n,
                forall|j: int| 0 <= j < pos.len() ==> #[trigger] pos@[j] < n,
                forall|j: int|
                    0 <= j < n ==> #[trigger] counts@[j] == as_count(
                        count_within(links, cats[j].slug@),
                    ),
                out.len() == k - lo,
                forall|j: int|
                    0 <= j < k - lo ==> (#[trigger] out@[j]).category == cats[pos@[lo + j] as int]
                        && out@[j].crates_cnt == as_count(
                        count_within(links, out@[j].category.slug@),
                    ),
            decreases hi - k,
        {
            let at = pos[k];
            out.push(PopularCategory { category: self.categories[at].clone(), crates_cnt: counts[at] });
            k = k + 1;
        }
        out
    }
}

/// Whether a slug names a category of the top level.
pub fn toplevel(slug: &str) -> (r: bool)
    ensures
        r == is_toplevel(slug@),
{
    let v = chars_of(slug);
    let mut i: usize = 0;
    if v.len() < 2 {
        return true;
    }
    while i < v.len() - 1
        invariant
            v@ == slug@,
            v.len() >= 2,
            forall|j: int|
                0 <= j < i && j + 1 < v.len() ==> !(#[trigger] v@[j] == ':' && v@[j + 1] == ':'),
        decreases v.len() - i,
    {
        if v[i] == ':' && v[i + 1] == ':' {
            return false;
        }
        i = i + 1;
    }
    true
}

/// The front page: how much the registry holds, and what is new, in motion
/// and in demand.
#[derive(Debug)]
pub struct Summary {
    pub num_downloads: i64,
    pub num_crates: i64,
    pub new_crates: Vec<EncodableCrate>,
    pub most_downloaded: Vec<EncodableCrate>,
    pub just_updated: Vec<EncodableCrate>,
    pub popular_keywords: Vec<Keyword>,
    pub popular_categories: Vec<PopularCategory>,
}

/// Reports the front page.
pub fn summary(conn: &Registry) -> (r: Summary)
    requires
        conn.wf(),
    ensures
        r.num_downloads == conn.total_downloads,
        r.num_crates == as_count(conn.crates@.len()),
        front_list(r.new_crates@, *conn, FrontOrder::Newest),
        front_list(r.most_downloaded@, *conn, FrontOrder::MostDownloaded),
        front_list(r.just_updated@, *conn, FrontOrder::JustUpdated),
        popular_keywords_listed(r.popular_keywords@, conn.crates_keywords@),
        popular_categories_listed(r.popular_categories@, conn.categories@, conn.crates_categories@),
{
    Summary {
        num_downloads: conn.total_downloads,
        num_crates: count_of(conn.crates.len()),
        new_crates: conn.front(FrontOrder::Newest),
        most_downloaded: conn.front(FrontOrder::MostDownloaded),
        just_updated: conn.front(FrontOrder::JustUpdated),
        popular_keywords: conn.popular_keywords(),
        popular_categories: conn.popular_categories(),
    }
}

} // verus!
