//! Listings of crates: one filter for each request, an order, and a page.

use vstd::prelude::*;
use crate::encode::{shows, EncodableCrate};
use crate::errors::{Error, ErrorKind};
use crate::model::{Badge, Crate, CrateCategory, CrateKeyword, CrateOwner, Follow, OwnerKind, User};
use crate::names::{canon_crate_name, canonicalize};
use crate::ranking::{
    in_key_order, key_views, lemma_positions_where, page_bounds, page_of, positions_where,
    rearranged, sort_by_keys, KeyView, RankKey,
};
use crate::registry::Registry;
use crate::text::{
    chars_of, decimal, decimal_text, opt_str_text, opt_text, parse_whole, same_text, whole_number,
};
use crate::versions::{as_count, count_of, is_max_version};

verus! {

/// What a request for a listing asks for, as the request spells it.
#[derive(Debug)]
pub struct ListingQuery {
    /// `downloads` for the most downloaded first; anything else for names in
    /// rising order.
    pub sort: Option<String>,
    /// A free-text query.
    pub q: Option<String>,
    /// A text whose first letter the names shall start with.
    pub letter: Option<String>,
    pub keyword: Option<String>,
    pub category: Option<String>,
    /// The identifier of an owning user, in digits.
    pub user_id: Option<String>,
    /// Whether the crates that the acting user follows are asked for.
    pub following: bool,
}

/// A crate that the full-text index found for a query, and how well it fits:
/// the more, the better.
#[derive(Debug, Clone, Copy, PartialEq, Eq, Structural)]
pub struct SearchHit {
    pub crate_id: i32,
    pub rank: i32,
}

/// The one filter that applies to a request.
#[derive(Debug)]
pub enum Filter {
    /// What the full-text index found.
    Search,
    /// Names that start with a letter, capitals and small letters alike.
    Letter(char),
    /// Crates that carry a keyword, capitals and small letters alike.
    Keyword(Vec<char>),
    /// Crates in a category or below it.
    Category(Vec<char>),
    /// Crates granted to a user.
    OwnedBy(i32),
    /// Crates that a user follows.
    FollowedBy(i32),
    /// All crates.
    All,
}

/// What a filter holds.
pub enum FilterView {
    Search,
    Letter(char),
    Keyword(Seq<char>),
    Category(Seq<char>),
    OwnedBy(i32),
    FollowedBy(i32),
    All,
}

impl View for Filter {
    type V = FilterView;

    open spec fn view(&self) -> FilterView {
        match self {
            Filter::Search => FilterView::Search,
            Filter::Letter(c) => FilterView::Letter(*c),
            Filter::Keyword(k) => FilterView::Keyword(k@),
            Filter::Category(k) => FilterView::Category(k@),
            Filter::OwnedBy(id) => FilterView::OwnedBy(*id),
            Filter::FollowedBy(id) => FilterView::FollowedBy(*id),
            Filter::All => FilterView::All,
        }
    }
}

/// An ASCII capital as a small letter; any other character as it is.
pub open spec fn lower_char(c: char) -> char {
    if 'A' <= c && c <= 'Z' {
        ((c as u8) + 32) as char
    } else {
        c
    }
}

/// A text with its ASCII capitals as small letters.
pub open spec fn lower_text(s: Seq<char>) -> Seq<char> {
    Seq::new(s.len(), |i: int| lower_char(s[i]))
}

/// Whether `s` starts with `p`.
pub open spec fn is_prefix(p: Seq<char>, s: Seq<char>) -> bool {
    p.len() <= s.len() && s.subrange(0, p.len() as int) == p
}

/// The filter that applies to a request, or `None` where the request asks for
/// what a user follows and names no user. Of the filters that a request
/// spells, the first of these applies: the free-text query, the letter, the
/// keyword, the category, the owning user, the followed crates.
pub open spec fn filter_for(query: ListingQuery, user: Option<User>) -> Option<FilterView> {
    if query.q is Some {
        Some(FilterView::Search)
    } else if query.letter is Some {
        Some(FilterView::Letter(lower_char(query.letter->0@[0])))
    } else if query.keyword is Some {
        Some(FilterView::Keyword(lower_text(query.keyword->0@)))
    } else if query.category is Some {
        Some(FilterView::Category(query.category->0@))
    } else if query.user_id is Some && whole_number(query.user_id->0@) is Some {
        Some(FilterView::OwnedBy(whole_number(query.user_id->0@)->0))
    } else if query.following {
        match user {
            Some(u) => Some(FilterView::FollowedBy(u.id)),
            None => None,
        }
    } else {
        Some(FilterView::All)
    }
}

/// A letter can be taken from the request: where the letter filter applies,
/// its text is not empty.
pub open spec fn letter_in_order(query: ListingQuery) -> bool {
    query.q is None && query.letter is Some ==> query.letter->0@.len() > 0
}

fn lower_char_exec(c: char) -> (r: char)
    ensures
        r == lower_char(c),
{
    if 'A' <= c && c <= 'Z' {
        ((c as u8) + 32) as char
    } else {
        c
    }
}

/// The characters of `s` with the ASCII capitals as small letters.
pub fn lower_chars(s: &str) -> (r: Vec<char>)
    ensures
        r@ == lower_text(s@),
{
    let v = chars_of(s);
    let mut out: Vec<char> = Vec::new();
    let mut i: usize = 0;
    while i < v.len()
        invariant
            i <= v.len(),
            out.len() == i,
            forall|j: int| 0 <= j < i ==> out[j] == lower_char(v[j]),
        decreases v.len() - i,
    {
        out.push(lower_char_exec(v[i]));
        i = i + 1;
    }
    assert(out@ == lower_text(v@));
    out
}

/// Whether two lists hold the same characters.
pub fn chars_eq(a: &Vec<char>, b: &Vec<char>) -> (r: bool)
    ensures
        r == (a@ == b@),
{
    if a.len() != b.len() {
        return false;
    }
    let mut i: usize = 0;
    while i < a.len()
        invariant
            i <= a.len(),
            a.len() == b.len(),
            forall|j: int| 0 <= j < i ==> a[j] == b[j],
        decreases a.len() - i,
    {
        if a[i] != b[i] {
            return false;
        }
        i = i + 1;
    }
    assert(a@ =~= b@);
    true
}

/// Whether `s` starts with `p`.
pub fn has_prefix(p: &Vec<char>, s: &Vec<char>) -> (r: bool)
    ensures
        r == is_prefix(p@, s@),
{
    if p.len() > s.len() {
        return false;
    }
    let mut i: usize = 0;
    while i < p.len()
        invariant
            i <= p.len() <= s.len(),
            forall|j: int| 0 <= j < i ==> p[j] == s[j],
        decreases p.len() - i,
    {
        if p[i] != s[i] {
            assert(s@.subrange(0, p.len() as int)[i as int] == s[i as int]);
            return false;
        }
        i = i + 1;
    }
    assert(s@.subrange(0, p.len() as int) =~= p@);
    true
}

/// The filter that applies to a request.
pub fn filter_of(query: &ListingQuery, user: Option<&User>) -> (r: Result<Filter, Error>)
    requires
        letter_in_order(*query),
    ensures
        match filter_for(
            *query,
            match user {
                Some(u) => Some(*u),
                None => None,
            },
        ) {
            Some(f) => r matches Ok(x) && x@ == f,
            None => r matches Err(e) && e@ == (ErrorKind::Unauthorized, Seq::<char>::empty()),
        },
{
    if query.q.is_some() {
        return Ok(Filter::Search);
    }
    match &query.letter {
        Some(l) => {
            let c = l.as_str().get_char(0);
            return Ok(Filter::Letter(lower_char_exec(c)));
        },
        None => {},
    }
    match &query.keyword {
        Some(k) => {
            return Ok(Filter::Keyword(lower_chars(k.as_str())));
        },
        None => {},
    }
    match &query.category {
        Some(c) => {
            return Ok(Filter::Category(chars_of(c.as_str())));
        },
        None => {},
    }
    match &query.user_id {
        Some(u) => match parse_whole(u.as_str()) {
            Some(id) => {
                return Ok(Filter::OwnedBy(id));
            },
            None => {},
        },
        None => {},
    }
    if query.following {
        match user {
            Some(u) => Ok(Filter::FollowedBy(u.id)),
            None => Err(Error::bare(ErrorKind::Unauthorized)),
        }
    } else {
        Ok(Filter::All)
    }
}

/// Whether the full-text index found the crate `id`.
pub open spec fn is_hit(hits: Seq<SearchHit>, id: i32) -> bool {
    exists|k: int| 0 <= k < hits.len() && (#[trigger] hits[k]).crate_id == id
}

/// How well the crate `id` fits the query: what its first hit says, or zero.
pub open spec fn rank_of(hits: Seq<SearchHit>, id: i32) -> i32
    decreases hits.len(),
{
    if hits.len() == 0 {
        0
    } else if hits[0].crate_id == id {
        hits[0].rank
    } else {
        rank_of(hits.drop_first(), id)
    }
}

/// Whether a canonical name starts with `l`, as a pattern reads `l`: `%`
/// stands for any text and `_` for any character.
pub open spec fn starts_like(name: Seq<char>, l: char) -> bool {
    if l == '%' {
        true
    } else if l == '_' {
        name.len() > 0
    } else {
        name.len() > 0 && name[0] == l
    }
}

/// Whether the crate `id` carries the keyword `kw`, capitals and small letters
/// alike. `kw` is in small letters.
pub open spec fn has_keyword(links: Seq<CrateKeyword>, id: i32, kw: Seq<char>) -> bool {
    exists|k: int|
        0 <= k < links.len() && (#[trigger] links[k]).crate_id == id && lower_text(links[k].keyword@)
            == kw
}

/// Whether a slug is `cat` or lies below it.
pub open spec fn slug_within(slug: Seq<char>, cat: Seq<char>) -> bool {
    slug == cat || is_prefix(cat + "::"@, slug)
}

/// Whether the crate `id` is filed under `cat` or below it.
pub open spec fn in_category(links: Seq<CrateCategory>, id: i32, cat: Seq<char>) -> bool {
    exists|k: int|
        0 <= k < links.len() && (#[trigger] links[k]).crate_id == id && slug_within(
            links[k].slug@,
            cat,
        )
}

/// Whether a grant of the crate `id` to the user `user_id` is in force.
pub open spec fn granted_to(grants: Seq<CrateOwner>, id: i32, user_id: i32) -> bool {
    exists|k: int|
        0 <= k < grants.len() && (#[trigger] grants[k]).crate_id == id && grants[k].owner_id
            == user_id && grants[k].owner_kind == OwnerKind::User && !grants[k].deleted
}

/// Whether the filter `f` lets the crate at `i` through.
pub open spec fn selected(conn: Registry, f: FilterView, hits: Seq<SearchHit>, i: int) -> bool {
    let c = conn.crates@[i];
    match f {
        FilterView::Search => is_hit(hits, c.id),
        FilterView::Letter(l) => starts_like(canonicalize(c.name@), l),
        FilterView::Keyword(kw) => has_keyword(conn.crates_keywords@, c.id, kw),
        FilterView::Category(cat) => in_category(conn.crates_categories@, c.id, cat),
        FilterView::OwnedBy(uid) => granted_to(conn.crate_owners@, c.id, uid),
        FilterView::FollowedBy(uid) => conn.follows@.contains(Follow { user_id: uid, crate_id: c.id }),
        FilterView::All => true,
    }
}

/// The test that picks the crates that the filter `f` lets through.
pub open spec fn selects(
    conn: Registry,
    f: FilterView,
    hits: Seq<SearchHit>,
) -> spec_fn(int) -> bool {
    |i: int| selected(conn, f, hits, i)
}

/// Whether the listing goes by downloads.
pub open spec fn by_downloads(query: ListingQuery) -> bool {
    opt_text(query.sort) == Some("downloads"@)
}

/// What the crate `c` is ranked by.
///
/// With a free-text query the crate whose name is the query comes first;
/// behind it the crates go by downloads, most first, where the listing goes
/// by downloads, else by how well they fit, best first. Without a query the
/// crates go by downloads, most first, or by name.
pub open spec fn listing_key(c: Crate, query: ListingQuery, hits: Seq<SearchHit>) -> KeyView {
    match query.q {
        Some(q) => KeyView {
            first: if c.name@ == q@ {
                0
            } else {
                1
            },
            second: if by_downloads(query) {
                -(c.downloads as int)
            } else {
                -(rank_of(hits, c.id) as int)
            },
            text: Seq::empty(),
        },
        None => if by_downloads(query) {
            KeyView { first: 0, second: -(c.downloads as int), text: Seq::empty() }
        } else {
            KeyView { first: 0, second: 0, text: c.name@ }
        },
    }
}

/// The keys of all crates, by position.
pub open spec fn listing_keys(
    conn: Registry,
    query: ListingQuery,
    hits: Seq<SearchHit>,
) -> Seq<KeyView> {
    Seq::new(conn.crates@.len(), |i: int| listing_key(conn.crates@[i], query, hits))
}

/// `pos` lists the crates that the filter lets through, each once, in the
/// order of the listing.
pub open spec fn listed(
    conn: Registry,
    query: ListingQuery,
    f: FilterView,
    hits: Seq<SearchHit>,
    pos: Seq<usize>,
) -> bool {
    &&& rearranged(pos, positions_where(conn.crates@.len() as int, selects(conn, f, hits)))
    &&& in_key_order(listing_keys(conn, query, hits), pos)
    &&& forall|k: int| 0 <= k < pos.len() ==> #[trigger] pos[k] < conn.crates@.len()
}

/// How well the crate `id` fits the query.
pub fn hit_rank(hits: &Vec<SearchHit>, id: i32) -> (r: Option<i32>)
    ensures
        r is Some == is_hit(hits@, id),
        r matches Some(x) ==> x == rank_of(hits@, id),
        r is None ==> rank_of(hits@, id) == 0,
{
    let mut k: usize = 0;
    assert(hits@.skip(0) == hits@);
    while k < hits.len()
        invariant
            k <= hits.len(),
            forall|j: int| 0 <= j < k ==> (#[trigger] hits@[j]).crate_id != id,
            rank_of(hits@, id) == rank_of(hits@.skip(k as int), id),
        decreases hits.len() - k,
    {
        assert(hits@.skip(k as int).drop_first() == hits@.skip(k + 1));
        if hits[k].crate_id == id {
            return Some(hits[k].rank);
        }
        k = k + 1;
    }
    None
}

impl Registry {
    /// Whether the crate `id` carries the keyword `kw`, which is in small
    /// letters.
    pub fn carries_keyword(&self, id: i32, kw: &Vec<char>) -> (r: bool)
        ensures
            r == has_keyword(self.crates_keywords@, id, kw@),
    {
        let mut k: usize = 0;
        while k < self.crates_keywords.len()
            invariant
                k <= self.crates_keywords.len(),
                forall|j: int|
                    0 <= j < k ==> !((#[trigger] self.crates_keywords@[j]).crate_id == id
                        && lower_text(self.crates_keywords@[j].keyword@) == kw@),
            decreases self.crates_keywords.len() - k,
        {
            if self.crates_keywords[k].crate_id == id {
                let have = lower_chars(self.crates_keywords[k].keyword.as_str());
                if chars_eq(&have, kw) {
                    return true;
                }
            }
            k = k + 1;
        }
        false
    }

    /// Whether the crate `id` is filed under `cat` or below it.
    pub fn filed_under(&self, id: i32, cat: &Vec<char>) -> (r: bool)
        ensures
            r == in_category(self.crates_categories@, id, cat@),
    {
        let mut below: Vec<char> = Vec::new();
        let mut i: usize = 0;
        while i < cat.len()
            invariant
                i <= cat.len(),
                below@ == cat@.subrange(0, i as int),
            decreases cat.len() - i,
        {
            below.push(cat[i]);
            i = i + 1;
            assert(below@ == cat@.subrange(0, i as int));
        }
        assert(cat@.subrange(0, cat.len() as int) == cat@);
        below.push(':');
        below.push(':');
        proof {
            reveal_strlit("::");
            assert(below@ =~= cat@ + "::"@);
        }
        let mut k: usize = 0;
        while k < self.crates_categories.len()
            invariant
                k <= self.crates_categories.len(),
                below@ == cat@ + "::"@,
                forall|j: int|
                    0 <= j < k ==> !((#[trigger] self.crates_categories@[j]).crate_id == id
                        && slug_within(self.crates_categories@[j].slug@, cat@)),
            decreases self.crates_categories.len() - k,
        {
            if self.crates_categories[k].crate_id == id {
                let slug = chars_of(self.crates_categories[k].slug.as_str());
                if chars_eq(&slug, cat) || has_prefix(&below, &slug) {
                    return true;
                }
            }
            k = k + 1;
        }
        false
    }

    /// Whether a grant of the crate `id` to the user `user_id` is in force.
    pub fn granted_to_user(&self, id: i32, user_id: i32) -> (r: bool)
        ensures
            r == granted_to(self.crate_owners@, id, user_id),
    {
        let mut k: usize = 0;
        while k < self.crate_owners.len()
            invariant
                k <= self.crate_owners.len(),
                forall|j: int|
                    0 <= j < k ==> !((#[trigger] self.crate_owners@[j]).crate_id == id
                        && self.crate_owners@[j].owner_id == user_id
                        && self.crate_owners@[j].owner_kind == OwnerKind::User
                        && !self.crate_owners@[j].deleted),
            decreases self.crate_owners.len() - k,
        {
            let g = self.crate_owners[k];
            if g.crate_id == id && g.owner_id == user_id && g.owner_kind.code() == 0 && !g.deleted {
                return true;
            }
            k = k + 1;
        }
        false
    }

    /// Whether the filter `f` lets the crate at `i` through.
    pub fn lets_through(&self, f: &Filter, hits: &Vec<SearchHit>, i: usize) -> (r: bool)
        requires
            self.wf(),
            i < self.crates@.len(),
        ensures
            r == selected(*self, f@, hits@, i as int),
    {
        let c = &self.crates[i];
        match f {
            Filter::Search => hit_rank(hits, c.id).is_some(),
            Filter::Letter(l) => {
                let name = chars_of(canon_crate_name(c.name.as_str()).as_str());
                if *l == '%' {
                    true
                } else if *l == '_' {
                    name.len() > 0
                } else {
                    name.len() > 0 && name[0] == *l
                }
            },
            Filter::Keyword(kw) => self.carries_keyword(c.id, kw),
            Filter::Category(cat) => self.filed_under(c.id, cat),
            Filter::OwnedBy(uid) => self.granted_to_user(c.id, *uid),
            Filter::FollowedBy(uid) => self.follow_position(
                Follow { user_id: *uid, crate_id: c.id },
            ).is_some(),
            Filter::All => true,
        }
    }

    /// The positions of the crates that the filter `f` lets through, rising.
    pub fn filtered(&self, f: &Filter, hits: &Vec<SearchHit>) -> (r: Vec<usize>)
        requires
            self.wf(),
        ensures
            r@ == positions_where(self.crates@.len() as int, selects(*self, f@, hits@)),
    {
        let mut out: Vec<usize> = Vec::new();
        let mut i: usize = 0;
        while i < self.crates.len()
            invariant
                i <= self.crates.len(),
                self.wf(),
                out@ == positions_where(i as int, selects(*self, f@, hits@)),
            decreases self.crates.len() - i,
        {
            if self.lets_through(f, hits, i) {
                out.push(i);
            }
            i = i + 1;
        }
        out
    }

    /// What each crate is ranked by in a listing.
    pub fn keys_for(&self, query: &ListingQuery, hits: &Vec<SearchHit>) -> (r: Vec<RankKey>)
        ensures
            key_views(r@) == listing_keys(*self, *query, hits@),
    {
        let downloads_first = match &query.sort {
            Some(s) => same_text(s.as_str(), "downloads"),
            None => false,
        };
        let mut out: Vec<RankKey> = Vec::new();
        let mut i: usize = 0;
        while i < self.crates.len()
            invariant
                i <= self.crates.len(),
                downloads_first == by_downloads(*query),
                out.len() == i,
                forall|j: int|
                    0 <= j < i ==> (#[trigger] out@[j])@ == listing_key(
                        self.crates@[j],
                        *query,
                        hits@,
                    ),
            decreases self.crates.len() - i,
        {
            let c = &self.crates[i];
            let key = match &query.q {
                Some(q) => {
                    let exact: i64 = if same_text(c.name.as_str(), q.as_str()) {
                        0
                    } else {
                        1
                    };
                    let weight: i64 = if downloads_first {
                        -(c.downloads as i64)
                    } else {
                        match hit_rank(hits, c.id) {
                            Some(x) => -(x as i64),
                            None => 0,
                        }
                    };
                    RankKey { first: exact, second: weight, text: Vec::new() }
                },
                None => {
                    if downloads_first {
                        RankKey { first: 0, second: -(c.downloads as i64), text: Vec::new() }
                    } else {
                        RankKey { first: 0, second: 0, text: chars_of(c.name.as_str()) }
                    }
                },
            };
            out.push(key);
            i = i + 1;
        }
        assert(key_views(out@) =~= listing_keys(*self, *query, hits@));
        out
    }

    /// The positions of the crates that a request lists, in the order of the
    /// listing, before the page is cut out.
    pub fn index_positions(
        &self,
        query: &ListingQuery,
        hits: &Vec<SearchHit>,
        f: &Filter,
    ) -> (r: Vec<usize>)
        requires
            self.wf(),
        ensures
            listed(*self, *query, f@, hits@, r@),
    {
        let picked = self.filtered(f, hits);
        let keys = self.keys_for(query, hits);
        let n = self.crates.len();
        proof {
            lemma_positions_where(n as int, selects(*self, f@, hits@));
            assert(key_views(keys@).len() == keys@.len());
        }
        sort_by_keys(keys, &picked)
    }
}

/// The test that picks the badges of the crate `id`.
pub open spec fn badge_for(badges: Seq<Badge>, id: i32) -> spec_fn(int) -> bool {
    |i: int| badges[i].crate_id == id
}

/// The badges of the crate `id`, in the order in which they are on record.
pub open spec fn crate_badges(conn: Registry, id: i32) -> Seq<Badge> {
    let pos = positions_where(conn.badges@.len() as int, badge_for(conn.badges@, id));
    Seq::new(pos.len(), |k: int| conn.badges@[pos[k] as int])
}

/// `rows` holds what the badges `badges` hold, in that order.
pub open spec fn badges_at(rows: Seq<Badge>, badges: Seq<Badge>) -> bool {
    rows.len() == badges.len() && forall|k: int|
        0 <= k < rows.len() ==> (#[trigger] rows[k])@ == badges[k]@
}

/// `e` shows the crate at `p` as a listing does: with its greatest version,
/// yanked ones counted where `yanked_too`, and with its badges where
/// `with_badges`.
pub open spec fn entry_shown(
    e: EncodableCrate,
    conn: Registry,
    p: int,
    yanked_too: bool,
    with_badges: bool,
) -> bool {
    let c = conn.crates@[p];
    &&& 0 <= p < conn.crates@.len()
    &&& is_max_version(conn.versions@, c.id, yanked_too, e.max_version@)
    &&& shows(
        e,
        c,
        e.max_version@,
        None,
        None,
        None,
        if with_badges {
            Some(crate_badges(conn, c.id))
        } else {
            None
        },
    )
}

/// `rows` shows the crates at `pos`, in that order.
pub open spec fn entries_shown(
    rows: Seq<EncodableCrate>,
    conn: Registry,
    pos: Seq<usize>,
    yanked_too: bool,
    with_badges: bool,
) -> bool {
    rows.len() == pos.len() && forall|k: int|
        0 <= k < pos.len() ==> entry_shown(
            #[trigger] rows[k],
            conn,
            pos[k] as int,
            yanked_too,
            with_badges,
        )
}

/// One page of a listing, and the number of all crates that the filter lets
/// through, which is the same on every page.
#[derive(Debug)]
pub struct ListingPage {
    pub crates: Vec<EncodableCrate>,
    pub total: i64,
}

impl Crate {
    /// The badges of the crate, in the order in which they are on record.
    pub fn badges(&self, conn: &Registry) -> (r: Vec<Badge>)
        ensures
            badges_at(r@, crate_badges(*conn, self.id)),
    {
        let mut pos: Vec<usize> = Vec::new();
        let mut out: Vec<Badge> = Vec::new();
        let mut i: usize = 0;
        while i < conn.badges.len()
            invariant
                i <= conn.badges.len(),
                pos@ == positions_where(i as int, badge_for(conn.badges@, self.id)),
                out.len() == pos.len(),
                forall|k: int| 0 <= k < pos.len() ==> #[trigger] pos@[k] < i,
                forall|k: int|
                    0 <= k < out.len() ==> (#[trigger] out@[k])@ == conn.badges@[pos@[k] as int]@,
            decreases conn.badges.len() - i,
        {
            if conn.badges[i].crate_id == self.id {
                pos.push(i);
                out.push(conn.badges[i].clone());
            }
            i = i + 1;
        }
        out
    }
}

impl Registry {
    /// The crate at `p` as a listing shows it.
    pub fn entry(&self, p: usize, yanked_too: bool, with_badges: bool) -> (r: EncodableCrate)
        requires
            self.wf(),
            p < self.crates@.len(),
        ensures
            entry_shown(r, *self, p as int, yanked_too, with_badges),
    {
        let c = self.crates[p].clone();
        let max_version = self.max_version_of(c.id, yanked_too);
        let badges = if with_badges {
            Some(c.badges(self))
        } else {
            None
        };
        let ghost id = c.id;
        let e = c.minimal_encodable(max_version, badges);
        proof {
            if with_badges {
                let shown = e.badges->0@;
                let have = crate_badges(*self, id);
                assert forall|i: int| 0 <= i < have.len() implies (#[trigger] shown[i]).badge_type@
                    == have[i].badge_type@ && shown[i].attributes@ == have[i].attributes@ by {
                    assert(badges->0@[i]@ == have[i]@);
                }
            }
        }
        e
    }

    /// The crates at `pos`, from `lo` up to `hi`, as a listing shows them.
    pub fn entries(
        &self,
        pos: &Vec<usize>,
        lo: usize,
        hi: usize,
        yanked_too: bool,
        with_badges: bool,
    ) -> (r: Vec<EncodableCrate>)
        requires
            self.wf(),
            lo <= hi <= pos.len(),
            forall|k: int| 0 <= k < pos.len() ==> #[trigger] pos[k] < self.crates@.len(),
        ensures
            entries_shown(r@, *self, pos@.subrange(lo as int, hi as int), yanked_too, with_badges),
    {
        let mut out: Vec<EncodableCrate> = Vec::new();
        let mut k: usize = lo;
        while k < hi
            invariant
                lo <= k <= hi <= pos.len(),
                self.wf(),
                forall|j: int| 0 <= j < pos.len() ==> #[trigger] pos[j] < self.crates@.len(),
                out.len() == k - lo,
                forall|j: int|
                    0 <= j < k - lo ==> entry_shown(
                        #[trigger] out@[j],
                        *self,
                        pos@[lo + j] as int,
                        yanked_too,
                        with_badges,
                    ),
            decreases hi - k,
        {
            out.push(self.entry(pos[k], yanked_too, with_badges));
            k = k + 1;
        }
        out
    }
}

/// What a request for a listing comes to: it is refused where it asks for
/// what a user follows and names no user; else it gets one page of the crates
/// that its filter lets through, in the order of the listing.
pub open spec fn index_done(
    conn: Registry,
    query: ListingQuery,
    hits: Seq<SearchHit>,
    user: Option<User>,
    offset: i64,
    limit: i64,
    r: Result<ListingPage, Error>,
) -> bool {
    match filter_for(query, user) {
        None => r matches Err(e) && e@ == (ErrorKind::Unauthorized, Seq::<char>::empty()),
        Some(f) => r matches Ok(page) && exists|pos: Seq<usize>| #[trigger]
            listed(conn, query, f, hits, pos) && entries_shown(
                page.crates@,
                conn,
                page_of(pos, offset as int, limit as int),
                false,
                true,
            ) && page.total == as_count(pos.len()),
    }
}

/// Lists crates. `hits` is what the full-text index found for the free-text
/// query, if the request has one; `user` is the acting user, if there is one.
pub fn index(
    conn: &Registry,
    query: &ListingQuery,
    hits: &Vec<SearchHit>,
    user: Option<&User>,
    offset: i64,
    limit: i64,
) -> (r: Result<ListingPage, Error>)
    requires
        conn.wf(),
        letter_in_order(*query),
    ensures
        index_done(
            *conn,
            *query,
            hits@,
            match user {
                Some(u) => Some(*u),
                None => None,
            },
            offset,
            limit,
            r,
        ),
{
    let f = filter_of(query, user)?;
    let pos = conn.index_positions(query, hits, &f);
    let (lo, hi) = page_bounds(pos.len(), offset, limit);
    let crates = conn.entries(&pos, lo, hi, false, true);
    let total = count_of(pos.len());
    proof {
        assert(page_of(pos@, offset as int, limit as int) == pos@.subrange(lo as int, hi as int));
    }
    Ok(ListingPage { crates, total })
}

/// The count that a request spells, or `fallback` where it spells none: the
/// text is absent, is no number, or is a number below zero.
pub open spec fn count_or(text: Option<Seq<char>>, fallback: i32) -> i32 {
    match text {
        Some(t) => match whole_number(t) {
            Some(n) => if n >= 0 {
                n
            } else {
                fallback
            },
            None => fallback,
        },
        None => fallback,
    }
}

fn read_count(text: Option<&str>, fallback: i32) -> (r: i32)
    ensures
        r == count_or(opt_str_text(text), fallback),
{
    match text {
        Some(t) => match parse_whole(t) {
            Some(n) => if n >= 0 {
                n
            } else {
                fallback
            },
            None => fallback,
        },
        None => fallback,
    }
}

/// Where a page starts and how many items it has. Pages are counted from one;
/// a request that names no page gets the first, and one that names no size
/// gets `default` items.
pub fn pagination(page: Option<&str>, per_page: Option<&str>, default: i32, max: i32) -> (r: Result<
    (i64, i64),
    Error,
>)
    ensures
        ({
            let p = count_or(opt_str_text(page), 1);
            let limit = count_or(opt_str_text(per_page), default);
            if limit > max {
                r matches Err(e) && e@ == (
                    ErrorKind::TooManyItems,
                    decimal_text(
                        if max >= 0 {
                            max as nat
                        } else {
                            0
                        },
                    ),
                )
            } else if p == 0 {
                r matches Err(e) && e@ == (ErrorKind::PageZero, Seq::<char>::empty())
            } else {
                r == Ok::<(i64, i64), Error>((((p - 1) * limit) as i64, limit as i64))
            }
        }),
{
    let p = read_count(page, 1);
    let limit = read_count(per_page, default);
    if limit > max {
        let shown: u64 = if max >= 0 {
            max as u64
        } else {
            0
        };
        return Err(Error { kind: ErrorKind::TooManyItems, detail: decimal(shown) });
    }
    if p == 0 {
        return Err(Error::bare(ErrorKind::PageZero));
    }
    let a: i64 = (p as i64) - 1;
    let b: i64 = limit as i64;
    assert(-0x4000_0000_0000_0000 <= a * b <= 0x4000_0000_0000_0000) by (nonlinear_arith)
        requires
            0 <= a < 0x8000_0000,
            -0x8000_0000 <= b < 0x8000_0000,
    ;
    let start: i64 = a * b;
    Ok((start, limit as i64))
}

} // verus!
