use crate_registry::clock::Timestamp;
use crate_registry::errors::ErrorKind;
use crate_registry::listing::{
    filter_of, hit_rank, index, lower_chars, pagination, Filter, ListingPage, ListingQuery,
    SearchHit,
};
use crate_registry::model::{
    Attribute, CrateCategory, CrateOwner, NewCrate, OwnerKind, User,
};
use crate_registry::follows::follow;
use crate_registry::registry::Registry;
use crate_registry::tags::BadgeInput;

fn at(sec: i64) -> Timestamp {
    Timestamp::new(sec, 0).unwrap()
}

fn named(name: &str) -> NewCrate<'_> {
    NewCrate {
        name,
        description: None,
        homepage: None,
        documentation: None,
        readme: None,
        repository: None,
        license: None,
        max_upload_size: None,
    }
}

fn query() -> ListingQuery {
    ListingQuery {
        sort: None,
        q: None,
        letter: None,
        keyword: None,
        category: None,
        user_id: None,
        following: false,
    }
}

fn some(s: &str) -> Option<String> {
    Some(s.to_string())
}

/// Crates with these names and downloads, all of user 1.
fn setup(crates: &[(&str, i32)]) -> Registry {
    let mut conn = Registry::new(vec![]);
    conn.add_user("alice", None, None).unwrap();
    conn.add_user("bob", None, None).unwrap();
    for (k, (name, downloads)) in crates.iter().enumerate() {
        named(name).create_or_update(&mut conn, None, 1, at(1)).unwrap();
        conn.crates[k].downloads = *downloads;
    }
    conn
}

fn names(page: &ListingPage) -> Vec<&str> {
    page.crates.iter().map(|c| c.name.as_str()).collect()
}

fn hit(crate_id: i32, rank: i32) -> SearchHit {
    SearchHit { crate_id, rank }
}

#[test]
fn all_crates_by_name() {
    let conn = setup(&[("delta", 1), ("alpha", 5), ("Charlie", 9), ("bravo", 2)]);
    let page = index(&conn, &query(), &vec![], None, 0, 10).unwrap();
    assert_eq!(names(&page), vec!["Charlie", "alpha", "bravo", "delta"]);
    assert_eq!(page.total, 4);
}

#[test]
fn all_crates_by_downloads() {
    let conn = setup(&[("delta", 1), ("alpha", 5), ("charlie", 9), ("bravo", 5)]);
    let mut q = query();
    q.sort = some("downloads");
    let page = index(&conn, &q, &vec![], None, 0, 10).unwrap();
    assert_eq!(names(&page), vec!["charlie", "alpha", "bravo", "delta"]);
}

#[test]
fn unknown_sort_means_by_name() {
    let conn = setup(&[("b", 1), ("a", 5)]);
    let mut q = query();
    q.sort = some("Downloads");
    assert_eq!(names(&index(&conn, &q, &vec![], None, 0, 10).unwrap()), vec!["a", "b"]);
    q.sort = some("alpha");
    assert_eq!(names(&index(&conn, &q, &vec![], None, 0, 10).unwrap()), vec!["a", "b"]);
}

#[test]
fn pages_are_cut_and_counted() {
    let conn = setup(&[("a", 0), ("b", 0), ("c", 0), ("d", 0), ("e", 0)]);
    let page = index(&conn, &query(), &vec![], None, 0, 2).unwrap();
    assert_eq!(names(&page), vec!["a", "b"]);
    assert_eq!(page.total, 5);
    let page = index(&conn, &query(), &vec![], None, 4, 2).unwrap();
    assert_eq!(names(&page), vec!["e"]);
    assert_eq!(page.total, 5);
    let page = index(&conn, &query(), &vec![], None, 5, 2).unwrap();
    assert!(page.crates.is_empty());
    assert_eq!(page.total, 5);
    let page = index(&conn, &query(), &vec![], None, 0, 0).unwrap();
    assert!(page.crates.is_empty());
    assert_eq!(page.total, 5);
    let page = index(&conn, &query(), &vec![], None, 3, 10).unwrap();
    assert_eq!(names(&page), vec!["d", "e"]);
    assert_eq!(page.total, 5);
}

#[test]
fn total_counts_what_the_filter_lets_through() {
    let conn = setup(&[("apple", 0), ("avocado", 0), ("banana", 0)]);
    let mut q = query();
    q.letter = some("a");
    for (offset, limit) in [(0, 1), (1, 1), (2, 1), (9, 9), (0, 0)] {
        assert_eq!(index(&conn, &q, &vec![], None, offset, limit).unwrap().total, 2);
    }
}

#[test]
fn exact_match_comes_first_by_downloads() {
    let conn = setup(&[("foo-bar", 900), ("foo", 1), ("foobar", 500), ("other", 1000)]);
    let hits = vec![hit(1, 70), hit(3, 90), hit(2, 10)];
    let mut q = query();
    q.q = some("foo");
    q.sort = some("downloads");
    let page = index(&conn, &q, &hits, None, 0, 10).unwrap();
    assert_eq!(names(&page), vec!["foo", "foo-bar", "foobar"]);
    assert_eq!(page.total, 3);
    let first = index(&conn, &q, &hits, None, 0, 1).unwrap();
    assert_eq!(names(&first), vec!["foo"]);
}

#[test]
fn exact_match_comes_first_by_fit() {
    let conn = setup(&[("foo-bar", 900), ("foo", 1), ("foobar", 500), ("other", 1000)]);
    let hits = vec![hit(1, 70), hit(3, 90), hit(2, 10)];
    let mut q = query();
    q.q = some("foo");
    let page = index(&conn, &q, &hits, None, 0, 10).unwrap();
    assert_eq!(names(&page), vec!["foo", "foobar", "foo-bar"]);
}

#[test]
fn exact_match_goes_by_letters_not_slots() {
    let conn = setup(&[("Foo", 1), ("bar", 2)]);
    let hits = vec![hit(1, 1), hit(2, 2)];
    let mut q = query();
    q.q = some("foo");
    let page = index(&conn, &q, &hits, None, 0, 10).unwrap();
    assert_eq!(names(&page), vec!["bar", "Foo"]);
}

#[test]
fn query_without_hits_lists_nothing() {
    let conn = setup(&[("foo", 1)]);
    let mut q = query();
    q.q = some("foo");
    let page = index(&conn, &q, &vec![], None, 0, 10).unwrap();
    assert!(page.crates.is_empty());
    assert_eq!(page.total, 0);
}

#[test]
fn first_hit_gives_the_rank() {
    let hits = vec![hit(4, 7), hit(5, 1), hit(4, 9)];
    assert_eq!(hit_rank(&hits, 4), Some(7));
    assert_eq!(hit_rank(&hits, 5), Some(1));
    assert_eq!(hit_rank(&hits, 6), None);
}

#[test]
fn letter_filter_ignores_case() {
    let conn = setup(&[("apple", 0), ("Avocado", 0), ("banana", 0)]);
    let mut q = query();
    q.letter = some("A");
    assert_eq!(names(&index(&conn, &q, &vec![], None, 0, 10).unwrap()), vec!["Avocado", "apple"]);
    q.letter = some("bzzz");
    assert_eq!(names(&index(&conn, &q, &vec![], None, 0, 10).unwrap()), vec!["banana"]);
    q.letter = some("c");
    assert!(index(&conn, &q, &vec![], None, 0, 10).unwrap().crates.is_empty());
}

#[test]
fn letter_filter_reads_pattern_signs() {
    let conn = setup(&[("apple", 0), ("banana", 0)]);
    let mut q = query();
    q.letter = some("%");
    assert_eq!(index(&conn, &q, &vec![], None, 0, 10).unwrap().total, 2);
    q.letter = some("_");
    assert_eq!(index(&conn, &q, &vec![], None, 0, 10).unwrap().total, 2);
}

#[test]
fn keyword_filter_ignores_case() {
    let mut conn = setup(&[("a", 0), ("b", 0), ("c", 0)]);
    conn.update_keywords(1, &vec!["Parser".to_string(), "json".to_string()]);
    conn.update_keywords(3, &vec!["PARSER".to_string()]);
    let mut q = query();
    q.keyword = some("parser");
    assert_eq!(names(&index(&conn, &q, &vec![], None, 0, 10).unwrap()), vec!["a", "c"]);
    q.keyword = some("JSON");
    assert_eq!(names(&index(&conn, &q, &vec![], None, 0, 10).unwrap()), vec!["a"]);
    q.keyword = some("xml");
    assert_eq!(index(&conn, &q, &vec![], None, 0, 10).unwrap().total, 0);
}

#[test]
fn category_filter_takes_the_category_and_what_is_below() {
    let mut conn = setup(&[("a", 0), ("b", 0), ("c", 0), ("d", 0)]);
    for (crate_id, slug) in [(1, "web"), (2, "web::http"), (3, "webby"), (4, "games")] {
        conn.crates_categories.push(CrateCategory { crate_id, slug: slug.to_string() });
    }
    let mut q = query();
    q.category = some("web");
    assert_eq!(names(&index(&conn, &q, &vec![], None, 0, 10).unwrap()), vec!["a", "b"]);
    q.category = some("web::http");
    assert_eq!(names(&index(&conn, &q, &vec![], None, 0, 10).unwrap()), vec!["b"]);
    q.category = some("we");
    assert_eq!(index(&conn, &q, &vec![], None, 0, 10).unwrap().total, 0);
}

#[test]
fn owner_filter_takes_user_grants() {
    let mut conn = setup(&[("a", 0), ("b", 0), ("c", 0)]);
    conn.crate_owners.push(CrateOwner {
        crate_id: 2,
        owner_id: 2,
        created_by: 1,
        owner_kind: OwnerKind::User,
        deleted: false,
    });
    conn.crate_owners.push(CrateOwner {
        crate_id: 3,
        owner_id: 2,
        created_by: 1,
        owner_kind: OwnerKind::Team,
        deleted: false,
    });
    let mut q = query();
    q.user_id = some("2");
    assert_eq!(names(&index(&conn, &q, &vec![], None, 0, 10).unwrap()), vec!["b"]);
    q.user_id = some("1");
    assert_eq!(index(&conn, &q, &vec![], None, 0, 10).unwrap().total, 3);
}

#[test]
fn owner_filter_passes_over_withdrawn_grants() {
    let mut conn = setup(&[("a", 0), ("b", 0), ("c", 0)]);
    conn.crate_owners[1].deleted = true;
    let mut q = query();
    q.user_id = some("1");
    assert_eq!(names(&index(&conn, &q, &vec![], None, 0, 10).unwrap()), vec!["a", "c"]);
    assert!(conn.granted_to_user(1, 1));
    assert!(!conn.granted_to_user(2, 1));
}

#[test]
fn owner_that_is_no_number_is_passed_over() {
    let conn = setup(&[("a", 0), ("b", 0)]);
    let mut q = query();
    q.user_id = some("two");
    assert_eq!(index(&conn, &q, &vec![], None, 0, 10).unwrap().total, 2);
}

#[test]
fn followed_crates_take_a_user() {
    let mut conn = setup(&[("a", 0), ("b", 0)]);
    let bob = User { id: 2, gh_login: "bob".to_string(), name: None, avatar: None };
    follow(&mut conn, &bob, "b").unwrap();
    let mut q = query();
    q.following = true;
    assert_eq!(names(&index(&conn, &q, &vec![], Some(&bob), 0, 10).unwrap()), vec!["b"]);
    let e = index(&conn, &q, &vec![], None, 0, 10).unwrap_err();
    assert_eq!(e.kind, ErrorKind::Unauthorized);
}

#[test]
fn first_filter_in_rank_applies() {
    let bob = User { id: 2, gh_login: "bob".to_string(), name: None, avatar: None };
    let mut q = ListingQuery {
        sort: None,
        q: some("x"),
        letter: some("Q"),
        keyword: some("K"),
        category: some("c"),
        user_id: some("12"),
        following: true,
    };
    assert!(matches!(filter_of(&q, None).unwrap(), Filter::Search));
    q.q = None;
    assert!(matches!(filter_of(&q, None).unwrap(), Filter::Letter('q')));
    q.letter = None;
    match filter_of(&q, None).unwrap() {
        Filter::Keyword(k) => assert_eq!(k, vec!['k']),
        _ => panic!("keyword filter expected"),
    }
    q.keyword = None;
    match filter_of(&q, None).unwrap() {
        Filter::Category(c) => assert_eq!(c, vec!['c']),
        _ => panic!("category filter expected"),
    }
    q.category = None;
    assert!(matches!(filter_of(&q, None).unwrap(), Filter::OwnedBy(12)));
    q.user_id = some("-3");
    assert!(matches!(filter_of(&q, None).unwrap(), Filter::OwnedBy(-3)));
    q.user_id = some("99999999999");
    assert!(matches!(filter_of(&q, Some(&bob)).unwrap(), Filter::FollowedBy(2)));
    q.user_id = None;
    assert_eq!(filter_of(&q, None).unwrap_err().kind, ErrorKind::Unauthorized);
    q.following = false;
    assert!(matches!(filter_of(&q, None).unwrap(), Filter::All));
}

#[test]
fn small_letters_of_ascii_only() {
    assert_eq!(lower_chars("AbC-Z_1É"), vec!['a', 'b', 'c', '-', 'z', '_', '1', 'É']);
}

#[test]
fn entries_carry_greatest_version_and_badges() {
    let mut conn = setup(&[("a", 3)]);
    let a = conn.crates[0].clone();
    a.add_version(&mut conn, "1.0.0", &vec![], &vec![], at(2)).unwrap();
    a.add_version(&mut conn, "2.0.0", &vec![], &vec![], at(2)).unwrap();
    conn.versions[1].yanked = true;
    let attributes = vec![Attribute { key: "repository".to_string(), value: "a/a".to_string() }];
    conn.update_badges(
        1,
        &vec![BadgeInput { badge_type: "travis-ci".to_string(), attributes: Some(attributes.clone()) }],
    );
    let page = index(&conn, &query(), &vec![], None, 0, 10).unwrap();
    let e = &page.crates[0];
    assert_eq!(e.id, "a");
    assert_eq!(e.downloads, 3);
    // the greatest version that is not yanked
    assert_eq!(e.max_version, "1.0.0");
    let badges = e.badges.as_ref().unwrap();
    assert_eq!(badges.len(), 1);
    assert_eq!(badges[0].badge_type, "travis-ci");
    assert_eq!(badges[0].attributes, attributes);
    assert!(e.versions.is_none());
    assert!(e.keywords.is_none());
    assert_eq!(e.links.versions, some("/api/v1/crates/a/versions"));
}

#[test]
fn pages_are_counted_from_one() {
    assert_eq!(pagination(None, None, 10, 100).unwrap(), (0, 10));
    assert_eq!(pagination(Some("1"), Some("25"), 10, 100).unwrap(), (0, 25));
    assert_eq!(pagination(Some("3"), Some("25"), 10, 100).unwrap(), (50, 25));
    assert_eq!(pagination(Some("4"), None, 10, 100).unwrap(), (30, 10));
    assert_eq!(pagination(Some("7"), Some("0"), 10, 100).unwrap(), (0, 0));
    assert_eq!(pagination(Some("2"), Some("100"), 10, 100).unwrap(), (100, 100));
    assert_eq!(
        pagination(Some("2147483647"), Some("2147483647"), 10, i32::MAX).unwrap(),
        (2147483646 * 2147483647, 2147483647)
    );
}

#[test]
fn what_is_no_count_is_passed_over() {
    assert_eq!(pagination(Some("x"), Some(""), 10, 100).unwrap(), (0, 10));
    assert_eq!(pagination(Some("-2"), Some("-5"), 10, 100).unwrap(), (0, 10));
    assert_eq!(pagination(Some("3000000000"), Some("1.5"), 10, 100).unwrap(), (0, 10));
}

#[test]
fn too_many_items_and_page_zero_are_refused() {
    let e = pagination(None, Some("101"), 10, 100).unwrap_err();
    assert_eq!(e.kind, ErrorKind::TooManyItems);
    assert_eq!(e.message(), "cannot request more than 100 items");
    let e = pagination(Some("0"), None, 10, 100).unwrap_err();
    assert_eq!(e.kind, ErrorKind::PageZero);
    assert_eq!(e.message(), "page indexing starts from 1, page 0 is invalid");
    let e = pagination(Some("0"), Some("101"), 10, 100).unwrap_err();
    assert_eq!(e.kind, ErrorKind::TooManyItems);
}
