use crate_registry::clock::Timestamp;
use crate_registry::model::{
    Attribute, Badge, Category, Crate, CrateCategory, CrateKeyword, Keyword, NewCrate,
};
use crate_registry::registry::Registry;
use crate_registry::tags::BadgeInput;

fn named(name: &str) -> NewCrate<'_> {
    NewCrate {
        name,
        description: None,
        homepage: None,
        documentation: None,
        readme: None,
        repository: None,
        license: None,
        max_upload_size: None,
    }
}

fn setup() -> (Registry, Crate, Crate) {
    let mut conn = Registry::new(vec![]);
    let now = Timestamp::new(1, 0).unwrap();
    let a = named("a").create_or_update(&mut conn, None, 1, now).unwrap();
    let b = named("b").create_or_update(&mut conn, None, 1, now).unwrap();
    for (slug, name) in [("web", "Web"), ("web::http", "HTTP"), ("games", "Games")] {
        conn.categories.push(Category { slug: slug.to_string(), category: name.to_string() });
    }
    (conn, a, b)
}

fn strings(list: &[&str]) -> Vec<String> {
    list.iter().map(|s| s.to_string()).collect()
}

fn attribute(key: &str, value: &str) -> Attribute {
    Attribute { key: key.to_string(), value: value.to_string() }
}

#[test]
fn keywords_are_stored_in_small_letters_and_counted() {
    let (mut conn, a, b) = setup();
    conn.update_keywords(a.id, &strings(&["JSON", "Fast-IO"]));
    conn.update_keywords(b.id, &strings(&["json"]));
    assert_eq!(
        conn.crates_keywords,
        vec![
            CrateKeyword { crate_id: 1, keyword: "json".to_string() },
            CrateKeyword { crate_id: 1, keyword: "fast-io".to_string() },
            CrateKeyword { crate_id: 2, keyword: "json".to_string() },
        ]
    );
    assert_eq!(
        a.keywords(&conn),
        vec![
            Keyword { keyword: "json".to_string(), crates_cnt: 2 },
            Keyword { keyword: "fast-io".to_string(), crates_cnt: 1 },
        ]
    );
    assert_eq!(b.keywords(&conn), vec![Keyword { keyword: "json".to_string(), crates_cnt: 2 }]);
    assert_eq!(conn.keyword_count("json"), 2);
    assert_eq!(conn.keyword_count("JSON"), 0);
    assert!(conn.audit());
}

#[test]
fn keywords_are_replaced_behind_those_of_others() {
    let (mut conn, a, b) = setup();
    conn.update_keywords(a.id, &strings(&["one", "two"]));
    conn.update_keywords(b.id, &strings(&["three"]));
    conn.update_keywords(a.id, &strings(&["four"]));
    assert_eq!(
        conn.crates_keywords,
        vec![
            CrateKeyword { crate_id: 2, keyword: "three".to_string() },
            CrateKeyword { crate_id: 1, keyword: "four".to_string() },
        ]
    );
    conn.update_keywords(a.id, &vec![]);
    assert_eq!(conn.crates_keywords, vec![CrateKeyword { crate_id: 2, keyword: "three".to_string() }]);
    assert!(a.keywords(&conn).is_empty());
}

#[test]
fn unknown_categories_are_handed_back() {
    let (mut conn, a, b) = setup();
    let invalid = conn.update_categories(a.id, &strings(&["nope", "web", "Web", "web::http", ""]));
    assert_eq!(invalid, strings(&["nope", "Web", ""]));
    assert_eq!(
        conn.crates_categories,
        vec![
            CrateCategory { crate_id: 1, slug: "web".to_string() },
            CrateCategory { crate_id: 1, slug: "web::http".to_string() },
        ]
    );
    assert!(conn.knows_category("games"));
    assert!(!conn.knows_category("game"));
    assert_eq!(
        a.categories(&conn),
        vec![
            Category { slug: "web".to_string(), category: "Web".to_string() },
            Category { slug: "web::http".to_string(), category: "HTTP".to_string() },
        ]
    );
    assert!(b.categories(&conn).is_empty());
    assert_eq!(conn.update_categories(b.id, &strings(&["games"])), Vec::<String>::new());
    assert!(conn.update_categories(a.id, &vec![]).is_empty());
    assert_eq!(conn.crates_categories, vec![CrateCategory { crate_id: 2, slug: "games".to_string() }]);
}

#[test]
fn link_to_a_category_that_is_gone_gives_none() {
    let (mut conn, a, _) = setup();
    conn.crates_categories.push(CrateCategory { crate_id: a.id, slug: "gone".to_string() });
    conn.crates_categories.push(CrateCategory { crate_id: a.id, slug: "games".to_string() });
    assert_eq!(
        a.categories(&conn),
        vec![Category { slug: "games".to_string(), category: "Games".to_string() }]
    );
    assert_eq!(conn.count_filed("web"), 0);
    assert_eq!(conn.count_filed("games"), 1);
}

#[test]
fn unread_badges_are_handed_back() {
    let (mut conn, a, b) = setup();
    let inputs = vec![
        BadgeInput { badge_type: "bogus".to_string(), attributes: None },
        BadgeInput {
            badge_type: "travis-ci".to_string(),
            attributes: Some(vec![attribute("repository", "a/a"), attribute("branch", "main")]),
        },
        BadgeInput { badge_type: "worse".to_string(), attributes: None },
        BadgeInput { badge_type: "appveyor".to_string(), attributes: Some(vec![]) },
    ];
    let invalid = conn.update_badges(a.id, &inputs);
    assert_eq!(invalid, strings(&["bogus", "worse"]));
    assert_eq!(
        conn.badges,
        vec![
            Badge {
                crate_id: 1,
                badge_type: "travis-ci".to_string(),
                attributes: vec![attribute("repository", "a/a"), attribute("branch", "main")],
            },
            Badge { crate_id: 1, badge_type: "appveyor".to_string(), attributes: vec![] },
        ]
    );
    assert_eq!(a.badges(&conn), conn.badges);
    assert!(b.badges(&conn).is_empty());
    conn.update_badges(
        b.id,
        &vec![BadgeInput { badge_type: "gitlab".to_string(), attributes: Some(vec![]) }],
    );
    conn.update_badges(a.id, &vec![]);
    assert_eq!(
        conn.badges,
        vec![Badge { crate_id: 2, badge_type: "gitlab".to_string(), attributes: vec![] }]
    );
}

#[test]
fn badge_type_that_comes_again_is_passed_over() {
    let (mut conn, a, _) = setup();
    let inputs = vec![
        BadgeInput { badge_type: "travis-ci".to_string(), attributes: Some(vec![attribute("a", "1")]) },
        BadgeInput { badge_type: "gitlab".to_string(), attributes: None },
        BadgeInput { badge_type: "travis-ci".to_string(), attributes: Some(vec![attribute("a", "2")]) },
        BadgeInput { badge_type: "gitlab".to_string(), attributes: Some(vec![]) },
        BadgeInput {
            badge_type: "appveyor".to_string(),
            attributes: Some(vec![attribute("k", "1"), attribute("k", "2")]),
        },
    ];
    let invalid = conn.update_badges(a.id, &inputs);
    assert_eq!(invalid, strings(&["gitlab", "travis-ci", "gitlab", "appveyor"]));
    assert_eq!(
        conn.badges,
        vec![Badge {
            crate_id: a.id,
            badge_type: "travis-ci".to_string(),
            attributes: vec![attribute("a", "1")],
        }]
    );
    assert!(conn.audit());
}
