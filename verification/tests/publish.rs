use crate_registry::clock::Timestamp;
use crate_registry::errors::{ErrorKind, UrlField};
use crate_registry::model::{
    Attribute, Crate, CrateCategory, CrateKeyword, CrateOwner, DependencyKind, Feature,
    NewDependency, OwnerKind, User, Category,
};
use crate_registry::publish::{
    after_registration, after_upload, check_metadata, frame, index_entry, new, Bomb, Publication,
    UploadOutcome, UploadRequest,
};
use crate_registry::registry::Registry;
use crate_registry::tags::BadgeInput;

const DEFAULT_MAX: u64 = 10 * 1024 * 1024;

fn at(sec: i64) -> Timestamp {
    Timestamp::new(sec, 0).unwrap()
}

fn some(s: &str) -> Option<String> {
    Some(s.to_string())
}

fn request(name: &str, vers: &str) -> UploadRequest {
    UploadRequest {
        name: name.to_string(),
        vers: vers.to_string(),
        deps: vec![],
        features: vec![],
        authors: vec!["Someone <s@example.com>".to_string()],
        description: some("what it does"),
        homepage: None,
        documentation: None,
        readme: None,
        keywords: None,
        categories: None,
        license: some("MIT/Apache-2.0"),
        license_file: None,
        repository: None,
        badges: None,
    }
}

fn dep(name: &str) -> NewDependency {
    NewDependency {
        name: name.to_string(),
        version_req: "^1".to_string(),
        optional: false,
        default_features: true,
        features: vec![],
        target: None,
        kind: None,
    }
}

fn setup() -> (Registry, User, User) {
    let mut conn = Registry::new(vec!["reserved".to_string()]);
    let alice = conn.add_user("alice", None, None).unwrap();
    let bob = conn.add_user("bob", None, None).unwrap();
    conn.categories.push(Category { slug: "web".to_string(), category: "Web".to_string() });
    conn.categories.push(Category { slug: "web::http".to_string(), category: "HTTP".to_string() });
    (conn, alice, bob)
}

fn publish(conn: &mut Registry, req: &UploadRequest, user: &User) -> Publication {
    new(conn, req, user, &vec![], Some(1000), DEFAULT_MAX, at(50)).unwrap()
}

fn refused(conn: &mut Registry, req: &UploadRequest, user: &User) -> crate_registry::errors::Error {
    let crates = conn.crates.clone();
    let grants = conn.crate_owners.clone();
    let versions = conn.versions.clone();
    let dependencies = conn.dependencies.clone();
    let keywords = conn.crates_keywords.clone();
    let categories = conn.crates_categories.clone();
    let badges = conn.badges.clone();
    let e = new(conn, req, user, &vec![], Some(1000), DEFAULT_MAX, at(60)).unwrap_err();
    assert_eq!(conn.crates, crates);
    assert_eq!(conn.crate_owners, grants);
    assert_eq!(conn.versions, versions);
    assert_eq!(conn.dependencies, dependencies);
    assert_eq!(conn.crates_keywords, keywords);
    assert_eq!(conn.crates_categories, categories);
    assert_eq!(conn.badges, badges);
    e
}

#[test]
fn frame_reads_a_length_and_its_bytes() {
    let body: Vec<u8> = vec![3, 0, 0, 0, b'a', b'b', b'c', 2, 0, 0, 0, b'x', b'y'];
    assert_eq!(frame(&body, 0, 10).unwrap(), (4, 7));
    assert_eq!(frame(&body, 7, 10).unwrap(), (11, 13));
    assert_eq!(frame(&vec![0, 0, 0, 0], 0, 0).unwrap(), (4, 4));
}

#[test]
fn frame_reads_the_least_significant_byte_first() {
    let mut body: Vec<u8> = vec![0x02, 0x01, 0, 0];
    body.extend(std::iter::repeat(7u8).take(258));
    assert_eq!(frame(&body, 0, 1000).unwrap(), (4, 262));
}

#[test]
fn frame_refuses_what_is_too_long() {
    let body: Vec<u8> = vec![3, 0, 0, 0, b'a', b'b', b'c'];
    let e = frame(&body, 0, 2).unwrap_err();
    assert_eq!(e.kind, ErrorKind::TooLarge);
    assert_eq!(e.detail, "2");
    assert_eq!(e.message(), "max upload size is: 2");
    let huge: Vec<u8> = vec![0xff, 0xff, 0xff, 0xff];
    let e = frame(&huge, 0, DEFAULT_MAX).unwrap_err();
    assert_eq!(e.message(), "max upload size is: 10485760");
}

#[test]
fn frame_refuses_a_body_that_ends_early() {
    let body: Vec<u8> = vec![3, 0, 0, 0, b'a', b'b'];
    assert_eq!(frame(&body, 0, 10).unwrap_err().kind, ErrorKind::InvalidRequest);
    assert_eq!(frame(&vec![1, 0, 0], 0, 10).unwrap_err().kind, ErrorKind::InvalidRequest);
    assert_eq!(frame(&vec![], 0, 10).unwrap_err().kind, ErrorKind::InvalidRequest);
    assert_eq!(frame(&body, 3, 10).unwrap_err().kind, ErrorKind::InvalidRequest);
    assert_eq!(frame(&body, usize::MAX, 10).unwrap_err().kind, ErrorKind::InvalidRequest);
}

#[test]
fn complete_request_passes() {
    assert!(check_metadata(&request("foo", "1.0.0")).is_ok());
    let mut r = request("foo", "1.0.0");
    r.license = None;
    r.license_file = some("LICENSE");
    r.authors = vec![String::new(), "me".to_string()];
    assert!(check_metadata(&r).is_ok());
}

#[test]
fn missing_fields_are_reported_together() {
    let mut r = request("foo", "1.0.0");
    r.description = None;
    r.license = some("");
    r.authors = vec![];
    let e = check_metadata(&r).unwrap_err();
    assert_eq!(e.kind, ErrorKind::MissingFields);
    assert_eq!(e.detail, "description, license, authors");
    assert_eq!(
        e.message(),
        "missing or empty metadata fields: description, license, authors. Please see \
         http://doc.crates.io/manifest.html#package-metadata for how to upload metadata"
    );
}

#[test]
fn each_missing_field_is_named() {
    let mut r = request("foo", "1.0.0");
    r.description = some("");
    assert_eq!(check_metadata(&r).unwrap_err().detail, "description");
    let mut r = request("foo", "1.0.0");
    r.license = None;
    assert_eq!(check_metadata(&r).unwrap_err().detail, "license");
    r.license_file = some("");
    assert_eq!(check_metadata(&r).unwrap_err().detail, "license");
    let mut r = request("foo", "1.0.0");
    r.authors = vec![String::new(), String::new()];
    assert_eq!(check_metadata(&r).unwrap_err().detail, "authors");
    r.description = None;
    assert_eq!(check_metadata(&r).unwrap_err().detail, "description, authors");
    r.description = some("d");
    r.license = None;
    assert_eq!(check_metadata(&r).unwrap_err().detail, "license, authors");
    r.authors = vec!["a".to_string()];
    r.description = None;
    assert_eq!(check_metadata(&r).unwrap_err().detail, "description, license");
}

#[test]
fn first_publish_writes_crate_grant_and_version() {
    let (mut conn, alice, _) = setup();
    let mut req = request("foo", "1.0.0");
    req.features = vec![Feature { name: "std".to_string(), enables: vec![] }];
    let p = publish(&mut conn, &req, &alice);
    assert_eq!(p.krate.id, 1);
    assert_eq!(p.krate.name, "foo");
    assert_eq!(p.krate.license, some("MIT/Apache-2.0"));
    assert_eq!(p.krate.description, some("what it does"));
    assert_eq!(p.krate.created_at, at(50));
    assert_eq!(p.version.num, "1.0.0");
    assert_eq!(p.version.crate_id, 1);
    assert_eq!(p.version.features, req.features);
    assert_eq!(p.version.authors, req.authors);
    assert_eq!(p.max_upload, DEFAULT_MAX);
    assert!(p.deps.is_empty());
    assert!(p.warnings.invalid_categories.is_empty());
    assert!(p.warnings.invalid_badges.is_empty());
    assert_eq!(p.response.name, "foo");
    assert_eq!(p.response.max_version, "1.0.0");
    assert_eq!(p.response.badges, None);
    assert_eq!(conn.crates, vec![p.krate.clone()]);
    assert_eq!(conn.versions, vec![p.version.clone()]);
    assert_eq!(
        conn.crate_owners,
        vec![CrateOwner {
            crate_id: 1,
            owner_id: alice.id,
            created_by: alice.id,
            owner_kind: OwnerKind::User,
            deleted: false
        }]
    );
}

#[test]
fn unknown_license_fails_and_writes_nothing() {
    let (mut conn, alice, _) = setup();
    let mut req = request("foo", "1.0.0");
    req.license = some("NOT-A-LICENSE");
    let e = refused(&mut conn, &req, &alice);
    assert_eq!(e.kind, ErrorKind::License);
    assert!(conn.crates.is_empty());
    assert!(conn.versions.is_empty());
    assert!(conn.crate_owners.is_empty());
    assert_eq!(conn.next_crate_id, 1);
}

#[test]
fn bad_link_fails_and_writes_nothing() {
    let (mut conn, alice, _) = setup();
    let mut req = request("foo", "1.0.0");
    req.repository = some("git://example.com/foo");
    let e = refused(&mut conn, &req, &alice);
    assert_eq!(e.kind, ErrorKind::UrlScheme(UrlField::Repository));
}

#[test]
fn missing_fields_come_before_all_else() {
    let (mut conn, alice, _) = setup();
    let mut req = request("reserved", "not a version");
    req.description = None;
    req.license = some("NOT-A-LICENSE");
    assert_eq!(refused(&mut conn, &req, &alice).kind, ErrorKind::MissingFields);
    req.description = some("d");
    assert_eq!(refused(&mut conn, &req, &alice).kind, ErrorKind::License);
    req.license = some("MIT");
    assert_eq!(refused(&mut conn, &req, &alice).kind, ErrorKind::ReservedName);
}

#[test]
fn second_version_by_the_owner_updates_the_crate() {
    let (mut conn, alice, _) = setup();
    publish(&mut conn, &request("foo", "1.0.0"), &alice);
    let mut req = request("foo", "1.1.0");
    req.description = some("new words");
    let p = publish(&mut conn, &req, &alice);
    assert_eq!(p.krate.id, 1);
    assert_eq!(p.krate.description, some("new words"));
    assert_eq!(p.krate.created_at, at(50));
    assert_eq!(p.version.id, 2);
    assert_eq!(p.response.max_version, "1.1.0");
    assert_eq!(conn.crates.len(), 1);
    assert_eq!(conn.versions.len(), 2);
    assert_eq!(conn.crate_owners.len(), 1);
}

#[test]
fn stranger_cannot_publish_to_a_claimed_name() {
    let (mut conn, alice, bob) = setup();
    publish(&mut conn, &request("foo", "1.0.0"), &alice);
    let mut req = request("foo", "2.0.0");
    req.description = some("hijacked");
    let e = refused(&mut conn, &req, &bob);
    assert_eq!(e.kind, ErrorKind::NameClaimed);
    assert_eq!(e.message(), "crate name has already been claimed by another user");
    assert_eq!(conn.crates[0].description, some("what it does"));
}

#[test]
fn team_member_can_publish() {
    let (mut conn, alice, bob) = setup();
    let p = publish(&mut conn, &request("foo", "1.0.0"), &alice);
    p.krate
        .owner_add(
            &mut conn,
            &alice,
            "github:org:team",
            &vec![],
            &crate_registry::owners::TeamAnswer::Granted(crate_registry::owners::NewTeam {
                github_id: 1,
                name: None,
                avatar: None,
            }),
        )
        .unwrap();
    let req = request("foo", "2.0.0");
    let e = new(&mut conn, &req, &bob, &vec![], Some(10), DEFAULT_MAX, at(60)).unwrap_err();
    assert_eq!(e.kind, ErrorKind::NameClaimed);
    let p = new(&mut conn, &req, &bob, &vec![1], Some(10), DEFAULT_MAX, at(60)).unwrap();
    assert_eq!(p.version.num, "2.0.0");
    assert_eq!(conn.crate_owners.len(), 2);
}

#[test]
fn other_spelling_of_the_name_is_refused() {
    let (mut conn, alice, _) = setup();
    publish(&mut conn, &request("Foo-Bar", "1.0.0"), &alice);
    let e = refused(&mut conn, &request("foo_bar", "1.1.0"), &alice);
    assert_eq!(e.kind, ErrorKind::PreviouslyNamed);
    assert_eq!(e.detail, "Foo-Bar");
    assert_eq!(e.message(), "crate was previously named `Foo-Bar`");
}

#[test]
fn upload_length_is_held_against_the_limit() {
    let (mut conn, alice, _) = setup();
    let req = request("foo", "1.0.0");
    let e = new(&mut conn, &req, &alice, &vec![], None, DEFAULT_MAX, at(60)).unwrap_err();
    assert_eq!(e.kind, ErrorKind::MissingContentLength);
    assert_eq!(e.message(), "missing header: Content-Length");
    let e = new(&mut conn, &req, &alice, &vec![], Some(101), 100, at(60)).unwrap_err();
    assert_eq!(e.kind, ErrorKind::TooLarge);
    assert_eq!(e.message(), "max upload size is: 100");
    assert!(conn.crates.is_empty());
    assert!(new(&mut conn, &req, &alice, &vec![], Some(100), 100, at(60)).is_ok());
}

#[test]
fn limit_of_the_crate_comes_before_the_default() {
    let (mut conn, alice, _) = setup();
    publish(&mut conn, &request("foo", "1.0.0"), &alice);
    conn.crates[0].max_upload_size = Some(5000);
    let req = request("foo", "1.1.0");
    let e = new(&mut conn, &req, &alice, &vec![], Some(5001), 100, at(60)).unwrap_err();
    assert_eq!(e.message(), "max upload size is: 5000");
    let p = new(&mut conn, &req, &alice, &vec![], Some(5000), 100, at(60)).unwrap();
    assert_eq!(p.max_upload, 5000);
}

#[test]
fn same_version_twice_is_refused() {
    let (mut conn, alice, _) = setup();
    publish(&mut conn, &request("foo", "1.0.0"), &alice);
    let mut req = request("foo", "1.0.0");
    req.deps = vec![dep("foo")];
    req.description = some("changed");
    let e = refused(&mut conn, &req, &alice);
    assert_eq!(e.kind, ErrorKind::VersionExists);
    assert!(conn.dependencies.is_empty());
    assert_eq!(conn.crates[0].description, some("what it does"));
}

#[test]
fn bad_version_number_is_refused() {
    let (mut conn, alice, _) = setup();
    let e = refused(&mut conn, &request("foo", "1.0"), &alice);
    assert_eq!(e.kind, ErrorKind::VersionInvalid);
    assert!(conn.crates.is_empty());
}

#[test]
fn dependencies_are_linked_and_listed() {
    let (mut conn, alice, _) = setup();
    publish(&mut conn, &request("Base-Lib", "1.0.0"), &alice);
    let mut req = request("app", "0.1.0");
    let mut dev = dep("base_lib");
    dev.kind = Some(DependencyKind::Dev);
    req.deps = vec![dev, dep("app")];
    let p = publish(&mut conn, &req, &alice);
    assert_eq!(p.deps.len(), 2);
    assert_eq!(p.deps[0].name, "Base-Lib");
    assert_eq!(p.deps[0].kind, DependencyKind::Dev);
    assert_eq!(p.deps[1].name, "app");
    assert_eq!(p.deps[1].kind, DependencyKind::Normal);
    assert_eq!(conn.dependencies.len(), 2);
    assert_eq!(conn.dependencies[0].version_id, p.version.id);
    assert_eq!(conn.dependencies[0].crate_id, 1);
    assert_eq!(conn.dependencies[1].crate_id, p.krate.id);
    assert_eq!((conn.dependencies[0].id, conn.dependencies[1].id), (1, 2));
}

#[test]
fn unknown_dependency_fails_the_whole_publish() {
    let (mut conn, alice, _) = setup();
    publish(&mut conn, &request("base", "1.0.0"), &alice);
    let mut req = request("app", "0.1.0");
    req.deps = vec![dep("base"), dep("ghost"), dep("phantom")];
    let e = refused(&mut conn, &req, &alice);
    assert_eq!(e.kind, ErrorKind::DependencyNotFound);
    assert_eq!(e.detail, "ghost");
    assert_eq!(conn.crates.len(), 1);
    assert_eq!(conn.versions.len(), 1);
}

#[test]
fn keywords_categories_and_badges_are_replaced() {
    let (mut conn, alice, _) = setup();
    let mut req = request("foo", "1.0.0");
    req.keywords = Some(vec!["JSON".to_string(), "parser".to_string()]);
    req.categories = Some(vec!["web".to_string(), "nope".to_string(), "web::http".to_string()]);
    let attributes = vec![Attribute { key: "repository".to_string(), value: "a/b".to_string() }];
    req.badges = Some(vec![
        BadgeInput { badge_type: "travis-ci".to_string(), attributes: Some(attributes.clone()) },
        BadgeInput { badge_type: "not-a-badge".to_string(), attributes: None },
    ]);
    let p = publish(&mut conn, &req, &alice);
    assert_eq!(p.warnings.invalid_categories, vec!["nope".to_string()]);
    assert_eq!(p.warnings.invalid_badges, vec!["not-a-badge".to_string()]);
    assert_eq!(
        conn.crates_keywords,
        vec![
            CrateKeyword { crate_id: 1, keyword: "json".to_string() },
            CrateKeyword { crate_id: 1, keyword: "parser".to_string() },
        ]
    );
    assert_eq!(
        conn.crates_categories,
        vec![
            CrateCategory { crate_id: 1, slug: "web".to_string() },
            CrateCategory { crate_id: 1, slug: "web::http".to_string() },
        ]
    );
    assert_eq!(conn.badges.len(), 1);
    assert_eq!(conn.badges[0].badge_type, "travis-ci");
    assert_eq!(conn.badges[0].attributes, attributes);

    publish(&mut conn, &request("bar", "1.0.0"), &alice);
    let mut again = request("foo", "1.1.0");
    again.keywords = Some(vec!["yaml".to_string()]);
    let p = publish(&mut conn, &again, &alice);
    assert!(p.warnings.invalid_categories.is_empty());
    assert_eq!(conn.crates_keywords, vec![CrateKeyword { crate_id: 1, keyword: "yaml".to_string() }]);
    assert!(conn.crates_categories.is_empty());
    assert!(conn.badges.is_empty());
}

#[test]
fn tags_of_other_crates_stay() {
    let (mut conn, alice, _) = setup();
    let mut a = request("a", "1.0.0");
    a.keywords = Some(vec!["one".to_string()]);
    a.categories = Some(vec!["web".to_string()]);
    publish(&mut conn, &a, &alice);
    let mut b = request("b", "1.0.0");
    b.keywords = Some(vec!["two".to_string()]);
    publish(&mut conn, &b, &alice);
    let mut a2 = request("a", "1.1.0");
    a2.keywords = Some(vec!["three".to_string()]);
    publish(&mut conn, &a2, &alice);
    assert_eq!(
        conn.crates_keywords,
        vec![
            CrateKeyword { crate_id: 2, keyword: "two".to_string() },
            CrateKeyword { crate_id: 1, keyword: "three".to_string() },
        ]
    );
    assert!(conn.crates_categories.is_empty());
}

#[test]
fn checksum_is_written_in_small_hex() {
    let (mut conn, alice, _) = setup();
    publish(&mut conn, &request("base", "1.0.0"), &alice);
    let mut req = request("foo", "1.0.0");
    req.deps = vec![dep("base")];
    req.features = vec![Feature { name: "f".to_string(), enables: vec!["g".to_string()] }];
    let p = publish(&mut conn, &req, &alice);
    let entry = index_entry(&p, &req, &vec![0x00, 0x0f, 0xa0, 0xff, 0x12]);
    assert_eq!(entry.cksum, "000fa0ff12");
    assert_eq!(entry.name, "foo");
    assert_eq!(entry.vers, "1.0.0");
    assert_eq!(entry.yanked, Some(false));
    assert_eq!(entry.features, req.features);
    assert_eq!(entry.deps, p.deps);
    assert_eq!(index_entry(&p, &req, &vec![]).cksum, "");
}

#[test]
fn stored_upload_arms_the_handle() {
    let (mut conn, alice, _) = setup();
    let req = request("foo", "1.0.0");
    let p = publish(&mut conn, &req, &alice);
    let outcome = UploadOutcome::Stored { cksum: vec![0xab, 0xcd], path: some("crates/foo-1.0.0") };
    let (entry, bomb) = after_upload(&p, &req, outcome).unwrap();
    assert_eq!(entry.cksum, "abcd");
    assert_eq!(bomb.path, some("crates/foo-1.0.0"));
}

#[test]
fn refused_upload_is_reported() {
    let (mut conn, alice, _) = setup();
    let req = request("foo", "1.0.0");
    let p = publish(&mut conn, &req, &alice);
    let e = after_upload(&p, &req, UploadOutcome::Refused("disk full".to_string())).unwrap_err();
    assert_eq!(e.kind, ErrorKind::Upload);
    assert_eq!(e.message(), "disk full");
}

#[test]
fn registered_version_disarms_the_handle() {
    let (mut conn, alice, _) = setup();
    let mut req = request("foo", "1.0.0");
    req.categories = Some(vec!["nope".to_string()]);
    let p = publish(&mut conn, &req, &alice);
    let s = after_registration(p, Bomb { path: some("crates/foo-1.0.0") }, Ok(()));
    assert_eq!(s.delete, None);
    let answer = s.answer.unwrap();
    assert_eq!(answer.krate.name, "foo");
    assert_eq!(answer.krate.max_version, "1.0.0");
    assert_eq!(answer.warnings.invalid_categories, vec!["nope".to_string()]);
}

#[test]
fn failed_registration_deletes_the_artifact() {
    let (mut conn, alice, _) = setup();
    let mut req = request("foo", "1.0.0");
    req.categories = Some(vec!["nope".to_string()]);
    let p = publish(&mut conn, &req, &alice);
    let s = after_registration(
        p,
        Bomb { path: some("crates/foo-1.0.0") },
        Err("index is read-only".to_string()),
    );
    assert_eq!(s.delete, some("crates/foo-1.0.0"));
    let e = s.answer.unwrap_err();
    assert_eq!(e.kind, ErrorKind::IndexRegistration);
    assert_eq!(e.detail, "index is read-only");
    assert_eq!(e.message(), "could not add the crate to the index: index is read-only");
    // the version stays on record: the index is what tells whether it is public
    assert_eq!(conn.versions.len(), 1);
    assert_eq!(Crate::find_by_name(&conn, "foo").unwrap().id, 1);
}

#[test]
fn disarmed_handle_deletes_nothing() {
    let (mut conn, alice, _) = setup();
    let p = publish(&mut conn, &request("foo", "1.0.0"), &alice);
    let s = after_registration(p, Bomb { path: None }, Err("no".to_string()));
    assert_eq!(s.delete, None);
    assert!(s.answer.is_err());
}

#[test]
fn request_that_names_a_feature_twice_is_refused() {
    let (mut conn, alice, _) = setup();
    let mut req = request("foo", "1.0.0");
    req.features = vec![
        Feature { name: "f".to_string(), enables: vec![] },
        Feature { name: "f".to_string(), enables: vec![] },
    ];
    let e = refused(&mut conn, &req, &alice);
    assert_eq!(e.kind, ErrorKind::FeatureTwice);
    assert!(conn.crates.is_empty());
}

#[test]
fn fresh_publish_makes_the_requester_the_sole_owner() {
    let (mut conn, alice, _) = setup();
    let p = publish(&mut conn, &request("foo", "1.0.0"), &alice);
    assert_eq!(p.response.name, "foo");
    assert_eq!(p.response.license, some("MIT/Apache-2.0"));
    assert_eq!(p.krate.owners(&conn), vec![crate_registry::model::Owner::User(alice.clone())]);
    assert_eq!(conn.versions.len(), 1);
    assert!(conn.audit());
}
