use crate_registry::clock::Timestamp;
use crate_registry::downloads::increment_download_counts;
use crate_registry::follows::follow;
use crate_registry::model::{
    Attribute, Badge, CrateOwner, Feature, Follow, NewCrate, OwnerKind, VersionDownload,
};
use crate_registry::owners::{NewTeam, TeamAnswer};
use crate_registry::registry::Registry;

fn at(sec: i64) -> Timestamp {
    Timestamp::new(sec, 0).unwrap()
}

fn named(name: &str) -> NewCrate<'_> {
    NewCrate {
        name,
        description: None,
        homepage: None,
        documentation: None,
        readme: None,
        repository: None,
        license: None,
        max_upload_size: None,
    }
}

fn filled() -> Registry {
    let mut conn = Registry::new(vec!["std".to_string()]);
    let alice = conn.add_user("alice", None, None).unwrap();
    let bob = conn.add_user("bob", None, None).unwrap();
    let foo = named("foo").create_or_update(&mut conn, None, alice.id, at(1)).unwrap();
    let bar = named("Bar").create_or_update(&mut conn, None, bob.id, at(1)).unwrap();
    foo.add_version(&mut conn, "1.0.0", &vec![], &vec![], at(2)).unwrap();
    foo.add_version(&mut conn, "1.1.0", &vec![], &vec![], at(2)).unwrap();
    bar.add_version(&mut conn, "1.0.0", &vec![], &vec![], at(2)).unwrap();
    foo.owner_add(&mut conn, &alice, "bob", &vec![], &TeamAnswer::Refused(String::new())).unwrap();
    let team = TeamAnswer::Granted(NewTeam { github_id: 1, name: None, avatar: None });
    foo.owner_add(&mut conn, &alice, "github:o:t", &vec![], &team).unwrap();
    foo.owner_remove(&mut conn, &alice, "bob").unwrap();
    increment_download_counts(&mut conn, "foo", "1.0.0", at(86400)).unwrap();
    increment_download_counts(&mut conn, "foo", "1.0.0", at(2 * 86400)).unwrap();
    increment_download_counts(&mut conn, "bar", "1.0.0", at(86400)).unwrap();
    follow(&mut conn, &bob, "foo").unwrap();
    follow(&mut conn, &alice, "foo").unwrap();
    conn
}

#[test]
fn new_registry_is_in_order() {
    assert!(Registry::new(vec![]).audit());
    assert!(Registry::new(vec!["a".to_string(), "A".to_string()]).audit());
}

#[test]
fn operations_keep_the_tables_in_order() {
    assert!(filled().audit());
}

#[test]
fn two_crates_in_one_slot_are_out_of_order() {
    let mut conn = filled();
    conn.crates[1].name = "FOO".to_string();
    assert!(!conn.audit());
}

#[test]
fn crate_with_a_reserved_name_is_out_of_order() {
    let mut conn = filled();
    conn.crates[1].name = "Std".to_string();
    assert!(!conn.audit());
}

#[test]
fn identifiers_out_of_range_are_out_of_order() {
    let mut conn = filled();
    conn.crates[0].id = 0;
    assert!(!conn.audit());
    let mut conn = filled();
    conn.crates[0].id = conn.next_crate_id;
    assert!(!conn.audit());
    let mut conn = filled();
    conn.crates[0].id = conn.crates[1].id;
    assert!(!conn.audit());
    let mut conn = filled();
    conn.versions[0].id = conn.versions[2].id;
    assert!(!conn.audit());
    let mut conn = filled();
    conn.users[0].id = 99;
    assert!(!conn.audit());
    let mut conn = filled();
    conn.teams[0].id = -1;
    assert!(!conn.audit());
    let mut conn = filled();
    conn.users[0].id = conn.users[1].id;
    assert!(!conn.audit());
    let mut conn = filled();
    let twin = conn.teams[0].clone();
    conn.teams.push(twin);
    assert!(!conn.audit());
    let mut conn = filled();
    conn.next_dependency_id = 0;
    assert!(!conn.audit());
}

#[test]
fn doubled_grant_is_out_of_order() {
    let mut conn = filled();
    let again = CrateOwner { deleted: true, created_by: 9, ..conn.crate_owners[0] };
    conn.crate_owners.push(again);
    assert!(!conn.audit());
    let mut conn = filled();
    let other_kind = CrateOwner { owner_kind: OwnerKind::Team, owner_id: 7, ..conn.crate_owners[0] };
    conn.crate_owners.push(other_kind);
    assert!(conn.audit());
    conn.crate_owners[0].crate_id = 50;
    assert!(!conn.audit());
}

#[test]
fn doubled_version_is_out_of_order() {
    let mut conn = filled();
    conn.versions[1].num = "1.0.0+again".to_string();
    assert!(!conn.audit());
    let mut conn = filled();
    conn.versions[1].num = "not a number".to_string();
    assert!(!conn.audit());
    let mut conn = filled();
    conn.versions[2].num = "1.1.0".to_string();
    assert!(conn.audit());
}

#[test]
fn doubled_counter_is_out_of_order() {
    let mut conn = filled();
    conn.version_downloads.push(VersionDownload { version_id: 1, downloads: 3, date: at(86400 + 9) });
    assert!(!conn.audit());
    let mut conn = filled();
    conn.version_downloads.push(VersionDownload { version_id: 1, downloads: 3, date: at(3 * 86400) });
    assert!(conn.audit());
    conn.version_downloads[0].downloads = 0;
    assert!(!conn.audit());
}

#[test]
fn doubled_subscription_is_out_of_order() {
    let mut conn = filled();
    conn.follows.push(Follow { user_id: 2, crate_id: 1 });
    assert!(!conn.audit());
}

#[test]
fn version_of_no_crate_is_out_of_order() {
    let mut conn = filled();
    conn.versions[0].crate_id = conn.next_crate_id;
    assert!(!conn.audit());
    let mut conn = filled();
    conn.versions[0].crate_id = 0;
    assert!(!conn.audit());
}

#[test]
fn feature_named_twice_is_out_of_order() {
    let mut conn = filled();
    conn.versions[0].features = vec![
        Feature { name: "a".to_string(), enables: vec![] },
        Feature { name: "b".to_string(), enables: vec![] },
    ];
    assert!(conn.audit());
    conn.versions[0].features.push(Feature { name: "a".to_string(), enables: vec![] });
    assert!(!conn.audit());
}

#[test]
fn doubled_badge_is_out_of_order() {
    let badge = |crate_id: i32, badge_type: &str| Badge {
        crate_id,
        badge_type: badge_type.to_string(),
        attributes: vec![Attribute { key: "k".to_string(), value: "v".to_string() }],
    };
    let mut conn = filled();
    conn.badges = vec![badge(1, "travis-ci"), badge(2, "travis-ci"), badge(1, "appveyor")];
    assert!(conn.audit());
    conn.badges.push(badge(2, "travis-ci"));
    assert!(!conn.audit());
    conn.badges.pop();
    conn.badges[0].attributes.push(Attribute { key: "k".to_string(), value: "w".to_string() });
    assert!(!conn.audit());
}
