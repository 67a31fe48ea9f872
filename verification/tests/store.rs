use crate_registry::clock::Timestamp;
use crate_registry::errors::ErrorKind;
use crate_registry::model::{Crate, CrateOwner, NewCrate, OwnerKind};
use crate_registry::registry::Registry;

fn at(sec: i64) -> Timestamp {
    Timestamp::new(sec, 0).unwrap()
}

fn named(name: &str) -> NewCrate<'_> {
    NewCrate {
        name,
        description: Some("a crate"),
        homepage: None,
        documentation: None,
        readme: None,
        repository: None,
        license: Some("MIT"),
        max_upload_size: None,
    }
}

#[test]
fn first_write_creates_crate_and_grant() {
    let mut conn = Registry::new(vec![]);
    let c = named("foo").create_or_update(&mut conn, None, 7, at(100)).unwrap();
    assert_eq!(c.id, 1);
    assert_eq!(c.name, "foo");
    assert_eq!(c.created_at, at(100));
    assert_eq!(c.updated_at, at(100));
    assert_eq!(c.downloads, 0);
    assert_eq!(c.description, Some("a crate".to_string()));
    assert_eq!(c.license, Some("MIT".to_string()));
    assert_eq!(conn.crates, vec![c.clone()]);
    assert_eq!(
        conn.crate_owners,
        vec![CrateOwner {
            crate_id: 1,
            owner_id: 7,
            created_by: 7,
            owner_kind: OwnerKind::User,
            deleted: false
        }]
    );
    assert_eq!(conn.next_crate_id, 2);
}

#[test]
fn second_write_updates_and_grants_nothing() {
    let mut conn = Registry::new(vec![]);
    named("foo").create_or_update(&mut conn, None, 7, at(100)).unwrap();
    let mut again = named("foo");
    again.description = Some("better words");
    again.homepage = Some("https://example.com");
    again.license = None;
    let c = again.create_or_update(&mut conn, Some("LICENSE"), 8, at(200)).unwrap();
    assert_eq!(c.id, 1);
    assert_eq!(c.name, "foo");
    assert_eq!(c.created_at, at(100));
    assert_eq!(c.updated_at, at(200));
    assert_eq!(c.description, Some("better words".to_string()));
    assert_eq!(c.homepage, Some("https://example.com".to_string()));
    assert_eq!(c.license, Some("non-standard".to_string()));
    assert_eq!(conn.crates.len(), 1);
    assert_eq!(conn.crates[0], c);
    assert_eq!(conn.crate_owners.len(), 1);
    assert_eq!(conn.crate_owners[0].owner_id, 7);
}

#[test]
fn two_first_publishers_one_owner() {
    let mut conn = Registry::new(vec![]);
    let a = named("Foo-Bar").create_or_update(&mut conn, None, 1, at(10)).unwrap();
    let b = named("foo_bar").create_or_update(&mut conn, None, 2, at(11)).unwrap();
    assert_eq!(a.id, b.id);
    assert_eq!(b.name, "Foo-Bar");
    assert_eq!(conn.crates.len(), 1);
    assert_eq!(conn.crate_owners.len(), 1);
    assert_eq!(conn.crate_owners[0].owner_id, 1);
    assert_eq!(conn.crate_owners[0].created_by, 1);
}

#[test]
fn spelling_of_the_first_publish_stays() {
    let mut conn = Registry::new(vec![]);
    named("Foo").create_or_update(&mut conn, None, 1, at(10)).unwrap();
    let c = named("FOO").create_or_update(&mut conn, None, 1, at(11)).unwrap();
    assert_eq!(c.name, "Foo");
}

#[test]
fn size_limit_is_set_on_create_and_kept_on_update() {
    let mut conn = Registry::new(vec![]);
    let mut new = named("foo");
    new.max_upload_size = Some(5000);
    let c = new.create_or_update(&mut conn, None, 1, at(10)).unwrap();
    assert_eq!(c.max_upload_size, Some(5000));
    let c = named("foo").create_or_update(&mut conn, None, 1, at(11)).unwrap();
    assert_eq!(c.max_upload_size, Some(5000));
}

#[test]
fn lookup_ignores_case_and_hyphens() {
    let mut conn = Registry::new(vec![]);
    named("other").create_or_update(&mut conn, None, 1, at(10)).unwrap();
    let c = named("Foo-Bar").create_or_update(&mut conn, None, 1, at(10)).unwrap();
    for spelling in ["Foo-Bar", "foo-bar", "FOO_BAR", "foo_bar", "fOO-bAR"] {
        assert_eq!(Crate::find_by_name(&conn, spelling).unwrap(), c);
        assert_eq!(Crate::by_name(&conn, spelling), Some(&c));
    }
}

#[test]
fn lookup_of_unknown_name_is_not_found() {
    let mut conn = Registry::new(vec![]);
    named("foo").create_or_update(&mut conn, None, 1, at(10)).unwrap();
    let e = Crate::find_by_name(&conn, "foobar").unwrap_err();
    assert_eq!(e.kind, ErrorKind::NotFound);
    assert_eq!(e.message(), "Not Found");
    assert!(Crate::by_name(&conn, "fo").is_none());
}

#[test]
fn reserved_names_are_refused_in_any_spelling() {
    let mut conn = Registry::new(vec!["std".to_string(), "core-lib".to_string()]);
    for name in ["std", "STD", "Core_Lib", "core-lib"] {
        let e = named(name).create_or_update(&mut conn, None, 1, at(10)).unwrap_err();
        assert_eq!(e.kind, ErrorKind::ReservedName);
        assert_eq!(e.message(), "cannot upload a crate with a reserved name");
    }
    assert!(conn.crates.is_empty());
    assert!(conn.crate_owners.is_empty());
    assert!(named("stdx").create_or_update(&mut conn, None, 1, at(10)).is_ok());
}

#[test]
fn bad_metadata_writes_nothing() {
    let mut conn = Registry::new(vec![]);
    let mut new = named("foo");
    new.license = Some("NOT-A-LICENSE");
    let e = new.create_or_update(&mut conn, None, 1, at(10)).unwrap_err();
    assert_eq!(e.kind, ErrorKind::License);
    assert!(conn.crates.is_empty());
    assert!(conn.crate_owners.is_empty());
    assert_eq!(conn.next_crate_id, 1);
}

#[test]
fn metadata_is_checked_before_the_reserved_names() {
    let mut conn = Registry::new(vec!["std".to_string()]);
    let mut new = named("std");
    new.homepage = Some("ftp://x");
    let e = new.create_or_update(&mut conn, None, 1, at(10)).unwrap_err();
    assert_eq!(e.kind, crate_registry::errors::ErrorKind::UrlScheme(
        crate_registry::errors::UrlField::Homepage
    ));
}

#[test]
fn find_or_insert_creates_then_updates() {
    let mut conn = Registry::new(vec![]);
    let none: Option<String> = None;
    let c = Crate::find_or_insert(
        &mut conn,
        "foo",
        3,
        &Some("first".to_string()),
        &none,
        &none,
        &none,
        &none,
        &Some("MIT/Apache-2.0".to_string()),
        &none,
        Some(99),
        at(5),
    )
    .unwrap();
    assert_eq!(c.id, 1);
    assert_eq!(c.max_upload_size, Some(99));
    assert_eq!(c.license, Some("MIT/Apache-2.0".to_string()));
    let d = Crate::find_or_insert(
        &mut conn,
        "FOO",
        4,
        &Some("second".to_string()),
        &none,
        &none,
        &none,
        &none,
        &none,
        &Some("LICENSE".to_string()),
        None,
        at(6),
    )
    .unwrap();
    assert_eq!(d.id, 1);
    assert_eq!(d.name, "foo");
    assert_eq!(d.description, Some("second".to_string()));
    assert_eq!(d.license, Some("non-standard".to_string()));
    assert_eq!(d.max_upload_size, Some(99));
    assert_eq!(conn.crates.len(), 1);
    assert_eq!(conn.crate_owners.len(), 1);
    assert_eq!(conn.crate_owners[0].owner_id, 3);
}

#[test]
fn find_or_insert_refuses_reserved_names() {
    let mut conn = Registry::new(vec!["test".to_string()]);
    let none: Option<String> = None;
    let e = Crate::find_or_insert(
        &mut conn, "Test", 3, &none, &none, &none, &none, &none, &none, &none, None, at(5),
    )
    .unwrap_err();
    assert_eq!(e.kind, ErrorKind::ReservedName);
    assert!(conn.crates.is_empty());
}

#[test]
fn identifiers_rise_by_one() {
    let mut conn = Registry::new(vec![]);
    let a = named("a").create_or_update(&mut conn, None, 1, at(1)).unwrap();
    let b = named("b").create_or_update(&mut conn, None, 1, at(1)).unwrap();
    let c = named("c").create_or_update(&mut conn, None, 1, at(1)).unwrap();
    assert_eq!((a.id, b.id, c.id), (1, 2, 3));
}

#[test]
fn full_table_is_reported() {
    let mut conn = Registry::new(vec![]);
    conn.next_crate_id = i32::MAX;
    let e = named("a").create_or_update(&mut conn, None, 1, at(1)).unwrap_err();
    assert_eq!(e.kind, ErrorKind::Exhausted);
    assert!(conn.crates.is_empty());
}
