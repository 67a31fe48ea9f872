use crate_registry::clock::Timestamp;
use crate_registry::errors::ErrorKind;
use crate_registry::follows::{follow, follow_target, following, unfollow};
use crate_registry::model::{Follow, NewCrate, User};
use crate_registry::registry::Registry;

fn named(name: &str) -> NewCrate<'_> {
    NewCrate {
        name,
        description: None,
        homepage: None,
        documentation: None,
        readme: None,
        repository: None,
        license: None,
        max_upload_size: None,
    }
}

fn setup() -> (Registry, User, User) {
    let mut conn = Registry::new(vec![]);
    let now = Timestamp::new(1, 0).unwrap();
    let alice = conn.add_user("alice", None, None).unwrap();
    let bob = conn.add_user("bob", None, None).unwrap();
    named("foo").create_or_update(&mut conn, None, alice.id, now).unwrap();
    named("bar").create_or_update(&mut conn, None, alice.id, now).unwrap();
    (conn, alice, bob)
}

#[test]
fn target_is_user_and_crate() {
    let (conn, _, bob) = setup();
    assert_eq!(follow_target(&conn, &bob, "BAR").unwrap(), Follow { user_id: 2, crate_id: 2 });
    assert_eq!(follow_target(&conn, &bob, "baz").unwrap_err().kind, ErrorKind::NotFound);
}

#[test]
fn following_twice_is_following_once() {
    let (mut conn, alice, bob) = setup();
    assert!(!following(&conn, &bob, "foo").unwrap());
    follow(&mut conn, &bob, "foo").unwrap();
    follow(&mut conn, &bob, "FOO").unwrap();
    assert_eq!(conn.follows, vec![Follow { user_id: 2, crate_id: 1 }]);
    assert!(following(&conn, &bob, "foo").unwrap());
    assert!(!following(&conn, &alice, "foo").unwrap());
    assert!(!following(&conn, &bob, "bar").unwrap());
}

#[test]
fn unfollow_takes_out_the_one_subscription() {
    let (mut conn, alice, bob) = setup();
    follow(&mut conn, &bob, "foo").unwrap();
    follow(&mut conn, &alice, "foo").unwrap();
    follow(&mut conn, &bob, "bar").unwrap();
    unfollow(&mut conn, &bob, "foo").unwrap();
    assert_eq!(
        conn.follows,
        vec![Follow { user_id: 1, crate_id: 1 }, Follow { user_id: 2, crate_id: 2 }]
    );
    unfollow(&mut conn, &bob, "foo").unwrap();
    assert_eq!(conn.follows.len(), 2);
    assert!(!following(&conn, &bob, "foo").unwrap());
    assert!(following(&conn, &bob, "bar").unwrap());
}

#[test]
fn unknown_crate_cannot_be_followed() {
    let (mut conn, _, bob) = setup();
    assert_eq!(follow(&mut conn, &bob, "baz").unwrap_err().kind, ErrorKind::NotFound);
    assert_eq!(unfollow(&mut conn, &bob, "baz").unwrap_err().kind, ErrorKind::NotFound);
    assert_eq!(following(&conn, &bob, "baz").unwrap_err().kind, ErrorKind::NotFound);
    assert!(conn.follows.is_empty());
}
