use crate_registry::clock::Timestamp;
use crate_registry::errors::ErrorKind;
use crate_registry::model::{Crate, CrateOwner, NewCrate, Owner, OwnerKind, Rights, User};
use crate_registry::owners::{
    add_owners, modify_owners, owners, remove_owners, rights, NewTeam, OwnerChange, TeamAnswer,
};
use crate_registry::registry::Registry;

fn at(sec: i64) -> Timestamp {
    Timestamp::new(sec, 0).unwrap()
}

fn named(name: &str) -> NewCrate<'_> {
    NewCrate {
        name,
        description: None,
        homepage: None,
        documentation: None,
        readme: None,
        repository: None,
        license: None,
        max_upload_size: None,
    }
}

fn not_asked() -> TeamAnswer {
    TeamAnswer::Refused(String::new())
}

fn granted(github_id: i32) -> TeamAnswer {
    TeamAnswer::Granted(NewTeam { github_id, name: Some("The Team".to_string()), avatar: None })
}

fn change(login: &str) -> OwnerChange {
    OwnerChange { login: login.to_string(), team: not_asked() }
}

/// A registry with the users alice (1), bob (2) and carol (3) and the crate
/// `foo` (1), which alice owns.
fn setup() -> (Registry, User, User, User, Crate) {
    let mut conn = Registry::new(vec![]);
    let alice = conn.add_user("alice", Some("Alice"), None).unwrap();
    let bob = conn.add_user("bob", None, None).unwrap();
    let carol = conn.add_user("carol", None, None).unwrap();
    let foo = named("foo").create_or_update(&mut conn, None, alice.id, at(1)).unwrap();
    (conn, alice, bob, carol, foo)
}

fn live(conn: &Registry, crate_id: i32) -> Vec<CrateOwner> {
    conn.crate_owners.iter().filter(|g| g.crate_id == crate_id && !g.deleted).cloned().collect()
}

#[test]
fn users_get_rising_identifiers() {
    let (conn, alice, bob, carol, _) = setup();
    assert_eq!((alice.id, bob.id, carol.id), (1, 2, 3));
    assert_eq!(alice.gh_login, "alice");
    assert_eq!(alice.name, Some("Alice".to_string()));
    assert_eq!(conn.users.len(), 3);
}

#[test]
fn rights_levels_are_ordered() {
    assert!(Rights::Nothing.level() < Rights::Publish.level());
    assert!(Rights::Publish.level() < Rights::Full.level());
    assert_eq!(OwnerKind::User.code(), 0);
    assert_eq!(OwnerKind::Team.code(), 1);
}

#[test]
fn owner_has_full_rights() {
    let (conn, alice, bob, _, foo) = setup();
    let list = foo.owners(&conn);
    assert_eq!(list, vec![Owner::User(alice.clone())]);
    assert_eq!(rights(&list, &alice, &vec![]), Rights::Full);
    assert_eq!(rights(&list, &bob, &vec![]), Rights::Nothing);
}

#[test]
fn team_member_may_publish() {
    let (mut conn, alice, bob, carol, foo) = setup();
    foo.owner_add(&mut conn, &alice, "github:org:team", &vec![], &granted(77)).unwrap();
    assert_eq!(conn.teams.len(), 1);
    let team = conn.teams[0].clone();
    assert_eq!(team.id, 1);
    assert_eq!(team.login, "github:org:team");
    assert_eq!(team.github_id, 77);
    assert_eq!(team.name, Some("The Team".to_string()));
    let list = foo.owners(&conn);
    assert_eq!(list, vec![Owner::User(alice.clone()), Owner::Team(team.clone())]);
    assert_eq!(rights(&list, &bob, &vec![team.id]), Rights::Publish);
    assert_eq!(rights(&list, &bob, &vec![5, team.id]), Rights::Publish);
    assert_eq!(rights(&list, &carol, &vec![9]), Rights::Nothing);
    assert_eq!(rights(&list, &alice, &vec![team.id]), Rights::Full);
}

#[test]
fn direct_ownership_beats_team_membership_in_any_order() {
    let (mut conn, alice, bob, _, foo) = setup();
    foo.owner_add(&mut conn, &alice, "github:org:team", &vec![], &granted(77)).unwrap();
    foo.owner_add(&mut conn, &alice, "bob", &vec![], &not_asked()).unwrap();
    let mut list = foo.owners(&conn);
    list.reverse();
    assert_eq!(rights(&list, &bob, &vec![1]), Rights::Full);
}

#[test]
fn add_remove_add_keeps_one_grant() {
    let (mut conn, alice, bob, _, foo) = setup();
    foo.owner_add(&mut conn, &alice, "bob", &vec![], &not_asked()).unwrap();
    assert_eq!(conn.crate_owners.len(), 2);
    assert_eq!(live(&conn, foo.id).len(), 2);
    let after_first_add = conn.crate_owners.clone();

    foo.owner_remove(&mut conn, &alice, "bob").unwrap();
    assert_eq!(conn.crate_owners.len(), 2);
    assert_eq!(live(&conn, foo.id).len(), 1);
    assert!(conn.crate_owners[1].deleted);
    assert_eq!(foo.owners(&conn), vec![Owner::User(alice.clone())]);

    foo.owner_add(&mut conn, &alice, "bob", &vec![], &not_asked()).unwrap();
    assert_eq!(conn.crate_owners, after_first_add);
    assert_eq!(foo.owners(&conn), vec![Owner::User(alice.clone()), Owner::User(bob.clone())]);

    for _ in 0..3 {
        foo.owner_remove(&mut conn, &alice, "bob").unwrap();
        foo.owner_add(&mut conn, &carol_like(&alice), "bob", &vec![], &not_asked()).unwrap();
    }
    assert_eq!(conn.crate_owners.len(), 2);
    let for_bob: Vec<&CrateOwner> =
        conn.crate_owners.iter().filter(|g| g.owner_id == bob.id).collect();
    assert_eq!(for_bob.len(), 1);
    assert!(!for_bob[0].deleted);
    assert_eq!(for_bob[0].created_by, alice.id);
}

fn carol_like(u: &User) -> User {
    User { id: 3, gh_login: "carol".to_string(), name: u.name.clone(), avatar: None }
}

#[test]
fn adding_twice_is_adding_once() {
    let (mut conn, alice, _, _, foo) = setup();
    foo.owner_add(&mut conn, &alice, "bob", &vec![], &not_asked()).unwrap();
    let once = conn.crate_owners.clone();
    foo.owner_add(&mut conn, &alice, "bob", &vec![], &not_asked()).unwrap();
    assert_eq!(conn.crate_owners, once);
}

#[test]
fn removing_one_who_is_no_owner_changes_nothing() {
    let (mut conn, alice, _, _, foo) = setup();
    let before = conn.crate_owners.clone();
    foo.owner_remove(&mut conn, &alice, "bob").unwrap();
    assert_eq!(conn.crate_owners, before);
}

#[test]
fn unknown_login_cannot_be_added_or_removed() {
    let (mut conn, alice, _, _, foo) = setup();
    let before = conn.crate_owners.clone();
    let e = foo.owner_add(&mut conn, &alice, "nobody", &vec![], &not_asked()).unwrap_err();
    assert_eq!(e.kind, ErrorKind::OwnerNotFound);
    assert_eq!(e.detail, "nobody");
    assert_eq!(e.message(), "could not find owner with login `nobody`");
    let e = foo.owner_remove(&mut conn, &alice, "nobody").unwrap_err();
    assert_eq!(e.kind, ErrorKind::OwnerNotFound);
    assert_eq!(conn.crate_owners, before);
}

#[test]
fn known_team_takes_a_member_to_add() {
    let (mut conn, alice, bob, _, foo) = setup();
    let bar = named("bar").create_or_update(&mut conn, None, bob.id, at(2)).unwrap();
    foo.owner_add(&mut conn, &alice, "github:org:team", &vec![], &granted(77)).unwrap();
    let before = conn.crate_owners.clone();
    let e = bar.owner_add(&mut conn, &bob, "github:org:team", &vec![4], &granted(77)).unwrap_err();
    assert_eq!(e.kind, ErrorKind::NotTeamMember);
    assert_eq!(e.message(), "only members of github:org:team can add it as an owner");
    assert_eq!(conn.crate_owners, before);
    assert_eq!(conn.teams.len(), 1);
    bar.owner_add(&mut conn, &bob, "github:org:team", &vec![1], &not_asked()).unwrap();
    assert_eq!(conn.teams.len(), 1);
    assert_eq!(conn.crate_owners.len(), before.len() + 1);
    let last = conn.crate_owners[conn.crate_owners.len() - 1];
    assert_eq!(
        last,
        CrateOwner {
            crate_id: bar.id,
            owner_id: 1,
            created_by: bob.id,
            owner_kind: OwnerKind::Team,
            deleted: false
        }
    );
}

#[test]
fn refused_team_is_not_put_on_record() {
    let (mut conn, alice, _, _, foo) = setup();
    let answer = TeamAnswer::Refused("no such team".to_string());
    let e = foo.owner_add(&mut conn, &alice, "github:org:ghost", &vec![], &answer).unwrap_err();
    assert_eq!(e.kind, ErrorKind::Team);
    assert_eq!(e.detail, "no such team");
    assert_eq!(e.message(), "no such team");
    assert!(conn.teams.is_empty());
    assert_eq!(conn.crate_owners.len(), 1);
}

#[test]
fn owner_of_a_crate_that_is_not_there_is_refused() {
    let (mut conn, alice, _, _, foo) = setup();
    let ghost = Crate { id: 42, ..foo.clone() };
    let e = ghost.owner_add(&mut conn, &alice, "bob", &vec![], &not_asked()).unwrap_err();
    assert_eq!(e.kind, ErrorKind::NotFound);
    assert_eq!(conn.crate_owners.len(), 1);
}

#[test]
fn user_and_team_with_one_identifier_are_two_owners() {
    let (mut conn, alice, _, _, foo) = setup();
    foo.owner_add(&mut conn, &alice, "github:org:team", &vec![], &granted(1)).unwrap();
    assert_eq!(conn.teams[0].id, alice.id);
    assert_eq!(conn.crate_owners.len(), 2);
    foo.owner_remove(&mut conn, &alice, "github:org:team").unwrap();
    assert!(!conn.crate_owners[0].deleted);
    assert!(conn.crate_owners[1].deleted);
}

#[test]
fn owners_of_a_crate_by_name() {
    let (conn, alice, _, _, _) = setup();
    assert_eq!(owners(&conn, "FOO").unwrap(), vec![Owner::User(alice)]);
    assert_eq!(owners(&conn, "bar").unwrap_err().kind, ErrorKind::NotFound);
}

#[test]
fn owner_adds_and_removes_owners() {
    let (mut conn, alice, bob, carol, foo) = setup();
    add_owners(&mut conn, &alice, &vec![], "foo", &vec![change("bob"), change("carol")]).unwrap();
    assert_eq!(
        foo.owners(&conn),
        vec![Owner::User(alice.clone()), Owner::User(bob), Owner::User(carol.clone())]
    );
    remove_owners(&mut conn, &alice, &vec![], "foo", &vec![change("bob")]).unwrap();
    assert_eq!(foo.owners(&conn), vec![Owner::User(alice), Owner::User(carol)]);
    assert_eq!(conn.crate_owners.len(), 3);
}

#[test]
fn stranger_may_not_change_owners() {
    let (mut conn, _, bob, _, _) = setup();
    let before = conn.crate_owners.clone();
    let e = add_owners(&mut conn, &bob, &vec![], "foo", &vec![change("bob")]).unwrap_err();
    assert_eq!(e.kind, ErrorKind::OnlyOwnersModify);
    assert_eq!(e.message(), "only owners have permission to modify owners");
    let e = remove_owners(&mut conn, &bob, &vec![], "foo", &vec![change("alice")]).unwrap_err();
    assert_eq!(e.kind, ErrorKind::OnlyOwnersModify);
    assert_eq!(conn.crate_owners, before);
}

#[test]
fn team_member_may_add_but_not_remove() {
    let (mut conn, alice, bob, carol, foo) = setup();
    foo.owner_add(&mut conn, &alice, "github:org:team", &vec![], &granted(77)).unwrap();
    let member_of = vec![1];
    add_owners(&mut conn, &bob, &member_of, "foo", &vec![change("carol")]).unwrap();
    assert!(foo.owners(&conn).contains(&Owner::User(carol)));
    let before = conn.crate_owners.clone();
    let e =
        remove_owners(&mut conn, &bob, &member_of, "foo", &vec![change("carol")]).unwrap_err();
    assert_eq!(e.kind, ErrorKind::TeamMembersCannotModify);
    assert_eq!(e.message(), "team members don't have permission to modify owners");
    assert_eq!(conn.crate_owners, before);
}

#[test]
fn owner_cannot_be_added_twice_by_request() {
    let (mut conn, alice, _, _, _) = setup();
    let e = add_owners(&mut conn, &alice, &vec![], "foo", &vec![change("alice")]).unwrap_err();
    assert_eq!(e.kind, ErrorKind::AlreadyOwner);
    assert_eq!(e.message(), "`alice` is already an owner");
}

#[test]
fn owner_cannot_remove_itself() {
    let (mut conn, alice, _, _, _) = setup();
    let e = remove_owners(&mut conn, &alice, &vec![], "foo", &vec![change("alice")]).unwrap_err();
    assert_eq!(e.kind, ErrorKind::CannotRemoveSelf);
    assert_eq!(e.message(), "cannot remove yourself as an owner");
    assert!(!conn.crate_owners[0].deleted);
}

#[test]
fn refused_change_undoes_the_changes_before_it() {
    let (mut conn, alice, _, _, _) = setup();
    let before_grants = conn.crate_owners.clone();
    let request = vec![
        change("bob"),
        OwnerChange { login: "github:org:team".to_string(), team: granted(5) },
        change("nobody"),
    ];
    let e = modify_owners(&mut conn, &alice, &vec![], "foo", &request, true).unwrap_err();
    assert_eq!(e.kind, ErrorKind::OwnerNotFound);
    assert_eq!(e.detail, "nobody");
    assert_eq!(conn.crate_owners, before_grants);
    assert!(conn.teams.is_empty());
    assert_eq!(conn.next_team_id, 1);
}

#[test]
fn refused_removal_undoes_the_removals_before_it() {
    let (mut conn, alice, _, _, _) = setup();
    add_owners(&mut conn, &alice, &vec![], "foo", &vec![change("bob"), change("carol")]).unwrap();
    let before = conn.crate_owners.clone();
    let e = remove_owners(
        &mut conn,
        &alice,
        &vec![],
        "foo",
        &vec![change("bob"), change("carol"), change("alice")],
    )
    .unwrap_err();
    assert_eq!(e.kind, ErrorKind::CannotRemoveSelf);
    assert_eq!(conn.crate_owners, before);
}

#[test]
fn change_of_owners_of_unknown_crate_is_not_found() {
    let (mut conn, alice, _, _, _) = setup();
    let e = add_owners(&mut conn, &alice, &vec![], "bar", &vec![change("bob")]).unwrap_err();
    assert_eq!(e.kind, ErrorKind::NotFound);
}

#[test]
fn empty_request_changes_nothing() {
    let (mut conn, alice, _, _, _) = setup();
    let before = conn.crate_owners.clone();
    add_owners(&mut conn, &alice, &vec![], "foo", &vec![]).unwrap();
    assert_eq!(conn.crate_owners, before);
}

#[test]
fn login_resolves_to_user_or_team() {
    let (mut conn, alice, _, _, foo) = setup();
    foo.owner_add(&mut conn, &alice, "github:org:team", &vec![], &granted(77)).unwrap();
    assert_eq!(Owner::find_by_login(&conn, "alice").unwrap(), Owner::User(alice));
    let team = Owner::find_by_login(&conn, "github:org:team").unwrap();
    assert_eq!(team.kind(), OwnerKind::Team);
    assert_eq!(team.id(), 1);
    assert_eq!(team.login(), "github:org:team");
    assert_eq!(Owner::find_by_login(&conn, "Alice").unwrap_err().kind, ErrorKind::OwnerNotFound);
}

#[test]
fn full_account_tables_are_reported() {
    let (mut conn, alice, _, _, foo) = setup();
    conn.next_user_id = i32::MAX;
    let e = conn.add_user("dave", None, None).unwrap_err();
    assert_eq!(e.kind, ErrorKind::Exhausted);
    assert_eq!(conn.users.len(), 3);
    conn.next_team_id = i32::MAX;
    let e = foo.owner_add(&mut conn, &alice, "github:o:t", &vec![], &granted(1)).unwrap_err();
    assert_eq!(e.kind, ErrorKind::Exhausted);
    assert!(conn.teams.is_empty());
    assert_eq!(conn.crate_owners.len(), 1);
}

#[test]
fn grants_are_put_and_dropped() {
    let (mut conn, _, _, _, _) = setup();
    let g = CrateOwner {
        crate_id: 1,
        owner_id: 2,
        created_by: 1,
        owner_kind: OwnerKind::User,
        deleted: false,
    };
    assert_eq!(conn.grant_position(&g), 1);
    conn.put_grant(g);
    assert_eq!(conn.grant_position(&g), 1);
    assert_eq!(conn.crate_owners.len(), 2);
    conn.drop_grant(CrateOwner { created_by: 77, ..g });
    assert_eq!(conn.crate_owners[1], CrateOwner { deleted: true, ..g });
    conn.put_grant(CrateOwner { created_by: 99, ..g });
    assert_eq!(conn.crate_owners[1], g);
    assert!(conn.audit());
}
