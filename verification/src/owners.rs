//! Who owns a crate, and what rights an identity has on it.
//!
//! Rights are never stored: they are worked out from the grants of the crate
//! and from the teams that the acting user is a member of, which the service
//! behind the teams reports.

use vstd::prelude::*;
use crate::errors::{Error, ErrorKind};
use crate::model::{Crate, CrateOwner, Owner, OwnerKind, Rights, Team, User};
use crate::registry::{
    crates_wf, grants_wf, has_crate, holds_id, lemma_grants_push, lemma_grants_update, same_grant,
    teams_wf, Registry,
};
use crate::text::{chars_of, clone_opt, same_text};

verus! {

/// A login with a `:` in it names a team.
pub open spec fn is_team_login(login: Seq<char>) -> bool {
    login.contains(':')
}

/// The first user with the login `login`.
pub open spec fn find_user_by_login(users: Seq<User>, login: Seq<char>) -> Option<User>
    decreases users.len(),
{
    if users.len() == 0 {
        None
    } else if users[0].gh_login@ == login {
        Some(users[0])
    } else {
        find_user_by_login(users.drop_first(), login)
    }
}

/// The first team with the login `login`.
pub open spec fn find_team_by_login(teams: Seq<Team>, login: Seq<char>) -> Option<Team>
    decreases teams.len(),
{
    if teams.len() == 0 {
        None
    } else if teams[0].login@ == login {
        Some(teams[0])
    } else {
        find_team_by_login(teams.drop_first(), login)
    }
}

/// The first user with the identifier `id`.
pub open spec fn find_user(users: Seq<User>, id: i32) -> Option<User>
    decreases users.len(),
{
    if users.len() == 0 {
        None
    } else if users[0].id == id {
        Some(users[0])
    } else {
        find_user(users.drop_first(), id)
    }
}

/// The first team with the identifier `id`.
pub open spec fn find_team(teams: Seq<Team>, id: i32) -> Option<Team>
    decreases teams.len(),
{
    if teams.len() == 0 {
        None
    } else if teams[0].id == id {
        Some(teams[0])
    } else {
        find_team(teams.drop_first(), id)
    }
}

/// The owner that a login names: a team where the login holds a `:`, else a
/// user.
pub open spec fn resolve_owner(
    users: Seq<User>,
    teams: Seq<Team>,
    login: Seq<char>,
) -> Option<Owner> {
    if is_team_login(login) {
        match find_team_by_login(teams, login) {
            Some(t) => Some(Owner::Team(t)),
            None => None,
        }
    } else {
        match find_user_by_login(users, login) {
            Some(u) => Some(Owner::User(u)),
            None => None,
        }
    }
}

/// The position of the first grant for the same crate, owner and kind as
/// `probe`, or the number of grants if there is none.
pub open spec fn grant_index(grants: Seq<CrateOwner>, probe: CrateOwner) -> int
    decreases grants.len(),
{
    if grants.len() == 0 || same_grant(grants[0], probe) {
        0
    } else {
        1 + grant_index(grants.drop_first(), probe)
    }
}

/// `grant_index` gives the first position, and every first position is what
/// `grant_index` gives.
pub proof fn lemma_grant_index(grants: Seq<CrateOwner>, probe: CrateOwner, k: int)
    requires
        0 <= k <= grants.len(),
        forall|i: int| 0 <= i < k ==> !same_grant(#[trigger] grants[i], probe),
        k < grants.len() ==> same_grant(grants[k], probe),
    ensures
        grant_index(grants, probe) == k,
    decreases grants.len(),
{
    if grants.len() == 0 || same_grant(grants[0], probe) {
        if k > 0 {
            assert(!same_grant(grants[0], probe));
        }
    } else {
        assert forall|i: int| 0 <= i < k - 1 implies !same_grant(
            #[trigger] grants.drop_first()[i],
            probe,
        ) by {
            assert(grants.drop_first()[i] == grants[i + 1]);
        }
        lemma_grant_index(grants.drop_first(), probe, k - 1);
    }
}

/// What `grant_index` gives lies within the table or just behind it; before it
/// no grant matches, and at it one does.
pub proof fn lemma_grant_index_is_first(grants: Seq<CrateOwner>, probe: CrateOwner)
    ensures
        0 <= grant_index(grants, probe) <= grants.len(),
        forall|i: int|
            0 <= i < grant_index(grants, probe) ==> !same_grant(#[trigger] grants[i], probe),
        grant_index(grants, probe) < grants.len() ==> same_grant(
            grants[grant_index(grants, probe)],
            probe,
        ),
    decreases grants.len(),
{
    if grants.len() == 0 || same_grant(grants[0], probe) {
    } else {
        lemma_grant_index_is_first(grants.drop_first(), probe);
        let k = grant_index(grants.drop_first(), probe);
        assert forall|i: int| 0 <= i < k + 1 implies !same_grant(#[trigger] grants[i], probe) by {
            if i > 0 {
                assert(grants.drop_first()[i - 1] == grants[i]);
            }
        }
        if k + 1 < grants.len() {
            assert(grants.drop_first()[k] == grants[k + 1]);
        }
    }
}

/// A live grant of `crate_id` to an owner, made by `created_by`.
pub open spec fn live_grant(
    crate_id: i32,
    owner_id: i32,
    kind: OwnerKind,
    created_by: i32,
) -> CrateOwner {
    CrateOwner { crate_id, owner_id, created_by, owner_kind: kind, deleted: false }
}

/// The grants once `g` is in force: the grant for the same crate, owner and
/// kind is brought back if there is one, whoever made it; else `g` is added.
pub open spec fn with_grant(grants: Seq<CrateOwner>, g: CrateOwner) -> Seq<CrateOwner> {
    let i = grant_index(grants, g);
    if i < grants.len() {
        grants.update(i, CrateOwner { deleted: false, ..grants[i] })
    } else {
        grants.push(g)
    }
}

/// The grants once the grant for the same crate, owner and kind as `probe` is
/// withdrawn: it is marked, never removed.
pub open spec fn without_grant(grants: Seq<CrateOwner>, probe: CrateOwner) -> Seq<CrateOwner> {
    let i = grant_index(grants, probe);
    if i < grants.len() {
        grants.update(i, CrateOwner { deleted: true, ..grants[i] })
    } else {
        grants
    }
}

/// The owner that a grant names, if the grant is in force for `crate_id`, of
/// kind `kind`, and its owner is on record.
pub open spec fn grant_owner(
    g: CrateOwner,
    crate_id: i32,
    kind: OwnerKind,
    users: Seq<User>,
    teams: Seq<Team>,
) -> Option<Owner> {
    if g.crate_id == crate_id && !g.deleted && g.owner_kind == kind {
        match kind {
            OwnerKind::User => match find_user(users, g.owner_id) {
                Some(u) => Some(Owner::User(u)),
                None => None,
            },
            OwnerKind::Team => match find_team(teams, g.owner_id) {
                Some(t) => Some(Owner::Team(t)),
                None => None,
            },
        }
    } else {
        None
    }
}

/// The owners of kind `kind` that the grants in force give to `crate_id`, in
/// the order of the grants.
pub open spec fn owners_of_kind(
    grants: Seq<CrateOwner>,
    crate_id: i32,
    kind: OwnerKind,
    users: Seq<User>,
    teams: Seq<Team>,
) -> Seq<Owner>
    decreases grants.len(),
{
    if grants.len() == 0 {
        Seq::empty()
    } else {
        let rest = owners_of_kind(grants.drop_last(), crate_id, kind, users, teams);
        match grant_owner(grants.last(), crate_id, kind, users, teams) {
            Some(o) => rest.push(o),
            None => rest,
        }
    }
}

/// The owners of a crate: the users, then the teams.
pub open spec fn owners_of(conn: Registry, crate_id: i32) -> Seq<Owner> {
    owners_of_kind(conn.crate_owners@, crate_id, OwnerKind::User, conn.users@, conn.teams@)
        + owners_of_kind(conn.crate_owners@, crate_id, OwnerKind::Team, conn.users@, conn.teams@)
}

/// Whether `o` is the user `user_id`.
pub open spec fn is_user(o: Owner, user_id: i32) -> bool {
    o matches Owner::User(u) && u.id == user_id
}

/// Whether `o` is a team that `member_of` lists.
pub open spec fn is_team_among(o: Owner, member_of: Seq<i32>) -> bool {
    o matches Owner::Team(t) && member_of.contains(t.id)
}

/// Whether one of `owners` is the user `user_id`.
pub open spec fn owns_directly(owners: Seq<Owner>, user_id: i32) -> bool {
    exists|i: int| 0 <= i < owners.len() && is_user(#[trigger] owners[i], user_id)
}

/// Whether one of `owners` is a team that `member_of` lists.
pub open spec fn owns_through_team(owners: Seq<Owner>, member_of: Seq<i32>) -> bool {
    exists|i: int| 0 <= i < owners.len() && is_team_among(#[trigger] owners[i], member_of)
}

/// The rights of a user on a crate with the owners `owners`: `Full` for an
/// owner, `Publish` for a member of a team that owns, else `Nothing`.
pub open spec fn rights_of(owners: Seq<Owner>, user_id: i32, member_of: Seq<i32>) -> Rights {
    if owns_directly(owners, user_id) {
        Rights::Full
    } else if owns_through_team(owners, member_of) {
        Rights::Publish
    } else {
        Rights::Nothing
    }
}

/// Whether `ids` holds `id`.
pub fn holds(ids: &Vec<i32>, id: i32) -> (r: bool)
    ensures
        r == ids@.contains(id),
{
    let mut i: usize = 0;
    while i < ids.len()
        invariant
            i <= ids.len(),
            forall|j: int| 0 <= j < i ==> ids[j] != id,
        decreases ids.len() - i,
    {
        if ids[i] == id {
            return true;
        }
        i = i + 1;
    }
    false
}

/// The rights of `user` on a crate with the owners `owners`. `member_of` lists
/// the teams that `user` is a member of.
pub fn rights(owners: &Vec<Owner>, user: &User, member_of: &Vec<i32>) -> (r: Rights)
    ensures
        r == rights_of(owners@, user.id, member_of@),
{
    let mut best = Rights::Nothing;
    let mut i: usize = 0;
    while i < owners.len()
        invariant
            i <= owners.len(),
            forall|j: int| 0 <= j < i ==> !is_user(#[trigger] owners[j], user.id),
            best == Rights::Publish || best == Rights::Nothing,
            best == Rights::Publish <==> exists|j: int|
                0 <= j < i && is_team_among(#[trigger] owners[j], member_of@),
        decreases owners.len() - i,
    {
        match &owners[i] {
            Owner::User(other) => {
                if other.id == user.id {
                    return Rights::Full;
                }
            },
            Owner::Team(team) => {
                if holds(member_of, team.id) {
                    best = Rights::Publish;
                }
            },
        }
        i = i + 1;
    }
    best
}

impl Registry {
    /// The first user with the identifier `id`.
    pub fn user_by_id(&self, id: i32) -> (r: Option<&User>)
        ensures
            match r {
                Some(u) => find_user(self.users@, id) == Some(*u),
                None => find_user(self.users@, id) is None,
            },
    {
        let mut i: usize = 0;
        assert(self.users@.skip(0) == self.users@);
        while i < self.users.len()
            invariant
                i <= self.users.len(),
                find_user(self.users@, id) == find_user(self.users@.skip(i as int), id),
            decreases self.users.len() - i,
        {
            assert(self.users@.skip(i as int).drop_first() == self.users@.skip(i + 1));
            if self.users[i].id == id {
                return Some(&self.users[i]);
            }
            i = i + 1;
        }
        None
    }

    /// The first team with the identifier `id`.
    pub fn team_by_id(&self, id: i32) -> (r: Option<&Team>)
        ensures
            match r {
                Some(t) => find_team(self.teams@, id) == Some(*t),
                None => find_team(self.teams@, id) is None,
            },
    {
        let mut i: usize = 0;
        assert(self.teams@.skip(0) == self.teams@);
        while i < self.teams.len()
            invariant
                i <= self.teams.len(),
                find_team(self.teams@, id) == find_team(self.teams@.skip(i as int), id),
            decreases self.teams.len() - i,
        {
            assert(self.teams@.skip(i as int).drop_first() == self.teams@.skip(i + 1));
            if self.teams[i].id == id {
                return Some(&self.teams[i]);
            }
            i = i + 1;
        }
        None
    }

    /// The first user with the login `login`.
    pub fn user_by_login(&self, login: &str) -> (r: Option<&User>)
        ensures
            match r {
                Some(u) => find_user_by_login(self.users@, login@) == Some(*u),
                None => find_user_by_login(self.users@, login@) is None,
            },
    {
        let mut i: usize = 0;
        assert(self.users@.skip(0) == self.users@);
        while i < self.users.len()
            invariant
                i <= self.users.len(),
                find_user_by_login(self.users@, login@) == find_user_by_login(
                    self.users@.skip(i as int),
                    login@,
                ),
            decreases self.users.len() - i,
        {
            assert(self.users@.skip(i as int).drop_first() == self.users@.skip(i + 1));
            if same_text(self.users[i].gh_login.as_str(), login) {
                return Some(&self.users[i]);
            }
            i = i + 1;
        }
        None
    }

    /// The first team with the login `login`.
    pub fn team_by_login(&self, login: &str) -> (r: Option<&Team>)
        ensures
            match r {
                Some(t) => find_team_by_login(self.teams@, login@) == Some(*t),
                None => find_team_by_login(self.teams@, login@) is None,
            },
    {
        let mut i: usize = 0;
        assert(self.teams@.skip(0) == self.teams@);
        while i < self.teams.len()
            invariant
                i <= self.teams.len(),
                find_team_by_login(self.teams@, login@) == find_team_by_login(
                    self.teams@.skip(i as int),
                    login@,
                ),
            decreases self.teams.len() - i,
        {
            assert(self.teams@.skip(i as int).drop_first() == self.teams@.skip(i + 1));
            if same_text(self.teams[i].login.as_str(), login) {
                return Some(&self.teams[i]);
            }
            i = i + 1;
        }
        None
    }

    /// The position of the first grant for the same crate, owner and kind as
    /// `probe`, or the number of grants if there is none.
    pub fn grant_position(&self, probe: &CrateOwner) -> (r: usize)
        ensures
            r == grant_index(self.crate_owners@, *probe),
            r <= self.crate_owners@.len(),
            r < self.crate_owners@.len() ==> same_grant(self.crate_owners@[r as int], *probe),
            forall|i: int| 0 <= i < r ==> !same_grant(#[trigger] self.crate_owners@[i], *probe),
    {
        let mut i: usize = 0;
        while i < self.crate_owners.len()
            invariant
                i <= self.crate_owners.len(),
                forall|j: int| 0 <= j < i ==> !same_grant(#[trigger] self.crate_owners@[j], *probe),
            decreases self.crate_owners.len() - i,
        {
            let g = &self.crate_owners[i];
            if g.crate_id == probe.crate_id && g.owner_id == probe.owner_id && g.owner_kind.code()
                == probe.owner_kind.code() {
                proof {
                    lemma_grant_index(self.crate_owners@, *probe, i as int);
                }
                return i;
            }
            i = i + 1;
        }
        proof {
            lemma_grant_index(self.crate_owners@, *probe, i as int);
        }
        i
    }
}

/// Whether `login` names a team.
pub fn names_team(login: &str) -> (r: bool)
    ensures
        r == is_team_login(login@),
{
    let v = chars_of(login);
    let mut i: usize = 0;
    while i < v.len()
        invariant
            i <= v.len(),
            v@ == login@,
            forall|j: int| 0 <= j < i ==> v[j] != ':',
        decreases v.len() - i,
    {
        if v[i] == ':' {
            assert(login@[i as int] == ':');
            return true;
        }
        i = i + 1;
    }
    false
}

impl Owner {
    /// The owner that `login` names: a team where the login holds a `:`, else
    /// a user.
    pub fn find_by_login(conn: &Registry, login: &str) -> (r: Result<Owner, Error>)
        ensures
            match resolve_owner(conn.users@, conn.teams@, login@) {
                Some(o) => r == Ok::<Owner, Error>(o),
                None => r matches Err(e) && e@ == (ErrorKind::OwnerNotFound, login@),
            },
    {
        if names_team(login) {
            match conn.team_by_login(login) {
                Some(t) => Ok(Owner::Team(t.clone())),
                None => Err(Error::with(ErrorKind::OwnerNotFound, login)),
            }
        } else {
            match conn.user_by_login(login) {
                Some(u) => Ok(Owner::User(u.clone())),
                None => Err(Error::with(ErrorKind::OwnerNotFound, login)),
            }
        }
    }
}

/// What the service behind the teams reports of a team it has found.
#[derive(Debug, PartialEq, Eq)]
pub struct NewTeam {
    pub github_id: i32,
    pub name: Option<String>,
    pub avatar: Option<String>,
}

/// What the service behind the teams answered when it was asked, on behalf of
/// the acting user, for the team that a login names.
#[derive(Debug, PartialEq, Eq)]
pub enum TeamAnswer {
    /// The team exists and the acting user may add it.
    Granted(NewTeam),
    /// The service refused, with its reason.
    Refused(String),
}

/// Why `login` cannot be made an owner of `crate_id`, if it cannot. `answer`
/// is read only where `login` names a team that is not on record.
pub open spec fn add_verdict(
    pre: Registry,
    crate_id: i32,
    login: Seq<char>,
    member_of: Seq<i32>,
    answer: TeamAnswer,
) -> Option<(ErrorKind, Seq<char>)> {
    if !has_crate(pre.crates@, crate_id) {
        Some((ErrorKind::NotFound, Seq::empty()))
    } else {
        match resolve_owner(pre.users@, pre.teams@, login) {
            Some(Owner::User(_)) => None,
            Some(Owner::Team(t)) => if member_of.contains(t.id) {
                None
            } else {
                Some((ErrorKind::NotTeamMember, login))
            },
            None => if !is_team_login(login) {
                Some((ErrorKind::OwnerNotFound, login))
            } else {
                match answer {
                    TeamAnswer::Refused(reason) => Some((ErrorKind::Team, reason@)),
                    TeamAnswer::Granted(_) => if pre.next_team_id == i32::MAX {
                        Some((ErrorKind::Exhausted, Seq::empty()))
                    } else {
                        None
                    },
                }
            },
        }
    }
}

/// `post` is `pre` with `login` made an owner of `crate_id` by `req_user_id`,
/// where `add_verdict` has nothing against it: a team that is not on record
/// is put on record first, under the next identifier.
pub open spec fn owner_added(
    pre: Registry,
    post: Registry,
    crate_id: i32,
    req_user_id: i32,
    login: Seq<char>,
    answer: TeamAnswer,
) -> bool {
    match resolve_owner(pre.users@, pre.teams@, login) {
        Some(o) => {
            &&& post.crate_owners@ == with_grant(
                pre.crate_owners@,
                live_grant(crate_id, o.id_of(), o.kind_of(), req_user_id),
            )
            &&& post == (Registry { crate_owners: post.crate_owners, ..pre })
        },
        None => {
            &&& answer matches TeamAnswer::Granted(nt)
            &&& post.teams@.len() == pre.teams@.len() + 1
            &&& post.teams@.subrange(0, pre.teams@.len() as int) == pre.teams@
            &&& post.teams@.last().id == pre.next_team_id
            &&& post.teams@.last().login@ == login
            &&& post.teams@.last().github_id == nt.github_id
            &&& post.teams@.last().name == nt.name
            &&& post.teams@.last().avatar == nt.avatar
            &&& post.next_team_id == pre.next_team_id + 1
            &&& post.crate_owners@ == with_grant(
                pre.crate_owners@,
                live_grant(crate_id, pre.next_team_id, OwnerKind::Team, req_user_id),
            )
            &&& post == (Registry {
                crate_owners: post.crate_owners,
                teams: post.teams,
                next_team_id: post.next_team_id,
                ..pre
            })
        },
    }
}

/// `post` is `pre` with the grant of `crate_id` to the owner that `login`
/// names withdrawn, where the login names an owner.
pub open spec fn owner_removed(
    pre: Registry,
    post: Registry,
    crate_id: i32,
    login: Seq<char>,
) -> bool {
    match resolve_owner(pre.users@, pre.teams@, login) {
        Some(o) => {
            &&& post.crate_owners@ == without_grant(
                pre.crate_owners@,
                live_grant(crate_id, o.id_of(), o.kind_of(), 0),
            )
            &&& post == (Registry { crate_owners: post.crate_owners, ..pre })
        },
        None => false,
    }
}

impl Registry {
    /// Puts a user on record under the next identifier.
    pub fn add_user(
        &mut self,
        gh_login: &str,
        name: Option<&str>,
        avatar: Option<&str>,
    ) -> (r: Result<User, Error>)
        requires
            old(self).wf(),
        ensures
            final(self).wf(),
            match r {
                Ok(u) => {
                    &&& old(self).next_user_id < i32::MAX
                    &&& final(self).users@ == old(self).users@.push(u)
                    &&& final(self).next_user_id == old(self).next_user_id + 1
                    &&& *final(self) == (Registry {
                        users: final(self).users,
                        next_user_id: final(self).next_user_id,
                        ..*old(self)
                    })
                    &&& u.id == old(self).next_user_id
                    &&& u.gh_login@ == gh_login@
                    &&& crate::text::opt_text(u.name) == crate::text::opt_str_text(name)
                    &&& crate::text::opt_text(u.avatar) == crate::text::opt_str_text(avatar)
                },
                Err(e) => old(self).next_user_id == i32::MAX && e@ == (
                    ErrorKind::Exhausted,
                    Seq::<char>::empty(),
                ) && *final(self) == *old(self),
            },
    {
        if self.next_user_id == i32::MAX {
            return Err(Error::bare(ErrorKind::Exhausted));
        }
        let id: i32 = self.next_user_id;
        let u = User {
            id,
            gh_login: gh_login.to_owned(),
            name: crate::text::own_opt(name),
            avatar: crate::text::own_opt(avatar),
        };
        let c = u.clone();
        proof {
            reveal(crate::registry::users_wf);
            let after = self.users@.push(u);
            assert forall|a: int| 0 <= a < after.len() implies 0 < (#[trigger] after[a]).id < id
                + 1 by {
                if a < self.users@.len() {
                    assert(after[a] == self.users@[a]);
                }
            }
            assert forall|a: int, b: int|
                #![trigger after[a], after[b]]
                0 <= a < after.len() && 0 <= b < after.len() && a != b implies after[a].id
                != after[b].id by {
                if a < self.users@.len() {
                    assert(after[a] == self.users@[a]);
                }
                if b < self.users@.len() {
                    assert(after[b] == self.users@[b]);
                }
            }
        }
        self.users.push(u);
        self.next_user_id = id + 1;
        Ok(c)
    }

    /// Brings `g` in force: the grant for the same crate, owner and kind is
    /// brought back if there is one; else `g` is added.
    pub fn put_grant(&mut self, g: CrateOwner)
        requires
            old(self).wf(),
            0 < g.crate_id < old(self).next_crate_id,
            !g.deleted,
        ensures
            final(self).wf(),
            final(self).crate_owners@ == with_grant(old(self).crate_owners@, g),
            *final(self) == (Registry { crate_owners: final(self).crate_owners, ..*old(self) }),
    {
        let i = self.grant_position(&g);
        if i < self.crate_owners.len() {
            let have = self.crate_owners[i];
            let row = CrateOwner { deleted: false, ..have };
            proof {
                lemma_grants_update(self.crate_owners@, self.next_crate_id, i as int, row);
            }
            self.crate_owners.set(i, row);
        } else {
            proof {
                lemma_grants_push(self.crate_owners@, self.next_crate_id, self.next_crate_id, g);
            }
            self.crate_owners.push(g);
        }
    }

    /// Withdraws the grant for the same crate, owner and kind as `probe`, if
    /// there is one: the grant is marked, never removed.
    pub fn drop_grant(&mut self, probe: CrateOwner)
        requires
            old(self).wf(),
        ensures
            final(self).wf(),
            final(self).crate_owners@ == without_grant(old(self).crate_owners@, probe),
            *final(self) == (Registry { crate_owners: final(self).crate_owners, ..*old(self) }),
    {
        let i = self.grant_position(&probe);
        if i < self.crate_owners.len() {
            let have = self.crate_owners[i];
            let row = CrateOwner { deleted: true, ..have };
            proof {
                lemma_grants_update(self.crate_owners@, self.next_crate_id, i as int, row);
            }
            self.crate_owners.set(i, row);
        }
    }

    /// Puts a team on record under the next identifier.
    fn put_team(&mut self, login: &str, nt: &NewTeam) -> (id: i32)
        requires
            old(self).wf(),
            old(self).next_team_id < i32::MAX,
        ensures
            final(self).wf(),
            id == old(self).next_team_id,
            final(self).teams@.len() == old(self).teams@.len() + 1,
            final(self).teams@.subrange(0, old(self).teams@.len() as int) == old(self).teams@,
            final(self).teams@.last().id == id,
            final(self).teams@.last().login@ == login@,
            final(self).teams@.last().github_id == nt.github_id,
            final(self).teams@.last().name == nt.name,
            final(self).teams@.last().avatar == nt.avatar,
            final(self).next_team_id == id + 1,
            *final(self) == (Registry {
                teams: final(self).teams,
                next_team_id: final(self).next_team_id,
                ..*old(self)
            }),
    {
        let id: i32 = self.next_team_id;
        let t = Team {
            id,
            github_id: nt.github_id,
            login: login.to_owned(),
            name: clone_opt(&nt.name),
            avatar: clone_opt(&nt.avatar),
        };
        proof {
            reveal(teams_wf);
            let after = self.teams@.push(t);
            assert forall|a: int| 0 <= a < after.len() implies 0 < (#[trigger] after[a]).id < id
                + 1 by {
                if a < self.teams@.len() {
                    assert(after[a] == self.teams@[a]);
                }
            }
            assert forall|a: int, b: int|
                #![trigger after[a], after[b]]
                0 <= a < after.len() && 0 <= b < after.len() && a != b implies after[a].id
                != after[b].id by {
                if a < self.teams@.len() {
                    assert(after[a] == self.teams@[a]);
                }
                if b < self.teams@.len() {
                    assert(after[b] == self.teams@[b]);
                }
            }
            assert(after.subrange(0, self.teams@.len() as int) == self.teams@);
        }
        self.teams.push(t);
        self.next_team_id = id + 1;
        id
    }
}

impl Crate {
    /// The owners of the crate: the users whose grants are in force, in the
    /// order of the grants, then the teams.
    pub fn owners(&self, conn: &Registry) -> (r: Vec<Owner>)
        ensures
            r@ == owners_of(*conn, self.id),
    {
        let mut out = self.owners_by_kind(conn, OwnerKind::User);
        let mut teams = self.owners_by_kind(conn, OwnerKind::Team);
        out.append(&mut teams);
        out
    }

    fn owners_by_kind(&self, conn: &Registry, kind: OwnerKind) -> (r: Vec<Owner>)
        ensures
            r@ == owners_of_kind(conn.crate_owners@, self.id, kind, conn.users@, conn.teams@),
    {
        let mut out: Vec<Owner> = Vec::new();
        let mut i: usize = 0;
        let ghost grants = conn.crate_owners@;
        while i < conn.crate_owners.len()
            invariant
                i <= conn.crate_owners.len(),
                grants == conn.crate_owners@,
                out@ == owners_of_kind(
                    grants.subrange(0, i as int),
                    self.id,
                    kind,
                    conn.users@,
                    conn.teams@,
                ),
            decreases conn.crate_owners.len() - i,
        {
            let g = conn.crate_owners[i];
            proof {
                assert(grants.subrange(0, i + 1).drop_last() == grants.subrange(0, i as int));
                assert(grants.subrange(0, i + 1).last() == g);
            }
            if g.crate_id == self.id && !g.deleted && g.owner_kind.code() == kind.code() {
                match kind {
                    OwnerKind::User => match conn.user_by_id(g.owner_id) {
                        Some(u) => out.push(Owner::User(u.clone())),
                        None => {},
                    },
                    OwnerKind::Team => match conn.team_by_id(g.owner_id) {
                        Some(t) => out.push(Owner::Team(t.clone())),
                        None => {},
                    },
                }
            }
            i = i + 1;
        }
        assert(grants.subrange(0, i as int) == grants);
        out
    }

    /// Makes the owner that `login` names an owner of the crate.
    ///
    /// A team may be added only by one of its members. A team that is not on
    /// record is put on record from what the service behind the teams
    /// answered. A grant that was withdrawn before is brought back, so that no
    /// second grant for the same owner comes about.
    pub fn owner_add(
        &self,
        conn: &mut Registry,
        req_user: &User,
        login: &str,
        member_of: &Vec<i32>,
        answer: &TeamAnswer,
    ) -> (r: Result<(), Error>)
        requires
            old(conn).wf(),
        ensures
            final(conn).wf(),
            match add_verdict(*old(conn), self.id, login@, member_of@, *answer) {
                Some(v) => r matches Err(e) && e@ == v && *final(conn) == *old(conn),
                None => r is Ok && owner_added(
                    *old(conn),
                    *final(conn),
                    self.id,
                    req_user.id,
                    login@,
                    *answer,
                ),
            },
    {
        match conn.id_position(self.id) {
            None => {
                return Err(Error::bare(ErrorKind::NotFound));
            },
            Some(i) => {
                proof {
                    reveal(crates_wf);
                    assert(holds_id(conn.crates@, self.id, i as int));
                }
            },
        }
        let found = Owner::find_by_login(conn, login);
        let (owner_id, kind) = match found {
            Ok(Owner::User(u)) => (u.id, OwnerKind::User),
            Ok(Owner::Team(t)) => {
                if !holds(member_of, t.id) {
                    return Err(Error::with(ErrorKind::NotTeamMember, login));
                }
                (t.id, OwnerKind::Team)
            },
            Err(e) => {
                if !names_team(login) {
                    return Err(e);
                }
                match answer {
                    TeamAnswer::Refused(reason) => {
                        return Err(Error::with(ErrorKind::Team, reason.as_str()));
                    },
                    TeamAnswer::Granted(nt) => {
                        if conn.next_team_id == i32::MAX {
                            return Err(Error::bare(ErrorKind::Exhausted));
                        }
                        (conn.put_team(login, nt), OwnerKind::Team)
                    },
                }
            },
        };
        conn.put_grant(
            CrateOwner {
                crate_id: self.id,
                owner_id,
                created_by: req_user.id,
                owner_kind: kind,
                deleted: false,
            },
        );
        Ok(())
    }

    /// Withdraws the grant of the crate to the owner that `login` names. The
    /// grant is marked as deleted, never removed.
    pub fn owner_remove(&self, conn: &mut Registry, _req_user: &User, login: &str) -> (r: Result<
        (),
        Error,
    >)
        requires
            old(conn).wf(),
        ensures
            final(conn).wf(),
            match resolve_owner(old(conn).users@, old(conn).teams@, login@) {
                None => r matches Err(e) && e@ == (ErrorKind::OwnerNotFound, login@) && *final(conn)
                    == *old(conn),
                Some(_) => r is Ok && owner_removed(*old(conn), *final(conn), self.id, login@),
            },
    {
        let owner = Owner::find_by_login(conn, login)?;
        conn.drop_grant(
            CrateOwner {
                crate_id: self.id,
                owner_id: owner.id(),
                created_by: 0,
                owner_kind: owner.kind(),
                deleted: false,
            },
        );
        Ok(())
    }
}

/// One login of a request to change the owners of a crate, with what the
/// service behind the teams answered for it.
#[derive(Debug, PartialEq, Eq)]
pub struct OwnerChange {
    pub login: String,
    pub team: TeamAnswer,
}

/// Whether one of `owners` has the login `login`.
pub open spec fn listed(owners: Seq<Owner>, login: Seq<char>) -> bool {
    exists|i: int| 0 <= i < owners.len() && (#[trigger] owners[i]).login_of() == login
}

/// Why a change is refused in the state `pre`, if it is. `owners` are the
/// owners at the start of the request.
pub open spec fn change_verdict(
    pre: Registry,
    crate_id: i32,
    owners: Seq<Owner>,
    user: User,
    member_of: Seq<i32>,
    change: OwnerChange,
    add: bool,
) -> Option<(ErrorKind, Seq<char>)> {
    if add {
        if listed(owners, change.login@) {
            Some((ErrorKind::AlreadyOwner, change.login@))
        } else {
            add_verdict(pre, crate_id, change.login@, member_of, change.team)
        }
    } else {
        if change.login@ == user.gh_login@ {
            Some((ErrorKind::CannotRemoveSelf, Seq::empty()))
        } else if resolve_owner(pre.users@, pre.teams@, change.login@) is None {
            Some((ErrorKind::OwnerNotFound, change.login@))
        } else {
            None
        }
    }
}

/// `post` is `pre` after a change that nothing was held against.
pub open spec fn change_applied(
    pre: Registry,
    post: Registry,
    crate_id: i32,
    user: User,
    change: OwnerChange,
    add: bool,
) -> bool {
    if add {
        owner_added(pre, post, crate_id, user.id, change.login@, change.team)
    } else {
        owner_removed(pre, post, crate_id, change.login@)
    }
}

/// `trail` holds the states that the first `k` of `changes` lead through, one
/// after the other from `pre` to `post`, none of them refused.
pub open spec fn is_trail(
    trail: Seq<Registry>,
    pre: Registry,
    post: Registry,
    crate_id: i32,
    owners: Seq<Owner>,
    user: User,
    member_of: Seq<i32>,
    changes: Seq<OwnerChange>,
    add: bool,
    k: int,
) -> bool {
    &&& 0 <= k <= changes.len()
    &&& trail.len() == k + 1
    &&& trail[0] == pre
    &&& trail[k] == post
    &&& forall|j: int|
        0 <= j < k ==> change_verdict(
            #[trigger] trail[j],
            crate_id,
            owners,
            user,
            member_of,
            changes[j],
            add,
        ) is None && change_applied(trail[j], trail[j + 1], crate_id, user, changes[j], add)
}

/// `post` is `pre` after the first `k` of `changes`, one after the other, none
/// of which was refused.
pub open spec fn changes_applied(
    pre: Registry,
    post: Registry,
    crate_id: i32,
    owners: Seq<Owner>,
    user: User,
    member_of: Seq<i32>,
    changes: Seq<OwnerChange>,
    add: bool,
    k: int,
) -> bool {
    exists|trail: Seq<Registry>|
        #[trigger] is_trail(trail, pre, post, crate_id, owners, user, member_of, changes, add, k)
}

/// The first `k` of `changes` go through from `pre`, and the next is refused
/// with `v`.
pub open spec fn change_refused(
    pre: Registry,
    crate_id: i32,
    owners: Seq<Owner>,
    user: User,
    member_of: Seq<i32>,
    changes: Seq<OwnerChange>,
    add: bool,
    k: int,
    v: (ErrorKind, Seq<char>),
) -> bool {
    exists|trail: Seq<Registry>|
        {
            &&& 0 <= k < changes.len()
            &&& #[trigger] is_trail(
                trail,
                pre,
                trail[k],
                crate_id,
                owners,
                user,
                member_of,
                changes,
                add,
                k,
            )
            &&& change_verdict(trail[k], crate_id, owners, user, member_of, changes[k], add) == Some(v)
        }
}

/// The tables hold what they held: the grants and the teams row for row, all
/// else untouched.
pub open spec fn owners_restored(pre: Registry, post: Registry) -> bool {
    &&& post.crate_owners@ == pre.crate_owners@
    &&& post.teams@ == pre.teams@
    &&& post == (Registry { crate_owners: post.crate_owners, teams: post.teams, ..pre })
}

/// Why a request to change owners is turned away before any change is tried:
/// the crate is not there, or the acting user lacks the rights. Adding owners
/// takes the right to publish; removing owners takes full rights.
pub open spec fn admission_verdict(
    pre: Registry,
    user: User,
    member_of: Seq<i32>,
    crate_name: Seq<char>,
    add: bool,
) -> Option<(ErrorKind, Seq<char>)> {
    if !crate::registry::slot_taken(pre.crates@, crate_name) {
        Some((ErrorKind::NotFound, Seq::empty()))
    } else {
        let id = pre.crates@[crate::registry::first_in_slot(pre.crates@, crate_name)].id;
        match rights_of(owners_of(pre, id), user.id, member_of) {
            Rights::Full => None,
            Rights::Publish => if add {
                None
            } else {
                Some((ErrorKind::TeamMembersCannotModify, Seq::empty()))
            },
            Rights::Nothing => Some((ErrorKind::OnlyOwnersModify, Seq::empty())),
        }
    }
}

/// Whether one of `owners` has the login `login`.
pub fn is_listed(owners: &Vec<Owner>, login: &str) -> (r: bool)
    ensures
        r == listed(owners@, login@),
{
    let mut i: usize = 0;
    while i < owners.len()
        invariant
            i <= owners.len(),
            forall|j: int| 0 <= j < i ==> (#[trigger] owners[j]).login_of() != login@,
        decreases owners.len() - i,
    {
        if same_text(owners[i].login(), login) {
            return true;
        }
        i = i + 1;
    }
    false
}

/// What a request to change the owners of a crate does: it is turned away
/// at once and nothing changes; or all changes are made, in order; or one is
/// refused, its reason is reported and the tables hold what they held.
pub open spec fn owners_modified(
    pre: Registry,
    post: Registry,
    user: User,
    member_of: Seq<i32>,
    crate_name: Seq<char>,
    changes: Seq<OwnerChange>,
    add: bool,
    r: Result<(), Error>,
) -> bool {
    match admission_verdict(pre, user, member_of, crate_name, add) {
        Some(v) => r matches Err(e) && e@ == v && post == pre,
        None => {
            let id = pre.crates@[crate::registry::first_in_slot(pre.crates@, crate_name)].id;
            changes_finished(pre, post, id, owners_of(pre, id), user, member_of, changes, add, r)
        },
    }
}

/// All changes were made, in order; or one was refused, its reason is
/// reported and the tables hold what they held.
pub open spec fn changes_finished(
    pre: Registry,
    post: Registry,
    crate_id: i32,
    owners: Seq<Owner>,
    user: User,
    member_of: Seq<i32>,
    changes: Seq<OwnerChange>,
    add: bool,
    r: Result<(), Error>,
) -> bool {
    match r {
        Ok(_) => changes_applied(
            pre,
            post,
            crate_id,
            owners,
            user,
            member_of,
            changes,
            add,
            changes.len() as int,
        ),
        Err(e) => owners_restored(pre, post) && exists|k: int|
            0 <= k < changes.len() && #[trigger] change_refused(
                pre,
                crate_id,
                owners,
                user,
                member_of,
                changes,
                add,
                k,
                e@,
            ),
    }
}

/// Tries one change.
fn apply_change(
    conn: &mut Registry,
    target: &Crate,
    owners: &Vec<Owner>,
    user: &User,
    member_of: &Vec<i32>,
    change: &OwnerChange,
    add: bool,
) -> (r: Result<(), Error>)
    requires
        old(conn).wf(),
    ensures
        final(conn).wf(),
        match change_verdict(*old(conn), target.id, owners@, *user, member_of@, *change, add) {
            Some(v) => r matches Err(e) && e@ == v && *final(conn) == *old(conn),
            None => r is Ok && change_applied(*old(conn), *final(conn), target.id, *user, *change, add),
        },
{
    if add {
        if is_listed(owners, change.login.as_str()) {
            Err(Error::with(ErrorKind::AlreadyOwner, change.login.as_str()))
        } else {
            target.owner_add(conn, user, change.login.as_str(), member_of, &change.team)
        }
    } else {
        if same_text(change.login.as_str(), user.gh_login.as_str()) {
            Err(Error::bare(ErrorKind::CannotRemoveSelf))
        } else {
            target.owner_remove(conn, user, change.login.as_str())
        }
    }
}

/// A change that goes through leaves the teams that were on record where they
/// were, and touches nothing but grants and teams.
proof fn lemma_change_keeps(
    pre: Registry,
    post: Registry,
    crate_id: i32,
    user: User,
    change: OwnerChange,
    add: bool,
)
    requires
        change_applied(pre, post, crate_id, user, change, add),
    ensures
        post.teams@.len() >= pre.teams@.len(),
        post.teams@.subrange(0, pre.teams@.len() as int) == pre.teams@,
        post == (Registry {
            crate_owners: post.crate_owners,
            teams: post.teams,
            next_team_id: post.next_team_id,
            ..pre
        }),
{
    assert(pre.teams@.subrange(0, pre.teams@.len() as int) == pre.teams@);
}

/// Makes the changes in order; if one is refused, none is kept.
fn apply_changes(
    conn: &mut Registry,
    target: &Crate,
    owners: &Vec<Owner>,
    user: &User,
    member_of: &Vec<i32>,
    changes: &Vec<OwnerChange>,
    add: bool,
) -> (r: Result<(), Error>)
    requires
        old(conn).wf(),
    ensures
        final(conn).wf(),
        changes_finished(
            *old(conn),
            *final(conn),
            target.id,
            owners@,
            *user,
            member_of@,
            changes@,
            add,
            r,
        ),
{
    let saved_grants = conn.crate_owners.clone();
    let saved_teams: usize = conn.teams.len();
    let saved_next: i32 = conn.next_team_id;
    assert(saved_grants@ =~= conn.crate_owners@);
    assert(conn.teams@.subrange(0, saved_teams as int) == conn.teams@);
    let ghost mut trail: Seq<Registry> = seq![*conn];
    let mut i: usize = 0;
    while i < changes.len()
        invariant
            i <= changes.len(),
            conn.wf(),
            old(conn).wf(),
            saved_grants@ == old(conn).crate_owners@,
            saved_teams == old(conn).teams@.len(),
            saved_next == old(conn).next_team_id,
            conn.teams@.len() >= saved_teams,
            conn.teams@.subrange(0, saved_teams as int) == old(conn).teams@,
            *conn == (Registry {
                crate_owners: conn.crate_owners,
                teams: conn.teams,
                next_team_id: conn.next_team_id,
                ..*old(conn)
            }),
            is_trail(
                trail,
                *old(conn),
                *conn,
                target.id,
                owners@,
                *user,
                member_of@,
                changes@,
                add,
                i as int,
            ),
        decreases changes.len() - i,
    {
        let ghost before = *conn;
        match apply_change(conn, target, owners, user, member_of, &changes[i], add) {
            Err(e) => {
                proof {
                    assert(is_trail(
                        trail,
                        *old(conn),
                        trail[i as int],
                        target.id,
                        owners@,
                        *user,
                        member_of@,
                        changes@,
                        add,
                        i as int,
                    ));
                    assert(change_refused(
                        *old(conn),
                        target.id,
                        owners@,
                        *user,
                        member_of@,
                        changes@,
                        add,
                        i as int,
                        e@,
                    ));
                }
                conn.crate_owners = saved_grants;
                conn.teams.truncate(saved_teams);
                conn.next_team_id = saved_next;
                proof {
                    reveal(teams_wf);
                    reveal(grants_wf);
                }
                return Err(e);
            },
            Ok(_) => {
                proof {
                    lemma_change_keeps(before, *conn, target.id, *user, changes@[i as int], add);
                    assert(conn.teams@.subrange(0, saved_teams as int) == before.teams@.subrange(
                        0,
                        saved_teams as int,
                    )) by {
                        assert(conn.teams@.subrange(0, before.teams@.len() as int).subrange(
                            0,
                            saved_teams as int,
                        ) == conn.teams@.subrange(0, saved_teams as int));
                    }
                    let longer = trail.push(*conn);
                    assert forall|j: int| 0 <= j < i + 1 implies change_verdict(
                        #[trigger] longer[j],
                        target.id,
                        owners@,
                        *user,
                        member_of@,
                        changes@[j],
                        add,
                    ) is None && change_applied(
                        longer[j],
                        longer[j + 1],
                        target.id,
                        *user,
                        changes@[j],
                        add,
                    ) by {
                        if j < i {
                            assert(longer[j] == trail[j]);
                            assert(longer[j + 1] == trail[j + 1]);
                        }
                    }
                    trail = longer;
                }
            },
        }
        i = i + 1;
    }
    proof {
        assert(is_trail(
            trail,
            *old(conn),
            *conn,
            target.id,
            owners@,
            *user,
            member_of@,
            changes@,
            add,
            changes@.len() as int,
        ));
    }
    Ok(())
}

/// The crate that a request to change owners is about and its owners, if the
/// acting user may make such a request.
pub fn admit_request(
    conn: &Registry,
    user: &User,
    member_of: &Vec<i32>,
    crate_name: &str,
    add: bool,
) -> (r: Result<(Crate, Vec<Owner>), Error>)
    ensures
        match admission_verdict(*conn, *user, member_of@, crate_name@, add) {
            Some(v) => r matches Err(e) && e@ == v,
            None => r matches Ok(p) && p.0 == conn.crates@[crate::registry::first_in_slot(
                conn.crates@,
                crate_name@,
            )] && p.1@ == owners_of(*conn, p.0.id),
        },
{
    let target = Crate::find_by_name(conn, crate_name)?;
    let owners = target.owners(conn);
    match rights(&owners, user, member_of) {
        Rights::Full => {},
        Rights::Publish => {
            if !add {
                return Err(Error::bare(ErrorKind::TeamMembersCannotModify));
            }
        },
        Rights::Nothing => {
            return Err(Error::bare(ErrorKind::OnlyOwnersModify));
        },
    }
    Ok((target, owners))
}

/// Adds the owners that `changes` name to the crate `crate_name`, or removes
/// them, on behalf of `user`. The changes are made in order; if one is
/// refused, none is kept.
pub fn modify_owners(
    conn: &mut Registry,
    user: &User,
    member_of: &Vec<i32>,
    crate_name: &str,
    changes: &Vec<OwnerChange>,
    add: bool,
) -> (r: Result<(), Error>)
    requires
        old(conn).wf(),
    ensures
        final(conn).wf(),
        owners_modified(*old(conn), *final(conn), *user, member_of@, crate_name@, changes@, add, r),
{
    match admit_request(conn, user, member_of, crate_name, add) {
        Err(e) => Err(e),
        Ok(p) => apply_changes(conn, &p.0, &p.1, user, member_of, changes, add),
    }
}

/// Adds the owners that `changes` name to the crate `crate_name`. The right
/// to publish is enough.
pub fn add_owners(
    conn: &mut Registry,
    user: &User,
    member_of: &Vec<i32>,
    crate_name: &str,
    changes: &Vec<OwnerChange>,
) -> (r: Result<(), Error>)
    requires
        old(conn).wf(),
    ensures
        final(conn).wf(),
        owners_modified(*old(conn), *final(conn), *user, member_of@, crate_name@, changes@, true, r),
{
    modify_owners(conn, user, member_of, crate_name, changes, true)
}

/// Removes the owners that `changes` name from the crate `crate_name`. Only
/// an owner with full rights may do so, and not itself.
pub fn remove_owners(
    conn: &mut Registry,
    user: &User,
    member_of: &Vec<i32>,
    crate_name: &str,
    changes: &Vec<OwnerChange>,
) -> (r: Result<(), Error>)
    requires
        old(conn).wf(),
    ensures
        final(conn).wf(),
        owners_modified(*old(conn), *final(conn), *user, member_of@, crate_name@, changes@, false, r),
{
    modify_owners(conn, user, member_of, crate_name, changes, false)
}

/// The owners of the crate `crate_name`.
pub fn owners(conn: &Registry, crate_name: &str) -> (r: Result<Vec<Owner>, Error>)
    ensures
        match r {
            Ok(v) => crate::registry::slot_taken(conn.crates@, crate_name@) && v@ == owners_of(
                *conn,
                conn.crates@[crate::registry::first_in_slot(conn.crates@, crate_name@)].id,
            ),
            Err(e) => !crate::registry::slot_taken(conn.crates@, crate_name@) && e@ == (
                ErrorKind::NotFound,
                Seq::<char>::empty(),
            ),
        },
{
    let target = Crate::find_by_name(conn, crate_name)?;
    Ok(target.owners(conn))
}

} // verus!
