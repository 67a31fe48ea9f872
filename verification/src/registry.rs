//! The tables of the registry and what must hold of them at all times.

use vstd::prelude::*;
use crate::foreign::{digit_runs_short, semver_accepts, semver_order};
use crate::model::{
    distinct_keys,
    Badge, Category, Crate, CrateCategory, CrateKeyword, CrateOwner, Dependency, Follow, Team, User,
    Version, VersionDownload, distinct_names, features_view,
};
use crate::names::same_slot;

verus! {

/// Every table of the registry. An operation takes the registry where the
/// tables are read or written.
#[derive(Debug)]
pub struct Registry {
    pub crates: Vec<Crate>,
    pub reserved_names: Vec<String>,
    pub crate_owners: Vec<CrateOwner>,
    pub users: Vec<User>,
    pub teams: Vec<Team>,
    pub versions: Vec<Version>,
    pub dependencies: Vec<Dependency>,
    pub version_downloads: Vec<VersionDownload>,
    pub follows: Vec<Follow>,
    pub crates_keywords: Vec<CrateKeyword>,
    pub categories: Vec<Category>,
    pub crates_categories: Vec<CrateCategory>,
    pub badges: Vec<Badge>,
    /// The downloads of all crates together.
    pub total_downloads: i64,
    pub next_crate_id: i32,
    pub next_version_id: i32,
    pub next_dependency_id: i32,
    pub next_user_id: i32,
    pub next_team_id: i32,
}

/// Whether `name` falls into the slot of one of the reserved names.
pub open spec fn name_reserved(reserved: Seq<String>, name: Seq<char>) -> bool {
    exists|k: int| 0 <= k < reserved.len() && same_slot((#[trigger] reserved[k])@, name)
}

/// Whether row `i` of `crates` holds the slot that `name` falls into.
pub open spec fn holds_slot(crates: Seq<Crate>, name: Seq<char>, i: int) -> bool {
    0 <= i < crates.len() && same_slot(crates[i].name@, name)
}

/// Whether some crate holds the slot that `name` falls into.
pub open spec fn slot_taken(crates: Seq<Crate>, name: Seq<char>) -> bool {
    exists|i: int| holds_slot(crates, name, i)
}

/// The first row that holds the slot that `name` falls into.
#[verifier::opaque]
pub open spec fn first_in_slot(crates: Seq<Crate>, name: Seq<char>) -> int {
    choose|i: int|
        holds_slot(crates, name, i) && forall|j: int| 0 <= j < i ==> !holds_slot(crates, name, j)
}

/// Whether row `i` of `crates` has the identifier `id`.
pub open spec fn holds_id(crates: Seq<Crate>, id: i32, i: int) -> bool {
    0 <= i < crates.len() && crates[i].id == id
}

/// Whether some crate has the identifier `id`.
pub open spec fn has_crate(crates: Seq<Crate>, id: i32) -> bool {
    exists|i: int| holds_id(crates, id, i)
}

/// The crate table: identifiers are positive, below the next one to be given
/// out, and given once; no two crates share a slot; no crate sits in the slot
/// of a reserved name.
#[verifier::opaque]
pub open spec fn crates_wf(crates: Seq<Crate>, reserved: Seq<String>, next: i32) -> bool {
    &&& next > 0
    &&& forall|i: int| 0 <= i < crates.len() ==> 0 < (#[trigger] crates[i]).id < next
    &&& forall|i: int, j: int|
        #![trigger crates[i], crates[j]]
        0 <= i < crates.len() && 0 <= j < crates.len() && i != j ==> crates[i].id != crates[j].id
    &&& forall|i: int, j: int|
        #![trigger crates[i], crates[j]]
        0 <= i < crates.len() && 0 <= j < crates.len() && i != j ==> !same_slot(
            crates[i].name@,
            crates[j].name@,
        )
    &&& forall|i: int|
        0 <= i < crates.len() ==> !name_reserved(reserved, (#[trigger] crates[i]).name@)
}

/// Whether two grants are for the same crate, owner and kind of owner.
pub open spec fn same_grant(a: CrateOwner, b: CrateOwner) -> bool {
    a.crate_id == b.crate_id && a.owner_id == b.owner_id && a.owner_kind == b.owner_kind
}

/// The grants: each is for a crate identifier that was given out, and no two
/// are for the same crate, owner and kind.
#[verifier::opaque]
pub open spec fn grants_wf(grants: Seq<CrateOwner>, next_crate: i32) -> bool {
    &&& forall|i: int| 0 <= i < grants.len() ==> 0 < (#[trigger] grants[i]).crate_id < next_crate
    &&& forall|i: int, j: int|
        #![trigger grants[i], grants[j]]
        0 <= i < grants.len() && 0 <= j < grants.len() && i != j ==> !same_grant(
            grants[i],
            grants[j],
        )
}

/// Whether a version number can be handed to the version parser and is
/// accepted by it.
pub open spec fn is_version_number(num: Seq<char>) -> bool {
    digit_runs_short(num) && semver_accepts(num)
}

/// Whether two version numbers are the same version: letter for letter, or
/// equal in the version order.
pub open spec fn same_version(a: Seq<char>, b: Seq<char>) -> bool {
    a == b || semver_order(a, b) == 0
}

/// The versions: identifiers are positive, below the next one and given once;
/// each version is of a crate identifier that was given out; each number is a
/// version number; no crate has the same version twice; no version names a
/// feature twice.
#[verifier::opaque]
pub open spec fn versions_wf(versions: Seq<Version>, next: i32, next_crate: i32) -> bool {
    &&& next > 0
    &&& forall|i: int| 0 <= i < versions.len() ==> 0 < (#[trigger] versions[i]).id < next
    &&& forall|i: int|
        0 <= i < versions.len() ==> 0 < (#[trigger] versions[i]).crate_id < next_crate
    &&& forall|i: int|
        0 <= i < versions.len() ==> distinct_names(
            features_view((#[trigger] versions[i]).features@),
        )
    &&& forall|i: int, j: int|
        #![trigger versions[i], versions[j]]
        0 <= i < versions.len() && 0 <= j < versions.len() && i != j ==> versions[i].id
            != versions[j].id
    &&& forall|i: int| 0 <= i < versions.len() ==> is_version_number((#[trigger] versions[i]).num@)
    &&& forall|i: int, j: int|
        #![trigger versions[i], versions[j]]
        0 <= i < versions.len() && 0 <= j < versions.len() && i != j && versions[i].crate_id
            == versions[j].crate_id ==> !same_version(versions[i].num@, versions[j].num@)
}

/// Whether two counters are for the same version on the same calendar day.
pub open spec fn same_counter(a: VersionDownload, b: VersionDownload) -> bool {
    a.version_id == b.version_id && a.date.day_number() == b.date.day_number()
}

/// The download counters: at most one for a version and a day, and none below
/// one.
#[verifier::opaque]
pub open spec fn counters_wf(counters: Seq<VersionDownload>) -> bool {
    &&& forall|i: int| 0 <= i < counters.len() ==> (#[trigger] counters[i]).downloads >= 1
    &&& forall|i: int, j: int|
        #![trigger counters[i], counters[j]]
        0 <= i < counters.len() && 0 <= j < counters.len() && i != j ==> !same_counter(
            counters[i],
            counters[j],
        )
}

/// The badges: no crate has two badges of one type, and no badge names an
/// attribute twice.
#[verifier::opaque]
pub open spec fn badges_wf(badges: Seq<Badge>) -> bool {
    &&& forall|i: int, j: int|
        #![trigger badges[i], badges[j]]
        0 <= i < badges.len() && 0 <= j < badges.len() && i != j && badges[i].crate_id
            == badges[j].crate_id ==> badges[i].badge_type@ != badges[j].badge_type@
    &&& forall|i: int| 0 <= i < badges.len() ==> distinct_keys((#[trigger] badges[i]).attributes@)
}

/// The subscriptions: none twice.
#[verifier::opaque]
pub open spec fn follows_wf(follows: Seq<Follow>) -> bool {
    forall|i: int, j: int|
        #![trigger follows[i], follows[j]]
        0 <= i < follows.len() && 0 <= j < follows.len() && i != j ==> follows[i] != follows[j]
}

/// The teams: identifiers are positive, below the next one and given once.
#[verifier::opaque]
pub open spec fn teams_wf(teams: Seq<Team>, next: i32) -> bool {
    &&& next > 0
    &&& forall|i: int| 0 <= i < teams.len() ==> 0 < (#[trigger] teams[i]).id < next
    &&& forall|i: int, j: int|
        #![trigger teams[i], teams[j]]
        0 <= i < teams.len() && 0 <= j < teams.len() && i != j ==> teams[i].id != teams[j].id
}

/// The users: identifiers are positive, below the next one and given once.
#[verifier::opaque]
pub open spec fn users_wf(users: Seq<User>, next: i32) -> bool {
    &&& next > 0
    &&& forall|i: int| 0 <= i < users.len() ==> 0 < (#[trigger] users[i]).id < next
    &&& forall|i: int, j: int|
        #![trigger users[i], users[j]]
        0 <= i < users.len() && 0 <= j < users.len() && i != j ==> users[i].id != users[j].id
}

/// A row may be replaced by one with the same identifier and name.
pub proof fn lemma_crates_update(
    crates: Seq<Crate>,
    reserved: Seq<String>,
    next: i32,
    i: int,
    c: Crate,
)
    requires
        crates_wf(crates, reserved, next),
        0 <= i < crates.len(),
        c.id == crates[i].id,
        c.name == crates[i].name,
    ensures
        crates_wf(crates.update(i, c), reserved, next),
{
    reveal(crates_wf);
    let after = crates.update(i, c);
    assert forall|a: int| 0 <= a < after.len() implies 0 < (#[trigger] after[a]).id < next by {
        assert(after[a].id == crates[a].id);
    }
    assert forall|a: int, b: int|
        #![trigger after[a], after[b]]
        0 <= a < after.len() && 0 <= b < after.len() && a != b implies after[a].id != after[b].id
        && !same_slot(after[a].name@, after[b].name@) by {
        assert(after[a].id == crates[a].id && after[a].name == crates[a].name);
        assert(after[b].id == crates[b].id && after[b].name == crates[b].name);
    }
    assert forall|a: int| 0 <= a < after.len() implies !name_reserved(
        reserved,
        (#[trigger] after[a]).name@,
    ) by {
        assert(after[a].name == crates[a].name);
    }
}

/// A crate with the next identifier may be added where its slot is free and
/// its name is not reserved.
pub proof fn lemma_crates_push(crates: Seq<Crate>, reserved: Seq<String>, next: i32, c: Crate)
    requires
        crates_wf(crates, reserved, next),
        next < i32::MAX,
        c.id == next,
        !slot_taken(crates, c.name@),
        !name_reserved(reserved, c.name@),
    ensures
        crates_wf(crates.push(c), reserved, (next + 1) as i32),
{
    reveal(crates_wf);
    reveal(same_slot);
    let after = crates.push(c);
    let n = crates.len() as int;
    assert forall|a: int| 0 <= a < n implies !same_slot(crates[a].name@, c.name@) by {
        assert(!holds_slot(crates, c.name@, a));
    }
    assert forall|a: int| 0 <= a < after.len() implies 0 < (#[trigger] after[a]).id < next + 1 by {
        if a < n {
            assert(after[a] == crates[a]);
        }
    }
    assert forall|a: int, b: int|
        #![trigger after[a], after[b]]
        0 <= a < after.len() && 0 <= b < after.len() && a != b implies after[a].id != after[b].id
        && !same_slot(after[a].name@, after[b].name@) by {
        if a < n {
            assert(after[a] == crates[a]);
        }
        if b < n {
            assert(after[b] == crates[b]);
        }
    }
    assert forall|a: int| 0 <= a < after.len() implies !name_reserved(
        reserved,
        (#[trigger] after[a]).name@,
    ) by {
        if a < n {
            assert(after[a] == crates[a]);
        }
    }
}

/// In a well-formed crate table the holder of a slot is the only one.
pub proof fn lemma_slot_holder_unique(
    crates: Seq<Crate>,
    reserved: Seq<String>,
    next: i32,
    name: Seq<char>,
    i: int,
)
    requires
        crates_wf(crates, reserved, next),
        holds_slot(crates, name, i),
    ensures
        slot_taken(crates, name),
        first_in_slot(crates, name) == i,
        !name_reserved(reserved, name),
{
    reveal(crates_wf);
    reveal(same_slot);
    reveal(first_in_slot);
    assert forall|j: int| 0 <= j < crates.len() && j != i implies !holds_slot(crates, name, j) by {
        assert(!same_slot(crates[i].name@, crates[j].name@));
    }
    assert(!name_reserved(reserved, crates[i].name@));
    assert forall|k: int|
        0 <= k < reserved.len() implies !same_slot((#[trigger] reserved[k])@, name) by {
        if same_slot(reserved[k]@, name) {
            assert(same_slot(reserved[k]@, crates[i].name@));
        }
    }
}

/// The versions stay in order when more crate identifiers are given out.
pub proof fn lemma_versions_more_crates(versions: Seq<Version>, next: i32, next_crate: i32, more: i32)
    requires
        versions_wf(versions, next, next_crate),
        next_crate <= more,
    ensures
        versions_wf(versions, next, more),
{
    reveal(versions_wf);
}

/// A grant may be added where no grant is for the same crate, owner and kind.
pub proof fn lemma_grants_push(grants: Seq<CrateOwner>, next: i32, after_next: i32, g: CrateOwner)
    requires
        grants_wf(grants, next),
        next <= after_next,
        0 < g.crate_id < after_next,
        forall|i: int| 0 <= i < grants.len() ==> !same_grant(#[trigger] grants[i], g),
    ensures
        grants_wf(grants.push(g), after_next),
{
    reveal(grants_wf);
    let after = grants.push(g);
    let n = grants.len() as int;
    assert forall|a: int| 0 <= a < after.len() implies 0 < (#[trigger] after[a]).crate_id
        < after_next by {
        if a < n {
            assert(after[a] == grants[a]);
        }
    }
    assert forall|a: int, b: int|
        #![trigger after[a], after[b]]
        0 <= a < after.len() && 0 <= b < after.len() && a != b implies !same_grant(
        after[a],
        after[b],
    ) by {
        if a < n {
            assert(after[a] == grants[a]);
        }
        if b < n {
            assert(after[b] == grants[b]);
        }
    }
}

/// A grant may be replaced by one for the same crate, owner and kind.
pub proof fn lemma_grants_update(grants: Seq<CrateOwner>, next: i32, i: int, g: CrateOwner)
    requires
        grants_wf(grants, next),
        0 <= i < grants.len(),
        same_grant(grants[i], g),
    ensures
        grants_wf(grants.update(i, g), next),
{
    reveal(grants_wf);
    let after = grants.update(i, g);
    assert forall|a: int|
        0 <= a < after.len() implies 0 < (#[trigger] after[a]).crate_id < next by {
        assert(after[a].crate_id == grants[a].crate_id);
    }
    assert forall|a: int, b: int|
        #![trigger after[a], after[b]]
        0 <= a < after.len() && 0 <= b < after.len() && a != b implies !same_grant(
        after[a],
        after[b],
    ) by {
        assert(same_grant(after[a], grants[a]));
        assert(same_grant(after[b], grants[b]));
        assert(!same_grant(grants[a], grants[b]));
    }
}

impl Registry {
    /// What holds of the tables between any two operations.
    pub open spec fn wf(&self) -> bool {
        &&& crates_wf(self.crates@, self.reserved_names@, self.next_crate_id)
        &&& grants_wf(self.crate_owners@, self.next_crate_id)
        &&& versions_wf(self.versions@, self.next_version_id, self.next_crate_id)
        &&& counters_wf(self.version_downloads@)
        &&& follows_wf(self.follows@)
        &&& badges_wf(self.badges@)
        &&& teams_wf(self.teams@, self.next_team_id)
        &&& users_wf(self.users@, self.next_user_id)
        &&& self.next_dependency_id > 0
    }

    /// A registry without rows, in which the given names are reserved.
    pub fn new(reserved_names: Vec<String>) -> (r: Registry)
        ensures
            r.wf(),
            r.reserved_names == reserved_names,
            r.crates@.len() == 0,
            r.crate_owners@.len() == 0,
            r.users@.len() == 0,
            r.teams@.len() == 0,
            r.versions@.len() == 0,
            r.dependencies@.len() == 0,
            r.version_downloads@.len() == 0,
            r.follows@.len() == 0,
            r.crates_keywords@.len() == 0,
            r.categories@.len() == 0,
            r.crates_categories@.len() == 0,
            r.badges@.len() == 0,
            r.total_downloads == 0,
            r.next_crate_id == 1,
            r.next_version_id == 1,
            r.next_dependency_id == 1,
            r.next_user_id == 1,
            r.next_team_id == 1,
    {
        proof {
            reveal(crates_wf);
            reveal(grants_wf);
            reveal(versions_wf);
            reveal(counters_wf);
            reveal(follows_wf);
            reveal(badges_wf);
            reveal(teams_wf);
            reveal(users_wf);
        }
        Registry {
            crates: Vec::new(),
            reserved_names,
            crate_owners: Vec::new(),
            users: Vec::new(),
            teams: Vec::new(),
            versions: Vec::new(),
            dependencies: Vec::new(),
            version_downloads: Vec::new(),
            follows: Vec::new(),
            crates_keywords: Vec::new(),
            categories: Vec::new(),
            crates_categories: Vec::new(),
            badges: Vec::new(),
            total_downloads: 0,
            next_crate_id: 1,
            next_version_id: 1,
            next_dependency_id: 1,
            next_user_id: 1,
            next_team_id: 1,
        }
    }
}

} // verus!
