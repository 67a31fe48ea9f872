//! A check, at run time, of what must hold of the tables.
//!
//! Every operation of the registry keeps the tables in order. Code that fills
//! the tables by hand can ask here whether they are in order before it calls
//! an operation.

use vstd::prelude::*;
use crate::model::{distinct_names, features_view, names_distinct};
use crate::names::{canon_crate_name, canonicalize, same_slot};
use crate::registry::{
    badges_wf, counters_wf, crates_wf, follows_wf, grants_wf, is_version_number, name_reserved, same_counter,
    same_grant, same_version, teams_wf, users_wf, versions_wf, Registry,
};
use crate::versions::{is_number, is_same_version};

verus! {

impl Registry {
    fn crates_in_order(&self) -> (r: bool)
        ensures
            r == crates_wf(self.crates@, self.reserved_names@, self.next_crate_id),
    {
        proof {
            reveal(crates_wf);
            reveal(same_slot);
        }
        if self.next_crate_id <= 0 {
            return false;
        }
        let n = self.crates.len();
        let mut canon: Vec<String> = Vec::new();
        let mut i: usize = 0;
        while i < n
            invariant
                i <= n,
                n == self.crates.len(),
                canon.len() == i,
                forall|a: int|
                    0 <= a < i ==> (#[trigger] canon@[a])@ == canonicalize(self.crates@[a].name@),
                forall|a: int|
                    0 <= a < i ==> 0 < (#[trigger] self.crates@[a]).id < self.next_crate_id,
                forall|a: int|
                    0 <= a < i ==> !name_reserved(
                        self.reserved_names@,
                        (#[trigger] self.crates@[a]).name@,
                    ),
                forall|a: int, b: int|
                    #![trigger self.crates@[a], self.crates@[b]]
                    0 <= a < i && 0 <= b < i && a != b ==> self.crates@[a].id != self.crates@[b].id
                        && !same_slot(self.crates@[a].name@, self.crates@[b].name@),
            decreases n - i,
        {
            proof {
                reveal(crates_wf);
                reveal(same_slot);
            }
            let c = &self.crates[i];
            if c.id <= 0 || c.id >= self.next_crate_id || self.is_reserved(c.name.as_str()) {
                return false;
            }
            let mine = canon_crate_name(c.name.as_str());
            let mut j: usize = 0;
            while j < i
                invariant
                    j <= i < n,
                    n == self.crates.len(),
                    canon.len() == i,
                    *c == self.crates@[i as int],
                    mine@ == canonicalize(self.crates@[i as int].name@),
                    forall|a: int|
                        0 <= a < i ==> (#[trigger] canon@[a])@ == canonicalize(
                            self.crates@[a].name@,
                        ),
                    forall|b: int|
                        0 <= b < j ==> (#[trigger] self.crates@[b]).id != self.crates@[i as int].id
                            && !same_slot(self.crates@[b].name@, self.crates@[i as int].name@),
                decreases i - j,
            {
                proof {
                    reveal(crates_wf);
                    reveal(same_slot);
                }
                if self.crates[j].id == c.id || canon[j] == mine {
                    return false;
                }
                j = j + 1;
            }
            canon.push(mine);
            i = i + 1;
        }
        true
    }

    fn grants_in_order(&self) -> (r: bool)
        ensures
            r == grants_wf(self.crate_owners@, self.next_crate_id),
    {
        proof {
            reveal(grants_wf);
        }
        let n = self.crate_owners.len();
        let mut i: usize = 0;
        while i < n
            invariant
                i <= n,
                n == self.crate_owners.len(),
                forall|a: int|
                    0 <= a < i ==> 0 < (#[trigger] self.crate_owners@[a]).crate_id
                        < self.next_crate_id,
                forall|a: int, b: int|
                    #![trigger self.crate_owners@[a], self.crate_owners@[b]]
                    0 <= a < i && 0 <= b < i && a != b ==> !same_grant(
                        self.crate_owners@[a],
                        self.crate_owners@[b],
                    ),
            decreases n - i,
        {
            proof {
                reveal(grants_wf);
            }
            let g = self.crate_owners[i];
            if g.crate_id <= 0 || g.crate_id >= self.next_crate_id {
                return false;
            }
            let mut j: usize = 0;
            while j < i
                invariant
                    j <= i < n,
                    n == self.crate_owners.len(),
                    g == self.crate_owners@[i as int],
                    forall|b: int| 0 <= b < j ==> !same_grant(#[trigger] self.crate_owners@[b], g),
                decreases i - j,
            {
                proof {
                    reveal(grants_wf);
                }
                let h = self.crate_owners[j];
                if h.crate_id == g.crate_id && h.owner_id == g.owner_id && h.owner_kind.code()
                    == g.owner_kind.code() {
                    return false;
                }
                j = j + 1;
            }
            i = i + 1;
        }
        true
    }

    fn versions_in_order(&self) -> (r: bool)
        ensures
            r == versions_wf(self.versions@, self.next_version_id, self.next_crate_id),
    {
        proof {
            reveal(versions_wf);
        }
        if self.next_version_id <= 0 {
            return false;
        }
        let n = self.versions.len();
        let mut i: usize = 0;
        while i < n
            invariant
                i <= n,
                n == self.versions.len(),
                forall|a: int|
                    0 <= a < i ==> 0 < (#[trigger] self.versions@[a]).id < self.next_version_id
                        && is_version_number(self.versions@[a].num@) && 0
                        < self.versions@[a].crate_id < self.next_crate_id && distinct_names(
                        features_view(self.versions@[a].features@),
                    ),
                forall|a: int, b: int|
                    #![trigger self.versions@[a], self.versions@[b]]
                    0 <= a < i && 0 <= b < i && a != b ==> self.versions@[a].id
                        != self.versions@[b].id && (self.versions@[a].crate_id
                        == self.versions@[b].crate_id ==> !same_version(
                        self.versions@[a].num@,
                        self.versions@[b].num@,
                    )),
            decreases n - i,
        {
            proof {
                reveal(versions_wf);
            }
            let v = &self.versions[i];
            if v.id <= 0 || v.id >= self.next_version_id || !is_number(v.num.as_str()) {
                return false;
            }
            if v.crate_id <= 0 || v.crate_id >= self.next_crate_id || !names_distinct(&v.features) {
                return false;
            }
            let mut j: usize = 0;
            while j < i
                invariant
                    j <= i < n,
                    n == self.versions.len(),
                    *v == self.versions@[i as int],
                    is_version_number(self.versions@[i as int].num@),
                    forall|a: int|
                        0 <= a < i ==> is_version_number((#[trigger] self.versions@[a]).num@),
                    forall|b: int|
                        0 <= b < j ==> (#[trigger] self.versions@[b]).id != self.versions@[i as int].id
                            && (self.versions@[b].crate_id == self.versions@[i as int].crate_id
                            ==> !same_version(self.versions@[b].num@, self.versions@[i as int].num@)
                            && !same_version(self.versions@[i as int].num@, self.versions@[b].num@)),
                decreases i - j,
            {
                proof {
                    reveal(versions_wf);
                }
                let w = &self.versions[j];
                if w.id == v.id {
                    return false;
                }
                if w.crate_id == v.crate_id && is_same_version(w.num.as_str(), v.num.as_str()) {
                    return false;
                }
                j = j + 1;
            }
            i = i + 1;
        }
        true
    }

    fn counters_in_order(&self) -> (r: bool)
        ensures
            r == counters_wf(self.version_downloads@),
    {
        proof {
            reveal(counters_wf);
        }
        let n = self.version_downloads.len();
        let mut i: usize = 0;
        while i < n
            invariant
                i <= n,
                n == self.version_downloads.len(),
                forall|a: int|
                    0 <= a < i ==> (#[trigger] self.version_downloads@[a]).downloads >= 1,
                forall|a: int, b: int|
                    #![trigger self.version_downloads@[a], self.version_downloads@[b]]
                    0 <= a < i && 0 <= b < i && a != b ==> !same_counter(
                        self.version_downloads@[a],
                        self.version_downloads@[b],
                    ),
            decreases n - i,
        {
            proof {
                reveal(counters_wf);
            }
            let d = self.version_downloads[i];
            if d.downloads < 1 {
                return false;
            }
            let day = d.date.day();
            let mut j: usize = 0;
            while j < i
                invariant
                    j <= i < n,
                    n == self.version_downloads.len(),
                    d == self.version_downloads@[i as int],
                    day == d.date.day_number(),
                    forall|b: int|
                        0 <= b < j ==> !same_counter(#[trigger] self.version_downloads@[b], d),
                decreases i - j,
            {
                proof {
                    reveal(counters_wf);
                }
                let e = self.version_downloads[j];
                if e.version_id == d.version_id && e.date.day() == day {
                    return false;
                }
                j = j + 1;
            }
            i = i + 1;
        }
        true
    }

    fn follows_in_order(&self) -> (r: bool)
        ensures
            r == follows_wf(self.follows@),
    {
        proof {
            reveal(follows_wf);
        }
        let n = self.follows.len();
        let mut i: usize = 0;
        while i < n
            invariant
                i <= n,
                n == self.follows.len(),
                forall|a: int, b: int|
                    #![trigger self.follows@[a], self.follows@[b]]
                    0 <= a < i && 0 <= b < i && a != b ==> self.follows@[a] != self.follows@[b],
            decreases n - i,
        {
            proof {
                reveal(follows_wf);
            }
            let f = self.follows[i];
            let mut j: usize = 0;
            while j < i
                invariant
                    j <= i < n,
                    n == self.follows.len(),
                    f == self.follows@[i as int],
                    forall|b: int| 0 <= b < j ==> #[trigger] self.follows@[b] != f,
                decreases i - j,
            {
                proof {
                    reveal(follows_wf);
                }
                let g = self.follows[j];
                if g.user_id == f.user_id && g.crate_id == f.crate_id {
                    return false;
                }
                j = j + 1;
            }
            i = i + 1;
        }
        true
    }

    fn badges_in_order(&self) -> (r: bool)
        ensures
            r == badges_wf(self.badges@),
    {
        proof {
            reveal(badges_wf);
        }
        let n = self.badges.len();
        let mut i: usize = 0;
        while i < n
            invariant
                i <= n,
                n == self.badges.len(),
                forall|a: int|
                    0 <= a < i ==> crate::model::distinct_keys(
                        (#[trigger] self.badges@[a]).attributes@,
                    ),
                forall|a: int, b: int|
                    #![trigger self.badges@[a], self.badges@[b]]
                    0 <= a < i && 0 <= b < i && a != b && self.badges@[a].crate_id
                        == self.badges@[b].crate_id ==> self.badges@[a].badge_type@
                        != self.badges@[b].badge_type@,
            decreases n - i,
        {
            proof {
                reveal(badges_wf);
            }
            if !crate::model::keys_distinct(&self.badges[i].attributes) {
                return false;
            }
            let mut j: usize = 0;
            while j < i
                invariant
                    j <= i < n,
                    n == self.badges.len(),
                    forall|b: int|
                        0 <= b < j && (#[trigger] self.badges@[b]).crate_id
                            == self.badges@[i as int].crate_id ==> self.badges@[b].badge_type@
                            != self.badges@[i as int].badge_type@,
                decreases i - j,
            {
                proof {
                    reveal(badges_wf);
                }
                if self.badges[j].crate_id == self.badges[i].crate_id && crate::text::same_text(
                    self.badges[j].badge_type.as_str(),
                    self.badges[i].badge_type.as_str(),
                ) {
                    return false;
                }
                j = j + 1;
            }
            i = i + 1;
        }
        true
    }

    fn teams_in_order(&self) -> (r: bool)
        ensures
            r == teams_wf(self.teams@, self.next_team_id),
    {
        proof {
            reveal(teams_wf);
        }
        if self.next_team_id <= 0 {
            return false;
        }
        let n = self.teams.len();
        let mut i: usize = 0;
        while i < n
            invariant
                i <= n,
                n == self.teams.len(),
                forall|a: int|
                    0 <= a < i ==> 0 < (#[trigger] self.teams@[a]).id < self.next_team_id,
                forall|a: int, b: int|
                    #![trigger self.teams@[a], self.teams@[b]]
                    0 <= a < i && 0 <= b < i && a != b ==> self.teams@[a].id != self.teams@[b].id,
            decreases n - i,
        {
            proof {
                reveal(teams_wf);
            }
            let id = self.teams[i].id;
            if id <= 0 || id >= self.next_team_id {
                return false;
            }
            let mut j: usize = 0;
            while j < i
                invariant
                    j <= i < n,
                    n == self.teams.len(),
                    id == self.teams@[i as int].id,
                    forall|b: int| 0 <= b < j ==> (#[trigger] self.teams@[b]).id != id,
                decreases i - j,
            {
                proof {
                    reveal(teams_wf);
                }
                if self.teams[j].id == id {
                    return false;
                }
                j = j + 1;
            }
            i = i + 1;
        }
        true
    }

    fn users_in_order(&self) -> (r: bool)
        ensures
            r == users_wf(self.users@, self.next_user_id),
    {
        proof {
            reveal(users_wf);
        }
        if self.next_user_id <= 0 {
            return false;
        }
        let n = self.users.len();
        let mut i: usize = 0;
        while i < n
            invariant
                i <= n,
                n == self.users.len(),
                forall|a: int|
                    0 <= a < i ==> 0 < (#[trigger] self.users@[a]).id < self.next_user_id,
                forall|a: int, b: int|
                    #![trigger self.users@[a], self.users@[b]]
                    0 <= a < i && 0 <= b < i && a != b ==> self.users@[a].id != self.users@[b].id,
            decreases n - i,
        {
            proof {
                reveal(users_wf);
            }
            let id = self.users[i].id;
            if id <= 0 || id >= self.next_user_id {
                return false;
            }
            let mut j: usize = 0;
            while j < i
                invariant
                    j <= i < n,
                    n == self.users.len(),
                    id == self.users@[i as int].id,
                    forall|b: int| 0 <= b < j ==> (#[trigger] self.users@[b]).id != id,
                decreases i - j,
            {
                proof {
                    reveal(users_wf);
                }
                if self.users[j].id == id {
                    return false;
                }
                j = j + 1;
            }
            i = i + 1;
        }
        true
    }

    /// Whether the tables are in order.
    pub fn audit(&self) -> (r: bool)
        ensures
            r == self.wf(),
    {
        self.crates_in_order() && self.grants_in_order() && self.versions_in_order()
            && self.counters_in_order() && self.follows_in_order() && self.badges_in_order()
            && self.teams_in_order()
            && self.users_in_order()
            && self.next_dependency_id > 0
    }
}

} // verus!
