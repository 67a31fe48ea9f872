//! The versions of a crate and the edges from a version to the crates it
//! depends on.

use vstd::prelude::*;
use crate::clock::Timestamp;
use crate::errors::{Error, ErrorKind};
use crate::foreign::{digit_runs_short, digits_before, order_versions, semver_order, version_parses};
use crate::model::{
    clone_features, distinct_names, features_view, names_distinct, Crate, Dependency, DependencyKind, DependencyView, Feature,
    IndexDependency, NewDependency, Version, VersionView,
};
use crate::ranking::{
    lemma_positions_where, page_bounds, page_of, positions_where, rearranged, rising,
    sort_positions, GreatestFirst, Ranking,
};
use crate::registry::{
    first_in_slot, has_crate, is_version_number, same_version, slot_taken, versions_wf, Registry,
};
use crate::text::{chars_of, clone_opt, clone_strings, opt_text, same_text};

verus! {

/// Whether fewer than twenty digits stand in a row anywhere in `s`.
pub fn runs_short(s: &str) -> (r: bool)
    ensures
        r == digit_runs_short(s@),
{
    let v = chars_of(s);
    let mut run: usize = 0;
    let mut i: usize = 0;
    while i < v.len()
        invariant
            i <= v.len(),
            v@ == s@,
            run == digits_before(v@, i as int),
            run < 20,
            forall|j: int| 0 <= j <= i ==> #[trigger] digits_before(v@, j) < 20,
        decreases v.len() - i,
    {
        let c = v[i];
        if '0' <= c && c <= '9' {
            run = run + 1;
        } else {
            run = 0;
        }
        i = i + 1;
        assert(run == digits_before(v@, i as int));
        if run >= 20 {
            return false;
        }
    }
    true
}

/// Whether `num` is a version number: short enough in its digits to be handed
/// to the parser, and accepted by it.
pub fn is_number(num: &str) -> (r: bool)
    ensures
        r == is_version_number(num@),
{
    runs_short(num) && version_parses(num)
}

/// Whether two version numbers are the same version.
pub fn is_same_version(a: &str, b: &str) -> (r: bool)
    requires
        is_version_number(a@),
        is_version_number(b@),
    ensures
        r == same_version(a@, b@),
        r == same_version(b@, a@),
{
    if same_text(a, b) {
        true
    } else {
        order_versions(a, b) == 0
    }
}

/// Whether row `i` of `versions` is the version `num` of `crate_id`.
pub open spec fn holds_version(
    versions: Seq<Version>,
    crate_id: i32,
    num: Seq<char>,
    i: int,
) -> bool {
    0 <= i < versions.len() && versions[i].crate_id == crate_id && same_version(versions[i].num@, num)
}

/// Whether `crate_id` has the version `num`.
pub open spec fn has_version(versions: Seq<Version>, crate_id: i32, num: Seq<char>) -> bool {
    exists|i: int| holds_version(versions, crate_id, num, i)
}

/// The row of a new version.
pub open spec fn new_version(
    id: i32,
    crate_id: i32,
    num: Seq<char>,
    features: Seq<Feature>,
    authors: Seq<String>,
    now: Timestamp,
) -> VersionView {
    VersionView {
        id,
        crate_id,
        num,
        yanked: false,
        features: features_view(features),
        authors,
        created_at: now,
        downloads: 0,
    }
}

/// Why a version cannot be added, if it cannot: the number is no version
/// number, a feature is named twice, the crate is not there, the crate has
/// that version, or the table is full.
pub open spec fn version_verdict(
    pre: Registry,
    crate_id: i32,
    num: Seq<char>,
    features: Seq<Feature>,
) -> Option<(ErrorKind, Seq<char>)> {
    if !is_version_number(num) {
        Some((ErrorKind::VersionInvalid, num))
    } else if !distinct_names(features_view(features)) {
        Some((ErrorKind::FeatureTwice, Seq::empty()))
    } else if !has_crate(pre.crates@, crate_id) {
        Some((ErrorKind::NotFound, Seq::empty()))
    } else if has_version(pre.versions@, crate_id, num) {
        Some((ErrorKind::VersionExists, num))
    } else if pre.next_version_id == i32::MAX {
        Some((ErrorKind::Exhausted, Seq::empty()))
    } else {
        None
    }
}

/// `post` is `pre` with one more version, `v`. No other table is touched: a
/// version comes without edges.
pub open spec fn version_added(pre: Registry, post: Registry, v: VersionView) -> bool {
    &&& post.versions@.len() == pre.versions@.len() + 1
    &&& post.versions@.subrange(0, pre.versions@.len() as int) == pre.versions@
    &&& post.versions@.last()@ == v
    &&& v.id == pre.next_version_id
    &&& post.next_version_id == pre.next_version_id + 1
    &&& post == (Registry {
        versions: post.versions,
        next_version_id: post.next_version_id,
        ..pre
    })
}

/// The candidates for the greatest version of `crate_id`: its versions,
/// without the yanked ones unless `yanked_too`.
pub open spec fn is_candidate(
    versions: Seq<Version>,
    crate_id: i32,
    yanked_too: bool,
    i: int,
) -> bool {
    0 <= i < versions.len() && versions[i].crate_id == crate_id && (yanked_too
        || !versions[i].yanked)
}

/// Row `b` is a candidate, and no other candidate is greater.
pub open spec fn is_greatest(
    versions: Seq<Version>,
    crate_id: i32,
    yanked_too: bool,
    b: int,
) -> bool {
    &&& is_candidate(versions, crate_id, yanked_too, b)
    &&& forall|j: int|
        is_candidate(versions, crate_id, yanked_too, j) && j != b ==> semver_order(
            (#[trigger] versions[j]).num@,
            versions[b].num@,
        ) <= 0
}

/// `text` is the number of the greatest candidate, or `0.0.0` where there is
/// no candidate.
pub open spec fn is_max_version(
    versions: Seq<Version>,
    crate_id: i32,
    yanked_too: bool,
    text: Seq<char>,
) -> bool {
    &&& (forall|j: int| !is_candidate(versions, crate_id, yanked_too, j)) ==> text == "0.0.0"@
    &&& (exists|j: int| is_candidate(versions, crate_id, yanked_too, j)) ==> exists|b: int|
        #[trigger] is_greatest(versions, crate_id, yanked_too, b) && text == versions[b].num@
}

impl Registry {
    /// The position of the version `num` of `crate_id`.
    pub fn version_position(&self, crate_id: i32, num: &str) -> (r: Option<usize>)
        requires
            self.wf(),
            is_version_number(num@),
        ensures
            match r {
                Some(i) => holds_version(self.versions@, crate_id, num@, i as int),
                None => !has_version(self.versions@, crate_id, num@) && forall|j: int|
                    0 <= j < self.versions@.len() && (#[trigger] self.versions@[j]).crate_id
                        == crate_id ==> !same_version(num@, self.versions@[j].num@),
            },
    {
        let mut i: usize = 0;
        proof {
            reveal(versions_wf);
        }
        while i < self.versions.len()
            invariant
                i <= self.versions.len(),
                is_version_number(num@),
                versions_wf(self.versions@, self.next_version_id, self.next_crate_id),
                forall|j: int| 0 <= j < i ==> !holds_version(self.versions@, crate_id, num@, j),
                forall|j: int|
                    0 <= j < i && (#[trigger] self.versions@[j]).crate_id == crate_id
                        ==> !same_version(num@, self.versions@[j].num@),
            decreases self.versions.len() - i,
        {
            proof {
                reveal(versions_wf);
            }
            if self.versions[i].crate_id == crate_id && is_same_version(
                self.versions[i].num.as_str(),
                num,
            ) {
                return Some(i);
            }
            i = i + 1;
        }
        None
    }
}

/// A version may be added under the next identifier where its crate does not
/// have it yet.
proof fn lemma_versions_push(versions: Seq<Version>, next: i32, next_crate: i32, row: Version)
    requires
        versions_wf(versions, next, next_crate),
        next < i32::MAX,
        row.id == next,
        0 < row.crate_id < next_crate,
        distinct_names(features_view(row.features@)),
        is_version_number(row.num@),
        forall|j: int|
            0 <= j < versions.len() && (#[trigger] versions[j]).crate_id == row.crate_id
                ==> !same_version(versions[j].num@, row.num@) && !same_version(
                row.num@,
                versions[j].num@,
            ),
    ensures
        versions_wf(versions.push(row), (next + 1) as i32, next_crate),
{
    reveal(versions_wf);
    let after = versions.push(row);
    let n = versions.len() as int;
    assert forall|a: int| 0 <= a < after.len() implies 0 < (#[trigger] after[a]).id < next + 1
        && is_version_number(after[a].num@) && 0 < after[a].crate_id < next_crate
        && distinct_names(features_view(after[a].features@)) by {
        if a < n {
            assert(after[a] == versions[a]);
        }
    }
    assert forall|a: int, b: int|
        #![trigger after[a], after[b]]
        0 <= a < after.len() && 0 <= b < after.len() && a != b implies after[a].id != after[b].id
        && (after[a].crate_id == after[b].crate_id ==> !same_version(after[a].num@, after[b].num@)) by {
        if a < n {
            assert(after[a] == versions[a]);
        }
        if b < n {
            assert(after[b] == versions[b]);
        }
    }
}

impl Crate {
    /// Adds the version `ver` to the crate. A crate has no version twice: the
    /// call is refused where the crate has a version with this number, and
    /// then nothing is written.
    pub fn add_version(
        &self,
        conn: &mut Registry,
        ver: &str,
        features: &Vec<Feature>,
        authors: &Vec<String>,
        now: Timestamp,
    ) -> (r: Result<Version, Error>)
        requires
            old(conn).wf(),
        ensures
            final(conn).wf(),
            match version_verdict(*old(conn), self.id, ver@, features@) {
                Some(v) => r matches Err(e) && e@ == v && *final(conn) == *old(conn),
                None => r matches Ok(v) && v@ == new_version(
                    old(conn).next_version_id,
                    self.id,
                    ver@,
                    features@,
                    authors@,
                    now,
                ) && version_added(*old(conn), *final(conn), v@),
            },
    {
        if !is_number(ver) {
            return Err(Error::with(ErrorKind::VersionInvalid, ver));
        }
        if !names_distinct(features) {
            return Err(Error::bare(ErrorKind::FeatureTwice));
        }
        match conn.id_position(self.id) {
            None => {
                return Err(Error::bare(ErrorKind::NotFound));
            },
            Some(at) => {
                proof {
                    reveal(crate::registry::crates_wf);
                    assert(crate::registry::holds_id(conn.crates@, self.id, at as int));
                }
            },
        }
        if conn.version_position(self.id, ver).is_some() {
            return Err(Error::with(ErrorKind::VersionExists, ver));
        }
        if conn.next_version_id == i32::MAX {
            return Err(Error::bare(ErrorKind::Exhausted));
        }
        let id: i32 = conn.next_version_id;
        let row = Version {
            id,
            crate_id: self.id,
            num: ver.to_owned(),
            yanked: false,
            features: clone_features(features),
            authors: clone_strings(authors),
            created_at: now,
            downloads: 0,
        };
        let v = row.clone();
        proof {
            assert forall|j: int|
                0 <= j < conn.versions@.len() && (#[trigger] conn.versions@[j]).crate_id
                    == row.crate_id implies !same_version(conn.versions@[j].num@, row.num@)
                && !same_version(row.num@, conn.versions@[j].num@) by {
                assert(!holds_version(conn.versions@, self.id, ver@, j));
            }
            lemma_versions_push(conn.versions@, conn.next_version_id, conn.next_crate_id, row);
            assert(conn.versions@.push(row).subrange(0, conn.versions@.len() as int)
                == conn.versions@);
        }
        conn.versions.push(row);
        conn.next_version_id = id + 1;
        Ok(v)
    }

    /// The greatest version of the crate among those that are not yanked, or
    /// `0.0.0` where there is none.
    pub fn max_version(&self, conn: &Registry) -> (r: String)
        requires
            conn.wf(),
        ensures
            is_max_version(conn.versions@, self.id, false, r@),
    {
        conn.max_version_of(self.id, false)
    }
}

impl Registry {
    /// The position of the greatest version of `crate_id` among those that are
    /// not yanked.
    pub fn greatest_version(&self, crate_id: i32, yanked_too: bool) -> (r: Option<usize>)
        requires
            self.wf(),
        ensures
            match r {
                Some(b) => is_greatest(self.versions@, crate_id, yanked_too, b as int),
                None => forall|j: int| !is_candidate(self.versions@, crate_id, yanked_too, j),
            },
    {
        let mut best: Option<usize> = None;
        let mut i: usize = 0;
        proof {
            reveal(versions_wf);
        }
        while i < self.versions.len()
            invariant
                i <= self.versions.len(),
                versions_wf(self.versions@, self.next_version_id, self.next_crate_id),
                match best {
                    Some(b) => b < i && is_candidate(self.versions@, crate_id, yanked_too, b as int)
                        && forall|j: int|
                        0 <= j < i && is_candidate(self.versions@, crate_id, yanked_too, j) && j != b
                            ==> semver_order(
                            (#[trigger] self.versions@[j]).num@,
                            self.versions@[b as int].num@,
                        ) <= 0,
                    None => forall|j: int|
                        0 <= j < i ==> !is_candidate(self.versions@, crate_id, yanked_too, j),
                },
            decreases self.versions.len() - i,
        {
            proof {
                reveal(versions_wf);
            }
            if self.versions[i].crate_id == crate_id && (yanked_too || !self.versions[i].yanked) {
                match best {
                    None => {
                        best = Some(i);
                    },
                    Some(b) => {
                        let r = order_versions(
                            self.versions[b].num.as_str(),
                            self.versions[i].num.as_str(),
                        );
                        if r < 0 {
                            best = Some(i);
                        }
                    },
                }
            }
            i = i + 1;
        }
        best
    }

    /// The number of the greatest version of `crate_id`, or `0.0.0` where it
    /// has none. Yanked versions count only where `yanked_too`.
    pub fn max_version_of(&self, crate_id: i32, yanked_too: bool) -> (r: String)
        requires
            self.wf(),
        ensures
            is_max_version(self.versions@, crate_id, yanked_too, r@),
    {
        match self.greatest_version(crate_id, yanked_too) {
            Some(b) => self.versions[b].num.clone(),
            None => "0.0.0".to_owned(),
        }
    }
}

/// The test that picks the versions of `crate_id`.
pub open spec fn of_crate(versions: Seq<Version>, crate_id: i32) -> spec_fn(int) -> bool {
    |i: int| versions[i].crate_id == crate_id
}

/// `pos` lists the versions of `crate_id`, each once, greatest first.
pub open spec fn versions_listed(versions: Seq<Version>, crate_id: i32, pos: Seq<usize>) -> bool {
    &&& rearranged(pos, positions_where(versions.len() as int, of_crate(versions, crate_id)))
    &&& forall|i: int, j: int|
        0 <= i < j < pos.len() ==> semver_order(
            versions[pos[i] as int].num@,
            versions[pos[j] as int].num@,
        ) >= 0
}

/// `rows` holds what the rows at `pos` hold, in that order.
pub open spec fn versions_at(rows: Seq<Version>, versions: Seq<Version>, pos: Seq<usize>) -> bool {
    &&& rows.len() == pos.len()
    &&& forall|k: int|
        0 <= k < pos.len() ==> pos[k] < versions.len() && (#[trigger] rows[k])@
            == versions[pos[k] as int]@
}

impl Registry {
    /// The positions of the versions of `crate_id`, rising.
    pub fn version_positions(&self, crate_id: i32) -> (r: Vec<usize>)
        ensures
            r@ == positions_where(self.versions@.len() as int, of_crate(self.versions@, crate_id)),
    {
        let mut out: Vec<usize> = Vec::new();
        let mut i: usize = 0;
        while i < self.versions.len()
            invariant
                i <= self.versions.len(),
                out@ == positions_where(i as int, of_crate(self.versions@, crate_id)),
            decreases self.versions.len() - i,
        {
            if self.versions[i].crate_id == crate_id {
                out.push(i);
            }
            i = i + 1;
        }
        out
    }

    /// The positions of the versions of `crate_id`, greatest first.
    pub fn ranked_versions(&self, crate_id: i32) -> (r: Vec<usize>)
        requires
            self.wf(),
        ensures
            versions_listed(self.versions@, crate_id, r@),
            forall|k: int| 0 <= k < r@.len() ==> #[trigger] r@[k] < self.versions@.len(),
    {
        let picked = self.version_positions(crate_id);
        let ranking = GreatestFirst { rows: &self.versions };
        let n = self.versions.len();
        proof {
            reveal(versions_wf);
            lemma_positions_where(
                self.versions@.len() as int,
                of_crate(self.versions@, crate_id),
            );
        }
        let out = sort_positions(&ranking, &picked);
        proof {
            assert forall|k: int| 0 <= k < out@.len() implies #[trigger] out@[k]
                < self.versions@.len() by {
                assert(picked@.contains(out@[k]));
            }
            assert forall|i: int, j: int| 0 <= i < j < out@.len() implies semver_order(
                self.versions@[out@[i] as int].num@,
                self.versions@[out@[j] as int].num@,
            ) >= 0 by {
                assert(ranking.no_later(out@[i] as int, out@[j] as int));
            }
        }
        out
    }
}

impl Crate {
    /// The versions of the crate, greatest first.
    pub fn versions(&self, conn: &Registry) -> (r: Vec<Version>)
        requires
            conn.wf(),
        ensures
            exists|pos: Seq<usize>| #[trigger]
                versions_listed(conn.versions@, self.id, pos) && versions_at(
                    r@,
                    conn.versions@,
                    pos,
                ),
    {
        let pos = conn.ranked_versions(self.id);
        let mut out: Vec<Version> = Vec::new();
        let mut k: usize = 0;
        while k < pos.len()
            invariant
                k <= pos.len(),
                out.len() == k,
                forall|j: int| 0 <= j < pos@.len() ==> #[trigger] pos@[j] < conn.versions@.len(),
                forall|j: int|
                    0 <= j < k ==> (#[trigger] out@[j])@ == conn.versions@[pos@[j] as int]@,
            decreases pos.len() - k,
        {
            out.push(conn.versions[pos[k]].clone());
            k = k + 1;
        }
        proof {
            assert(versions_at(out@, conn.versions@, pos@));
        }
        out
    }
}

/// The versions of the crate `crate_name`, greatest first.
pub fn versions(conn: &Registry, crate_name: &str) -> (r: Result<Vec<Version>, Error>)
    requires
        conn.wf(),
    ensures
        match r {
            Ok(rows) => slot_taken(conn.crates@, crate_name@) && exists|pos: Seq<usize>| #[trigger]
                versions_listed(
                    conn.versions@,
                    conn.crates@[first_in_slot(conn.crates@, crate_name@)].id,
                    pos,
                ) && versions_at(rows@, conn.versions@, pos),
            Err(e) => !slot_taken(conn.crates@, crate_name@) && e@ == (
                ErrorKind::NotFound,
                Seq::<char>::empty(),
            ),
        },
{
    let target = Crate::find_by_name(conn, crate_name)?;
    Ok(target.versions(conn))
}

/// The kind of a dependency that names none.
pub open spec fn kind_or_normal(kind: Option<DependencyKind>) -> DependencyKind {
    match kind {
        Some(k) => k,
        None => DependencyKind::Normal,
    }
}

/// The row of a new edge from `version_id` to `crate_id`.
pub open spec fn new_edge(
    id: i32,
    version_id: i32,
    crate_id: i32,
    dep: NewDependency,
) -> DependencyView {
    DependencyView {
        id,
        version_id,
        crate_id,
        req: dep.version_req@,
        optional: dep.optional,
        default_features: dep.default_features,
        features: dep.features@,
        target: opt_text(dep.target),
        kind: kind_or_normal(dep.kind),
    }
}

/// `post` is `pre` with one more edge, `d`.
pub open spec fn edge_added(pre: Registry, post: Registry, d: DependencyView) -> bool {
    &&& post.dependencies@.len() == pre.dependencies@.len() + 1
    &&& post.dependencies@.subrange(0, pre.dependencies@.len() as int) == pre.dependencies@
    &&& post.dependencies@.last()@ == d
    &&& post.next_dependency_id == pre.next_dependency_id + 1
    &&& post == (Registry {
        dependencies: post.dependencies,
        next_dependency_id: post.next_dependency_id,
        ..pre
    })
}

/// What the package index lists for an edge to the crate `target`.
pub open spec fn index_form(d: IndexDependency, target: Crate, dep: NewDependency) -> bool {
    &&& d.name == target.name
    &&& d.req@ == dep.version_req@
    &&& d.features@ == dep.features@
    &&& d.optional == dep.optional
    &&& d.default_features == dep.default_features
    &&& d.target == dep.target
    &&& d.kind == kind_or_normal(dep.kind)
}

fn edge_row(id: i32, version_id: i32, crate_id: i32, dep: &NewDependency) -> (row: Dependency)
    ensures
        row@ == new_edge(id, version_id, crate_id, *dep),
{
    Dependency {
        id,
        version_id,
        crate_id,
        req: dep.version_req.clone(),
        optional: dep.optional,
        default_features: dep.default_features,
        features: clone_strings(&dep.features),
        target: clone_opt(&dep.target),
        kind: match dep.kind {
            Some(k) => k,
            None => DependencyKind::Normal,
        },
    }
}

fn index_row(target: &Crate, dep: &NewDependency) -> (d: IndexDependency)
    ensures
        index_form(d, *target, *dep),
{
    IndexDependency {
        name: target.name.clone(),
        req: dep.version_req.clone(),
        features: clone_strings(&dep.features),
        optional: dep.optional,
        default_features: dep.default_features,
        target: clone_opt(&dep.target),
        kind: match dep.kind {
            Some(k) => k,
            None => DependencyKind::Normal,
        },
    }
}

impl Registry {
    /// Links the version `version_id` to the crate that `dep` names. The
    /// target is found by the slot of its name; the index lists it under the
    /// name it is stored with.
    pub fn add_dependency(&mut self, version_id: i32, dep: &NewDependency) -> (r: Result<
        IndexDependency,
        Error,
    >)
        requires
            old(self).wf(),
        ensures
            final(self).wf(),
            if !slot_taken(old(self).crates@, dep.name@) {
                r matches Err(e) && e@ == (ErrorKind::DependencyNotFound, dep.name@) && *final(self)
                    == *old(self)
            } else if old(self).next_dependency_id == i32::MAX {
                r matches Err(e) && e@ == (ErrorKind::Exhausted, Seq::<char>::empty()) && *final(self)
                    == *old(self)
            } else {
                let target = old(self).crates@[first_in_slot(old(self).crates@, dep.name@)];
                r matches Ok(d) && index_form(d, target, *dep) && edge_added(
                    *old(self),
                    *final(self),
                    new_edge(old(self).next_dependency_id, version_id, target.id, *dep),
                )
            },
    {
        let at = match self.slot_position(dep.name.as_str()) {
            Some(at) => at,
            None => {
                return Err(Error::with(ErrorKind::DependencyNotFound, dep.name.as_str()));
            },
        };
        if self.next_dependency_id == i32::MAX {
            return Err(Error::bare(ErrorKind::Exhausted));
        }
        let id: i32 = self.next_dependency_id;
        let row = edge_row(id, version_id, self.crates[at].id, dep);
        let listed = index_row(&self.crates[at], dep);
        proof {
            assert(self.dependencies@.push(row).subrange(0, self.dependencies@.len() as int)
                == self.dependencies@);
        }
        self.dependencies.push(row);
        self.next_dependency_id = id + 1;
        Ok(listed)
    }
}

/// The first crate with the identifier `id`.
pub open spec fn find_crate(crates: Seq<Crate>, id: i32) -> Option<Crate>
    decreases crates.len(),
{
    if crates.len() == 0 {
        None
    } else if crates[0].id == id {
        Some(crates[0])
    } else {
        find_crate(crates.drop_first(), id)
    }
}

/// The crate of the first version with the identifier `id`.
pub open spec fn find_version_crate(versions: Seq<Version>, id: i32) -> Option<i32>
    decreases versions.len(),
{
    if versions.len() == 0 {
        None
    } else if versions[0].id == id {
        Some(versions[0].crate_id)
    } else {
        find_version_crate(versions.drop_first(), id)
    }
}

/// The crate that edge `i` starts from: the crate of the edge's version.
pub open spec fn dependent_of(conn: Registry, i: int) -> Option<Crate> {
    match find_version_crate(conn.versions@, conn.dependencies@[i].version_id) {
        Some(crate_id) => find_crate(conn.crates@, crate_id),
        None => None,
    }
}

/// The test that picks the edges that lead to `crate_id` from a crate on
/// record.
pub open spec fn leads_to(conn: Registry, crate_id: i32) -> spec_fn(int) -> bool {
    |i: int| conn.dependencies@[i].crate_id == crate_id && dependent_of(conn, i) is Some
}

/// A number of items as a count, which stops at the greatest `i64`.
pub open spec fn as_count(n: nat) -> int {
    if n <= i64::MAX {
        n as int
    } else {
        i64::MAX as int
    }
}

/// The number of items as a count, which stops at the greatest `i64`.
pub fn count_of(n: usize) -> (r: i64)
    ensures
        r == as_count(n as nat),
{
    if n as u64 > 0x7fff_ffff_ffff_ffffu64 {
        0x7fff_ffff_ffff_ffffi64
    } else {
        n as i64
    }
}

impl Registry {
    /// The first crate with the identifier `id`.
    pub fn crate_by_id(&self, id: i32) -> (r: Option<&Crate>)
        ensures
            match r {
                Some(c) => find_crate(self.crates@, id) == Some(*c),
                None => find_crate(self.crates@, id) is None,
            },
    {
        let mut i: usize = 0;
        assert(self.crates@.skip(0) == self.crates@);
        while i < self.crates.len()
            invariant
                i <= self.crates.len(),
                find_crate(self.crates@, id) == find_crate(self.crates@.skip(i as int), id),
            decreases self.crates.len() - i,
        {
            assert(self.crates@.skip(i as int).drop_first() == self.crates@.skip(i + 1));
            if self.crates[i].id == id {
                return Some(&self.crates[i]);
            }
            i = i + 1;
        }
        None
    }

    /// The crate of the first version with the identifier `id`.
    pub fn version_crate(&self, id: i32) -> (r: Option<i32>)
        ensures
            r == find_version_crate(self.versions@, id),
    {
        let mut i: usize = 0;
        assert(self.versions@.skip(0) == self.versions@);
        while i < self.versions.len()
            invariant
                i <= self.versions.len(),
                find_version_crate(self.versions@, id) == find_version_crate(
                    self.versions@.skip(i as int),
                    id,
                ),
            decreases self.versions.len() - i,
        {
            assert(self.versions@.skip(i as int).drop_first() == self.versions@.skip(i + 1));
            if self.versions[i].id == id {
                return Some(self.versions[i].crate_id);
            }
            i = i + 1;
        }
        None
    }

    /// The crate that the edge at `i` starts from.
    pub fn dependent(&self, i: usize) -> (r: Option<&Crate>)
        requires
            i < self.dependencies@.len(),
        ensures
            match r {
                Some(c) => dependent_of(*self, i as int) == Some(*c),
                None => dependent_of(*self, i as int) is None,
            },
    {
        match self.version_crate(self.dependencies[i].version_id) {
            Some(crate_id) => self.crate_by_id(crate_id),
            None => None,
        }
    }

    /// The positions of the edges that lead to `crate_id` from a crate on
    /// record, rising.
    pub fn edges_to(&self, crate_id: i32) -> (r: Vec<usize>)
        ensures
            r@ == positions_where(self.dependencies@.len() as int, leads_to(*self, crate_id)),
            forall|k: int| 0 <= k < r@.len() ==> #[trigger] r@[k] < self.dependencies@.len(),
    {
        let mut out: Vec<usize> = Vec::new();
        let mut i: usize = 0;
        while i < self.dependencies.len()
            invariant
                i <= self.dependencies.len(),
                out@ == positions_where(i as int, leads_to(*self, crate_id)),
                forall|k: int| 0 <= k < out@.len() ==> #[trigger] out@[k] < i,
            decreases self.dependencies.len() - i,
        {
            if self.dependencies[i].crate_id == crate_id && self.dependent(i).is_some() {
                out.push(i);
            }
            i = i + 1;
        }
        out
    }
}

/// An edge that leads to a crate, with the name and the downloads of the
/// crate it starts from.
#[derive(Debug)]
pub struct ReverseDependency {
    pub dependency: Dependency,
    pub crate_name: String,
    pub crate_downloads: i32,
}

/// `rows` holds the edges at `pos`, in that order, each with the crate it
/// starts from.
pub open spec fn edges_at(rows: Seq<ReverseDependency>, conn: Registry, pos: Seq<usize>) -> bool {
    &&& rows.len() == pos.len()
    &&& forall|k: int|
        0 <= k < pos.len() ==> {
            &&& (#[trigger] rows[k]).dependency@ == conn.dependencies@[pos[k] as int]@
            &&& dependent_of(conn, pos[k] as int) matches Some(c)
            &&& rows[k].crate_name == c.name
            &&& rows[k].crate_downloads == c.downloads
        }
}

impl Crate {
    /// One page of the edges that lead to the crate, in the order in which
    /// they were added, and the number of all such edges, which is the same
    /// on every page.
    pub fn reverse_dependencies(&self, conn: &Registry, offset: i64, limit: i64) -> (r: (
        Vec<ReverseDependency>,
        i64,
    ))
        ensures
            ({
                let all = positions_where(
                    conn.dependencies@.len() as int,
                    leads_to(*conn, self.id),
                );
                let page = page_of(all, offset as int, limit as int);
                edges_at(r.0@, *conn, page) && r.1 == as_count(all.len())
            }),
    {
        let all = conn.edges_to(self.id);
        let n = conn.dependencies.len();
        let (lo, hi) = page_bounds(all.len(), offset, limit);
        let ghost page = all@.subrange(lo as int, hi as int);
        assert(page == page_of(all@, offset as int, limit as int));
        let mut out: Vec<ReverseDependency> = Vec::new();
        let mut k: usize = lo;
        while k < hi
            invariant
                lo <= k <= hi <= all.len(),
                n == conn.dependencies@.len(),
                page == all@.subrange(lo as int, hi as int),
                all@ == positions_where(conn.dependencies@.len() as int, leads_to(*conn, self.id)),
                forall|j: int|
                    0 <= j < all@.len() ==> #[trigger] all@[j] < conn.dependencies@.len(),
                edges_at(out@, *conn, page.subrange(0, k - lo)),
            decreases hi - k,
        {
            let at = all[k];
            proof {
                lemma_positions_where(conn.dependencies@.len() as int, leads_to(*conn, self.id));
                assert(leads_to(*conn, self.id)(at as int));
            }
            match conn.dependent(at) {
                Some(c) => {
                    out.push(
                        ReverseDependency {
                            dependency: conn.dependencies[at].clone(),
                            crate_name: c.name.clone(),
                            crate_downloads: c.downloads,
                        },
                    );
                },
                None => {},
            }
            proof {
                let shown = page.subrange(0, k + 1 - lo);
                assert(shown[k - lo] == at);
                assert forall|j: int| 0 <= j < shown.len() implies {
                    &&& (#[trigger] out@[j]).dependency@ == conn.dependencies@[shown[j] as int]@
                    &&& dependent_of(*conn, shown[j] as int) matches Some(c)
                    &&& out@[j].crate_name == c.name
                    &&& out@[j].crate_downloads == c.downloads
                } by {
                    if j < k - lo {
                        assert(shown[j] == page.subrange(0, k - lo)[j]);
                    }
                }
            }
            k = k + 1;
        }
        assert(page.subrange(0, hi - lo) == page);
        (out, count_of(all.len()))
    }
}

/// One page of the edges that lead to the crate `crate_name`, and the number
/// of all such edges.
pub fn reverse_dependencies(
    conn: &Registry,
    crate_name: &str,
    offset: i64,
    limit: i64,
) -> (r: Result<(Vec<ReverseDependency>, i64), Error>)
    ensures
        match r {
            Ok(p) => slot_taken(conn.crates@, crate_name@) && ({
                let id = conn.crates@[first_in_slot(conn.crates@, crate_name@)].id;
                let all = positions_where(conn.dependencies@.len() as int, leads_to(*conn, id));
                let page = page_of(all, offset as int, limit as int);
                edges_at(p.0@, *conn, page) && p.1 == as_count(all.len())
            }),
            Err(e) => !slot_taken(conn.crates@, crate_name@) && e@ == (
                ErrorKind::NotFound,
                Seq::<char>::empty(),
            ),
        },
{
    let target = Crate::find_by_name(conn, crate_name)?;
    Ok(target.reverse_dependencies(conn, offset, limit))
}

} // verus!
