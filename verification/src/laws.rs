//! What holds of the registry across several operations.

use vstd::prelude::*;
use crate::clock::Timestamp;
use crate::downloads::{bumped, counter_index, first_download, lemma_counter_index};
use crate::errors::{Error, ErrorKind};
use crate::listing::{is_hit, listed, listing_keys, selects, FilterView, ListingQuery, SearchHit};
use crate::model::{Crate, CrateOwner, Feature, Metadata, VersionDownload};
use crate::names::same_slot;
use crate::model::{Owner, Team};
use crate::owners::{
    add_verdict, find_team_by_login, grant_index, lemma_grant_index,
    lemma_grant_index_is_first, live_grant, owner_added, owner_removed, resolve_owner, with_grant,
    without_grant, TeamAnswer,
};
use crate::ranking::{key_le, lemma_positions_where};
use crate::registry::{
    crates_wf, first_in_slot, grants_wf, holds_slot, lemma_crates_push, lemma_grants_push,
    lemma_grants_update, lemma_slot_holder_unique, name_reserved, same_counter, same_grant,
    slot_taken, Registry,
};
use crate::store::{first_grant, upserted};
use crate::versions::{holds_version, new_version, version_added, version_verdict};

verus! {

/// Names that fall into the same slot find the same crate: a lookup by one of
/// them finds a crate exactly when a lookup by the other does, and then both
/// find the same row.
pub proof fn law_lookup_ignores_spelling(conn: Registry, a: Seq<char>, b: Seq<char>)
    requires
        conn.wf(),
        same_slot(a, b),
    ensures
        slot_taken(conn.crates@, a) == slot_taken(conn.crates@, b),
        slot_taken(conn.crates@, a) ==> first_in_slot(conn.crates@, a) == first_in_slot(
            conn.crates@,
            b,
        ),
{
    reveal(same_slot);
    if slot_taken(conn.crates@, a) {
        let h = choose|h: int| holds_slot(conn.crates@, a, h);
        assert(holds_slot(conn.crates@, b, h));
        lemma_slot_holder_unique(conn.crates@, conn.reserved_names@, conn.next_crate_id, a, h);
        lemma_slot_holder_unique(conn.crates@, conn.reserved_names@, conn.next_crate_id, b, h);
    }
    if slot_taken(conn.crates@, b) {
        let h = choose|h: int| holds_slot(conn.crates@, b, h);
        assert(holds_slot(conn.crates@, a, h));
    }
}

/// Of two first publishers of one slot, whichever order their writes take,
/// the first gets the crate and its only grant; the write of the second lands
/// as an update of that crate: no second crate and no second grant come
/// about.
pub proof fn law_first_writer_owns(
    pre: Registry,
    mid: Registry,
    post: Registry,
    first: Metadata,
    second: Metadata,
    first_user: i32,
    second_user: i32,
    t1: Timestamp,
    t2: Timestamp,
    r1: Result<Crate, Error>,
    r2: Result<Crate, Error>,
)
    requires
        pre.wf(),
        same_slot(first.name, second.name),
        !slot_taken(pre.crates@, first.name),
        !name_reserved(pre.reserved_names@, first.name),
        pre.next_crate_id < i32::MAX,
        upserted(pre, mid, first, first_user, t1, r1),
        upserted(mid, post, second, second_user, t2, r2),
    ensures
        r1 is Ok,
        r2 is Ok,
        r2->Ok_0.id == r1->Ok_0.id,
        r2->Ok_0.name == r1->Ok_0.name,
        r2->Ok_0.created_at == r1->Ok_0.created_at,
        r2->Ok_0.downloads == r1->Ok_0.downloads,
        r2->Ok_0.max_upload_size == r1->Ok_0.max_upload_size,
        crate::store::carries(r2->Ok_0, second),
        post.crates@ == pre.crates@.push(r2->Ok_0),
        post.crate_owners@ == pre.crate_owners@.push(first_grant(r1->Ok_0.id, first_user)),
{
    reveal(same_slot);
    let c1 = r1->Ok_0;
    let n = pre.crates@.len() as int;
    lemma_crates_push(pre.crates@, pre.reserved_names@, pre.next_crate_id, c1);
    assert(holds_slot(mid.crates@, second.name, n));
    lemma_slot_holder_unique(mid.crates@, mid.reserved_names@, mid.next_crate_id, second.name, n);
}

/// A version that was added is there: adding the same number again, with
/// whatever features, is refused as a duplicate. (A refused call writes
/// nothing, so no edge comes of it.)
pub proof fn law_version_added_once(
    pre: Registry,
    mid: Registry,
    crate_id: i32,
    ver: Seq<char>,
    features: Seq<Feature>,
    authors: Seq<String>,
    now: Timestamp,
    second_features: Seq<Feature>,
)
    requires
        version_verdict(pre, crate_id, ver, features) is None,
        version_added(
            pre,
            mid,
            new_version(pre.next_version_id, crate_id, ver, features, authors, now),
        ),
        crate::model::distinct_names(crate::model::features_view(second_features)),
    ensures
        version_verdict(mid, crate_id, ver, second_features) == Some(
            (ErrorKind::VersionExists, ver),
        ),
{
    let n = pre.versions@.len() as int;
    assert(mid.versions@[n] == mid.versions@.last());
    assert(holds_version(mid.versions@, crate_id, ver, n));
}

/// A version that was added with its dependencies is there: a second call
/// with the same number is refused as a duplicate, whatever features and
/// dependencies it names, and so writes no edge.
pub proof fn law_version_linked_once(
    pre: Registry,
    post: Registry,
    crate_id: i32,
    ver: Seq<char>,
    features: Seq<Feature>,
    authors: Seq<String>,
    now: Timestamp,
    first_deps: Seq<crate::model::NewDependency>,
    listed: Seq<crate::model::IndexDependency>,
    second_features: Seq<Feature>,
    second_deps: Seq<crate::model::NewDependency>,
)
    requires
        crate::model::distinct_names(crate::model::features_view(second_features)),
        crate::publish::linked_verdict(pre, crate_id, ver, features, first_deps) is None,
        crate::publish::version_linked(
            pre,
            post,
            new_version(pre.next_version_id, crate_id, ver, features, authors, now),
            first_deps,
            listed,
        ),
    ensures
        crate::publish::linked_verdict(post, crate_id, ver, second_features, second_deps)
            == Some((ErrorKind::VersionExists, ver)),
{
    let v = new_version(pre.next_version_id, crate_id, ver, features, authors, now);
    let mid = choose|mid: Registry|
        #[trigger] version_added(pre, mid, v) && crate::publish::edges_linked(
            mid,
            post,
            v.id,
            first_deps,
            listed,
        );
    law_version_added_once(pre, mid, crate_id, ver, features, authors, now, second_features);
    let n = pre.versions@.len() as int;
    assert(mid.versions@[n] == mid.versions@.last());
    assert(holds_version(post.versions@, crate_id, ver, n));
}

/// How many grants are for the same crate, owner and kind as `probe`.
pub open spec fn grants_for(grants: Seq<CrateOwner>, probe: CrateOwner) -> nat
    decreases grants.len(),
{
    if grants.len() == 0 {
        0
    } else {
        grants_for(grants.drop_last(), probe) + if same_grant(grants.last(), probe) {
            1nat
        } else {
            0nat
        }
    }
}

/// In a table without doubles, a probe matches one grant at most; it matches
/// one exactly when `grant_index` points into the table.
pub proof fn lemma_grants_for(grants: Seq<CrateOwner>, next: i32, probe: CrateOwner)
    requires
        grants_wf(grants, next),
    ensures
        grants_for(grants, probe) == if grant_index(grants, probe) < grants.len() {
            1nat
        } else {
            0nat
        },
    decreases grants.len(),
{
    reveal(grants_wf);
    lemma_grant_index_is_first(grants, probe);
    if grants.len() > 0 {
        let less = grants.drop_last();
        assert forall|i: int, j: int|
            #![trigger less[i], less[j]]
            0 <= i < less.len() && 0 <= j < less.len() && i != j implies !same_grant(
            less[i],
            less[j],
        ) by {
            assert(less[i] == grants[i] && less[j] == grants[j]);
        }
        assert forall|i: int| 0 <= i < less.len() implies 0 < (#[trigger] less[i]).crate_id
            < next by {
            assert(less[i] == grants[i]);
        }
        lemma_grants_for(less, next, probe);
        lemma_grant_index_is_first(less, probe);
        let k = grant_index(grants, probe);
        let kl = grant_index(less, probe);
        if same_grant(grants.last(), probe) {
            if kl < less.len() {
                assert(less[kl] == grants[kl]);
                assert(same_grant(grants[kl], grants[grants.len() - 1]));
            }
            if k >= grants.len() {
                assert(!same_grant(grants[grants.len() - 1], probe));
            }
        } else {
            if kl < less.len() {
                assert(less[kl] == grants[kl]);
                if k >= grants.len() {
                    assert(!same_grant(grants[kl], probe));
                }
            } else {
                if k < grants.len() {
                    if k < less.len() {
                        assert(less[k] == grants[k]);
                    }
                }
            }
        }
    }
}

/// Adding an owner, removing it and adding it again leaves the grants as the
/// first adding left them: one grant for the owner, in force, and no grant
/// more than before the removal. At every step the table holds one grant at
/// most for any crate, owner and kind.
pub proof fn law_owner_cycle(grants: Seq<CrateOwner>, next: i32, g: CrateOwner)
    requires
        grants_wf(grants, next),
        0 < g.crate_id < next,
        !g.deleted,
    ensures
        ({
            let added = with_grant(grants, g);
            let removed = without_grant(added, g);
            let again = with_grant(removed, g);
            &&& grants_wf(added, next)
            &&& grants_wf(removed, next)
            &&& again == added
            &&& removed.len() == added.len()
            &&& grants_for(added, g) == 1
            &&& grants_for(removed, g) == 1
            &&& !added[grant_index(added, g)].deleted
            &&& removed[grant_index(removed, g)].deleted
        }),
{
    lemma_grant_index_is_first(grants, g);
    let i = grant_index(grants, g);
    let added = with_grant(grants, g);
    if i < grants.len() {
        lemma_grants_update(grants, next, i, CrateOwner { deleted: false, ..grants[i] });
    } else {
        lemma_grants_push(grants, next, next, g);
    }
    assert forall|j: int| 0 <= j < i implies !same_grant(#[trigger] added[j], g) by {
        assert(added[j] == grants[j]);
    }
    lemma_grant_index(added, g, i);
    let removed = without_grant(added, g);
    lemma_grants_update(added, next, i, CrateOwner { deleted: true, ..added[i] });
    assert forall|j: int| 0 <= j < i implies !same_grant(#[trigger] removed[j], g) by {
        assert(removed[j] == added[j]);
    }
    lemma_grant_index(removed, g, i);
    let again = with_grant(removed, g);
    assert(again =~= added);
    lemma_grants_for(added, next, g);
    lemma_grants_for(removed, next, g);
}

/// A grant is never taken out of the table: bringing a grant in force and
/// withdrawing a grant leave every grant where it was, for the same crate,
/// owner and kind and made by the same user; at most one grant is added.
pub proof fn law_grants_are_kept(grants: Seq<CrateOwner>, g: CrateOwner)
    ensures
        grants.len() <= with_grant(grants, g).len() <= grants.len() + 1,
        without_grant(grants, g).len() == grants.len(),
        forall|i: int|
            0 <= i < grants.len() ==> same_grant(#[trigger] with_grant(grants, g)[i], grants[i])
                && with_grant(grants, g)[i].created_by == grants[i].created_by,
        forall|i: int|
            0 <= i < grants.len() ==> same_grant(#[trigger] without_grant(grants, g)[i], grants[i])
                && without_grant(grants, g)[i].created_by == grants[i].created_by,
{
    lemma_grant_index_is_first(grants, g);
}

/// The grants after an owner was added and then, once for each of `adders`,
/// removed and added again by that user.
pub open spec fn cycled(grants: Seq<CrateOwner>, g: CrateOwner, adders: Seq<i32>) -> Seq<CrateOwner>
    decreases adders.len(),
{
    if adders.len() == 0 {
        with_grant(grants, g)
    } else {
        with_grant(
            without_grant(cycled(grants, g, adders.drop_last()), g),
            CrateOwner { created_by: adders.last(), ..g },
        )
    }
}

/// However often an owner is removed and added again, and by whomever, the
/// grants are as the first adding left them: one grant for the owner, in
/// force, made by the one who added the owner first.
pub proof fn law_owner_cycles(grants: Seq<CrateOwner>, next: i32, g: CrateOwner, adders: Seq<i32>)
    requires
        grants_wf(grants, next),
        0 < g.crate_id < next,
        !g.deleted,
    ensures
        cycled(grants, g, adders) == with_grant(grants, g),
        grants_wf(cycled(grants, g, adders), next),
        grants_for(cycled(grants, g, adders), g) == 1,
        !cycled(grants, g, adders)[grant_index(cycled(grants, g, adders), g)].deleted,
    decreases adders.len(),
{
    law_owner_cycle(grants, next, g);
    if adders.len() > 0 {
        law_owner_cycles(grants, next, g, adders.drop_last());
        let added = with_grant(grants, g);
        let removed = without_grant(added, g);
        let again = CrateOwner { created_by: adders.last(), ..g };
        lemma_grant_index_by_key(removed, g, again);
        lemma_grants_for(removed, next, g);
        assert(with_grant(removed, again) =~= with_grant(removed, g));
    }
}

/// A probe finds the same grant as any probe for the same crate, owner and
/// kind does.
pub proof fn lemma_grant_index_by_key(grants: Seq<CrateOwner>, g: CrateOwner, h: CrateOwner)
    requires
        same_grant(g, h),
    ensures
        grant_index(grants, g) == grant_index(grants, h),
    decreases grants.len(),
{
    if grants.len() > 0 && !same_grant(grants[0], g) {
        lemma_grant_index_by_key(grants.drop_first(), g, h);
    }
}

/// A team that is put on record behind teams with other logins is the team
/// that its login finds.
pub proof fn lemma_find_team_added(teams: Seq<Team>, more: Seq<Team>, login: Seq<char>)
    requires
        find_team_by_login(teams, login) is None,
        more.len() == teams.len() + 1,
        more.subrange(0, teams.len() as int) == teams,
        more.last().login@ == login,
    ensures
        find_team_by_login(more, login) == Some(more.last()),
    decreases teams.len(),
{
    if teams.len() == 0 {
        assert(more[0] == more.last());
        assert(find_team_by_login(more.drop_first(), login) is None);
    } else {
        assert(more[0] == teams[0]);
        assert(more.drop_first().subrange(0, teams.len() - 1) == teams.drop_first());
        assert(more.drop_first().last() == more.last());
        lemma_find_team_added(teams.drop_first(), more.drop_first(), login);
    }
}

/// Adding an owner by its login, removing it and adding it again, by whomever,
/// leaves the grants as the first adding left them: no second grant for the
/// owner comes about, and the one grant is in force. A team that the first
/// adding put on record is not put on record again.
pub proof fn law_add_remove_add(
    pre: Registry,
    added: Registry,
    removed: Registry,
    again: Registry,
    crate_id: i32,
    first_user: i32,
    second_user: i32,
    login: Seq<char>,
    member_of: Seq<i32>,
    first_answer: TeamAnswer,
    second_answer: TeamAnswer,
)
    requires
        pre.wf(),
        add_verdict(pre, crate_id, login, member_of, first_answer) is None,
        owner_added(pre, added, crate_id, first_user, login, first_answer),
        owner_removed(added, removed, crate_id, login),
        owner_added(removed, again, crate_id, second_user, login, second_answer),
    ensures
        again.crate_owners@ == added.crate_owners@,
        again.teams@ == added.teams@,
        removed.crate_owners@.len() == added.crate_owners@.len(),
        resolve_owner(added.users@, added.teams@, login) matches Some(o) && ({
            let g = live_grant(crate_id, o.id_of(), o.kind_of(), first_user);
            &&& grants_for(added.crate_owners@, g) == 1
            &&& grants_for(removed.crate_owners@, g) == 1
            &&& grants_for(again.crate_owners@, g) == 1
            &&& !again.crate_owners@[grant_index(again.crate_owners@, g)].deleted
        }),
{
    reveal(crates_wf);
    let h = choose|h: int| crate::registry::holds_id(pre.crates@, crate_id, h);
    assert(0 < pre.crates@[h].id < pre.next_crate_id);
    let o = match resolve_owner(pre.users@, pre.teams@, login) {
        Some(o) => o,
        None => {
            lemma_find_team_added(pre.teams@, added.teams@, login);
            Owner::Team(added.teams@.last())
        },
    };
    assert(resolve_owner(added.users@, added.teams@, login) == Some(o));
    let g = live_grant(crate_id, o.id_of(), o.kind_of(), first_user);
    let g0 = live_grant(crate_id, o.id_of(), o.kind_of(), 0);
    let g2 = live_grant(crate_id, o.id_of(), o.kind_of(), second_user);
    law_owner_cycle(pre.crate_owners@, pre.next_crate_id, g);
    lemma_grant_index_by_key(added.crate_owners@, g, g0);
    lemma_grant_index_by_key(removed.crate_owners@, g, g2);
}

/// `added` and `removed` hold the states that rounds of removing an owner and
/// adding it again lead through: from `added[k]` the owner is removed, which
/// gives `removed[k]`, and added again by `adders[k]`, which gives
/// `added[k + 1]`.
pub open spec fn is_owner_trail(
    added: Seq<Registry>,
    removed: Seq<Registry>,
    crate_id: i32,
    login: Seq<char>,
    adders: Seq<i32>,
    answers: Seq<TeamAnswer>,
) -> bool {
    &&& added.len() == adders.len() + 1
    &&& removed.len() == adders.len()
    &&& answers.len() == adders.len()
    &&& forall|k: int|
        0 <= k < adders.len() ==> owner_removed(#[trigger] added[k], removed[k], crate_id, login)
            && owner_added(removed[k], added[k + 1], crate_id, adders[k], login, answers[k])
}

/// However often an owner is removed from a crate and added again by its
/// login, and by whomever, the tables are after each adding as the first
/// adding left them: one grant for the owner, in force, and no team put on
/// record a second time.
pub proof fn law_owner_cycles_on_record(
    pre: Registry,
    added: Seq<Registry>,
    removed: Seq<Registry>,
    crate_id: i32,
    first_user: i32,
    login: Seq<char>,
    member_of: Seq<i32>,
    first_answer: TeamAnswer,
    adders: Seq<i32>,
    answers: Seq<TeamAnswer>,
    k: int,
)
    requires
        pre.wf(),
        add_verdict(pre, crate_id, login, member_of, first_answer) is None,
        is_owner_trail(added, removed, crate_id, login, adders, answers),
        owner_added(pre, added[0], crate_id, first_user, login, first_answer),
        0 <= k <= adders.len(),
    ensures
        owner_added(pre, added[k], crate_id, first_user, login, first_answer),
        added[k].crate_owners@ == added[0].crate_owners@,
        added[k].teams@ == added[0].teams@,
        resolve_owner(added[k].users@, added[k].teams@, login) matches Some(o) && grants_for(
            added[k].crate_owners@,
            live_grant(crate_id, o.id_of(), o.kind_of(), first_user),
        ) == 1,
    decreases k,
{
    if k == 0 {
        if adders.len() > 0 {
            law_add_remove_add(
                pre,
                added[0],
                removed[0],
                added[1],
                crate_id,
                first_user,
                adders[0],
                login,
                member_of,
                first_answer,
                answers[0],
            );
        } else {
            lemma_first_add_counts_one(pre, added[0], crate_id, first_user, login, member_of, first_answer);
        }
    } else {
        law_owner_cycles_on_record(
            pre,
            added,
            removed,
            crate_id,
            first_user,
            login,
            member_of,
            first_answer,
            adders,
            answers,
            k - 1,
        );
        assert(owner_removed(added[k - 1], removed[k - 1], crate_id, login));
        law_add_remove_add(
            pre,
            added[k - 1],
            removed[k - 1],
            added[k],
            crate_id,
            first_user,
            adders[k - 1],
            login,
            member_of,
            first_answer,
            answers[k - 1],
        );
    }
}

/// After an owner was added there is one grant for it.
proof fn lemma_first_add_counts_one(
    pre: Registry,
    added: Registry,
    crate_id: i32,
    first_user: i32,
    login: Seq<char>,
    member_of: Seq<i32>,
    first_answer: TeamAnswer,
)
    requires
        pre.wf(),
        add_verdict(pre, crate_id, login, member_of, first_answer) is None,
        owner_added(pre, added, crate_id, first_user, login, first_answer),
    ensures
        resolve_owner(added.users@, added.teams@, login) matches Some(o) && grants_for(
            added.crate_owners@,
            live_grant(crate_id, o.id_of(), o.kind_of(), first_user),
        ) == 1,
{
    reveal(crates_wf);
    let h = choose|h: int| crate::registry::holds_id(pre.crates@, crate_id, h);
    assert(0 < pre.crates@[h].id < pre.next_crate_id);
    let o = match resolve_owner(pre.users@, pre.teams@, login) {
        Some(o) => o,
        None => {
            lemma_find_team_added(pre.teams@, added.teams@, login);
            Owner::Team(added.teams@.last())
        },
    };
    assert(resolve_owner(added.users@, added.teams@, login) == Some(o));
    law_owner_cycle(
        pre.crate_owners@,
        pre.next_crate_id,
        live_grant(crate_id, o.id_of(), o.kind_of(), first_user),
    );
}

/// Two downloads of a version on one calendar day, where the day has no
/// counter for the version yet, leave one counter for that day, and it stands
/// at two.
pub proof fn law_same_day_counts_twice(
    counters: Seq<VersionDownload>,
    version_id: i32,
    t1: Timestamp,
    t2: Timestamp,
)
    requires
        counter_index(counters, first_download(version_id, t1)) == counters.len(),
        t1.day_number() == t2.day_number(),
    ensures
        bumped(bumped(counters, version_id, t1), version_id, t2) == counters.push(
            VersionDownload { version_id, downloads: 2, date: t1 },
        ),
{
    let once = bumped(counters, version_id, t1);
    assert(once == counters.push(first_download(version_id, t1)));
    lemma_no_counter_before(counters, first_download(version_id, t1));
    let n = counters.len() as int;
    assert forall|i: int| 0 <= i < n implies !same_counter(
        #[trigger] once[i],
        first_download(version_id, t2),
    ) by {
        assert(once[i] == counters[i]);
        assert(!same_counter(counters[i], first_download(version_id, t1)));
    }
    lemma_counter_index(once, first_download(version_id, t2), n);
    assert(bumped(once, version_id, t2) =~= counters.push(
        VersionDownload { version_id, downloads: 2, date: t1 },
    ));
}

/// Two downloads of a version on two calendar days, where neither day has a
/// counter for the version yet, leave two counters, one for each day, and
/// each stands at one.
pub proof fn law_next_day_counts_apart(
    counters: Seq<VersionDownload>,
    version_id: i32,
    t1: Timestamp,
    t2: Timestamp,
)
    requires
        counter_index(counters, first_download(version_id, t1)) == counters.len(),
        counter_index(counters, first_download(version_id, t2)) == counters.len(),
        t1.day_number() != t2.day_number(),
    ensures
        bumped(bumped(counters, version_id, t1), version_id, t2) == counters.push(
            first_download(version_id, t1),
        ).push(first_download(version_id, t2)),
{
    let once = bumped(counters, version_id, t1);
    lemma_no_counter_before(counters, first_download(version_id, t2));
    let n = counters.len() as int;
    assert forall|i: int| 0 <= i < n + 1 implies !same_counter(
        #[trigger] once[i],
        first_download(version_id, t2),
    ) by {
        if i < n {
            assert(once[i] == counters[i]);
        }
    }
    lemma_counter_index(once, first_download(version_id, t2), n + 1);
}

/// A counter never falls and is never taken out: a download leaves every
/// counter for its version and day, at least as high as it was.
pub proof fn law_counters_never_fall(
    counters: Seq<VersionDownload>,
    version_id: i32,
    now: Timestamp,
)
    requires
        !crate::downloads::counter_full(counters, version_id, now),
    ensures
        bumped(counters, version_id, now).len() >= counters.len(),
        forall|i: int|
            0 <= i < counters.len() ==> same_counter(
                #[trigger] bumped(counters, version_id, now)[i],
                counters[i],
            ) && bumped(counters, version_id, now)[i].downloads >= counters[i].downloads,
{
    lemma_counter_index_bound(counters, first_download(version_id, now));
}

/// Where `counter_index` points behind the table, no counter matches the
/// probe.
pub proof fn lemma_no_counter_before(counters: Seq<VersionDownload>, probe: VersionDownload)
    requires
        counter_index(counters, probe) == counters.len(),
    ensures
        forall|i: int| 0 <= i < counters.len() ==> !same_counter(#[trigger] counters[i], probe),
    decreases counters.len(),
{
    if counters.len() > 0 {
        lemma_counter_index_bound(counters.drop_first(), probe);
        lemma_no_counter_before(counters.drop_first(), probe);
        assert forall|i: int| 0 <= i < counters.len() implies !same_counter(
            #[trigger] counters[i],
            probe,
        ) by {
            if i > 0 {
                assert(counters.drop_first()[i - 1] == counters[i]);
            }
        }
    }
}

/// `counter_index` points into the table or just behind it.
pub proof fn lemma_counter_index_bound(counters: Seq<VersionDownload>, probe: VersionDownload)
    ensures
        0 <= counter_index(counters, probe) <= counters.len(),
    decreases counters.len(),
{
    if counters.len() > 0 && !same_counter(counters[0], probe) {
        lemma_counter_index_bound(counters.drop_first(), probe);
    }
}

/// In a listing for a free-text query, the crate whose name is the query
/// comes first, however the listing is sorted and whatever the downloads and
/// the fit of the other crates are: it is the first crate of the first page.
pub proof fn law_exact_match_first(
    conn: Registry,
    query: ListingQuery,
    hits: Seq<SearchHit>,
    pos: Seq<usize>,
    e: int,
    limit: int,
)
    requires
        conn.wf(),
        query.q is Some,
        listed(conn, query, FilterView::Search, hits, pos),
        0 <= e < conn.crates@.len(),
        conn.crates@[e].name@ == query.q->0@,
        is_hit(hits, conn.crates@[e].id),
        limit >= 1,
    ensures
        pos.len() > 0,
        pos[0] == e,
        crate::ranking::page_of(pos, 0, limit).len() > 0,
        crate::ranking::page_of(pos, 0, limit)[0] == e,
{
    let n = conn.crates@.len() as int;
    reveal(crates_wf);
    assert(n <= usize::MAX) by {
        lemma_seq_fits(conn);
    }
    lemma_positions_where(n, selects(conn, FilterView::Search, hits));
    let picked = crate::ranking::positions_where(n, selects(conn, FilterView::Search, hits));
    assert(selects(conn, FilterView::Search, hits)(e));
    assert(picked.contains(e as usize));
    let w = choose|w: int| 0 <= w < picked.len() && picked[w] == e as usize;
    assert(pos.contains(picked[w]));
    let k = choose|k: int| 0 <= k < pos.len() && pos[k] == e as usize;
    if k > 0 {
        let keys = listing_keys(conn, query, hits);
        let f = pos[0] as int;
        assert(key_le(keys[f], keys[e]));
        assert(conn.crates@[f].name@ == conn.crates@[e].name@);
        assert(same_slot(conn.crates@[f].name@, conn.crates@[e].name@)) by {
            reveal(same_slot);
        }
        assert(f == e);
        assert(pos[0] != pos[k]);
    }
}

/// The crate table of a registry has no more rows than a list can hold.
proof fn lemma_seq_fits(conn: Registry)
    ensures
        conn.crates@.len() <= usize::MAX,
{
    assert(conn.crates@.len() == conn.crates.len());
}

/// Where all of `deps` resolve, `first_unresolved` points behind them.
proof fn lemma_all_resolve(pre: Registry, name: Seq<char>, deps: Seq<crate::model::NewDependency>)
    requires
        forall|k: int| 0 <= k < deps.len() ==> crate::publish::resolves(pre, name, #[trigger] deps[k]),
    ensures
        crate::publish::first_unresolved(pre, name, deps) == deps.len(),
    decreases deps.len(),
{
    if deps.len() > 0 {
        assert(crate::publish::resolves(pre, name, deps[0]));
        assert forall|k: int| 0 <= k < deps.drop_first().len() implies crate::publish::resolves(
            pre,
            name,
            #[trigger] deps.drop_first()[k],
        ) by {
            assert(deps.drop_first()[k] == deps[k + 1]);
        }
        lemma_all_resolve(pre, name, deps.drop_first());
    }
}

/// A first publish goes through: a request for a name whose slot is free and
/// which is not reserved, with the required fields, with links and a license
/// that pass the checks, with a version number, with no feature named twice,
/// with dependencies that name crates on record, and with a body no longer
/// than the registry allows, is not refused, as long as the tables have room.
pub proof fn law_first_publish_is_admitted(
    pre: Registry,
    req: crate::publish::UploadRequest,
    user: crate::model::User,
    member_of: Seq<i32>,
    length: u64,
    default_max: u64,
)
    requires
        pre.wf(),
        crate::publish::missing_verdict(req) is None,
        crate::validate::metadata_verdict(crate::publish::metadata_of(req)) is None,
        !name_reserved(pre.reserved_names@, req.name@),
        !slot_taken(pre.crates@, req.name@),
        length <= default_max,
        crate::registry::is_version_number(req.vers@),
        crate::model::distinct_names(crate::model::features_view(req.features@)),
        forall|k: int|
            0 <= k < req.deps@.len() ==> crate::publish::resolves(
                pre,
                req.name@,
                #[trigger] req.deps@[k],
            ),
        pre.next_crate_id < i32::MAX,
        pre.next_version_id < i32::MAX,
        pre.next_dependency_id + req.deps@.len() <= i32::MAX,
    ensures
        crate::publish::publish_verdict(pre, req, user, member_of, Some(length), default_max)
            is None,
{
    reveal(crate::registry::versions_wf);
    lemma_all_resolve(pre, req.name@, req.deps@);
    assert forall|i: int| !holds_version(pre.versions@, pre.next_crate_id, req.vers@, i) by {
        if 0 <= i < pre.versions@.len() {
            assert(pre.versions@[i].crate_id < pre.next_crate_id);
        }
    }
}

/// What a first publish leaves: the crate under the name and with the license
/// of the request, the acting user as its only owner, and the version of the
/// request as a version of the crate.
pub proof fn law_first_publish_result(
    pre: Registry,
    post: Registry,
    req: crate::publish::UploadRequest,
    user: crate::model::User,
    member_of: Seq<i32>,
    content_length: Option<u64>,
    default_max: u64,
    now: Timestamp,
    p: crate::publish::Publication,
)
    requires
        pre.wf(),
        !slot_taken(pre.crates@, req.name@),
        crate::publish::publish_verdict(pre, req, user, member_of, content_length, default_max)
            is None,
        crate::publish::published(pre, post, req, user, default_max, now, p),
    ensures
        post.crates@ == pre.crates@.push(p.krate),
        p.krate.name@ == req.name@,
        crate::text::opt_text(p.krate.license) == crate::validate::stored_license(
            crate::text::opt_text(req.license),
            crate::text::opt_text(req.license_file),
        ),
        p.response.name == p.krate.name,
        p.response.license == p.krate.license,
        post.crate_owners@ == pre.crate_owners@.push(first_grant(p.krate.id, user.id)),
        forall|i: int|
            0 <= i < pre.crate_owners@.len() ==> (#[trigger] post.crate_owners@[i]).crate_id
                != p.krate.id,
        post.versions@.len() == pre.versions@.len() + 1,
        post.versions@.last()@ == p.version@,
        p.version.crate_id == p.krate.id,
        p.version.num@ == req.vers@,
{
    reveal(grants_wf);
    let t = choose|t: Seq<Registry>|
        #[trigger] crate::publish::publish_trail(t, pre, post, req, user, now, p);
    assert(t[1].crate_owners@ == pre.crate_owners@.push(first_grant(p.krate.id, user.id)));
    assert(post.crate_owners == t[1].crate_owners);
    assert(post.crates == t[1].crates);
    assert(post.versions == t[2].versions);
    assert forall|i: int| 0 <= i < pre.crate_owners@.len() implies (
    #[trigger] post.crate_owners@[i]).crate_id != p.krate.id by {
        assert(post.crate_owners@[i] == pre.crate_owners@[i]);
    }
}

} // verus!
