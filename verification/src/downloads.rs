//! Download accounting: one counter for each version and calendar day.

use vstd::prelude::*;
use crate::clock::Timestamp;
use crate::errors::{Error, ErrorKind};
use crate::model::{Crate, Version, VersionDownload};
use crate::owners::holds;
use crate::ranking::{
    in_key_order, key_views, lemma_positions_where, page_bounds, page_of, positions_where,
    rearranged, sort_by_keys, KeyView, RankKey,
};
use crate::registry::{counters_wf, first_in_slot, same_counter, slot_taken, Registry};
use crate::text::same_text;
use crate::versions::{find_version_crate, versions_listed};

verus! {

/// The identifier of the first version of `crate_id` whose number is `num`,
/// letter for letter.
pub open spec fn find_version_id(
    versions: Seq<Version>,
    crate_id: i32,
    num: Seq<char>,
) -> Option<i32>
    decreases versions.len(),
{
    if versions.len() == 0 {
        None
    } else if versions[0].crate_id == crate_id && versions[0].num@ == num {
        Some(versions[0].id)
    } else {
        find_version_id(versions.drop_first(), crate_id, num)
    }
}

/// The version that a crate name and a version number lead to.
pub open spec fn resolve_version(
    conn: Registry,
    crate_name: Seq<char>,
    num: Seq<char>,
) -> Option<i32> {
    if slot_taken(conn.crates@, crate_name) {
        find_version_id(
            conn.versions@,
            conn.crates@[first_in_slot(conn.crates@, crate_name)].id,
            num,
        )
    } else {
        None
    }
}

/// The position of the first counter for the same version and day as `probe`,
/// or the number of counters if there is none.
pub open spec fn counter_index(counters: Seq<VersionDownload>, probe: VersionDownload) -> int
    decreases counters.len(),
{
    if counters.len() == 0 || same_counter(counters[0], probe) {
        0
    } else {
        1 + counter_index(counters.drop_first(), probe)
    }
}

/// `counter_index` gives the first position, and every first position is what
/// `counter_index` gives.
pub proof fn lemma_counter_index(counters: Seq<VersionDownload>, probe: VersionDownload, k: int)
    requires
        0 <= k <= counters.len(),
        forall|i: int| 0 <= i < k ==> !same_counter(#[trigger] counters[i], probe),
        k < counters.len() ==> same_counter(counters[k], probe),
    ensures
        counter_index(counters, probe) == k,
    decreases counters.len(),
{
    if counters.len() == 0 || same_counter(counters[0], probe) {
        if k > 0 {
            assert(!same_counter(counters[0], probe));
        }
    } else {
        assert forall|i: int| 0 <= i < k - 1 implies !same_counter(
            #[trigger] counters.drop_first()[i],
            probe,
        ) by {
            assert(counters.drop_first()[i] == counters[i + 1]);
        }
        lemma_counter_index(counters.drop_first(), probe, k - 1);
    }
}

/// The first download of `version_id` on the day of `now`.
pub open spec fn first_download(version_id: i32, now: Timestamp) -> VersionDownload {
    VersionDownload { version_id, downloads: 1, date: now }
}

/// Whether the counter of `version_id` for the day of `now` stands at the
/// greatest number it can hold.
pub open spec fn counter_full(
    counters: Seq<VersionDownload>,
    version_id: i32,
    now: Timestamp,
) -> bool {
    let i = counter_index(counters, first_download(version_id, now));
    i < counters.len() && counters[i].downloads == i32::MAX
}

/// The counters after one more download of `version_id` at `now`: the counter
/// for that version and day goes up by one; if there is none yet, one is
/// added that stands at one.
pub open spec fn bumped(counters: Seq<VersionDownload>, version_id: i32, now: Timestamp) -> Seq<
    VersionDownload,
> {
    let i = counter_index(counters, first_download(version_id, now));
    if i < counters.len() {
        counters.update(
            i,
            VersionDownload { downloads: (counters[i].downloads + 1) as i32, ..counters[i] },
        )
    } else {
        counters.push(first_download(version_id, now))
    }
}

/// Why a download cannot be counted, if it cannot.
pub open spec fn count_verdict(
    conn: Registry,
    crate_name: Seq<char>,
    num: Seq<char>,
    now: Timestamp,
) -> Option<(ErrorKind, Seq<char>)> {
    match resolve_version(conn, crate_name, num) {
        None => Some((ErrorKind::CrateOrVersionNotFound, Seq::empty())),
        Some(id) => if counter_full(conn.version_downloads@, id, now) {
            Some((ErrorKind::Exhausted, Seq::empty()))
        } else {
            None
        },
    }
}

/// `post` is `pre` with one more download counted.
pub open spec fn counted(
    pre: Registry,
    post: Registry,
    crate_name: Seq<char>,
    num: Seq<char>,
    now: Timestamp,
) -> bool {
    &&& resolve_version(pre, crate_name, num) matches Some(id)
    &&& post.version_downloads@ == bumped(pre.version_downloads@, id, now)
    &&& post == (Registry { version_downloads: post.version_downloads, ..pre })
}

impl Registry {
    /// The identifier of the first version of `crate_id` whose number is
    /// `num`, letter for letter.
    pub fn version_id_of(&self, crate_id: i32, num: &str) -> (r: Option<i32>)
        ensures
            r == find_version_id(self.versions@, crate_id, num@),
    {
        let mut i: usize = 0;
        assert(self.versions@.skip(0) == self.versions@);
        while i < self.versions.len()
            invariant
                i <= self.versions.len(),
                find_version_id(self.versions@, crate_id, num@) == find_version_id(
                    self.versions@.skip(i as int),
                    crate_id,
                    num@,
                ),
            decreases self.versions.len() - i,
        {
            assert(self.versions@.skip(i as int).drop_first() == self.versions@.skip(i + 1));
            if self.versions[i].crate_id == crate_id && same_text(
                self.versions[i].num.as_str(),
                num,
            ) {
                return Some(self.versions[i].id);
            }
            i = i + 1;
        }
        None
    }

    /// The position of the counter of `version_id` for the day of `now`, or
    /// the number of counters if there is none.
    pub fn counter_position(&self, version_id: i32, now: Timestamp) -> (r: usize)
        ensures
            r == counter_index(self.version_downloads@, first_download(version_id, now)),
            r <= self.version_downloads@.len(),
            r < self.version_downloads@.len() ==> same_counter(
                self.version_downloads@[r as int],
                first_download(version_id, now),
            ),
            forall|i: int|
                0 <= i < r ==> !same_counter(
                    #[trigger] self.version_downloads@[i],
                    first_download(version_id, now),
                ),
    {
        let day = now.day();
        let ghost probe = first_download(version_id, now);
        let mut i: usize = 0;
        while i < self.version_downloads.len()
            invariant
                i <= self.version_downloads.len(),
                day == now.day_number(),
                probe == first_download(version_id, now),
                forall|j: int|
                    0 <= j < i ==> !same_counter(#[trigger] self.version_downloads@[j], probe),
            decreases self.version_downloads.len() - i,
        {
            let have = self.version_downloads[i];
            if have.version_id == version_id && have.date.day() == day {
                proof {
                    lemma_counter_index(self.version_downloads@, probe, i as int);
                }
                return i;
            }
            i = i + 1;
        }
        proof {
            lemma_counter_index(self.version_downloads@, probe, i as int);
        }
        i
    }
}

/// Counts one download of the version `version` of the crate `crate_name` at
/// `now`. Each version has one counter for each calendar day.
pub fn increment_download_counts(
    conn: &mut Registry,
    crate_name: &str,
    version: &str,
    now: Timestamp,
) -> (r: Result<(), Error>)
    requires
        old(conn).wf(),
    ensures
        final(conn).wf(),
        match count_verdict(*old(conn), crate_name@, version@, now) {
            Some(v) => r matches Err(e) && e@ == v && *final(conn) == *old(conn),
            None => r is Ok && counted(*old(conn), *final(conn), crate_name@, version@, now),
        },
{
    let version_id = match Crate::by_name(conn, crate_name) {
        None => {
            return Err(Error::bare(ErrorKind::CrateOrVersionNotFound));
        },
        Some(c) => match conn.version_id_of(c.id, version) {
            None => {
                return Err(Error::bare(ErrorKind::CrateOrVersionNotFound));
            },
            Some(id) => id,
        },
    };
    let i = conn.counter_position(version_id, now);
    if i < conn.version_downloads.len() {
        let have = conn.version_downloads[i];
        if have.downloads == i32::MAX {
            return Err(Error::bare(ErrorKind::Exhausted));
        }
        let row = VersionDownload { downloads: have.downloads + 1, ..have };
        proof {
            reveal(counters_wf);
            let before = conn.version_downloads@;
            let after = before.update(i as int, row);
            assert forall|a: int, b: int|
                #![trigger after[a], after[b]]
                0 <= a < after.len() && 0 <= b < after.len() && a != b implies !same_counter(
                after[a],
                after[b],
            ) by {
                assert(same_counter(after[a], before[a]));
                assert(same_counter(after[b], before[b]));
                assert(!same_counter(before[a], before[b]));
            }
            assert forall|a: int| 0 <= a < after.len() implies (#[trigger] after[a]).downloads
                >= 1 by {
                assert(before[a].downloads >= 1);
            }
        }
        conn.version_downloads.set(i, row);
    } else {
        let row = VersionDownload { version_id, downloads: 1, date: now };
        proof {
            reveal(counters_wf);
            let before = conn.version_downloads@;
            let after = before.push(row);
            assert forall|a: int, b: int|
                #![trigger after[a], after[b]]
                0 <= a < after.len() && 0 <= b < after.len() && a != b implies !same_counter(
                after[a],
                after[b],
            ) by {
                if a < before.len() {
                    assert(after[a] == before[a]);
                }
                if b < before.len() {
                    assert(after[b] == before[b]);
                }
            }
            assert forall|a: int| 0 <= a < after.len() implies (#[trigger] after[a]).downloads
                >= 1 by {
                if a < before.len() {
                    assert(after[a] == before[a]);
                }
            }
        }
        conn.version_downloads.push(row);
    }
    Ok(())
}

/// What a download request comes to. A registry that only mirrors another
/// passes over a download it cannot count; any other reports it. The request
/// fails where the artifact store has no place for the file, and then nothing
/// is counted.
pub open spec fn download_verdict(
    conn: Registry,
    crate_name: Seq<char>,
    num: Seq<char>,
    now: Timestamp,
    mirror: bool,
    location: Option<String>,
) -> Option<(ErrorKind, Seq<char>)> {
    if !mirror && count_verdict(conn, crate_name, num, now) is Some {
        count_verdict(conn, crate_name, num, now)
    } else if location is None {
        Some((ErrorKind::FilesNotFound, Seq::empty()))
    } else {
        None
    }
}

/// Serves a download of the version `version` of the crate `crate_name`:
/// counts it and hands back the place that the artifact store gave for the
/// file. `location` is what the artifact store gave.
pub fn download(
    conn: &mut Registry,
    crate_name: &str,
    version: &str,
    now: Timestamp,
    mirror: bool,
    location: Option<String>,
) -> (r: Result<String, Error>)
    requires
        old(conn).wf(),
    ensures
        final(conn).wf(),
        match download_verdict(*old(conn), crate_name@, version@, now, mirror, location) {
            Some(v) => r matches Err(e) && e@ == v && *final(conn) == *old(conn),
            None => r == Ok::<String, Error>(location->0) && if count_verdict(
                *old(conn),
                crate_name@,
                version@,
                now,
            ) is None {
                counted(*old(conn), *final(conn), crate_name@, version@, now)
            } else {
                *final(conn) == *old(conn)
            },
        },
{
    match location {
        None => {
            if !mirror {
                check_countable(conn, crate_name, version, now)?;
            }
            Err(Error::bare(ErrorKind::FilesNotFound))
        },
        Some(url) => {
            match increment_download_counts(conn, crate_name, version, now) {
                Ok(_) => Ok(url),
                Err(e) => if mirror {
                    Ok(url)
                } else {
                    Err(e)
                },
            }
        },
    }
}

/// Whether a download could be counted, without counting it.
pub fn check_countable(
    conn: &Registry,
    crate_name: &str,
    version: &str,
    now: Timestamp,
) -> (r: Result<
    (),
    Error,
>)
    ensures
        match count_verdict(*conn, crate_name@, version@, now) {
            Some(v) => r matches Err(e) && e@ == v,
            None => r is Ok,
        },
{
    let version_id = match Crate::by_name(conn, crate_name) {
        None => {
            return Err(Error::bare(ErrorKind::CrateOrVersionNotFound));
        },
        Some(c) => match conn.version_id_of(c.id, version) {
            None => {
                return Err(Error::bare(ErrorKind::CrateOrVersionNotFound));
            },
            Some(id) => id,
        },
    };
    let i = conn.counter_position(version_id, now);
    if i < conn.version_downloads.len() && conn.version_downloads[i].downloads == i32::MAX {
        return Err(Error::bare(ErrorKind::Exhausted));
    }
    Ok(())
}

/// The downloads of one calendar day, for the versions of a crate that are
/// not shown one by one.
#[derive(Debug, Clone, Copy, PartialEq, Eq, Structural)]
pub struct ExtraDownload {
    /// The number of the day.
    pub day: i64,
    pub downloads: i64,
}

/// The downloads of a crate over the last ninety days.
#[derive(Debug)]
pub struct DownloadsReport {
    /// The counters of the five greatest versions, oldest first.
    pub version_downloads: Vec<VersionDownload>,
    /// The downloads of all other versions, day by day, oldest first.
    pub extra_downloads: Vec<ExtraDownload>,
}

pub const NINETY_DAYS: i64 = 7776000;

/// Whether a counter was started less than ninety days before `now`.
pub open spec fn is_recent(d: VersionDownload, now: Timestamp) -> bool {
    d.date.secs() > now.secs() - NINETY_DAYS || (d.date.secs() == now.secs() - NINETY_DAYS
        && d.date.nanos() > now.nanos())
}

/// The test that picks the recent counters of the versions `shown`.
pub open spec fn shown_pick(
    counters: Seq<VersionDownload>,
    shown: Seq<i32>,
    now: Timestamp,
) -> spec_fn(int) -> bool {
    |i: int| is_recent(counters[i], now) && shown.contains(counters[i].version_id)
}

/// Whether a counter is a recent counter of a version of `crate_id` that is
/// not among `shown`.
pub open spec fn is_extra(
    conn: Registry,
    crate_id: i32,
    shown: Seq<i32>,
    now: Timestamp,
    i: int,
) -> bool {
    let d = conn.version_downloads@[i];
    is_recent(d, now) && !shown.contains(d.version_id) && find_version_crate(
        conn.versions@,
        d.version_id,
    ) == Some(crate_id)
}

/// The test that picks, for each day, the first counter that is extra.
pub open spec fn extra_day_pick(
    conn: Registry,
    crate_id: i32,
    shown: Seq<i32>,
    now: Timestamp,
) -> spec_fn(int) -> bool {
    |i: int|
        is_extra(conn, crate_id, shown, now, i) && forall|j: int|
            0 <= j < i && is_extra(conn, crate_id, shown, now, j) ==> (
            #[trigger] conn.version_downloads@[j]).date.day_number()
                != conn.version_downloads@[i].date.day_number()
}

/// The downloads that the first `n` counters hold for the day `day`, over the
/// counters that are extra.
pub open spec fn extra_sum(
    conn: Registry,
    crate_id: i32,
    shown: Seq<i32>,
    now: Timestamp,
    day: int,
    n: int,
) -> int
    decreases n,
{
    if n <= 0 {
        0
    } else {
        extra_sum(conn, crate_id, shown, now, day, n - 1) + if is_extra(
            conn,
            crate_id,
            shown,
            now,
            n - 1,
        ) && conn.version_downloads@[n - 1].date.day_number() == day {
            conn.version_downloads@[n - 1].downloads as int
        } else {
            0
        }
    }
}

/// What a counter is ranked by: its date, oldest first.
pub open spec fn date_keys(counters: Seq<VersionDownload>) -> Seq<KeyView> {
    Seq::new(
        counters.len(),
        |i: int|
            KeyView {
                first: counters[i].date.secs(),
                second: counters[i].date.nanos(),
                text: Seq::empty(),
            },
    )
}

/// A sum of downloads as it is reported, which stops at the greatest `i64`.
pub open spec fn capped(n: int) -> int {
    if n <= i64::MAX {
        n
    } else {
        i64::MAX as int
    }
}

/// `r` reports the downloads of the crate `crate_id` as of `now`.
pub open spec fn downloads_reported(
    r: DownloadsReport,
    conn: Registry,
    crate_id: i32,
    now: Timestamp,
) -> bool {
    exists|vpos: Seq<usize>, pos: Seq<usize>, days: Seq<usize>|
        {
            let counters = conn.version_downloads@;
            let n = counters.len() as int;
            let shown = Seq::new(
                page_of(vpos, 0, 5).len(),
                |k: int| conn.versions@[page_of(vpos, 0, 5)[k] as int].id,
            );
            &&& #[trigger] report_order(conn, crate_id, now, vpos, pos, days)
            &&& r.version_downloads@.len() == pos.len()
            &&& forall|k: int|
                0 <= k < pos.len() ==> #[trigger] r.version_downloads@[k] == counters[pos[k] as int]
            &&& r.extra_downloads@.len() == days.len()
            &&& forall|k: int|
                0 <= k < days.len() ==> (#[trigger] r.extra_downloads@[k]).day
                    == counters[days[k] as int].date.day_number() && r.extra_downloads@[k].downloads
                    == capped(
                    extra_sum(conn, crate_id, shown, now, r.extra_downloads@[k].day as int, n),
                )
        }
}

/// `vpos` lists the versions of the crate, greatest first; `pos` lists the
/// recent counters of the first five of them, oldest first; `days` lists, for
/// each day, the first recent counter of another version of the crate, oldest
/// day first.
pub open spec fn report_order(
    conn: Registry,
    crate_id: i32,
    now: Timestamp,
    vpos: Seq<usize>,
    pos: Seq<usize>,
    days: Seq<usize>,
) -> bool {
    let counters = conn.version_downloads@;
    let n = counters.len() as int;
    let shown = Seq::new(
        page_of(vpos, 0, 5).len(),
        |k: int| conn.versions@[page_of(vpos, 0, 5)[k] as int].id,
    );
    &&& versions_listed(conn.versions@, crate_id, vpos)
    &&& rearranged(pos, positions_where(n, shown_pick(counters, shown, now)))
    &&& in_key_order(date_keys(counters), pos)
    &&& rearranged(days, positions_where(n, extra_day_pick(conn, crate_id, shown, now)))
    &&& in_key_order(date_keys(counters), days)
}

impl Registry {
    fn recent(&self, i: usize, now: Timestamp) -> (r: bool)
        requires
            i < self.version_downloads@.len(),
        ensures
            r == is_recent(self.version_downloads@[i as int], now),
    {
        let d = self.version_downloads[i];
        let cutoff: i64 = now.sec() - NINETY_DAYS;
        d.date.sec() > cutoff || (d.date.sec() == cutoff && d.date.nsec() > now.nsec())
    }

    fn extra(&self, crate_id: i32, shown: &Vec<i32>, now: Timestamp, i: usize) -> (r: bool)
        requires
            i < self.version_downloads@.len(),
        ensures
            r == is_extra(*self, crate_id, shown@, now, i as int),
    {
        if !self.recent(i, now) || holds(shown, self.version_downloads[i].version_id) {
            return false;
        }
        match self.version_crate(self.version_downloads[i].version_id) {
            Some(c) => c == crate_id,
            None => false,
        }
    }

    fn extra_first(&self, crate_id: i32, shown: &Vec<i32>, now: Timestamp, i: usize) -> (r: bool)
        requires
            i < self.version_downloads@.len(),
        ensures
            r == extra_day_pick(*self, crate_id, shown@, now)(i as int),
    {
        if !self.extra(crate_id, shown, now, i) {
            return false;
        }
        let day = self.version_downloads[i].date.day();
        let mut j: usize = 0;
        while j < i
            invariant
                j <= i < self.version_downloads@.len(),
                day == self.version_downloads@[i as int].date.day_number(),
                forall|k: int|
                    0 <= k < j && is_extra(*self, crate_id, shown@, now, k) ==> (
                    #[trigger] self.version_downloads@[k]).date.day_number() != day,
            decreases i - j,
        {
            if self.extra(crate_id, shown, now, j) && self.version_downloads[j].date.day() == day {
                return false;
            }
            j = j + 1;
        }
        true
    }

    fn sum_extra(&self, crate_id: i32, shown: &Vec<i32>, now: Timestamp, day: i64) -> (r: i64)
        requires
            self.wf(),
        ensures
            r == capped(
                extra_sum(
                    *self,
                    crate_id,
                    shown@,
                    now,
                    day as int,
                    self.version_downloads@.len() as int,
                ),
            ),
    {
        let mut sum: i64 = 0;
        let mut i: usize = 0;
        proof {
            reveal(counters_wf);
        }
        while i < self.version_downloads.len()
            invariant
                i <= self.version_downloads.len(),
                counters_wf(self.version_downloads@),
                0 <= sum,
                0 <= extra_sum(*self, crate_id, shown@, now, day as int, i as int),
                sum == capped(extra_sum(*self, crate_id, shown@, now, day as int, i as int)),
            decreases self.version_downloads.len() - i,
        {
            proof {
                reveal(counters_wf);
            }
            if self.extra(crate_id, shown, now, i) && self.version_downloads[i].date.day() == day {
                let more: i64 = self.version_downloads[i].downloads as i64;
                if sum > 0x7fff_ffff_ffff_ffffi64 - more {
                    sum = 0x7fff_ffff_ffff_ffffi64;
                } else {
                    sum = sum + more;
                }
            }
            i = i + 1;
        }
        sum
    }

    /// What each counter is ranked by: its date.
    fn counter_keys(&self) -> (r: Vec<RankKey>)
        ensures
            key_views(r@) == date_keys(self.version_downloads@),
            r@.len() == self.version_downloads@.len(),
    {
        let mut keys: Vec<RankKey> = Vec::new();
        let mut i: usize = 0;
        while i < self.version_downloads.len()
            invariant
                i <= self.version_downloads.len(),
                keys.len() == i,
                forall|j: int|
                    0 <= j < i ==> (#[trigger] keys@[j])@ == date_keys(self.version_downloads@)[j],
            decreases self.version_downloads.len() - i,
        {
            let d = self.version_downloads[i];
            keys.push(
                RankKey { first: d.date.sec(), second: d.date.nsec() as i64, text: Vec::new() },
            );
            i = i + 1;
        }
        assert(key_views(keys@) =~= date_keys(self.version_downloads@));
        keys
    }
}

/// Reports the downloads of the crate `crate_name` over the ninety days
/// before `now`: counter by counter for its five greatest versions, day by
/// day for all others.
pub fn downloads(conn: &Registry, crate_name: &str, now: Timestamp) -> (r: Result<
    DownloadsReport,
    Error,
>)
    requires
        conn.wf(),
    ensures
        match r {
            Ok(report) => slot_taken(conn.crates@, crate_name@) && downloads_reported(
                report,
                *conn,
                conn.crates@[first_in_slot(conn.crates@, crate_name@)].id,
                now,
            ),
            Err(e) => !slot_taken(conn.crates@, crate_name@) && e@ == (
                ErrorKind::NotFound,
                Seq::<char>::empty(),
            ),
        },
{
    let c = Crate::find_by_name(conn, crate_name)?;
    let vpos = conn.ranked_versions(c.id);
    let (vlo, vhi) = page_bounds(vpos.len(), 0, 5);
    let ghost vpage = vpos@.subrange(vlo as int, vhi as int);
    assert(page_of(vpos@, 0, 5) == vpage);
    let mut shown: Vec<i32> = Vec::new();
    let mut k: usize = vlo;
    while k < vhi
        invariant
            vlo <= k <= vhi <= vpos.len(),
            forall|j: int| 0 <= j < vpos@.len() ==> #[trigger] vpos@[j] < conn.versions@.len(),
            shown.len() == k - vlo,
            forall|j: int|
                0 <= j < k - vlo ==> shown@[j] == conn.versions@[vpos@[vlo + j] as int].id,
        decreases vhi - k,
    {
        shown.push(conn.versions[vpos[k]].id);
        k = k + 1;
    }
    proof {
        assert(shown@ =~= Seq::new(vpage.len(), |k: int| conn.versions@[vpage[k] as int].id));
    }
    let n = conn.version_downloads.len();
    let ghost counters = conn.version_downloads@;
    let mut picked: Vec<usize> = Vec::new();
    let mut firsts: Vec<usize> = Vec::new();
    let mut i: usize = 0;
    while i < n
        invariant
            i <= n,
            n == conn.version_downloads.len(),
            counters == conn.version_downloads@,
            picked@ == positions_where(i as int, shown_pick(counters, shown@, now)),
            firsts@ == positions_where(i as int, extra_day_pick(*conn, c.id, shown@, now)),
        decreases n - i,
    {
        if conn.recent(i, now) && holds(&shown, conn.version_downloads[i].version_id) {
            picked.push(i);
        }
        if conn.extra_first(c.id, &shown, now, i) {
            firsts.push(i);
        }
        i = i + 1;
    }
    proof {
        lemma_positions_where(n as int, shown_pick(counters, shown@, now));
        lemma_positions_where(n as int, extra_day_pick(*conn, c.id, shown@, now));
    }
    let pos = sort_by_keys(conn.counter_keys(), &picked);
    let days = sort_by_keys(conn.counter_keys(), &firsts);
    let mut version_downloads: Vec<VersionDownload> = Vec::new();
    let mut a: usize = 0;
    while a < pos.len()
        invariant
            a <= pos.len(),
            n == conn.version_downloads.len(),
            counters == conn.version_downloads@,
            forall|j: int| 0 <= j < pos@.len() ==> #[trigger] pos@[j] < n,
            version_downloads.len() == a,
            forall|j: int|
                0 <= j < a ==> #[trigger] version_downloads@[j] == counters[pos@[j] as int],
        decreases pos.len() - a,
    {
        version_downloads.push(conn.version_downloads[pos[a]]);
        a = a + 1;
    }
    let mut extra_downloads: Vec<ExtraDownload> = Vec::new();
    let mut b: usize = 0;
    while b < days.len()
        invariant
            b <= days.len(),
            conn.wf(),
            n == conn.version_downloads.len(),
            counters == conn.version_downloads@,
            forall|j: int| 0 <= j < days@.len() ==> #[trigger] days@[j] < n,
            extra_downloads.len() == b,
            forall|j: int|
                0 <= j < b ==> (#[trigger] extra_downloads@[j]).day
                    == counters[days@[j] as int].date.day_number() && extra_downloads@[j].downloads
                    == capped(
                    extra_sum(*conn, c.id, shown@, now, extra_downloads@[j].day as int, n as int),
                ),
        decreases days.len() - b,
    {
        let day = conn.version_downloads[days[b]].date.day();
        let sum = conn.sum_extra(c.id, &shown, now, day);
        extra_downloads.push(ExtraDownload { day, downloads: sum });
        b = b + 1;
    }
    let report = DownloadsReport { version_downloads, extra_downloads };
    proof {
        assert(report_order(*conn, c.id, now, vpos@, pos@, days@));
    }
    Ok(report)
}

} // verus!
