use crate_registry::clock::Timestamp;
use crate_registry::downloads::{download, downloads, increment_download_counts, ExtraDownload};
use crate_registry::errors::ErrorKind;
use crate_registry::model::{Crate, NewCrate, VersionDownload};
use crate_registry::registry::Registry;

const DAY: i64 = 86400;

fn at(sec: i64) -> Timestamp {
    Timestamp::new(sec, 0).unwrap()
}

fn named(name: &str) -> NewCrate<'_> {
    NewCrate {
        name,
        description: None,
        homepage: None,
        documentation: None,
        readme: None,
        repository: None,
        license: None,
        max_upload_size: None,
    }
}

fn setup(nums: &[&str]) -> (Registry, Crate) {
    let mut conn = Registry::new(vec![]);
    let foo = named("foo").create_or_update(&mut conn, None, 1, at(1)).unwrap();
    for num in nums {
        foo.add_version(&mut conn, num, &vec![], &vec![], at(2)).unwrap();
    }
    (conn, foo)
}

#[test]
fn moments_outside_the_range_are_refused() {
    assert!(Timestamp::new(0, 0).is_some());
    assert!(Timestamp::new(253402300799, 999_999_999).is_some());
    assert!(Timestamp::new(-1, 0).is_none());
    assert!(Timestamp::new(253402300800, 0).is_none());
    assert!(Timestamp::new(0, -1).is_none());
    assert!(Timestamp::new(0, 1_000_000_000).is_none());
}

#[test]
fn day_is_counted_from_1970() {
    assert_eq!(at(0).day(), 0);
    assert_eq!(at(DAY - 1).day(), 0);
    assert_eq!(at(DAY).day(), 1);
    assert_eq!(at(1_000_000_000).day(), 11574);
    assert_eq!(at(5).sec(), 5);
    assert_eq!(Timestamp::new(5, 7).unwrap().nsec(), 7);
    assert!(at(5).le(&at(5)));
    assert!(at(5).le(&at(6)));
    assert!(!at(6).le(&at(5)));
    assert!(Timestamp::new(5, 1).unwrap().le(&Timestamp::new(5, 2).unwrap()));
    assert!(!Timestamp::new(5, 2).unwrap().le(&Timestamp::new(5, 1).unwrap()));
}

#[test]
fn two_downloads_on_one_day_make_one_counter_of_two() {
    let (mut conn, _) = setup(&["1.0.0"]);
    increment_download_counts(&mut conn, "foo", "1.0.0", at(10 * DAY + 5)).unwrap();
    assert_eq!(
        conn.version_downloads,
        vec![VersionDownload { version_id: 1, downloads: 1, date: at(10 * DAY + 5) }]
    );
    increment_download_counts(&mut conn, "foo", "1.0.0", at(10 * DAY + 80000)).unwrap();
    assert_eq!(
        conn.version_downloads,
        vec![VersionDownload { version_id: 1, downloads: 2, date: at(10 * DAY + 5) }]
    );
}

#[test]
fn downloads_on_two_days_make_two_counters() {
    let (mut conn, _) = setup(&["1.0.0"]);
    increment_download_counts(&mut conn, "foo", "1.0.0", at(10 * DAY + DAY - 1)).unwrap();
    increment_download_counts(&mut conn, "foo", "1.0.0", at(11 * DAY)).unwrap();
    assert_eq!(
        conn.version_downloads,
        vec![
            VersionDownload { version_id: 1, downloads: 1, date: at(10 * DAY + DAY - 1) },
            VersionDownload { version_id: 1, downloads: 1, date: at(11 * DAY) },
        ]
    );
    increment_download_counts(&mut conn, "foo", "1.0.0", at(10 * DAY)).unwrap();
    assert_eq!(conn.version_downloads[0].downloads, 2);
    assert_eq!(conn.version_downloads[1].downloads, 1);
}

#[test]
fn each_version_has_its_own_counter() {
    let (mut conn, _) = setup(&["1.0.0", "2.0.0"]);
    increment_download_counts(&mut conn, "FOO", "2.0.0", at(DAY)).unwrap();
    increment_download_counts(&mut conn, "foo", "1.0.0", at(DAY)).unwrap();
    increment_download_counts(&mut conn, "Foo", "2.0.0", at(DAY + 1)).unwrap();
    assert_eq!(
        conn.version_downloads,
        vec![
            VersionDownload { version_id: 2, downloads: 2, date: at(DAY) },
            VersionDownload { version_id: 1, downloads: 1, date: at(DAY) },
        ]
    );
}

#[test]
fn unknown_crate_or_version_is_not_counted() {
    let (mut conn, _) = setup(&["1.0.0"]);
    for (name, num) in [("bar", "1.0.0"), ("foo", "1.0.1"), ("foo", "1.0.0+x"), ("foo", "")] {
        let e = increment_download_counts(&mut conn, name, num, at(DAY)).unwrap_err();
        assert_eq!(e.kind, ErrorKind::CrateOrVersionNotFound);
        assert_eq!(e.message(), "crate or version not found");
    }
    assert!(conn.version_downloads.is_empty());
}

#[test]
fn full_counter_is_reported() {
    let (mut conn, _) = setup(&["1.0.0"]);
    increment_download_counts(&mut conn, "foo", "1.0.0", at(DAY)).unwrap();
    conn.version_downloads[0].downloads = i32::MAX;
    let e = increment_download_counts(&mut conn, "foo", "1.0.0", at(DAY)).unwrap_err();
    assert_eq!(e.kind, ErrorKind::Exhausted);
    assert_eq!(conn.version_downloads[0].downloads, i32::MAX);
}

#[test]
fn download_counts_and_hands_back_the_place() {
    let (mut conn, _) = setup(&["1.0.0"]);
    let url = download(&mut conn, "foo", "1.0.0", at(DAY), false, Some("https://s/foo".to_string()));
    assert_eq!(url.unwrap(), "https://s/foo");
    assert_eq!(conn.version_downloads.len(), 1);
}

#[test]
fn download_of_unknown_version_fails_unless_mirror() {
    let (mut conn, _) = setup(&["1.0.0"]);
    let e = download(&mut conn, "foo", "9.9.9", at(DAY), false, Some("u".to_string())).unwrap_err();
    assert_eq!(e.kind, ErrorKind::CrateOrVersionNotFound);
    let url = download(&mut conn, "foo", "9.9.9", at(DAY), true, Some("u".to_string())).unwrap();
    assert_eq!(url, "u");
    assert!(conn.version_downloads.is_empty());
}

#[test]
fn mirror_counts_when_it_can() {
    let (mut conn, _) = setup(&["1.0.0"]);
    download(&mut conn, "foo", "1.0.0", at(DAY), true, Some("u".to_string())).unwrap();
    assert_eq!(conn.version_downloads.len(), 1);
}

#[test]
fn download_without_a_place_fails_and_counts_nothing() {
    let (mut conn, _) = setup(&["1.0.0"]);
    let e = download(&mut conn, "foo", "1.0.0", at(DAY), false, None).unwrap_err();
    assert_eq!(e.kind, ErrorKind::FilesNotFound);
    assert_eq!(e.message(), "crate files not found");
    assert!(conn.version_downloads.is_empty());
    let e = download(&mut conn, "foo", "1.0.0", at(DAY), true, None).unwrap_err();
    assert_eq!(e.kind, ErrorKind::FilesNotFound);
    let e = download(&mut conn, "bar", "1.0.0", at(DAY), true, None).unwrap_err();
    assert_eq!(e.kind, ErrorKind::FilesNotFound);
    let e = download(&mut conn, "bar", "1.0.0", at(DAY), false, None).unwrap_err();
    assert_eq!(e.kind, ErrorKind::CrateOrVersionNotFound);
}

#[test]
fn report_shows_five_versions_and_sums_the_rest() {
    let nums = ["1.0.0", "2.0.0", "3.0.0", "4.0.0", "5.0.0", "6.0.0", "7.0.0"];
    let (mut conn, _) = setup(&nums);
    let bar = named("bar").create_or_update(&mut conn, None, 1, at(1)).unwrap();
    bar.add_version(&mut conn, "1.0.0", &vec![], &vec![], at(2)).unwrap();
    let now = at(200 * DAY);
    // the two oldest versions of foo are summed by day
    for _ in 0..3 {
        increment_download_counts(&mut conn, "foo", "1.0.0", at(150 * DAY + 10)).unwrap();
    }
    increment_download_counts(&mut conn, "foo", "2.0.0", at(150 * DAY + 20)).unwrap();
    increment_download_counts(&mut conn, "foo", "2.0.0", at(140 * DAY)).unwrap();
    // too old to count
    increment_download_counts(&mut conn, "foo", "1.0.0", at(100 * DAY)).unwrap();
    // the five greatest are shown counter by counter, oldest first
    increment_download_counts(&mut conn, "foo", "7.0.0", at(199 * DAY)).unwrap();
    increment_download_counts(&mut conn, "foo", "3.0.0", at(120 * DAY)).unwrap();
    increment_download_counts(&mut conn, "foo", "5.0.0", at(160 * DAY)).unwrap();
    increment_download_counts(&mut conn, "foo", "5.0.0", at(160 * DAY + 3)).unwrap();
    increment_download_counts(&mut conn, "foo", "3.0.0", at(109 * DAY)).unwrap();
    // another crate
    increment_download_counts(&mut conn, "bar", "1.0.0", at(150 * DAY)).unwrap();

    let report = downloads(&conn, "Foo", now).unwrap();
    assert_eq!(
        report.version_downloads,
        vec![
            VersionDownload { version_id: 3, downloads: 1, date: at(120 * DAY) },
            VersionDownload { version_id: 5, downloads: 2, date: at(160 * DAY) },
            VersionDownload { version_id: 7, downloads: 1, date: at(199 * DAY) },
        ]
    );
    assert_eq!(
        report.extra_downloads,
        vec![
            ExtraDownload { day: 140, downloads: 1 },
            ExtraDownload { day: 150, downloads: 4 },
        ]
    );
    assert_eq!(downloads(&conn, "nope", now).unwrap_err().kind, ErrorKind::NotFound);
}

#[test]
fn report_cuts_off_ninety_days_back_to_the_nanosecond() {
    let (mut conn, _) = setup(&["1.0.0"]);
    let now = Timestamp::new(100 * DAY, 500).unwrap();
    conn.version_downloads.push(VersionDownload {
        version_id: 1,
        downloads: 4,
        date: Timestamp::new(10 * DAY, 500).unwrap(),
    });
    assert!(downloads(&conn, "foo", now).unwrap().version_downloads.is_empty());
    conn.version_downloads[0].date = Timestamp::new(10 * DAY, 501).unwrap();
    assert_eq!(downloads(&conn, "foo", now).unwrap().version_downloads.len(), 1);
}

#[test]
fn report_of_an_early_moment_reaches_back_before_1970() {
    let (mut conn, _) = setup(&["1.0.0"]);
    increment_download_counts(&mut conn, "foo", "1.0.0", at(0)).unwrap();
    let report = downloads(&conn, "foo", at(5)).unwrap();
    assert_eq!(report.version_downloads.len(), 1);
    assert!(report.extra_downloads.is_empty());
}
