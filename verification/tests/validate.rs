use crate_registry::errors::{ErrorKind, UrlField};
use crate_registry::model::NewCrate;
use crate_registry::foreign::UrlParts;
use crate_registry::validate::{judge_url, validate_license_text, validate_url};

fn blank(name: &str) -> NewCrate<'_> {
    NewCrate {
        name,
        description: None,
        homepage: None,
        documentation: None,
        readme: None,
        repository: None,
        license: None,
        max_upload_size: None,
    }
}

#[test]
fn absent_url_is_in_order() {
    assert!(validate_url(None, UrlField::Homepage).is_ok());
}

#[test]
fn http_and_https_urls_are_in_order() {
    assert!(validate_url(Some("http://example.com"), UrlField::Homepage).is_ok());
    assert!(validate_url(Some("https://example.com/a/b?c=d"), UrlField::Documentation).is_ok());
}

#[test]
fn text_that_is_no_url_is_refused() {
    let e = validate_url(Some("not a url"), UrlField::Homepage).unwrap_err();
    assert_eq!(e.kind, ErrorKind::UrlInvalid(UrlField::Homepage));
    assert_eq!(e.detail, "not a url");
    assert_eq!(e.message(), "`homepage` is not a valid url: `not a url`");
}

#[test]
fn relative_url_is_refused() {
    let e = validate_url(Some("/just/a/path"), UrlField::Repository).unwrap_err();
    assert_eq!(e.kind, ErrorKind::UrlInvalid(UrlField::Repository));
}

#[test]
fn other_schemes_are_refused() {
    let e = validate_url(Some("ftp://example.com"), UrlField::Documentation).unwrap_err();
    assert_eq!(e.kind, ErrorKind::UrlScheme(UrlField::Documentation));
    assert_eq!(e.detail, "ftp");
    assert_eq!(e.message(), "`documentation` has an invalid url scheme: `ftp`");
}

#[test]
fn scheme_is_judged_before_the_base() {
    let e = validate_url(Some("mailto:someone@example.com"), UrlField::Homepage).unwrap_err();
    assert_eq!(e.kind, ErrorKind::UrlScheme(UrlField::Homepage));
    assert_eq!(e.detail, "mailto");
}

#[test]
fn known_licenses_pass() {
    assert!(validate_license_text("MIT").is_ok());
    assert!(validate_license_text("MIT/Apache-2.0").is_ok());
    assert!(validate_license_text("MIT OR Apache-2.0").is_ok());
    assert!(validate_license_text("MIT+").is_ok());
}

#[test]
fn unknown_license_is_refused() {
    let e = validate_license_text("NOT-A-LICENSE").unwrap_err();
    assert_eq!(e.kind, ErrorKind::License);
    assert_eq!(e.detail, "unknown license or other term: NOT-A-LICENSE");
    assert_eq!(
        e.message(),
        "unknown license or other term: NOT-A-LICENSE; see http://opensource.org/licenses for \
         options, and http://spdx.org/licenses/ for their identifiers"
    );
}

#[test]
fn each_part_of_a_license_is_checked() {
    let e = validate_license_text("MIT/NOT-A-LICENSE").unwrap_err();
    assert_eq!(e.kind, ErrorKind::License);
    assert_eq!(e.detail, "unknown license or other term: NOT-A-LICENSE");
    let e = validate_license_text("BOGUS/MIT").unwrap_err();
    assert_eq!(e.detail, "unknown license or other term: BOGUS");
}

#[test]
fn first_bad_part_is_reported() {
    let e = validate_license_text("MIT/FIRST-BAD/SECOND-BAD").unwrap_err();
    assert_eq!(e.detail, "unknown license or other term: FIRST-BAD");
}

#[test]
fn badly_built_license_is_refused() {
    let e = validate_license_text("MIT MIT").unwrap_err();
    assert_eq!(e.kind, ErrorKind::License);
    assert_eq!(e.detail, "invalid license expression: MIT");
}

#[test]
fn license_file_without_license_is_non_standard() {
    let mut new = blank("foo");
    assert!(new.validate(Some("LICENSE.txt")).is_ok());
    assert_eq!(new.license, Some("non-standard"));
}

#[test]
fn license_is_kept_beside_a_license_file() {
    let mut new = blank("foo");
    new.license = Some("MIT");
    assert!(new.validate(Some("LICENSE.txt")).is_ok());
    assert_eq!(new.license, Some("MIT"));
}

#[test]
fn no_license_and_no_file_stores_none() {
    let mut new = blank("foo");
    assert!(new.validate(None).is_ok());
    assert_eq!(new.license, None);
}

#[test]
fn links_are_checked_in_order() {
    let mut new = blank("foo");
    new.homepage = Some("ftp://a");
    new.documentation = Some("nope");
    new.license = Some("NOT-A-LICENSE");
    let e = new.validate(None).unwrap_err();
    assert_eq!(e.kind, ErrorKind::UrlScheme(UrlField::Homepage));
    new.homepage = Some("http://a");
    let e = new.validate(None).unwrap_err();
    assert_eq!(e.kind, ErrorKind::UrlInvalid(UrlField::Documentation));
    new.documentation = None;
    new.repository = Some("gopher://x");
    let e = new.validate(None).unwrap_err();
    assert_eq!(e.kind, ErrorKind::UrlScheme(UrlField::Repository));
    new.repository = None;
    let e = new.validate(None).unwrap_err();
    assert_eq!(e.kind, ErrorKind::License);
}

#[test]
fn url_that_cannot_be_a_base_is_refused() {
    let parts = Some(UrlParts { scheme: "https".to_string(), cannot_be_a_base: true });
    let e = judge_url(&parts, "https:opaque", UrlField::Homepage).unwrap_err();
    assert_eq!(e.kind, ErrorKind::UrlNotHierarchical(UrlField::Homepage));
    assert_eq!(e.detail, "https:opaque");
    assert_eq!(e.message(), "`homepage` must have relative scheme data: https:opaque");
    let parts = Some(UrlParts { scheme: "http".to_string(), cannot_be_a_base: false });
    assert!(judge_url(&parts, "http://a", UrlField::Homepage).is_ok());
    let parts = Some(UrlParts { scheme: "data".to_string(), cannot_be_a_base: true });
    let e = judge_url(&parts, "data:x", UrlField::Repository).unwrap_err();
    assert_eq!(e.kind, ErrorKind::UrlScheme(UrlField::Repository));
    let e = judge_url(&None, "zzz", UrlField::Documentation).unwrap_err();
    assert_eq!(e.kind, ErrorKind::UrlInvalid(UrlField::Documentation));
    assert_eq!(e.detail, "zzz");
}
