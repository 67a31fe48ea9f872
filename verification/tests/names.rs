use crate_registry::model::Crate;
use crate_registry::names::{canon_crate_name, canon_eq};

#[test]
fn canonical_form_folds_case_and_hyphens() {
    assert_eq!(canon_crate_name("Foo-Bar"), "foo_bar");
    assert_eq!(canon_crate_name("foo_bar"), "foo_bar");
    assert_eq!(canon_crate_name("FOO_BAR"), "foo_bar");
    assert_eq!(canon_crate_name(""), "");
    assert_eq!(canon_crate_name("serde2"), "serde2");
}

#[test]
fn canonical_form_leaves_other_characters() {
    assert_eq!(canon_crate_name("a.b/c:d"), "a.b/c:d");
    assert_eq!(canon_crate_name("É-é"), "É_é");
}

#[test]
fn names_in_one_slot_compare_equal() {
    assert!(canon_eq("Foo-Bar", "foo_bar"));
    assert!(canon_eq("foo-bar", "FOO-BAR"));
    assert!(!canon_eq("foo-bar", "foobar"));
    assert!(!canon_eq("foo", "fo"));
}

#[test]
fn valid_names() {
    assert!(Crate::valid_name("foo"));
    assert!(Crate::valid_name("Foo-bar_9"));
    assert!(Crate::valid_name("a"));
}

#[test]
fn invalid_names() {
    assert!(!Crate::valid_name(""));
    assert!(!Crate::valid_name("9foo"));
    assert!(!Crate::valid_name("_foo"));
    assert!(!Crate::valid_name("-foo"));
    assert!(!Crate::valid_name("foo bar"));
    assert!(!Crate::valid_name("foo/bar"));
    assert!(!Crate::valid_name("föö"));
    assert!(!Crate::valid_name("éfoo"));
}

#[test]
fn valid_feature_names() {
    assert!(Crate::valid_feature_name("foo"));
    assert!(Crate::valid_feature_name("foo/bar"));
    assert!(Crate::valid_feature_name("a-b/c_d"));
}

#[test]
fn invalid_feature_names() {
    assert!(!Crate::valid_feature_name(""));
    assert!(!Crate::valid_feature_name("/"));
    assert!(!Crate::valid_feature_name("foo/"));
    assert!(!Crate::valid_feature_name("/bar"));
    assert!(!Crate::valid_feature_name("foo/bar/baz"));
    assert!(!Crate::valid_feature_name("foo/9bar"));
    assert!(!Crate::valid_feature_name("9foo/bar"));
}
