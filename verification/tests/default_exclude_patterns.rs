use air_workspace::file_patterns::is_unrooted;
use air_workspace::path::FsPath;
use air_workspace::settings::{
    default_exclude_pattern_names, default_include_pattern_names, DefaultExcludePatterns,
    DefaultIncludePatterns, ExcludePatterns,
};

#[test]
fn test_doublestar_default_patterns() {
    for pattern in default_exclude_pattern_names() {
        assert!(pattern.starts_with("**/"));
    }
}

#[test]
fn test_default_exclude() {
    let default_patterns = DefaultExcludePatterns::default();

    assert!(default_patterns.matched(&FsPath::new("renv"), true).is_some());
    assert!(default_patterns.matched(&FsPath::new("renv"), false).is_none());
    assert!(default_patterns
        .matched_path_or_any_parents(&FsPath::new("renv/activate.R"), false)
        .is_some());

    assert!(default_patterns.matched(&FsPath::new("cpp11.R"), false).is_some());
    assert!(default_patterns.matched(&FsPath::new("foo/cpp11.R"), false).is_some());

    assert!(default_patterns
        .matched(&FsPath::new("import-standalone-types-check.R"), false)
        .is_some());
    assert!(default_patterns
        .matched(&FsPath::new("R/import-standalone-foo.R"), false)
        .is_some());
    assert!(default_patterns
        .matched(&FsPath::new("pkg/R/import-standalone-foo.R"), false)
        .is_some());
}

// All default patterns are unrooted, so they can back settings with no root.
#[test]
fn default_patterns_are_unrooted() {
    for pattern in default_exclude_pattern_names() {
        assert!(is_unrooted(pattern));
    }
    for pattern in default_include_pattern_names() {
        assert!(is_unrooted(pattern));
    }
}

// The default includes accept R files with either extension case, and nothing else.
#[test]
fn default_include_accepts_r_files() {
    let inclusion = DefaultIncludePatterns::default();
    assert!(inclusion.matched(&FsPath::new("/tmp/test1.R"), false).is_some());
    assert!(inclusion.matched(&FsPath::new("/tmp/test2.r"), false).is_some());
    assert!(inclusion.matched(&FsPath::new("/tmp/test3.qmd"), false).is_none());
}

// The default excludes name the glob that matched.
#[test]
fn default_exclude_names_the_glob() {
    let default_patterns = DefaultExcludePatterns::default();
    assert_eq!(
        default_patterns.matched(&FsPath::new("/p/R/RcppExports.R"), false),
        Some(String::from("**/RcppExports.R"))
    );
    assert_eq!(
        default_patterns.matched_path_or_any_parents(&FsPath::new("/p/revdep/pkg/foo.R"), false),
        Some(String::from("**/revdep/"))
    );
    assert!(default_patterns
        .matched_path_or_any_parents(&FsPath::new("/p/R/test.R"), false)
        .is_none());
}

// Exclude patterns are rooted at a directory when there is one, and must be
// unrooted when there is none.
#[test]
fn exclude_patterns_rooted_or_not() {
    let rooted = ExcludePatterns::try_from_iter(Some(&FsPath::new("/p")), vec!["src/foo.R"]).unwrap();
    assert!(matches!(rooted, ExcludePatterns::Rooted(_)));
    assert!(rooted.matched(&FsPath::new("/p/src/foo.R"), false).is_some());
    assert!(rooted.matched(&FsPath::new("/p/other/src/foo.R"), false).is_none());

    assert!(ExcludePatterns::try_from_iter(None, vec!["src/foo.R"]).is_err());
    let unrooted = ExcludePatterns::try_from_iter(None, vec!["foo/"]).unwrap();
    assert!(matches!(unrooted, ExcludePatterns::Unrooted(_)));
    assert!(unrooted
        .matched_path_or_any_parents(&FsPath::new("/any/where/foo/a.R"), false)
        .is_some());
}
