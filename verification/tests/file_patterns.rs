use air_workspace::file_patterns::{
    err_rooted, is_unrooted, strip_dot_slash_str, stripped_is_relative, PatternError,
    RootedFilePatterns, UnrootedFilePatterns,
};
use air_workspace::path::FsPath;

fn from_str(root: &str, pattern: &str) -> RootedFilePatterns {
    let patterns = vec![pattern];
    RootedFilePatterns::try_from_iter(&FsPath::new(root), patterns).unwrap()
}

fn ignored(root: &str, pattern: &str, path: &str, is_dir: bool) {
    let ignore = from_str(root, pattern);
    assert!(
        ignore.matched(&FsPath::new(path), is_dir).is_some(),
        "{pattern} should match {path}"
    );
}

fn not_ignored(root: &str, pattern: &str, path: &str, is_dir: bool) {
    let ignore = from_str(root, pattern);
    assert!(
        ignore.matched(&FsPath::new(path), is_dir).is_none(),
        "{pattern} should not match {path}"
    );
}

// These tests confirm behavior that we expect to get from `Gitignore`
#[test]
fn test_expected_gitignore_behavior() {
    let root = "path/to/root";

    let pattern = "renv";
    ignored(root, pattern, "renv", true);
    ignored(root, pattern, "subdir/renv", true);
    ignored(root, pattern, "renv", false);
    not_ignored(root, pattern, "renv/activate.R", false);

    let pattern = "renv/";
    ignored(root, pattern, "renv", true);
    ignored(root, pattern, "subdir/renv", true);
    not_ignored(root, pattern, "renv", false);
    not_ignored(root, pattern, "renv/activate.R", false);

    let pattern = "/renv/";
    ignored(root, pattern, "renv", true);
    not_ignored(root, pattern, "subdir/renv", true);

    let pattern = "renv/*";
    not_ignored(root, pattern, "renv", true);
    ignored(root, pattern, "renv/", true);
    ignored(root, pattern, "renv/activate.R", false);
    not_ignored(root, pattern, "subdir/renv", true);
    ignored(root, pattern, "renv/subdir", true);
    not_ignored(root, pattern, "renv/subdir/activate.R", false);
    not_ignored(root, pattern, "renv/subdir/python.py", false);

    let pattern = "renv/**";
    not_ignored(root, pattern, "renv", true);
    ignored(root, pattern, "renv/", true);
    ignored(root, pattern, "renv/activate.R", false);
    not_ignored(root, pattern, "subdir/renv", true);
    ignored(root, pattern, "renv/subdir", true);
    ignored(root, pattern, "renv/subdir/activate.R", false);
    ignored(root, pattern, "renv/subdir/python.py", false);

    let pattern = "renv/*.R";
    ignored(root, pattern, "renv/activate.R", false);
    not_ignored(root, pattern, "foo/renv/activate.R", false);
    not_ignored(root, pattern, "renv/subdir/activate.R", false);

    let pattern = "renv/**/*.R";
    ignored(root, pattern, "renv/activate.R", false);
    not_ignored(root, pattern, "foo/renv/activate.R", false);
    ignored(root, pattern, "renv/subdir/activate.R", false);

    let pattern = "**/renv/**/*.R";
    ignored(root, pattern, "renv/activate.R", false);
    ignored(root, pattern, "foo/renv/activate.R", false);
    ignored(root, pattern, "renv/subdir/activate.R", false);

    let pattern = "cpp11.R";
    ignored(root, pattern, "cpp11.R", false);
    ignored(root, pattern, "renv/cpp11.R", false);

    let pattern = "/cpp11.R";
    ignored(root, pattern, "cpp11.R", false);
    not_ignored(root, pattern, "renv/cpp11.R", false);

    let pattern = "import-standalone-*.R";
    ignored(root, pattern, "import-standalone-types.R", false);
    ignored(root, pattern, "import-standalone-type-check.R", false);
    ignored(root, pattern, "R/import-standalone-type-check.R", false);
}

#[test]
fn test_unrooted_file_pattern_works_with_rooted_paths() {
    let patterns = UnrootedFilePatterns::try_from_iter(vec!["**/cpp11.R"]).unwrap();

    assert!(patterns
        .matched_path_or_any_parents(&FsPath::new("/etc/cpp11.R"), false)
        .is_some());

    assert!(patterns
        .matched_path_or_any_parents(&FsPath::new("C:/etc/cpp11.R"), false)
        .is_some());

    let patterns = UnrootedFilePatterns::try_from_iter(vec!["renv/"]).unwrap();
    assert!(patterns
        .matched_path_or_any_parents(&FsPath::new("/etc/renv"), true)
        .is_some());
}

fn rooted_message(pattern: &str, implied: &str) -> String {
    format!(
        "Pattern `{pattern}` must be unrooted. It is currently a rooted pattern implying `{implied}`.
- Unrooted patterns start with `**/` and match at any depth. For convenience, simple patterns like `foo.R` and `folder/` are also considered to be unrooted.
- Rooted patterns contain a leading or interior `/`, like `/foo.R` or `R/foo.R`, and imply `{{root}}/foo.R` or `{{root}}/R/foo.R`, which can't be resolved by a user level `air.toml`."
    )
}

#[test]
fn test_unrooted_file_pattern_rejects_rooted_patterns() {
    let error = UnrootedFilePatterns::try_from_iter(vec!["/foo.R"]).unwrap_err();
    match error {
        PatternError::Rooted { pattern, message } => {
            assert_eq!(pattern, "/foo.R");
            assert_eq!(message, rooted_message("/foo.R", "{root}/foo.R"));
        }
        PatternError::Glob(_) => panic!("expected a rooted pattern error"),
    }
    let error = UnrootedFilePatterns::try_from_iter(vec!["foo/bar.R"]).unwrap_err();
    match error {
        PatternError::Rooted { pattern, message } => {
            assert_eq!(pattern, "foo/bar.R");
            assert_eq!(message, rooted_message("foo/bar.R", "{root}/foo/bar.R"));
        }
        PatternError::Glob(_) => panic!("expected a rooted pattern error"),
    }
}

#[test]
fn test_is_unrooted() {
    assert!(is_unrooted("**/foo.R"));
    assert!(is_unrooted("**/customfolder/"));
    assert!(is_unrooted("**/renv/**/*.R"));

    assert!(is_unrooted("foo.R"));
    assert!(is_unrooted("customfolder/"));
    assert!(is_unrooted("import-standalone-*.R"));

    assert!(is_unrooted("!foo.R"));
    assert!(is_unrooted("!**/foo.R"));

    assert!(!is_unrooted("/foo.R"));
    assert!(!is_unrooted("foo/bar.R"));
    assert!(!is_unrooted("foo/**/bar.R"));
    assert!(!is_unrooted("/customfolder/"));
    assert!(!is_unrooted("!foo/bar.R"));
    assert!(!is_unrooted("/**/foo"));
}

// A rooted pattern error names the pattern and the rooted path it implies.
#[test]
fn err_rooted_message_names_the_implied_path() {
    match err_rooted("R/foo.R") {
        PatternError::Rooted { pattern, message } => {
            assert_eq!(pattern, "R/foo.R");
            assert_eq!(message, rooted_message("R/foo.R", "{root}/R/foo.R"));
        }
        PatternError::Glob(_) => panic!("expected a rooted pattern error"),
    }
}

// A pattern whose glob does not parse is a glob error.
#[test]
fn invalid_glob_is_a_glob_error() {
    let error = UnrootedFilePatterns::try_from_iter(vec!["**/{a"]).unwrap_err();
    assert!(matches!(error, PatternError::Glob(_)));
    let error = RootedFilePatterns::try_from_iter(&FsPath::new("root"), vec!["{a"]).unwrap_err();
    assert!(matches!(error, PatternError::Glob(_)));
}

// A rooted pattern is checked before a later pattern's glob.
#[test]
fn first_unusable_pattern_decides_the_error() {
    let error = UnrootedFilePatterns::try_from_iter(vec!["ok.R", "a/b.R", "**/{a"]).unwrap_err();
    assert!(matches!(error, PatternError::Rooted { .. }));
}

// Whitelisted paths count as not matched.
#[test]
fn whitelist_counts_as_not_matched() {
    let patterns =
        RootedFilePatterns::try_from_iter(&FsPath::new("root"), vec!["*.R", "!keep.R"]).unwrap();
    assert!(patterns.matched(&FsPath::new("drop.R"), false).is_some());
    assert!(patterns.matched(&FsPath::new("keep.R"), false).is_none());
}

// A rooted matcher finds globs matching a parent under its root.
#[test]
fn rooted_matched_path_or_any_parents() {
    let patterns =
        RootedFilePatterns::try_from_iter(&FsPath::new("/project"), vec!["exclude/"]).unwrap();
    assert_eq!(
        patterns.matched_path_or_any_parents(&FsPath::new("/project/exclude/test.R"), false),
        Some(String::from("exclude/"))
    );
    assert!(patterns
        .matched_path_or_any_parents(&FsPath::new("/project/keep/test.R"), false)
        .is_none());
}

// Which paths the parents of can be matched: those that, with the root stripped as
// the `ignore` crate strips it, are relative; any path when there is no glob.
#[test]
fn parents_can_be_matched_under_the_root() {
    let patterns = from_str("foo", "x.R");
    assert!(patterns.can_match_parents(&FsPath::new("foo/x.R")));
    assert!(patterns.can_match_parents(&FsPath::new("./foo/x.R")));
    assert!(patterns.can_match_parents(&FsPath::new("x.R")));
    assert!(!patterns.can_match_parents(&FsPath::new("foo//x.R")));
    assert!(!patterns.can_match_parents(&FsPath::new("/etc/x.R")));
    assert_eq!(
        patterns.matched_path_or_any_parents(&FsPath::new("foo/x.R"), false),
        Some(String::from("x.R"))
    );

    let rooted = from_str("/project", "exclude/");
    assert!(rooted.can_match_parents(&FsPath::new("/project/a/b.R")));
    assert!(!rooted.can_match_parents(&FsPath::new("/elsewhere/b.R")));

    // No glob at all: every path can be asked about, and nothing matches
    let empty = RootedFilePatterns::try_from_iter(&FsPath::new("/project"), vec![]).unwrap();
    assert!(empty.can_match_parents(&FsPath::new("/elsewhere/b.R")));
    assert!(empty.matched_path_or_any_parents(&FsPath::new("/elsewhere/b.R"), false).is_none());
    let comments = RootedFilePatterns::try_from_iter(&FsPath::new("/project"), vec!["# note", "  "]).unwrap();
    assert!(comments.can_match_parents(&FsPath::new("//elsewhere")));
    assert!(comments.matched_path_or_any_parents(&FsPath::new("//elsewhere"), true).is_none());
}

#[test]
fn stripping_follows_the_ignore_crate() {
    assert_eq!(strip_dot_slash_str("./a/b"), "a/b");
    assert_eq!(strip_dot_slash_str("../a"), "../a");
    assert!(stripped_is_relative("/p", "/p/a"));
    assert!(!stripped_is_relative("/p", "/p//a"));
    assert!(!stripped_is_relative(".", "/p/a"));
    assert!(stripped_is_relative("", "/a"));
    assert!(!stripped_is_relative("", "//a"));
    assert!(!stripped_is_relative("/p", "/q"));
    assert!(stripped_is_relative("a", "a/b"));
}

// Parents are matched on their own text, as `Path::parent` gives it, so a doubled
// separator in the path stays in the parent.
#[test]
fn unrooted_parents_keep_their_text() {
    let patterns = UnrootedFilePatterns::try_from_iter(vec!["**/a/b/"]).unwrap();
    assert!(patterns
        .matched_path_or_any_parents(&FsPath::new("/x/a//b/c.R"), false)
        .is_none());
    assert_eq!(
        patterns.matched_path_or_any_parents(&FsPath::new("/x/a/b/c.R"), false),
        Some(String::from("**/a/b/"))
    );
}
