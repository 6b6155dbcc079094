use air_workspace::commands::{
    asis_stdin, check_path, format_stdin, format_stdin_check, is_stdin_formattable, stdin_action,
    stdin_output, FormattedSource, FormattedStdin, StdinAction,
};
use air_workspace::discovery::{visit_format, Exclude, Include, VisitAction};
use air_workspace::path::FsPath;
use air_workspace::resolve::PathResolver;
use air_workspace::settings::{ExcludePatterns, Settings};

#[test]
fn stdin_test_default_includes_respected_for_directly_supplied_paths() {
    let tempdir = FsPath::new("/tmp/air-test");
    let test_big_r = tempdir.join("test1.R");
    let test_little_r = tempdir.join("test2.r");
    let test_qmd = tempdir.join("test3.qmd");

    let settings = Settings::default();
    let exclude = Exclude::Matched;
    let inclusion = Include::Matched;

    assert!(is_stdin_formattable(&test_big_r, &settings, exclude, inclusion));
    assert!(is_stdin_formattable(&test_little_r, &settings, exclude, inclusion));
    assert!(!is_stdin_formattable(&test_qmd, &settings, exclude, inclusion));
}

#[test]
fn test_default_excludes_respected_for_directly_supplied_paths() {
    let tempdir = FsPath::new("/tmp/air-test");
    let settings = Settings::default();
    let exclude = Exclude::Matched;
    let inclusion = Include::Matched;

    let start = tempdir.join("R").join("cpp11.R");
    assert!(!is_stdin_formattable(&start, &settings, exclude, inclusion));

    let start = tempdir.join("renv").join("activate.R");
    assert!(!is_stdin_formattable(&start, &settings, exclude, inclusion));
}

#[test]
fn stdin_test_exclude_nothing_allows_default_excluded_files() {
    let tempdir = FsPath::new("/tmp/air-test");
    let settings = Settings::default();
    let exclude = Exclude::Nothing;
    let inclusion = Include::Matched;

    let start = tempdir.join("R").join("cpp11.R");
    assert!(is_stdin_formattable(&start, &settings, exclude, inclusion));

    let start = tempdir.join("renv").join("activate.R");
    assert!(is_stdin_formattable(&start, &settings, exclude, inclusion));
}

#[test]
fn stdin_test_include_everything_allows_non_r_files() {
    let tempdir = FsPath::new("/tmp/air-test");
    let test_qmd = tempdir.join("test.qmd");

    let settings = Settings::default();
    let exclude = Exclude::Matched;
    let inclusion = Include::Everything;

    assert!(is_stdin_formattable(&test_qmd, &settings, exclude, inclusion));
}

// Stdin and directly supplied files follow the same rules.
#[test]
fn stdin_agrees_with_directly_supplied_files() {
    let resolver: PathResolver<Settings> = PathResolver::new();
    let settings = Settings::default();
    for name in ["/p/R/a.R", "/p/R/cpp11.R", "/p/renv/activate.R", "/p/a.qmd", "/p/b.r"] {
        let path = FsPath::new(name);
        for exclude in [Exclude::Matched, Exclude::Nothing] {
            for inclusion in [Include::Matched, Include::Everything] {
                let stdin = is_stdin_formattable(&path, &settings, exclude, inclusion);
                let visit = visit_format(&path, true, false, &resolver, &settings, exclude, inclusion);
                assert_eq!(stdin, visit == VisitAction::Accept, "{name}");
            }
        }
    }
}

// A project `air.toml`'s settings apply to stdin for files under its directory.
#[test]
fn stdin_action_uses_closest_settings() {
    let mut resolver: PathResolver<Settings> = PathResolver::new();
    let mut project = Settings::default();
    project.format.exclude =
        Some(ExcludePatterns::try_from_iter(Some(&FsPath::new("/p")), vec!["skip/"]).unwrap());
    resolver.add(FsPath::new("/p"), project);
    let defaults = Settings::default();

    let action = stdin_action(
        &FsPath::new("/p/skip/a.R"),
        &resolver,
        &defaults,
        Exclude::Matched,
        Include::Matched,
    );
    assert!(matches!(action, StdinAction::PassThrough));

    let action = stdin_action(
        &FsPath::new("/elsewhere/skip/a.R"),
        &resolver,
        &defaults,
        Exclude::Matched,
        Include::Matched,
    );
    assert!(matches!(action, StdinAction::Format(_)));
}

// What stdin turns into after formatting, and what is reported.
#[test]
fn stdin_outcomes() {
    let changed = format_stdin(String::from("1+1"), FormattedSource::Changed(String::from("1 + 1")));
    assert_eq!(changed, FormattedStdin::Changed(String::from("1 + 1")));
    assert_eq!(stdin_output(changed), "1 + 1");

    let unchanged = format_stdin(String::from("1 + 1"), FormattedSource::Unchanged);
    assert_eq!(unchanged, FormattedStdin::Unchanged(String::from("1 + 1")));

    let asis = asis_stdin(String::from("x"));
    assert_eq!(asis, FormattedStdin::Unchanged(String::from("x")));
    assert_eq!(stdin_output(asis), "x");
}

#[test]
fn check_path_reports_changed_files() {
    let path = FsPath::new("/p/a.R");
    assert_eq!(
        check_path(&path, FormattedSource::Changed(String::from("x"))),
        Some(FsPath::new("/p/a.R"))
    );
    assert_eq!(check_path(&path, FormattedSource::Unchanged), None);
}

// The stdin check reads and formats stdin only when the path is formattable, and
// reports whether it changed.
#[test]
fn stdin_check_reports_change_of_formattable_paths() {
    let resolver: PathResolver<Settings> = PathResolver::new();
    let defaults = Settings::default();
    let r_file = FsPath::new("/p/R/a.R");

    let changed = format_stdin_check(&r_file, &resolver, &defaults, Exclude::Matched, Include::Matched, |_: &Settings| {
        Ok::<_, String>(format_stdin(String::from("1+1"), FormattedSource::Changed(String::from("1 + 1"))))
    });
    assert_eq!(changed, Ok(true));

    let unchanged = format_stdin_check(&r_file, &resolver, &defaults, Exclude::Matched, Include::Matched, |_: &Settings| {
        Ok::<_, String>(format_stdin(String::from("1 + 1"), FormattedSource::Unchanged))
    });
    assert_eq!(unchanged, Ok(false));

    let failed = format_stdin_check(&r_file, &resolver, &defaults, Exclude::Matched, Include::Matched, |_: &Settings| {
        Err::<FormattedStdin, _>(String::from("unreadable"))
    });
    assert_eq!(failed, Err(String::from("unreadable")));

    // Excluded by default: stdin is never read
    let excluded = FsPath::new("/p/renv/activate.R");
    let skipped = format_stdin_check(&excluded, &resolver, &defaults, Exclude::Matched, Include::Matched, |_: &Settings| -> Result<FormattedStdin, String> {
        panic!("stdin must not be read")
    });
    assert_eq!(skipped, Ok(false));
}
