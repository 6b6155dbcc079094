use air_workspace::discovery::{
    any_exclude_matched_path, any_exclude_matched_path_or_any_parents, any_include_matched_path,
    air_toml_in_directory, settings_for_path, visit_format, DiscoveredSettings, Exclude, Include, Mode,
    SettingsDiscovery, VisitAction,
};
use air_workspace::path::FsPath;
use air_workspace::resolve::PathResolver;
use air_workspace::settings::{ExcludePatterns, Settings};

fn visit(
    path: &str,
    direct: bool,
    is_dir: bool,
    resolver: &PathResolver<Settings>,
    exclude: Exclude,
    inclusion: Include,
) -> VisitAction {
    let defaults = Settings::default();
    visit_format(&FsPath::new(path), direct, is_dir, resolver, &defaults, exclude, inclusion)
}

// Mirrors the walk over a package with default excluded folders and files.
#[test]
fn default_exclude_decisions() {
    let resolver = PathResolver::new();
    let m = Exclude::Matched;
    let i = Include::Matched;
    assert_eq!(visit("/t", true, true, &resolver, m, i), VisitAction::Continue);
    assert_eq!(visit("/t/R", false, true, &resolver, m, i), VisitAction::Continue);
    assert_eq!(visit("/t/R/test.R", false, false, &resolver, m, i), VisitAction::Accept);
    assert_eq!(visit("/t/renv", false, true, &resolver, m, i), VisitAction::Skip);
    assert_eq!(visit("/t/revdep", false, true, &resolver, m, i), VisitAction::Skip);
    assert_eq!(visit("/t/R/cpp11.R", false, false, &resolver, m, i), VisitAction::Skip);
    assert_eq!(visit("/t/R/RcppExports.R", false, false, &resolver, m, i), VisitAction::Skip);
    assert_eq!(visit("/t/R/extendr-wrappers.R", false, false, &resolver, m, i), VisitAction::Skip);
    assert_eq!(
        visit("/t/R/import-standalone-types.R", false, false, &resolver, m, i),
        VisitAction::Skip
    );
    // Directly supplied files and folders are excluded through their parents too
    assert_eq!(visit("/t/R/cpp11.R", true, false, &resolver, m, i), VisitAction::Skip);
    assert_eq!(visit("/t/renv", true, true, &resolver, m, i), VisitAction::Skip);
    assert_eq!(visit("/t/renv/activate.R", true, false, &resolver, m, i), VisitAction::Skip);
    assert_eq!(visit("/t/renv/subdir", true, true, &resolver, m, i), VisitAction::Skip);
}

// Only files matching a default inclusion are accepted, even when supplied directly.
#[test]
fn default_include_decisions() {
    let resolver = PathResolver::new();
    let m = Exclude::Matched;
    let i = Include::Matched;
    assert_eq!(visit("/t/test1.R", true, false, &resolver, m, i), VisitAction::Accept);
    assert_eq!(visit("/t/test2.r", true, false, &resolver, m, i), VisitAction::Accept);
    assert_eq!(visit("/t/test3.qmd", true, false, &resolver, m, i), VisitAction::Continue);
    assert_eq!(visit("/t/test.py", false, false, &resolver, m, i), VisitAction::Continue);
}

// `Exclude::Nothing` and `Include::Everything` bypass the rules.
#[test]
fn bypass_decisions() {
    let resolver = PathResolver::new();
    assert_eq!(
        visit("/t/R/cpp11.R", true, false, &resolver, Exclude::Nothing, Include::Matched),
        VisitAction::Accept
    );
    assert_eq!(
        visit("/t/vignettes/test.qmd", false, false, &resolver, Exclude::Nothing, Include::Matched),
        VisitAction::Continue
    );
    assert_eq!(
        visit("/t/test.qmd", true, false, &resolver, Exclude::Matched, Include::Everything),
        VisitAction::Accept
    );
    assert_eq!(
        visit("/t/R/cpp11.R", false, false, &resolver, Exclude::Matched, Include::Everything),
        VisitAction::Skip
    );
}

fn project_resolver() -> PathResolver<Settings> {
    let mut settings = Settings::default();
    settings.format.exclude =
        Some(ExcludePatterns::try_from_iter(Some(&FsPath::new("/t")), vec!["exclude/"]).unwrap());
    let mut resolver = PathResolver::new();
    resolver.add(FsPath::new("/t"), settings);
    resolver
}

// User `exclude` patterns of a project `air.toml` apply under its directory.
#[test]
fn user_exclude_decisions() {
    let resolver = project_resolver();
    let m = Exclude::Matched;
    let i = Include::Matched;
    assert_eq!(visit("/t/exclude", false, true, &resolver, m, i), VisitAction::Skip);
    assert_eq!(visit("/t/exclude", true, true, &resolver, m, i), VisitAction::Skip);
    assert_eq!(visit("/t/exclude/test.R", true, false, &resolver, m, i), VisitAction::Skip);
    assert_eq!(visit("/t/exclude/subdir", true, true, &resolver, m, i), VisitAction::Skip);
    assert_eq!(visit("/t/keep/test.R", true, false, &resolver, m, i), VisitAction::Accept);
    // Outside the project, its patterns do not apply
    assert_eq!(visit("/u/exclude/test.R", true, false, &resolver, m, i), VisitAction::Accept);
}

#[test]
fn settings_for_path_picks_closest_directory() {
    let resolver = project_resolver();
    let defaults = Settings::default();
    let inside = settings_for_path(&resolver, &defaults, &FsPath::new("/t/a.R"));
    assert!(inside.format.exclude.is_some());
    let outside = settings_for_path(&resolver, &defaults, &FsPath::new("/u/a.R"));
    assert!(outside.format.exclude.is_none());
}

#[test]
fn any_matched_helpers() {
    let settings = Settings::default();
    let path = FsPath::new("renv/activate.R");
    assert!(any_exclude_matched_path(
        &path,
        false,
        settings.format.exclude.as_ref(),
        settings.format.default_exclude.as_ref()
    )
    .is_none());
    assert_eq!(
        any_exclude_matched_path_or_any_parents(
            &path,
            false,
            settings.format.exclude.as_ref(),
            settings.format.default_exclude.as_ref()
        ),
        Some(String::from("**/renv/"))
    );
    assert!(any_include_matched_path(&path, settings.format.default_include.as_ref()).is_some());
    assert!(any_include_matched_path(&path, None).is_none());
    assert!(any_exclude_matched_path(&path, false, None, None).is_none());
}

// Walks up from each path, stopping at an `air.toml` or at a directory seen before.
#[test]
fn settings_discovery_walk() {
    let mut walk = SettingsDiscovery::new(vec![
        FsPath::new("/w/p/R/a.R"),
        FsPath::new("/w/p/R/b.R"),
        FsPath::new("/w/q"),
    ]);
    let mut visited = Vec::new();
    while let Some(dir) = walk.next_directory() {
        let found = dir.as_str() == "/w/p";
        visited.push(String::from(dir.as_str()));
        walk.report(found);
    }
    assert_eq!(
        visited,
        vec!["/w/p/R/a.R", "/w/p/R", "/w/p", "/w/p/R/b.R", "/w/q", "/w", "/"]
    );
    let _ = Mode::Format;
}

#[test]
fn discovered_settings_hold_directory() {
    let d = DiscoveredSettings { directory: FsPath::new("/w/p"), settings: Settings::default() };
    assert_eq!(d.directory.as_str(), "/w/p");
}

// A directory's visible `air.toml` wins over its hidden `.air.toml`.
#[test]
fn air_toml_is_preferred_over_dot_air_toml() {
    let dir = FsPath::new("/p");
    let both = air_toml_in_directory(&dir, true, true).unwrap();
    assert_eq!(both.as_str(), "/p/air.toml");
    let hidden = air_toml_in_directory(&dir, false, true).unwrap();
    assert_eq!(hidden.as_str(), "/p/.air.toml");
    assert!(air_toml_in_directory(&dir, false, false).is_none());
}
