use air_workspace::discovery::DiscoveredSettings;
use air_workspace::path::FsPath;
use air_workspace::settings::{ExcludePatterns, Settings};
use air_workspace::workspaces::{
    air_toml_watchers, is_air_toml, is_user_level_air_toml, WorkspaceDefaultSettings, WorkspaceSettings, WorkspaceSettingsResolver,
};

fn settings_excluding(root: &str, pattern: &str) -> Settings {
    let mut settings = Settings::default();
    settings.format.exclude =
        Some(ExcludePatterns::try_from_iter(Some(&FsPath::new(root)), vec![pattern]).unwrap());
    settings
}

fn user_settings() -> Settings {
    let mut settings = Settings::default();
    settings.format.exclude = Some(ExcludePatterns::try_from_iter(None, vec!["user/"]).unwrap());
    settings
}

fn discovered(directory: &str, pattern: &str) -> DiscoveredSettings {
    DiscoveredSettings {
        directory: FsPath::new(directory),
        settings: settings_excluding(directory, pattern),
    }
}

// With no workspace folder, a user level `air.toml` is the fallback.
#[test]
fn user_settings_used_as_fallback() {
    let defaults = WorkspaceDefaultSettings::discover::<String>(Ok(Some(user_settings())));
    let resolver = WorkspaceSettingsResolver::from_workspace_folders(defaults, vec![]);
    match resolver.settings_for_path(&FsPath::new("/tmp/workspace/foo.R")) {
        WorkspaceSettings::Toml(settings) => assert!(settings.format.exclude.is_some()),
        WorkspaceSettings::Default(_) => panic!("expected the user settings"),
    }
}

// Without a user level `air.toml`, Air's defaults apply.
#[test]
fn default_used_when_no_user_settings() {
    let defaults = WorkspaceDefaultSettings::discover::<String>(Ok(None));
    let resolver = WorkspaceSettingsResolver::from_workspace_folders(defaults, vec![]);
    assert!(matches!(
        resolver.settings_for_path(&FsPath::new("/tmp/workspace/foo.R")),
        WorkspaceSettings::Default(_)
    ));
    let defaults = WorkspaceDefaultSettings::discover(Err(String::from("broken")));
    assert!(matches!(defaults, WorkspaceDefaultSettings::Default(_)));
}

// A project `air.toml` shadows the user level one.
#[test]
fn project_settings_win_over_user_settings() {
    let defaults = WorkspaceDefaultSettings::discover::<String>(Ok(Some(user_settings())));
    let folder = (FsPath::new("/w"), vec![discovered("/w", "project/")]);
    let resolver = WorkspaceSettingsResolver::from_workspace_folders(defaults, vec![folder]);
    match resolver.settings_for_path(&FsPath::new("/w/foo.R")) {
        WorkspaceSettings::Toml(settings) => match &settings.format.exclude {
            Some(ExcludePatterns::Rooted(_)) => {}
            _ => panic!("expected the project settings"),
        },
        WorkspaceSettings::Default(_) => panic!("expected the project settings"),
    }
    // Outside the workspace, the user settings apply
    match resolver.settings_for_path(&FsPath::new("/elsewhere/foo.R")) {
        WorkspaceSettings::Toml(settings) => match &settings.format.exclude {
            Some(ExcludePatterns::Unrooted(_)) => {}
            _ => panic!("expected the user settings"),
        },
        WorkspaceSettings::Default(_) => panic!("expected the user settings"),
    }
}

// Reloading replaces the user settings and a workspace's settings.
#[test]
fn reload_user_and_workspace_settings() {
    let mut resolver = WorkspaceSettingsResolver::new(WorkspaceDefaultSettings::default());
    let path = FsPath::new("/elsewhere/foo.R");
    assert!(matches!(resolver.settings_for_path(&path), WorkspaceSettings::Default(_)));

    // Create: picks up the user settings
    resolver.set_default_settings(WorkspaceDefaultSettings::discover::<String>(Ok(Some(
        user_settings(),
    ))));
    assert!(matches!(resolver.settings_for_path(&path), WorkspaceSettings::Toml(_)));

    // Delete: back to the defaults
    resolver.set_default_settings(WorkspaceDefaultSettings::discover::<String>(Ok(None)));
    assert!(matches!(resolver.settings_for_path(&path), WorkspaceSettings::Default(_)));

    resolver.open_workspace_folder(FsPath::new("/w"), vec![]);
    let in_workspace = FsPath::new("/w/sub/foo.R");
    assert!(matches!(resolver.settings_for_path(&in_workspace), WorkspaceSettings::Default(_)));
    let matched = resolver.workspaces_matched_by_path(&FsPath::new("/w/air.toml"));
    assert_eq!(matched, vec![0]);
    assert_eq!(resolver.workspace_path(0).as_str(), "/w");
    resolver.reload_workspace(0, Some(vec![discovered("/w/sub", "x/")]));
    assert!(matches!(resolver.settings_for_path(&in_workspace), WorkspaceSettings::Toml(_)));
    assert!(matches!(
        resolver.settings_for_path(&FsPath::new("/w/foo.R")),
        WorkspaceSettings::Default(_)
    ));
    resolver.reload_workspace(0, None);
    assert!(matches!(resolver.settings_for_path(&in_workspace), WorkspaceSettings::Default(_)));

    resolver.close_workspace_folder(&FsPath::new("/w"));
    assert!(resolver.workspaces_matched_by_path(&FsPath::new("/w/air.toml")).is_empty());
}

// `untitled` documents use the settings of the only workspace folder.
#[test]
fn untitled_documents_use_the_only_workspace() {
    let folder = (FsPath::new("/w"), vec![discovered("/w", "x/")]);
    let resolver =
        WorkspaceSettingsResolver::from_workspace_folders(WorkspaceDefaultSettings::default(), vec![folder]);
    assert!(matches!(resolver.settings_for_url("untitled", None), WorkspaceSettings::Toml(_)));
    assert!(matches!(resolver.settings_for_url("https", None), WorkspaceSettings::Default(_)));
    assert!(matches!(
        resolver.settings_for_url("file", Some(&FsPath::new("/w/a.R"))),
        WorkspaceSettings::Toml(_)
    ));

    let two = vec![
        (FsPath::new("/w"), vec![discovered("/w", "x/")]),
        (FsPath::new("/v"), vec![]),
    ];
    let resolver =
        WorkspaceSettingsResolver::from_workspace_folders(WorkspaceDefaultSettings::default(), two);
    assert!(matches!(resolver.settings_for_url("untitled", None), WorkspaceSettings::Default(_)));
}

#[test]
fn air_toml_names() {
    assert!(is_air_toml(&FsPath::new("/w/air.toml")));
    assert!(is_air_toml(&FsPath::new("/w/.air.toml")));
    assert!(!is_air_toml(&FsPath::new("/w/air.tomlx")));
    assert!(!is_air_toml(&FsPath::new("/")));
}

#[test]
fn workspace_settings_give_their_settings() {
    let settings = Settings::default();
    let toml = WorkspaceSettings::Toml(&settings);
    assert!(toml.settings().format.exclude.is_none());
}

// A changed workspace `air.toml` is reported as reloaded, also when it was deleted
// and rediscovery finds nothing; other files are ignored.
#[test]
fn reload_matched_reports_reloaded_air_toml() {
    let folder = (FsPath::new("/w"), vec![discovered("/w", "x/")]);
    let mut resolver =
        WorkspaceSettingsResolver::from_workspace_folders(WorkspaceDefaultSettings::default(), vec![folder]);
    let in_workspace = FsPath::new("/w/foo.R");
    assert!(matches!(resolver.settings_for_path(&in_workspace), WorkspaceSettings::Toml(_)));

    // Not an `air.toml`: nothing happens
    let other = FsPath::new("/w/foo.R");
    assert!(!resolver.reload_matched(&other, None, vec![(0, Some(vec![]))]));
    assert!(matches!(resolver.settings_for_path(&in_workspace), WorkspaceSettings::Toml(_)));

    // Deleted: rediscovery finds nothing, and the reload is still reported
    let toml = FsPath::new("/w/air.toml");
    let matched = resolver.workspaces_matched_by_path(&toml);
    assert_eq!(matched, vec![0]);
    assert!(resolver.reload_matched(&toml, None, vec![(0, Some(vec![]))]));
    assert!(matches!(resolver.settings_for_path(&in_workspace), WorkspaceSettings::Default(_)));

    // An `air.toml` outside every workspace, not the user level one: nothing reloaded
    assert!(!resolver.reload_matched(&FsPath::new("/elsewhere/air.toml"), None, vec![]));

    // The user level `air.toml`
    assert!(resolver.reload_matched(
        &FsPath::new("/home/u/.config/air/air.toml"),
        Some(WorkspaceDefaultSettings::discover::<String>(Ok(Some(user_settings())))),
        vec![],
    ));
    assert!(matches!(
        resolver.settings_for_path(&FsPath::new("/elsewhere/foo.R")),
        WorkspaceSettings::Toml(_)
    ));
}

#[test]
fn user_level_air_toml_is_in_the_config_directory() {
    let dir = FsPath::new("/home/u/.config/air");
    assert!(is_user_level_air_toml(&FsPath::new("/home/u/.config/air/air.toml"), Some(&dir)));
    assert!(!is_user_level_air_toml(&FsPath::new("/w/air.toml"), Some(&dir)));
    assert!(!is_user_level_air_toml(&FsPath::new("/w/air.toml"), None));
}

// Opening the same folder twice keeps the settings given last.
#[test]
fn from_workspace_folders_last_folder_wins() {
    let folders = vec![
        (FsPath::new("/w"), vec![discovered("/w", "x/")]),
        (FsPath::new("/w"), vec![]),
    ];
    let resolver =
        WorkspaceSettingsResolver::from_workspace_folders(WorkspaceDefaultSettings::default(), folders);
    assert!(matches!(
        resolver.settings_for_path(&FsPath::new("/w/foo.R")),
        WorkspaceSettings::Default(_)
    ));
}

#[test]
fn default_workspace_settings_hold_the_default_patterns() {
    match WorkspaceDefaultSettings::discover(Err(String::from("broken"))) {
        WorkspaceDefaultSettings::Default(settings) => {
            assert!(settings.format.exclude.is_none());
            assert!(settings.format.default_exclude.is_some());
            assert!(settings.format.default_include.is_some());
        }
        WorkspaceDefaultSettings::Toml(_) => panic!("expected the defaults"),
    }
}

#[test]
fn air_toml_watchers_cover_project_and_user_files() {
    let project = vec![
        (None, String::from("**/air.toml")),
        (None, String::from("**/.air.toml")),
    ];
    assert_eq!(air_toml_watchers(false, Some("file:///home/u/.config/air/")), project);
    assert_eq!(air_toml_watchers(true, None), project);
    let dir = String::from("file:///home/u/.config/air/");
    let mut all = project.clone();
    all.push((Some(dir.clone()), String::from("air.toml")));
    all.push((Some(dir), String::from(".air.toml")));
    assert_eq!(air_toml_watchers(true, Some("file:///home/u/.config/air/")), all);
}

// A workspace folder's path keeps the text it was opened with.
#[test]
fn workspace_path_keeps_its_text() {
    let mut resolver = WorkspaceSettingsResolver::new(WorkspaceDefaultSettings::default());
    resolver.open_workspace_folder(FsPath::new("/w//x/"), vec![]);
    let matched = resolver.workspaces_matched_by_path(&FsPath::new("/w/x/air.toml"));
    assert_eq!(matched, vec![0]);
    assert_eq!(resolver.workspace_path(0).as_str(), "/w//x/");
}
