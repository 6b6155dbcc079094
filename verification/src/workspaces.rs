//! Settings of the language server's open workspace folders.
//!
//! Each workspace folder has its own [PathResolver] of `air.toml` settings, and a
//! resolver of workspace folders picks the one for a document. Documents outside
//! every workspace, or under no `air.toml`, get the workspace default settings: the
//! user level `air.toml` when there is one, otherwise Air's defaults.
use vstd::prelude::*;

use crate::discovery::DiscoveredSettings;
use crate::path::{is_plain_name, lemma_path_order, path_lt, str_equal, FsPath, Part, PathComponent};
use crate::resolve::{
    entries_map, has_match, is_closest_entry, lemma_closest_entry_exists,
    lemma_closest_entry_unique, lemma_entries_map_at, PathResolver,
};
use crate::settings::{is_default_settings, Settings};

verus! {

/// Convenience type for the inner resolver of path -> [Settings]
pub type SettingsResolver = PathResolver<Settings>;

/// Resolved settings for a workspace specific path.
#[derive(Debug)]
pub enum WorkspaceSettings<'resolver> {
    /// Settings from an `air.toml`, project or user level.
    Toml(&'resolver Settings),
    /// Air's default settings.
    Default(&'resolver Settings),
}

/// Where resolved settings come from, abstractly.
pub enum SettingsSource {
    Toml(Settings),
    Default(Settings),
}

impl<'resolver> View for WorkspaceSettings<'resolver> {
    type V = SettingsSource;

    open spec fn view(&self) -> SettingsSource {
        match self {
            WorkspaceSettings::Toml(s) => SettingsSource::Toml(**s),
            WorkspaceSettings::Default(s) => SettingsSource::Default(**s),
        }
    }
}

pub open spec fn source_settings(s: SettingsSource) -> Settings {
    match s {
        SettingsSource::Toml(s) => s,
        SettingsSource::Default(s) => s,
    }
}

impl<'resolver> WorkspaceSettings<'resolver> {
    pub fn settings(&self) -> (r: &Settings)
        ensures
            *r == source_settings(self@),
    {
        match self {
            WorkspaceSettings::Toml(settings) => settings,
            WorkspaceSettings::Default(settings) => settings,
        }
    }
}

/// Owned variant of [WorkspaceSettings] used for persistent default settings
#[derive(Debug)]
pub enum WorkspaceDefaultSettings {
    /// Default settings created from a user level `air.toml`
    Toml(Settings),
    /// Default settings created from [Settings::default()]
    Default(Settings),
}

pub open spec fn default_source(d: WorkspaceDefaultSettings) -> SettingsSource {
    match d {
        WorkspaceDefaultSettings::Toml(s) => SettingsSource::Toml(s),
        WorkspaceDefaultSettings::Default(s) => SettingsSource::Default(s),
    }
}

impl Default for WorkspaceDefaultSettings {
    fn default() -> (r: Self)
        ensures
            r matches WorkspaceDefaultSettings::Default(s) && is_default_settings(s),
    {
        WorkspaceDefaultSettings::Default(Settings::default())
    }
}

impl WorkspaceDefaultSettings {
    /// The workspace default settings, given the outcome of looking for a user level
    /// `air.toml`: its settings when one was found and parsed, otherwise Air's
    /// defaults (a failure is reported by the caller).
    pub fn discover<E>(user_settings: Result<Option<Settings>, E>) -> (r: Self)
        ensures
            user_settings matches Ok(Some(s)) ==> r == WorkspaceDefaultSettings::Toml(s),
            !(user_settings matches Ok(Some(_))) ==> (r matches WorkspaceDefaultSettings::Default(s)
                && is_default_settings(s)),
    {
        match user_settings {
            Ok(Some(settings)) => WorkspaceDefaultSettings::Toml(settings),
            Ok(None) => WorkspaceDefaultSettings::Default(Settings::default()),
            Err(_) => WorkspaceDefaultSettings::Default(Settings::default()),
        }
    }

    pub fn as_workspace_settings(&self) -> (r: WorkspaceSettings<'_>)
        ensures
            r@ == default_source(*self),
    {
        match self {
            WorkspaceDefaultSettings::Toml(settings) => WorkspaceSettings::Toml(settings),
            WorkspaceDefaultSettings::Default(settings) => WorkspaceSettings::Default(settings),
        }
    }
}

/// The settings map that adding the discovered settings `ds` in order builds.
pub open spec fn added_map(ds: Seq<(Seq<Part>, Settings)>) -> Map<Seq<Part>, Settings>
    decreases ds.len(),
{
    if ds.len() == 0 {
        Map::empty()
    } else {
        added_map(ds.drop_last()).insert(ds.last().0, ds.last().1)
    }
}

pub open spec fn discovered_view(ds: Seq<DiscoveredSettings>) -> Seq<(Seq<Part>, Settings)> {
    ds.map_values(|d: DiscoveredSettings| (d.directory@, d.settings))
}

/// The workspace maps that opening `folders` in order builds: each folder maps to
/// the settings discovered for it, a folder given twice to its last settings.
pub open spec fn opened_maps(folders: Seq<(FsPath, Vec<DiscoveredSettings>)>) -> Map<
    Seq<Part>,
    Map<Seq<Part>, Settings>,
>
    decreases folders.len(),
{
    if folders.len() == 0 {
        Map::empty()
    } else {
        opened_maps(folders.drop_last()).insert(
            folders.last().0@,
            added_map(discovered_view(folders.last().1@)),
        )
    }
}

/// The text each workspace folder keeps when `folders` are opened in order: the
/// text it was first opened with.
pub open spec fn opened_texts(folders: Seq<(FsPath, Vec<DiscoveredSettings>)>) -> Map<
    Seq<Part>,
    Seq<char>,
>
    decreases folders.len(),
{
    if folders.len() == 0 {
        Map::empty()
    } else {
        let m = opened_texts(folders.drop_last());
        if m.contains_key(folders.last().0@) {
            m
        } else {
            m.insert(folders.last().0@, folders.last().0.text())
        }
    }
}

/// The folders opened are those [opened_texts] has texts for.
pub proof fn lemma_opened_domains(folders: Seq<(FsPath, Vec<DiscoveredSettings>)>)
    ensures
        opened_texts(folders).dom() == opened_maps(folders).dom(),
    decreases folders.len(),
{
    if folders.len() > 0 {
        lemma_opened_domains(folders.drop_last());
        assert(opened_texts(folders).dom() =~= opened_maps(folders).dom());
    }
}

/// What [WorkspaceSettingsResolver::settings_for_path] finds for `path`, given the
/// workspace entries and the default settings.
pub open spec fn spec_settings_for_path(
    workspaces: Seq<(Seq<Part>, SettingsResolver)>,
    defaults: WorkspaceDefaultSettings,
    path: Seq<Part>,
) -> SettingsSource {
    if has_match(workspaces, path) {
        let inner = (choose|x: (Seq<Part>, SettingsResolver)| is_closest_entry(workspaces, path, x)).1;
        if has_match(inner@, path) {
            SettingsSource::Toml(
                (choose|x: (Seq<Part>, Settings)| is_closest_entry(inner@, path, x)).1,
            )
        } else {
            default_source(defaults)
        }
    } else {
        default_source(defaults)
    }
}

/// A settings resolver holding the discovered settings `discovered`, added in order.
fn build_settings_resolver(discovered: Vec<DiscoveredSettings>) -> (r: SettingsResolver)
    ensures
        r.wf(),
        r.map() == added_map(discovered_view(discovered@)),
{
    let ghost ds = discovered_view(discovered@);
    let mut settings_resolver = SettingsResolver::new();
    let mut rest = discovered;
    let ghost mut k: int = 0;
    proof {
        assert(ds.take(0) =~= Seq::<(Seq<Part>, Settings)>::empty());
        assert(settings_resolver.map() =~= Map::<Seq<Part>, Settings>::empty());
        assert(ds.skip(0) =~= ds);
    }
    while rest.len() > 0
        invariant
            settings_resolver.wf(),
            0 <= k <= ds.len(),
            discovered_view(rest@) == ds.skip(k),
            settings_resolver.map() == added_map(ds.take(k)),
        decreases rest.len(),
    {
        let ghost before = rest@;
        let d = rest.remove(0);
        proof {
            assert(discovered_view(before).len() == before.len());
            assert(k < ds.len());
            assert(before[0] == d);
            assert(discovered_view(before)[0] == (d.directory@, d.settings));
            assert(ds.skip(k)[0] == ds[k]);
            assert(ds.take(k + 1).drop_last() =~= ds.take(k));
            assert(ds.take(k + 1).last() == ds[k]);
            assert(rest@ =~= before.drop_first());
            assert forall|i: int| 0 <= i < rest@.len() implies discovered_view(rest@)[i]
                == ds.skip(k + 1)[i] by {
                assert(rest@[i] == before[i + 1]);
                assert(discovered_view(before)[i + 1] == ds.skip(k)[i + 1]);
            }
            assert(discovered_view(rest@) =~= ds.skip(k + 1));
        }
        settings_resolver.add(d.directory, d.settings);
        proof {
            k = k + 1;
        }
    }
    proof {
        assert(ds.take(k) =~= ds);
    }
    settings_resolver
}

/// Resolver for retrieving [WorkspaceSettings] associated with a workspace specific path
#[derive(Debug)]
pub struct WorkspaceSettingsResolver {
    /// Resolves a `path` to the closest workspace specific `SettingsResolver`.
    /// That `SettingsResolver` can then return `Settings` for the `path`.
    path_to_settings_resolver: PathResolver<SettingsResolver>,
    /// Settings for files that `path_to_settings_resolver` fails to resolve
    workspace_default_settings: WorkspaceDefaultSettings,
}

impl WorkspaceSettingsResolver {
    /// The workspace folders, each with its resolver of `air.toml` settings.
    pub closed spec fn workspaces(&self) -> Seq<(Seq<Part>, SettingsResolver)> {
        self.path_to_settings_resolver@
    }

    /// The workspace default settings.
    pub closed spec fn defaults(&self) -> WorkspaceDefaultSettings {
        self.workspace_default_settings
    }

    /// The workspace folders are sorted, and so is each folder's resolver.
    pub closed spec fn wf(&self) -> bool {
        &&& self.path_to_settings_resolver.wf()
        &&& forall|k: Seq<Part>| #[trigger]
            self.path_to_settings_resolver.map().contains_key(k)
                ==> self.path_to_settings_resolver.map()[k].wf()
    }

    /// The map from workspace folders to the text each was opened with.
    pub closed spec fn workspace_texts(&self) -> Map<Seq<Part>, Seq<char>> {
        self.path_to_settings_resolver.text_map()
    }

    /// The map from workspace folders to their `air.toml` settings maps.
    pub open spec fn workspace_maps(&self) -> Map<Seq<Part>, Map<Seq<Part>, Settings>> {
        entries_map(self.workspaces()).map_values(|r: SettingsResolver| r.map())
    }

    /// A resolver with no workspace folder, and the given default settings.
    pub fn new(workspace_default_settings: WorkspaceDefaultSettings) -> (r: Self)
        ensures
            r.wf(),
            r.workspaces() == Seq::<(Seq<Part>, SettingsResolver)>::empty(),
            r.workspace_texts() == Map::<Seq<Part>, Seq<char>>::empty(),
            r.defaults() == workspace_default_settings,
    {
        let r = Self { path_to_settings_resolver: PathResolver::new(), workspace_default_settings };
        assert(r.workspace_texts() =~= Map::<Seq<Part>, Seq<char>>::empty());
        r
    }

    /// Construct a resolver from the default settings and an initial set of workspace
    /// folders, each given with the settings discovered for it.
    pub fn from_workspace_folders(
        workspace_default_settings: WorkspaceDefaultSettings,
        workspace_folders: Vec<(FsPath, Vec<DiscoveredSettings>)>,
    ) -> (r: Self)
        ensures
            r.wf(),
            r.defaults() == workspace_default_settings,
            r.workspace_maps() == opened_maps(workspace_folders@),
            r.workspace_texts() == opened_texts(workspace_folders@),
    {
        let mut resolver = Self::new(workspace_default_settings);
        let mut folders = workspace_folders;
        let ghost all = folders@;
        let ghost mut k: int = 0;
        proof {
            assert(all.take(0) =~= Seq::<(FsPath, Vec<DiscoveredSettings>)>::empty());
            assert(resolver.workspace_maps() =~= Map::<Seq<Part>, Map<Seq<Part>, Settings>>::empty());
            assert(opened_texts(all.take(0)) =~= Map::<Seq<Part>, Seq<char>>::empty());
            assert(all.skip(0) =~= all);
        }
        while folders.len() > 0
            invariant
                resolver.wf(),
                resolver.defaults() == workspace_default_settings,
                0 <= k <= all.len(),
                folders@ == all.skip(k),
                resolver.workspace_maps() == opened_maps(all.take(k)),
                resolver.workspace_texts() == opened_texts(all.take(k)),
            decreases folders.len(),
        {
            let ghost before = folders@;
            let (path, discovered) = folders.remove(0);
            proof {
                assert(k < all.len());
                assert(before[0] == all[k]);
                assert(all[k] == (path, discovered));
                assert(folders@ =~= all.skip(k + 1));
            }
            proof {
                lemma_opened_domains(all.take(k));
            }
            resolver.open_workspace_folder(path, discovered);
            proof {
                assert(all.take(k + 1).drop_last() =~= all.take(k));
                assert(all.take(k + 1).last() == all[k]);
                k = k + 1;
            }
        }
        proof {
            assert(all.take(k) =~= all);
        }
        resolver
    }

    /// Open a workspace folder at `path`, with the settings discovered for it.
    ///
    /// A failure to discover the settings is handled by the caller, which then does
    /// not open the folder at all.
    pub fn open_workspace_folder(&mut self, path: FsPath, discovered: Vec<DiscoveredSettings>)
        requires
            old(self).wf(),
        ensures
            final(self).wf(),
            final(self).defaults() == old(self).defaults(),
            final(self).workspace_maps() == old(self).workspace_maps().insert(
                path@,
                added_map(discovered_view(discovered@)),
            ),
            final(self).workspace_texts() == (if old(self).workspace_maps().contains_key(path@) {
                old(self).workspace_texts()
            } else {
                old(self).workspace_texts().insert(path@, path.text())
            }),
    {
        let ghost ds = discovered_view(discovered@);
        let settings_resolver = build_settings_resolver(discovered);
        let ghost old_map = self.path_to_settings_resolver.map();
        let ghost inner = settings_resolver;
        self.path_to_settings_resolver.add(path, settings_resolver);
        proof {
            assert(self.workspace_maps() =~= old(self).workspace_maps().insert(
                path@,
                added_map(ds),
            ));
        }
    }

    /// Close the workspace folder at `path`.
    pub fn close_workspace_folder(&mut self, path: &FsPath)
        requires
            old(self).wf(),
        ensures
            final(self).wf(),
            final(self).defaults() == old(self).defaults(),
            final(self).workspace_maps() == old(self).workspace_maps().remove(path@),
            final(self).workspace_texts() == old(self).workspace_texts().remove(path@),
    {
        self.path_to_settings_resolver.remove(path);
        assert(self.workspace_maps() =~= old(self).workspace_maps().remove(path@));
    }

    /// Replace the workspace default settings, as when the user level `air.toml`
    /// changed.
    pub fn set_default_settings(&mut self, workspace_default_settings: WorkspaceDefaultSettings)
        requires
            old(self).wf(),
        ensures
            final(self).wf(),
            final(self).defaults() == workspace_default_settings,
            final(self).workspaces() == old(self).workspaces(),
            final(self).workspace_texts() == old(self).workspace_texts(),
    {
        self.workspace_default_settings = workspace_default_settings;
    }

    /// Return the appropriate [WorkspaceSettings] for a given path.
    ///
    /// This performs a double resolution. It first resolves to the workspace
    /// specific `SettingsResolver` that matches this path, and then uses that
    /// resolver to resolve the `Settings` for this path.
    pub fn settings_for_path(&self, path: &FsPath) -> (r: WorkspaceSettings<'_>)
        requires
            self.wf(),
        ensures
            r@ == spec_settings_for_path(self.workspaces(), self.defaults(), path@),
    {
        match self.path_to_settings_resolver.resolve(path) {
            Some(resolution) => {
                let inner = resolution.value();
                proof {
                    let e = self.path_to_settings_resolver@;
                    lemma_closest_entry_exists(e, path@);
                    let x = choose|x: (Seq<Part>, SettingsResolver)| is_closest_entry(e, path@, x);
                    lemma_closest_entry_unique(e, path@, x, (resolution.key(), resolution.val()));
                    let i = choose|i: int| 0 <= i < e.len() && e[i] == x;
                    lemma_entries_map_at(e, i);
                    assert(self.path_to_settings_resolver.map().contains_key(e[i].0));
                }
                match inner.resolve(path) {
                    Some(item) => {
                        proof {
                            lemma_closest_entry_exists(inner@, path@);
                            let y = choose|y: (Seq<Part>, Settings)|
                                is_closest_entry(inner@, path@, y);
                            lemma_closest_entry_unique(inner@, path@, y, (item.key(), item.val()));
                        }
                        WorkspaceSettings::Toml(item.value())
                    },
                    None => self.workspace_default_settings.as_workspace_settings(),
                }
            },
            None => self.workspace_default_settings.as_workspace_settings(),
        }
    }

    /// Return the appropriate [WorkspaceSettings] for a document, given its URL
    /// scheme and, for a `file` URL that converts to one, its file path.
    ///
    /// For `untitled` documents, if there is exactly 1 workspace, we resolve using a
    /// path of `{workspace_path}/untitled` to provide relevant settings for this
    /// workspace. Other documents get the workspace default settings.
    pub fn settings_for_url(&self, scheme: &str, file_path: Option<&FsPath>) -> (r: WorkspaceSettings<
        '_,
    >)
        requires
            self.wf(),
        ensures
            file_path matches Some(p) ==> r@ == spec_settings_for_path(
                self.workspaces(),
                self.defaults(),
                p@,
            ),
            file_path is None && scheme@ == "untitled"@ && self.workspaces().len() == 1 ==> r@
                == spec_settings_for_path(
                self.workspaces(),
                self.defaults(),
                self.workspaces()[0].0.push(Part::Name("untitled"@)),
            ),
            file_path is None && !(scheme@ == "untitled"@ && self.workspaces().len() == 1) ==> r@
                == default_source(self.defaults()),
    {
        if let Some(path) = file_path {
            return self.settings_for_path(path);
        }
        if str_equal(scheme, "untitled") && self.path_to_settings_resolver.len() == 1 {
            let items = self.path_to_settings_resolver.items();
            let workspace_path = items[0].path();
            proof {
                reveal_strlit("untitled");
                assert(!"untitled"@.contains('/')) by {
                    assert forall|i: int| 0 <= i < "untitled"@.len() implies "untitled"@[i] != '/' by {}
                }
                assert("untitled"@ != seq!['.']) by {
                    assert("untitled"@.len() != 1);
                }
                assert("untitled"@ != seq!['.', '.']) by {
                    assert("untitled"@.len() != 2);
                }
                assert(is_plain_name("untitled"@));
            }
            let path = workspace_path.join("untitled");
            return self.settings_for_path(&path);
        }
        self.workspace_default_settings.as_workspace_settings()
    }

    /// The workspace folders that hold `path`, as indices for
    /// [WorkspaceSettingsResolver::reload_workspace].
    pub fn workspaces_matched_by_path(&self, path: &FsPath) -> (r: Vec<usize>)
        ensures
            forall|k: int| 0 <= k < r@.len() ==> #[trigger] r@[k] < self.workspaces().len(),
            forall|k: int|
                0 <= k < r@.len() ==> crate::path::path_starts_with(
                    path@,
                    self.workspaces()[#[trigger] r@[k] as int].0,
                ),
            forall|j: int|
                0 <= j < self.workspaces().len() && crate::path::path_starts_with(
                    path@,
                    #[trigger] self.workspaces()[j].0,
                ) ==> r@.contains(j as usize),
    {
        self.path_to_settings_resolver.matches_mut(path)
    }

    /// The path of the workspace folder at `index`.
    pub fn workspace_path(&self, index: usize) -> (r: FsPath)
        requires
            self.wf(),
            index < self.workspaces().len(),
        ensures
            r@ == self.workspaces()[index as int].0,
            r.text() == self.workspace_texts()[self.workspaces()[index as int].0],
    {
        let items = self.path_to_settings_resolver.items();
        let r = items[index].path().clone_path();
        proof {
            let res = self.path_to_settings_resolver;
            res.lemma_text_entries();
            lemma_entries_map_at(res.text_entries(), index as int);
            assert(items@.map_values(|it: crate::resolve::PathItem<SettingsResolver>| (it.key(), it.key_text()))[index as int] == res.text_entries()[index as int]);
            assert(crate::resolve::item_entries(items@)[index as int] == res@[index as int]);
        }
        r
    }

    /// The workspace folders' paths, in order.
    pub open spec fn workspace_keys(&self) -> Seq<Seq<Part>> {
        self.workspaces().map_values(|w: (Seq<Part>, SettingsResolver)| w.0)
    }

    /// Reload the workspace folder at `index` with the settings discovered for it
    /// again. Its settings are cleared first, whatever happens; when rediscovery
    /// failed (`None`), they stay empty.
    pub fn reload_workspace(&mut self, index: usize, discovered: Option<Vec<DiscoveredSettings>>)
        requires
            old(self).wf(),
            index < old(self).workspaces().len(),
        ensures
            final(self).wf(),
            final(self).defaults() == old(self).defaults(),
            final(self).workspace_keys() == old(self).workspace_keys(),
            final(self).workspace_texts() == old(self).workspace_texts(),
            final(self).workspace_maps() == old(self).workspace_maps().insert(
                old(self).workspaces()[index as int].0,
                reload_map(discovered),
            ),
    {
        let ghost e = self.path_to_settings_resolver@;
        let ghost key = e[index as int].0;
        let fresh = match discovered {
            Some(discovered) => build_settings_resolver(discovered),
            None => {
                let fresh = SettingsResolver::new();
                proof {
                    assert(fresh.map() =~= Map::<Seq<Part>, Settings>::empty());
                }
                fresh
            },
        };
        let ghost fresh_v = fresh;
        assert(fresh_v.wf());
        let workspace = self.path_to_settings_resolver.value_mut_at(index);
        *workspace = fresh;
        proof {
            assert(self.path_to_settings_resolver@[index as int].1 == fresh_v);
        }
        proof {
            let new_e = self.path_to_settings_resolver@;
            assert(new_e == e.update(index as int, (key, new_e[index as int].1)));
            assert(self.workspace_keys() =~= old(self).workspace_keys());
            assert(self.path_to_settings_resolver.wf());
            assert forall|k: Seq<Part>| #[trigger]
                self.path_to_settings_resolver.map().contains_key(k)
                    implies self.path_to_settings_resolver.map()[k].wf() by {
                let j = choose|j: int| 0 <= j < new_e.len() && #[trigger] new_e[j].0 == k;
                lemma_entries_map_at(new_e, j);
                if j != index {
                    lemma_entries_map_at(e, j);
                    assert(old(self).path_to_settings_resolver.map() == entries_map(e));
                    assert(old(self).path_to_settings_resolver.map().contains_key(k));
                    assert(e[j].1.wf());
                } else {
                    assert(new_e[j].1 == fresh_v);
                }
            }
            lemma_entries_map_at(e, index as int);
            assert(self.workspace_maps() =~= old(self).workspace_maps().insert(
                key,
                new_e[index as int].1.map(),
            )) by {
                assert forall|k: Seq<Part>| #[trigger]
                    self.workspace_maps().contains_key(k) == old(self).workspace_maps().insert(
                        key,
                        new_e[index as int].1.map(),
                    ).contains_key(k) by {
                    if entries_map(e).contains_key(k) {
                        let j = choose|j: int| 0 <= j < e.len() && #[trigger] e[j].0 == k;
                        assert(new_e[j].0 == k);
                    }
                    if entries_map(new_e).contains_key(k) {
                        let j = choose|j: int| 0 <= j < new_e.len() && #[trigger] new_e[j].0 == k;
                        assert(e[j].0 == k);
                    }
                }
                assert forall|k: Seq<Part>| #[trigger]
                    self.workspace_maps().contains_key(k) implies self.workspace_maps()[k]
                    == old(self).workspace_maps().insert(key, new_e[index as int].1.map())[k] by {
                    let j = choose|j: int| 0 <= j < new_e.len() && #[trigger] new_e[j].0 == k;
                    lemma_entries_map_at(new_e, j);
                    assert(entries_map(new_e)[k] == new_e[j].1);
                    assert(self.workspace_maps()[k] == new_e[j].1.map());
                    if j != index {
                        lemma_entries_map_at(e, j);
                        assert(entries_map(e).contains_key(k));
                        assert(old(self).workspace_maps()[k] == e[j].1.map());
                        assert(k != key) by {
                            lemma_path_order();
                            if j < index {
                                assert(path_lt(new_e[j].0, new_e[index as int].0));
                            } else {
                                assert(path_lt(new_e[index as int].0, new_e[j].0));
                            }
                        }
                    }
                }
            }
        }
    }

    /// Reload after a change to the file at `path`. Nothing happens unless `path`
    /// names an `air.toml`. Then the workspace default settings are replaced by
    /// `user_defaults` when given (the changed file is the user level `air.toml`),
    /// and each workspace folder listed in `reloads`, by its index, is reloaded with
    /// the settings rediscovered for it, in order (see
    /// [WorkspaceSettingsResolver::reload_workspace]).
    ///
    /// Returns whether an `air.toml` was reloaded: the user level one, or that of
    /// at least one workspace folder, whatever rediscovery found.
    pub fn reload_matched(
        &mut self,
        path: &FsPath,
        user_defaults: Option<WorkspaceDefaultSettings>,
        reloads: Vec<(usize, Option<Vec<DiscoveredSettings>>)>,
    ) -> (r: bool)
        requires
            old(self).wf(),
            forall|k: int| 0 <= k < reloads@.len() ==> #[trigger] reloads@[k].0 < old(self).workspaces().len(),
        ensures
            final(self).wf(),
            final(self).workspace_keys() == old(self).workspace_keys(),
            final(self).workspace_texts() == old(self).workspace_texts(),
            !spec_is_air_toml(path@) ==> {
                &&& !r
                &&& final(self).defaults() == old(self).defaults()
                &&& final(self).workspace_maps() == old(self).workspace_maps()
            },
            spec_is_air_toml(path@) ==> {
                &&& r == (user_defaults is Some || reloads@.len() > 0)
                &&& final(self).defaults() == (match user_defaults {
                    Some(d) => d,
                    None => old(self).defaults(),
                })
                &&& final(self).workspace_maps() == reloaded_maps(
                    old(self).workspace_maps(),
                    old(self).workspace_keys(),
                    reloads@,
                )
            },
    {
        if !is_air_toml(path) {
            return false;
        }
        let mut changed = false;
        if let Some(d) = user_defaults {
            self.set_default_settings(d);
            changed = true;
        }
        let ghost all = reloads@;
        let ghost keys = self.workspace_keys();
        let ghost m0 = self.workspace_maps();
        let ghost d0 = self.defaults();
        let mut rest = reloads;
        let ghost mut k: int = 0;
        proof {
            assert(all.take(0) =~= Seq::<(usize, Option<Vec<DiscoveredSettings>>)>::empty());
            assert(all.skip(0) =~= all);
        }
        while rest.len() > 0
            invariant
                self.wf(),
                0 <= k <= all.len(),
                rest@ == all.skip(k),
                self.workspace_keys() == keys,
                self.workspace_texts() == old(self).workspace_texts(),
                keys.len() == self.workspaces().len(),
                self.defaults() == d0,
                self.workspace_maps() == reloaded_maps(m0, keys, all.take(k)),
                forall|j: int| 0 <= j < all.len() ==> #[trigger] all[j].0 < keys.len(),
                changed == (user_defaults is Some || k > 0),
            decreases rest.len(),
        {
            let ghost before = rest@;
            let (index, discovered) = rest.remove(0);
            proof {
                assert(before[0] == all[k]);
                assert(all[k].0 < keys.len());
                assert(rest@ =~= all.skip(k + 1));
                assert(self.workspaces()[index as int].0 == keys[index as int]);
            }
            self.reload_workspace(index, discovered);
            changed = true;
            proof {
                assert(all.take(k + 1).drop_last() =~= all.take(k));
                assert(all.take(k + 1).last() == all[k]);
                k = k + 1;
            }
        }
        proof {
            assert(all.take(k) =~= all);
        }
        changed
    }
}

/// The settings map of a workspace folder reloaded with `discovered`: what was
/// discovered, or nothing when rediscovery failed.
pub open spec fn reload_map(discovered: Option<Vec<DiscoveredSettings>>) -> Map<Seq<Part>, Settings> {
    match discovered {
        Some(ds) => added_map(discovered_view(ds@)),
        None => Map::empty(),
    }
}

/// The workspace maps after reloading, in order, each workspace folder listed in
/// `reloads` by its index into `keys`.
pub open spec fn reloaded_maps(
    m: Map<Seq<Part>, Map<Seq<Part>, Settings>>,
    keys: Seq<Seq<Part>>,
    reloads: Seq<(usize, Option<Vec<DiscoveredSettings>>)>,
) -> Map<Seq<Part>, Map<Seq<Part>, Settings>>
    decreases reloads.len(),
{
    if reloads.len() == 0 {
        m
    } else {
        reloaded_maps(m, keys, reloads.drop_last()).insert(
            keys[reloads.last().0 as int],
            reload_map(reloads.last().1),
        )
    }
}

/// Whether the changed file at `path` is the user level `air.toml`: its parent
/// directory is the user configuration directory (both absent counts as equal).
pub fn is_user_level_air_toml(path: &FsPath, user_config_dir: Option<&FsPath>) -> (r: bool)
    ensures
        r == (crate::path::parent_of(path@) == match user_config_dir {
            Some(d) => Some(d@),
            None => None,
        }),
{
    match (path.parent(), user_config_dir) {
        (Some(p), Some(d)) => {
            let c = p.compare(d);
            proof {
                crate::path::lemma_path_order();
            }
            match c {
                crate::path::PathOrder::Equal => true,
                _ => false,
            }
        },
        (None, None) => true,
        _ => false,
    }
}

/// A project level `air.toml` wins over the user level one: for a path under a
/// workspace folder and under one of its `air.toml` directories, the settings found
/// do not depend on the workspace default settings, and come from that `air.toml`.
pub proof fn law_project_settings_win_over_user_settings(
    workspaces: Seq<(Seq<Part>, SettingsResolver)>,
    defaults1: WorkspaceDefaultSettings,
    defaults2: WorkspaceDefaultSettings,
    path: Seq<Part>,
)
    requires
        has_match(workspaces, path),
        has_match(
            (choose|x: (Seq<Part>, SettingsResolver)| is_closest_entry(workspaces, path, x)).1@,
            path,
        ),
    ensures
        spec_settings_for_path(workspaces, defaults1, path) == spec_settings_for_path(
            workspaces,
            defaults2,
            path,
        ),
        spec_settings_for_path(workspaces, defaults1, path) is Toml,
{
}

/// Where no project `air.toml` applies to a path (it is under no workspace folder,
/// or under none of its workspace folder's `air.toml` directories), the settings
/// found are the workspace default settings exactly as they are: those of the user
/// level `air.toml` come back as `air.toml` settings, Air's defaults as defaults. The
/// answer is the same as for the path with no workspace folder open at all.
pub proof fn law_user_settings_apply_without_project_air_toml(
    workspaces: Seq<(Seq<Part>, SettingsResolver)>,
    defaults: WorkspaceDefaultSettings,
    path: Seq<Part>,
)
    requires
        has_match(workspaces, path) ==> !has_match(
            (choose|x: (Seq<Part>, SettingsResolver)| is_closest_entry(workspaces, path, x)).1@,
            path,
        ),
    ensures
        spec_settings_for_path(workspaces, defaults, path) == spec_settings_for_path(
            Seq::<(Seq<Part>, SettingsResolver)>::empty(),
            defaults,
            path,
        ),
        defaults matches WorkspaceDefaultSettings::Toml(s) ==> spec_settings_for_path(
            workspaces,
            defaults,
            path,
        ) == SettingsSource::Toml(s),
        defaults matches WorkspaceDefaultSettings::Default(s) ==> spec_settings_for_path(
            workspaces,
            defaults,
            path,
        ) == SettingsSource::Default(s),
{
    assert(!has_match(Seq::<(Seq<Part>, SettingsResolver)>::empty(), path));
}

/// The workspace default settings (the user level `air.toml`, or Air's defaults)
/// are the fallback for a path under no workspace folder.
pub proof fn law_defaults_are_the_fallback(
    workspaces: Seq<(Seq<Part>, SettingsResolver)>,
    defaults: WorkspaceDefaultSettings,
    path: Seq<Part>,
)
    requires
        !has_match(workspaces, path),
    ensures
        spec_settings_for_path(workspaces, defaults, path) == default_source(defaults),
{
}

/// Whether `path` names an `air.toml` file: its last component is `air.toml` or
/// `.air.toml`.
pub open spec fn spec_is_air_toml(path: Seq<Part>) -> bool {
    path.len() > 0 && (path.last() == Part::Name("air.toml"@) || path.last() == Part::Name(
        ".air.toml"@,
    ))
}

/// Whether `path` names an `air.toml` file.
pub fn is_air_toml(path: &FsPath) -> (r: bool)
    ensures
        r == spec_is_air_toml(path@),
{
    let components = path.components();
    let n = components.len();
    if n == 0 {
        return false;
    }
    proof {
        assert(crate::path::components_view(components@)[n - 1] == components@[n - 1]@);
    }
    match &components[n - 1] {
        PathComponent::Normal(name) => str_equal(name.as_str(), "air.toml") || str_equal(
            name.as_str(),
            ".air.toml",
        ),
        _ => false,
    }
}

/// The files the language server asks the client to watch, each as an optional
/// base directory URL and a glob: project level `air.toml` and `.air.toml` files
/// anywhere in the workspace, and, when the client supports patterns relative to a
/// base directory and the user configuration directory is known (as the URL
/// `user_config_dir`), the user level ones in that directory.
pub open spec fn spec_air_toml_watchers(
    relative_pattern_support: bool,
    user_config_dir: Option<Seq<char>>,
) -> Seq<(Option<Seq<char>>, Seq<char>)> {
    let project = seq![(None, "**/air.toml"@), (None, "**/.air.toml"@)];
    if relative_pattern_support && user_config_dir is Some {
        project + seq![
            (user_config_dir, "air.toml"@),
            (user_config_dir, ".air.toml"@),
        ]
    } else {
        project
    }
}

/// The view of a list of watchers.
pub open spec fn watchers_view(v: Seq<(Option<String>, String)>) -> Seq<(Option<Seq<char>>, Seq<char>)> {
    v.map_values(
        |w: (Option<String>, String)|
            (
                match w.0 {
                    Some(b) => Some(b@),
                    None => None,
                },
                w.1@,
            ),
    )
}

/// Watch for changes in configuration files so we can react dynamically: the
/// watchers described by [spec_air_toml_watchers].
pub fn air_toml_watchers(relative_pattern_support: bool, user_config_dir: Option<&str>) -> (r: Vec<
    (Option<String>, String),
>)
    ensures
        watchers_view(r@) == spec_air_toml_watchers(
            relative_pattern_support,
            match user_config_dir {
                Some(d) => Some(d@),
                None => None,
            },
        ),
{
    let mut watchers: Vec<(Option<String>, String)> = Vec::new();
    watchers.push((None, String::from_str("**/air.toml")));
    watchers.push((None, String::from_str("**/.air.toml")));
    if relative_pattern_support {
        if let Some(directory) = user_config_dir {
            watchers.push((Some(String::from_str(directory)), String::from_str("air.toml")));
            watchers.push((Some(String::from_str(directory)), String::from_str(".air.toml")));
        }
    }
    let ghost d = match user_config_dir {
        Some(d) => Some(d@),
        None => None::<Seq<char>>,
    };
    assert(watchers_view(watchers@) =~= spec_air_toml_watchers(relative_pattern_support, d));
    watchers
}

} // verus!
