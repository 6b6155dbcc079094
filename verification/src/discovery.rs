//! Which files the formatter picks up, given the settings that apply to them.
//!
//! The directory walk itself (parallel, `.gitignore` aware) belongs to the caller;
//! this module decides, for each entry the walk visits, whether it is skipped,
//! descended into or accepted.
use vstd::prelude::*;

use crate::file_patterns::opt_string_view;
use crate::path::{parent_text, FsPath, Part};
use crate::resolve::{
    is_closest_entry, lemma_closest_entry_exists, lemma_closest_entry_unique,
    resolved_value, PathResolver,
};
use crate::settings::{DefaultExcludePatterns, DefaultIncludePatterns, ExcludePatterns, Settings};

verus! {

/// Settings found in an `air.toml`, with the directory that holds it.
#[derive(Debug)]
pub struct DiscoveredSettings {
    pub directory: FsPath,
    pub settings: Settings,
}

/// File discovery mode
///
/// Currently only for the formatter, but it is likely we would use the same
/// infrastructure for a linter, but with different `exclude` and `include` rules.
#[derive(Debug, Clone, Copy, PartialEq, Eq)]
pub enum Mode {
    /// Use formatter specific `exclude` and `include` rules
    Format,
}

#[derive(Debug, Clone, Copy, PartialEq, Eq)]
pub enum Exclude {
    /// Filter out files matching `exclude` and `default_exclude` patterns
    Matched,
    /// Exclude nothing
    Nothing,
}

#[derive(Debug, Clone, Copy, PartialEq, Eq)]
pub enum Include {
    /// Filter for files matching `default_include` patterns
    Matched,
    /// Include everything
    Everything,
}

/// What the walk does with a visited entry.
#[derive(Debug, Clone, Copy, PartialEq, Eq)]
pub enum VisitAction {
    /// Excluded: neither kept nor descended into.
    Skip,
    /// Not kept, but the walk goes on (into it, for a directory).
    Continue,
    /// A file to format: kept, and the walk goes on.
    Accept,
}

/// A reference to the value in `o`, if any.
pub open spec fn opt_ref<A>(o: &Option<A>) -> Option<&A> {
    match o {
        Some(x) => Some(x),
        None => None,
    }
}

/// What [any_exclude_matched_path] answers.
pub open spec fn spec_any_exclude_matched_path(
    path: FsPath,
    is_directory: bool,
    exclude: Option<&ExcludePatterns>,
    default_exclude: Option<&DefaultExcludePatterns>,
) -> Option<Seq<char>> {
    let user = match exclude {
        Some(e) => e.spec_matched(path, is_directory),
        None => None,
    };
    if user is Some {
        user
    } else {
        match default_exclude {
            Some(d) => d.spec_matched(path, is_directory),
            None => None,
        }
    }
}

/// What [any_exclude_matched_path_or_any_parents] answers.
pub open spec fn spec_any_exclude_matched_path_or_any_parents(
    path: FsPath,
    is_directory: bool,
    exclude: Option<&ExcludePatterns>,
    default_exclude: Option<&DefaultExcludePatterns>,
) -> Option<Seq<char>> {
    let user = match exclude {
        Some(e) => e.spec_matched_or_parents(path, is_directory),
        None => None,
    };
    if user is Some {
        user
    } else {
        match default_exclude {
            Some(d) => d.spec_matched_or_parents(path, is_directory),
            None => None,
        }
    }
}

/// What [any_include_matched_path] answers.
pub open spec fn spec_any_include_matched_path(
    path: FsPath,
    default_include: Option<&DefaultIncludePatterns>,
) -> Option<Seq<char>> {
    match default_include {
        Some(d) => d.spec_matched(path, false),
        None => None,
    }
}

/// User `exclude` patterns can look at the parents of `path`.
pub open spec fn exclude_parents_matchable(exclude: Option<&ExcludePatterns>, path: FsPath) -> bool {
    match exclude {
        Some(e) => e.parents_matchable(path),
        None => true,
    }
}

/// Returns the glob that matches this `path`, or `None` if no glob matches
///
/// Does not search parents, so a path of `renv/activate.R` would not match
/// a pattern of `**/renv/`
pub fn any_exclude_matched_path(
    path: &FsPath,
    is_directory: bool,
    exclude: Option<&ExcludePatterns>,
    default_exclude: Option<&DefaultExcludePatterns>,
) -> (r: Option<String>)
    ensures
        opt_string_view(r) == spec_any_exclude_matched_path(
            *path,
            is_directory,
            exclude,
            default_exclude,
        ),
{
    if let Some(exclude) = exclude {
        let glob = exclude.matched(path, is_directory);
        if glob.is_some() {
            return glob;
        }
    }
    if let Some(default_exclude) = default_exclude {
        let glob = default_exclude.matched(path, is_directory);
        if glob.is_some() {
            return glob;
        }
    }
    None
}

/// Returns the glob that matches this `path`, or `None` if no glob matches
///
/// Searches parents, so a path of `renv/activate.R` would match a pattern of `**/renv/`,
/// but this has a performance cost, so should only be used when necessary.
pub fn any_exclude_matched_path_or_any_parents(
    path: &FsPath,
    is_directory: bool,
    exclude: Option<&ExcludePatterns>,
    default_exclude: Option<&DefaultExcludePatterns>,
) -> (r: Option<String>)
    requires
        exclude_parents_matchable(exclude, *path),
    ensures
        opt_string_view(r) == spec_any_exclude_matched_path_or_any_parents(
            *path,
            is_directory,
            exclude,
            default_exclude,
        ),
{
    if let Some(exclude) = exclude {
        let glob = exclude.matched_path_or_any_parents(path, is_directory);
        if glob.is_some() {
            return glob;
        }
    }
    if let Some(default_exclude) = default_exclude {
        let glob = default_exclude.matched_path_or_any_parents(path, is_directory);
        if glob.is_some() {
            return glob;
        }
    }
    None
}

/// Returns the glob that matches this `path`, or `None` if no glob matches
///
/// Includes are only about files, so the path is always matched as a file.
pub fn any_include_matched_path(path: &FsPath, default_include: Option<&DefaultIncludePatterns>) -> (r:
    Option<String>)
    ensures
        opt_string_view(r) == spec_any_include_matched_path(*path, default_include),
{
    match default_include {
        Some(default_include) => default_include.matched(path, false),
        None => None,
    }
}

/// The settings that apply to `path`: those of the closest directory registered in
/// `resolver`, or `default_settings` when no registered directory holds `path`.
pub fn settings_for_path<'a>(
    resolver: &'a PathResolver<Settings>,
    default_settings: &'a Settings,
    path: &FsPath,
) -> (r: &'a Settings)
    requires
        resolver.wf(),
    ensures
        *r == resolved_value(resolver@, path@, *default_settings),
{
    match resolver.resolve(path) {
        Some(item) => {
            proof {
                lemma_closest_entry_exists(resolver@, path@);
                let x = choose|x: (Seq<Part>, Settings)| is_closest_entry(resolver@, path@, x);
                lemma_closest_entry_unique(resolver@, path@, x, (item.key(), item.val()));
            }
            item.value()
        },
        None => default_settings,
    }
}

/// `path` is excluded: by the user or default `exclude` patterns, looking at its
/// parents too when it was supplied directly.
pub open spec fn spec_is_excluded(
    settings: Settings,
    path: FsPath,
    is_directly_supplied: bool,
    is_directory: bool,
    exclude: Exclude,
) -> bool {
    match exclude {
        Exclude::Matched => if is_directly_supplied {
            spec_any_exclude_matched_path_or_any_parents(
                path,
                is_directory,
                opt_ref(&settings.format.exclude),
                opt_ref(&settings.format.default_exclude),
            ) is Some
        } else {
            spec_any_exclude_matched_path(
                path,
                is_directory,
                opt_ref(&settings.format.exclude),
                opt_ref(&settings.format.default_exclude),
            ) is Some
        },
        Exclude::Nothing => false,
    }
}

/// What [visit_format] decides for an entry, under `settings`.
pub open spec fn spec_visit_format(
    settings: Settings,
    path: FsPath,
    is_directly_supplied: bool,
    is_directory: bool,
    exclude: Exclude,
    inclusion: Include,
) -> VisitAction {
    if spec_is_excluded(settings, path, is_directly_supplied, is_directory, exclude) {
        VisitAction::Skip
    } else if is_directory {
        VisitAction::Continue
    } else {
        match inclusion {
            Include::Matched => if spec_any_include_matched_path(
                path,
                opt_ref(&settings.format.default_include),
            ) is Some {
                VisitAction::Accept
            } else {
                VisitAction::Continue
            },
            Include::Everything => VisitAction::Accept,
        }
    }
}

/// Decides what the walk does with one entry, using formatter specific `exclude`
/// and `include` rules.
///
/// An entry is directly supplied if the user provided it directly on the command
/// line, rather than it being found by looking into a directory. Directly supplied
/// entries are excluded when they or any of their parents match an `exclude`
/// pattern, so `air format renv/activate.R` is refused because of `**/renv/`;
/// entries found by the walk are only matched themselves, since the walk never
/// descends into an excluded directory.
///
/// Only files that match a `default_include` pattern are accepted, even if they are
/// directly supplied, unless everything is included.
pub fn visit_format(
    path: &FsPath,
    is_directly_supplied: bool,
    is_directory: bool,
    resolver: &PathResolver<Settings>,
    default_settings: &Settings,
    exclude: Exclude,
    inclusion: Include,
) -> (r: VisitAction)
    requires
        resolver.wf(),
        is_directly_supplied && exclude == Exclude::Matched ==> exclude_parents_matchable(
            opt_ref(&resolved_value(resolver@, path@, *default_settings).format.exclude),
            *path,
        ),
    ensures
        r == spec_visit_format(
            resolved_value(resolver@, path@, *default_settings),
            *path,
            is_directly_supplied,
            is_directory,
            exclude,
            inclusion,
        ),
{
    let settings = settings_for_path(resolver, default_settings, path);
    match exclude {
        Exclude::Matched => {
            if is_directly_supplied {
                let glob = any_exclude_matched_path_or_any_parents(
                    path,
                    is_directory,
                    settings.format.exclude.as_ref(),
                    settings.format.default_exclude.as_ref(),
                );
                if glob.is_some() {
                    return VisitAction::Skip;
                }
            } else {
                let glob = any_exclude_matched_path(
                    path,
                    is_directory,
                    settings.format.exclude.as_ref(),
                    settings.format.default_exclude.as_ref(),
                );
                if glob.is_some() {
                    return VisitAction::Skip;
                }
            }
        },
        Exclude::Nothing => {},
    }
    if is_directory {
        // Recurse into any directory that hasn't been excluded
        return VisitAction::Continue;
    }
    match inclusion {
        Include::Matched => {
            let glob = any_include_matched_path(path, settings.format.default_include.as_ref());
            if glob.is_some() {
                VisitAction::Accept
            } else {
                VisitAction::Continue
            }
        },
        Include::Everything => VisitAction::Accept,
    }
}

// ---------------------------------------------------------------------------
// Laws

/// Supplying a path directly never lets it past an `exclude` pattern that would
/// stop it during a walk: whatever the walk excludes, direct supply excludes too.
pub proof fn law_walk_exclusion_implies_direct_exclusion(
    settings: Settings,
    path: FsPath,
    is_directory: bool,
)
    ensures
        spec_is_excluded(settings, path, false, is_directory, Exclude::Matched) ==> spec_is_excluded(
            settings,
            path,
            true,
            is_directory,
            Exclude::Matched,
        ),
{
}

/// User and default `exclude` patterns combine as a union: a path is excluded when
/// either set matches it, whatever the other one holds. Setting user patterns
/// never turns the default patterns off.
pub proof fn law_excludes_combine(
    path: FsPath,
    is_directory: bool,
    exclude: Option<&ExcludePatterns>,
    default_exclude: Option<&DefaultExcludePatterns>,
)
    ensures
        spec_any_exclude_matched_path(path, is_directory, exclude, default_exclude) is Some <==> (
        (exclude matches Some(e) && e.spec_matched(path, is_directory) is Some) || (
        default_exclude matches Some(d) && d.spec_matched(path, is_directory) is Some)),
        spec_any_exclude_matched_path_or_any_parents(path, is_directory, exclude, default_exclude) is Some
            <==> ((exclude matches Some(e) && e.spec_matched_or_parents(path, is_directory) is Some)
            || (default_exclude matches Some(d) && d.spec_matched_or_parents(
            path,
            is_directory,
        ) is Some)),
{
}

/// An entry that a default `exclude` pattern matches is skipped, by the walk and
/// when supplied directly, whatever user `exclude` patterns the settings hold.
pub proof fn law_default_excludes_always_apply(
    settings: Settings,
    path: FsPath,
    is_directly_supplied: bool,
    is_directory: bool,
    inclusion: Include,
)
    requires
        settings.format.default_exclude matches Some(d) && d.spec_matched(path, is_directory) is Some,
    ensures
        spec_visit_format(
            settings,
            path,
            is_directly_supplied,
            is_directory,
            Exclude::Matched,
            inclusion,
        ) == VisitAction::Skip,
{
    law_excludes_combine(
        path,
        is_directory,
        opt_ref(&settings.format.exclude),
        opt_ref(&settings.format.default_exclude),
    );
    let d = settings.format.default_exclude->0;
    if let Some(p) = d.inner() {
        assert(d.spec_matched_or_parents(path, is_directory) == p.spec_matched_or_parents(path, is_directory));
    }
}

/// A user `exclude` pattern that matches an entry makes it skipped too.
pub proof fn law_user_excludes_apply(
    settings: Settings,
    path: FsPath,
    is_directly_supplied: bool,
    is_directory: bool,
    inclusion: Include,
)
    requires
        settings.format.exclude matches Some(e) && e.spec_matched(path, is_directory) is Some,
    ensures
        spec_visit_format(
            settings,
            path,
            is_directly_supplied,
            is_directory,
            Exclude::Matched,
            inclusion,
        ) == VisitAction::Skip,
{
    law_excludes_combine(
        path,
        is_directory,
        opt_ref(&settings.format.exclude),
        opt_ref(&settings.format.default_exclude),
    );
}

/// With `default_include` patterns in force, a file is accepted only when one of
/// them matches it; a file that one matches is accepted unless it is excluded.
pub proof fn law_files_are_accepted_by_default_include(
    settings: Settings,
    path: FsPath,
    is_directly_supplied: bool,
    exclude: Exclude,
)
    ensures
        spec_visit_format(settings, path, is_directly_supplied, false, exclude, Include::Matched)
            == VisitAction::Accept ==> (settings.format.default_include matches Some(d)
            && d.spec_matched(path, false) is Some),
        exclude == Exclude::Nothing && (settings.format.default_include matches Some(d)
            && d.spec_matched(path, false) is Some) ==> spec_visit_format(
            settings,
            path,
            is_directly_supplied,
            false,
            exclude,
            Include::Matched,
        ) == VisitAction::Accept,
{
}

/// Excluding nothing and including everything (`--force`) formats every file and
/// descends into every directory.
pub proof fn law_force_formats_everything(
    settings: Settings,
    path: FsPath,
    is_directly_supplied: bool,
    is_directory: bool,
)
    ensures
        spec_visit_format(
            settings,
            path,
            is_directly_supplied,
            is_directory,
            Exclude::Nothing,
            Include::Everything,
        ) == (if is_directory {
            VisitAction::Continue
        } else {
            VisitAction::Accept
        }),
{
}

/// Only files are handed to the formatter; a directory is descended into or skipped.
pub proof fn law_directories_are_never_accepted(
    settings: Settings,
    path: FsPath,
    is_directly_supplied: bool,
    exclude: Exclude,
    inclusion: Include,
)
    ensures
        spec_visit_format(settings, path, is_directly_supplied, true, exclude, inclusion)
            != VisitAction::Accept,
{
}

/// When nothing is excluded, nothing is skipped.
pub proof fn law_exclude_nothing_never_skips(
    settings: Settings,
    path: FsPath,
    is_directly_supplied: bool,
    is_directory: bool,
    inclusion: Include,
)
    ensures
        spec_visit_format(
            settings,
            path,
            is_directly_supplied,
            is_directory,
            Exclude::Nothing,
            inclusion,
        ) != VisitAction::Skip,
{
}

// ---------------------------------------------------------------------------
// Walking up from the supplied paths, looking for `air.toml`s

/// `path` is held in `dirs`.
pub open spec fn seen_contains(dirs: Seq<Seq<Part>>, path: Seq<Part>) -> bool {
    exists|i: int| 0 <= i < dirs.len() && #[trigger] dirs[i] == path
}

/// No directory occurs twice in `dirs`.
pub open spec fn no_repeats(dirs: Seq<Seq<Part>>) -> bool {
    forall|i: int, j: int| 0 <= i < j < dirs.len() ==> #[trigger] dirs[i] != #[trigger] dirs[j]
}

/// `dir` is a leading part of one of `paths`.
pub open spec fn under_some(paths: Seq<Seq<Part>>, dir: Seq<Part>) -> bool {
    exists|i: int| 0 <= i < paths.len() && dir.is_prefix_of(#[trigger] paths[i])
}

/// The walk up the ancestors of each supplied path, looking for `air.toml`s.
///
/// For each path, in order, the walk visits the path and then each of its parents
/// in turn. It stops at the first directory that holds an `air.toml`, and at a
/// directory that an earlier walk already visited, since what lies above it has
/// been looked at then. So no directory is looked at twice.
///
/// The caller drives the walk: [SettingsDiscovery::next_directory] names the next
/// directory to look in, and [SettingsDiscovery::report] says whether an `air.toml`
/// was found there.
#[derive(Debug)]
pub struct SettingsDiscovery {
    paths: Vec<FsPath>,
    next_path: usize,
    current: Option<FsPath>,
    seen: Vec<FsPath>,
}

pub open spec fn paths_view(v: Seq<FsPath>) -> Seq<Seq<Part>> {
    v.map_values(|p: FsPath| p@)
}

/// The text of the next directory of the walk, where [walk_step] gives one: the
/// pending directory's text, or that of the supplied path whose walk begins.
pub open spec fn walk_step_text(
    inputs: Seq<Seq<Part>>,
    input_texts: Seq<Seq<char>>,
    visited: Seq<Seq<Part>>,
    started: int,
    pending: Option<Seq<Part>>,
    pending_text: Seq<char>,
) -> Seq<char> {
    if pending matches Some(p) && !seen_contains(visited, p) {
        pending_text
    } else {
        input_texts[first_unvisited_from(inputs, visited, started)]
    }
}

/// The texts of a sequence of paths.
pub open spec fn texts_view(v: Seq<FsPath>) -> Seq<Seq<char>> {
    v.map_values(|p: FsPath| p.text())
}

/// The components of an optional path.
pub open spec fn opt_path_view(o: Option<FsPath>) -> Option<Seq<Part>> {
    match o {
        Some(p) => Some(p@),
        None => None,
    }
}

/// The index of the first of `inputs`, from `k` on, that is not in `visited`, or
/// the number of inputs when there is none.
pub open spec fn first_unvisited_from(inputs: Seq<Seq<Part>>, visited: Seq<Seq<Part>>, k: int) -> int
    decreases inputs.len() - k,
{
    if k < 0 || k >= inputs.len() {
        inputs.len() as int
    } else if !seen_contains(visited, inputs[k]) {
        k
    } else {
        first_unvisited_from(inputs, visited, k + 1)
    }
}

/// Where the walk goes next, from the supplied paths `inputs`, the directories
/// `visited` so far, the number of supplied paths whose walk has `started`, and the
/// directory `pending` on the current walk: the next directory to look in (if any),
/// and how many walks have started then.
///
/// A pending directory that was not visited before comes first. Otherwise the walk
/// of the next supplied path begins; a supplied path already visited ends its walk at
/// once. When no supplied path is left, the walk is over.
pub open spec fn walk_step(
    inputs: Seq<Seq<Part>>,
    visited: Seq<Seq<Part>>,
    started: int,
    pending: Option<Seq<Part>>,
) -> (Option<Seq<Part>>, int) {
    if pending matches Some(p) && !seen_contains(visited, p) {
        (Some(pending->0), started)
    } else {
        let k = first_unvisited_from(inputs, visited, started);
        if k < inputs.len() {
            (Some(inputs[k]), k + 1)
        } else {
            (None, inputs.len() as int)
        }
    }
}

impl SettingsDiscovery {
    /// The supplied paths.
    pub closed spec fn inputs(&self) -> Seq<Seq<Part>> {
        paths_view(self.paths@)
    }

    /// The directories visited so far, in order.
    pub closed spec fn visited(&self) -> Seq<Seq<Part>> {
        paths_view(self.seen@)
    }

    /// The texts of the supplied paths.
    pub closed spec fn input_texts(&self) -> Seq<Seq<char>> {
        texts_view(self.paths@)
    }

    /// The text of the directory where the walk goes on (empty when there is none).
    pub closed spec fn pending_text(&self) -> Seq<char> {
        match self.current {
            Some(c) => c.text(),
            None => seq![],
        }
    }

    /// How many of the supplied paths have had their walk begun.
    pub closed spec fn started(&self) -> int {
        self.next_path as int
    }

    /// The directory where the walk goes on, if any.
    pub closed spec fn pending(&self) -> Option<Seq<Part>> {
        match self.current {
            Some(c) => Some(c@),
            None => None,
        }
    }

    pub closed spec fn wf(&self) -> bool {
        &&& self.next_path <= self.paths@.len()
        &&& no_repeats(self.visited())
        &&& forall|i: int| 0 <= i < self.visited().len() ==> under_some(self.inputs(), #[trigger] self.visited()[i])
        &&& self.current matches Some(c) ==> under_some(self.inputs(), c@)
    }

    /// A walk over `paths` that has visited nothing yet.
    pub fn new(paths: Vec<FsPath>) -> (r: Self)
        ensures
            r.wf(),
            r.inputs() == paths_view(paths@),
            r.input_texts() == texts_view(paths@),
            r.visited() == Seq::<Seq<Part>>::empty(),
            r.started() == 0,
            r.pending() is None,
    {
        let r = SettingsDiscovery { paths, next_path: 0, current: None, seen: Vec::new() };
        assert(r.visited() =~= Seq::<Seq<Part>>::empty());
        r
    }

    fn is_seen(&self, dir: &FsPath) -> (r: bool)
        ensures
            r == seen_contains(self.visited(), dir@),
    {
        let n = self.seen.len();
        let mut i: usize = 0;
        while i < n
            invariant
                n == self.seen@.len(),
                0 <= i <= n,
                forall|j: int| 0 <= j < i ==> self.visited()[j] != dir@,
            decreases n - i,
        {
            let c = self.seen[i].compare(dir);
            match c {
                crate::path::PathOrder::Equal => {
                    assert(self.visited()[i as int] == dir@);
                    return true;
                },
                _ => {
                    assert(self.visited()[i as int] == self.seen@[i as int]@);
                },
            }
            i = i + 1;
        }
        false
    }

    /// The next directory to look for an `air.toml` in, or `None` when the walk is
    /// over. The directory returned has not been visited before, and lies on the way
    /// up from one of the supplied paths.
    pub fn next_directory(&mut self) -> (r: Option<FsPath>)
        requires
            old(self).wf(),
        ensures
            final(self).wf(),
            final(self).inputs() == old(self).inputs(),
            final(self).input_texts() == old(self).input_texts(),
            0 <= final(self).started() <= final(self).inputs().len(),
            r matches Some(d) ==> d.text() == walk_step_text(
                old(self).inputs(),
                old(self).input_texts(),
                old(self).visited(),
                old(self).started(),
                old(self).pending(),
                old(self).pending_text(),
            ) && final(self).pending_text() == d.text(),
            opt_path_view(r) == walk_step(
                old(self).inputs(),
                old(self).visited(),
                old(self).started(),
                old(self).pending(),
            ).0,
            final(self).started() == walk_step(
                old(self).inputs(),
                old(self).visited(),
                old(self).started(),
                old(self).pending(),
            ).1,
            r matches Some(d) ==> {
                &&& !seen_contains(old(self).visited(), d@)
                &&& final(self).visited() == old(self).visited().push(d@)
                &&& under_some(final(self).inputs(), d@)
                &&& final(self).pending() == Some(d@)
            },
            r is None ==> final(self).visited() == old(self).visited() && final(self).pending() is None,
    {
        loop
            invariant
                self.wf(),
                self.inputs() == old(self).inputs(),
                self.input_texts() == old(self).input_texts(),
                self.visited() == old(self).visited(),
                walk_step(self.inputs(), self.visited(), self.started(), self.pending()).0 is Some
                    ==> walk_step_text(
                    self.inputs(),
                    self.input_texts(),
                    self.visited(),
                    self.started(),
                    self.pending(),
                    self.pending_text(),
                ) == walk_step_text(
                    old(self).inputs(),
                    old(self).input_texts(),
                    old(self).visited(),
                    old(self).started(),
                    old(self).pending(),
                    old(self).pending_text(),
                ),
                walk_step(self.inputs(), self.visited(), self.started(), self.pending()) == walk_step(
                    old(self).inputs(),
                    old(self).visited(),
                    old(self).started(),
                    old(self).pending(),
                ),
            decreases 2 * (self.paths@.len() - self.next_path) + (if self.current is Some {
                1int
            } else {
                0int
            }),
        {
            match self.current.take() {
                Some(dir) => {
                    if !self.is_seen(&dir) {
                        let ghost before = self.seen@;
                        self.seen.push(dir.clone_path());
                        proof {
                            assert(self.visited() =~= paths_view(before).push(dir@));
                            assert(no_repeats(self.visited())) by {
                                assert forall|i: int, j: int| 0 <= i < j < self.visited().len() implies #[trigger]
                                    self.visited()[i] != #[trigger] self.visited()[j] by {
                                    if j == before.len() {
                                        assert(self.visited()[i] == paths_view(before)[i]);
                                    }
                                }
                            }
                        }
                        let result = dir.clone_path();
                        self.current = Some(dir);
                        return Some(result);
                    }
                },
                None => {
                    if self.next_path < self.paths.len() {
                        let path = self.paths[self.next_path].clone_path();
                        proof {
                            assert(self.inputs()[self.next_path as int] == path@);
                            assert(path@.is_prefix_of(path@)) by {
                                assert(path@ =~= path@.subrange(0, path@.len() as int));
                            }
                        }
                        self.current = Some(path);
                        self.next_path = self.next_path + 1;
                    } else {
                        return None;
                    }
                },
            }
        }
    }

    /// Whether the directory last returned by [SettingsDiscovery::next_directory]
    /// holds an `air.toml`. If it does, the walk from this path stops there; if not,
    /// it goes on with the parent directory, if there is one.
    pub fn report(&mut self, found: bool)
        requires
            old(self).wf(),
        ensures
            final(self).wf(),
            final(self).inputs() == old(self).inputs(),
            final(self).input_texts() == old(self).input_texts(),
            final(self).visited() == old(self).visited(),
            final(self).started() == old(self).started(),
            !found && final(self).pending() is Some ==> final(self).pending_text() == parent_text(
                old(self).pending_text(),
            ),
            found ==> final(self).pending() is None,
            !found ==> final(self).pending() == (match old(self).pending() {
                Some(p) => crate::path::parent_of(p),
                None => None,
            }),
    {
        match self.current.take() {
            Some(dir) => {
                if !found {
                    let parent = dir.parent();
                    proof {
                        if let Some(p) = &parent {
                            let i = choose|i: int|
                                0 <= i < self.inputs().len() && dir@.is_prefix_of(
                                    #[trigger] self.inputs()[i],
                                );
                            assert(p@ =~= dir@.drop_last());
                            assert(p@.is_prefix_of(self.inputs()[i])) by {
                                assert(p@ =~= self.inputs()[i].subrange(0, p@.len() as int));
                            }
                        }
                    }
                    self.current = parent;
                }
            },
            None => {},
        }
    }
}

/// The `air.toml` of the directory `directory`, given whether it holds an
/// `air.toml` and whether it holds a `.air.toml`: the visible `air.toml` is
/// preferred over the hidden `.air.toml`.
pub fn air_toml_in_directory(directory: &FsPath, has_air_toml: bool, has_dot_air_toml: bool) -> (r:
    Option<FsPath>)
    ensures
        has_air_toml ==> (r matches Some(p) && p@ == directory@.push(Part::Name("air.toml"@))
            && p.text() == crate::path::join_text(directory.text(), "air.toml"@)),
        !has_air_toml && has_dot_air_toml ==> (r matches Some(p) && p@ == directory@.push(
            Part::Name(".air.toml"@),
        ) && p.text() == crate::path::join_text(directory.text(), ".air.toml"@)),
        !has_air_toml && !has_dot_air_toml ==> r is None,
{
    proof {
        reveal_strlit("air.toml");
        reveal_strlit(".air.toml");
        assert(crate::path::is_plain_name("air.toml"@)) by {
            assert forall|i: int| 0 <= i < "air.toml"@.len() implies "air.toml"@[i] != '/' by {}
            assert("air.toml"@.len() != 1 && "air.toml"@.len() != 2);
        }
        assert(crate::path::is_plain_name(".air.toml"@)) by {
            assert forall|i: int| 0 <= i < ".air.toml"@.len() implies ".air.toml"@[i] != '/' by {}
            assert(".air.toml"@.len() != 1 && ".air.toml"@.len() != 2);
        }
    }
    if has_air_toml {
        Some(directory.join("air.toml"))
    } else if has_dot_air_toml {
        Some(directory.join(".air.toml"))
    } else {
        None
    }
}

} // verus!
