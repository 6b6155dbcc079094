//! Formatter settings, as far as file selection reads them: user `exclude`
//! patterns and the default `exclude` and `include` patterns.
use vstd::prelude::*;

use crate::file_patterns::{
    has_doublestar_prefix, lines_view, opt_string_view, unrooted, usable_prefix,
    PatternError, RootedFilePatterns, UnrootedFilePatterns,
};
use crate::gitignore::{build_accepted, lines_add_glob, parents_match_defined, strip_dot_slash};
use crate::path::FsPath;

verus! {

/// User supplied `exclude` patterns
///
/// The presence of a `root` at construction time determines the variant:
/// - A project `air.toml` roots its patterns at the folder it lives in, giving
///   [ExcludePatterns::Rooted].
/// - A user level `air.toml` has no project directory to root against, giving
///   [ExcludePatterns::Unrooted], whose patterns must each match at any depth.
#[derive(Debug)]
pub enum ExcludePatterns {
    Rooted(RootedFilePatterns),
    Unrooted(UnrootedFilePatterns),
}

impl ExcludePatterns {
    /// What [ExcludePatterns::matched] answers for `path`.
    pub open spec fn spec_matched(&self, path: FsPath, is_directory: bool) -> Option<Seq<char>> {
        match self {
            ExcludePatterns::Rooted(p) => p.spec_matched(path.text(), is_directory),
            ExcludePatterns::Unrooted(p) => p.spec_matched(path.text(), is_directory),
        }
    }

    /// What [ExcludePatterns::matched_path_or_any_parents] answers for `path`.
    pub open spec fn spec_matched_or_parents(&self, path: FsPath, is_directory: bool) -> Option<
        Seq<char>,
    > {
        match self {
            ExcludePatterns::Rooted(p) => p.spec_matched_or_parents(path.text(), is_directory),
            ExcludePatterns::Unrooted(p) => p.spec_matched_or_parents(path, is_directory),
        }
    }

    /// Rooted patterns can only look at the parents of a path that, with their root
    /// stripped, is relative (or when they hold no glob at all).
    pub open spec fn parents_matchable(&self, path: FsPath) -> bool {
        match self {
            ExcludePatterns::Rooted(p) => parents_match_defined(p.root(), p.patterns(), path.text()),
            ExcludePatterns::Unrooted(_) => true,
        }
    }

    /// Whether [ExcludePatterns::matched_path_or_any_parents] can look at the
    /// parents of `path`.
    pub fn can_match_parents(&self, path: &FsPath) -> (r: bool)
        ensures
            r == self.parents_matchable(*path),
    {
        match self {
            ExcludePatterns::Rooted(p) => p.can_match_parents(path),
            ExcludePatterns::Unrooted(_) => true,
        }
    }

    /// Construct [ExcludePatterns] from a list of patterns
    ///
    /// A `root` of `Some` roots the patterns at that directory. A `root` of `None` means
    /// there is no directory to root against, so every pattern must match at any depth,
    /// otherwise an error is returned.
    pub fn try_from_iter(root: Option<&FsPath>, patterns: Vec<&str>) -> (r: Result<
        Self,
        PatternError,
    >)
        ensures
            root matches Some(rt) ==> {
                &&& r is Ok <==> usable_lines(lines_view(patterns@)) && build_accepted(
                    lines_view(patterns@),
                )
                &&& r matches Ok(e) ==> e matches ExcludePatterns::Rooted(m) && m.patterns()
                    == lines_view(patterns@) && m.root() == (if lines_add_glob(
                    lines_view(patterns@),
                ) {
                    strip_dot_slash(rt.text())
                } else {
                    Seq::<char>::empty()
                })
                &&& r matches Err(e) ==> e is Glob
            },
            root is None ==> {
                &&& r is Ok <==> usable_prefix(lines_view(patterns@), patterns@.len() as int)
                    && build_accepted(lines_view(patterns@))
                &&& r matches Ok(e) ==> e matches ExcludePatterns::Unrooted(m) && m.root()
                    == Seq::<char>::empty() && m.patterns() == lines_view(patterns@)
            },
    {
        match root {
            Some(root) => match RootedFilePatterns::try_from_iter(root, patterns) {
                Ok(p) => Ok(ExcludePatterns::Rooted(p)),
                Err(e) => Err(e),
            },
            None => match UnrootedFilePatterns::try_from_iter(patterns) {
                Ok(p) => Ok(ExcludePatterns::Unrooted(p)),
                Err(e) => Err(e),
            },
        }
    }

    /// Returns the glob that matches this `path`, or `None` if no glob matches
    pub fn matched(&self, path: &FsPath, is_directory: bool) -> (r: Option<String>)
        ensures
            opt_string_view(r) == self.spec_matched(*path, is_directory),
    {
        match self {
            ExcludePatterns::Rooted(p) => p.matched(path, is_directory),
            ExcludePatterns::Unrooted(p) => p.matched(path, is_directory),
        }
    }

    /// Returns the glob that matches this `path` or any parent, or `None` if no glob
    /// matches
    pub fn matched_path_or_any_parents(&self, path: &FsPath, is_directory: bool) -> (r: Option<
        String,
    >)
        requires
            self.parents_matchable(*path),
        ensures
            opt_string_view(r) == self.spec_matched_or_parents(*path, is_directory),
    {
        match self {
            ExcludePatterns::Rooted(p) => p.matched_path_or_any_parents(path, is_directory),
            ExcludePatterns::Unrooted(p) => p.matched_path_or_any_parents(path, is_directory),
        }
    }
}

/// Every line is accepted by the glob parser.
pub open spec fn usable_lines(lines: Seq<Seq<char>>) -> bool {
    crate::file_patterns::all_lines_accepted(lines)
}

// ---------------------------------------------------------------------------
// Default patterns

/// The default exclude patterns.
///
/// Importantly, default patterns apply with or without a physical `air.toml`, so they
/// cannot use globs that only match absolute paths underneath a `root`: no leading
/// `/` (like `/renv`), and no interior `/` (like `renv/*.R`). To make this easy to
/// check, every default pattern starts with `**/`.
pub open spec fn default_exclude_names() -> Seq<Seq<char>> {
    seq![
        "**/.git/"@,
        "**/renv/"@,
        "**/revdep/"@,
        "**/cpp11.R"@,
        "**/RcppExports.R"@,
        "**/extendr-wrappers.R"@,
        "**/import-standalone-*.R"@,
    ]
}

/// The default include patterns: R files, with either case of extension.
pub open spec fn default_include_names() -> Seq<Seq<char>> {
    seq!["**/*.R"@, "**/*.r"@]
}

/// The names of the default exclude patterns.
pub fn default_exclude_pattern_names() -> (r: Vec<&'static str>)
    ensures
        lines_view(r@) == default_exclude_names(),
{
    let r = vec![
        "**/.git/",
        "**/renv/",
        "**/revdep/",
        "**/cpp11.R",
        "**/RcppExports.R",
        "**/extendr-wrappers.R",
        "**/import-standalone-*.R",
    ];
    assert(lines_view(r@) =~= default_exclude_names());
    r
}

/// The names of the default include patterns.
pub fn default_include_pattern_names() -> (r: Vec<&'static str>)
    ensures
        lines_view(r@) == default_include_names(),
{
    let r = vec!["**/*.R", "**/*.r"];
    assert(lines_view(r@) =~= default_include_names());
    r
}

/// The default exclude patterns are exactly these, in this order: the `.git`,
/// `renv` and `revdep` folders, and the generated files `cpp11.R`,
/// `RcppExports.R`, `extendr-wrappers.R` and `import-standalone-*.R`; and the
/// default include patterns are the R files `**/*.R` and `**/*.r`.
pub proof fn law_default_pattern_lists()
    ensures
        default_exclude_names() == seq![
            "**/.git/"@,
            "**/renv/"@,
            "**/revdep/"@,
            "**/cpp11.R"@,
            "**/RcppExports.R"@,
            "**/extendr-wrappers.R"@,
            "**/import-standalone-*.R"@,
        ],
        default_include_names() == seq!["**/*.R"@, "**/*.r"@],
{
}

/// Every default exclude pattern starts with `**/`, so it is unrooted and matches
/// at any depth.
pub proof fn law_default_exclude_patterns_are_unrooted()
    ensures
        forall|i: int|
            0 <= i < default_exclude_names().len() ==> has_doublestar_prefix(
                #[trigger] default_exclude_names()[i],
            ) && unrooted(default_exclude_names()[i]),
{
    reveal_strlit("**/.git/");
    reveal_strlit("**/renv/");
    reveal_strlit("**/revdep/");
    reveal_strlit("**/cpp11.R");
    reveal_strlit("**/RcppExports.R");
    reveal_strlit("**/extendr-wrappers.R");
    reveal_strlit("**/import-standalone-*.R");
    let names = default_exclude_names();
    assert forall|i: int| 0 <= i < names.len() implies has_doublestar_prefix(#[trigger] names[i])
        && unrooted(names[i]) by {
        assert(names[i][0] == '*' && names[i][1] == '*' && names[i][2] == '/');
    }
}

/// Every default include pattern starts with `**/` too.
pub proof fn law_default_include_patterns_are_unrooted()
    ensures
        forall|i: int|
            0 <= i < default_include_names().len() ==> has_doublestar_prefix(
                #[trigger] default_include_names()[i],
            ) && unrooted(default_include_names()[i]),
{
    reveal_strlit("**/*.R");
    reveal_strlit("**/*.r");
    let names = default_include_names();
    assert forall|i: int| 0 <= i < names.len() implies has_doublestar_prefix(#[trigger] names[i])
        && unrooted(names[i]) by {
        assert(names[i][0] == '*' && names[i][1] == '*' && names[i][2] == '/');
    }
}

/// The unrooted patterns built from `names`, or none when the glob compiler
/// refuses them.
fn build_default(names: Vec<&'static str>) -> (r: Option<UnrootedFilePatterns>)
    ensures
        r is Some <==> usable_prefix(lines_view(names@), names@.len() as int) && build_accepted(
            lines_view(names@),
        ),
        r matches Some(m) ==> m.root() == Seq::<char>::empty() && m.patterns() == lines_view(
            names@,
        ),
{
    match UnrootedFilePatterns::try_from_iter(names) {
        Ok(p) => Some(p),
        Err(_) => None,
    }
}

/// What a matcher that may be missing answers: nothing when it is missing.
pub open spec fn optional_matched(
    m: Option<UnrootedFilePatterns>,
    path: FsPath,
    is_directory: bool,
) -> Option<Seq<char>> {
    match m {
        Some(p) => p.spec_matched(path.text(), is_directory),
        None => None,
    }
}

/// The default exclude patterns, as a typed matcher.
///
/// The patterns are fixed and unrooted; the `ignore` crate compiles them when the
/// value is created. Should it refuse them, the matcher is empty and matches nothing.
#[derive(Debug)]
pub struct DefaultExcludePatterns {
    patterns: Option<UnrootedFilePatterns>,
}

impl DefaultExcludePatterns {
    /// The compiled patterns, when the compiler accepted them.
    pub closed spec fn inner(&self) -> Option<UnrootedFilePatterns> {
        self.patterns
    }

    /// What [DefaultExcludePatterns::matched] answers for `path`.
    pub open spec fn spec_matched(&self, path: FsPath, is_directory: bool) -> Option<Seq<char>> {
        optional_matched(self.inner(), path, is_directory)
    }

    /// What [DefaultExcludePatterns::matched_path_or_any_parents] answers for `path`.
    pub open spec fn spec_matched_or_parents(&self, path: FsPath, is_directory: bool) -> Option<
        Seq<char>,
    > {
        match self.inner() {
            Some(p) => p.spec_matched_or_parents(path, is_directory),
            None => None,
        }
    }

    /// Returns the glob that matches this `path`, or `None` if no glob matches
    pub fn matched(&self, path: &FsPath, is_directory: bool) -> (r: Option<String>)
        ensures
            opt_string_view(r) == self.spec_matched(*path, is_directory),
    {
        match &self.patterns {
            Some(p) => p.matched(path, is_directory),
            None => None,
        }
    }

    /// Returns the glob that matches this `path` or any parent, or `None` if no glob
    /// matches
    pub fn matched_path_or_any_parents(&self, path: &FsPath, is_directory: bool) -> (r: Option<
        String,
    >)
        ensures
            opt_string_view(r) == self.spec_matched_or_parents(*path, is_directory),
    {
        match &self.patterns {
            Some(p) => p.matched_path_or_any_parents(path, is_directory),
            None => None,
        }
    }
}

impl Default for DefaultExcludePatterns {
    /// Default exclude patterns
    fn default() -> (r: Self)
        ensures
            r.inner() is Some <==> usable_prefix(
                default_exclude_names(),
                default_exclude_names().len() as int,
            ) && build_accepted(default_exclude_names()),
            r.inner() matches Some(m) ==> m.root() == Seq::<char>::empty() && m.patterns()
                == default_exclude_names(),
    {
        DefaultExcludePatterns { patterns: build_default(default_exclude_pattern_names()) }
    }
}

/// The default include patterns, as a typed matcher.
///
/// Like [DefaultExcludePatterns], the matcher matches nothing should the `ignore`
/// crate refuse the patterns.
#[derive(Debug)]
pub struct DefaultIncludePatterns {
    patterns: Option<UnrootedFilePatterns>,
}

impl DefaultIncludePatterns {
    /// The compiled patterns, when the compiler accepted them.
    pub closed spec fn inner(&self) -> Option<UnrootedFilePatterns> {
        self.patterns
    }

    /// What [DefaultIncludePatterns::matched] answers for `path`.
    pub open spec fn spec_matched(&self, path: FsPath, is_directory: bool) -> Option<Seq<char>> {
        optional_matched(self.inner(), path, is_directory)
    }

    /// Returns the glob that matches this `path`, or `None` if no glob matches
    pub fn matched(&self, path: &FsPath, is_directory: bool) -> (r: Option<String>)
        ensures
            opt_string_view(r) == self.spec_matched(*path, is_directory),
    {
        match &self.patterns {
            Some(p) => p.matched(path, is_directory),
            None => None,
        }
    }
}

impl Default for DefaultIncludePatterns {
    /// Default include patterns
    fn default() -> (r: Self)
        ensures
            r.inner() is Some <==> usable_prefix(
                default_include_names(),
                default_include_names().len() as int,
            ) && build_accepted(default_include_names()),
            r.inner() matches Some(m) ==> m.root() == Seq::<char>::empty() && m.patterns()
                == default_include_names(),
    {
        DefaultIncludePatterns { patterns: build_default(default_include_pattern_names()) }
    }
}

// ---------------------------------------------------------------------------
// Settings

/// The formatter settings that decide which files are formatted.
#[derive(Debug)]
pub struct FormatSettings {
    /// User supplied `exclude` patterns.
    pub exclude: Option<ExcludePatterns>,
    /// The default exclude patterns, unless turned off.
    pub default_exclude: Option<DefaultExcludePatterns>,
    /// The default include patterns, unless turned off.
    pub default_include: Option<DefaultIncludePatterns>,
}

/// Settings read from an `air.toml`, or the defaults.
#[derive(Debug)]
pub struct Settings {
    pub format: FormatSettings,
}

impl Default for FormatSettings {
    /// No user `exclude`, and the default exclude and include patterns.
    fn default() -> (r: Self)
        ensures
            r.exclude is None,
            r.default_exclude matches Some(d) && (d.inner() matches Some(m) ==> m.patterns()
                == default_exclude_names() && m.root() == Seq::<char>::empty()),
            r.default_include matches Some(d) && (d.inner() matches Some(m) ==> m.patterns()
                == default_include_names() && m.root() == Seq::<char>::empty()),
    {
        FormatSettings {
            exclude: None,
            default_exclude: Some(DefaultExcludePatterns::default()),
            default_include: Some(DefaultIncludePatterns::default()),
        }
    }
}

/// `s` is Air's default settings: no user `exclude` patterns, and the default
/// exclude and include patterns.
pub open spec fn is_default_settings(s: Settings) -> bool {
    &&& s.format.exclude is None
    &&& s.format.default_exclude matches Some(d) && (d.inner() matches Some(m) ==> m.patterns()
        == default_exclude_names() && m.root() == Seq::<char>::empty())
    &&& s.format.default_include matches Some(d) && (d.inner() matches Some(m) ==> m.patterns()
        == default_include_names() && m.root() == Seq::<char>::empty())
}

impl Default for Settings {
    /// The default settings, used where there is no `air.toml`.
    fn default() -> (r: Self)
        ensures
            is_default_settings(r),
    {
        Settings { format: FormatSettings::default() }
    }
}

} // verus!
