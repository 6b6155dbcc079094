//! The decisions of `air format`, for files on disk and for stdin.
//!
//! Reading, formatting and writing are done by the caller; this module decides
//! whether a source is formatted at all, and what its outcome is reported as.
use vstd::prelude::*;

use crate::discovery::{
    any_exclude_matched_path_or_any_parents, any_include_matched_path, exclude_parents_matchable,
    opt_ref, settings_for_path, spec_any_exclude_matched_path_or_any_parents,
    spec_any_include_matched_path, spec_visit_format, Exclude, Include, VisitAction,
};
use crate::path::FsPath;
use crate::resolve::{resolved_value, PathResolver};
use crate::settings::Settings;

verus! {

/// The result of formatting a source.
#[derive(Debug, Clone, PartialEq, Eq)]
pub enum FormattedSource {
    /// The source was formatted into this new text.
    Changed(String),
    /// The source was already formatted.
    Unchanged,
}

/// The text to send back for stdin.
#[derive(Debug, Clone, PartialEq, Eq)]
pub enum FormattedStdin {
    /// Stdin was formatted.
    Changed(String),
    /// Stdin was unchanged.
    Unchanged(String),
}

/// Returns `Some(path)` if a change occurred, otherwise returns `None`
pub fn check_path(path: &FsPath, formatted: FormattedSource) -> (r: Option<FsPath>)
    ensures
        formatted is Changed <==> r is Some,
        r matches Some(p) ==> p@ == path@ && p.text() == path.text(),
{
    match formatted {
        FormattedSource::Changed(_) => Some(path.clone_path()),
        FormattedSource::Unchanged => None,
    }
}

/// The stdin outcome of formatting the text `old` read from stdin.
pub fn format_stdin(old: String, formatted: FormattedSource) -> (r: FormattedStdin)
    ensures
        formatted matches FormattedSource::Changed(new) ==> r == FormattedStdin::Changed(new),
        formatted is Unchanged ==> r == FormattedStdin::Unchanged(old),
{
    match formatted {
        FormattedSource::Changed(new) => FormattedStdin::Changed(new),
        FormattedSource::Unchanged => FormattedStdin::Unchanged(old),
    }
}

/// The stdin outcome of passing the text `old` through unformatted.
pub fn asis_stdin(old: String) -> (r: FormattedStdin)
    ensures
        r == FormattedStdin::Unchanged(old),
{
    FormattedStdin::Unchanged(old)
}

/// The text written to stdout for a stdin outcome.
pub fn stdin_output(formatted: FormattedStdin) -> (r: String)
    ensures
        formatted matches FormattedStdin::Changed(t) ==> r == t,
        formatted matches FormattedStdin::Unchanged(t) ==> r == t,
{
    match formatted {
        FormattedStdin::Changed(changed) => changed,
        FormattedStdin::Unchanged(unchanged) => unchanged,
    }
}

/// What a stdin check reports for the outcome of formatting stdin: whether it
/// changed, or the error.
pub open spec fn stdin_check_result<E>(outcome: Result<FormattedStdin, E>) -> Result<bool, E> {
    match outcome {
        Ok(formatted) => Ok(formatted is Changed),
        Err(e) => Err(e),
    }
}

/// What [is_stdin_formattable] answers.
pub open spec fn spec_is_stdin_formattable(
    path: FsPath,
    settings: Settings,
    exclude: Exclude,
    inclusion: Include,
) -> bool {
    let excluded = match exclude {
        Exclude::Matched => spec_any_exclude_matched_path_or_any_parents(
            path,
            false,
            opt_ref(&settings.format.exclude),
            opt_ref(&settings.format.default_exclude),
        ) is Some,
        Exclude::Nothing => false,
    };
    !excluded && match inclusion {
        Include::Matched => spec_any_include_matched_path(
            path,
            opt_ref(&settings.format.default_include),
        ) is Some,
        Include::Everything => true,
    }
}

/// Determine if stdin is formattable
///
/// Follows the same rules as the discovery of a directly supplied file path, so that
/// `air format path/to/this.R` and `air format --stdin-file-path path/to/this.R`
/// agree: the path and its parents must not match an `exclude` pattern, and the
/// path must match a `default_include` pattern, unless everything is included.
pub fn is_stdin_formattable(path: &FsPath, settings: &Settings, exclude: Exclude, inclusion: Include) -> (r:
    bool)
    requires
        exclude == Exclude::Matched ==> exclude_parents_matchable(
            opt_ref(&settings.format.exclude),
            *path,
        ),
    ensures
        r == spec_is_stdin_formattable(*path, *settings, exclude, inclusion),
{
    match exclude {
        Exclude::Matched => {
            let glob = any_exclude_matched_path_or_any_parents(
                path,
                false,
                settings.format.exclude.as_ref(),
                settings.format.default_exclude.as_ref(),
            );
            if glob.is_some() {
                return false;
            }
        },
        Exclude::Nothing => {},
    }
    match inclusion {
        Include::Matched => any_include_matched_path(
            path,
            settings.format.default_include.as_ref(),
        ).is_some(),
        Include::Everything => true,
    }
}

/// What to do with stdin.
#[derive(Debug)]
pub enum StdinAction<'a> {
    /// Format stdin with these settings.
    Format(&'a Settings),
    /// Pass stdin through unformatted.
    PassThrough,
}

/// Decides whether stdin, standing for the file at `path`, is formatted, and with
/// which settings: those of the closest `air.toml` directory, or the defaults.
pub fn stdin_action<'a>(
    path: &FsPath,
    resolver: &'a PathResolver<Settings>,
    default_settings: &'a Settings,
    exclude: Exclude,
    inclusion: Include,
) -> (r: StdinAction<'a>)
    requires
        resolver.wf(),
        exclude == Exclude::Matched ==> exclude_parents_matchable(
            opt_ref(&resolved_value(resolver@, path@, *default_settings).format.exclude),
            *path,
        ),
    ensures
        r matches StdinAction::Format(s) ==> *s == resolved_value(
            resolver@,
            path@,
            *default_settings,
        ),
        r is Format <==> spec_is_stdin_formattable(
            *path,
            resolved_value(resolver@, path@, *default_settings),
            exclude,
            inclusion,
        ),
{
    let settings = settings_for_path(resolver, default_settings, path);
    if is_stdin_formattable(path, settings, exclude, inclusion) {
        StdinAction::Format(settings)
    } else {
        StdinAction::PassThrough
    }
}

/// `air format --check --stdin-file-path path`: whether formatting stdin, standing
/// for the file at `path`, would change it.
///
/// The settings are those of the closest `air.toml` directory, or the defaults. When
/// stdin is not formattable under them (see [is_stdin_formattable]) the answer is
/// `Ok(false)` and `format_stdin` is not called, so stdin is not even read.
/// Otherwise `format_stdin` reads and formats stdin with those settings, and the
/// answer is whether it changed, or its error.
pub fn format_stdin_check<E, F: FnOnce(&Settings) -> Result<FormattedStdin, E>>(
    path: &FsPath,
    resolver: &PathResolver<Settings>,
    default_settings: &Settings,
    exclude: Exclude,
    inclusion: Include,
    format_stdin: F,
) -> (r: Result<bool, E>)
    requires
        resolver.wf(),
        exclude == Exclude::Matched ==> exclude_parents_matchable(
            opt_ref(&resolved_value(resolver@, path@, *default_settings).format.exclude),
            *path,
        ),
        forall|s: &Settings| #[trigger] call_requires(format_stdin, (s,)),
    ensures
        !spec_is_stdin_formattable(
            *path,
            resolved_value(resolver@, path@, *default_settings),
            exclude,
            inclusion,
        ) ==> r == Ok::<bool, E>(false),
        spec_is_stdin_formattable(
            *path,
            resolved_value(resolver@, path@, *default_settings),
            exclude,
            inclusion,
        ) ==> exists|outcome: Result<FormattedStdin, E>|
            call_ensures(
                format_stdin,
                (&resolved_value(resolver@, path@, *default_settings),),
                outcome,
            ) && r == stdin_check_result(outcome),
{
    let settings = settings_for_path(resolver, default_settings, path);
    if !is_stdin_formattable(path, settings, exclude, inclusion) {
        // Don't even attempt to read from stdin, we know nothing will change
        return Ok(false);
    }
    let outcome = format_stdin(settings);
    let ghost seen = outcome;
    let r = match outcome {
        Ok(FormattedStdin::Changed(_)) => Ok(true),
        Ok(FormattedStdin::Unchanged(_)) => Ok(false),
        Err(e) => Err(e),
    };
    proof {
        assert(*settings == resolved_value(resolver@, path@, *default_settings));
        assert(call_ensures(format_stdin, (settings,), seen));
        assert(r == stdin_check_result(seen));
    }
    r
}

/// Stdin is formatted exactly when the same path, supplied directly on the command
/// line as a file, would be picked up by the file discovery.
pub proof fn law_stdin_agrees_with_discovery(
    path: FsPath,
    settings: Settings,
    exclude: Exclude,
    inclusion: Include,
)
    ensures
        spec_is_stdin_formattable(path, settings, exclude, inclusion) <==> spec_visit_format(
            settings,
            path,
            true,
            false,
            exclude,
            inclusion,
        ) == VisitAction::Accept,
{
}

/// Whether `air format` writes formatted files back, or only checks them.
#[derive(Debug, Clone, Copy, PartialEq, Eq)]
pub enum FormatMode {
    Write,
    Check,
}

/// How `air format` ends.
#[derive(Debug, Clone, Copy, PartialEq, Eq)]
pub enum ExitStatus {
    /// Everything went fine, and in check mode nothing would change.
    Success,
    /// In check mode, some file would be reformatted.
    Failure,
    /// Some file could not be read, formatted or written.
    Error,
}

/// How formatting files on disk ends, given how many files failed and, in check
/// mode, how many would change.
pub fn paths_exit_status(mode: FormatMode, errors: usize, changed: usize) -> (r: ExitStatus)
    ensures
        errors > 0 ==> r == ExitStatus::Error,
        errors == 0 && mode == FormatMode::Write ==> r == ExitStatus::Success,
        errors == 0 && mode == FormatMode::Check && changed == 0 ==> r == ExitStatus::Success,
        errors == 0 && mode == FormatMode::Check && changed > 0 ==> r == ExitStatus::Failure,
{
    if errors > 0 {
        return ExitStatus::Error;
    }
    match mode {
        FormatMode::Write => ExitStatus::Success,
        FormatMode::Check => if changed == 0 {
            ExitStatus::Success
        } else {
            ExitStatus::Failure
        },
    }
}

/// How formatting stdin ends: in error when it failed, and in check mode in failure
/// when stdin would change.
pub fn stdin_exit_status<E>(mode: FormatMode, outcome: &Result<bool, E>) -> (r: ExitStatus)
    ensures
        outcome is Err ==> r == ExitStatus::Error,
        outcome is Ok && mode == FormatMode::Write ==> r == ExitStatus::Success,
        mode == FormatMode::Check ==> (outcome matches Ok(changed) ==> r == (if *changed {
            ExitStatus::Failure
        } else {
            ExitStatus::Success
        })),
{
    match outcome {
        Err(_) => ExitStatus::Error,
        Ok(changed) => match mode {
            FormatMode::Write => ExitStatus::Success,
            FormatMode::Check => if *changed {
                ExitStatus::Failure
            } else {
                ExitStatus::Success
            },
        },
    }
}

} // verus!
