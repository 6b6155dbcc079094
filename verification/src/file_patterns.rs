//! Glob matchers for `exclude` and `include` patterns.
use vstd::prelude::*;

use ignore::gitignore::Gitignore;

use crate::gitignore::{
    builder_add_line, builder_build, builder_lines, builder_root, build_accepted,
    gitignore_matched, gitignore_matched_path_or_any_parents, line_accepted, match_view,
    lines_add_glob, matcher_is_empty, matcher_lines, matcher_matched,
    matcher_matched_path_or_any_parents, matcher_root, new_builder, parents_match_defined,
    starts_with_slash, strip_dot_slash, stripped_path,
};
use crate::path::{parent_of, parent_text, str_equal, FsPath, Part};

verus! {

/// Why a set of patterns could not be turned into a matcher.
#[derive(Debug)]
pub enum PatternError {
    /// A rooted pattern where only unrooted ones are allowed, with the message
    /// that explains it.
    Rooted { pattern: String, message: String },
    /// A pattern whose glob does not parse, or a set of globs that could not be
    /// compiled, as the `ignore` crate reports it.
    Glob(ignore::Error),
}

/// A matching glob's original line when the glob ignores the path; a whitelisted
/// path (`!file.R`) counts as not matched.
pub open spec fn ignored_glob(m: Option<(bool, Seq<char>)>) -> Option<Seq<char>> {
    match m {
        Some((false, g)) => Some(g),
        _ => None,
    }
}

pub open spec fn opt_string_view(o: Option<String>) -> Option<Seq<char>> {
    match o {
        Some(s) => Some(s@),
        None => None,
    }
}

/// Keeps the glob of an ignoring match and drops a whitelisting one.
pub fn ignored_glob_of(m: Option<(bool, String)>) -> (r: Option<String>)
    ensures
        opt_string_view(r) == ignored_glob(match_view(m)),
{
    match m {
        Some((false, glob)) => Some(glob),
        _ => None,
    }
}

/// The patterns as the matcher sees them.
pub open spec fn lines_view(patterns: Seq<&str>) -> Seq<Seq<char>> {
    patterns.map_values(|p: &str| p@)
}

/// Every pattern is accepted by the glob parser.
pub open spec fn all_lines_accepted(lines: Seq<Seq<char>>) -> bool {
    forall|i: int| 0 <= i < lines.len() ==> line_accepted(#[trigger] lines[i])
}

/// Matcher for globs rooted at a directory
///
/// When constructing the matcher, you supply a `root` path along with the `patterns` to
/// be included in the matcher. When [RootedFilePatterns::matched] is called, the `root`
/// path is always stripped from `path` before matching is done. This ensures that users
/// can specify `/special.R` in their `air.toml` to match only `{root}/special.R`, and not
/// also `{root}/subdir/special.R`.
#[derive(Debug)]
pub struct RootedFilePatterns {
    matcher: Gitignore,
    root: String,
}

impl RootedFilePatterns {
    /// The root directory kept beside the matcher is the one it was built with.
    #[verifier::type_invariant]
    closed spec fn root_kept(&self) -> bool {
        self.root@ == matcher_root(self.matcher)
    }

    /// The text of the root directory the patterns are rooted at.
    pub closed spec fn root(&self) -> Seq<char> {
        matcher_root(self.matcher)
    }

    /// Whether [RootedFilePatterns::matched_path_or_any_parents] can look at the
    /// parents of `path`: whether the matcher is empty, or `path` with the root
    /// stripped is relative.
    pub fn can_match_parents(&self, path: &FsPath) -> (r: bool)
        ensures
            r == parents_match_defined(self.root(), self.patterns(), path.text()),
    {
        proof {
            use_type_invariant(self);
        }
        matcher_is_empty(&self.matcher) || stripped_is_relative(self.root.as_str(), path.as_str())
    }

    /// The patterns.
    pub closed spec fn patterns(&self) -> Seq<Seq<char>> {
        matcher_lines(self.matcher)
    }

    /// Construct [RootedFilePatterns] from a list of patterns
    pub fn try_from_iter(root: &FsPath, patterns: Vec<&str>) -> (r: Result<Self, PatternError>)
        ensures
            r is Ok <==> all_lines_accepted(lines_view(patterns@)) && build_accepted(
                lines_view(patterns@),
            ),
            r matches Ok(m) ==> m.patterns() == lines_view(patterns@) && m.root() == (if lines_add_glob(
                lines_view(patterns@),
            ) {
                strip_dot_slash(root.text())
            } else {
                Seq::<char>::empty()
            }),
            r matches Err(e) ==> e is Glob,
    {
        let mut builder = new_builder(root.as_str());
        let n = patterns.len();
        let mut i: usize = 0;
        while i < n
            invariant
                n == patterns@.len(),
                0 <= i <= n,
                builder_root(builder) == strip_dot_slash(root.text()),
                builder_lines(builder) == lines_view(patterns@).take(i as int),
                all_lines_accepted(lines_view(patterns@).take(i as int)),
            decreases n - i,
        {
            let pattern = patterns[i];
            assert(lines_view(patterns@)[i as int] == pattern@);
            match builder_add_line(&mut builder, pattern) {
                Ok(()) => {},
                Err(e) => {
                    return Err(PatternError::Glob(e));
                },
            }
            proof {
                assert(lines_view(patterns@).take(i + 1) =~= lines_view(patterns@).take(
                    i as int,
                ).push(pattern@));
            }
            i = i + 1;
        }
        proof {
            assert(lines_view(patterns@).take(n as int) =~= lines_view(patterns@));
        }
        match builder_build(&builder) {
            Ok(matcher) => {
                let kept_root = if matcher_is_empty(&matcher) {
                    String::new()
                } else {
                    String::from_str(strip_dot_slash_str(root.as_str()))
                };
                Ok(Self { matcher, root: kept_root })
            },
            Err(e) => Err(PatternError::Glob(e)),
        }
    }

    /// Returns the glob that matches this `path`, or `None` if no glob matches
    ///
    /// We consider a whitelisted file to be `None`, i.e. if `"!file.R"` is supplied, then
    /// we effectively treat that as if we weren't matched at all.
    pub fn matched(&self, path: &FsPath, is_directory: bool) -> (r: Option<String>)
        ensures
            opt_string_view(r) == self.spec_matched(path.text(), is_directory),
    {
        ignored_glob_of(matcher_matched(&self.matcher, path.as_str(), is_directory))
    }

    /// Returns the glob that matches this `path` or any parent, or `None` if no glob
    /// matches
    ///
    /// More expensive than [RootedFilePatterns::matched], but is required where
    /// you don't recursively search a directory, but are instead handed a single
    /// file at a time.
    pub fn matched_path_or_any_parents(&self, path: &FsPath, is_directory: bool) -> (r: Option<
        String,
    >)
        requires
            parents_match_defined(self.root(), self.patterns(), path.text()),
        ensures
            opt_string_view(r) == self.spec_matched_or_parents(path.text(), is_directory),
    {
        ignored_glob_of(
            matcher_matched_path_or_any_parents(&self.matcher, path.as_str(), is_directory),
        )
    }

    /// What [RootedFilePatterns::matched] answers for the path written `text`.
    pub open spec fn spec_matched(&self, text: Seq<char>, is_directory: bool) -> Option<Seq<char>> {
        ignored_glob(gitignore_matched(self.root(), self.patterns(), text, is_directory))
    }

    /// What [RootedFilePatterns::matched_path_or_any_parents] answers for the path
    /// written `text`: the path's own match when it has one (the `ignore` crate
    /// looks at the path itself first), otherwise the match of a parent.
    pub open spec fn spec_matched_or_parents(&self, text: Seq<char>, is_directory: bool) -> Option<
        Seq<char>,
    > {
        if gitignore_matched(self.root(), self.patterns(), text, is_directory) is Some {
            ignored_glob(gitignore_matched(self.root(), self.patterns(), text, is_directory))
        } else {
            ignored_glob(
                gitignore_matched_path_or_any_parents(
                    self.root(),
                    self.patterns(),
                    text,
                    is_directory,
                ),
            )
        }
    }
}

/// `s` without a leading `./`.
pub fn strip_dot_slash_str(s: &str) -> (r: &str)
    ensures
        r@ == strip_dot_slash(s@),
{
    let n = s.unicode_len();
    if n >= 2 && s.get_char(0) == '.' && s.get_char(1) == '/' {
        let r = s.substring_char(2, n);
        assert(r@ =~= s@.skip(2));
        r
    } else {
        let r = s.substring_char(0, n);
        assert(r@ =~= s@);
        r
    }
}

/// Whether `s` holds a `/`.
fn contains_slash(s: &str) -> (r: bool)
    ensures
        r == s@.contains('/'),
{
    let n = s.unicode_len();
    let mut i: usize = 0;
    while i < n
        invariant
            n == s@.len(),
            0 <= i <= n,
            forall|j: int| 0 <= j < i ==> s@[j] != '/',
        decreases n - i,
    {
        if s.get_char(i) == '/' {
            assert(s@[i as int] == '/');
            return true;
        }
        i = i + 1;
    }
    false
}

/// Whether the path written `path`, stripped for a matcher rooted at `root` (see
/// [stripped_path]), is relative: then the `ignore` crate can match its parents.
pub fn stripped_is_relative(root: &str, path: &str) -> (r: bool)
    ensures
        r == !starts_with_slash(stripped_path(root@, path@)),
{
    proof {
        reveal_strlit(".");
        assert("."@ =~= seq!['.']);
    }
    let p = strip_dot_slash_str(path);
    let n = p.unicode_len();
    let mut q = p;
    if !str_equal(root, ".") && contains_slash(p) {
        let m = root.unicode_len();
        if m <= n && str_equal(p.substring_char(0, m), root) {
            let rest = p.substring_char(m, n);
            let k = rest.unicode_len();
            proof {
                assert(p@.skip(m as int) =~= rest@);
                assert(root@.is_prefix_of(p@));
            }
            if k > 0 && rest.get_char(0) == '/' {
                q = rest.substring_char(1, k);
                assert(q@ =~= rest@.drop_first());
            } else {
                q = rest;
            }
        } else {
            proof {
                if root@.is_prefix_of(p@) {
                    assert(p@.subrange(0, m as int) =~= root@);
                }
            }
        }
    }
    assert(q@ == stripped_path(root@, path@));
    !(q.unicode_len() > 0 && q.get_char(0) == '/')
}

// ---------------------------------------------------------------------------
// Unrooted patterns

pub open spec fn strip_bang(p: Seq<char>) -> Seq<char> {
    if p.len() > 0 && p[0] == '!' {
        p.drop_first()
    } else {
        p
    }
}

pub open spec fn strip_trailing_slash(p: Seq<char>) -> Seq<char> {
    if p.len() > 0 && p.last() == '/' {
        p.drop_last()
    } else {
        p
    }
}

pub open spec fn has_doublestar_prefix(p: Seq<char>) -> bool {
    p.len() >= 3 && p[0] == '*' && p[1] == '*' && p[2] == '/'
}

/// A pattern is unrooted when, after a leading `!`, it starts with `**/`, or it has
/// no `/` other than a trailing one.
pub open spec fn unrooted(pattern: Seq<char>) -> bool {
    let p = strip_bang(pattern);
    has_doublestar_prefix(p) || !strip_trailing_slash(p).contains('/')
}

/// Check if a `pattern` is unrooted
///
/// Unrooted patterns start with `**/` and match at any depth. Additionally, for
/// convenience, simple patterns such as `foo.R` and `folder/` are internally treated as
/// their explicitly unrooted equivalents of `**/foo.R` and `**/folder`.
///
/// Rooted patterns are ones with a leading or interior `/`, such as `/foo.R` and
/// `R/foo.R`, and imply `{root}/foo.R` and `{root}/R/foo.R`.
pub fn is_unrooted(pattern: &str) -> (r: bool)
    ensures
        r == unrooted(pattern@),
{
    let n = pattern.unicode_len();
    let p = if n > 0 && pattern.get_char(0) == '!' {
        pattern.substring_char(1, n)
    } else {
        pattern.substring_char(0, n)
    };
    proof {
        assert(pattern@.subrange(0, n as int) =~= pattern@);
        if n > 0 {
            assert(pattern@.subrange(1, n as int) =~= pattern@.drop_first());
        }
        assert(p@ == strip_bang(pattern@));
    }
    let m = p.unicode_len();
    if m >= 3 && p.get_char(0) == '*' && p.get_char(1) == '*' && p.get_char(2) == '/' {
        return true;
    }
    let end = if m > 0 && p.get_char(m - 1) == '/' {
        m - 1
    } else {
        m
    };
    proof {
        assert(p@.subrange(0, end as int) =~= strip_trailing_slash(p@));
    }
    let mut i: usize = 0;
    while i < end
        invariant
            m == p@.len(),
            0 <= i <= end <= m,
            p@.subrange(0, end as int) == strip_trailing_slash(p@),
            p@ == strip_bang(pattern@),
            !has_doublestar_prefix(p@),
            forall|j: int| 0 <= j < i ==> p@[j] != '/',
        decreases end - i,
    {
        if p.get_char(i) == '/' {
            assert(strip_trailing_slash(p@)[i as int] == p@.subrange(0, end as int)[i as int]);
            assert(strip_trailing_slash(p@)[i as int] == '/');
            return false;
        }
        i = i + 1;
    }
    assert(!strip_trailing_slash(p@).contains('/')) by {
        if strip_trailing_slash(p@).contains('/') {
            let k = choose|k: int|
                0 <= k < strip_trailing_slash(p@).len() && strip_trailing_slash(p@)[k] == '/';
            assert(p@[k] == '/');
        }
    }
    true
}

/// The pattern a rooted pattern implies, written with a `{root}` placeholder.
pub open spec fn implied_rooted_pattern(pattern: Seq<char>) -> Seq<char> {
    if starts_with_slash_char(pattern) {
        "{root}"@ + pattern
    } else {
        "{root}/"@ + pattern
    }
}

pub open spec fn starts_with_slash_char(p: Seq<char>) -> bool {
    p.len() > 0 && p[0] == '/'
}

/// The message that explains why a rooted `pattern` is refused.
pub open spec fn rooted_message(pattern: Seq<char>) -> Seq<char> {
    "Pattern `"@ + pattern + "` must be unrooted. It is currently a rooted pattern implying `"@
        + implied_rooted_pattern(pattern) + ROOTED_EXPLANATION@
}

/// The part of the message that explains rooted and unrooted patterns.
pub const ROOTED_EXPLANATION: &'static str = "`.
- Unrooted patterns start with `**/` and match at any depth. For convenience, simple patterns like `foo.R` and `folder/` are also considered to be unrooted.
- Rooted patterns contain a leading or interior `/`, like `/foo.R` or `R/foo.R`, and imply `{root}/foo.R` or `{root}/R/foo.R`, which can't be resolved by a user level `air.toml`.";

/// The error for a rooted `pattern` where only unrooted ones are allowed.
pub fn err_rooted(pattern: &str) -> (r: PatternError)
    ensures
        r matches PatternError::Rooted { pattern: p, message: m } && p@ == pattern@ && m@
            == rooted_message(pattern@),
{
    let starts = pattern.unicode_len() > 0 && pattern.get_char(0) == '/';
    let mut message = String::from_str("Pattern `");
    message.append(pattern);
    message.append("` must be unrooted. It is currently a rooted pattern implying `");
    if starts {
        message.append("{root}");
    } else {
        message.append("{root}/");
    }
    message.append(pattern);
    message.append(ROOTED_EXPLANATION);
    proof {
        assert(message@ =~= rooted_message(pattern@));
    }
    PatternError::Rooted { pattern: String::from_str(pattern), message }
}

/// Every pattern up to `k` is unrooted and accepted by the glob parser.
pub open spec fn usable_prefix(lines: Seq<Seq<char>>, k: int) -> bool {
    forall|i: int| 0 <= i < k ==> unrooted(#[trigger] lines[i]) && line_accepted(lines[i])
}

/// Matcher for globs with no `root`, matching at any depth
///
/// This is what backs default includes and excludes, which apply with or without
/// a physical `air.toml`, as well as user level `air.toml` `exclude` patterns,
/// which have no project directory to root against:
///
/// - Every `pattern` must match at any depth rather than relative to a `root`, which is
///   enforced by [is_unrooted] in [UnrootedFilePatterns::try_from_iter] at creation time.
///
/// - [UnrootedFilePatterns::matched_path_or_any_parents] walks up the parents
///   itself, so that it also works on paths that start with a root.
#[derive(Debug)]
pub struct UnrootedFilePatterns {
    matcher: Gitignore,
}

impl UnrootedFilePatterns {
    /// The patterns.
    pub closed spec fn patterns(&self) -> Seq<Seq<char>> {
        matcher_lines(self.matcher)
    }

    /// The matcher's root: the empty path, so that nothing is stripped.
    pub closed spec fn root(&self) -> Seq<char> {
        matcher_root(self.matcher)
    }

    /// What [UnrootedFilePatterns::matched] answers for the path written `text`.
    pub open spec fn spec_matched(&self, text: Seq<char>, is_directory: bool) -> Option<Seq<char>> {
        ignored_glob(gitignore_matched(self.root(), self.patterns(), text, is_directory))
    }

    /// Construct [UnrootedFilePatterns] from a list of patterns
    ///
    /// Every pattern must be unrooted, as verified by [is_unrooted]. A rooted pattern is
    /// a hard error, since there is no `root` for it to resolve against.
    pub fn try_from_iter(patterns: Vec<&str>) -> (r: Result<Self, PatternError>)
        ensures
            r is Ok <==> usable_prefix(lines_view(patterns@), patterns@.len() as int)
                && build_accepted(lines_view(patterns@)),
            r matches Ok(m) ==> m.root() == Seq::<char>::empty() && m.patterns() == lines_view(
                patterns@,
            ),
            r matches Err(PatternError::Rooted { pattern: p, message: msg }) ==> exists|k: int|
                0 <= k < patterns@.len() && usable_prefix(lines_view(patterns@), k)
                    && #[trigger] patterns@[k]@ == p@ && !unrooted(p@) && msg@ == rooted_message(
                    p@,
                ),
            r matches Err(PatternError::Glob(_)) ==> usable_prefix(
                lines_view(patterns@),
                patterns@.len() as int,
            ) || exists|k: int|
                0 <= k < patterns@.len() && usable_prefix(lines_view(patterns@), k) && unrooted(
                    #[trigger] patterns@[k]@,
                ) && !line_accepted(patterns@[k]@),
    {
        proof {
            reveal_strlit("");
        }
        let mut builder = new_builder("");
        let n = patterns.len();
        let mut i: usize = 0;
        while i < n
            invariant
                n == patterns@.len(),
                0 <= i <= n,
                builder_root(builder) == Seq::<char>::empty(),
                builder_lines(builder) == lines_view(patterns@).take(i as int),
                usable_prefix(lines_view(patterns@), i as int),
            decreases n - i,
        {
            let pattern = patterns[i];
            assert(lines_view(patterns@)[i as int] == pattern@);
            if !is_unrooted(pattern) {
                return Err(err_rooted(pattern));
            }
            match builder_add_line(&mut builder, pattern) {
                Ok(()) => {},
                Err(e) => {
                    return Err(PatternError::Glob(e));
                },
            }
            proof {
                assert(lines_view(patterns@).take(i + 1) =~= lines_view(patterns@).take(
                    i as int,
                ).push(pattern@));
            }
            i = i + 1;
        }
        proof {
            assert(lines_view(patterns@).take(n as int) =~= lines_view(patterns@));
        }
        match builder_build(&builder) {
            Ok(matcher) => Ok(Self { matcher }),
            Err(e) => Err(PatternError::Glob(e)),
        }
    }

    /// Returns the glob that matches this `path`, or `None` if no glob matches
    pub fn matched(&self, path: &FsPath, is_directory: bool) -> (r: Option<String>)
        ensures
            opt_string_view(r) == self.spec_matched(path.text(), is_directory),
    {
        ignored_glob_of(matcher_matched(&self.matcher, path.as_str(), is_directory))
    }

    /// Returns the glob that matches this `path` or any parent, or `None` if no glob
    /// matches
    ///
    /// The path itself is matched as given; each parent is matched as a directory,
    /// walking up until a glob matches or there is no parent left.
    pub fn matched_path_or_any_parents(&self, path: &FsPath, is_directory: bool) -> (r: Option<
        String,
    >)
        ensures
            opt_string_view(r) == self.spec_matched_or_parents(*path, is_directory),
    {
        let first = self.matched(path, is_directory);
        if first.is_some() {
            return first;
        }
        let mut current = path.clone_path();
        let ghost start = *path;
        loop
            invariant
                start == *path,
                self.spec_matched_or_parents(start, is_directory) == self.spec_matched_parents(
                    current@,
                    current.text(),
                ),
            decreases current@.len(),
        {
            match current.parent() {
                None => {
                    proof {
                        assert(parent_of(current@) is None);
                    }
                    return None;
                },
                Some(parent) => {
                    let m = self.matched(&parent, true);
                    proof {
                        assert(parent_of(current@) == Some(parent@));
                        assert(self.spec_matched_parents(current@, current.text()) == (
                        match self.spec_matched(parent.text(), true) {
                            Some(g) => Some(g),
                            None => self.spec_matched_parents(parent@, parent.text()),
                        }));
                    }
                    if m.is_some() {
                        return m;
                    }
                    current = parent;
                },
            }
        }
    }

    /// The first glob that matches a parent of the path with components `path`,
    /// written `text` (as a directory, by the parent's text as `Path::parent` gives
    /// it), walking up.
    pub open spec fn spec_matched_parents(&self, path: Seq<Part>, text: Seq<char>) -> Option<
        Seq<char>,
    >
        decreases path.len(),
    {
        match parent_of(path) {
            None => None,
            Some(parent) => match self.spec_matched(parent_text(text), true) {
                Some(g) => Some(g),
                None => self.spec_matched_parents(parent, parent_text(text)),
            },
        }
    }

    /// The glob [UnrootedFilePatterns::matched_path_or_any_parents] finds: one that
    /// matches `path` itself, else the first that matches a parent.
    pub open spec fn spec_matched_or_parents(&self, path: FsPath, is_directory: bool) -> Option<
        Seq<char>,
    > {
        match self.spec_matched(path.text(), is_directory) {
            Some(g) => Some(g),
            None => self.spec_matched_parents(path@, path.text()),
        }
    }
}

} // verus!
