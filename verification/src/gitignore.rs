//! The gitignore matcher of the `ignore` crate, as this library uses it.
//!
//! A matcher is built from a root directory and a list of gitignore lines. Verus
//! does not see inside the matcher, so this module names what it was built from
//! ([matcher_root], [matcher_lines]) and names the answers of its two matching
//! methods as functions of those and of the path asked about. Everything here is
//! trusted: the contracts below are taken from the `ignore` crate's source
//! (`src/gitignore.rs`), not proved.
use vstd::prelude::*;

use ignore::gitignore::{Gitignore, GitignoreBuilder};
use ignore::Match;

verus! {

#[verifier::external_type_specification]
#[verifier::external_body]
pub struct ExGitignore(Gitignore);

#[verifier::external_type_specification]
#[verifier::external_body]
pub struct ExGitignoreBuilder(GitignoreBuilder);

#[verifier::external_type_specification]
#[verifier::external_body]
pub struct ExIgnoreError(ignore::Error);

/// The root directory text that a builder was created with.
pub uninterp spec fn builder_root(b: GitignoreBuilder) -> Seq<char>;

/// The lines that `add_line` has accepted into a builder, in order.
pub uninterp spec fn builder_lines(b: GitignoreBuilder) -> Seq<Seq<char>>;

/// The root directory text that a matcher was built with.
pub uninterp spec fn matcher_root(g: Gitignore) -> Seq<char>;

/// The lines a matcher was built from, in order.
pub uninterp spec fn matcher_lines(g: Gitignore) -> Seq<Seq<char>>;

/// Whether `GitignoreBuilder::add_line` accepts `line` (its glob parses).
pub uninterp spec fn line_accepted(line: Seq<char>) -> bool;

/// Whether `GitignoreBuilder::build` succeeds on a builder holding `lines`.
pub uninterp spec fn build_accepted(lines: Seq<Seq<char>>) -> bool;

/// What `Gitignore::matched` answers for `path`: `None`, or the matching glob's
/// original line together with whether it is a whitelist (`!`) glob.
pub uninterp spec fn gitignore_matched(
    root: Seq<char>,
    lines: Seq<Seq<char>>,
    path: Seq<char>,
    is_dir: bool,
) -> Option<(bool, Seq<char>)>;

/// What `Gitignore::matched_path_or_any_parents` answers for `path`, in the same
/// form as [gitignore_matched].
pub uninterp spec fn gitignore_matched_path_or_any_parents(
    root: Seq<char>,
    lines: Seq<Seq<char>>,
    path: Seq<char>,
    is_dir: bool,
) -> Option<(bool, Seq<char>)>;

pub open spec fn starts_with_slash(s: Seq<char>) -> bool {
    s.len() > 0 && s[0] == '/'
}

/// `s` without a leading `./`, as the `ignore` crate strips it from roots and paths.
pub open spec fn strip_dot_slash(s: Seq<char>) -> Seq<char> {
    if s.len() >= 2 && s[0] == '.' && s[1] == '/' {
        s.skip(2)
    } else {
        s
    }
}

/// The path a matcher rooted at `root` matches for `path` (the `ignore` crate's
/// `Gitignore::strip`): a leading `./` is dropped; then, unless the root is `.` or
/// the path is a bare file name (no `/`), a leading copy of the root text is dropped,
/// and after it one `/`.
pub open spec fn stripped_path(root: Seq<char>, path: Seq<char>) -> Seq<char> {
    let p = strip_dot_slash(path);
    if root != seq!['.'] && p.contains('/') && root.is_prefix_of(p) {
        let rest = p.skip(root.len() as int);
        if starts_with_slash(rest) {
            rest.drop_first()
        } else {
            rest
        }
    } else {
        p
    }
}

/// Whether `c` has the Unicode `White_Space` property (`char::is_whitespace`).
pub open spec fn is_white_space(c: char) -> bool {
    ||| c == ' '
    ||| ('\u{9}' <= c && c <= '\u{d}')
    ||| c == '\u{85}'
    ||| c == '\u{a0}'
    ||| c == '\u{1680}'
    ||| ('\u{2000}' <= c && c <= '\u{200a}')
    ||| c == '\u{2028}'
    ||| c == '\u{2029}'
    ||| c == '\u{202f}'
    ||| c == '\u{205f}'
    ||| c == '\u{3000}'
}

/// Whether `GitignoreBuilder::add_line` turns `line` into a glob: a comment (`#`)
/// and a line of white space only add nothing.
pub open spec fn line_adds_glob(line: Seq<char>) -> bool {
    &&& !(line.len() > 0 && line[0] == '#')
    &&& exists|i: int| 0 <= i < line.len() && !is_white_space(#[trigger] line[i])
}

/// Whether some line of `lines` adds a glob, so that a matcher built from them is
/// not empty.
pub open spec fn lines_add_glob(lines: Seq<Seq<char>>) -> bool {
    exists|i: int| 0 <= i < lines.len() && line_adds_glob(#[trigger] lines[i])
}

/// `Gitignore::matched_path_or_any_parents` panics exactly when the matcher is not
/// empty and the stripped path (see [stripped_path]) still starts with `/`; an empty
/// matcher answers `None` before looking at the path.
pub open spec fn parents_match_defined(root: Seq<char>, lines: Seq<Seq<char>>, path: Seq<char>) -> bool {
    !lines_add_glob(lines) || !starts_with_slash(stripped_path(root, path))
}

/// The view of a match answer.
pub open spec fn match_view(m: Option<(bool, String)>) -> Option<(bool, Seq<char>)> {
    match m {
        Some((w, g)) => Some((w, g@)),
        None => None,
    }
}

/// `GitignoreBuilder::new(root)`: an empty builder for globs rooted at `root`,
/// with a leading `./` of the root dropped.
#[verifier::external_body]
pub(crate) fn new_builder(root: &str) -> (r: GitignoreBuilder)
    ensures
        builder_root(r) == strip_dot_slash(root@),
        builder_lines(r) == Seq::<Seq<char>>::empty(),
{
    GitignoreBuilder::new(root)
}

/// `GitignoreBuilder::add_line(None, line)`: fails exactly when the glob in
/// `line` does not parse; the builder is left as it was on failure.
#[verifier::external_body]
pub(crate) fn builder_add_line(b: &mut GitignoreBuilder, line: &str) -> (r: Result<
    (),
    ignore::Error,
>)
    ensures
        r is Ok <==> line_accepted(line@),
        builder_root(*final(b)) == builder_root(*old(b)),
        r is Ok ==> builder_lines(*final(b)) == builder_lines(*old(b)).push(line@),
        r is Err ==> builder_lines(*final(b)) == builder_lines(*old(b)),
{
    match b.add_line(None, line) {
        Ok(_) => Ok(()),
        Err(e) => Err(e),
    }
}

/// `GitignoreBuilder::build()`: a matcher for the builder's root and lines. When no
/// line added a glob, it always succeeds and gives `Gitignore::empty()`, whose root
/// is the empty path.
#[verifier::external_body]
pub(crate) fn builder_build(b: &GitignoreBuilder) -> (r: Result<Gitignore, ignore::Error>)
    ensures
        r is Ok <==> build_accepted(builder_lines(*b)),
        !lines_add_glob(builder_lines(*b)) ==> r is Ok,
        r matches Ok(g) ==> matcher_lines(g) == builder_lines(*b) && matcher_root(g) == (if lines_add_glob(
            builder_lines(*b),
        ) {
            builder_root(*b)
        } else {
            Seq::<char>::empty()
        }),
{
    b.build()
}

/// `Gitignore::is_empty()`: whether the matcher holds no glob.
#[verifier::external_body]
pub(crate) fn matcher_is_empty(g: &Gitignore) -> (r: bool)
    ensures
        r == !lines_add_glob(matcher_lines(*g)),
{
    g.is_empty()
}

/// `Gitignore::matched(path, is_dir)`, with the matching glob given by its
/// original line.
#[verifier::external_body]
pub(crate) fn matcher_matched(g: &Gitignore, path: &str, is_dir: bool) -> (r: Option<
    (bool, String),
>)
    ensures
        match_view(r) == gitignore_matched(matcher_root(*g), matcher_lines(*g), path@, is_dir),
{
    match g.matched(std::path::Path::new(path), is_dir) {
        Match::None => None,
        Match::Whitelist(glob) => Some((true, glob.original().to_string())),
        Match::Ignore(glob) => Some((false, glob.original().to_string())),
    }
}

/// `Gitignore::matched_path_or_any_parents(path, is_dir)`, with the matching glob
/// given by its original line. Its requirement leaves out exactly the paths on
/// which the `ignore` crate panics (see [parents_match_defined]). It first matches `path` itself, as `Gitignore::matched`
/// does (both strip the root the same way), and answers with that match if there
/// is one.
#[verifier::external_body]
pub(crate) fn matcher_matched_path_or_any_parents(g: &Gitignore, path: &str, is_dir: bool) -> (r:
    Option<(bool, String)>)
    requires
        parents_match_defined(matcher_root(*g), matcher_lines(*g), path@),
    ensures
        match_view(r) == gitignore_matched_path_or_any_parents(
            matcher_root(*g),
            matcher_lines(*g),
            path@,
            is_dir,
        ),
        gitignore_matched(matcher_root(*g), matcher_lines(*g), path@, is_dir) is Some ==> match_view(r)
            == gitignore_matched(matcher_root(*g), matcher_lines(*g), path@, is_dir),
{
    match g.matched_path_or_any_parents(std::path::Path::new(path), is_dir) {
        Match::None => None,
        Match::Whitelist(glob) => Some((true, glob.original().to_string())),
        Match::Ignore(glob) => Some((false, glob.original().to_string())),
    }
}

} // verus!
