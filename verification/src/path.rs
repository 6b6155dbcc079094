//! File system paths as sequences of components.
//!
//! A path is split into components the way `std::path::Path` splits a Unix path:
//! a leading `/` is the root, empty segments and interior `.` segments vanish, a
//! leading `.` is the current directory and `..` is the parent directory. Paths are
//! ordered component by component, and one path starts with another when the
//! other's components are a prefix of its own, so `/user/a` is not a prefix of
//! `/user/a.R`.
use vstd::prelude::*;

use crate::order::{
    is_strict_total_order, lemma_lex_asymmetric, lemma_lex_at_first_difference, lemma_lex_irreflexive,
    lemma_lex_proper_prefix, lemma_lex_total, lemma_lex_transitive, lex_lt,
};

verus! {

/// One component of a path, abstractly.
pub enum Part {
    Root,
    Cur,
    Parent,
    Name(Seq<char>),
}

/// The order of component kinds: the root first, then `.`, then `..`, then names.
pub open spec fn part_rank(p: Part) -> int {
    match p {
        Part::Root => 0,
        Part::Cur => 1,
        Part::Parent => 2,
        Part::Name(_) => 3,
    }
}

pub open spec fn char_lt() -> spec_fn(char, char) -> bool {
    |x: char, y: char| (x as int) < (y as int)
}

/// Names are compared character by character, by code point.
pub open spec fn name_lt(a: Seq<char>, b: Seq<char>) -> bool {
    lex_lt(a, b, char_lt())
}

pub open spec fn part_lt() -> spec_fn(Part, Part) -> bool {
    |x: Part, y: Part|
        part_rank(x) < part_rank(y) || (match (x, y) {
            (Part::Name(a), Part::Name(b)) => name_lt(a, b),
            _ => false,
        })
}

/// The total order of paths: component by component.
pub open spec fn path_lt(a: Seq<Part>, b: Seq<Part>) -> bool {
    lex_lt(a, b, part_lt())
}

/// `base` is a leading run of whole components of `path`.
pub open spec fn path_starts_with(path: Seq<Part>, base: Seq<Part>) -> bool {
    base.is_prefix_of(path)
}

pub proof fn lemma_char_order()
    ensures
        is_strict_total_order(char_lt()),
{
    assert forall|x: char, y: char| x != y implies #[trigger] char_lt()(x, y) || #[trigger] char_lt()(
        y,
        x,
    ) by {
        assert((x as int) != (y as int));
    }
}

pub proof fn lemma_part_order()
    ensures
        is_strict_total_order(part_lt()),
{
    lemma_char_order();
    let lt = part_lt();
    assert forall|x: Part| !(#[trigger] lt(x, x)) by {
        if let Part::Name(a) = x {
            lemma_lex_irreflexive(a, char_lt());
        }
    }
    assert forall|x: Part, y: Part, z: Part| #[trigger] lt(x, y) && #[trigger] lt(y, z) implies lt(
        x,
        z,
    ) by {
        if let (Part::Name(a), Part::Name(b), Part::Name(c)) = (x, y, z) {
            lemma_lex_transitive(a, b, c, char_lt());
        }
    }
    assert forall|x: Part, y: Part| x != y implies #[trigger] lt(x, y) || #[trigger] lt(y, x) by {
        if let (Part::Name(a), Part::Name(b)) = (x, y) {
            lemma_lex_total(a, b, char_lt());
        }
    }
}

/// Paths are strictly and totally ordered.
pub proof fn lemma_path_order()
    ensures
        is_strict_total_order(part_lt()),
        forall|a: Seq<Part>| !#[trigger] path_lt(a, a),
        forall|a: Seq<Part>, b: Seq<Part>, c: Seq<Part>| #[trigger]
            path_lt(a, b) && #[trigger] path_lt(b, c) ==> path_lt(a, c),
        forall|a: Seq<Part>, b: Seq<Part>| a != b ==> #[trigger] path_lt(a, b) || #[trigger] path_lt(
            b,
            a,
        ),
        forall|a: Seq<Part>, b: Seq<Part>| #[trigger] path_lt(a, b) ==> !path_lt(b, a),
        forall|a: Seq<Part>, b: Seq<Part>|
            #[trigger] path_starts_with(b, a) && a.len() < b.len() ==> path_lt(a, b),
{
    lemma_part_order();
    assert forall|a: Seq<Part>| !#[trigger] path_lt(a, a) by {
        lemma_lex_irreflexive(a, part_lt());
    }
    assert forall|a: Seq<Part>, b: Seq<Part>, c: Seq<Part>| #[trigger]
        path_lt(a, b) && #[trigger] path_lt(b, c) implies path_lt(a, c) by {
        lemma_lex_transitive(a, b, c, part_lt());
    }
    assert forall|a: Seq<Part>, b: Seq<Part>| a != b implies #[trigger] path_lt(a, b)
        || #[trigger] path_lt(b, a) by {
        lemma_lex_total(a, b, part_lt());
    }
    assert forall|a: Seq<Part>, b: Seq<Part>| #[trigger] path_lt(a, b) implies !path_lt(b, a) by {
        lemma_lex_asymmetric(a, b, part_lt());
    }
    assert forall|a: Seq<Part>, b: Seq<Part>| #[trigger]
        path_starts_with(b, a) && a.len() < b.len() implies path_lt(a, b) by {
        lemma_lex_proper_prefix(a, b, part_lt());
    }
}

// ---------------------------------------------------------------------------
// Parsing text into components

/// Adds a finished segment (the text between two separators) to `parts`.
pub open spec fn finish_segment(parts: Seq<Part>, seg: Seq<char>) -> Seq<Part> {
    if seg.len() == 0 {
        parts
    } else if seg == seq!['.'] {
        if parts.len() == 0 {
            parts.push(Part::Cur)
        } else {
            parts
        }
    } else if seg == seq!['.', '.'] {
        parts.push(Part::Parent)
    } else {
        parts.push(Part::Name(seg))
    }
}

/// The components finished so far, and the segment still being read, after
/// reading the characters of `s` from the left.
pub open spec fn scan(s: Seq<char>) -> (Seq<Part>, Seq<char>)
    decreases s.len(),
{
    if s.len() == 0 {
        (seq![], seq![])
    } else {
        let (parts, seg) = scan(s.drop_last());
        let c = s.last();
        if c == '/' {
            if s.len() == 1 {
                (seq![Part::Root], seq![])
            } else {
                (finish_segment(parts, seg), seq![])
            }
        } else {
            (parts, seg.push(c))
        }
    }
}

/// The components of the path written as `s`.
pub open spec fn parse(s: Seq<char>) -> Seq<Part> {
    finish_segment(scan(s).0, scan(s).1)
}

/// A name component as `Path::parent` and `Path::join` see it: not empty, no
/// separator, and not one of the special names `.` and `..`.
pub open spec fn is_plain_name(n: Seq<char>) -> bool {
    &&& n.len() > 0
    &&& !n.contains('/')
    &&& n != seq!['.']
    &&& n != seq!['.', '.']
}

/// The parent of a path, as `Path::parent` computes it: `None` for the empty path
/// and for a path that ends in the root.
pub open spec fn parent_of(parts: Seq<Part>) -> Option<Seq<Part>> {
    if parts.len() == 0 || parts.last() == Part::Root {
        None
    } else {
        Some(parts.drop_last())
    }
}

// ---------------------------------------------------------------------------
// The text of a parent, as `Path::parent` slices it

/// Where the body of the path written `s` starts: after a leading root `/`, or
/// after a leading `.` that is the current directory (`.` alone, or `./...`).
pub open spec fn body_start(s: Seq<char>) -> int {
    if s.len() > 0 && s[0] == '/' {
        1
    } else if s == seq!['.'] || (s.len() >= 2 && s[0] == '.' && s[1] == '/') {
        1
    } else {
        0
    }
}

/// The position of the last `/` of `t` at or after `b` and before `i`, or -1.
pub open spec fn last_sep(t: Seq<char>, b: int, i: int) -> int
    decreases i - b,
{
    if i <= b {
        -1
    } else if t[i - 1] == '/' {
        i - 1
    } else {
        last_sep(t, b, i - 1)
    }
}

/// Where the last segment of the body of `t` (body from `b`) begins its cut: the
/// separator before it, or the start of the body.
pub open spec fn seg_cut(t: Seq<char>, b: int) -> int {
    let k = last_sep(t, b, t.len() as int);
    if b <= k && k < t.len() {
        k
    } else {
        b
    }
}

/// The last segment of the body of `t`.
pub open spec fn last_seg(t: Seq<char>, b: int) -> Seq<char> {
    let k = last_sep(t, b, t.len() as int);
    if b <= k && k < t.len() {
        t.subrange(k + 1, t.len() as int)
    } else {
        t.subrange(b, t.len() as int)
    }
}

/// A segment that is no component: empty, or an interior `.`.
pub open spec fn ignorable_seg(c: Seq<char>) -> bool {
    c.len() == 0 || c == seq!['.']
}

/// `t` without trailing separators and `.` segments, never cutting into the part
/// before the body (body from `b`).
pub open spec fn trim_back(t: Seq<char>, b: int) -> Seq<char>
    decreases t.len(),
{
    if t.len() <= b || b < 0 {
        t
    } else if ignorable_seg(last_seg(t, b)) {
        trim_back(t.take(seg_cut(t, b)), b)
    } else {
        t
    }
}

/// The text of the parent of the path written `s`, as `Path::parent` gives it: the
/// text with its last component, and the separators and `.` segments before it,
/// cut off. Where the last component is the current directory, the parent is the
/// empty path; where it is the root, there is no parent.
pub open spec fn parent_text(s: Seq<char>) -> Seq<char> {
    let b = body_start(s);
    let t = trim_back(s, b);
    if t.len() > b {
        trim_back(t.take(seg_cut(t, b)), b)
    } else {
        seq![]
    }
}

/// The position of the last `/` in `s` at or after `b` and before `end`.
fn find_last_sep(s: &str, b: usize, end: usize) -> (r: Option<usize>)
    requires
        b <= end <= s@.len(),
    ensures
        r matches Some(k) ==> b <= k < end && k as int == last_sep(s@.take(end as int), b as int, end as int),
        r is None ==> last_sep(s@.take(end as int), b as int, end as int) == -1,
{
    let ghost t = s@.take(end as int);
    let mut i = end;
    while i > b
        invariant
            b <= i <= end <= s@.len(),
            t == s@.take(end as int),
            last_sep(t, b as int, end as int) == last_sep(t, b as int, i as int),
        decreases i,
    {
        assert(t[i - 1] == s@[i - 1]);
        if s.get_char(i - 1) == '/' {
            return Some(i - 1);
        }
        i = i - 1;
    }
    None
}

/// The length of `trim_back(s.take(end), b)`.
fn trim_back_len(s: &str, b: usize, end: usize) -> (r: usize)
    requires
        b <= end <= s@.len(),
    ensures
        b <= r <= end,
        s@.take(r as int) == trim_back(s@.take(end as int), b as int),
{
    let mut e = end;
    while e > b
        invariant
            b <= e <= end <= s@.len(),
            trim_back(s@.take(e as int), b as int) == trim_back(s@.take(end as int), b as int),
        decreases e,
    {
        let ghost t = s@.take(e as int);
        let k = find_last_sep(s, b, e);
        let (cut, from) = match k {
            Some(k) => (k, k + 1),
            None => (b, b),
        };
        let ignorable = from == e || (from + 1 == e && s.get_char(from) == '.');
        proof {
            assert(seg_cut(t, b as int) == cut);
            assert(last_seg(t, b as int) =~= s@.subrange(from as int, e as int));
            if from + 1 == e {
                assert(s@.subrange(from as int, e as int)[0] == s@[from as int]);
                if s@[from as int] == '.' {
                    assert(s@.subrange(from as int, e as int) =~= seq!['.']);
                }
            }
            assert(ignorable == ignorable_seg(last_seg(t, b as int)));
            assert(t.take(cut as int) =~= s@.take(cut as int));
        }
        if !ignorable {
            return e;
        }
        e = cut;
    }
    proof {
        assert(s@.take(e as int).len() <= b);
    }
    e
}

/// Where the body of the path written `s` starts.
fn body_start_of(s: &str) -> (r: usize)
    ensures
        r == body_start(s@),
        r <= s@.len(),
{
    let n = s.unicode_len();
    if n > 0 && s.get_char(0) == '/' {
        1
    } else if n == 1 && s.get_char(0) == '.' {
        assert(s@ =~= seq!['.']);
        1
    } else if n >= 2 && s.get_char(0) == '.' && s.get_char(1) == '/' {
        1
    } else {
        proof {
            if s@ == seq!['.'] {
                assert(s@[0] == '.');
            }
        }
        0
    }
}

/// The text of the parent of the path written `s` (see [parent_text]).
fn parent_text_of(s: &str) -> (r: String)
    ensures
        r@ == parent_text(s@),
{
    let b = body_start_of(s);
    let n = s.unicode_len();
    let t = trim_back_len(s, b, n);
    proof {
        assert(s@.take(n as int) =~= s@);
    }
    if t > b {
        let cut = match find_last_sep(s, b, t) {
            Some(k) => k,
            None => b,
        };
        proof {
            assert(seg_cut(s@.take(t as int), b as int) == cut);
            assert(s@.take(t as int).take(cut as int) =~= s@.take(cut as int));
        }
        let e = trim_back_len(s, b, cut);
        let r = String::from_str(s.substring_char(0, e));
        assert(r@ =~= s@.take(e as int));
        r
    } else {
        String::new()
    }
}

// ---------------------------------------------------------------------------
// Executable paths

/// One component of a [FsPath].
#[derive(Debug, Clone, PartialEq, Eq)]
pub enum PathComponent {
    RootDir,
    CurDir,
    ParentDir,
    Normal(String),
}

impl View for PathComponent {
    type V = Part;

    open spec fn view(&self) -> Part {
        match self {
            PathComponent::RootDir => Part::Root,
            PathComponent::CurDir => Part::Cur,
            PathComponent::ParentDir => Part::Parent,
            PathComponent::Normal(n) => Part::Name(n@),
        }
    }
}

/// A path: its text, and the components that the text splits into.
///
/// Matching against glob patterns looks at the text, as written; ordering and
/// prefix tests look at the components.
#[derive(Debug, Clone, PartialEq, Eq)]
pub struct FsPath {
    text: String,
    components: Vec<PathComponent>,
}

/// The text `PathBuf::push` gives when it adds the name `name` to the path
/// written `text`: a separator goes between them unless `text` is empty or
/// already ends with one.
pub open spec fn join_text(text: Seq<char>, name: Seq<char>) -> Seq<char> {
    if text.len() == 0 || text.last() == '/' {
        text + name
    } else {
        text + seq!['/'] + name
    }
}

/// The result of comparing two paths.
#[derive(Debug, Clone, Copy, PartialEq, Eq)]
pub enum PathOrder {
    Less,
    Equal,
    Greater,
}

pub open spec fn components_view(v: Seq<PathComponent>) -> Seq<Part> {
    v.map_values(|c: PathComponent| c@)
}

impl View for FsPath {
    type V = Seq<Part>;

    closed spec fn view(&self) -> Seq<Part> {
        components_view(self.components@)
    }
}

fn component_copy(c: &PathComponent) -> (r: PathComponent)
    ensures
        r@ == c@,
{
    match c {
        PathComponent::RootDir => PathComponent::RootDir,
        PathComponent::CurDir => PathComponent::CurDir,
        PathComponent::ParentDir => PathComponent::ParentDir,
        PathComponent::Normal(n) => PathComponent::Normal(n.clone()),
    }
}

/// Whether `a` and `b` hold the same characters.
pub fn str_equal(a: &str, b: &str) -> (r: bool)
    ensures
        r == (a@ == b@),
{
    let n = a.unicode_len();
    if n != b.unicode_len() {
        return false;
    }
    let mut i: usize = 0;
    while i < n
        invariant
            n == a@.len(),
            n == b@.len(),
            0 <= i <= n,
            forall|j: int| 0 <= j < i ==> a@[j] == b@[j],
        decreases n - i,
    {
        if a.get_char(i) != b.get_char(i) {
            return false;
        }
        i = i + 1;
    }
    assert(a@ =~= b@);
    true
}

/// Compares two names character by character.
fn compare_names(a: &str, b: &str) -> (r: PathOrder)
    ensures
        r == PathOrder::Less <==> name_lt(a@, b@),
        r == PathOrder::Equal <==> a@ == b@,
        r == PathOrder::Greater <==> name_lt(b@, a@),
{
    proof {
        lemma_char_order();
    }
    let n = a.unicode_len();
    let m = b.unicode_len();
    let mut i: usize = 0;
    while i < n && i < m
        invariant
            n == a@.len(),
            m == b@.len(),
            0 <= i <= n,
            i <= m,
            forall|j: int| 0 <= j < i ==> a@[j] == b@[j],
        decreases n - i,
    {
        let x = a.get_char(i);
        let y = b.get_char(i);
        if x != y {
            proof {
                lemma_lex_at_first_difference(a@, b@, i as int, char_lt());
                lemma_lex_at_first_difference(b@, a@, i as int, char_lt());
            }
            if (x as u32) < (y as u32) {
                return PathOrder::Less;
            } else {
                return PathOrder::Greater;
            }
        }
        i = i + 1;
    }
    proof {
        lemma_lex_at_first_difference(a@, b@, i as int, char_lt());
        lemma_lex_at_first_difference(b@, a@, i as int, char_lt());
    }
    if n == m {
        assert(a@ =~= b@);
        proof {
            lemma_lex_irreflexive(a@, char_lt());
        }
        PathOrder::Equal
    } else if i == n {
        PathOrder::Less
    } else {
        PathOrder::Greater
    }
}

fn component_rank(c: &PathComponent) -> (r: u8)
    ensures
        r as int == part_rank(c@),
{
    match c {
        PathComponent::RootDir => 0,
        PathComponent::CurDir => 1,
        PathComponent::ParentDir => 2,
        PathComponent::Normal(_) => 3,
    }
}

fn compare_components(a: &PathComponent, b: &PathComponent) -> (r: PathOrder)
    ensures
        r == PathOrder::Less <==> part_lt()(a@, b@),
        r == PathOrder::Equal <==> a@ == b@,
        r == PathOrder::Greater <==> part_lt()(b@, a@),
{
    proof {
        lemma_part_order();
    }
    match (a, b) {
        (PathComponent::Normal(x), PathComponent::Normal(y)) => compare_names(x.as_str(), y.as_str()),
        _ => {
            let ra = component_rank(a);
            let rb = component_rank(b);
            if ra < rb {
                PathOrder::Less
            } else if ra > rb {
                PathOrder::Greater
            } else {
                PathOrder::Equal
            }
        },
    }
}

impl FsPath {
    /// The text of the path.
    pub closed spec fn text(&self) -> Seq<char> {
        self.text@
    }

    /// The text of the path.
    pub fn as_str(&self) -> (r: &str)
        ensures
            r@ == self.text(),
    {
        self.text.as_str()
    }

    /// The empty path.
    pub fn empty() -> (r: FsPath)
        ensures
            r@ == Seq::<Part>::empty(),
            r.text() == Seq::<char>::empty(),
    {
        let r = FsPath { text: String::new(), components: Vec::new() };
        assert(r@ =~= Seq::<Part>::empty());
        r
    }

    /// The components of the path.
    pub fn components(&self) -> (r: &[PathComponent])
        ensures
            components_view(r@) == self@,
    {
        self.components.as_slice()
    }

    /// The number of components.
    pub fn len(&self) -> (r: usize)
        ensures
            r == self@.len(),
    {
        self.components.len()
    }

    /// A copy of this path.
    pub fn clone_path(&self) -> (r: FsPath)
        ensures
            r@ == self@,
            r.text() == self.text(),
    {
        let mut v: Vec<PathComponent> = Vec::new();
        let n = self.components.len();
        let mut i: usize = 0;
        while i < n
            invariant
                n == self.components@.len(),
                0 <= i <= n,
                components_view(v@) =~= components_view(self.components@.take(i as int)),
            decreases n - i,
        {
            let c = component_copy(&self.components[i]);
            let ghost old_v = v@;
            v.push(c);
            proof {
                assert(self.components@.take(i + 1) =~= self.components@.take(i as int).push(
                    self.components@[i as int],
                ));
                assert(v@ =~= old_v.push(c));
                assert(components_view(v@) =~= components_view(old_v).push(c@));
                assert(components_view(self.components@.take(i + 1)) =~= components_view(
                    self.components@.take(i as int),
                ).push(self.components@[i as int]@));
            }
            i = i + 1;
        }
        proof {
            assert(self.components@.take(n as int) =~= self.components@);
        }
        FsPath { text: self.text.clone(), components: v }
    }

    /// Compares two paths component by component.
    pub fn compare(&self, other: &FsPath) -> (r: PathOrder)
        ensures
            r == PathOrder::Less <==> path_lt(self@, other@),
            r == PathOrder::Equal <==> self@ == other@,
            r == PathOrder::Greater <==> path_lt(other@, self@),
    {
        proof {
            lemma_path_order();
        }
        let n = self.components.len();
        let m = other.components.len();
        let ghost a = self@;
        let ghost b = other@;
        let mut i: usize = 0;
        while i < n && i < m
            invariant
                a == self@,
                b == other@,
                n == a.len(),
                m == b.len(),
                0 <= i <= n,
                i <= m,
                forall|j: int| 0 <= j < i ==> a[j] == b[j],
                is_strict_total_order(part_lt()),
            decreases n - i,
        {
            let c = compare_components(&self.components[i], &other.components[i]);
            match c {
                PathOrder::Equal => {},
                _ => {
                    proof {
                        lemma_lex_at_first_difference(a, b, i as int, part_lt());
                        lemma_lex_at_first_difference(b, a, i as int, part_lt());
                    }
                    return c;
                },
            }
            i = i + 1;
        }
        proof {
            lemma_lex_at_first_difference(a, b, i as int, part_lt());
            lemma_lex_at_first_difference(b, a, i as int, part_lt());
        }
        if n == m {
            assert(a =~= b);
            PathOrder::Equal
        } else if i == n {
            PathOrder::Less
        } else {
            PathOrder::Greater
        }
    }

    /// Whether this path starts with all the components of `base`.
    pub fn starts_with(&self, base: &FsPath) -> (r: bool)
        ensures
            r == path_starts_with(self@, base@),
    {
        let n = base.components.len();
        if n > self.components.len() {
            return false;
        }
        let ghost a = self@;
        let ghost b = base@;
        let mut i: usize = 0;
        while i < n
            invariant
                a == self@,
                b == base@,
                n == b.len(),
                n <= a.len(),
                0 <= i <= n,
                forall|j: int| 0 <= j < i ==> a[j] == b[j],
            decreases n - i,
        {
            let c = compare_components(&self.components[i], &base.components[i]);
            match c {
                PathOrder::Equal => {},
                _ => {
                    proof {
                        assert(self.components@[i as int]@ == a[i as int]);
                        assert(base.components@[i as int]@ == b[i as int]);
                        if b.is_prefix_of(a) {
                            assert(a.subrange(0, b.len() as int)[i as int] == a[i as int]);
                        }
                    }
                    return false;
                },
            }
            i = i + 1;
        }
        assert(b =~= a.subrange(0, b.len() as int));
        true
    }

    /// The parent directory, as `Path::parent` computes it: its text is the leading
    /// part of this path's text that `Path::parent` gives (see [parent_text]).
    pub fn parent(&self) -> (r: Option<FsPath>)
        ensures
            r matches Some(p) ==> parent_of(self@) == Some(p@) && p.text() == parent_text(self.text()),
            r is None ==> parent_of(self@) is None,
    {
        let n = self.components.len();
        if n == 0 {
            return None;
        }
        match &self.components[n - 1] {
            PathComponent::RootDir => None,
            _ => {
                let mut p = self.clone_path();
                p.components.pop();
                assert(p@ =~= self@.drop_last());
                p.text = parent_text_of(self.text.as_str());
                Some(p)
            },
        }
    }

    /// This path with the plain name `name` added at its end, as `Path::join`
    /// gives it.
    pub fn join(&self, name: &str) -> (r: FsPath)
        requires
            is_plain_name(name@),
        ensures
            r@ == self@.push(Part::Name(name@)),
            r.text() == join_text(self.text(), name@),
    {
        let mut p = self.clone_path();
        p.components.push(PathComponent::Normal(String::from_str(name)));
        assert(p@ =~= self@.push(Part::Name(name@)));
        let n = self.text.as_str().unicode_len();
        if n > 0 && self.text.as_str().get_char(n - 1) != '/' {
            proof {
                reveal_strlit("/");
            }
            p.text.append("/");
        }
        p.text.append(name);
        assert(p.text@ =~= join_text(self.text@, name@));
        p
    }
}

/// Adds the segment `seg` to `parts` as [finish_segment] says.
fn push_segment(parts: &mut Vec<PathComponent>, seg: &str)
    ensures
        components_view(final(parts)@) == finish_segment(components_view(old(parts)@), seg@),
{
    let ghost before = parts@;
    let n = seg.unicode_len();
    if n == 0 {
        return ;
    }
    let is_dot = n == 1 && seg.get_char(0) == '.';
    let is_dot_dot = n == 2 && seg.get_char(0) == '.' && seg.get_char(1) == '.';
    proof {
        assert(is_dot <==> seg@ == seq!['.']) by {
            if seg@ == seq!['.'] {
                assert(seg@[0] == '.');
            }
            if is_dot {
                assert(seg@ =~= seq!['.']);
            }
        }
        assert(is_dot_dot <==> seg@ == seq!['.', '.']) by {
            if seg@ == seq!['.', '.'] {
                assert(seg@[0] == '.' && seg@[1] == '.');
            }
            if is_dot_dot {
                assert(seg@ =~= seq!['.', '.']);
            }
        }
    }
    let c = if is_dot {
        if parts.len() == 0 {
            PathComponent::CurDir
        } else {
            return ;
        }
    } else if is_dot_dot {
        PathComponent::ParentDir
    } else {
        PathComponent::Normal(String::from_str(seg))
    };
    parts.push(c);
    proof {
        assert(components_view(parts@) =~= components_view(before).push(c@));
    }
}

impl FsPath {
    /// The path written as `text`, split into its components.
    pub fn new(text: &str) -> (r: FsPath)
        ensures
            r@ == parse(text@),
            r.text() == text@,
    {
        let n = text.unicode_len();
        let mut parts: Vec<PathComponent> = Vec::new();
        let mut start: usize = 0;
        let mut i: usize = 0;
        proof {
            assert(text@.take(0) =~= Seq::<char>::empty());
            assert(components_view(parts@) =~= Seq::<Part>::empty());
            assert(text@.subrange(0, 0) =~= Seq::<char>::empty());
        }
        while i < n
            invariant
                n == text@.len(),
                0 <= start <= i <= n,
                components_view(parts@) == scan(text@.take(i as int)).0,
                text@.subrange(start as int, i as int) == scan(text@.take(i as int)).1,
            decreases n - i,
        {
            let c = text.get_char(i);
            proof {
                assert(text@.take(i + 1).drop_last() =~= text@.take(i as int));
                assert(text@.take(i + 1).last() == c);
            }
            if c == '/' {
                if i == 0 {
                    let ghost before = parts@;
                    parts.push(PathComponent::RootDir);
                    proof {
                        assert(components_view(parts@) =~= seq![Part::Root]);
                    }
                } else {
                    let seg = text.substring_char(start, i);
                    push_segment(&mut parts, seg);
                }
                start = i + 1;
                proof {
                    assert(text@.subrange(start as int, i + 1) =~= Seq::<char>::empty());
                }
            } else {
                proof {
                    assert(text@.subrange(start as int, i + 1) =~= text@.subrange(
                        start as int,
                        i as int,
                    ).push(c));
                }
            }
            i = i + 1;
        }
        proof {
            assert(text@.take(n as int) =~= text@);
        }
        let seg = text.substring_char(start, n);
        push_segment(&mut parts, seg);
        FsPath { text: String::from_str(text), components: parts }
    }
}

} // verus!
