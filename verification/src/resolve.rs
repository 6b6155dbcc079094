//! Resolution of a path to the value registered for its closest directory.
//!
//! To use a [PathResolver]:
//! - Load directories into it using [PathResolver::add()]
//! - Resolve a path to its associated `T` with [PathResolver::resolve()]
use vstd::prelude::*;

use crate::path::{lemma_path_order, path_lt, path_starts_with, FsPath, Part, PathOrder};

verus! {

/// A directory and the value registered for it.
#[derive(Debug)]
pub struct PathItem<T> {
    /// The `path` that is used for "starts with" matching
    path: FsPath,
    /// The `value` associated with this `path`
    value: T,
}

impl<T> PathItem<T> {
    /// The components of this item's path.
    pub closed spec fn key(&self) -> Seq<Part> {
        self.path@
    }

    /// The text of this item's path.
    pub closed spec fn key_text(&self) -> Seq<char> {
        self.path.text()
    }

    /// This item's value.
    pub closed spec fn val(&self) -> T {
        self.value
    }

    pub fn path(&self) -> (r: &FsPath)
        ensures
            r@ == self.key(),
            r.text() == self.key_text(),
    {
        &self.path
    }

    pub fn value(&self) -> (r: &T)
        ensures
            *r == self.val(),
    {
        &self.value
    }

    pub fn value_mut(&mut self) -> (r: &mut T)
        ensures
            *r == old(self).val(),
            final(self).key() == old(self).key(),
            final(self).key_text() == old(self).key_text(),
            final(self).val() == *final(r),
    {
        &mut self.value
    }
}

/// The (path, value) pairs of a sequence of items.
pub open spec fn item_entries<T>(items: Seq<PathItem<T>>) -> Seq<(Seq<Part>, T)> {
    items.map_values(|it: PathItem<T>| (it.key(), it.val()))
}

/// The (path, value) pairs behind a sequence of item references.
pub open spec fn ref_entries<T>(items: Seq<&PathItem<T>>) -> Seq<(Seq<Part>, T)> {
    items.map_values(|it: &PathItem<T>| (it.key(), it.val()))
}

/// Entries in strictly increasing order of their paths.
pub open spec fn sorted_entries<T>(e: Seq<(Seq<Part>, T)>) -> bool {
    forall|i: int, j: int| 0 <= i < j < e.len() ==> path_lt(#[trigger] e[i].0, #[trigger] e[j].0)
}

/// `path` is registered in `e`.
pub open spec fn has_key<T>(e: Seq<(Seq<Part>, T)>, path: Seq<Part>) -> bool {
    exists|i: int| 0 <= i < e.len() && #[trigger] e[i].0 == path
}

/// The map from paths to values held by the entries `e`.
pub open spec fn entries_map<T>(e: Seq<(Seq<Part>, T)>) -> Map<Seq<Part>, T> {
    Map::new(
        |k: Seq<Part>| has_key(e, k),
        |k: Seq<Part>| e[choose|i: int| 0 <= i < e.len() && #[trigger] e[i].0 == k].1,
    )
}

/// The entries of `e` whose path is a leading part of `path`, in order.
pub open spec fn matching_entries<T>(e: Seq<(Seq<Part>, T)>, path: Seq<Part>) -> Seq<
    (Seq<Part>, T),
> {
    e.filter(|x: (Seq<Part>, T)| path_starts_with(path, x.0))
}

/// The entry that [PathResolver::resolve()] finds for `path` in `e`: among the
/// entries whose path is a leading part of `path`, the one with the longest path.
pub open spec fn is_closest_entry<T>(e: Seq<(Seq<Part>, T)>, path: Seq<Part>, x: (Seq<Part>, T)) -> bool {
    &&& e.contains(x)
    &&& path_starts_with(path, x.0)
    &&& forall|j: int|
        0 <= j < e.len() && path_starts_with(path, #[trigger] e[j].0) ==> e[j].0.len() <= x.0.len()
}

/// There is an entry in `e` whose path is a leading part of `path`.
pub open spec fn has_match<T>(e: Seq<(Seq<Part>, T)>, path: Seq<Part>) -> bool {
    exists|i: int| 0 <= i < e.len() && path_starts_with(path, #[trigger] e[i].0)
}

/// In sorted entries, the value found for a path is the one at the index holding it.
pub proof fn lemma_entries_map_at<T>(e: Seq<(Seq<Part>, T)>, i: int)
    requires
        sorted_entries(e),
        0 <= i < e.len(),
    ensures
        entries_map(e).contains_key(e[i].0),
        entries_map(e)[e[i].0] == e[i].1,
{
    lemma_path_order();
    let k = e[i].0;
    assert(has_key(e, k));
    let j = choose|j: int| 0 <= j < e.len() && #[trigger] e[j].0 == k;
    if j < i {
        assert(path_lt(e[j].0, e[i].0));
    } else if j > i {
        assert(path_lt(e[i].0, e[j].0));
    }
}


/// Inserting an entry with a new path where it keeps the entries sorted inserts it
/// into their map.
pub proof fn lemma_map_insert_at<V>(e: Seq<(Seq<Part>, V)>, index: int, x: (Seq<Part>, V))
    requires
        sorted_entries(e),
        0 <= index <= e.len(),
        forall|j: int| 0 <= j < index ==> path_lt(#[trigger] e[j].0, x.0),
        forall|j: int| index <= j < e.len() ==> path_lt(x.0, #[trigger] e[j].0),
    ensures
        sorted_entries(e.insert(index, x)),
        !has_key(e, x.0),
        entries_map(e.insert(index, x)) == entries_map(e).insert(x.0, x.1),
{
    lemma_path_order();
    let g = e.insert(index, x);
    let p = x.0;
    assert forall|i: int, j: int| 0 <= i < j < g.len() implies path_lt(
        #[trigger] g[i].0,
        #[trigger] g[j].0,
    ) by {
        if j < index {
        } else if j == index {
        } else if i < index {
            assert(path_lt(e[i].0, e[j - 1].0));
        } else if i == index {
        } else {
            assert(path_lt(e[i - 1].0, e[j - 1].0));
        }
    }
    assert(!has_key(e, p)) by {
        if has_key(e, p) {
            let j = choose|j: int| 0 <= j < e.len() && #[trigger] e[j].0 == p;
            if j < index {
                assert(path_lt(e[j].0, p));
            } else {
                assert(path_lt(p, e[j].0));
            }
        }
    }
    assert(entries_map(g) =~= entries_map(e).insert(p, x.1)) by {
        assert forall|k: Seq<Part>| #[trigger]
            entries_map(g).contains_key(k) == entries_map(e).insert(p, x.1).contains_key(k) by {
            if has_key(e, k) {
                let j = choose|j: int| 0 <= j < e.len() && #[trigger] e[j].0 == k;
                if j < index {
                    assert(g[j].0 == k);
                } else {
                    assert(g[j + 1].0 == k);
                }
            }
            if k == p {
                assert(g[index].0 == k);
            }
            if has_key(g, k) {
                let j = choose|j: int| 0 <= j < g.len() && #[trigger] g[j].0 == k;
                if j < index {
                    assert(e[j].0 == k);
                } else if j > index {
                    assert(e[j - 1].0 == k);
                }
            }
        }
        assert forall|k: Seq<Part>| #[trigger]
            entries_map(g).contains_key(k) implies entries_map(g)[k] == entries_map(e).insert(
            p,
            x.1,
        )[k] by {
            let j = choose|j: int| 0 <= j < g.len() && #[trigger] g[j].0 == k;
            lemma_entries_map_at(g, j);
            if j < index {
                lemma_entries_map_at(e, j);
            } else if j > index {
                lemma_entries_map_at(e, j - 1);
            }
        }
    }
}

/// Changing the value at an index keeps the entries sorted, and changes the value
/// their map gives its path.
pub proof fn lemma_map_update_at<V>(e: Seq<(Seq<Part>, V)>, index: int, v: V)
    requires
        sorted_entries(e),
        0 <= index < e.len(),
    ensures
        sorted_entries(e.update(index, (e[index].0, v))),
        entries_map(e.update(index, (e[index].0, v))) == entries_map(e).insert(e[index].0, v),
{
    lemma_path_order();
    let g = e.update(index, (e[index].0, v));
    let p = e[index].0;
    assert(sorted_entries(g)) by {
        assert forall|i: int, j: int| 0 <= i < j < g.len() implies path_lt(
            #[trigger] g[i].0,
            #[trigger] g[j].0,
        ) by {
            assert(g[i].0 == e[i].0 && g[j].0 == e[j].0);
        }
    }
    lemma_entries_map_at(e, index);
    assert(entries_map(g) =~= entries_map(e).insert(p, v)) by {
        assert forall|k: Seq<Part>| #[trigger]
            entries_map(g).contains_key(k) == entries_map(e).insert(p, v).contains_key(k) by {
            if has_key(e, k) {
                let j = choose|j: int| 0 <= j < e.len() && #[trigger] e[j].0 == k;
                assert(g[j].0 == k);
            }
            if has_key(g, k) {
                let j = choose|j: int| 0 <= j < g.len() && #[trigger] g[j].0 == k;
                assert(e[j].0 == k);
            }
        }
        assert forall|k: Seq<Part>| #[trigger]
            entries_map(g).contains_key(k) implies entries_map(g)[k] == entries_map(e).insert(
            p,
            v,
        )[k] by {
            let j = choose|j: int| 0 <= j < g.len() && #[trigger] g[j].0 == k;
            lemma_entries_map_at(g, j);
            if j != index {
                lemma_entries_map_at(e, j);
            }
        }
    }
}

/// Removing the entry at an index keeps the entries sorted, and removes its path
/// from their map.
pub proof fn lemma_map_remove_at<V>(e: Seq<(Seq<Part>, V)>, index: int)
    requires
        sorted_entries(e),
        0 <= index < e.len(),
    ensures
        sorted_entries(e.remove(index)),
        entries_map(e.remove(index)) == entries_map(e).remove(e[index].0),
{
    lemma_path_order();
    let g = e.remove(index);
    let p = e[index].0;
    assert forall|i: int, j: int| 0 <= i < j < g.len() implies path_lt(
        #[trigger] g[i].0,
        #[trigger] g[j].0,
    ) by {
        if j < index {
        } else if i < index {
            assert(path_lt(e[i].0, e[j + 1].0));
        } else {
            assert(path_lt(e[i + 1].0, e[j + 1].0));
        }
    }
    lemma_entries_map_at(e, index);
    assert(entries_map(g) =~= entries_map(e).remove(p)) by {
        assert forall|k: Seq<Part>| #[trigger]
            entries_map(g).contains_key(k) == entries_map(e).remove(p).contains_key(k) by {
            if has_key(e, k) && k != p {
                let j = choose|j: int| 0 <= j < e.len() && #[trigger] e[j].0 == k;
                if j < index {
                    assert(g[j].0 == k);
                } else {
                    assert(g[j - 1].0 == k);
                }
            }
            if has_key(g, k) {
                let j = choose|j: int| 0 <= j < g.len() && #[trigger] g[j].0 == k;
                if j < index {
                    assert(e[j].0 == k);
                    assert(path_lt(e[j].0, e[index].0));
                } else {
                    assert(e[j + 1].0 == k);
                    assert(path_lt(e[index].0, e[j + 1].0));
                }
            }
        }
        assert forall|k: Seq<Part>| #[trigger]
            entries_map(g).contains_key(k) implies entries_map(g)[k] == entries_map(e).remove(
            p,
        )[k] by {
            let j = choose|j: int| 0 <= j < g.len() && #[trigger] g[j].0 == k;
            lemma_entries_map_at(g, j);
            if j < index {
                lemma_entries_map_at(e, j);
            } else {
                lemma_entries_map_at(e, j + 1);
            }
        }
    }
}

/// Among sorted entries, the closest entry for a path is unique.
pub proof fn lemma_closest_entry_unique<T>(
    e: Seq<(Seq<Part>, T)>,
    path: Seq<Part>,
    x: (Seq<Part>, T),
    y: (Seq<Part>, T),
)
    requires
        sorted_entries(e),
        is_closest_entry(e, path, x),
        is_closest_entry(e, path, y),
    ensures
        x == y,
{
    lemma_path_order();
    let i = choose|i: int| 0 <= i < e.len() && e[i] == x;
    let j = choose|j: int| 0 <= j < e.len() && e[j] == y;
    assert(e[i].0.len() == e[j].0.len());
    assert(x.0 =~= y.0) by {
        assert forall|k: int| 0 <= k < x.0.len() implies x.0[k] == y.0[k] by {
            assert(x.0[k] == path.subrange(0, x.0.len() as int)[k]);
            assert(y.0[k] == path.subrange(0, y.0.len() as int)[k]);
        }
    }
    if i < j {
        assert(path_lt(e[i].0, e[j].0));
    } else if j < i {
        assert(path_lt(e[j].0, e[i].0));
    }
}

/// The value that [PathResolver::resolve()] finds for `path` in `e`, or `default`
/// when no registered path is a leading part of `path`.
pub open spec fn resolved_value<T>(e: Seq<(Seq<Part>, T)>, path: Seq<Part>, default: T) -> T {
    if has_match(e, path) {
        (choose|x: (Seq<Part>, T)| is_closest_entry(e, path, x)).1
    } else {
        default
    }
}

/// A closest entry exists whenever some registered path is a leading part of `path`.
pub proof fn lemma_closest_entry_exists<T>(e: Seq<(Seq<Part>, T)>, path: Seq<Part>)
    requires
        sorted_entries(e),
        has_match(e, path),
    ensures
        exists|x: (Seq<Part>, T)| is_closest_entry(e, path, x),
    decreases e.len(),
{
    let i = choose|i: int| 0 <= i < e.len() && path_starts_with(path, #[trigger] e[i].0);
    let last = e.len() - 1;
    if path_starts_with(path, e[last].0) {
        lemma_path_order();
        let x = e[last];
        assert(e.contains(x));
        assert forall|j: int|
            0 <= j < e.len() && path_starts_with(path, #[trigger] e[j].0) implies e[j].0.len()
            <= x.0.len() by {
            if e[j].0.len() > x.0.len() {
                let a = x.0;
                let b = e[j].0;
                assert(a.is_prefix_of(b)) by {
                    assert forall|k: int| 0 <= k < a.len() implies a[k] == b[k] by {
                        assert(a[k] == path.subrange(0, a.len() as int)[k]);
                        assert(b[k] == path.subrange(0, b.len() as int)[k]);
                    }
                    assert(a =~= b.subrange(0, a.len() as int));
                }
                assert(path_starts_with(b, a));
                assert(path_lt(a, b));
                assert(path_lt(b, a));
            }
        }
        assert(is_closest_entry(e, path, x));
    } else {
        let f = e.drop_last();
        assert(i != last);
        assert(sorted_entries(f));
        assert(f[i] == e[i]);
        lemma_closest_entry_exists(f, path);
        let x = choose|x: (Seq<Part>, T)| is_closest_entry(f, path, x);
        let k = choose|k: int| 0 <= k < f.len() && f[k] == x;
        assert(e[k] == x);
        assert(e.contains(x));
        assert forall|j: int|
            0 <= j < e.len() && path_starts_with(path, #[trigger] e[j].0) implies e[j].0.len()
            <= x.0.len() by {
            assert(j != last);
            assert(f[j] == e[j]);
        }
        assert(is_closest_entry(e, path, x));
    }
}

// ---------------------------------------------------------------------------
// Laws

/// A registered path resolves to its own entry: it is the closest directory to
/// itself.
pub proof fn law_registered_path_resolves_to_itself<T>(r: PathResolver<T>, path: Seq<Part>)
    requires
        r.wf(),
        r.map().contains_key(path),
    ensures
        has_match(r@, path),
        is_closest_entry(r@, path, (path, r.map()[path])),
        resolved_value(r@, path, r.map()[path]) == r.map()[path],
{
    let e = r@;
    let i = choose|i: int| 0 <= i < e.len() && #[trigger] e[i].0 == path;
    lemma_entries_map_at(e, i);
    assert(path.is_prefix_of(path)) by {
        assert(path =~= path.subrange(0, path.len() as int));
    }
    assert(path_starts_with(path, e[i].0));
    assert(e[i] == (path, r.map()[path]));
    assert(e.contains(e[i]));
    assert forall|j: int| 0 <= j < e.len() && path_starts_with(path, #[trigger] e[j].0) implies e[j].0.len()
        <= path.len() by {}
    assert(is_closest_entry(e, path, (path, r.map()[path])));
    let x = choose|x: (Seq<Part>, T)| is_closest_entry(e, path, x);
    lemma_closest_entry_unique(e, path, x, (path, r.map()[path]));
}

/// Adding a path and then removing it gives back the value added, and leaves the
/// map as removing the path alone would.
pub proof fn law_add_then_remove<T>(m: Map<Seq<Part>, T>, path: Seq<Part>, value: T)
    ensures
        m.insert(path, value).contains_key(path),
        m.insert(path, value)[path] == value,
        m.insert(path, value).remove(path) == m.remove(path),
        !m.contains_key(path) ==> m.insert(path, value).remove(path) == m,
{
    assert(m.insert(path, value).remove(path) =~= m.remove(path));
    if !m.contains_key(path) {
        assert(m.insert(path, value).remove(path) =~= m);
    }
}

/// The entry [PathResolver::resolve()] finds is one of the entries
/// [PathResolver::matches()] returns, and no entry that `matches` returns has a
/// longer path.
pub proof fn law_resolve_is_longest_match<T>(
    e: Seq<(Seq<Part>, T)>,
    path: Seq<Part>,
    x: (Seq<Part>, T),
)
    requires
        sorted_entries(e),
        is_closest_entry(e, path, x),
    ensures
        matching_entries(e, path).contains(x),
        forall|k: int|
            0 <= k < matching_entries(e, path).len() ==> (#[trigger] matching_entries(
                e,
                path,
            )[k]).0.len() <= x.0.len(),
{
    let pred = |y: (Seq<Part>, T)| path_starts_with(path, y.0);
    let f = e.filter(pred);
    let i = choose|i: int| 0 <= i < e.len() && e[i] == x;
    e.lemma_filter_contains(pred, i);
    assert forall|k: int| 0 <= k < f.len() implies (#[trigger] f[k]).0.len() <= x.0.len() by {
        assert(f.contains(f[k]));
        e.lemma_filter_contains_rev(pred, f[k]);
        #[allow(deprecated)]
        e.filter_lemma(pred);
        assert(pred(f[k]));
        let j = choose|j: int| 0 <= j < e.len() && e[j] == f[k];
        assert(path_starts_with(path, e[j].0));
    }
}

/// Keeping some of sorted entries keeps them sorted.
pub proof fn lemma_filter_sorted<T>(e: Seq<(Seq<Part>, T)>, pred: spec_fn((Seq<Part>, T)) -> bool)
    requires
        sorted_entries(e),
    ensures
        sorted_entries(e.filter(pred)),
    decreases e.len(),
{
    reveal_with_fuel(Seq::<_>::filter, 1);
    if e.len() > 0 {
        let d = e.drop_last();
        assert(sorted_entries(d));
        lemma_filter_sorted(d, pred);
        let f = d.filter(pred);
        if pred(e.last()) {
            let g = f.push(e.last());
            lemma_path_order();
            assert forall|i: int, j: int| 0 <= i < j < g.len() implies path_lt(
                #[trigger] g[i].0,
                #[trigger] g[j].0,
            ) by {
                if j == g.len() - 1 {
                    assert(f.contains(g[i]));
                    d.lemma_filter_contains_rev(pred, g[i]);
                    let k = choose|k: int| 0 <= k < d.len() && d[k] == g[i];
                    assert(e[k] == d[k]);
                    assert(path_lt(e[k].0, e[e.len() - 1].0));
                } else {
                    assert(g[i] == f[i] && g[j] == f[j]);
                }
            }
        }
    }
}

/// The entry [PathResolver::resolve()] finds is the last of the entries
/// [PathResolver::matches()] returns.
pub proof fn law_resolve_is_last_match<T>(e: Seq<(Seq<Part>, T)>, path: Seq<Part>, x: (Seq<Part>, T))
    requires
        sorted_entries(e),
        is_closest_entry(e, path, x),
    ensures
        matching_entries(e, path).len() > 0,
        matching_entries(e, path).last() == x,
{
    let pred = |y: (Seq<Part>, T)| path_starts_with(path, y.0);
    let f = e.filter(pred);
    law_resolve_is_longest_match(e, path, x);
    lemma_filter_sorted(e, pred);
    lemma_path_order();
    assert(f.len() > 0);
    let l = f.last();
    let k = choose|k: int| 0 <= k < f.len() && f[k] == x;
    if k != f.len() - 1 {
        assert(path_lt(x.0, l.0));
        assert(l.0.len() <= x.0.len());
        assert(f.contains(l));
        #[allow(deprecated)]
        e.filter_lemma(pred);
        assert(pred(f[f.len() - 1]));
        assert(path_starts_with(path, l.0));
        assert(path_starts_with(path, x.0));
        assert(path_starts_with(x.0, l.0)) by {
            assert(l.0 =~= x.0.subrange(0, l.0.len() as int)) by {
                assert forall|i: int| 0 <= i < l.0.len() implies l.0[i] == x.0[i] by {
                    assert(l.0[i] == path.subrange(0, l.0.len() as int)[i]);
                    assert(x.0[i] == path.subrange(0, x.0.len() as int)[i]);
                }
            }
        }
        if l.0.len() == x.0.len() {
            assert(l.0 =~= x.0);
        } else {
            assert(path_lt(l.0, x.0));
        }
    }
}

/// Resolves a path to its associated `T`
///
/// See [PathResolver::resolve()] for more details on the implementation.
#[derive(Debug)]
pub struct PathResolver<T> {
    /// A sorted vector of `PathItem`. Sorted on the path in increasing order.
    items: Vec<PathItem<T>>,
}

impl<T> View for PathResolver<T> {
    type V = Seq<(Seq<Part>, T)>;

    closed spec fn view(&self) -> Seq<(Seq<Part>, T)> {
        item_entries(self.items@)
    }
}

impl<T> PathResolver<T> {
    /// The resolver's items are sorted by path, with no path twice.
    pub open spec fn wf(&self) -> bool {
        sorted_entries(self@)
    }

    /// The map from registered paths to their values.
    pub open spec fn map(&self) -> Map<Seq<Part>, T> {
        entries_map(self@)
    }

    /// Create a new empty [PathResolver]
    pub fn new() -> (r: Self)
        ensures
            r@ == Seq::<(Seq<Part>, T)>::empty(),
            r.text_entries() == Seq::<(Seq<Part>, Seq<char>)>::empty(),
            r.wf(),
    {
        let r = Self { items: Vec::new() };
        assert(r@ =~= Seq::<(Seq<Part>, T)>::empty());
        assert(r.text_entries() =~= Seq::<(Seq<Part>, Seq<char>)>::empty());
        r
    }

    /// Finds `path`: `Ok(index)` where it is registered, or `Err(index)` where it
    /// would have to be inserted to keep the items sorted.
    fn search(&self, path: &FsPath) -> (r: Result<usize, usize>)
        requires
            self.wf(),
        ensures
            r matches Ok(i) ==> i < self@.len() && self@[i as int].0 == path@,
            r matches Err(i) ==> i <= self@.len() && (forall|j: int|
                0 <= j < i ==> path_lt(#[trigger] self@[j].0, path@)) && (forall|j: int|
                i <= j < self@.len() ==> path_lt(path@, #[trigger] self@[j].0)),
    {
        proof {
            lemma_path_order();
        }
        let mut lo: usize = 0;
        let mut hi: usize = self.items.len();
        while lo < hi
            invariant
                self.wf(),
                0 <= lo <= hi <= self@.len(),
                self@.len() == self.items@.len(),
                forall|j: int| 0 <= j < lo ==> path_lt(#[trigger] self@[j].0, path@),
                forall|j: int| hi <= j < self@.len() ==> path_lt(path@, #[trigger] self@[j].0),
            decreases hi - lo,
        {
            let mid = lo + (hi - lo) / 2;
            let c = self.items[mid].path.compare(path);
            proof {
                lemma_path_order();
                assert(self@[mid as int].0 == self.items@[mid as int].path@);
            }
            match c {
                PathOrder::Equal => {
                    return Ok(mid);
                },
                PathOrder::Less => {
                    proof {
                        assert forall|j: int| 0 <= j < mid + 1 implies path_lt(
                            #[trigger] self@[j].0,
                            path@,
                        ) by {
                            if j < mid {
                                assert(path_lt(self@[j].0, self@[mid as int].0));
                            }
                        }
                    }
                    lo = mid + 1;
                },
                PathOrder::Greater => {
                    proof {
                        assert forall|j: int| mid <= j < self@.len() implies path_lt(
                            path@,
                            #[trigger] self@[j].0,
                        ) by {
                            if j > mid {
                                assert(path_lt(self@[mid as int].0, self@[j].0));
                            }
                        }
                    }
                    hi = mid;
                },
            }
        }
        Err(lo)
    }

    /// The (path, text) pairs of the items: each registered path with the text it
    /// was added with.
    pub closed spec fn text_entries(&self) -> Seq<(Seq<Part>, Seq<char>)> {
        self.items@.map_values(|it: PathItem<T>| (it.key(), it.key_text()))
    }

    /// The map from registered paths to the text each was added with.
    pub open spec fn text_map(&self) -> Map<Seq<Part>, Seq<char>> {
        entries_map(self.text_entries())
    }

    pub proof fn lemma_text_entries(&self)
        requires
            self.wf(),
        ensures
            sorted_entries(self.text_entries()),
            self.text_entries().len() == self@.len(),
            forall|i: int| 0 <= i < self@.len() ==> #[trigger] self.text_entries()[i].0 == self@[i].0,
    {
        let te = self.text_entries();
        assert forall|i: int| 0 <= i < self@.len() implies #[trigger] te[i].0 == self@[i].0 by {}
        assert forall|i: int, j: int| 0 <= i < j < te.len() implies path_lt(
            #[trigger] te[i].0,
            #[trigger] te[j].0,
        ) by {
            assert(te[i].0 == self@[i].0 && te[j].0 == self@[j].0);
        }
    }

    /// Add a `path` and its `value` into the resolver
    ///
    /// The new item is inserted in such a way that the overall vector remains sorted.
    /// If the `path` already exists, the new `value` is inserted and the old one
    /// is returned (the path keeps the text it was first added with), otherwise
    /// `None` is returned.
    pub fn add(&mut self, path: FsPath, value: T) -> (r: Option<T>)
        requires
            old(self).wf(),
        ensures
            final(self).wf(),
            final(self).map() == old(self).map().insert(path@, value),
            final(self).text_map() == (if old(self).map().contains_key(path@) {
                old(self).text_map()
            } else {
                old(self).text_map().insert(path@, path.text())
            }),
            r == (if old(self).map().contains_key(path@) {
                Some(old(self).map()[path@])
            } else {
                None
            }),
    {
        let ghost e = self@;
        let ghost te = self.text_entries();
        let ghost p = path@;
        let ghost t = path.text();
        proof {
            lemma_path_order();
            self.lemma_text_entries();
        }
        match self.search(&path) {
            Ok(index) => {
                let mut old_value = value;
                std::mem::swap(&mut self.items[index].value, &mut old_value);
                proof {
                    assert(self@ =~= e.update(index as int, (p, value)));
                    assert(self.text_entries() =~= te);
                    lemma_map_update_at(e, index as int, value);
                    lemma_entries_map_at(e, index as int);
                }
                Some(old_value)
            },
            Err(index) => {
                let item = PathItem { path, value };
                self.items.insert(index, item);
                proof {
                    assert(self@ =~= e.insert(index as int, (p, value)));
                    assert(self.text_entries() =~= te.insert(index as int, (p, t)));
                    lemma_map_insert_at(e, index as int, (p, value));
                    lemma_map_insert_at(te, index as int, (p, t));
                }
                None
            },
        }
    }

    /// Remove a `path` and its `value` from the resolver
    ///
    /// Returns `Some(value)` if the `path` existed, otherwise returns `None`.
    pub fn remove(&mut self, path: &FsPath) -> (r: Option<T>)
        requires
            old(self).wf(),
        ensures
            final(self).wf(),
            final(self).map() == old(self).map().remove(path@),
            final(self).text_map() == old(self).text_map().remove(path@),
            r == (if old(self).map().contains_key(path@) {
                Some(old(self).map()[path@])
            } else {
                None
            }),
    {
        let ghost e = self@;
        let ghost te = self.text_entries();
        let ghost p = path@;
        proof {
            lemma_path_order();
            self.lemma_text_entries();
        }
        match self.search(path) {
            Ok(index) => {
                let item = self.items.remove(index);
                proof {
                    assert(self@ =~= e.remove(index as int));
                    assert(self.text_entries() =~= te.remove(index as int));
                    lemma_map_remove_at(e, index as int);
                    lemma_map_remove_at(te, index as int);
                    lemma_entries_map_at(e, index as int);
                }
                Some(item.value)
            },
            Err(index) => {
                proof {
                    assert(!has_key(e, p)) by {
                        if has_key(e, p) {
                            let j = choose|j: int| 0 <= j < e.len() && #[trigger] e[j].0 == p;
                            if j < index {
                                assert(path_lt(e[j].0, p));
                            } else {
                                assert(path_lt(p, e[j].0));
                            }
                        }
                    }
                    assert(!has_key(te, p)) by {
                        if has_key(te, p) {
                            let j = choose|j: int| 0 <= j < te.len() && #[trigger] te[j].0 == p;
                            assert(e[j].0 == p);
                        }
                    }
                    assert(self.map() =~= entries_map(e).remove(p));
                    assert(self.text_map() =~= entries_map(te).remove(p));
                }
                None
            },
        }
    }

    /// The items, sorted by path.
    pub fn items(&self) -> (r: &[PathItem<T>])
        ensures
            item_entries(r@) == self@,
            r@.map_values(|it: PathItem<T>| (it.key(), it.key_text())) == self.text_entries(),
    {
        self.items.as_slice()
    }

    pub fn len(&self) -> (r: usize)
        ensures
            r == self@.len(),
    {
        self.items.len()
    }

    pub fn is_empty(&self) -> (r: bool)
        ensures
            r == (self@.len() == 0),
    {
        self.items.len() == 0
    }

    pub fn clear(&mut self)
        ensures
            final(self)@ == Seq::<(Seq<Part>, T)>::empty(),
            final(self).text_entries() == Seq::<(Seq<Part>, Seq<char>)>::empty(),
            final(self).wf(),
    {
        self.items.clear();
        assert(self@ =~= Seq::<(Seq<Part>, T)>::empty());
        assert(self.text_entries() =~= Seq::<(Seq<Part>, Seq<char>)>::empty());
    }

    /// Resolve a path to its associated `T`
    ///
    /// This resolver works by finding the closest directory to the `path` to search for.
    /// We iterate from the end and find the first [PathItem] that forms a prefix for
    /// the `path` of interest. Because the vector is sorted and we start from the back,
    /// this gives us the longest path, i.e. the "closest" one to `path`.
    ///
    /// Matching is done on whole components, so `a/b` is NOT a prefix for `a/b.R`.
    pub fn resolve(&self, path: &FsPath) -> (r: Option<&PathItem<T>>)
        requires
            self.wf(),
        ensures
            r is Some <==> has_match(self@, path@),
            r matches Some(it) ==> is_closest_entry(self@, path@, (it.key(), it.val())),
    {
        proof {
            lemma_path_order();
        }
        let ghost e = self@;
        let mut i: usize = self.items.len();
        while i > 0
            invariant
                e == self@,
                self.wf(),
                i <= e.len(),
                e.len() == self.items@.len(),
                forall|j: int| i <= j < e.len() ==> !path_starts_with(path@, #[trigger] e[j].0),
            decreases i,
        {
            i = i - 1;
            proof {
                lemma_path_order();
                assert(e[i as int].0 == self.items@[i as int].path@);
            }
            if path.starts_with(&self.items[i].path) {
                let it = &self.items[i];
                proof {
                    assert(e[i as int] == (it.key(), it.val()));
                    assert forall|j: int|
                        0 <= j < e.len() && path_starts_with(path@, #[trigger] e[j].0) implies e[j].0.len()
                        <= e[i as int].0.len() by {
                        if e[j].0.len() > e[i as int].0.len() {
                            let a = e[i as int].0;
                            let b = e[j].0;
                            assert(a.is_prefix_of(b)) by {
                                assert forall|k: int| 0 <= k < a.len() implies a[k] == b[k] by {
                                    assert(a[k] == path@.subrange(0, a.len() as int)[k]);
                                    assert(b[k] == path@.subrange(0, b.len() as int)[k]);
                                }
                                assert(a =~= b.subrange(0, a.len() as int));
                            }
                            assert(path_starts_with(b, a));
                            assert(path_lt(a, b));
                            assert(j < i);
                            assert(path_lt(b, a));
                        }
                    }
                }
                return Some(it);
            }
        }
        None
    }

    /// Returns all items matched by the `path` rather than just the closest one, in
    /// order of their paths.
    ///
    /// See [PathResolver::resolve()] for implementation details.
    pub fn matches(&self, path: &FsPath) -> (r: Vec<&PathItem<T>>)
        ensures
            ref_entries(r@) == matching_entries(self@, path@),
    {
        let ghost e = self@;
        let ghost pred = |x: (Seq<Part>, T)| path_starts_with(path@, x.0);
        let mut out: Vec<&PathItem<T>> = Vec::new();
        let n = self.items.len();
        let mut i: usize = 0;
        proof {
            assert(e.take(0) =~= Seq::<(Seq<Part>, T)>::empty());
            assert(ref_entries(out@) =~= Seq::<(Seq<Part>, T)>::empty());
        }
        while i < n
            invariant
                e == self@,
                n == e.len(),
                n == self.items@.len(),
                0 <= i <= n,
                pred == (|x: (Seq<Part>, T)| path_starts_with(path@, x.0)),
                ref_entries(out@) == e.take(i as int).filter(pred),
            decreases n - i,
        {
            proof {
                reveal_with_fuel(Seq::<_>::filter, 1);
                assert(e.take(i + 1).drop_last() =~= e.take(i as int));
                assert(e[i as int].0 == self.items@[i as int].path@);
            }
            let ghost before = out@;
            if path.starts_with(&self.items[i].path) {
                out.push(&self.items[i]);
                proof {
                    assert(ref_entries(out@) =~= ref_entries(before).push(e[i as int]));
                }
            }
            i = i + 1;
        }
        proof {
            assert(e.take(n as int) =~= e);
        }
        out
    }

    /// Returns the indices of all items matched by the `path`, in increasing order.
    /// Each matched value can then be changed with [PathResolver::value_mut_at()].
    pub fn matches_mut(&self, path: &FsPath) -> (r: Vec<usize>)
        ensures
            forall|k: int| 0 <= k < r@.len() ==> #[trigger] r@[k] < self@.len(),
            forall|k: int, l: int| 0 <= k < l < r@.len() ==> #[trigger] r@[k] < #[trigger] r@[l],
            forall|k: int|
                0 <= k < r@.len() ==> path_starts_with(path@, self@[#[trigger] r@[k] as int].0),
            forall|j: int|
                0 <= j < self@.len() && path_starts_with(path@, #[trigger] self@[j].0) ==> r@.contains(
                    j as usize,
                ),
    {
        let ghost e = self@;
        let mut out: Vec<usize> = Vec::new();
        let n = self.items.len();
        let mut i: usize = 0;
        while i < n
            invariant
                e == self@,
                n == e.len(),
                n == self.items@.len(),
                0 <= i <= n,
                forall|k: int| 0 <= k < out@.len() ==> #[trigger] out@[k] < i,
                forall|k: int, l: int|
                    0 <= k < l < out@.len() ==> #[trigger] out@[k] < #[trigger] out@[l],
                forall|k: int|
                    0 <= k < out@.len() ==> path_starts_with(path@, e[#[trigger] out@[k] as int].0),
                forall|j: int|
                    0 <= j < i && path_starts_with(path@, #[trigger] e[j].0) ==> out@.contains(
                        j as usize,
                    ),
            decreases n - i,
        {
            proof {
                assert(e[i as int].0 == self.items@[i as int].path@);
            }
            let ghost before = out@;
            if path.starts_with(&self.items[i].path) {
                out.push(i);
                proof {
                    assert(out@[before.len() as int] == i);
                    assert forall|j: int|
                        0 <= j < i + 1 && path_starts_with(path@, #[trigger] e[j].0) implies out@.contains(
                        j as usize,
                    ) by {
                        if j < i {
                            let k = choose|k: int| 0 <= k < before.len() && before[k] == j as usize;
                            assert(out@[k] == j as usize);
                        } else {
                            assert(out@[before.len() as int] == j as usize);
                        }
                    }
                }
            }
            i = i + 1;
        }
        out
    }

    /// Mutable access to the value at `index`; the paths, and so the order of the
    /// items, stay as they are.
    pub fn value_mut_at(&mut self, index: usize) -> (r: &mut T)
        requires
            index < old(self)@.len(),
        ensures
            *r == old(self)@[index as int].1,
            final(self)@ == old(self)@.update(index as int, (old(self)@[index as int].0, *final(r))),
            final(self).text_entries() == old(self).text_entries(),
    {
        &mut self.items[index].value
    }
}

} // verus!
