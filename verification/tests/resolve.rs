use air_workspace::path::FsPath;
use air_workspace::resolve::PathResolver;

fn p(text: &str) -> FsPath {
    FsPath::new(text)
}

#[test]
fn test_items_are_added_and_removed_in_sorted_order() {
    let mut resolver = PathResolver::new();

    resolver.add(p("/user/c"), String::from("c"));
    resolver.add(p("/user/a"), String::from("a"));
    resolver.add(p("/user/b"), String::from("b"));

    let items = resolver.items();
    assert_eq!(items[0].value(), &String::from("a"));
    assert_eq!(items[1].value(), &String::from("b"));
    assert_eq!(items[2].value(), &String::from("c"));

    resolver.remove(&p("/user/b"));

    let items = resolver.items();
    assert_eq!(items[0].value(), &String::from("a"));
    assert_eq!(items[1].value(), &String::from("c"));
}

#[test]
fn test_matches_must_be_strict_prefixes() {
    let mut resolver = PathResolver::new();
    resolver.add(p("/user/a"), String::from("a"));
    resolver.add(p("/user/b"), String::from("b"));
    resolver.add(p("/user/b/c"), String::from("c"));

    // Even though `"/user/a" < "/user/b/c/foo.R"` lexicographically, we should not
    // return it as a match
    let mut matches = resolver.matches(&p("/user/b/c/foo.R")).into_iter();

    let item = matches.next().unwrap();
    assert_eq!(item.value(), &String::from("b"));

    let item = matches.next().unwrap();
    assert_eq!(item.value(), &String::from("c"));

    assert!(matches.next().is_none());
}

#[test]
fn test_starts_with_strategy_only_matches_full_components() {
    let mut resolver = PathResolver::new();
    resolver.add(p("/user/a"), 1);

    // Technically `/user/a.R` "starts with" `/user/a`, but only full components count
    assert!(resolver.resolve(&p("/user/a.R")).is_none());
}

#[test]
fn test_can_resolve_in_simple_cases() {
    let mut resolver = PathResolver::new();
    resolver.add(p("/user/a"), 1);
    resolver.add(p("/user/b"), 2);

    let item = resolver.resolve(&p("/user/a/foo.R")).unwrap();
    assert_eq!(item.path(), &p("/user/a"));
    assert_eq!(item.value(), &1);

    let item = resolver.resolve(&p("/user/b/foo.R")).unwrap();
    assert_eq!(item.path(), &p("/user/b"));
    assert_eq!(item.value(), &2);
}

#[test]
fn test_resolves_to_closest_path() {
    let mut resolver = PathResolver::new();
    resolver.add(p("/user/b"), 1);
    resolver.add(p("/user/b/a"), 2);

    let item = resolver.resolve(&p("/user/b/foo.R")).unwrap();
    assert_eq!(item.path(), &p("/user/b"));

    let item = resolver.resolve(&p("/user/b/b/foo.R")).unwrap();
    assert_eq!(item.path(), &p("/user/b"));

    let item = resolver.resolve(&p("/user/b/a/foo.R")).unwrap();
    assert_eq!(item.path(), &p("/user/b/a"));

    assert!(resolver.resolve(&p("/user/a/a/foo.R")).is_none());
}

// A registered path resolves to itself, and the value added last wins.
#[test]
fn resolver_add_returns_previous_value_and_resolves_to_itself() {
    let mut resolver = PathResolver::new();
    assert_eq!(resolver.add(p("/user/a"), 1), None);
    assert_eq!(resolver.add(p("/user/a"), 2), Some(1));
    assert_eq!(resolver.len(), 1);
    let item = resolver.resolve(&p("/user/a")).unwrap();
    assert_eq!(item.value(), &2);
}

// Adding and then removing a path gives the value back and leaves the rest.
#[test]
fn resolver_add_then_remove() {
    let mut resolver = PathResolver::new();
    resolver.add(p("/user/a"), 1);
    resolver.add(p("/user/b"), 2);
    assert_eq!(resolver.remove(&p("/user/b")), Some(2));
    assert_eq!(resolver.remove(&p("/user/b")), None);
    assert_eq!(resolver.len(), 1);
    assert_eq!(resolver.items()[0].value(), &1);
    assert!(!resolver.is_empty());
    resolver.clear();
    assert!(resolver.is_empty());
}

// The resolved item is the last of the matches: the one with the longest path.
#[test]
fn resolver_resolve_is_last_match() {
    let mut resolver = PathResolver::new();
    resolver.add(p("/"), 0);
    resolver.add(p("/user"), 1);
    resolver.add(p("/user/b"), 2);
    resolver.add(p("/user/b/c"), 3);
    let matches = resolver.matches(&p("/user/b/foo.R"));
    assert_eq!(matches.len(), 3);
    assert_eq!(matches.last().unwrap().value(), &2);
    assert_eq!(resolver.resolve(&p("/user/b/foo.R")).unwrap().value(), &2);
}

// The indices of matches can be used to change their values.
#[test]
fn resolver_matches_mut_changes_values() {
    let mut resolver = PathResolver::new();
    resolver.add(p("/user/a"), 1);
    resolver.add(p("/user/b"), 2);
    resolver.add(p("/user/b/c"), 3);
    let indices = resolver.matches_mut(&p("/user/b/c/foo.R"));
    assert_eq!(indices, vec![1, 2]);
    for index in indices {
        *resolver.value_mut_at(index) += 10;
    }
    let values: Vec<i32> = resolver.items().iter().map(|item| *item.value()).collect();
    assert_eq!(values, vec![1, 12, 13]);
}

// Relative paths resolve like absolute ones.
#[test]
fn resolver_relative_paths() {
    let mut resolver = PathResolver::new();
    resolver.add(p("a/b"), 1);
    resolver.add(p("a/b/c"), 2);
    resolver.add(p("a/b/d"), 3);
    assert_eq!(resolver.resolve(&p("a/b/c/test.R")).unwrap().value(), &2);
    assert_eq!(resolver.resolve(&p("a/b/test.R")).unwrap().value(), &1);
    assert!(resolver.resolve(&p("/a/b/test.R")).is_none());
}

// A path added again keeps the text it was first added with; the item's path
// gives that text back.
#[test]
fn resolver_keeps_the_text_a_path_was_added_with() {
    let mut resolver = PathResolver::new();
    resolver.add(p("/user//a"), 1);
    resolver.add(p("/user/a/"), 2);
    assert_eq!(resolver.len(), 1);
    let item = resolver.resolve(&p("/user/a/foo.R")).unwrap();
    assert_eq!(item.path().as_str(), "/user//a");
    assert_eq!(item.value(), &2);
}
