use air_workspace::path::{FsPath, PathComponent, PathOrder};
use air_workspace::sorted::{path_ordering, sorted_changed_paths};

fn names(path: &FsPath) -> Vec<String> {
    path.components()
        .iter()
        .map(|c| match c {
            PathComponent::RootDir => String::from("/"),
            PathComponent::CurDir => String::from("."),
            PathComponent::ParentDir => String::from(".."),
            PathComponent::Normal(n) => n.clone(),
        })
        .collect()
}

#[test]
fn path_splits_into_components() {
    assert_eq!(names(&FsPath::new("/user/a/foo.R")), vec!["/", "user", "a", "foo.R"]);
    assert_eq!(names(&FsPath::new("a//b/./c/")), vec!["a", "b", "c"]);
    assert_eq!(names(&FsPath::new("./a")), vec![".", "a"]);
    assert_eq!(names(&FsPath::new("../a")), vec!["..", "a"]);
    assert_eq!(names(&FsPath::new("/./a")), vec!["/", "a"]);
    assert_eq!(names(&FsPath::new(".")), vec!["."]);
    assert!(names(&FsPath::new("")).is_empty());
    assert_eq!(FsPath::new("renv/").as_str(), "renv/");
}

#[test]
fn path_order_is_by_components() {
    // `/user/a/b` comes before `/user/a.R` because `a` comes before `a.R`, even
    // though `/` comes after `.` in the text.
    assert_eq!(FsPath::new("/user/a/b").compare(&FsPath::new("/user/a.R")), PathOrder::Less);
    assert_eq!(FsPath::new("/user/a.R").compare(&FsPath::new("/user/a/b")), PathOrder::Greater);
    assert_eq!(FsPath::new("/user/a/").compare(&FsPath::new("/user//a")), PathOrder::Equal);
    assert_eq!(FsPath::new("/a").compare(&FsPath::new("a")), PathOrder::Less);
    assert_eq!(FsPath::new("a").compare(&FsPath::new("a/b")), PathOrder::Less);
}

#[test]
fn path_starts_with_whole_components() {
    assert!(FsPath::new("/user/a/foo.R").starts_with(&FsPath::new("/user/a")));
    assert!(!FsPath::new("/user/a.R").starts_with(&FsPath::new("/user/a")));
    assert!(FsPath::new("/user/a").starts_with(&FsPath::new("/user/a/")));
}

#[test]
fn path_parent_and_join() {
    let p = FsPath::new("/etc/cpp11.R");
    let parent = p.parent().unwrap();
    assert_eq!(parent.as_str(), "/etc");
    let root = parent.parent().unwrap();
    assert_eq!(root.as_str(), "/");
    assert!(root.parent().is_none());
    assert_eq!(FsPath::new("a").parent().unwrap().as_str(), "");
    assert!(FsPath::new("").parent().is_none());
    assert_eq!(FsPath::new("/user/a").join("untitled").as_str(), "/user/a/untitled");
    assert_eq!(FsPath::new("/user/a/").join("untitled").as_str(), "/user/a/untitled");
    assert_eq!(FsPath::new("").join("x").as_str(), "x");
}

#[test]
fn changed_paths_are_listed_in_path_order() {
    let paths = vec![
        FsPath::new("/p/b.R"),
        FsPath::new("/p/a.R"),
        FsPath::new("/p/a/z.R"),
        FsPath::new("/p/a.R"),
    ];
    let sorted: Vec<String> =
        sorted_changed_paths(paths).iter().map(|p| String::from(p.as_str())).collect();
    assert_eq!(sorted, vec!["/p/a/z.R", "/p/a.R", "/p/a.R", "/p/b.R"]);
    assert_eq!(
        path_ordering(&FsPath::new("/p/a"), &FsPath::new("/p/b")),
        std::cmp::Ordering::Less
    );
}

// The components agree with those `std::path::Path` gives on Unix, and so do
// `parent`, `starts_with` and the order.
#[test]
fn path_components_agree_with_std() {
    let samples = [
        "", "/", "//", "a", "/a", "a/", "a//b", "./a", "././a", "a/./b", "a/.", ".", "..", "../a",
        "a/..", "/a/../b/", "///a//.//b/", ".a", "a.", "...", "/user/a.R", "x/./", "./",
        "/x/a//b/c.R", "a/./b/c", "a/b/.", "./.", ".//a", "/./a", "a/b//", "..//a/./",
    ];
    for text in samples {
        let ours = names(&FsPath::new(text));
        let theirs: Vec<String> = std::path::Path::new(text)
            .components()
            .map(|c| c.as_os_str().to_string_lossy().into_owned())
            .collect();
        assert_eq!(ours, theirs, "{text:?}");

        let our_parent = FsPath::new(text).parent().map(|p| names(&p));
        let std_parent = std::path::Path::new(text).parent().map(|p| {
            p.components()
                .map(|c| c.as_os_str().to_string_lossy().into_owned())
                .collect::<Vec<String>>()
        });
        assert_eq!(our_parent, std_parent, "parent of {text:?}");
        let our_parent_text = FsPath::new(text).parent().map(|p| String::from(p.as_str()));
        let std_parent_text = std::path::Path::new(text)
            .parent()
            .map(|p| p.to_string_lossy().into_owned());
        assert_eq!(our_parent_text, std_parent_text, "parent text of {text:?}");

        for other in samples {
            let a = FsPath::new(text);
            let b = FsPath::new(other);
            assert_eq!(
                a.starts_with(&b),
                std::path::Path::new(text).starts_with(other),
                "{text:?} starts with {other:?}"
            );
            let ours = path_ordering(&a, &b);
            let theirs = std::path::Path::new(text).cmp(std::path::Path::new(other));
            assert_eq!(ours, theirs, "{text:?} against {other:?}");
        }
    }
}
