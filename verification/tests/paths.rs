use cross_device_link::path::FilePath;
use std::path::Path;

#[test]
fn slashes_and_dots_that_do_not_count() {
    assert_eq!(FilePath::new("/a//b/"), FilePath::new("/a/b"));
    assert_eq!(FilePath::new("/a/./b"), FilePath::new("/a/b"));
    assert_eq!(FilePath::new("a/b/."), FilePath::new("a/b"));
    assert_eq!(FilePath::new("//"), FilePath::new("/"));
    assert_eq!(FilePath::new("/."), FilePath::new("/"));
}

#[test]
fn slashes_and_dots_that_count() {
    assert_ne!(FilePath::new("./a"), FilePath::new("a"));
    assert_ne!(FilePath::new("/a"), FilePath::new("a"));
    assert_ne!(FilePath::new("/a/.."), FilePath::new("/"));
    assert_ne!(FilePath::new("."), FilePath::new(""));
    assert_ne!(FilePath::new("/a/b"), FilePath::new("/a/c"));
    assert_ne!(FilePath::new("/a/b"), FilePath::new("/a/b/c"));
    assert_ne!(FilePath::new(".a"), FilePath::new("a"));
}

#[test]
fn equal_just_as_paths_of_the_system_are() {
    let samples = [
        "", ".", "..", "/", "//", "./", "/.", "/./", "./.", ".//a", "./a", "a", "a/", "a//", "a/.",
        "a/./", "/a", "//a", "/a/", "/./a", "/a/./b", "/a//b", "/a/b", "a/b", "a/./b", "./a/b",
        "../a", ".././a", "..//a", "a/..", "a/../", ".a", ".a/", "a.", "...", ".../", "/..", "/../",
        "\u{e4}/b", "\u{e4}//b", " ", " /", "/ ", "./..", "./../", "././a",
    ];
    for a in samples {
        for b in samples {
            assert_eq!(
                FilePath::new(a) == FilePath::new(b),
                Path::new(a) == Path::new(b),
                "{a:?} {b:?}"
            );
        }
    }
}

#[test]
fn a_clone_is_written_the_same() {
    let p = FilePath::new("/a//b/");
    assert_eq!(p.clone().text, "/a//b/");
}
