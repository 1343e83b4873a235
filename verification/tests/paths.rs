use fungus::path::{
    abs, abs_from, base, clean, components, dir, empty, expand, first, has, has_prefix, has_suffix, join, last,
    path_eq, relative_from, to_string, trim_ext, trim_first, trim_last, trim_prefix, trim_protocol, trim_suffix,
    Component,
};

use fungus::errors::PathError;

const CWD: &str = "/home/user/project";
const HOME: &str = "/home/user";

// Paths compare as `Path` does: by their components.
fn same(a: &str, b: &str) -> bool {
    path_eq(a, b)
}

#[test]
fn test_abs_from() {
    let home = abs("~", CWD, HOME).unwrap();

    // share the same directory
    assert!(same(&abs_from("foo2", &abs(&join(&home, "foo1"), CWD, HOME).unwrap(), CWD, HOME).unwrap(), &join(&home, "foo2")));
    assert!(same(&abs_from("./foo2", &abs(&join(&home, "foo1"), CWD, HOME).unwrap(), CWD, HOME).unwrap(), &join(&home, "foo2")));

    // share parent directory
    assert!(same(&abs_from("../foo2", &abs(&join(&home, "bar1/foo1"), CWD, HOME).unwrap(), CWD, HOME).unwrap(), &join(&home, "foo2")));
    assert!(same(
        &abs_from("bar2/foo2", &abs(&join(&home, "bar1/foo1"), CWD, HOME).unwrap(), CWD, HOME).unwrap(),
        &join(&home, "bar1/bar2/foo2")
    ));
    assert!(same(
        &abs_from("../../foo2", &abs(&join(&home, "bar1/foo1"), CWD, HOME).unwrap(), CWD, HOME).unwrap(),
        &join(&trim_last(&home), "foo2")
    ));

    // share grandparent directory
    assert!(same(
        &abs_from("blah1/bar2/foo2", &abs(&join(&home, "bar1/foo1"), CWD, HOME).unwrap(), CWD, HOME).unwrap(),
        &join(&home, "bar1/blah1/bar2/foo2")
    ));
}

#[test]
fn path_test_pathext_clean() {
    let tests = vec![
        // Root
        ("/", "/"),
        // Remove trailing slashes
        ("/", "//"),
        ("/", "///"),
        (".", ".//"),
        // Remove duplicates and handle rooted parent ref
        ("/", "//.."),
        ("..", "..//"),
        ("/", "/..//"),
        ("foo/bar/blah", "foo//bar///blah"),
        ("/foo/bar/blah", "/foo//bar///blah"),
        // Unneeded current dirs and duplicates
        ("/", "/.//./"),
        (".", "././/./"),
        (".", "./"),
        ("/", "/./"),
        ("foo", "./foo"),
        ("foo/bar", "./foo/./bar"),
        ("/foo/bar", "/foo/./bar"),
        ("foo/bar", "foo/bar/."),
        // Handle parent references
        ("/", "/.."),
        ("/foo", "/../foo"),
        (".", "foo/.."),
        ("../foo", "../foo"),
        ("/bar", "/foo/../bar"),
        ("foo", "foo/bar/.."),
        ("bar", "foo/../bar"),
        ("/bar", "/foo/../bar"),
        (".", "foo/bar/../../"),
        ("..", "foo/bar/../../.."),
        ("/", "/foo/bar/../../.."),
        ("/", "/foo/bar/../../../.."),
        ("../..", "foo/bar/../../../.."),
        ("blah/bar", "foo/bar/../../blah/bar"),
        ("blah", "foo/bar/../../blah/bar/.."),
        ("../foo", "../foo"),
        ("../foo", "../foo/"),
        ("../foo/bar", "../foo/bar"),
        ("..", "../foo/.."),
        ("~/foo", "~/foo"),
    ];
    for test in tests {
        assert!(same(test.0, &clean(test.1)));
    }
}

#[test]
fn path_test_pathext_dirname() {
    assert!(same("/", &dir("/foo/").unwrap()));
    assert!(same("/foo", &dir("/foo/bar").unwrap()));
}

#[test]
fn path_test_pathext_empty() {
    // empty string
    assert_eq!(empty(""), true);

    // false
    assert_eq!(empty("/foo"), false);
}

#[test]
fn path_test_pathext_first() {
    assert_eq!(Component::RootDir, first("/").unwrap());
    assert_eq!(Component::CurDir, first(".").unwrap());
    assert_eq!(Component::ParentDir, first("..").unwrap());
    assert_eq!(Component::Normal("foo".to_string()), first("foo").unwrap());
    assert_eq!(Component::Normal("foo".to_string()), first("foo/bar").unwrap());
}

#[test]
fn path_test_pathext_has() {
    let path = "/foo/bar";
    assert!(has(path, "foo"));
    assert!(has(path, "/foo"));
    assert!(has(path, "/"));
    assert!(has(path, "/ba"));
    assert!(!has(path, "bob"));
}

#[test]
fn path_test_pathext_has_prefix() {
    let path = "/foo/bar";
    assert_eq!(has_prefix(path, "/foo"), true);
    assert_eq!(has_prefix(path, "foo"), false);
}

#[test]
fn path_test_pathext_has_suffix() {
    let path = "/foo/bar";
    assert_eq!(has_suffix(path, "/foo"), false);
    assert_eq!(has_suffix(path, "/bar"), true);
}

#[test]
fn path_test_pathext_last() {
    assert_eq!(Component::RootDir, last("/").unwrap());
    assert_eq!(Component::CurDir, last(".").unwrap());
    assert_eq!(Component::ParentDir, last("..").unwrap());
    assert_eq!(Component::Normal("foo".to_string()), last("foo").unwrap());
    assert_eq!(Component::Normal("bar".to_string()), last("/foo/bar").unwrap());
}

#[test]
fn path_test_pathext_name() {
    assert_eq!("bar", base("/foo/bar").unwrap());
}

#[test]
fn test_pathext_relative() {
    // share same directory
    assert!(same(&relative_from("bar1", "bar2", CWD, HOME).unwrap(), "bar1"));
    assert!(same(&relative_from("foo/bar1", "foo/bar2", CWD, HOME).unwrap(), "bar1"));
    assert!(same(&relative_from("~/foo/bar1", "~/foo/bar2", CWD, HOME).unwrap(), "bar1"));
    assert!(same(&relative_from("../foo/bar1", "../foo/bar2", CWD, HOME).unwrap(), "bar1"));

    // share parent directory
    assert!(same(&relative_from("foo1/bar1", "foo2/bar2", CWD, HOME).unwrap(), "../foo1/bar1"));

    // share grandparent directory
    assert!(same(&relative_from("blah1/foo1/bar1", "blah2/foo2/bar2", CWD, HOME).unwrap(), "../../blah1/foo1/bar1"));
}

#[test]
fn path_test_pathext_to_string() {
    assert_eq!("/foo".to_string(), to_string("/foo").unwrap());
}

#[test]
fn path_test_pathext_trim_ext() {
    assert!(same("", &trim_ext("")));
    assert!(same("foo", &trim_ext("foo.exe")));
    assert!(same("/foo/bar", &trim_ext("/foo/bar.exe")));
}

#[test]
fn path_test_pathext_trim_last() {
    assert!(same("", &trim_last("/")));
    assert!(same("/", &trim_last("/foo")));
}

#[test]
fn path_test_pathext_trim_first() {
    assert!(same("", &trim_first("/")));
    assert!(same("foo", &trim_first("/foo")));
}

#[test]
fn path_test_pathext_trim_prefix() {
    // drop root
    assert!(same(&trim_prefix("/", "/"), ""));

    // drop start
    assert!(same(&trim_prefix("/foo/bar", "/foo"), "/bar"));

    // no change
    assert!(same(&trim_prefix("/", ""), "/"));
    assert!(same(&trim_prefix("/foo", "blah"), "/foo"));
}

#[test]
fn path_test_pathext_trim_protocol() {
    // no change
    assert!(same("/foo", &trim_protocol("/foo")));

    // file://
    assert!(same("/foo", &trim_protocol("file:///foo")));

    // ftp://
    assert!(same("foo", &trim_protocol("ftp://foo")));

    // http://
    assert!(same("foo", &trim_protocol("http://foo")));

    // https://
    assert!(same("foo", &trim_protocol("https://foo")));

    // Check case is being considered
    assert!(same("Foo", &trim_protocol("HTTPS://Foo")));
    assert!(same("Foo", &trim_protocol("Https://Foo")));
    assert!(same("FoO", &trim_protocol("HttpS://FoO")));

    // Check non protocol matches are ignored
    assert!(same("foo", &trim_protocol("foo")));
    assert!(same("foo/bar", &trim_protocol("foo/bar")));
    assert!(same("foo//bar", &trim_protocol("foo//bar")));
    assert!(same("ntp:://foo", &trim_protocol("ntp:://foo")));
}

#[test]
fn path_test_pathext_trim_suffix() {
    // drop root
    assert!(same("", &trim_suffix("/", "/")));

    // drop end
    assert!(same("/foo", &trim_suffix("/foo/", "/")));

    // no change
    assert!(same("/foo", &trim_suffix("/foo", "/")));
}

// Absolute forms of paths, given this current directory and home.
#[test]
fn path_test_abs() {
    let cwd = CWD;
    let home = HOME;
    let prev = dir(cwd).unwrap();

    // expand previous directory and drop trailing slashes
    assert!(same(&abs("..//", cwd, home).unwrap(), &prev));
    assert!(same(&abs("../", cwd, home).unwrap(), &prev));
    assert!(same(&abs("..", cwd, home).unwrap(), &prev));

    // expand current directory and drop trailing slashes
    assert!(same(&abs(".//", cwd, home).unwrap(), cwd));
    assert!(same(&abs("./", cwd, home).unwrap(), cwd));
    assert!(same(&abs(".", cwd, home).unwrap(), cwd));

    // home dir
    assert!(same(&abs("~", cwd, home).unwrap(), home));
    assert!(same(&abs("~/", cwd, home).unwrap(), home));

    // expand relative directory
    assert!(same(&abs("foo", cwd, home).unwrap(), &join(cwd, "foo")));

    // expand home path
    assert!(same(&abs("~/foo", cwd, home).unwrap(), &join(home, "foo")));

    // More complicated
    assert!(same(&abs("~/foo/bar/../.", cwd, home).unwrap(), &join(home, "foo")));
    assert!(same(&abs("~/foo/bar/../", cwd, home).unwrap(), &join(home, "foo")));
    assert!(same(&abs("~/foo/bar/../blah", cwd, home).unwrap(), &join(home, "foo/blah")));
}

#[test]
fn path_test_pathext_expand() {
    // happy path
    assert!(same(&expand("~/", HOME).unwrap(), HOME));
    assert!(same(&expand("~", HOME).unwrap(), HOME));

    // More than one ~
    assert!(expand("~/foo~", HOME).is_err());

    // invalid path
    assert!(expand("~foo", HOME).is_err());

    // empty path - nothing to do but no error
    assert!(same("", &expand("", HOME).unwrap()));
}

#[test]
fn test_components_exact() {
    assert_eq!(
        components("./a//b/../c/."),
        vec![
            Component::CurDir,
            Component::Normal("a".to_string()),
            Component::Normal("b".to_string()),
            Component::ParentDir,
            Component::Normal("c".to_string())
        ]
    );
    assert_eq!(components("//x/./y/"), vec![Component::RootDir, Component::Normal("x".to_string()), Component::Normal("y".to_string())]);
    assert_eq!(components(""), vec![]);
    assert_eq!(components("/./."), vec![Component::RootDir]);
}

#[test]
fn test_join_exact() {
    assert_eq!(join("/home", "foo"), "/home/foo");
    assert_eq!(join("/home/", "foo"), "/home/foo");
    assert_eq!(join("/home", "/etc"), "/etc");
    assert_eq!(join("", "foo"), "foo");
    assert_eq!(join("/home", ""), "/home/");
}

#[test]
fn test_errors_of_path_functions() {
    assert_eq!(abs("", CWD, HOME), Err(PathError::Empty));
    assert_eq!(expand("~/a~", HOME), Err(PathError::MultipleHomeSymbols("~/a~".to_string())));
    assert_eq!(expand("a~", HOME), Err(PathError::InvalidExpansion("a~".to_string())));
    assert_eq!(dir("/"), Err(PathError::ParentNotFound("/".to_string())));
    assert_eq!(dir(""), Err(PathError::ParentNotFound("".to_string())));
    assert_eq!(base("/foo/.."), Err(PathError::FileNameNotFound("/foo/..".to_string())));
    assert_eq!(abs("..", "/", HOME), Err(PathError::ParentNotFound("/".to_string())));
    assert_eq!(abs_from("..", "/a/b", CWD, HOME), Err(PathError::Empty));
    assert_eq!(first("").unwrap_err(), fungus::errors::IterError::ItemNotFound);
}

#[test]
fn test_clean_is_idempotent_on_examples() {
    for p in ["a/./b/../../c", "/x//y/..", "../../a/..", "./", "~/a/b/../c/"] {
        let once = clean(p);
        assert_eq!(clean(&once), once);
    }
}

#[test]
fn test_abs_keeps_unresolved_parents() {
    // Only a leading `..` is resolved against the current directory.
    assert_eq!(abs("../..", CWD, HOME).unwrap(), "/home/user/..");
    assert_eq!(abs("file:///etc/./hosts", CWD, HOME).unwrap(), "/etc/hosts");
}

#[test]
fn relative_then_absolute_gives_the_path_back() {
    let cases = [
        ("/home/user/foo/bar.txt", "/home/user/baz/qux.txt"),
        ("/a/b/c/d", "/a/x"),
        ("/a/x", "/a/b/c/d"),
        ("/etc/hosts", "/usr/share/doc/readme"),
    ];
    for (p, base) in cases {
        let r = relative_from(p, base, CWD, HOME).unwrap();
        assert_eq!(abs_from(&r, base, CWD, HOME).unwrap(), p);
    }
    // Paths that are clean only as components come back in their clean form.
    for (p, base, clean) in [("/a//b/c/", "/a/x", "/a/b/c"), ("/a/./b/../c", "/a/x/y", "/a/c")] {
        let r = relative_from(p, base, CWD, HOME).unwrap();
        assert_eq!(abs_from(&r, base, CWD, HOME).unwrap(), clean);
    }
    assert_eq!(relative_from("/a/b/c/d", "/a/x", CWD, HOME).unwrap(), "b/c/d");
    assert_eq!(relative_from("/a/x", "/a/b/c/d", CWD, HOME).unwrap(), "../../x");
    // A base that is an ancestor of the path is taken as a file name, so the round trip
    // does not hold there.
    let r = relative_from("/a/b/c", "/a/b", CWD, HOME).unwrap();
    assert_eq!(abs_from(&r, "/a/b", CWD, HOME).unwrap(), "/a/c");
}

#[test]
fn cleaning_never_adds_components() {
    for p in ["/a/./b/../c", "a//b/", "/../x", "/a/b/c", "./a/./"] {
        let c = clean(p);
        assert!(components(&c).len() <= components(p).len(), "{}", p);
    }
    assert_eq!(components(&clean("/a/./b/../c")).len(), 3);
}
