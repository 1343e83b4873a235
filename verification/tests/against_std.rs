use fungus::path::{base, components, dir, join, path_eq, Component};
use fungus::order::path_before_exec;
use std::path::{Component as StdComponent, Path};

const SAMPLES: [&str; 24] = [
    "", "/", "//", "///", ".", "./", "..", "../", "a", "a/", "a//b", "/a/./b/", "./a/b", "a/./.", "/..", "../..",
    "a/../b", ".a", "a.b", "/x/y.z/", "ƒoo/bar", "a/b/.", "./.", "x/./../y",
];

fn std_components(p: &str) -> Vec<Component> {
    Path::new(p)
        .components()
        .map(|c| match c {
            StdComponent::RootDir => Component::RootDir,
            StdComponent::CurDir => Component::CurDir,
            StdComponent::ParentDir => Component::ParentDir,
            StdComponent::Normal(s) => Component::Normal(s.to_str().unwrap().to_string()),
            StdComponent::Prefix(_) => panic!("no prefixes on unix"),
        })
        .collect()
}

#[test]
fn components_match_std() {
    for p in SAMPLES {
        assert_eq!(components(p), std_components(p), "components of {:?}", p);
    }
}

#[test]
fn equality_and_order_match_std() {
    for a in SAMPLES {
        for b in SAMPLES {
            assert_eq!(path_eq(a, b), Path::new(a) == Path::new(b), "{:?} == {:?}", a, b);
            assert_eq!(path_before_exec(a, b), Path::new(a) < Path::new(b), "{:?} < {:?}", a, b);
        }
    }
}

#[test]
fn parent_name_and_join_match_std() {
    for p in SAMPLES {
        match Path::new(p).parent() {
            Some(d) => assert!(path_eq(&dir(p).unwrap(), d.to_str().unwrap()), "parent of {:?}", p),
            None => assert!(dir(p).is_err(), "parent of {:?}", p),
        }
        assert_eq!(base(p).ok(), Path::new(p).file_name().map(|n| n.to_str().unwrap().to_string()), "name of {:?}", p);
        for q in SAMPLES {
            assert_eq!(join(p, q), Path::new(p).join(q).to_str().unwrap(), "{:?} joined with {:?}", p, q);
        }
    }
}
