use fungus::errors::{ErrorKind, FileError, FuError, IterError};
use fungus::exec::parse_paths;
use fungus::file::{digest, extract_string, extract_string_p, extract_strings, extract_strings_p};
use fungus::gzip::is_gzipped;
use fungus::os::{info, Arch, Stdio};
use fungus::pattern::Pattern;
use fungus::path::{abs, abs_from, base, ext, join, mash, path_eq, relative_from, trim_last};
use std::io::Write;

const CWD: &str = "/home/user/project";
const HOME: &str = "/home/user";

const MOVIE: &str = "Not my favorite movie: 'Citizen Kane' (1941).";
const MOVIE_RX: &str = r"'([^']+)'\s+\((\d{4})\)";

#[test]
fn test_digest() {
    // A file and its copy hold the same bytes, so their digests agree.
    let file1 = b"this is a test".to_vec();
    let file2 = file1.clone();
    assert_eq!(digest(&file1), digest(&file2));
    assert_ne!(digest(&file1), digest(b"this is a tesT"));
}

#[test]
fn test_extract_string() {
    let rx = Pattern::new(MOVIE_RX).unwrap();
    assert_eq!(extract_string(MOVIE, &rx).unwrap(), "Citizen Kane");
    assert_eq!(extract_string_p(MOVIE, MOVIE_RX).unwrap(), "Citizen Kane");
}

#[test]
fn test_extract_strings() {
    let rx = Pattern::new(MOVIE_RX).unwrap();
    assert_eq!(extract_strings(MOVIE, &rx).unwrap(), vec!["Citizen Kane", "1941"]);
    assert_eq!(extract_strings_p(MOVIE, MOVIE_RX).unwrap(), vec!["Citizen Kane", "1941"]);
    let rx = Pattern::new(r"(foo)").unwrap();
    assert!(extract_strings(MOVIE, &rx).is_err());
}

#[test]
fn test_error() {
    let err = FuError::File(FileError::FailedToExtractString);
    assert_eq!("failed to extract string from file", err.to_string());
    assert!(matches!(err, FuError::File(_)));
}

fn iter_error_result() -> Result<(), ErrorKind> {
    Err(ErrorKind::Iter(IterError::item_not_found()))
}

#[test]
fn test_matching_error() {
    if let ErrorKind::Iter(err) = iter_error_result().unwrap_err() {
        assert_eq!(IterError::ItemNotFound, err);
    } else {
        panic!();
    }
}

#[test]
fn test_is_gzipped() {
    // The first bytes of a plain tarball are those of its first file name; those of a
    // gzipped one are the gzip signature.
    assert_eq!(is_gzipped(b"al"), false);
    assert_eq!(is_gzipped(&[0x1f, 0x8b]), true);
}

#[test]
fn test_info() {
    let version = "Linux version 5.4.6-arch3-1 (linux@archlinux) (gcc version 9.2.0 (GCC)) #1 SMP PREEMPT";
    assert!(info(version, Arch::X86_64).is_ok());
}

#[test]
fn os_test_stdio() {
    let mut stdio = Stdio::new(Vec::new(), Vec::new());
    stdio.out.write_all(b"Hello out\n").unwrap();
    stdio.err.write_all(b"Hello err\n").unwrap();
    assert_eq!(stdio.out, b"Hello out\n");
    assert_eq!(stdio.err, b"Hello err\n");
}

#[test]
fn test_parse_paths() {
    assert_eq!(parse_paths("/foo1:/foo2/bar", Some(CWD)).unwrap(), vec!["/foo1", "/foo2/bar"]);
    assert_eq!(parse_paths(":/foo1:/foo2/bar", Some(CWD)).unwrap(), vec![CWD, "/foo1", "/foo2/bar"]);
}

#[test]
fn test_pathext_abs_from() {
    let home = abs("~", CWD, HOME).unwrap();
    let from = |p: &str, b: &str| abs_from(p, &abs(b, CWD, HOME).unwrap(), CWD, HOME).unwrap();

    // invalid
    assert!(abs_from("foo", "", CWD, HOME).is_err());

    // already absolute
    assert_eq!(abs_from("/foo", "foo1", CWD, HOME).unwrap(), "/foo");

    // share the same directory
    assert!(path_eq(&from("foo2", &mash(&home, "foo1")), &mash(&home, "foo2")));
    assert!(path_eq(&from("./foo2", &mash(&home, "foo1")), &mash(&home, "foo2")));

    // share parent directory
    assert!(path_eq(&from("../foo2", &mash(&home, "bar1/foo1")), &mash(&home, "foo2")));
    assert!(path_eq(&from("bar2/foo2", &mash(&home, "bar1/foo1")), &mash(&home, "bar1/bar2/foo2")));
    assert!(path_eq(&from("../../foo2", &mash(&home, "bar1/foo1")), &mash(&trim_last(&home), "foo2")));

    // share grandparent directory
    assert!(path_eq(&from("blah1/bar2/foo2", &mash(&home, "bar1/foo1")), &mash(&home, "bar1/blah1/bar2/foo2")));
}

#[test]
fn test_pathext_base() {
    assert_eq!("bar", base("/foo/bar").unwrap());
}

#[test]
fn test_pathext_ext() {
    assert!(ext("").is_err());
    assert!(ext("foo").is_err());
    assert_eq!(ext("foo.exe").unwrap(), "exe");
    assert_eq!(ext("/foo/bar.exe").unwrap(), "exe");
}

#[test]
fn test_pathext_mash() {
    // strips off root on path
    assert_eq!(mash("/foo", "/bar"), "/foo/bar");

    // strips off trailing slashes
    assert_eq!(mash("/foo", "bar/"), "/foo/bar");
}

#[test]
fn test_pathext_relative_from() {
    // same directory
    assert!(path_eq(&relative_from("bar1", "bar1", CWD, HOME).unwrap(), &mash(CWD, "bar1")));

    // share same directory
    assert!(path_eq(&relative_from("bar1", "bar2", CWD, HOME).unwrap(), "bar1"));
    assert!(path_eq(&relative_from("foo/bar1", "foo/bar2", CWD, HOME).unwrap(), "bar1"));
    assert!(path_eq(&relative_from("~/foo/bar1", "~/foo/bar2", CWD, HOME).unwrap(), "bar1"));
    assert!(path_eq(&relative_from("../foo/bar1", "../foo/bar2", CWD, HOME).unwrap(), "bar1"));

    // share parent directory
    assert!(path_eq(&relative_from("foo1/bar1", "foo2/bar2", CWD, HOME).unwrap(), "../foo1/bar1"));

    // share grandparent directory
    assert!(path_eq(&relative_from("blah1/foo1/bar1", "blah2/foo2/bar2", CWD, HOME).unwrap(), "../../blah1/foo1/bar1"));
    assert!(path_eq(&join(CWD, "x"), "/home/user/project/x"));
}

#[test]
fn names_without_extensions() {
    use_name_checks();
}

fn use_name_checks() {
    assert_eq!(fungus::path::name("/foo/bar.exe").unwrap(), "bar");
    assert_eq!(fungus::path::name("bar").unwrap(), "bar");
    assert_eq!(fungus::path::name(".bashrc").unwrap(), ".bashrc");
    assert!(fungus::path::name("/").is_err());
    assert_eq!(fungus::path::concat("foo.exe", ".rs"), "foo.exe.rs");
    assert_eq!(fungus::path::concat("", ".rs"), ".rs");
    assert_eq!(fungus::path::concat("/foo/bar", ".rs"), "/foo/bar.rs");
}
