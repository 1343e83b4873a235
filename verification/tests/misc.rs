use fungus::arch::{self as abs, kernel_ver, package_branch, repo_url};
use fungus::errors::{ArchError, FileError, FuError, GitError, OsError, PathError};
use fungus::exec::{dir_of, lookup_candidates, name};
use fungus::file::{
    chmod_p, copyfile_p, digest, extract_string, extract_string_p, extract_strings, extract_strings_p, join_lines,
    revoking_mode, Chmod,
};
use fungus::git::{git_dir, last_msg, refspec, Repo};
use fungus::gzip::is_gzipped;
use fungus::os::{self as sys, info, Arch, Platform, Stdio};
use fungus::pattern::Pattern;
use fungus::path::{abs as path_abs, to_string};
use fungus::string::StringExt;

const CWD: &str = "/home/user/project";
const HOME: &str = "/home/user";

#[test]
fn test_str_size() {
    assert_eq!("foo".size(), 3);
    assert_eq!("ƒoo".len(), 4); // fancy f!
    assert_eq!("ƒoo".size(), 3); // fancy f!
}

#[test]
fn test_string_size() {
    assert_eq!("foo".to_string().size(), 3);
    assert_eq!("ƒoo".to_string().len(), 4); // fancy f!
    assert_eq!("ƒoo".to_string().size(), 3); // fancy f!
}

#[test]
fn test_str_trim_suffix() {
    assert_eq!("foo".trim_suffix("oo"), "f".to_string());
    assert_eq!("ƒoo".trim_suffix("o"), "ƒo".to_string()); // fancy f!
}

#[test]
fn test_string_trim_suffix() {
    assert_eq!("foo".to_string().trim_suffix("oo"), "f".to_string());
    assert_eq!("ƒoo".to_string().trim_suffix("o"), "ƒo".to_string()); // fancy f!
}

#[test]
fn trim_suffix_without_the_suffix() {
    assert_eq!("foo".trim_suffix("x"), "foo".to_string());
    assert_eq!("foo".trim_suffix("foo"), "".to_string());
    assert_eq!("oo".trim_suffix("foo"), "oo".to_string());
}

#[test]
fn test_path_to_string() {
    assert_eq!(to_string("/foo").unwrap(), "/foo".to_string());
    assert_eq!(to_string(&"/foo".to_string()).unwrap(), "/foo".to_string());
}

#[test]
fn test_revoking() {
    // test other octet
    assert_eq!(revoking_mode(0o0777, 0o0777), false);
    assert_eq!(revoking_mode(0o0776, 0o0775), false);
    assert_eq!(revoking_mode(0o0770, 0o0771), false);
    assert_eq!(revoking_mode(0o0776, 0o0772), true);
    assert_eq!(revoking_mode(0o0775, 0o0776), true);
    assert_eq!(revoking_mode(0o0775, 0o0774), true);

    // Test group octet
    assert_eq!(revoking_mode(0o0777, 0o0777), false);
    assert_eq!(revoking_mode(0o0767, 0o0757), false);
    assert_eq!(revoking_mode(0o0707, 0o0717), false);
    assert_eq!(revoking_mode(0o0767, 0o0727), true);
    assert_eq!(revoking_mode(0o0757, 0o0767), true);
    assert_eq!(revoking_mode(0o0757, 0o0747), true);

    // Test owner octet
    assert_eq!(revoking_mode(0o0777, 0o0777), false);
    assert_eq!(revoking_mode(0o0677, 0o0577), false);
    assert_eq!(revoking_mode(0o0077, 0o0177), false);
    assert_eq!(revoking_mode(0o0677, 0o0277), true);
    assert_eq!(revoking_mode(0o0577, 0o0677), true);
    assert_eq!(revoking_mode(0o0577, 0o0477), true);
    assert_eq!(revoking_mode(0o0577, 0o0177), true);
}

fn repo_foo() -> Repo {
    Repo::new("foo", CWD, HOME).unwrap()
}

#[test]
fn test_repo_branch() {
    // chained
    assert_eq!(repo_foo().branch("foobar").branch_val(), Some("foobar"));

    // unchained
    let mut repo = repo_foo();
    assert_eq!(repo.branch_val(), None);
    repo = repo.branch("foobar");
    assert_eq!(repo.branch_val(), Some("foobar"));
}

#[test]
fn test_repo_branch_only() {
    // chained
    assert_eq!(repo_foo().branch_only(true).branch_only_val(), true);

    // unchained
    let mut repo = repo_foo();
    assert_eq!(repo.branch_only_val(), false);
    repo = repo.branch_only(true);
    assert_eq!(repo.branch_only_val(), true);
}

#[test]
fn test_repo_path() {
    assert_eq!(repo_foo().path_val(), path_abs("foo", CWD, HOME).unwrap().as_str());
    assert_eq!(repo_foo().path_val(), "/home/user/project/foo");
}

#[test]
fn test_repo_url() {
    // chained
    assert_eq!(repo_foo().url("foobar").url_val(), Some("foobar"));

    // unchained
    let mut repo = repo_foo();
    assert_eq!(repo.url_val(), None);
    repo = repo.url("foobar");
    assert_eq!(repo.url_val(), Some("foobar"));
}

#[test]
fn repo_clone_settings() {
    assert_eq!(repo_foo().clone_url(), Err(GitError::UrlNotSet));
    assert_eq!(repo_foo().url("https://x/y.git").clone_url(), Ok("https://x/y.git".to_string()));
    assert_eq!(repo_foo().clone_branch(), None);
    assert_eq!(repo_foo().branch_only(true).clone_branch(), Some("master".to_string()));
    assert_eq!(repo_foo().branch("dev").branch_only(true).clone_branch(), Some("dev".to_string()));
    assert_eq!(repo_foo().branch("dev").clone_branch(), None);
    assert_eq!(Repo::new("", CWD, HOME).unwrap_err(), PathError::Empty);
}

#[test]
fn git_refspec_and_messages() {
    assert_eq!(refspec("packages/linux"), "+refs/heads/packages/linux:refs/remotes/origin/packages/linux");
    assert_eq!(last_msg(Some("fix the thing\n\n")), Ok("fix the thing".to_string()));
    assert_eq!(last_msg(Some("  a b \t")), Ok("  a b".to_string()));
    assert_eq!(last_msg(None), Err(GitError::NoMessageWasFound));
    assert_eq!(git_dir("/repo"), "/repo/.git");
    assert_eq!(git_dir("/repo/"), "/repo/.git");
}

#[test]
fn os_test_linux() {
    assert_eq!(sys::linux("linux"), true);
    assert_eq!(sys::macos("linux"), false);
    assert_eq!(sys::windows("linux"), false);
}

#[test]
fn platform_names() {
    assert_eq!(sys::platform("linux"), Some(Platform::Linux));
    assert_eq!(sys::platform("macos"), Some(Platform::MacOS));
    assert_eq!(sys::platform("windows"), Some(Platform::Windows));
    assert_eq!(sys::platform("freebsd"), None);
    assert_eq!(sys::windows("windows"), true);
    assert_eq!(sys::macos("macos"), true);
}

#[test]
fn test_arch() {
    sys::x86("x86_64");
    sys::x86_64("x86_64");
    assert_eq!(sys::x86("x86"), true);
    assert_eq!(sys::x86("x86_64"), false);
    assert_eq!(sys::x86_64("x86_64"), true);
    assert_eq!(sys::arch("aarch64"), None);
}

#[test]
fn info_from_proc_version() {
    let text = "Linux version 5.3.13-arch1-1 (linux@archlinux) (gcc version 9.2.0 (GCC)) #1 SMP PREEMPT";
    let i = info(text, Arch::X86_64).unwrap();
    assert_eq!(i.kernel, "5.3.13");
    assert_eq!(i.release, "5.3.13-arch1-1");
    assert_eq!(i.arch, Arch::X86_64);
    assert_eq!(info("Linux version", Arch::X86), Err(OsError::KernelReleaseNotFound));
    assert_eq!(info("Linux version 5.3.13 x", Arch::X86), Err(OsError::KernelVersionNotFound));
}

#[test]
fn stdio_holds_its_streams() {
    let s = Stdio::new(Vec::<u8>::new(), vec![1u8]);
    assert!(s.out.is_empty());
    assert_eq!(s.err, vec![1u8]);
}

#[test]
fn test_repo() {
    // Whether the package's branch exists in each repository is asked of the network first.
    assert!(abs::repo("foobar", false, false).is_err());
    assert_eq!(abs::repo("pkgfile", true, false).unwrap(), abs::Repo::Packages);
    assert_eq!(abs::repo("acme", false, true).unwrap(), abs::Repo::Community);
    assert_eq!(abs::repo("linux", true, false).unwrap(), abs::Repo::Packages);
    assert_eq!(abs::repo("foobar", false, false).unwrap_err(), ArchError::PackageNotFound("foobar".to_string()));
}

#[test]
fn arch_repo_names_and_urls() {
    assert_eq!(abs::Repo::from("packages"), Ok(abs::Repo::Packages));
    assert_eq!(abs::Repo::from("community"), Ok(abs::Repo::Community));
    assert_eq!(abs::Repo::from("core"), Err(ArchError::RepoNotFound("core".to_string())));
    assert_eq!(repo_url("packages"), "https://git.archlinux.org/svntogit/packages.git");
    assert_eq!(package_branch("linux"), "packages/linux");
}

#[test]
fn test_kernel_ver() {
    let pkgbuild = "pkgbase=linux\npkgver=5.4.6.arch3\npkgrel=1\n";
    assert_eq!(kernel_ver(pkgbuild).unwrap(), "5.4.6");
    assert!(kernel_ver("pkgbase=linux\n").is_err());
}

#[test]
fn extracting_strings() {
    let rx = Pattern::new(r"'([^']+)'\s+\((\d{4})\)").unwrap();
    let data = "Not my favorite movie: 'Citizen Kane' (1941).";
    assert_eq!(extract_string(data, &rx), Ok("Citizen Kane".to_string()));
    assert_eq!(extract_strings(data, &rx), Ok(vec!["Citizen Kane".to_string(), "1941".to_string()]));
    assert_eq!(extract_string("nothing here", &rx), Err(FileError::FailedToExtractString));
    assert_eq!(extract_strings("nothing here", &rx), Err(FileError::FailedToExtractString));
    assert_eq!(extract_string_p(data, r"'([^']+)'").unwrap(), "Citizen Kane");
    assert!(matches!(extract_string_p(data, r"("), Err(FuError::Regex(_))));
    assert!(matches!(extract_strings_p(data, r"(\d+)").unwrap().as_slice(), [s] if s == "1941"));
    let no_group = Pattern::new(r"Kane").unwrap();
    assert_eq!(extract_string(data, &no_group), Err(FileError::FailedToExtractString));
}

#[test]
fn extracting_gives_the_first_group_not_the_whole_match() {
    let rx = Pattern::new(r"movie: '(\w+) (\w+)'").unwrap();
    let data = "Not my favorite movie: 'Citizen Kane' (1941).";
    assert_eq!(rx.as_str(), r"movie: '(\w+) (\w+)'");
    assert_eq!(extract_string(data, &rx), Ok("Citizen".to_string()));
    assert_eq!(extract_strings(data, &rx), Ok(vec!["Citizen".to_string(), "Kane".to_string()]));
    let optional = Pattern::new(r"(x)?(Kane)").unwrap();
    assert_eq!(extract_string(data, &optional), Err(FileError::FailedToExtractString));
    assert_eq!(extract_strings(data, &optional), Ok(vec!["Kane".to_string()]));
    assert!(Pattern::new("(").is_err());
    assert!(matches!(extract_strings_p(data, "("), Err(FuError::Regex(_))));
}

#[test]
fn blake2b_digest_of_data() {
    let d = digest(b"");
    assert_eq!(d.len(), 64);
    assert_eq!(
        d[..8].to_vec(),
        vec![0x78, 0x6a, 0x02, 0xf7, 0x42, 0x01, 0x59, 0x03]
    );
    assert_ne!(digest(b"a"), digest(b"b"));
}

#[test]
fn joining_lines() {
    assert_eq!(join_lines(&["a".to_string(), "b".to_string(), "c".to_string()]), "a\nb\nc");
    assert_eq!(join_lines(&[]), "");
    assert_eq!(join_lines(&["x".to_string()]), "x");
}

#[test]
fn gzip_signature() {
    assert!(is_gzipped(&[0x1f, 0x8b]));
    assert!(is_gzipped(&[0x8b, 0x1f]));
    assert!(!is_gzipped(&[0x50, 0x4b]));
}

#[test]
fn chmod_options() {
    let mut c = chmod_p("foo", CWD, HOME, Some(0o755)).unwrap();
    assert_eq!(c.path, "/home/user/project/foo");
    assert_eq!(c.mode, 0o755);
    assert!(c.recursive && !c.dirs && !c.files);
    assert_eq!(chmod_p("foo", CWD, HOME, None).unwrap().mode, 0o644);
    assert_eq!(chmod_p("", CWD, HOME, None).unwrap_err(), PathError::Empty);

    c.dirs();
    assert!(c.dirs && !c.files);
    c.files();
    assert!(!c.dirs && c.files);
    c.all();
    assert!(!c.dirs && !c.files);
    c.mode(0o600).add_x();
    assert_eq!(c.mode, 0o711);
    c.sub_x().add_w();
    assert_eq!(c.mode, 0o622);
    c.add_r();
    assert_eq!(c.mode, 0o666);
    c.sub_w();
    assert_eq!(c.mode, 0o444);
    c.sub_r();
    assert_eq!(c.mode, 0o000);
    c.mode(0o777).readonly();
    assert_eq!(c.mode, 0o444);
    c.mode(0o777).secure();
    assert_eq!(c.mode, 0o700);
    c.path("bar").recurse(false);
    assert_eq!(c.path, "bar");
    assert!(!c.recursive);
}

#[test]
fn chmod_decisions() {
    let mut c = Chmod { mode: 0o600, path: "/x".to_string(), dirs: false, files: false, recursive: true };
    // A directory whose new mode revokes entry is set after its contents.
    assert!(c.targets(true));
    assert!(c.needs_stat());
    assert!(!c.sets_before(true, 0o755));
    assert!(c.visits_contents(true));
    assert!(c.sets_after(true, 0o755));
    // A file is set before, and nothing is visited.
    assert!(c.sets_before(false, 0o755));
    assert!(!c.visits_contents(false));
    assert!(!c.sets_after(false, 0o755));
    // Only files: directories are not changed.
    c.files();
    assert!(!c.targets(true));
    assert!(!c.sets_before(true, 0o755) && !c.sets_after(true, 0o755));
    c.all().recurse(false);
    assert!(!c.needs_stat());
}

#[test]
fn copyfile_options() {
    let mut c = copyfile_p("a", "~/b", CWD, HOME).unwrap();
    assert_eq!(c.src, "/home/user/project/a");
    assert_eq!(c.dst, "/home/user/b");
    assert_eq!(c.mode, None);
    assert!(!c.follow_links);
    c.follow(true).mode(0o644);
    assert!(c.follow_links);
    assert_eq!(c.mode, Some(0o644));
    assert_eq!(copyfile_p("", "b", CWD, HOME).unwrap_err(), PathError::Empty);
    assert_eq!(copyfile_p("a", "", CWD, HOME).unwrap_err(), PathError::Empty);
}

#[test]
fn executable_dir_and_name() {
    assert_eq!(dir_of("/usr/bin/foo"), Ok("/usr/bin".to_string()));
    assert_eq!(name("/usr/bin/foo"), Ok("foo".to_string()));
    assert_eq!(dir_of("/"), Err(PathError::ParentNotFound("/".to_string())));
    assert_eq!(name("/"), Err(PathError::FileNameNotFound("/".to_string())));
}

#[test]
fn lookup_candidate_paths() {
    let dirs = vec!["/usr/bin".to_string(), "/bin/".to_string()];
    assert_eq!(
        lookup_candidates("ls", &dirs, CWD, HOME).unwrap(),
        vec!["/usr/bin/ls".to_string(), "/bin/ls".to_string()]
    );
    assert_eq!(lookup_candidates("./run", &dirs, CWD, HOME).unwrap(), vec!["/home/user/project/run".to_string()]);
    assert_eq!(lookup_candidates("~/bin/run", &dirs, CWD, HOME).unwrap(), vec!["/home/user/bin/run".to_string()]);
}
