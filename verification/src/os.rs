//! Operating system and architecture information.
use vstd::prelude::*;
use vstd::string::*;
use crate::errors::OsError;
use crate::path::{same_ignoring_case, same_ignoring_case_exec};
use crate::text::{chars_of, find, slice_chars, split_by, split_chars, str_eq, string_of, contains_seq, occurs_at};

verus! {

/// The type of operating system.
#[derive(Clone, Copy, Debug, Eq, Hash, Ord, PartialEq, PartialOrd)]
pub enum Platform {
    Linux,
    MacOS,
    Windows,
}

/// The platform named by `os`, as `std::env::consts::OS` names it.
pub open spec fn platform_of(os: Seq<char>) -> Option<Platform> {
    if os == "linux"@ {
        Some(Platform::Linux)
    } else if os == "macos"@ {
        Some(Platform::MacOS)
    } else if os == "windows"@ {
        Some(Platform::Windows)
    } else {
        None
    }
}

/// The platform named by `os`, the value of `std::env::consts::OS`; `None` for another
/// operating system.
pub fn platform(os: &str) -> (r: Option<Platform>)
    ensures
        r == platform_of(os@),
{
    if str_eq(os, "linux") {
        Some(Platform::Linux)
    } else if str_eq(os, "macos") {
        Some(Platform::MacOS)
    } else if str_eq(os, "windows") {
        Some(Platform::Windows)
    } else {
        None
    }
}

/// Whether `os` names Linux.
pub fn linux(os: &str) -> (r: bool)
    ensures
        r == (platform_of(os@) == Some(Platform::Linux)),
{
    matches!(platform(os), Some(Platform::Linux))
}

/// Whether `os` names macOS.
pub fn macos(os: &str) -> (r: bool)
    ensures
        r == (platform_of(os@) == Some(Platform::MacOS)),
{
    matches!(platform(os), Some(Platform::MacOS))
}

/// Whether `os` names Windows.
pub fn windows(os: &str) -> (r: bool)
    ensures
        r == (platform_of(os@) == Some(Platform::Windows)),
{
    matches!(platform(os), Some(Platform::Windows))
}

/// Whether a flag is set, given the value of its environment variable (`None` when unset
/// or unreadable) and the default for an unset flag: a value is false when it lowercases to
/// `false` or is `0`, and true otherwise.
pub open spec fn flag_of(value: Option<Seq<char>>, default: bool) -> bool {
    match value {
        None => default,
        Some(v) => !(same_ignoring_case(v, seq!['f', 'a', 'l', 's', 'e'], seq!['F', 'A', 'L', 'S', 'E'])
            || v == seq!['0']),
    }
}

/// Whether the flag whose environment variable holds `value` is set; `default` when it is
/// not set. Only ASCII letters lowercase to the letters of `false`, so comparing ignoring
/// ASCII case is lowercasing.
pub fn flag(value: Option<&str>, default: bool) -> (r: bool)
    ensures
        r == flag_of(
            match value {
                Some(v) => Some(v@),
                None => None,
            },
            default,
        ),
{
    match value {
        None => default,
        Some(v) => {
            let cs = chars_of(v);
            let lower = chars_of("false");
            let upper = chars_of("FALSE");
            proof {
                reveal_strlit("false");
                reveal_strlit("FALSE");
                assert(lower@ =~= seq!['f', 'a', 'l', 's', 'e']);
                assert(upper@ =~= seq!['F', 'A', 'L', 'S', 'E']);
            }
            let is_false = same_ignoring_case_exec(cs.as_slice(), lower.as_slice(), upper.as_slice());
            let is_zero = cs.len() == 1 && cs[0] == '0';
            proof {
                if cs@ == seq!['0'] {
                    assert(cs@[0] == '0');
                }
                if is_zero {
                    assert(cs@ =~= seq!['0']);
                }
            }
            !(is_false || is_zero)
        },
    }
}

/// The system architecture.
#[derive(Clone, Copy, Debug, Eq, Hash, Ord, PartialEq, PartialOrd)]
pub enum Arch {
    /// 32 bit
    X86,
    /// 64 bit
    X86_64,
}

/// The architecture named by `name`, as `std::env::consts::ARCH` names it.
pub open spec fn arch_of(name: Seq<char>) -> Option<Arch> {
    if name == "x86"@ {
        Some(Arch::X86)
    } else if name == "x86_64"@ {
        Some(Arch::X86_64)
    } else {
        None
    }
}

/// The architecture named by `name`, the value of `std::env::consts::ARCH`; `None` for
/// another architecture.
pub fn arch(name: &str) -> (r: Option<Arch>)
    ensures
        r == arch_of(name@),
{
    if str_eq(name, "x86") {
        Some(Arch::X86)
    } else if str_eq(name, "x86_64") {
        Some(Arch::X86_64)
    } else {
        None
    }
}

/// Whether `name` names the x86 architecture.
pub fn x86(name: &str) -> (r: bool)
    ensures
        r == (arch_of(name@) == Some(Arch::X86)),
{
    matches!(arch(name), Some(Arch::X86))
}

/// Whether `name` names the x86_64 architecture.
pub fn x86_64(name: &str) -> (r: bool)
    ensures
        r == (arch_of(name@) == Some(Arch::X86_64)),
{
    matches!(arch(name), Some(Arch::X86_64))
}

/// System information.
#[derive(Clone, Debug, Eq, Hash, Ord, PartialEq, PartialOrd)]
pub struct Info {
    /// System architecture.
    pub arch: Arch,
    /// Kernel version, e.g. 5.3.13.
    pub kernel: String,
    /// Kernel release, e.g. 5.3.13-arch1-1.
    pub release: String,
}

/// The kernel release and version read from the text of `/proc/version`: the release is its
/// third space separated field and the version the release up to its first `-`.
pub open spec fn kernel_of(data: Seq<char>) -> Result<(Seq<char>, Seq<char>), OsError> {
    let fields = split_by(data, ' ');
    if fields.len() < 3 {
        Err(OsError::KernelReleaseNotFound)
    } else if !contains_seq(fields[2], seq!['-']) {
        Err(OsError::KernelVersionNotFound)
    } else {
        let release = fields[2];
        let i = choose|i: int| occurs_at(release, seq!['-'], i) && forall|j: int|
            0 <= j < i ==> !occurs_at(release, seq!['-'], j);
        Ok((release.subrange(0, i), release))
    }
}

/// System information from the text of `/proc/version` and the architecture.
pub fn info(proc_version: &str, arch: Arch) -> (r: Result<Info, OsError>)
    ensures
        match r {
            Ok(i) => kernel_of(proc_version@) == Ok::<(Seq<char>, Seq<char>), OsError>((i.kernel@, i.release@))
                && i.arch == arch,
            Err(e) => kernel_of(proc_version@) == Err::<(Seq<char>, Seq<char>), OsError>(e),
        },
{
    let cs = chars_of(proc_version);
    let fields = split_chars(cs.as_slice(), ' ');
    if fields.len() < 3 {
        return Err(OsError::KernelReleaseNotFound);
    }
    let release = &fields[2];
    let mut dash: Vec<char> = Vec::new();
    dash.push('-');
    assert(dash@ =~= seq!['-']);
    match find(release.as_slice(), dash.as_slice()) {
        Some(i) => {
            proof {
                let rel = split_by(cs@, ' ')[2];
                assert(rel == release@);
                assert(contains_seq(rel, seq!['-']));
                let k = choose|k: int| occurs_at(rel, seq!['-'], k) && forall|j: int|
                    0 <= j < k ==> !occurs_at(rel, seq!['-'], j);
                assert(occurs_at(rel, seq!['-'], i as int));
                if k < i {
                } else if i < k {
                }
                assert(k == i);
            }
            let version = slice_chars(release.as_slice(), 0, i);
            Ok(Info { arch, kernel: string_of(version.as_slice()), release: string_of(release.as_slice()) })
        },
        None => Err(OsError::KernelVersionNotFound),
    }
}

/// Substitute standard output and standard error streams; `T` and `U` are writers.
pub struct Stdio<T, U> {
    pub out: T,
    pub err: U,
}

impl<T, U> Stdio<T, U> {
    /// Streams writing to `out` and `err`.
    pub fn new(out: T, err: U) -> (r: Self)
        ensures
            r.out == out,
            r.err == err,
    {
        Stdio { out, err }
    }
}

} // verus!
