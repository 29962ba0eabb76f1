use vstd::prelude::*;
use crate::config::ConfigPath;

verus! {

/// The operating systems a store can be built for. The caller resolves the
/// running system once at startup; the functions here only decide from it.
#[derive(Clone, Copy, Debug, PartialEq, Eq, Structural)]
pub enum Os {
    Windows,
    MacOs,
    Ios,
    Android,
    Linux,
}

/// The processor architectures a payload can be built for.
#[derive(Clone, Copy, Debug, PartialEq, Eq, Structural)]
pub enum Arch {
    X86_64,
    X86,
    Arm,
    Aarch64,
    Mips,
    Mips64,
    PowerPc,
    PowerPc64,
}

/// Which installer backend a build of this library drives.
#[derive(Clone, Copy, Debug, PartialEq, Eq, Structural)]
pub enum PayloadBackend {
    Windows,
    MacOs,
    Prefix,
}

/// Whether two strings hold the same characters.
pub fn str_eq(a: &str, b: &str) -> (r: bool)
    ensures
        r == (a@ == b@),
{
    let n = a.unicode_len();
    let m = b.unicode_len();
    if n != m {
        return false;
    }
    let mut i: usize = 0;
    while i < n
        invariant
            n == a@.len(),
            n == b@.len(),
            0 <= i <= n,
            forall|j: int| 0 <= j < i ==> a@[j] == b@[j],
        decreases n - i,
    {
        if a.get_char(i) != b.get_char(i) {
            return false;
        }
        i += 1;
    }
    proof {
        assert(a@ =~= b@);
    }
    true
}

/// The canonical name of an operating system, as repository indexes spell
/// platforms.
pub fn platform(os: Os) -> (r: String)
    ensures
        os is Windows ==> r@ == "windows"@,
        os is MacOs ==> r@ == "macos"@,
        os is Ios ==> r@ == "ios"@,
        os is Android ==> r@ == "android"@,
        os is Linux ==> r@ == "linux"@,
{
    match os {
        Os::Windows => String::from_str("windows"),
        Os::MacOs => String::from_str("macos"),
        Os::Ios => String::from_str("ios"),
        Os::Android => String::from_str("android"),
        Os::Linux => String::from_str("linux"),
    }
}

/// The canonical name of a processor architecture.
pub fn arch(a: Arch) -> (r: String)
    ensures
        a is X86_64 ==> r@ == "x86_64"@,
        a is X86 ==> r@ == "x86"@,
        a is Arm ==> r@ == "arm"@,
        a is Aarch64 ==> r@ == "aarch64"@,
        a is Mips ==> r@ == "mips"@,
        a is Mips64 ==> r@ == "mips64"@,
        a is PowerPc ==> r@ == "powerpc"@,
        a is PowerPc64 ==> r@ == "powerpc64"@,
{
    match a {
        Arch::X86_64 => String::from_str("x86_64"),
        Arch::X86 => String::from_str("x86"),
        Arch::Arm => String::from_str("arm"),
        Arch::Aarch64 => String::from_str("aarch64"),
        Arch::Mips => String::from_str("mips"),
        Arch::Mips64 => String::from_str("mips64"),
        Arch::PowerPc => String::from_str("powerpc"),
        Arch::PowerPc64 => String::from_str("powerpc64"),
    }
}

/// The payload kinds one backend can install.
pub fn payloads(b: PayloadBackend) -> (r: Vec<String>)
    ensures
        r@.len() == 1,
        b is Windows ==> r@[0]@ == "WindowsExecutable"@,
        b is MacOs ==> r@[0]@ == "MacOSPackage"@,
        b is Prefix ==> r@[0]@ == "TarballPackage"@,
{
    let mut v: Vec<String> = Vec::new();
    match b {
        PayloadBackend::Windows => v.push(String::from_str("WindowsExecutable")),
        PayloadBackend::MacOs => v.push(String::from_str("MacOSPackage")),
        PayloadBackend::Prefix => v.push(String::from_str("TarballPackage")),
    }
    v
}

/// Relies on whoami::username: the name of the user running the process, or
/// none where the platform cannot say. The answer depends on the
/// environment, so nothing is promised of it.
#[verifier::external_body]
fn current_username() -> (r: Option<String>) {
    whoami::username().ok()
}

/// Relies on directories::BaseDirs::new and BaseDirs::config_dir: the
/// user's configuration directory. Environment-dependent; nothing promised.
#[verifier::external_body]
fn base_config_dir() -> (r: Option<String>) {
    directories::BaseDirs::new().map(|d| d.config_dir().to_string_lossy().into_owned())
}

/// Relies on directories::BaseDirs::new and BaseDirs::cache_dir: the user's
/// cache directory. Environment-dependent; nothing promised.
#[verifier::external_body]
fn base_cache_dir() -> (r: Option<String>) {
    directories::BaseDirs::new().map(|d| d.cache_dir().to_string_lossy().into_owned())
}

/// Relies on directories::BaseDirs::new and BaseDirs::data_dir: the user's
/// data directory. Environment-dependent; nothing promised.
#[verifier::external_body]
fn base_data_dir() -> (r: Option<String>) {
    directories::BaseDirs::new().map(|d| d.data_dir().to_string_lossy().into_owned())
}

/// Relies on url::Url::from_directory_path: a file url for an absolute
/// directory path, or none for a relative one. The crate normalises the
/// url, so nothing is promised of the text.
#[verifier::external_body]
fn directory_url(path: &str) -> (r: Option<String>) {
    url::Url::from_directory_path(path).ok().map(String::from)
}

/// Relies on url::Url::from_file_path: a file url for an absolute file
/// path, or none for a relative one. Nothing promised of the text.
#[verifier::external_body]
fn file_url(path: &str) -> (r: Option<String>) {
    url::Url::from_file_path(path).ok().map(String::from)
}

/// Relies on url::Url::parse: the normalised form of an absolute url, or
/// none where the string is no url. Nothing promised of the text.
#[verifier::external_body]
fn parse_url(s: &str) -> (r: Option<String>) {
    url::Url::parse(s).ok().map(String::from)
}

/// The configuration directory that `os` and `username` force, bypassing
/// the per-user lookup: the machine-wide directory for the Windows service
/// account and the macOS root account.
pub open spec fn special_config_dir(os: Os, username: Option<Seq<char>>) -> Option<Seq<char>> {
    if os is Windows && username == Option::Some("SYSTEM"@) {
        Option::Some("C:\\ProgramData\\Pahkat\\config"@)
    } else if os is MacOs && username == Option::Some("root"@) {
        Option::Some("/Library/Preferences/Pahkat"@)
    } else {
        Option::None
    }
}

/// Decide the configuration directory from already-resolved inputs: the
/// special system-account directories where they apply, else `Pahkat`
/// under the user's configuration directory.
pub fn config_path_resolve(os: Os, username: &Option<String>, base: Option<String>) -> (r: Option<
    String,
>)
    ensures
        match special_config_dir(
            os,
            match username {
                Option::Some(u) => Option::Some(u@),
                Option::None => Option::None,
            },
        ) {
            Option::Some(p) => r matches Option::Some(s) && s@ == p,
            Option::None => match base {
                Option::Some(b) => r matches Option::Some(s) && s@ == b@ + "/Pahkat"@,
                Option::None => r is None,
            },
        },
{
    let is_system = match username {
        Option::Some(u) => str_eq(u.as_str(), "SYSTEM"),
        Option::None => false,
    };
    let is_root = match username {
        Option::Some(u) => str_eq(u.as_str(), "root"),
        Option::None => false,
    };
    if matches!(os, Os::Windows) && is_system {
        return Option::Some(String::from_str("C:\\ProgramData\\Pahkat\\config"));
    }
    if matches!(os, Os::MacOs) && is_root {
        return Option::Some(String::from_str("/Library/Preferences/Pahkat"));
    }
    match base {
        Option::Some(b) => Option::Some(b.concat("/Pahkat")),
        Option::None => Option::None,
    }
}

/// The configuration directory for this system, resolved through the
/// platform's user and directory services.
pub fn config_path(os: Os) -> (r: Option<String>)
    ensures
        r matches Option::Some(s) ==> (special_config_dir(os, Option::Some("SYSTEM"@))
            == Option::Some(s@) || special_config_dir(os, Option::Some("root"@)) == Option::Some(
            s@,
        ) || exists|b: Seq<char>| s@ == b + "/Pahkat"@),
{
    let username = current_username();
    let base = base_config_dir();
    let ghost gb: Option<Seq<char>> = match &base {
        Option::Some(b) => Option::Some(b@),
        Option::None => Option::None,
    };
    let r = config_path_resolve(os, &username, base);
    proof {
        let uv: Option<Seq<char>> = match username {
            Option::Some(u) => Option::Some(u@),
            Option::None => Option::None,
        };
        if special_config_dir(os, uv) is None && gb is Some && r is Some {
            assert(r.unwrap()@ == gb.unwrap() + "/Pahkat"@);
        }
    }
    r
}

/// The log directory that `os` and `username` force, or none: only the
/// system accounts have one.
pub open spec fn special_log_dir(os: Os, username: Option<Seq<char>>) -> Option<Seq<char>> {
    if os is Windows && username == Option::Some("SYSTEM"@) {
        Option::Some("C:\\ProgramData\\Pahkat\\log"@)
    } else if os is MacOs && username == Option::Some("root"@) {
        Option::Some("/Library/Logs/Pahkat"@)
    } else {
        Option::None
    }
}

/// Decide the log directory from an already-resolved username.
pub fn log_path_resolve(os: Os, username: &Option<String>) -> (r: Option<String>)
    ensures
        match special_log_dir(
            os,
            match username {
                Option::Some(u) => Option::Some(u@),
                Option::None => Option::None,
            },
        ) {
            Option::Some(p) => r matches Option::Some(s) && s@ == p,
            Option::None => r is None,
        },
{
    let is_system = match username {
        Option::Some(u) => str_eq(u.as_str(), "SYSTEM"),
        Option::None => false,
    };
    let is_root = match username {
        Option::Some(u) => str_eq(u.as_str(), "root"),
        Option::None => false,
    };
    if matches!(os, Os::Windows) && is_system {
        return Option::Some(String::from_str("C:\\ProgramData\\Pahkat\\log"));
    }
    if matches!(os, Os::MacOs) && is_root {
        return Option::Some(String::from_str("/Library/Logs/Pahkat"));
    }
    Option::None
}

/// The log directory for this system, where the system accounts have one.
pub fn log_path(os: Os) -> (r: Option<String>)
    ensures
        r matches Option::Some(s) ==> (special_log_dir(os, Option::Some("SYSTEM"@))
            == Option::Some(s@) || special_log_dir(os, Option::Some("root"@)) == Option::Some(s@)),
{
    let username = current_username();
    log_path_resolve(os, &username)
}

/// Decide the cache directory from already-resolved inputs: the special
/// system-account directories where they apply, else the user's prepared
/// cache directory as handed in.
pub fn cache_path_resolve(os: Os, username: &Option<String>, base: Option<String>) -> (r: Option<
    String,
>)
    ensures
        os is Windows && (match username {
            Option::Some(u) => u@ == "SYSTEM"@,
            Option::None => false,
        }) ==> (r matches Option::Some(s) && s@ == "C:\\ProgramData\\Pahkat\\cache"@),
        os is MacOs && (match username {
            Option::Some(u) => u@ == "root"@,
            Option::None => false,
        }) ==> (r matches Option::Some(s) && s@ == "/Library/Caches/Pahkat"@),
        !(os is Windows && (match username {
            Option::Some(u) => u@ == "SYSTEM"@,
            Option::None => false,
        })) && !(os is MacOs && (match username {
            Option::Some(u) => u@ == "root"@,
            Option::None => false,
        })) ==> r == base,
{
    let is_system = match username {
        Option::Some(u) => str_eq(u.as_str(), "SYSTEM"),
        Option::None => false,
    };
    let is_root = match username {
        Option::Some(u) => str_eq(u.as_str(), "root"),
        Option::None => false,
    };
    if matches!(os, Os::Windows) && is_system {
        return Option::Some(String::from_str("C:\\ProgramData\\Pahkat\\cache"));
    }
    if matches!(os, Os::MacOs) && is_root {
        return Option::Some(String::from_str("/Library/Caches/Pahkat"));
    }
    base
}

/// The cache location for this system. On the container platforms it is a
/// platform-managed container url; elsewhere a file url of the resolved
/// cache directory. The url crate does the url forming, so only the shape
/// is promised.
pub fn cache_dir(os: Os) -> (r: Option<ConfigPath>)
    ensures
        (os is Ios || os is Android) ==> (r is None || r matches Option::Some(
            ConfigPath::Container(_),
        )),
        !(os is Ios || os is Android) ==> (r is None || r matches Option::Some(
            ConfigPath::File(_),
        )),
{
    match os {
        Os::Ios => match parse_url("container:/Library/Caches/Pahkat") {
            Option::Some(u) => Option::Some(ConfigPath::Container(u)),
            Option::None => Option::None,
        },
        Os::Android => match parse_url("container:/cache/Pahkat") {
            Option::Some(u) => Option::Some(ConfigPath::Container(u)),
            Option::None => Option::None,
        },
        _ => {
            let username = current_username();
            let base = base_cache_dir();
            match cache_path_resolve(os, &username, base) {
                Option::Some(p) => match directory_url(p.as_str()) {
                    Option::Some(u) => Option::Some(ConfigPath::File(u)),
                    Option::None => Option::None,
                },
                Option::None => Option::None,
            }
        },
    }
}

/// The temporary-files location for this system: `tmp` under the cache
/// directory, as a file url; a container url on the container platforms.
/// On Android the caller hands in the process temporary directory, resolved
/// at startup.
pub fn tmp_dir(os: Os, android_tmp: Option<String>) -> (r: Option<ConfigPath>)
    ensures
        os is Ios ==> (r is None || r matches Option::Some(ConfigPath::Container(_))),
        !(os is Ios) ==> (r is None || r matches Option::Some(ConfigPath::File(_))),
{
    match os {
        Os::Ios => match parse_url("container:/Library/Caches/Pahkat/tmp") {
            Option::Some(u) => Option::Some(ConfigPath::Container(u)),
            Option::None => Option::None,
        },
        Os::Android => match android_tmp {
            Option::Some(p) => match directory_url(p.as_str()) {
                Option::Some(u) => Option::Some(ConfigPath::File(u)),
                Option::None => Option::None,
            },
            Option::None => Option::None,
        },
        _ => {
            let username = current_username();
            let base = base_cache_dir();
            match cache_path_resolve(os, &username, base) {
                Option::Some(p) => {
                    let tmp = p.concat("/tmp");
                    match file_url(tmp.as_str()) {
                        Option::Some(u) => Option::Some(ConfigPath::File(u)),
                        Option::None => Option::None,
                    }
                },
                Option::None => Option::None,
            }
        },
    }
}

/// `Pahkat/uninstall` under an already-resolved data directory.
pub fn uninstall_path_from(base: Option<String>) -> (r: Option<String>)
    ensures
        match base {
            Option::Some(b) => r matches Option::Some(s) && s@ == b@ + "/Pahkat/uninstall"@,
            Option::None => r is None,
        },
{
    match base {
        Option::Some(b) => Option::Some(b.concat("/Pahkat/uninstall")),
        Option::None => Option::None,
    }
}

/// Where the uninstaller payload is kept: `Pahkat/uninstall` under the
/// user's data directory. None where the platform reports no data
/// directory, rather than a panic.
pub fn uninstall_path() -> (r: Option<String>)
    ensures
        r matches Option::Some(s) ==> exists|b: Seq<char>| s@ == b + "/Pahkat/uninstall"@,
{
    let base = base_data_dir();
    let ghost gb: Option<Seq<char>> = match &base {
        Option::Some(b) => Option::Some(b@),
        Option::None => Option::None,
    };
    let r = uninstall_path_from(base);
    proof {
        if gb is Some && r is Some {
            assert(r.unwrap()@ == gb.unwrap() + "/Pahkat/uninstall"@);
        }
    }
    r
}

} // verus!
