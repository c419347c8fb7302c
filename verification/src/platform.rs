//! What a release calls the machine that the updater runs on.
use vstd::prelude::*;

use crate::text::same;

verus! {

/// The machine, as the compiler and the standard library name it.
#[derive(Debug, Clone)]
pub struct Platform {
    /// The operating system, e.g. `linux`, `macos` or `windows`.
    pub os: String,
    /// The processor architecture, e.g. `x86_64`.
    pub arch: String,
    /// The full target triple, e.g. `aarch64-apple-darwin`.
    pub target: String,
    /// Whether this is Windows.
    pub windows: bool,
}

/// What asset names call the operating system `os`.
pub open spec fn os_name(os: Seq<char>) -> Seq<char> {
    if os == "macos"@ {
        "darwin"@
    } else {
        os
    }
}

/// What asset names call the architecture `arch`.
pub open spec fn arch_name(arch: Seq<char>) -> Seq<char> {
    if arch == "x86_64"@ {
        "amd64"@
    } else if arch == "aarch64"@ {
        "arm64"@
    } else {
        arch
    }
}

/// What the name of an executable ends with.
pub open spec fn exe_suffix(windows: bool) -> Seq<char> {
    if windows {
        ".exe"@
    } else {
        ""@
    }
}

/// What the name of an archive ends with, after the dot.
pub open spec fn archive_ext(windows: bool) -> Seq<char> {
    if windows {
        "zip"@
    } else {
        "tar.gz"@
    }
}

/// What asset names call the operating system: `macos` is `darwin` there.
pub fn get_os(os: &str) -> (r: String)
    ensures
        r@ == os_name(os@),
{
    if same(os, "macos") {
        "darwin".to_string()
    } else {
        os.to_string()
    }
}

/// What asset names call the architecture.
pub fn get_arch(arch: &str) -> (r: String)
    ensures
        r@ == arch_name(arch@),
{
    if same(arch, "x86_64") {
        "amd64".to_string()
    } else if same(arch, "aarch64") {
        "arm64".to_string()
    } else {
        arch.to_string()
    }
}

/// What the name of an executable ends with.
pub fn get_exe_suffix(windows: bool) -> (r: &'static str)
    ensures
        r@ == exe_suffix(windows),
{
    if windows {
        ".exe"
    } else {
        ""
    }
}

/// What the name of an archive ends with, after the dot.
pub fn get_archive_ext(windows: bool) -> (r: &'static str)
    ensures
        r@ == archive_ext(windows),
{
    if windows {
        "zip"
    } else {
        "tar.gz"
    }
}

/// Releases call every system and architecture as the compiler does, but for one
/// system and two architectures; what their files end with depends on Windows
/// alone.
pub proof fn machines_keep_their_names(name: Seq<char>)
    ensures
        name != "macos"@ ==> os_name(name) == name,
        os_name("macos"@) == "darwin"@,
        name != "x86_64"@ && name != "aarch64"@ ==> arch_name(name) == name,
        arch_name("x86_64"@) == "amd64"@,
        arch_name("aarch64"@) == "arm64"@,
        exe_suffix(true) == ".exe"@,
        exe_suffix(false) == ""@,
        archive_ext(true) == "zip"@,
        archive_ext(false) == "tar.gz"@,
{
    reveal_strlit("x86_64");
    reveal_strlit("aarch64");
    assert("x86_64"@.len() != "aarch64"@.len());
}

} // verus!
