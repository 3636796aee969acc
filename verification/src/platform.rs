//! How Go names the platforms and the archives that it publishes for them.
use vstd::prelude::*;
use crate::text::{concat_str, str_equal};

verus! {

/// Go's name for the operating system that Rust calls `target_os`.
pub open spec fn go_os_name(target_os: Seq<char>) -> Seq<char> {
    if target_os == "windows"@ {
        "windows"@
    } else if target_os == "linux"@ {
        "linux"@
    } else if target_os == "macos"@ {
        "darwin"@
    } else {
        "<unknown>"@
    }
}

/// Go's name for the processor architecture that Rust calls `target_arch`.
pub open spec fn go_arch_name(target_arch: Seq<char>) -> Seq<char> {
    if target_arch == "x86"@ {
        "386"@
    } else if target_arch == "x86_64"@ {
        "amd64"@
    } else if target_arch == "mips"@ {
        "mips"@
    } else if target_arch == "arm"@ {
        "arm"@
    } else if target_arch == "aarch64"@ {
        "arm64"@
    } else {
        "<unknown>"@
    }
}

/// The extension of the archives that Go publishes for an operating system.
pub open spec fn archive_suffix(target_os: Seq<char>) -> Seq<char> {
    if target_os == "windows"@ {
        "zip"@
    } else {
        "tar.gz"@
    }
}

/// The name of the archive of a Go release: `go{version}.{os}-{arch}.{suffix}`.
pub open spec fn archive_file_name(
    version: Seq<char>,
    os: Seq<char>,
    arch: Seq<char>,
    suffix: Seq<char>,
) -> Seq<char> {
    "go"@ + version + "."@ + os + "-"@ + arch + "."@ + suffix
}

/// Go's operating-system name for the Rust `target_os` value
/// (`std::env::consts::OS` at run time).
pub fn get_os(target_os: &str) -> (name: &'static str)
    ensures
        name@ == go_os_name(target_os@),
{
    if str_equal(target_os, "windows") {
        "windows"
    } else if str_equal(target_os, "linux") {
        "linux"
    } else if str_equal(target_os, "macos") {
        "darwin"
    } else {
        "<unknown>"
    }
}

/// The archive extension for the Rust `target_os` value: `zip` on Windows,
/// `tar.gz` everywhere else.
pub fn get_suffix(target_os: &str) -> (suffix: &'static str)
    ensures
        suffix@ == archive_suffix(target_os@),
{
    if str_equal(target_os, "windows") {
        "zip"
    } else {
        "tar.gz"
    }
}

/// Go's architecture name for the Rust `target_arch` value
/// (`std::env::consts::ARCH` at run time).
pub fn get_arch(target_arch: &str) -> (name: &'static str)
    ensures
        name@ == go_arch_name(target_arch@),
{
    if str_equal(target_arch, "x86") {
        "386"
    } else if str_equal(target_arch, "x86_64") {
        "amd64"
    } else if str_equal(target_arch, "mips") {
        "mips"
    } else if str_equal(target_arch, "arm") {
        "arm"
    } else if str_equal(target_arch, "aarch64") {
        "arm64"
    } else {
        "<unknown>"
    }
}

/// The file name of the archive of `version` for a platform.
pub fn package_file_name(version: &str, os: &str, arch: &str, suffix: &str) -> (name: String)
    ensures
        name@ == archive_file_name(version@, os@, arch@, suffix@),
{
    let mut name = concat_str("go", version);
    name.append(".");
    name.append(os);
    name.append("-");
    name.append(arch);
    name.append(".");
    name.append(suffix);
    name
}

/// How an archive is unpacked.
#[derive(Debug, Clone, Copy, PartialEq, Eq, Structural)]
pub enum ArchiveFormat {
    /// A gzip-compressed tar archive.
    TarGz,
    /// A zip archive.
    Zip,
}

/// The format of an archive with extension `suffix`: only `tar.gz` is read as
/// a tar archive; anything else is read as zip.
pub fn archive_format(suffix: &str) -> (format: ArchiveFormat)
    ensures
        format == (if suffix@ == "tar.gz"@ {
            ArchiveFormat::TarGz
        } else {
            ArchiveFormat::Zip
        }),
{
    if str_equal(suffix, "tar.gz") {
        ArchiveFormat::TarGz
    } else {
        ArchiveFormat::Zip
    }
}

} // verus!
