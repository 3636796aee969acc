use ffg::platform::{archive_format, get_arch, get_os, get_suffix, package_file_name, ArchiveFormat};
use ffg::text::{concat_str, str_contains, str_equal, strip_go, trim};

#[test]
fn strip_go_removes_every_go() {
    assert_eq!(strip_go("go1.21.0"), "1.21.0");
    assert_eq!(strip_go("1.21.0"), "1.21.0");
    assert_eq!(strip_go("gogo1.2go"), "1.2");
    assert_eq!(strip_go(""), "");
}

#[test]
fn strip_go_is_a_single_pass() {
    // Deleting the inner "go" joins a new "go" that is not deleted again.
    assert_eq!(strip_go("ggoo"), "go");
    assert_eq!(strip_go("ggoo"), "ggoo".replace("go", ""));
}

#[test]
fn trim_removes_unicode_white_space() {
    assert_eq!(trim("  go1.2\n\t"), "go1.2");
    assert_eq!(trim("\u{3000}x y\u{a0}"), "x y");
    assert_eq!(trim("   "), "");
    assert_eq!(trim("a"), "a");
}

#[test]
fn contains_and_equal() {
    assert!(str_contains("go1.22rc1", "rc"));
    assert!(!str_contains("go1.22.0", "rc"));
    assert!(str_contains("abc", ""));
    assert!(!str_contains("", "a"));
    assert!(str_equal("1.21", "1.21"));
    assert!(!str_equal("1.21", "1.21.0"));
    assert_eq!(concat_str("go", "1.2"), "go1.2");
}

#[test]
fn operating_system_names() {
    assert_eq!(get_os("linux"), "linux");
    assert_eq!(get_os("macos"), "darwin");
    assert_eq!(get_os("windows"), "windows");
    assert_eq!(get_os("freebsd"), "<unknown>");
}

#[test]
fn architecture_names() {
    assert_eq!(get_arch("x86"), "386");
    assert_eq!(get_arch("x86_64"), "amd64");
    assert_eq!(get_arch("mips"), "mips");
    assert_eq!(get_arch("arm"), "arm");
    assert_eq!(get_arch("aarch64"), "arm64");
    assert_eq!(get_arch("riscv64"), "<unknown>");
}

#[test]
fn archive_suffixes_and_formats() {
    assert_eq!(get_suffix("windows"), "zip");
    assert_eq!(get_suffix("linux"), "tar.gz");
    assert_eq!(get_suffix("macos"), "tar.gz");
    assert_eq!(archive_format("tar.gz"), ArchiveFormat::TarGz);
    assert_eq!(archive_format("zip"), ArchiveFormat::Zip);
    assert_eq!(archive_format("tgz"), ArchiveFormat::Zip);
}

#[test]
fn suffix_selects_format() {
    assert_eq!(archive_format(get_suffix("windows")), ArchiveFormat::Zip);
    assert_eq!(archive_format(get_suffix("linux")), ArchiveFormat::TarGz);
}

#[test]
fn archive_file_names() {
    assert_eq!(
        package_file_name("1.21.0", get_os("linux"), get_arch("x86_64"), get_suffix("linux")),
        "go1.21.0.linux-amd64.tar.gz"
    );
    assert_eq!(
        package_file_name("1.15.6", get_os("windows"), get_arch("x86"), get_suffix("windows")),
        "go1.15.6.windows-386.zip"
    );
}
