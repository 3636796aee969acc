use ffg::archive::{sanitize_file_path, split_components, zip_entry_action, ZipEntryAction};
use ffg::checksum::{archive_digest, check_archive, checksum_matches};
use ffg::mirror::{release_page_url, resolve_mirror, resolve_on_mirror, UrlError};

const HELLO_SHA256: &str = "2cf24dba5fb0a30e26e83b2ac5b9e29e1b161e5c1fa7425e73043362938b9824";

#[test]
fn default_and_configured_mirror() {
    assert_eq!(resolve_mirror(None), "https://go.dev");
    assert_eq!(resolve_mirror(Some("https://studygolang.com".to_string())), "https://studygolang.com");
}

#[test]
fn download_page_url() {
    assert_eq!(release_page_url("https://go.dev").unwrap(), "https://go.dev/dl");
    assert_eq!(release_page_url("https://studygolang.com/").unwrap(), "https://studygolang.com/dl");
}

#[test]
fn package_url_on_mirror() {
    assert_eq!(
        resolve_on_mirror("https://go.dev", "/dl/go1.21.0.linux-amd64.tar.gz").unwrap(),
        "https://go.dev/dl/go1.21.0.linux-amd64.tar.gz"
    );
    assert_eq!(
        resolve_on_mirror("https://go.dev/a/b", "c").unwrap(),
        "https://go.dev/a/c"
    );
}

#[test]
fn invalid_mirror_is_reported() {
    assert!(matches!(release_page_url("not a url"), Err(UrlError::InvalidMirror(_))));
    assert!(matches!(release_page_url(""), Err(UrlError::InvalidMirror(_))));
}

#[test]
fn unresolvable_reference_is_reported() {
    assert!(matches!(
        release_page_url("mailto:someone@example.com"),
        Err(UrlError::InvalidReference(_))
    ));
}

#[test]
fn digest_of_bytes() {
    assert_eq!(archive_digest(b"hello"), HELLO_SHA256);
    assert_eq!(
        archive_digest(b""),
        "e3b0c44298fc1c149afbf4c8996fb92427ae41e4649b934ca495991b7852b855"
    );
}

#[test]
fn checksum_comparison_is_exact() {
    assert!(checksum_matches(HELLO_SHA256, HELLO_SHA256));
    assert!(!checksum_matches(HELLO_SHA256, &HELLO_SHA256.to_uppercase()));
    let check = check_archive(b"hello", HELLO_SHA256);
    assert!(check.matches);
    assert_eq!(check.digest, HELLO_SHA256);
    let check = check_archive(b"hello!", HELLO_SHA256);
    assert!(!check.matches);
    assert_ne!(check.digest, HELLO_SHA256);
    assert!(!check_archive(b"hello", &HELLO_SHA256.to_uppercase()).matches);
}

fn strings(v: &[&str]) -> Vec<String> {
    v.iter().map(|s| s.to_string()).collect()
}

#[test]
fn split_at_both_separators() {
    assert_eq!(split_components("a//b\\c"), strings(&["a", "", "b", "c"]));
    assert_eq!(split_components(""), strings(&[""]));
    assert_eq!(split_components("/"), strings(&["", ""]));
    assert_eq!(split_components("go/bin/gofmt"), strings(&["go", "bin", "gofmt"]));
}

#[test]
fn sanitized_paths_stay_inside() {
    assert_eq!(sanitize_file_path("go/bin/gofmt", false), strings(&["go", "bin", "gofmt"]));
    assert_eq!(sanitize_file_path("go\\src\\..\\x", false), strings(&["go", "src", "", "x"]));
    assert_eq!(sanitize_file_path("../../etc/passwd", false), strings(&["", "", "etc", "passwd"]));
    assert_eq!(sanitize_file_path("./a", false), strings(&["", "a"]));
    assert_eq!(sanitize_file_path("a:b*c", false), strings(&["abc"]));
}

#[test]
fn sanitized_paths_on_windows() {
    assert_eq!(sanitize_file_path("go/CON.txt", true), strings(&["go", ""]));
    assert_eq!(sanitize_file_path("dir/name. ", true), strings(&["dir", "name"]));
    assert_eq!(sanitize_file_path("dir/name. ", false), strings(&["dir", "name. "]));
}

#[test]
fn zip_entry_actions() {
    assert_eq!(zip_entry_action(true, false, false), ZipEntryAction::CreateDir);
    assert_eq!(zip_entry_action(true, true, true), ZipEntryAction::Skip);
    assert_eq!(zip_entry_action(false, false, false), ZipEntryAction::WriteFile { create_parent: true });
    assert_eq!(zip_entry_action(false, true, true), ZipEntryAction::WriteFile { create_parent: false });
}

#[test]
fn sanitized_paths_drop_drive_colons_and_illegal_characters() {
    assert_eq!(sanitize_file_path("C:x/y", true), strings(&["Cx", "y"]));
    assert_eq!(sanitize_file_path("C:\\evil", true), strings(&["C", "evil"]));
    assert_eq!(sanitize_file_path("a?<>*|\"b", false), strings(&["ab"]));
    assert_eq!(sanitize_file_path("a\u{1}b\u{85}c\u{9f}", false), strings(&["abc"]));
}

#[test]
fn sanitized_names_take_at_most_255_bytes() {
    let long = "a".repeat(300);
    assert_eq!(sanitize_file_path(&long, false), vec!["a".repeat(255)]);
    let wide = "\u{e9}".repeat(200);
    let parts = sanitize_file_path(&wide, false);
    assert_eq!(parts.len(), 1);
    assert_eq!(parts[0], "\u{e9}".repeat(127));
    assert!(parts[0].len() <= 255);
}

#[test]
fn reserved_names_on_windows() {
    assert_eq!(sanitize_file_path("con.txt", true), strings(&[""]));
    // A trailing space is cut after the reserved-name step, so this one stays.
    assert_eq!(sanitize_file_path("con ", true), strings(&["con"]));
}
