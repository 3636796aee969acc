use ffg::commands::{
    archive_path, current_link, find_package, install_dir, unpack_dir, version_link, CommandAction,
    InstallError, LocalEntry,
};
use ffg::release::{PackageInfo, PackageList};

fn strings(v: &[&str]) -> Vec<String> {
    v.iter().map(|s| s.to_string()).collect()
}

fn pkg(name: &str, path: &str, sum: &str) -> PackageInfo {
    PackageInfo::new(name.to_string(), path.to_string(), sum.to_string())
}

fn sample_list() -> PackageList {
    let mut list = PackageList::new();
    list.insert(
        "1.21.0".to_string(),
        vec![
            pkg("go1.21.0.windows-amd64.zip", "/dl/go1.21.0.windows-amd64.zip", "w"),
            pkg("go1.21.0.linux-amd64.tar.gz", "/dl/go1.21.0.linux-amd64.tar.gz", "first"),
            pkg("go1.21.0.linux-amd64.tar.gz", "/dl/other.tar.gz", "second"),
        ],
    );
    list
}

#[test]
fn home_layout() {
    assert_eq!(archive_path("go1.2.linux-amd64.tar.gz"), strings(&["packages", "go1.2.linux-amd64.tar.gz"]));
    assert_eq!(install_dir("1.2"), strings(&["packages", "go1.2"]));
    assert_eq!(unpack_dir(), strings(&["packages", "go"]));
    assert_eq!(current_link(), strings(&["go"]));
    assert_eq!(version_link("1.2"), strings(&["go1.2"]));
}

#[test]
fn current_version_from_link() {
    assert_eq!(CommandAction::current_version(Some("go1.21.0")), "1.21.0");
    assert_eq!(CommandAction::current_version(None), "");
}

fn entry(name: &str, is_dir: bool) -> LocalEntry {
    LocalEntry { name: name.to_string(), is_dir }
}

#[test]
fn local_versions_are_directories_holding_go() {
    let entries = vec![
        entry("go1.21.0", true),
        entry("go1.22.0", true),
        entry("go1.21.0.linux-amd64.tar.gz", false),
        entry("other", true),
        entry("gogo1.21.0", true),
        entry("go", true),
    ];
    assert_eq!(CommandAction::local_version(&entries), strings(&["1.21.0", "1.22.0", ""]));
    assert!(CommandAction::local_version(&vec![]).is_empty());
}

#[test]
fn ls_marks_versions_contained_in_the_current_one() {
    let local = strings(&["1.21", "1.21.0", "1.22.0"]);
    let lines = CommandAction::list(&local, "1.21.0");
    let marks: Vec<(String, bool)> = lines.into_iter().map(|l| (l.version, l.current)).collect();
    assert_eq!(
        marks,
        vec![("1.21".to_string(), true), ("1.21.0".to_string(), true), ("1.22.0".to_string(), false)]
    );
    let lines = CommandAction::list(&local, "");
    assert!(lines.iter().all(|l| !l.current));
}

#[test]
fn rm_plans() {
    let p = CommandAction::remove_plan("1.21.0", "1.21.0", true, true);
    assert!(p.remove_archive && !p.not_installed && p.remove_dir && p.remove_link);
    let p = CommandAction::remove_plan("1.21.0", "1.22.0", false, true);
    assert!(!p.remove_archive && !p.not_installed && p.remove_dir && !p.remove_link);
    let p = CommandAction::remove_plan("1.21.0", "1.21.0", true, false);
    assert!(p.remove_archive && p.not_installed && !p.remove_dir && !p.remove_link);
}

#[test]
fn first_package_of_a_name_is_found() {
    let list = sample_list();
    let packages = list.get("1.21.0").unwrap();
    let p = find_package(packages, "go1.21.0.linux-amd64.tar.gz").unwrap();
    assert_eq!(p.sha256_checksum, "first");
    assert!(find_package(packages, "go1.21.0.plan9-amd64.tar.gz").is_none());
}

#[test]
fn download_plan_for_an_offered_version() {
    let list = sample_list();
    let plan = CommandAction::download_plan(&list, "1.21.0", "https://go.dev", "linux", "amd64", "tar.gz")
        .unwrap();
    assert_eq!(plan.file_name, "go1.21.0.linux-amd64.tar.gz");
    assert_eq!(plan.url, "https://go.dev/dl/go1.21.0.linux-amd64.tar.gz");
    assert_eq!(plan.sha256_checksum, "first");
}

#[test]
fn download_plan_errors() {
    let list = sample_list();
    assert!(matches!(
        CommandAction::download_plan(&list, "1.9", "https://go.dev", "linux", "amd64", "tar.gz"),
        Err(InstallError::VersionNotFound)
    ));
    assert!(matches!(
        CommandAction::download_plan(&list, "1.21.0", "not a url", "linux", "amd64", "tar.gz"),
        Err(InstallError::InvalidMirror(_))
    ));
    match CommandAction::download_plan(&list, "1.21.0", "https://go.dev", "plan9", "amd64", "tar.gz") {
        Err(InstallError::NoPackageForPlatform(name)) => assert_eq!(name, "go1.21.0.plan9-amd64.tar.gz"),
        _ => panic!("expected NoPackageForPlatform"),
    }
    assert!(matches!(
        CommandAction::download_plan(&list, "1.21.0", "mailto:x@example.com", "linux", "amd64", "tar.gz"),
        Err(InstallError::InvalidPackagePath(_))
    ));
}

#[test]
fn installed_version_reads_back_as_current() {
    let dir = install_dir("1.21.0");
    let name = dir[1].as_str();
    let current = CommandAction::current_version(Some(name));
    assert_eq!(current, "1.21.0");
    let local = CommandAction::local_version(&vec![entry(name, true)]);
    assert_eq!(local, strings(&["1.21.0"]));
    let lines = CommandAction::list(&local, &current);
    assert!(lines[0].current);
}

#[test]
fn version_holding_go_does_not_read_back() {
    let dir = install_dir("1go");
    assert_eq!(CommandAction::current_version(Some(dir[1].as_str())), "1");
}
