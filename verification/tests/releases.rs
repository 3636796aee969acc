use ffg::release::{
    collect_releases, is_stable_release, release_table, package_from_row, packages_from_rows, parse_release_page,
    release_version, PackageInfo, PackageList, RawRow, RawSection,
};

const SUM_LINUX: &str = "f6c8a87aa03b92c4b0bf3d558e28ea03006eb29db78917daec5cfb6ec1046265";
const SUM_WIN: &str = "aa8b4fdbcc3e9b7b0c0f4b7d0e4d0c32a7b6a2f3c1e8d9f0a1b2c3d4e5f6a7b8";

fn row(name: &str, sum: &str) -> String {
    format!(
        "<tr><td class=\"filename\"><a class=\"download\" href=\"/dl/{name}\">{name}</a></td>\
         <td>Archive</td><td>Linux</td><td>x86-64</td><td>65MB</td><td><tt>{sum}</tt></td></tr>"
    )
}

fn section(class: &str, id: Option<&str>, rows: &[String]) -> String {
    let id_attr = match id {
        Some(id) => format!(" id=\"{id}\""),
        None => String::new(),
    };
    format!(
        "<div class=\"{class}\"{id_attr}><table class=\"downloadtable\"><thead><tr><th>File name</th></tr></thead><tbody>{}</tbody></table></div>",
        rows.concat()
    )
}

fn page() -> String {
    let mut body = String::new();
    body.push_str(&section(
        "toggleVisible",
        Some("go1.22.0"),
        &[row("go1.22.0.linux-amd64.tar.gz", SUM_LINUX), row("go1.22.0.windows-386.zip", SUM_WIN)],
    ));
    body.push_str(&section("toggle", Some("go1.21.7"), &[row("go1.21.7.linux-amd64.tar.gz", SUM_LINUX)]));
    body.push_str(&section("toggle", Some("go1.22rc2"), &[row("go1.22rc2.linux-amd64.tar.gz", SUM_LINUX)]));
    body.push_str(&section("toggle", Some("go1.21beta1"), &[row("go1.21beta1.linux-amd64.tar.gz", SUM_LINUX)]));
    body.push_str(&section("toggle", None, &[row("go1.1.linux-amd64.tar.gz", SUM_LINUX)]));
    format!("<html><head><title>Downloads</title></head><body>{body}</body></html>")
}

fn sorted(mut v: Vec<String>) -> Vec<String> {
    v.sort();
    v
}

#[test]
fn page_lists_stable_versions_only() {
    let list = parse_release_page(&page());
    assert_eq!(sorted(list.versions()), vec!["1.21.7".to_string(), "1.22.0".to_string()]);
    assert!(list.contains_version("1.22.0"));
    assert!(!list.contains_version("1.22rc2"));
    assert!(!list.contains_version("1.21beta1"));
    assert!(!list.contains_version("1.1"));
}

#[test]
fn page_packages_are_read_from_the_table() {
    let list = parse_release_page(&page());
    let packages = list.get("1.22.0").expect("1.22.0 is offered");
    assert_eq!(packages.len(), 2);
    assert_eq!(packages[0].file_name, "go1.22.0.linux-amd64.tar.gz");
    assert_eq!(packages[0].path, "/dl/go1.22.0.linux-amd64.tar.gz");
    assert_eq!(packages[0].sha256_checksum, SUM_LINUX);
    assert_eq!(packages[1].file_name, "go1.22.0.windows-386.zip");
    assert_eq!(packages[1].sha256_checksum, SUM_WIN);
    assert_eq!(list.get("1.21.7").expect("1.21.7 is offered").len(), 1);
}

#[test]
fn page_without_sections_is_empty() {
    let list = parse_release_page("<html><body><p>nothing here</p></body></html>");
    assert!(list.versions().is_empty());
    let list = parse_release_page("");
    assert!(list.versions().is_empty());
}

#[test]
fn stable_ids() {
    assert!(is_stable_release("go1.21.0"));
    assert!(!is_stable_release("go1.22rc1"));
    assert!(!is_stable_release("go1.21beta2"));
}

#[test]
fn versions_from_ids() {
    assert_eq!(release_version("go1.21.0"), "1.21.0");
    assert_eq!(release_version("  go1.21.0\n"), "1.21.0");
    assert_eq!(release_version("1.9"), "1.9");
}

fn raw_row(name: &str, href: Option<&str>, sum: &str) -> RawRow {
    RawRow { file_name: name.to_string(), href: href.map(|h| h.to_string()), checksum: sum.to_string() }
}

fn raw_section(id: Option<&str>, rows: Vec<RawRow>) -> RawSection {
    RawSection { id: id.map(|i| i.to_string()), rows }
}

#[test]
fn row_without_link_has_empty_path() {
    let p = package_from_row(&raw_row("go1.2.src.tar.gz", None, "ab"));
    assert_eq!(p.path, "");
    assert_eq!(p.file_name, "go1.2.src.tar.gz");
    assert_eq!(p.sha256_checksum, "ab");
    let ps = packages_from_rows(&vec![raw_row("a", Some("/a"), "1"), raw_row("b", Some("/b"), "2")]);
    assert_eq!(ps.len(), 2);
    assert_eq!(ps[1].path, "/b");
}

#[test]
fn later_section_of_a_version_wins() {
    let sections = vec![
        raw_section(Some("go1.20"), vec![raw_row("first", Some("/first"), "1")]),
        raw_section(Some("go1.20"), vec![raw_row("second", Some("/second"), "2")]),
        raw_section(Some("go1.20rc1"), vec![raw_row("rc", Some("/rc"), "3")]),
        raw_section(None, vec![raw_row("none", Some("/none"), "4")]),
    ];
    let list = collect_releases(&sections);
    assert_eq!(list.versions(), vec!["1.20".to_string()]);
    let packages = list.get("1.20").unwrap();
    assert_eq!(packages.len(), 1);
    assert_eq!(packages[0].file_name, "second");
}

#[test]
fn insert_then_get() {
    let mut list = PackageList::new();
    assert!(list.get("1.2").is_none());
    list.insert("1.2".to_string(), vec![PackageInfo::new("a".to_string(), "/a".to_string(), "x".to_string())]);
    list.insert("1.3".to_string(), vec![]);
    list.insert("1.2".to_string(), vec![
        PackageInfo::new("b".to_string(), "/b".to_string(), "y".to_string()),
        PackageInfo::new("c".to_string(), "/c".to_string(), "z".to_string()),
    ]);
    let got = list.get("1.2").unwrap();
    assert_eq!(got.len(), 2);
    assert_eq!(got[0].file_name, "b");
    assert_eq!(list.get("1.3").unwrap().len(), 0);
    assert_eq!(sorted(list.versions()), vec!["1.2".to_string(), "1.3".to_string()]);
}

#[test]
fn package_info_new_keeps_fields() {
    let p = PackageInfo::new("f".to_string(), "/p".to_string(), "s".to_string());
    assert_eq!(p.file_name, "f");
    assert_eq!(p.path, "/p");
    assert_eq!(p.sha256_checksum, "s");
}

#[test]
fn go_download_page_layout() {
    let q = release_table(".toggle");
    assert_eq!(q.section, ".toggle");
    assert_eq!(q.id_attribute, "id");
    assert_eq!(q.body, "tbody");
    assert_eq!(q.row, "tr");
    assert_eq!(q.cell, "td");
    assert_eq!(q.link, "a");
    assert_eq!(q.link_target, "href");
    assert_eq!(q.checksum, "tt");
}

#[test]
fn insert_then_contains_and_get_other_versions_kept() {
    let mut list = PackageList::new();
    list.insert("1.2".to_string(), vec![PackageInfo::new("a".to_string(), "/a".to_string(), "x".to_string())]);
    list.insert("1.3".to_string(), vec![PackageInfo::new("b".to_string(), "/b".to_string(), "y".to_string())]);
    assert!(list.contains_version("1.3"));
    assert_eq!(list.get("1.3").unwrap()[0].file_name, "b");
    assert!(list.contains_version("1.2"));
    assert_eq!(list.get("1.2").unwrap()[0].file_name, "a");
    assert!(!list.contains_version("1.4"));
}
