//! The decisions behind the commands `use`, `ls`, `ls-remote` and `rm`, and the
//! layout of the tool's home directory. The commands themselves read and change
//! the file system and the network; here is what they decide from what they find.
use vstd::prelude::*;
use crate::mirror::{join_url, mirror_url, parse_url, parsed_url};
use crate::platform::{archive_file_name, package_file_name};
use crate::release::{PackageInfo, PackageList, PackageView, packages_view};
use crate::text::{concat_str, seq_contains, str_contains, str_equal, strip_go, without_go};

verus! {

/// The directory under the home directory that holds archives and installed versions.
pub open spec fn packages_dir_name() -> Seq<char> {
    "packages"@
}

/// The name of the directory that holds an installed version: `go{version}`.
pub open spec fn install_dir_name(version: Seq<char>) -> Seq<char> {
    "go"@ + version
}

/// The version that a directory or link named `name` holds: the name without "go".
pub open spec fn version_of_dir_name(name: Seq<char>) -> Seq<char> {
    without_go(name)
}

/// A path relative to the home directory, by components.
pub open spec fn components_view(path: Seq<String>) -> Seq<Seq<char>> {
    path.map_values(|c: String| c@)
}

/// `packages/{file_name}`: where a downloaded archive is saved.
pub fn archive_path(file_name: &str) -> (path: Vec<String>)
    ensures
        components_view(path@) == seq![packages_dir_name(), file_name@],
{
    let path = vec![String::from_str("packages"), String::from_str(file_name)];
    assert(components_view(path@) =~= seq![packages_dir_name(), file_name@]);
    path
}

/// `packages/go{version}`: where a version is installed.
pub fn install_dir(version: &str) -> (path: Vec<String>)
    ensures
        components_view(path@) == seq![packages_dir_name(), install_dir_name(version@)],
{
    let path = vec![String::from_str("packages"), concat_str("go", version)];
    assert(components_view(path@) =~= seq![packages_dir_name(), install_dir_name(version@)]);
    path
}

/// `packages/go`: where an archive unpacks its `go` directory.
pub fn unpack_dir() -> (path: Vec<String>)
    ensures
        components_view(path@) == seq![packages_dir_name(), "go"@],
{
    let path = vec![String::from_str("packages"), String::from_str("go")];
    assert(components_view(path@) =~= seq![packages_dir_name(), "go"@]);
    path
}

/// `go`: the link to the version in use.
pub fn current_link() -> (path: Vec<String>)
    ensures
        components_view(path@) == seq!["go"@],
{
    let path = vec![String::from_str("go")];
    assert(components_view(path@) =~= seq!["go"@]);
    path
}

/// `go{version}`: the link that `rm` removes with the version in use.
pub fn version_link(version: &str) -> (path: Vec<String>)
    ensures
        components_view(path@) == seq![install_dir_name(version@)],
{
    let path = vec![concat_str("go", version)];
    assert(components_view(path@) =~= seq![install_dir_name(version@)]);
    path
}

/// The first package with the given file name, as `Iterator::find` picks it.
pub open spec fn find_named(packages: Seq<PackageView>, name: Seq<char>) -> Option<PackageView>
    decreases packages.len(),
{
    if packages.len() == 0 {
        None
    } else if packages[0].file_name == name {
        Some(packages[0])
    } else {
        find_named(packages.skip(1), name)
    }
}

/// The first package named `name`.
pub fn find_package<'a>(packages: &'a Vec<PackageInfo>, name: &str) -> (r: Option<&'a PackageInfo>)
    ensures
        match r {
            Some(p) => find_named(packages_view(packages@), name@) == Some(p@),
            None => find_named(packages_view(packages@), name@) is None,
        },
{
    let ghost all = packages_view(packages@);
    let mut i: usize = 0;
    assert(all.skip(0) =~= all);
    while i < packages.len()
        invariant
            all == packages_view(packages@),
            i <= packages.len(),
            find_named(all.skip(i as int), name@) == find_named(all, name@),
        decreases packages.len() - i,
    {
        assert(all.skip(i as int)[0] == packages[i as int]@);
        if str_equal(packages[i].file_name.as_str(), name) {
            return Some(&packages[i]);
        }
        assert(all.skip(i as int).skip(1) =~= all.skip(i + 1));
        i += 1;
    }
    assert(all.skip(i as int) =~= Seq::<PackageView>::empty());
    None
}

/// Why a version cannot be downloaded.
#[derive(Debug)]
pub enum InstallError {
    /// The mirror does not offer the version.
    VersionNotFound,
    /// The mirror is not a URL; the parser's message.
    InvalidMirror(String),
    /// The version offers no archive of this name for this platform.
    NoPackageForPlatform(String),
    /// The archive's path cannot be resolved against the mirror; the parser's message.
    InvalidPackagePath(String),
}

/// What to download to install a version: the archive's file name, its URL and
/// its published checksum.
pub struct DownloadPlan {
    pub file_name: String,
    pub url: String,
    pub sha256_checksum: String,
}

/// An entry of the packages directory: its name and whether it is a directory.
pub struct LocalEntry {
    pub name: String,
    pub is_dir: bool,
}

impl LocalEntry {
    /// The entry is a directory whose name holds "go".
    pub open spec fn is_version_dir(&self) -> bool {
        self.is_dir && seq_contains(self.name@, "go"@)
    }

    /// The entry is an installed version's directory and holds version `v`.
    pub open spec fn holds_version(&self, v: Seq<char>) -> bool {
        &&& self.is_dir
        &&& seq_contains(self.name@, "go"@)
        &&& version_of_dir_name(self.name@) == v
    }
}

/// Some entry is an installed version's directory holding version `v`.
pub open spec fn some_entry_holds(entries: Seq<LocalEntry>, v: Seq<char>) -> bool {
    exists|j: int| 0 <= j < entries.len() && #[trigger] entries[j].holds_version(v)
}

/// A line of `ls`: an installed version and whether it is the one in use.
pub struct ListedVersion {
    pub version: String,
    pub current: bool,
}

/// What `rm` removes.
pub struct RemovePlan {
    /// Remove the saved archive.
    pub remove_archive: bool,
    /// The version is not installed: report it and stop.
    pub not_installed: bool,
    /// Remove the version's directory.
    pub remove_dir: bool,
    /// Remove the link `go{version}` too.
    pub remove_link: bool,
}

/// Whether some string in `v` is `s`.
pub fn contains_text(v: &Vec<String>, s: &str) -> (r: bool)
    ensures
        r == exists|i: int| 0 <= i < v.len() && #[trigger] v[i]@ == s@,
{
    let mut i: usize = 0;
    while i < v.len()
        invariant
            i <= v.len(),
            forall|j: int| 0 <= j < i ==> #[trigger] v[j]@ != s@,
        decreases v.len() - i,
    {
        if str_equal(v[i].as_str(), s) {
            return true;
        }
        i += 1;
    }
    false
}

/// The command decisions of the version manager.
pub struct CommandAction {}

impl CommandAction {
    /// The version in use, from the name of the directory that the `go` link points
    /// to (`None` where there is no such link): the name without "go", or the
    /// empty text.
    pub fn current_version(link_target: Option<&str>) -> (version: String)
        ensures
            version@ == match link_target {
                Some(name) => version_of_dir_name(name@),
                None => Seq::<char>::empty(),
            },
    {
        match link_target {
            Some(name) => strip_go(name),
            None => String::new(),
        }
    }

    /// What `use` downloads for `version` on the platform `os`/`arch` with archives
    /// ending in `suffix`, from the releases `list` of `mirror`: the first package
    /// named `go{version}.{os}-{arch}.{suffix}`, at its path resolved against the
    /// mirror. The steps and their failures come in this order: the version must be
    /// offered, the mirror must be a URL, the package must exist, its path must
    /// resolve.
    pub fn download_plan(
        list: &PackageList,
        version: &str,
        mirror: &str,
        os: &str,
        arch: &str,
        suffix: &str,
    ) -> (r: Result<DownloadPlan, InstallError>)
        requires
            list.wf(),
        ensures
            ({
                let name = archive_file_name(version@, os@, arch@, suffix@);
                match r {
                    Ok(plan) => {
                        &&& list@.contains_key(version@)
                        &&& find_named(list@[version@], name) matches Some(p)
                        &&& mirror_url(mirror@, p.path) == Some(plan.url@)
                        &&& plan.file_name@ == name
                        &&& plan.sha256_checksum@ == p.sha256_checksum
                    },
                    Err(InstallError::VersionNotFound) => !list@.contains_key(version@),
                    Err(InstallError::InvalidMirror(_)) => {
                        &&& list@.contains_key(version@)
                        &&& parsed_url(mirror@) is None
                    },
                    Err(InstallError::NoPackageForPlatform(n)) => {
                        &&& list@.contains_key(version@)
                        &&& parsed_url(mirror@) is Some
                        &&& find_named(list@[version@], name) is None
                        &&& n@ == name
                    },
                    Err(InstallError::InvalidPackagePath(_)) => {
                        &&& list@.contains_key(version@)
                        &&& parsed_url(mirror@) is Some
                        &&& find_named(list@[version@], name) matches Some(p)
                        &&& mirror_url(mirror@, p.path) is None
                    },
                }
            }),
    {
        let packages = match list.get(version) {
            Some(p) => p,
            None => return Err(InstallError::VersionNotFound),
        };
        let file_name = package_file_name(version, os, arch, suffix);
        let base = match parse_url(mirror) {
            Ok(b) => b,
            Err(e) => return Err(InstallError::InvalidMirror(e)),
        };
        match find_package(packages, file_name.as_str()) {
            None => Err(InstallError::NoPackageForPlatform(file_name)),
            Some(p) => match join_url(base.as_str(), p.path.as_str()) {
                Ok(url) => Ok(
                    DownloadPlan {
                        file_name,
                        url,
                        sha256_checksum: p.sha256_checksum.clone(),
                    },
                ),
                Err(e) => Err(InstallError::InvalidPackagePath(e)),
            },
        }
    }

    /// The installed versions, from the entries of the packages directory: every
    /// directory whose name holds "go" contributes its name without "go"; each
    /// version is listed once.
    pub fn local_version(entries: &Vec<LocalEntry>) -> (versions: Vec<String>)
        ensures
            forall|i: int, j: int|
                0 <= i < versions.len() && 0 <= j < versions.len() && i != j ==> versions[i]@
                    != versions[j]@,
            forall|i: int|
                0 <= i < versions.len() ==> some_entry_holds(entries@, #[trigger] versions[i]@),
            forall|j: int|
                0 <= j < entries.len() && (#[trigger] entries[j]).is_version_dir() ==> exists|i: int|
                    0 <= i < versions.len() && #[trigger] versions[i]@ == version_of_dir_name(
                        entries[j].name@,
                    ),
    {
        let mut versions: Vec<String> = Vec::new();
        let ghost mut source: Seq<int> = Seq::empty();
        let mut i: usize = 0;
        while i < entries.len()
            invariant
                i <= entries.len(),
                source.len() == versions.len(),
                forall|a: int, b: int|
                    0 <= a < versions.len() && 0 <= b < versions.len() && a != b
                        ==> versions[a]@ != versions[b]@,
                forall|a: int|
                    0 <= a < versions.len() ==> 0 <= #[trigger] source[a] < i && entries[source[a]].holds_version(
                        versions[a]@,
                    ),
                forall|j: int|
                    0 <= j < i && (#[trigger] entries[j]).is_version_dir() ==> exists|a: int|
                        0 <= a < versions.len() && #[trigger] versions[a]@ == version_of_dir_name(
                            entries[j].name@,
                        ),
            decreases entries.len() - i,
        {
            let ghost before = versions@;
            let entry = &entries[i];
            if entry.is_dir && str_contains(entry.name.as_str(), "go") {
                let v = strip_go(entry.name.as_str());
                if !contains_text(&versions, v.as_str()) {
                    versions.push(v);
                    proof {
                        source = source.push(i as int);
                    }
                    assert(versions[versions.len() - 1]@ == v@);
                }
            }
            assert forall|j: int|
                0 <= j < i + 1 && (#[trigger] entries[j]).is_version_dir() implies exists|a: int|
                0 <= a < versions.len() && #[trigger] versions[a]@ == version_of_dir_name(
                    entries[j].name@,
                ) by {
                if j < i {
                    let a = choose|a: int|
                        0 <= a < before.len() && #[trigger] before[a]@ == version_of_dir_name(
                            entries[j].name@,
                        );
                    assert(versions[a]@ == before[a]@);
                }
            }
            i += 1;
        }
        assert forall|a: int| 0 <= a < versions.len() implies some_entry_holds(
            entries@,
            #[trigger] versions[a]@,
        ) by {
            assert(entries[source[a]].holds_version(versions[a]@));
        }
        versions
    }

    /// The lines of `ls`: each installed version in order, marked as current where
    /// the current version's text contains it.
    pub fn list(local: &Vec<String>, current: &str) -> (lines: Vec<ListedVersion>)
        ensures
            lines.len() == local.len(),
            forall|i: int|
                0 <= i < lines.len() ==> {
                    &&& (#[trigger] lines[i]).version@ == local[i]@
                    &&& lines[i].current == seq_contains(current@, local[i]@)
                },
    {
        let mut lines: Vec<ListedVersion> = Vec::new();
        let mut i: usize = 0;
        while i < local.len()
            invariant
                i <= local.len(),
                lines.len() == i,
                forall|j: int|
                    0 <= j < i ==> {
                        &&& (#[trigger] lines[j]).version@ == local[j]@
                        &&& lines[j].current == seq_contains(current@, local[j]@)
                    },
            decreases local.len() - i,
        {
            let current_here = str_contains(current, local[i].as_str());
            lines.push(ListedVersion { version: local[i].clone(), current: current_here });
            i += 1;
        }
        lines
    }

    /// What `rm` does for `version`, given the version in use, whether its archive
    /// is saved and whether it is installed: the archive goes first if it is there;
    /// a version that is not installed is reported and nothing more is removed;
    /// else its directory is removed, and with the version in use also the link
    /// `go{version}`.
    pub fn remove_plan(version: &str, current: &str, archive_exists: bool, installed: bool) -> (plan:
        RemovePlan)
        ensures
            plan.remove_archive == archive_exists,
            plan.not_installed == !installed,
            plan.remove_dir == installed,
            plan.remove_link == (installed && current@ == version@),
    {
        let in_use = str_equal(current, version);
        RemovePlan {
            remove_archive: archive_exists,
            not_installed: !installed,
            remove_dir: installed,
            remove_link: installed && in_use,
        }
    }
}

} // verus!
