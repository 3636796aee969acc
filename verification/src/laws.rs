//! Properties that hold across the library's functions.
use vstd::prelude::*;
use crate::archive::{is_separator, split_path};
use crate::commands::{find_named, install_dir_name, version_of_dir_name};
use crate::platform::{ArchiveFormat, archive_file_name, archive_suffix};
use crate::release::{
    PackageList, RowView, package_of_row,
    PackageView, SectionView, is_stable_release_id, names_stable_version, packages_of_rows, releases_of, version_of_id,
};
use crate::text::{seq_contains, without_go};

verus! {

/// Deleting "go" leaves a text that holds no "go" unchanged.
pub proof fn law_without_go_keeps_text_without_go(s: Seq<char>)
    requires
        !seq_contains(s, "go"@),
    ensures
        without_go(s) == s,
    decreases s.len(),
{
    reveal_strlit("go");
    if s.len() > 0 {
        if s.len() >= 2 && s[0] == 'g' && s[1] == 'o' {
            assert(s.subrange(0, 0 + "go"@.len() as int) =~= "go"@);
        }
        assert forall|i: int|
            0 <= i && i + "go"@.len() <= s.skip(1).len() implies #[trigger] s.skip(1).subrange(
            i,
            i + "go"@.len(),
        ) != "go"@ by {
            assert(s.skip(1).subrange(i, i + 2) =~= s.subrange(i + 1, i + 1 + 2));
        }
        law_without_go_keeps_text_without_go(s.skip(1));
        assert(s =~= seq![s[0]] + s.skip(1));
    }
}

/// A version whose text holds no "go" is found again, from the name of the
/// directory that `use` installs it in (and that the `go` link points to), by the
/// reading of `ls` and of the version in use; and `ls` marks it as current, since
/// every text contains itself.
pub proof fn law_installed_version_reads_back(v: Seq<char>)
    requires
        !seq_contains(v, "go"@),
    ensures
        version_of_dir_name(install_dir_name(v)) == v,
        seq_contains(version_of_dir_name(install_dir_name(v)), v),
{
    reveal_strlit("go");
    let name = install_dir_name(v);
    assert(name.len() >= 2 && name[0] == 'g' && name[1] == 'o');
    assert(name.skip(2) =~= v);
    law_without_go_keeps_text_without_go(v);
    assert(v.subrange(0, 0 + v.len() as int) =~= v);
}

/// Every version in the release list comes from a section whose id names a stable
/// release: ids that hold `rc` or `beta` never make it into the list.
pub proof fn law_listed_versions_are_stable(sections: Seq<SectionView>, version: Seq<char>)
    requires
        releases_of(sections).contains_key(version),
    ensures
        exists|i: int| 0 <= i < sections.len() && names_stable_version(#[trigger] sections[i], version),
    decreases sections.len(),
{
    let earlier = sections.drop_last();
    let last = sections.last();
    match last.id {
        Some(id) => {
            if is_stable_release_id(id) && version_of_id(id) == version {
                assert(sections[sections.len() - 1] == last);
                return;
            }
        },
        None => {},
    }
    law_listed_versions_are_stable(earlier, version);
    let i = choose|i: int| 0 <= i < earlier.len() && names_stable_version(#[trigger] earlier[i], version);
    assert(sections[i] == earlier[i]);
}

/// Every section whose id names a stable release puts its version in the list.
pub proof fn law_stable_sections_are_listed(sections: Seq<SectionView>, i: int)
    requires
        0 <= i < sections.len(),
        sections[i].id is Some,
        is_stable_release_id(sections[i].id->0),
    ensures
        releases_of(sections).contains_key(version_of_id(sections[i].id->0)),
    decreases sections.len(),
{
    if i < sections.len() - 1 {
        let earlier = sections.drop_last();
        assert(earlier[i] == sections[i]);
        law_stable_sections_are_listed(earlier, i);
    }
}

/// Where several stable sections name one version, the list holds the packages of
/// the last of them.
pub proof fn law_last_section_wins(sections: Seq<SectionView>, i: int)
    requires
        0 <= i < sections.len(),
        sections[i].id is Some,
        is_stable_release_id(sections[i].id->0),
        forall|j: int|
            i < j < sections.len() ==> !names_stable_version(
                #[trigger] sections[j],
                version_of_id(sections[i].id->0),
            ),
    ensures
        releases_of(sections)[version_of_id(sections[i].id->0)] == packages_of_rows(
            sections[i].rows,
        ),
    decreases sections.len(),
{
    if i < sections.len() - 1 {
        let earlier = sections.drop_last();
        assert(earlier[i] == sections[i]);
        assert forall|j: int| i < j < earlier.len() implies !names_stable_version(
            #[trigger] earlier[j],
            version_of_id(sections[i].id->0),
        ) by {
            assert(earlier[j] == sections[j]);
        }
        law_last_section_wins(earlier, i);
        assert(sections[sections.len() - 1] == sections.last());
    }
}

/// The archive extension chosen for an operating system decides how the archive
/// is unpacked: zip archives on Windows, gzip-compressed tar archives elsewhere.
pub proof fn law_suffix_selects_format(target_os: Seq<char>)
    ensures
        (if archive_suffix(target_os) == "tar.gz"@ {
            ArchiveFormat::TarGz
        } else {
            ArchiveFormat::Zip
        }) == (if target_os == "windows"@ {
            ArchiveFormat::Zip
        } else {
            ArchiveFormat::TarGz
        }),
{
    reveal_strlit("zip");
    reveal_strlit("tar.gz");
    assert("zip"@ != "tar.gz"@) by {
        assert("zip"@.len() != "tar.gz"@.len());
    }
}

/// Reading a release list back after `PackageList::insert`: `contains_version`
/// then answers `true` for the inserted version and `get` gives exactly its new
/// packages; the list offers the versions it offered before and this one, no
/// other; and for every other version `contains_version` and `get` answer as they
/// did before. (`after` is a list that `insert(version, packages)` left behind, as
/// its `ensures` describes it.)
pub proof fn law_read_after_insert(
    before: PackageList,
    after: PackageList,
    version: Seq<char>,
    packages: Seq<PackageView>,
    other: Seq<char>,
)
    requires
        before.wf(),
        after.wf(),
        after@ == before@.insert(version, packages),
    ensures
        after@.contains_key(version),
        after@[version] == packages,
        after@.dom() == before@.dom().insert(version),
        other != version ==> (after@.contains_key(other) == before@.contains_key(other)),
        other != version && before@.contains_key(other) ==> after@[other] == before@[other],
{
    assert(after@.dom() =~= before@.dom().insert(version));
}

/// Looking up a package by file name finds one exactly when some package of the
/// release has that name, and then it is the earliest such package: every package
/// is searched, the last one included, and none before it is skipped.
pub proof fn law_find_named_is_first_match(packages: Seq<PackageView>, name: Seq<char>)
    ensures
        (find_named(packages, name) is Some) <==> (exists|i: int|
            0 <= i < packages.len() && (#[trigger] packages[i]).file_name == name),
        find_named(packages, name) matches Some(p) ==> exists|k: int|
            0 <= k < packages.len() && p == #[trigger] packages[k] && packages[k].file_name == name
                && forall|j: int| 0 <= j < k ==> (#[trigger] packages[j]).file_name != name,
    decreases packages.len(),
{
    if packages.len() > 0 {
        if packages[0].file_name == name {
            assert(packages[0].file_name == name);
        } else {
            let rest = packages.skip(1);
            law_find_named_is_first_match(rest, name);
            if exists|i: int| 0 <= i < packages.len() && (#[trigger] packages[i]).file_name == name {
                let i = choose|i: int| 0 <= i < packages.len() && (#[trigger] packages[i]).file_name == name;
                assert(rest[i - 1] == packages[i]);
            }
            if exists|i: int| 0 <= i < rest.len() && (#[trigger] rest[i]).file_name == name {
                let i = choose|i: int| 0 <= i < rest.len() && (#[trigger] rest[i]).file_name == name;
                assert(packages[i + 1] == rest[i]);
            }
            if find_named(rest, name) is Some {
                let k = choose|k: int|
                    0 <= k < rest.len() && find_named(rest, name)->0 == #[trigger] rest[k]
                        && rest[k].file_name == name && forall|j: int|
                        0 <= j < k ==> (#[trigger] rest[j]).file_name != name;
                assert(packages[k + 1] == rest[k]);
                assert forall|j: int| 0 <= j < k + 1 implies (#[trigger] packages[j]).file_name
                    != name by {
                    if j > 0 {
                        assert(packages[j] == rest[j - 1]);
                    }
                }
            }
        }
    }
}

/// A section id names a stable release exactly when no two neighbouring
/// characters of it spell `rc` and no four spell `beta`, whatever its length.
pub proof fn law_stable_ids_are_those_without_rc_or_beta(id: Seq<char>)
    ensures
        is_stable_release_id(id) <==> (forall|i: int|
            0 <= i && i + 1 < id.len() ==> !(#[trigger] id[i] == 'r' && id[i + 1] == 'c')) && (
        forall|i: int|
            0 <= i && i + 3 < id.len() ==> !(#[trigger] id[i] == 'b' && id[i + 1] == 'e' && id[i
                + 2] == 't' && id[i + 3] == 'a')),
{
    reveal_strlit("rc");
    reveal_strlit("beta");
    assert forall|i: int| 0 <= i && i + 2 <= id.len() implies (#[trigger] id.subrange(i, i + 2)
        == "rc"@) == (id[i] == 'r' && id[i + 1] == 'c') by {
        if id[i] == 'r' && id[i + 1] == 'c' {
            assert(id.subrange(i, i + 2) =~= "rc"@);
        }
        if id.subrange(i, i + 2) == "rc"@ {
            assert(id.subrange(i, i + 2)[0] == 'r' && id.subrange(i, i + 2)[1] == 'c');
        }
    }
    assert forall|i: int| 0 <= i && i + 4 <= id.len() implies (#[trigger] id.subrange(i, i + 4)
        == "beta"@) == (id[i] == 'b' && id[i + 1] == 'e' && id[i + 2] == 't' && id[i + 3] == 'a') by {
        if id[i] == 'b' && id[i + 1] == 'e' && id[i + 2] == 't' && id[i + 3] == 'a' {
            assert(id.subrange(i, i + 4) =~= "beta"@);
        }
        if id.subrange(i, i + 4) == "beta"@ {
            let w = id.subrange(i, i + 4);
            assert(w[0] == 'b' && w[1] == 'e' && w[2] == 't' && w[3] == 'a');
        }
    }
    if seq_contains(id, "rc"@) {
        let i = choose|i: int|
            0 <= i && i + "rc"@.len() <= id.len() && #[trigger] id.subrange(i, i + "rc"@.len())
                == "rc"@;
        assert(id[i] == 'r' && id[i + 1] == 'c');
    }
    if seq_contains(id, "beta"@) {
        let i = choose|i: int|
            0 <= i && i + "beta"@.len() <= id.len() && #[trigger] id.subrange(i, i + "beta"@.len())
                == "beta"@;
        assert(id[i] == 'b' && id[i + 1] == 'e' && id[i + 2] == 't' && id[i + 3] == 'a');
    }
    if exists|i: int| 0 <= i && i + 1 < id.len() && (#[trigger] id[i] == 'r' && id[i + 1] == 'c') {
        let i = choose|i: int| 0 <= i && i + 1 < id.len() && (#[trigger] id[i] == 'r' && id[i + 1] == 'c');
        assert(id.subrange(i, i + 2) == "rc"@);
    }
    if exists|i: int|
        0 <= i && i + 3 < id.len() && (#[trigger] id[i] == 'b' && id[i + 1] == 'e' && id[i + 2] == 't'
            && id[i + 3] == 'a') {
        let i = choose|i: int|
            0 <= i && i + 3 < id.len() && (#[trigger] id[i] == 'b' && id[i + 1] == 'e' && id[i + 2]
                == 't' && id[i + 3] == 'a');
        assert(id.subrange(i, i + 4) == "beta"@);
    }
}

/// Path components joined back with `/` between them.
pub open spec fn slash_separated(parts: Seq<Seq<char>>) -> Seq<char>
    decreases parts.len(),
{
    if parts.len() == 0 {
        Seq::<char>::empty()
    } else if parts.len() == 1 {
        parts[0]
    } else {
        slash_separated(parts.drop_last()) + seq!['/'] + parts.last()
    }
}

/// `s` with every `\` written as `/`.
pub open spec fn with_forward_slashes(s: Seq<char>) -> Seq<char> {
    s.map_values(|c: char| if c == '\\' { '/' } else { c })
}

/// Splitting a path cuts it at its separators and nowhere else: the components,
/// joined back with `/`, give the path with `\` written as `/`, and no component
/// holds a separator. So a path without separators is a single component.
pub proof fn law_split_path_cuts_only_at_separators(s: Seq<char>)
    ensures
        split_path(s).len() >= 1,
        slash_separated(split_path(s)) == with_forward_slashes(s),
        forall|i: int, j: int|
            0 <= i < split_path(s).len() && 0 <= j < split_path(s)[i].len() ==> !is_separator(
                #[trigger] split_path(s)[i][j],
            ),
    decreases s.len(),
{
    if s.len() == 0 {
        assert(with_forward_slashes(s) =~= Seq::<char>::empty());
    } else {
        let front = s.drop_last();
        let c = s.last();
        law_split_path_cuts_only_at_separators(front);
        let parts = split_path(front);
        let n = parts.len();
        assert(with_forward_slashes(s) =~= with_forward_slashes(front).push(
            if c == '\\' { '/' } else { c },
        ));
        if is_separator(c) {
            let now = parts.push(Seq::<char>::empty());
            assert(now.drop_last() =~= parts);
            assert(slash_separated(now) =~= slash_separated(parts) + seq!['/'] + Seq::<char>::empty());
            assert(slash_separated(now) =~= with_forward_slashes(s));
            assert forall|i: int, j: int|
                0 <= i < now.len() && 0 <= j < now[i].len() implies !is_separator(
                #[trigger] now[i][j],
            ) by {
                assert(now[i] == parts[i]);
            }
        } else {
            let now = parts.update(n - 1, parts.last().push(c));
            if n == 1 {
                assert(slash_separated(now) =~= slash_separated(parts).push(c));
            } else {
                assert(now.drop_last() =~= parts.drop_last());
                assert(slash_separated(now) =~= slash_separated(parts.drop_last()) + seq!['/']
                    + parts.last().push(c));
                assert(slash_separated(now) =~= slash_separated(parts).push(c));
            }
            assert forall|i: int, j: int|
                0 <= i < now.len() && 0 <= j < now[i].len() implies !is_separator(
                #[trigger] now[i][j],
            ) by {
                if i != n - 1 {
                    assert(now[i] == parts[i]);
                } else if j < parts[i].len() {
                    assert(now[i][j] == parts[i][j]);
                }
            }
        }
    }
}

/// The archive's file name holds its parts unchanged, in order: `go`, the
/// version text exactly as given, `.`, the os, `-`, the architecture, `.`, the
/// suffix, and nothing else.
pub proof fn law_archive_file_name_layout(
    version: Seq<char>,
    os: Seq<char>,
    arch: Seq<char>,
    suffix: Seq<char>,
)
    ensures
        ({
            let name = archive_file_name(version, os, arch, suffix);
            let a: int = 2 + version.len() as int;
            let b: int = a + 1 + os.len();
            let c: int = b + 1 + arch.len();
            &&& name.len() == c + 1 + suffix.len()
            &&& name[0] == 'g' && name[1] == 'o'
            &&& name.subrange(2, a) == version
            &&& name[a] == '.'
            &&& name.subrange(a + 1, b) == os
            &&& name[b] == '-'
            &&& name.subrange(b + 1, c) == arch
            &&& name[c] == '.'
            &&& name.subrange(c + 1, name.len() as int) == suffix
        }),
{
    reveal_strlit("go");
    reveal_strlit(".");
    reveal_strlit("-");
    let name = archive_file_name(version, os, arch, suffix);
    let a: int = 2 + version.len() as int;
    let b: int = a + 1 + os.len();
    let c: int = b + 1 + arch.len();
    assert(name.subrange(2, a) =~= version);
    assert(name.subrange(a + 1, b) =~= os);
    assert(name.subrange(b + 1, c) =~= arch);
    assert(name.subrange(c + 1, name.len() as int) =~= suffix);
}

/// A release table gives one package per row, every row, in table order.
pub proof fn law_one_package_per_row(rows: Seq<RowView>)
    ensures
        packages_of_rows(rows).len() == rows.len(),
        forall|i: int|
            0 <= i < rows.len() ==> #[trigger] packages_of_rows(rows)[i] == package_of_row(rows[i]),
{
}

} // verus!
