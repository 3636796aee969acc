//! The Go releases offered by a download page: what is read from the page, and
//! the list of versions, each with its downloadable packages, built from it.
use vstd::prelude::*;
use crate::text::{
    seq_contains, str_contains, str_equal, strip_go, trim, trimmed, without_go,
};

verus! {

/// One row of a release table as plain text.
pub struct RowView {
    pub file_name: Seq<char>,
    pub href: Option<Seq<char>>,
    pub checksum: Seq<char>,
}

/// One release section of the page as plain text.
pub struct SectionView {
    pub id: Option<Seq<char>>,
    pub rows: Seq<RowView>,
}

/// The text of an optional string.
pub open spec fn opt_view(o: Option<String>) -> Option<Seq<char>> {
    match o {
        Some(s) => Some(s@),
        None => None,
    }
}

/// One row of a release table: the text of its links (the archive's file name),
/// the target of its first link, and the text of its `tt` cells (the checksum).
pub struct RawRow {
    pub file_name: String,
    pub href: Option<String>,
    pub checksum: String,
}

impl View for RawRow {
    type V = RowView;

    open spec fn view(&self) -> RowView {
        RowView { file_name: self.file_name@, href: opt_view(self.href), checksum: self.checksum@ }
    }
}

/// One release section of the page: its `id` attribute and the rows of its table.
pub struct RawSection {
    pub id: Option<String>,
    pub rows: Vec<RawRow>,
}

impl View for RawSection {
    type V = SectionView;

    open spec fn view(&self) -> SectionView {
        SectionView { id: opt_view(self.id), rows: self.rows@.map_values(|r: RawRow| r@) }
    }
}

/// The sections of a page, as plain text.
pub open spec fn sections_view(sections: Seq<RawSection>) -> Seq<SectionView> {
    sections.map_values(|s: RawSection| s@)
}

/// Where the release tables stand in a page: the CSS selector of a release
/// section, the attribute that holds its id, the selectors of its table body, of
/// the body's rows and of a row's cells, the selector of the link in a cell and
/// the attribute that holds its target, and the selector of the checksum in a cell.
pub struct TableQueryView {
    pub section: Seq<char>,
    pub id_attribute: Seq<char>,
    pub body: Seq<char>,
    pub row: Seq<char>,
    pub cell: Seq<char>,
    pub link: Seq<char>,
    pub link_target: Seq<char>,
    pub checksum: Seq<char>,
}

/// Where the release tables stand in a page.
pub struct TableQuery {
    pub section: String,
    pub id_attribute: String,
    pub body: String,
    pub row: String,
    pub cell: String,
    pub link: String,
    pub link_target: String,
    pub checksum: String,
}

impl View for TableQuery {
    type V = TableQueryView;

    open spec fn view(&self) -> TableQueryView {
        TableQueryView {
            section: self.section@,
            id_attribute: self.id_attribute@,
            body: self.body@,
            row: self.row@,
            cell: self.cell@,
            link: self.link@,
            link_target: self.link_target@,
            checksum: self.checksum@,
        }
    }
}

/// The layout of a Go download page: sections matched by `section` carry the
/// version in `id`; each row of their `tbody` has `td` cells, the archive's link
/// `a` with its `href`, and the checksum in `tt`.
pub open spec fn release_table_query(section: Seq<char>) -> TableQueryView {
    TableQueryView {
        section: section,
        id_attribute: "id"@,
        body: "tbody"@,
        row: "tr"@,
        cell: "td"@,
        link: "a"@,
        link_target: "href"@,
        checksum: "tt"@,
    }
}

/// The layout of a Go download page, for the sections that `section` matches.
pub fn release_table(section: &str) -> (q: TableQuery)
    ensures
        q@ == release_table_query(section@),
{
    TableQuery {
        section: String::from_str(section),
        id_attribute: String::from_str("id"),
        body: String::from_str("tbody"),
        row: String::from_str("tr"),
        cell: String::from_str("td"),
        link: String::from_str("a"),
        link_target: String::from_str("href"),
        checksum: String::from_str("tt"),
    }
}

/// What dom_query reads from the HTML text `html` with the query `q`: for each
/// element that `q.section` matches, in document order, its `q.id_attribute`
/// attribute and, for each `q.row` under one of its `q.body` elements, the text of
/// the `q.link` elements in the row's `q.cell` cells, the `q.link_target` attribute
/// of the first of them, and the text of the `q.checksum` elements in those cells.
/// A selector that dom_query cannot read matches nothing.
pub uninterp spec fn html_sections(html: Seq<char>, q: TableQueryView) -> Seq<SectionView>;

/// Parses `html` with `dom_query::Document::from` and reads, through
/// `Document::try_select`, `Selection::try_select`, `Selection::iter`,
/// `Selection::attr` and `Selection::text`, the sections that the query
/// describes. `try_select` gives `None` where a selector matches nothing or cannot
/// be read, and that is taken as the empty selection, as `select` would give it
/// (`select` panics on a selector that it cannot read). The contract claims only
/// that the result is `html_sections(html, q)`, the same for the same arguments:
/// what the parser makes of the page is not stated.
#[verifier::external_body]
fn scrape_sections(html: &str, q: &TableQuery) -> (sections: Vec<RawSection>)
    ensures
        sections_view(sections@) == html_sections(html@, q@),
{
    let doc = dom_query::Document::from(html);
    doc.try_select(&q.section).unwrap_or_default().iter().map(|e| RawSection {
        id: e.attr(&q.id_attribute).map(String::from),
        rows: e.try_select(&q.body).unwrap_or_default().try_select(&q.row).unwrap_or_default()
            .iter().map(|r| {
                let cells = r.try_select(&q.cell).unwrap_or_default();
                let link = cells.try_select(&q.link).unwrap_or_default();
                RawRow {
                    file_name: link.text().into(),
                    href: link.attr(&q.link_target).map(String::from),
                    checksum: cells.try_select(&q.checksum).unwrap_or_default().text().into(),
                }
            }).collect(),
    }).collect()
}

/// An archive that a release offers: where it is on the mirror, its file name and
/// its SHA-256 checksum in hexadecimal.
pub struct PackageView {
    pub path: Seq<char>,
    pub file_name: Seq<char>,
    pub sha256_checksum: Seq<char>,
}

/// An archive that a release offers.
pub struct PackageInfo {
    pub path: String,
    pub file_name: String,
    pub sha256_checksum: String,
}

impl View for PackageInfo {
    type V = PackageView;

    open spec fn view(&self) -> PackageView {
        PackageView {
            path: self.path@,
            file_name: self.file_name@,
            sha256_checksum: self.sha256_checksum@,
        }
    }
}

impl PackageInfo {
    /// A package with the given file name, path and checksum.
    pub fn new(file_name: String, path: String, sha256: String) -> (p: Self)
        ensures
            p@ == (PackageView { path: path@, file_name: file_name@, sha256_checksum: sha256@ }),
    {
        PackageInfo { file_name, path, sha256_checksum: sha256 }
    }
}

/// The packages, as plain text.
pub open spec fn packages_view(packages: Seq<PackageInfo>) -> Seq<PackageView> {
    packages.map_values(|p: PackageInfo| p@)
}

/// A section's id names a release candidate or a beta when it holds `rc` or `beta`.
pub open spec fn is_stable_release_id(id: Seq<char>) -> bool {
    !seq_contains(id, "rc"@) && !seq_contains(id, "beta"@)
}

/// The version that a section id names: the id without surrounding white space and
/// without "go".
pub open spec fn version_of_id(id: Seq<char>) -> Seq<char> {
    without_go(trimmed(id))
}

/// The package that a table row describes; a row without a link target has the
/// empty path.
pub open spec fn package_of_row(r: RowView) -> PackageView {
    PackageView {
        path: match r.href {
            Some(h) => h,
            None => Seq::empty(),
        },
        file_name: r.file_name,
        sha256_checksum: r.checksum,
    }
}

/// The packages that a release table describes, in table order.
pub open spec fn packages_of_rows(rows: Seq<RowView>) -> Seq<PackageView> {
    rows.map_values(|r: RowView| package_of_row(r))
}

/// The section's id names a stable release of version `v`.
pub open spec fn names_stable_version(s: SectionView, v: Seq<char>) -> bool {
    match s.id {
        Some(id) => is_stable_release_id(id) && version_of_id(id) == v,
        None => false,
    }
}

/// The releases that a sequence of sections describes: each section with an id
/// that names a stable release maps its version to the packages of its table;
/// where two sections name one version, the later one wins.
pub open spec fn releases_of(sections: Seq<SectionView>) -> Map<Seq<char>, Seq<PackageView>>
    decreases sections.len(),
{
    if sections.len() == 0 {
        Map::empty()
    } else {
        let earlier = releases_of(sections.drop_last());
        let s = sections.last();
        match s.id {
            Some(id) => if is_stable_release_id(id) {
                earlier.insert(version_of_id(id), packages_of_rows(s.rows))
            } else {
                earlier
            },
            None => earlier,
        }
    }
}

/// Whether a section id names a stable release, neither a release candidate nor
/// a beta.
pub fn is_stable_release(id: &str) -> (r: bool)
    ensures
        r == is_stable_release_id(id@),
{
    !str_contains(id, "rc") && !str_contains(id, "beta")
}

/// The version that a section id names.
pub fn release_version(id: &str) -> (version: String)
    ensures
        version@ == version_of_id(id@),
{
    strip_go(trim(id))
}

fn copy_string(s: &String) -> (r: String)
    ensures
        r@ == s@,
{
    s.clone()
}

/// The package that a table row describes.
pub fn package_from_row(row: &RawRow) -> (p: PackageInfo)
    ensures
        p@ == package_of_row(row@),
{
    let path = match &row.href {
        Some(h) => copy_string(h),
        None => String::new(),
    };
    PackageInfo::new(copy_string(&row.file_name), path, copy_string(&row.checksum))
}

/// The packages that a release table describes.
pub fn packages_from_rows(rows: &Vec<RawRow>) -> (packages: Vec<PackageInfo>)
    ensures
        packages_view(packages@) == packages_of_rows(rows@.map_values(|r: RawRow| r@)),
{
    let mut packages: Vec<PackageInfo> = Vec::new();
    let mut i: usize = 0;
    while i < rows.len()
        invariant
            i <= rows.len(),
            packages.len() == i,
            forall|j: int| 0 <= j < i ==> #[trigger] packages[j]@ == package_of_row(rows[j]@),
        decreases rows.len() - i,
    {
        let p = package_from_row(&rows[i]);
        packages.push(p);
        i += 1;
    }
    assert(packages_view(packages@) =~= packages_of_rows(rows@.map_values(|r: RawRow| r@)));
    packages
}

/// A Go version and the packages that it offers.
pub struct Release {
    pub version: String,
    pub packages: Vec<PackageInfo>,
}

/// The releases offered by a mirror, by version; no version occurs twice.
pub struct PackageList {
    releases: Vec<Release>,
}

impl View for PackageList {
    type V = Map<Seq<char>, Seq<PackageView>>;

    closed spec fn view(&self) -> Map<Seq<char>, Seq<PackageView>> {
        Map::new(
            |k: Seq<char>| exists|i: int| 0 <= i < self.releases.len() && self.releases[i].version@ == k,
            |k: Seq<char>|
                {
                    let i = choose|i: int|
                        0 <= i < self.releases.len() && self.releases[i].version@ == k;
                    packages_view(self.releases[i].packages@)
                },
        )
    }
}

impl PackageList {
    /// No version occurs twice.
    pub closed spec fn wf(&self) -> bool {
        forall|i: int, j: int|
            0 <= i < self.releases.len() && 0 <= j < self.releases.len() && i != j
                ==> self.releases[i].version@ != self.releases[j].version@
    }

    proof fn lemma_entry(&self, i: int)
        requires
            self.wf(),
            0 <= i < self.releases.len(),
        ensures
            self@.contains_key(self.releases[i].version@),
            self@[self.releases[i].version@] == packages_view(self.releases[i].packages@),
    {
        let k = self.releases[i].version@;
        assert(self@.contains_key(k));
        let j = choose|j: int| 0 <= j < self.releases.len() && self.releases[j].version@ == k;
        assert(j == i);
    }

    /// The empty list.
    pub fn new() -> (list: Self)
        ensures
            list.wf(),
            list@ == Map::<Seq<char>, Seq<PackageView>>::empty(),
    {
        let list = PackageList { releases: Vec::new() };
        assert(list@ =~= Map::<Seq<char>, Seq<PackageView>>::empty());
        list
    }

    /// Where `version` stands in the list, if it is there.
    fn index_of(&self, version: &str) -> (r: Option<usize>)
        requires
            self.wf(),
        ensures
            match r {
                Some(i) => i < self.releases.len() && self.releases[i as int].version@ == version@,
                None => forall|i: int|
                    0 <= i < self.releases.len() ==> self.releases[i].version@ != version@,
            },
    {
        let mut i: usize = 0;
        while i < self.releases.len()
            invariant
                i <= self.releases.len(),
                forall|j: int| 0 <= j < i ==> self.releases[j].version@ != version@,
            decreases self.releases.len() - i,
        {
            if str_equal(self.releases[i].version.as_str(), version) {
                return Some(i);
            }
            i += 1;
        }
        None
    }

    /// Whether the list offers `version`.
    pub fn contains_version(&self, version: &str) -> (r: bool)
        requires
            self.wf(),
        ensures
            r == self@.contains_key(version@),
    {
        match self.index_of(version) {
            Some(i) => {
                proof {
                    self.lemma_entry(i as int);
                }
                true
            },
            None => false,
        }
    }

    /// The packages of `version`, if the list offers it.
    pub fn get(&self, version: &str) -> (r: Option<&Vec<PackageInfo>>)
        requires
            self.wf(),
        ensures
            match r {
                Some(p) => self@.contains_key(version@) && packages_view(p@) == self@[version@],
                None => !self@.contains_key(version@),
            },
    {
        match self.index_of(version) {
            Some(i) => {
                proof {
                    self.lemma_entry(i as int);
                }
                Some(&self.releases[i].packages)
            },
            None => None,
        }
    }

    /// Sets the packages of `version`, replacing what the list held for it.
    pub fn insert(&mut self, version: String, packages: Vec<PackageInfo>)
        requires
            old(self).wf(),
        ensures
            final(self).wf(),
            final(self)@ == old(self)@.insert(version@, packages_view(packages@)),
    {
        let ghost old_list = *self;
        let ghost k = version@;
        let ghost v = packages_view(packages@);
        match self.index_of(version.as_str()) {
            Some(i) => {
                self.releases.set(i, Release { version, packages });
                assert(self.wf());
                assert forall|key: Seq<char>|
                    #![trigger self@.contains_key(key)]
                    #![trigger old_list@.insert(k, v).contains_key(key)]
                    self@.contains_key(key) == old_list@.insert(k, v).contains_key(key) by {
                    if self@.contains_key(key) {
                        let j = choose|j: int|
                            0 <= j < self.releases.len() && self.releases[j].version@ == key;
                        if j != i {
                            old_list.lemma_entry(j);
                        }
                    }
                    if old_list@.contains_key(key) {
                        let j = choose|j: int|
                            0 <= j < old_list.releases.len() && old_list.releases[j].version@ == key;
                        self.lemma_entry(j);
                    }
                }
                assert forall|key: Seq<char>| #[trigger] self@.contains_key(key) implies self@[key]
                    == old_list@.insert(k, v)[key] by {
                    let j = choose|j: int|
                        0 <= j < self.releases.len() && self.releases[j].version@ == key;
                    self.lemma_entry(j);
                    if j != i {
                        old_list.lemma_entry(j);
                    }
                }
                assert(self@ =~= old_list@.insert(k, v));
            },
            None => {
                self.releases.push(Release { version, packages });
                let n = self.releases.len() - 1;
                assert(self.wf());
                assert forall|key: Seq<char>|
                    #![trigger self@.contains_key(key)]
                    #![trigger old_list@.insert(k, v).contains_key(key)]
                    self@.contains_key(key) == old_list@.insert(k, v).contains_key(key) by {
                    if self@.contains_key(key) {
                        let j = choose|j: int|
                            0 <= j < self.releases.len() && self.releases[j].version@ == key;
                        if j != n {
                            old_list.lemma_entry(j);
                        }
                    }
                    if old_list@.contains_key(key) {
                        let j = choose|j: int|
                            0 <= j < old_list.releases.len() && old_list.releases[j].version@ == key;
                        self.lemma_entry(j);
                    }
                    if key == k {
                        self.lemma_entry(n as int);
                    }
                }
                assert forall|key: Seq<char>| #[trigger] self@.contains_key(key) implies self@[key]
                    == old_list@.insert(k, v)[key] by {
                    let j = choose|j: int|
                        0 <= j < self.releases.len() && self.releases[j].version@ == key;
                    self.lemma_entry(j);
                    if j != n {
                        old_list.lemma_entry(j);
                    }
                }
                assert(self@ =~= old_list@.insert(k, v));
            },
        }
    }

    /// The versions that the list offers, each once.
    pub fn versions(&self) -> (vs: Vec<String>)
        requires
            self.wf(),
        ensures
            forall|i: int, j: int|
                0 <= i < vs.len() && 0 <= j < vs.len() && i != j ==> vs[i]@ != vs[j]@,
            forall|k: Seq<char>|
                self@.contains_key(k) <==> exists|i: int| 0 <= i < vs.len() && #[trigger] vs[i]@ == k,
    {
        let mut vs: Vec<String> = Vec::new();
        let mut i: usize = 0;
        while i < self.releases.len()
            invariant
                self.wf(),
                i <= self.releases.len(),
                vs.len() == i,
                forall|j: int| 0 <= j < i ==> #[trigger] vs[j]@ == self.releases[j].version@,
            decreases self.releases.len() - i,
        {
            vs.push(copy_string(&self.releases[i].version));
            i += 1;
        }
        assert forall|k: Seq<char>| self@.contains_key(k) implies exists|i: int|
            0 <= i < vs.len() && #[trigger] vs[i]@ == k by {
            let j = choose|j: int| 0 <= j < self.releases.len() && self.releases[j].version@ == k;
            assert(vs[j]@ == k);
        }
        assert forall|k: Seq<char>|
            (exists|i: int| 0 <= i < vs.len() && #[trigger] vs[i]@ == k) implies self@.contains_key(
            k,
        ) by {
            let j = choose|j: int| 0 <= j < vs.len() && #[trigger] vs[j]@ == k;
            self.lemma_entry(j);
        }
        vs
    }
}

/// The releases that the sections describe: each section whose id names a stable
/// release adds its version, with the packages of its table; a later section of
/// the same version replaces an earlier one.
pub fn collect_releases(sections: &Vec<RawSection>) -> (list: PackageList)
    ensures
        list.wf(),
        list@ == releases_of(sections_view(sections@)),
{
    let mut list = PackageList::new();
    let ghost views = sections_view(sections@);
    let mut i: usize = 0;
    assert(views.take(0) =~= Seq::<SectionView>::empty());
    while i < sections.len()
        invariant
            i <= sections.len(),
            views == sections_view(sections@),
            list.wf(),
            list@ == releases_of(views.take(i as int)),
        decreases sections.len() - i,
    {
        let section = &sections[i];
        assert(views.take(i + 1).drop_last() =~= views.take(i as int));
        assert(views.take(i + 1).last() == section@);
        match &section.id {
            Some(id) => {
                if is_stable_release(id.as_str()) {
                    let version = release_version(id.as_str());
                    let packages = packages_from_rows(&section.rows);
                    list.insert(version, packages);
                }
            },
            None => {},
        }
        i += 1;
    }
    assert(views.take(sections.len() as int) =~= views);
    list
}

/// The releases that a Go download page offers: the sections that carry the
/// classes `toggle` and `toggleVisible`, in that order, read as `collect_releases`
/// reads them.
pub fn parse_release_page(html: &str) -> (list: PackageList)
    ensures
        list.wf(),
        list@ == releases_of(
            html_sections(html@, release_table_query(".toggle"@)) + html_sections(
                html@,
                release_table_query(".toggleVisible"@),
            ),
        ),
{
    let mut sections = scrape_sections(html, &release_table(".toggle"));
    let mut visible = scrape_sections(html, &release_table(".toggleVisible"));
    let ghost first = sections@;
    let ghost second = visible@;
    sections.append(&mut visible);
    assert(sections_view(sections@) =~= sections_view(first) + sections_view(second));
    collect_releases(&sections)
}

} // verus!
