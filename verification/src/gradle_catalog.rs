//! Version catalogs: `gradle/libs.versions.toml`.

use crate::dependency::{plain_dependency, Dependency, DependencyModel};
use crate::gradle_text::{ga_of, gav_of, parse_ga, parse_gav};
use crate::order::{is_before, slot};
use crate::report::{Report, ReportModel};
use crate::text::{cat3, chars, cut, decimal, none_of, same, show, split_once};
use crate::value::{document, entry, toml_document, Datum, Entries, Table, Tree, TreeKind};
use vstd::prelude::*;

verus! {

/// `alias` → `group:artifact:version`, by the alias.
#[derive(Debug)]
pub struct Catalog {
    pub entries: Vec<(String, Dependency)>,
}

impl DeepView for Catalog {
    type V = Seq<(Seq<char>, DependencyModel)>;

    open spec fn deep_view(&self) -> Seq<(Seq<char>, DependencyModel)> {
        self.entries.deep_view()
    }
}

/// `s` as Gradle's accessors write it: `-`, `_` and `.` are all `.`.
pub open spec fn accessor(s: Seq<char>) -> Seq<char> {
    Seq::new(
        s.len(),
        |i: int|
            if s[i] == '-' || s[i] == '_' {
                '.'
            } else {
                s[i]
            },
    )
}

fn write_accessor(s: &str) -> (r: String)
    ensures
        r@ == accessor(s@),
{
    let cs = chars(s);
    let mut out = String::new();
    let mut i: usize = 0;
    while i < cs.len()
        invariant
            cs@ == s@,
            i <= cs@.len(),
            out@ =~= accessor(s@).take(i as int),
        decreases cs@.len() - i,
    {
        if cs[i] == '-' || cs[i] == '_' {
            out.push('.');
        } else {
            out.push(cs[i]);
        }
        i = i + 1;
    }
    assert(accessor(s@).take(i as int) =~= accessor(s@));
    out
}

/// What the first entry, from the `i`th on, that goes by `reference` names.
pub open spec fn library_from(
    entries: Seq<(Seq<char>, DependencyModel)>,
    reference: Seq<char>,
    i: int,
) -> Option<DependencyModel>
    decreases entries.len() - i,
{
    if i < 0 || i >= entries.len() {
        None
    } else if accessor(entries[i].0) == accessor(reference) {
        Some(entries[i].1)
    } else {
        library_from(entries, reference, i + 1)
    }
}

/// What `reference` names.
pub open spec fn library_named(
    entries: Seq<(Seq<char>, DependencyModel)>,
    reference: Seq<char>,
) -> Option<DependencyModel> {
    library_from(entries, reference, 0)
}

/// The aliases.
pub open spec fn aliases(entries: Seq<(Seq<char>, DependencyModel)>) -> Seq<Seq<char>> {
    Seq::new(entries.len(), |i: int| entries[i].0)
}

/// The entries with one at its place.
pub open spec fn with_library(
    entries: Seq<(Seq<char>, DependencyModel)>,
    alias: Seq<char>,
    d: DependencyModel,
) -> Seq<(Seq<char>, DependencyModel)> {
    let k = slot(aliases(entries), alias, 0);
    if k < entries.len() && entries[k].0 == alias {
        entries.update(k, (alias, d))
    } else {
        entries.insert(k, (alias, d))
    }
}

fn put_library(entries: &mut Vec<(String, Dependency)>, alias: &str, d: Dependency)
    ensures
        final(entries).deep_view() == with_library(old(entries).deep_view(), alias@, d.deep_view()),
{
    let ghost all = entries.deep_view();
    let ghost names = aliases(all);
    let mut k: usize = 0;
    while k < entries.len() && is_before(entries[k].0.as_str(), alias)
        invariant
            entries == old(entries),
            all == entries.deep_view(),
            names == aliases(all),
            k <= entries@.len(),
            slot(names, alias@, 0) == slot(names, alias@, k as int),
        decreases entries@.len() - k,
    {
        assert(names[k as int] == entries@[k as int].0@);
        k = k + 1;
    }
    let ghost added = (alias@, d.deep_view());
    if k < entries.len() {
        assert(names[k as int] == entries@[k as int].0@);
        if same(entries[k].0.as_str(), alias) {
            let _old = entries.remove(k);
            entries.insert(k, (alias.to_owned(), d));
            assert(entries.deep_view() =~= all.update(k as int, added));
            return ;
        }
    }
    entries.insert(k, (alias.to_owned(), d));
    assert(entries.deep_view() =~= all.insert(k as int, added));
}

// ---- reading ---------------------------------------------------------------

/// The text that `key` of a table holds.
pub open spec fn text_at(t: Entries, key: Seq<char>) -> Option<Seq<char>> {
    match entry(t, key) {
        Some(v) => v.text(),
        None => None,
    }
}

fn read_text<'a>(t: &'a Table, key: &str) -> (r: Option<&'a str>)
    ensures
        r.deep_view() == text_at(t.deep_view(), key@),
{
    match t.get(key) {
        Some(v) => v.as_str(),
        None => None,
    }
}

/// The table that `key` of a table holds.
pub open spec fn table_at(t: Entries, key: Seq<char>) -> Option<Entries> {
    match entry(t, key) {
        Some(v) => v.table(),
        None => None,
    }
}

fn read_table<'a>(t: &'a Table, key: &str) -> (r: Option<&'a Table>)
    ensures
        r.deep_view() == table_at(t.deep_view(), key@),
{
    match t.get(key) {
        Some(v) => v.as_table(),
        None => None,
    }
}

/// The version that the catalog has by a name.
pub open spec fn version_named(catalog: Entries, name: Option<Seq<char>>) -> Option<Seq<char>> {
    match (table_at(catalog, "versions"@), name) {
        (Some(versions), Some(n)) => text_at(versions, n),
        _ => None,
    }
}

fn find_version<'a>(catalog: &'a Table, name: Option<&str>) -> (r: Option<&'a str>)
    ensures
        r.deep_view() == version_named(catalog.deep_view(), name.deep_view()),
{
    match (read_table(catalog, "versions"), name) {
        (Some(versions), Some(n)) => read_text(versions, n),
        _ => None,
    }
}

/// What a catalog says of a library.
pub enum Library {
    /// Nothing that can be read.
    Unread,
    /// What it is; without a version it is one that a platform versions.
    Known(Dependency),
    /// A version that could not be worked out.
    Unversioned,
}

/// What a catalog says of a library.
pub enum LibraryModel {
    Unread,
    Known(DependencyModel),
    Unversioned,
}

impl DeepView for Library {
    type V = LibraryModel;

    open spec fn deep_view(&self) -> LibraryModel {
        match self {
            Library::Unread => LibraryModel::Unread,
            Library::Known(d) => LibraryModel::Known(d.deep_view()),
            Library::Unversioned => LibraryModel::Unversioned,
        }
    }
}

/// The compact `alias = "g:a:v"` form, or `"g:a"` for a library a platform
/// versions.
pub open spec fn compact_library(value: Tree) -> LibraryModel {
    match value.text() {
        Some(text) => match gav_of(text) {
            Some(d) => LibraryModel::Known(d),
            None => match ga_of(text) {
                Some(d) => LibraryModel::Known(d),
                None => LibraryModel::Unread,
            },
        },
        None => LibraryModel::Unread,
    }
}

/// The group and the artifact of a library.
pub open spec fn library_ga(t: Entries) -> Option<(Seq<char>, Seq<char>)> {
    match text_at(t, "module"@) {
        Some(module) => cut(module, ":"@),
        None => match (text_at(t, "group"@), text_at(t, "name"@)) {
            (Some(g), Some(a)) => Some((g, a)),
            _ => None,
        },
    }
}

/// The version of a library.
pub open spec fn library_version(catalog: Entries, t: Entries) -> Option<Seq<char>> {
    match entry(t, "version"@) {
        Some(v) => match v.kind {
            TreeKind::Text(s) => Some(s),
            TreeKind::Table(rich) => match version_named(catalog, text_at(rich, "ref"@)) {
                Some(s) => Some(s),
                None => text_at(rich, "require"@),
            },
            _ => version_named(catalog, text_at(t, "version.ref"@)),
        },
        None => version_named(catalog, text_at(t, "version.ref"@)),
    }
}

/// What a catalog says of a library.
pub open spec fn library_of(catalog: Entries, value: Tree) -> LibraryModel {
    match value.table() {
        None => compact_library(value),
        Some(t) => match library_ga(t) {
            None => LibraryModel::Unread,
            Some((group, artifact)) => if entry(t, "version"@) is None && entry(t, "version.ref"@)
                is None {
                LibraryModel::Known(plain_dependency(group, artifact, ""@))
            } else {
                match library_version(catalog, t) {
                    Some(v) => LibraryModel::Known(plain_dependency(group, artifact, v)),
                    None => LibraryModel::Unversioned,
                }
            },
        },
    }
}

fn read_compact(value: &Datum) -> (r: Library)
    ensures
        r.deep_view() == compact_library(value.deep_view()),
{
    match value.as_str() {
        Some(text) => match parse_gav(text) {
            Some(d) => Library::Known(d),
            None => match parse_ga(text) {
                Some(d) => Library::Known(d),
                None => Library::Unread,
            },
        },
        None => Library::Unread,
    }
}

fn read_ga(t: &Table) -> (r: Option<(&str, &str)>)
    ensures
        r.deep_view() == library_ga(t.deep_view()),
{
    match read_text(t, "module") {
        Some(module) => split_once(module, ":"),
        None => match (read_text(t, "group"), read_text(t, "name")) {
            (Some(g), Some(a)) => Some((g, a)),
            _ => None,
        },
    }
}

fn read_version<'a>(catalog: &'a Table, t: &'a Table) -> (r: Option<&'a str>)
    ensures
        r.deep_view() == library_version(catalog.deep_view(), t.deep_view()),
{
    match t.get("version") {
        Some(v) => {
            if let Some(s) = v.as_str() {
                return Some(s);
            }
            if let Some(rich) = v.as_table() {
                return match find_version(catalog, read_text(rich, "ref")) {
                    Some(s) => Some(s),
                    None => read_text(rich, "require"),
                };
            }
            find_version(catalog, read_text(t, "version.ref"))
        },
        None => find_version(catalog, read_text(t, "version.ref")),
    }
}

fn read_library(catalog: &Table, value: &Datum) -> (r: Library)
    ensures
        r.deep_view() == library_of(catalog.deep_view(), value.deep_view()),
{
    let Some(t) = value.as_table() else {
        return read_compact(value);
    };
    let Some((group, artifact)) = read_ga(t) else {
        return Library::Unread;
    };
    // No version at all is a library a platform versions; it is read as one,
    // and whether anything manages it is decided where it is used.
    if !t.contains_key("version") && !t.contains_key("version.ref") {
        return Library::Known(Dependency::new(group, artifact, ""));
    }
    match read_version(catalog, t) {
        Some(v) => Library::Known(Dependency::new(group, artifact, v)),
        None => Library::Unversioned,
    }
}

/// The entries and the report once the libraries from the `i`th on are read.
pub open spec fn libraries_from(
    catalog: Entries,
    libraries: Entries,
    i: int,
    out: Seq<(Seq<char>, DependencyModel)>,
    told: ReportModel,
) -> (Seq<(Seq<char>, DependencyModel)>, ReportModel)
    decreases libraries.len() - i,
{
    if i < 0 || i >= libraries.len() {
        (out, told)
    } else {
        let (alias, value) = libraries[i];
        match library_of(catalog, value) {
            LibraryModel::Unread => libraries_from(catalog, libraries, i + 1, out, told),
            LibraryModel::Known(d) => libraries_from(
                catalog,
                libraries,
                i + 1,
                with_library(out, alias, d),
                told,
            ),
            LibraryModel::Unversioned => libraries_from(
                catalog,
                libraries,
                i + 1,
                out,
                told.with_skipped(
                    "catalog alias `"@ + alias + "` — its version could not be resolved"@,
                ),
            ),
        }
    }
}

/// The catalog of a document, and the report.
pub open spec fn catalog_of(document: Entries, told: ReportModel) -> (
    Seq<(Seq<char>, DependencyModel)>,
    ReportModel,
) {
    let libraries = match table_at(document, "libraries"@) {
        Some(t) => t,
        None => seq![],
    };
    let (entries, told) = libraries_from(document, libraries, 0, seq![], told);
    (
        entries,
        if entries.len() > 0 {
            told.with_migrated(
                "gradle/libs.versions.toml — "@ + decimal(entries.len())
                    + " catalog entries read"@,
            )
        } else {
            told
        },
    )
}

/// The catalog that a text is, and the report.
pub open spec fn catalog_read(text: Option<Seq<char>>, told: ReportModel) -> (
    Seq<(Seq<char>, DependencyModel)>,
    ReportModel,
) {
    match text {
        None => (seq![], told),
        Some(text) => match toml_document(text) {
            Err(_) => (
                seq![],
                told.with_skipped("gradle/libs.versions.toml — could not be parsed"@),
            ),
            Ok(tree) => catalog_of(tree.table()->0, told),
        },
    }
}

impl Catalog {
    /// A catalog without entries.
    pub fn empty() -> (r: Catalog)
        ensures
            r.deep_view() == Seq::<(Seq<char>, DependencyModel)>::empty(),
    {
        Catalog { entries: none_of() }
    }

    /// Gradle's accessors replace `-`, `_` and `.` with `.`, so
    /// `libs.commons.lang3` and the alias `commons-lang3` are the same thing.
    pub fn get(&self, reference: &str) -> (r: Option<&Dependency>)
        ensures
            r.deep_view() == library_named(self.deep_view(), reference@),
    {
        let name = write_accessor(reference);
        let ghost all = self.entries.deep_view();
        let mut i: usize = 0;
        while i < self.entries.len()
            invariant
                all == self.entries.deep_view(),
                name@ == accessor(reference@),
                i <= self.entries@.len(),
                library_from(all, reference@, 0) == library_from(all, reference@, i as int),
            decreases self.entries@.len() - i,
        {
            assert(all[i as int] == (
                self.entries@[i as int].0@,
                self.entries@[i as int].1.deep_view(),
            ));
            if same(write_accessor(self.entries[i].0.as_str()).as_str(), name.as_str()) {
                return Some(&self.entries[i].1);
            }
            i = i + 1;
        }
        None
    }

    /// The catalog of a document that was read.
    pub fn of(table: &Table, report: &mut Report) -> (r: Catalog)
        ensures
            (r.deep_view(), final(report).deep_view()) == catalog_of(
                table.deep_view(),
                old(report).deep_view(),
            ),
    {
        let mut entries: Vec<(String, Dependency)> = none_of();
        if let Some(libraries) = read_table(table, "libraries") {
            let ghost doc = table.deep_view();
            let ghost all = libraries.deep_view();
            let ghost start = report.deep_view();
            let mut i: usize = 0;
            while i < libraries.entries.len()
                invariant
                    doc == table.deep_view(),
                    all == libraries.deep_view(),
                    i <= libraries.entries@.len(),
                    libraries_from(doc, all, 0, seq![], start) == libraries_from(
                        doc,
                        all,
                        i as int,
                        entries.deep_view(),
                        report.deep_view(),
                    ),
                decreases libraries.entries@.len() - i,
            {
                let alias = libraries.entries[i].0.as_str();
                assert(all[i as int] == (alias@, libraries.entries@[i as int].1.deep_view()));
                match read_library(table, &libraries.entries[i].1) {
                    Library::Unread => {},
                    Library::Known(d) => {
                        put_library(&mut entries, alias, d);
                    },
                    Library::Unversioned => {
                        report.skipped(
                            cat3(
                                "catalog alias `",
                                alias,
                                "` — its version could not be resolved",
                            ),
                        );
                    },
                }
                i = i + 1;
            }
        }
        if entries.len() > 0 {
            report.migrated(
                cat3(
                    "gradle/libs.versions.toml — ",
                    show(entries.len() as u128).as_str(),
                    " catalog entries read",
                ),
            );
        }
        Catalog { entries }
    }
}

/// The catalog that `text`, the project's `gradle/libs.versions.toml` where it
/// has one, is.
pub fn read_catalog(text: Option<&str>, report: &mut Report) -> (r: Catalog)
    ensures
        (r.deep_view(), final(report).deep_view()) == catalog_read(
            text.deep_view(),
            old(report).deep_view(),
        ),
{
    let Some(text) = text else {
        return Catalog::empty();
    };
    let Ok(value) = document(text) else {
        report.skipped("gradle/libs.versions.toml — could not be parsed".to_owned());
        return Catalog::empty();
    };
    match value.as_table() {
        Some(table) => Catalog::of(table, report),
        None => Catalog::empty(),
    }
}

} // verus!
