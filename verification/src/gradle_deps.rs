//! A Gradle build's `dependencies { }`.

use crate::dependency::{plain_dependency, Dependency, DependencyModel, Exclusion};
use crate::fresh::{fresh, fresh_name};
use crate::gradle_catalog::{library_named, Catalog};
use crate::gradle_files::{named_files_are_told, files_read, Files, FilesModel};
use crate::gradle_managed::{
    find_target, is_reported, platform_argument, platform_in, reported_config, target_of, Target,
};
use crate::gradle_plugins::{find_language, language_place};
use crate::gradle_text::{
    alias_in, block_lines, catalog_reference, count, deeper, depth_after, first_of, first_quoted,
    first_word, ga_of, gav_of, leading_word, literals_of, map_of, parse_ga, parse_gav,
    parse_map_notation, quoted, tally, top_lines,
};
use crate::language::Language;
use crate::manifest::{JavaModel, Manifest, ManifestModel};
use crate::report::{Report, ReportModel};
use crate::text::{
    cat2, cat3, cat4, cat5, contains, cut, dense, find, found, has_char, includes, join, joined,
    left, none_of, put, same, skip, split_once, starts, starts_with, take, trim, trim_start,
    trimmed, within, without_space, Duplicate,
};
use crate::chars::{is_unicode_alphanumeric, unicode_alphanumeric};
use vstd::prelude::*;

verus! {

// ---- exclusions ------------------------------------------------------------

/// The literal that is given to a key.
pub open spec fn given_to(rest: Seq<char>, key: Seq<char>) -> Option<Seq<char>> {
    match cut(rest, key) {
        None => None,
        Some((_, tail)) => if starts(left(tail), ":"@) || starts(left(tail), "="@) {
            first_of(left(tail))
        } else {
            None
        },
    }
}

fn find_given(rest: &str, key: &str) -> (r: Option<String>)
    ensures
        r.deep_view() == given_to(rest@, key@),
{
    match split_once(rest, key) {
        None => None,
        Some((_, tail)) => {
            let after = trim_start(tail);
            if starts_with(after, ":") || starts_with(after, "=") {
                first_quoted(after)
            } else {
                None
            }
        },
    }
}

/// What a text excludes.
pub open spec fn exclusion_of(text: Seq<char>) -> Option<(Seq<char>, Seq<char>)> {
    let compact = dense(text);
    if within(compact, "transitive=false"@) || within(compact, "isTransitive=false"@) {
        Some(("*"@, "*"@))
    } else {
        match cut(text, "exclude"@) {
            None => None,
            Some((_, rest)) => match (given_to(rest, "group"@), given_to(rest, "module"@)) {
                (Some(g), Some(a)) => Some((g, a)),
                (Some(g), None) => Some((g, "*"@)),
                (None, Some(a)) => Some(("*"@, a)),
                (None, None) => None,
            },
        }
    }
}

/// `exclude group: 'x', module: 'y'`, `exclude(group = "x")`, or
/// `transitive = false`, which excludes everything.
pub fn parse_exclude(text: &str) -> (r: Option<Exclusion>)
    ensures
        r.deep_view() == exclusion_of(text@),
{
    let compact = without_space(text);
    if contains(compact.as_str(), "transitive=false") || contains(
        compact.as_str(),
        "isTransitive=false",
    ) {
        return Some(Exclusion { group: "*".to_owned(), artifact: "*".to_owned() });
    }
    let Some((_, rest)) = split_once(text, "exclude") else {
        return None;
    };
    match (find_given(rest, "group"), find_given(rest, "module")) {
        (Some(group), Some(artifact)) => Some(Exclusion { group, artifact }),
        (Some(group), None) => Some(Exclusion { group, artifact: "*".to_owned() }),
        (None, Some(artifact)) => Some(Exclusion { group: "*".to_owned(), artifact }),
        (None, None) => None,
    }
}

// ---- Kotlin's modules ------------------------------------------------------

/// The module of `kotlin("reflect")`, with the version it names.
pub open spec fn kotlin_call(text: Seq<char>) -> Option<(Seq<char>, Option<Seq<char>>)> {
    match cut(text, "kotlin("@) {
        None => None,
        Some((before, rest)) => if before.len() > 0 && (unicode_alphanumeric(before.last())
            || before.last() == '_' || before.last() == '.') {
            None
        } else {
            match cut(rest, ")"@) {
                None => None,
                Some((args, _)) => {
                    let literals = literals_of(args);
                    if literals.len() == 0 {
                        None
                    } else if literals.len() == 1 {
                        Some((literals[0], None))
                    } else {
                        Some((literals[0], Some(literals[1])))
                    }
                },
            }
        },
    }
}

/// `kotlin("reflect")` → `reflect`, and `kotlin("stdlib", "2.1.0")` with its
/// own version.
pub fn kotlin_notation(text: &str) -> (r: Option<(String, Option<String>)>)
    ensures
        r.deep_view() == kotlin_call(text@),
{
    let Some((before, rest)) = split_once(text, "kotlin(") else {
        return None;
    };
    let n: usize = before.unicode_len();
    if n > 0 {
        let c: char = before.get_char(n - 1);
        if is_unicode_alphanumeric(c) || c == '_' || c == '.' {
            return None;
        }
    }
    let Some((args, _)) = split_once(rest, ")") else {
        return None;
    };
    let literals = quoted(args);
    let ghost all = literals.deep_view();
    assert(all.len() == literals@.len());
    if literals.len() == 0 {
        return None;
    }
    assert(all[0] == literals@[0]@);
    if literals.len() == 1 {
        return Some((literals[0].clone(), None));
    }
    assert(all[1] == literals@[1]@);
    Some((literals[0].clone(), Some(literals[1].clone())))
}

/// The dependency that a module of Kotlin's is at a version, and the report.
pub open spec fn kotlin_module(
    text: Seq<char>,
    module: Seq<char>,
    version: Option<Seq<char>>,
    told: ReportModel,
) -> (Option<DependencyModel>, ReportModel) {
    match version {
        None => (
            None,
            told.with_skipped(
                "`"@ + text + "` — `kotlin(\""@ + module
                    + "\")` takes the Kotlin plugin's version, and no [kotlin] version was migrated"@,
            ),
        ),
        Some(version) => if module == "stdlib-jdk7"@ || module == "stdlib-jdk8"@ {
            (
                Some(plain_dependency("org.jetbrains.kotlin"@, "kotlin-stdlib"@, version)),
                told.with_migrated(
                    "`"@ + text
                        + "` — read as kotlin-stdlib, which has had the -jdk7/-jdk8 classes since Kotlin 1.8"@,
                ),
            )
        } else if module == "test"@ {
            (
                Some(plain_dependency("org.jetbrains.kotlin"@, "kotlin-test-junit5"@, version)),
                told.with_review(
                    "`"@ + text
                        + "` → org.jetbrains.kotlin:kotlin-test-junit5 — Gradle picks kotlin-test's framework variant by capability, from the test task's framework; jrs picked the JUnit 5 one"@,
                ),
            )
        } else {
            (
                Some(plain_dependency("org.jetbrains.kotlin"@, "kotlin-"@ + module, version)),
                told,
            )
        },
    }
}

/// `kotlin("<module>")` is `org.jetbrains.kotlin:kotlin-<module>` at the Kotlin
/// plugin's version, with two readings of jrs's own.
fn kotlin_dependency(
    text: &str,
    module: &str,
    version: Option<&str>,
    report: &mut Report,
) -> (r: Option<Dependency>)
    ensures
        (r.deep_view(), final(report).deep_view()) == kotlin_module(
            text@,
            module@,
            version.deep_view(),
            old(report).deep_view(),
        ),
{
    let Some(version) = version else {
        report.skipped(
            cat5(
                "`",
                text,
                "` — `kotlin(\"",
                module,
                "\")` takes the Kotlin plugin's version, and no [kotlin] version was migrated",
            ),
        );
        return None;
    };
    // Kotlin 2's stdlib has the classes these once added; they are empty.
    if same(module, "stdlib-jdk7") || same(module, "stdlib-jdk8") {
        report.migrated(
            cat3(
                "`",
                text,
                "` — read as kotlin-stdlib, which has had the -jdk7/-jdk8 classes since Kotlin 1.8",
            ),
        );
        return Some(Dependency::new("org.jetbrains.kotlin", "kotlin-stdlib", version));
    }
    if same(module, "test") {
        report.review(
            cat3(
                "`",
                text,
                "` → org.jetbrains.kotlin:kotlin-test-junit5 — Gradle picks kotlin-test's framework variant by capability, from the test task's framework; jrs picked the JUnit 5 one",
            ),
        );
        return Some(Dependency::new("org.jetbrains.kotlin", "kotlin-test-junit5", version));
    }
    Some(Dependency::new("org.jetbrains.kotlin", cat2("kotlin-", module).as_str(), version))
}

// ---- declarations ----------------------------------------------------------

/// What a declaration is read with.
pub struct Context<'a> {
    /// The `[kotlin]` version.
    pub kotlin: Option<String>,
    /// Whether something versions what has no version.
    pub managed: bool,
    pub catalog: &'a Catalog,
    pub files: &'a Files,
}

/// What a declaration is read with.
pub struct ContextModel {
    pub kotlin: Option<Seq<char>>,
    pub managed: bool,
    pub catalog: Seq<(Seq<char>, DependencyModel)>,
    pub files: FilesModel,
}

impl<'a> DeepView for Context<'a> {
    type V = ContextModel;

    open spec fn deep_view(&self) -> ContextModel {
        ContextModel {
            kotlin: self.kotlin.deep_view(),
            managed: self.managed,
            catalog: self.catalog.deep_view(),
            files: self.files.deep_view(),
        }
    }
}

/// A dependency without a version, where something versions it.
pub open spec fn unversioned(
    text: Seq<char>,
    d: DependencyModel,
    managed: bool,
    told: ReportModel,
) -> (Option<DependencyModel>, ReportModel) {
    if managed {
        (Some(d), told)
    } else {
        (
            None,
            told.with_skipped(
                "`"@ + text + "` — "@ + d.key()
                    + " has no version, and nothing in the build manages one"@,
            ),
        )
    }
}

fn leave_unversioned(text: &str, d: Dependency, managed: bool, report: &mut Report) -> (r: Option<
    Dependency,
>)
    ensures
        (r.deep_view(), final(report).deep_view()) == unversioned(
            text@,
            d.deep_view(),
            managed,
            old(report).deep_view(),
        ),
{
    if managed {
        return Some(d);
    }
    report.skipped(
        cat5(
            "`",
            text,
            "` — ",
            d.key().as_str(),
            " has no version, and nothing in the build manages one",
        ),
    );
    None
}

/// Why a declaration names no dependency that jrs can read.
pub open spec fn unreadable(text: Seq<char>) -> Seq<char> {
    let literals = literals_of(text);
    if literals.len() == 1 {
        "`"@ + trimmed(text) + "` — `"@ + literals[0] + "` is "@ + (if includes(literals[0], '$') {
            "interpolated from a variable, which jrs cannot evaluate without running Gradle"@
        } else {
            "not a group:artifact:version coordinate"@
        })
    } else {
        "`"@ + trimmed(text)
            + "` — built from a variable or an expression, which jrs cannot evaluate without running Gradle"@
    }
}

fn explain_unreadable(text: &str) -> (r: String)
    ensures
        r@ == unreadable(text@),
{
    let literals = quoted(text);
    if literals.len() == 1 {
        assert(literals.deep_view()[0] == literals@[0]@);
        let why = if has_char(literals[0].as_str(), '$') {
            "interpolated from a variable, which jrs cannot evaluate without running Gradle"
        } else {
            "not a group:artifact:version coordinate"
        };
        crate::text::cat6("`", trim(text), "` — `", literals[0].as_str(), "` is ", why)
    } else {
        cat3(
            "`",
            trim(text),
            "` — built from a variable or an expression, which jrs cannot evaluate without running Gradle",
        )
    }
}

/// The dependency that a literal or the map notation names, and the report.
pub open spec fn literal_declaration(text: Seq<char>, managed: bool, told: ReportModel) -> (
    Option<DependencyModel>,
    ReportModel,
) {
    let gav = match first_of(text) {
        Some(s) => gav_of(s),
        None => None,
    };
    let ga = match first_of(text) {
        Some(s) => ga_of(s),
        None => None,
    };
    match gav {
        Some(d) => (Some(d), told),
        None => match ga {
            Some(d) => unversioned(trimmed(text), d, managed, told),
            None => match map_of(text) {
                Some(d) => if d.managed() {
                    unversioned(trimmed(text), d, managed, told)
                } else {
                    (Some(d), told)
                },
                None => (None, told.with_skipped(unreadable(text))),
            },
        },
    }
}

fn read_literal_declaration(text: &str, managed: bool, report: &mut Report) -> (r: Option<Dependency>)
    ensures
        (r.deep_view(), final(report).deep_view()) == literal_declaration(
            text@,
            managed,
            old(report).deep_view(),
        ),
{
    // `implementation 'g:a:v'` / `implementation("g:a:v")`, or `'g:a'`
    if let Some(s) = first_quoted(text) {
        if let Some(d) = parse_gav(s.as_str()) {
            return Some(d);
        }
        if let Some(d) = parse_ga(s.as_str()) {
            return leave_unversioned(trim(text), d, managed, report);
        }
    }
    // `implementation group: 'g', name: 'a', version: 'v'`
    if let Some(d) = parse_map_notation(text) {
        return if d.is_managed() {
            leave_unversioned(trim(text), d, managed, report)
        } else {
            Some(d)
        };
    }
    report.skipped(explain_unreadable(text));
    None
}

/// The dependency that a declaration names, and the report.
pub open spec fn declaration_of(
    text: Seq<char>,
    config: Seq<char>,
    c: ContextModel,
    told: ReportModel,
) -> (Option<DependencyModel>, ReportModel) {
    match kotlin_call(text) {
        Some((module, version)) => kotlin_module(
            trimmed(text),
            module,
            match version {
                Some(v) => Some(v),
                None => c.kotlin,
            },
            told,
        ),
        None => match alias_in(text) {
            Some(reference) => match library_named(c.catalog, reference) {
                Some(d) => if d.managed() {
                    unversioned(trimmed(text), d, c.managed, told)
                } else {
                    (Some(d), told)
                },
                None => (
                    None,
                    told.with_skipped(
                        "`"@ + config + " libs."@ + reference
                            + "` — no such alias in the version catalog; add it to jrs.toml by hand"@,
                    ),
                ),
            },
            None => literal_declaration(text, c.managed, told),
        },
    }
}

/// One dependency declaration, without its closure: a catalog reference, a
/// `g:a:v` literal, the map notation, or `kotlin("<module>")` at the
/// `[kotlin]` version. A coordinate without a version is migrated as one
/// when something `[managed]` holds can version it.
fn read_declaration(text: &str, config: &str, c: &Context, report: &mut Report) -> (r: Option<
    Dependency,
>)
    ensures
        (r.deep_view(), final(report).deep_view()) == declaration_of(
            text@,
            config@,
            c.deep_view(),
            old(report).deep_view(),
        ),
{
    if let Some((module, version)) = kotlin_notation(text) {
        let version: Option<&str> = match &version {
            Some(v) => Some(v.as_str()),
            None => match &c.kotlin {
                Some(v) => Some(v.as_str()),
                None => None,
            },
        };
        return kotlin_dependency(trim(text), module.as_str(), version, report);
    }
    // `libs.foo.bar`, resolved through the version catalog.
    if let Some(reference) = catalog_reference(text) {
        return match c.catalog.get(reference) {
            Some(d) => if d.is_managed() {
                leave_unversioned(trim(text), d.duplicate(), c.managed, report)
            } else {
                Some(d.duplicate())
            },
            None => {
                report.skipped(
                    cat5(
                        "`",
                        config,
                        " libs.",
                        reference,
                        "` — no such alias in the version catalog; add it to jrs.toml by hand",
                    ),
                );
                None
            },
        };
    }
    read_literal_declaration(text, c.managed, report)
}

// ---- entries ---------------------------------------------------------------

/// The table that a dependency goes in.
pub open spec fn table(m: ManifestModel, target: Target) -> Seq<DependencyModel> {
    if target == Target::Test {
        m.dev_dependencies
    } else {
        m.dependencies
    }
}

/// The manifest with another table there.
pub open spec fn with_table(m: ManifestModel, target: Target, list: Seq<DependencyModel>) -> ManifestModel {
    if target == Target::Test {
        ManifestModel { dev_dependencies: list, ..m }
    } else {
        ManifestModel { dependencies: list, ..m }
    }
}

/// The place of the dependency with a key, from the `i`th on.
pub open spec fn key_place(list: Seq<DependencyModel>, key: Seq<char>, i: int) -> Option<int>
    decreases list.len() - i,
{
    if i < 0 || i >= list.len() {
        None
    } else if list[i].key() == key {
        Some(i)
    } else {
        key_place(list, key, i + 1)
    }
}

fn find_key(list: &Vec<Dependency>, key: &str) -> (r: Option<usize>)
    ensures
        r is Some <==> key_place(list.deep_view(), key@, 0) is Some,
        r matches Some(i) ==> i < list@.len() && key_place(list.deep_view(), key@, 0) == Some(
            i as int,
        ),
{
    let ghost all = list.deep_view();
    let mut i: usize = 0;
    while i < list.len()
        invariant
            all == list.deep_view(),
            i <= list@.len(),
            key_place(all, key@, 0) == key_place(all, key@, i as int),
        decreases list@.len() - i,
    {
        assert(all[i as int] == list@[i as int].deep_view());
        if same(list[i].key().as_str(), key) {
            return Some(i);
        }
        i = i + 1;
    }
    None
}

/// A dependency on the classpaths that its target has.
pub open spec fn aimed(d: DependencyModel, target: Target) -> DependencyModel {
    DependencyModel {
        compile_only: target == Target::CompileOnly || target == Target::Processor,
        runtime_only: target == Target::RuntimeOnly,
        ..d
    }
}

/// An entry once another declaration of it is read: a plain one wins over
/// both of the others, which add up to one.
pub open spec fn widened(existing: DependencyModel, d: DependencyModel, target: Target) -> DependencyModel {
    if target == Target::Main || (existing.compile_only && d.runtime_only) || (
    existing.runtime_only && d.compile_only) {
        DependencyModel { compile_only: false, runtime_only: false, ..existing }
    } else {
        existing
    }
}

/// The list with a dependency, its place there, and what is told.
pub open spec fn added(
    list: Seq<DependencyModel>,
    target: Target,
    dep: DependencyModel,
    config: Seq<char>,
    told: ReportModel,
) -> (Seq<DependencyModel>, int, ReportModel) {
    let d = aimed(dep, target);
    match key_place(list, d.key(), 0) {
        Some(i) => (
            list.update(i, widened(list[i], d, target)),
            i,
            told.with_migrated(
                d.key() + " ("@ + config + ", merged with an earlier declaration)"@,
            ),
        ),
        None => (
            list.push(d),
            list.len() as int,
            told.with_migrated(d.key() + " ("@ + config + ")"@),
        ),
    }
}

fn add_to(
    list: &mut Vec<Dependency>,
    target: Target,
    mut dep: Dependency,
    config: &str,
    report: &mut Report,
) -> (r: usize)
    ensures
        (final(list).deep_view(), r as int, final(report).deep_view()) == added(
            old(list).deep_view(),
            target,
            dep.deep_view(),
            config@,
            old(report).deep_view(),
        ),
        r < final(list)@.len(),
{
    dep.compile_only = target == Target::CompileOnly || target == Target::Processor;
    dep.runtime_only = target == Target::RuntimeOnly;
    let key = dep.key();
    let ghost all = list.deep_view();
    if let Some(i) = find_key(list, key.as_str()) {
        let mut existing = list.remove(i);
        assert(existing.deep_view() == all[i as int]);
        if target == Target::Main || (existing.compile_only && dep.runtime_only) || (
        existing.runtime_only && dep.compile_only) {
            existing.compile_only = false;
            existing.runtime_only = false;
        }
        let ghost changed = existing.deep_view();
        list.insert(i, existing);
        assert(list.deep_view() =~= all.update(i as int, changed));
        report.migrated(
            cat4(key.as_str(), " (", config, ", merged with an earlier declaration)"),
        );
        return i;
    }
    report.migrated(cat4(key.as_str(), " (", config, ")"));
    let i: usize = list.len();
    put(list, dep);
    i
}

/// The manifest with a dependency, its place in its table, and what is told.
pub open spec fn pushed(
    m: ManifestModel,
    target: Target,
    dep: DependencyModel,
    config: Seq<char>,
    told: ReportModel,
) -> (ManifestModel, int, ReportModel) {
    let (list, i, told) = added(table(m, target), target, dep, config, told);
    (with_table(m, target, list), i, told)
}

/// Add a dependency, returning its index in its table.
///
/// `compileOnly` and `annotationProcessor` naming the same library is the usual
/// Lombok setup, and becomes one compile-only entry; a plain `implementation`
/// of it wins over both. `compileOnly` and `runtimeOnly` of one library add up
/// to a plain entry.
fn push(
    out: &mut Manifest,
    target: Target,
    dep: Dependency,
    report: &mut Report,
    config: &str,
) -> (r: usize)
    ensures
        (final(out).deep_view(), r as int, final(report).deep_view()) == pushed(
            old(out).deep_view(),
            target,
            dep.deep_view(),
            config@,
            old(report).deep_view(),
        ),
        r < table(final(out).deep_view(), target).len(),
{
    if target == Target::Test {
        add_to(&mut out.dev_dependencies, target, dep, config, report)
    } else {
        add_to(&mut out.dependencies, target, dep, config, report)
    }
}

/// The keys of the dependencies from the `i`th on that are not the jar at
/// `path`.
pub open spec fn other_keys(
    list: Seq<DependencyModel>,
    path: Option<Seq<char>>,
    i: int,
    out: Seq<Seq<char>>,
) -> Seq<Seq<char>>
    decreases list.len() - i,
{
    if i < 0 || i >= list.len() {
        out
    } else if list[i].path != path {
        other_keys(list, path, i + 1, out.push(list[i].key()))
    } else {
        other_keys(list, path, i + 1, out)
    }
}

fn same_option(a: &Option<String>, b: &Option<String>) -> (r: bool)
    ensures
        r == (a.deep_view() == b.deep_view()),
{
    match (a, b) {
        (Some(x), Some(y)) => same(x.as_str(), y.as_str()),
        (None, None) => true,
        _ => false,
    }
}

fn list_other_keys(list: &Vec<Dependency>, path: &Option<String>) -> (r: Vec<String>)
    ensures
        r.deep_view() == other_keys(list.deep_view(), path.deep_view(), 0, seq![]),
{
    let ghost all = list.deep_view();
    let ghost p = path.deep_view();
    let mut out: Vec<String> = none_of();
    let mut i: usize = 0;
    while i < list.len()
        invariant
            all == list.deep_view(),
            p == path.deep_view(),
            i <= list@.len(),
            other_keys(all, p, 0, seq![]) == other_keys(all, p, i as int, out.deep_view()),
        decreases list@.len() - i,
    {
        assert(all[i as int] == list@[i as int].deep_view());
        if !same_option(&list[i].path, path) {
            put(&mut out, list[i].key());
        }
        i = i + 1;
    }
    out
}

/// The manifest with a local jar, and what is told: two jars with one file
/// name in different directories get distinct keys.
pub open spec fn pushed_local(
    m: ManifestModel,
    target: Target,
    dep: DependencyModel,
    config: Seq<char>,
    told: ReportModel,
) -> (ManifestModel, ReportModel) {
    let taken = other_keys(table(m, target), dep.path, 0, seq![]);
    let (m, _, told) = pushed(
        m,
        target,
        DependencyModel { artifact: fresh(taken, dep.artifact), ..dep },
        config,
        told,
    );
    (m, told)
}

/// Add a local jar. Two jars with one file name in different directories get
/// distinct keys, `-2` and on after the first.
fn push_local(
    out: &mut Manifest,
    target: Target,
    mut dep: Dependency,
    report: &mut Report,
    config: &str,
)
    ensures
        (final(out).deep_view(), final(report).deep_view()) == pushed_local(
            old(out).deep_view(),
            target,
            dep.deep_view(),
            config@,
            old(report).deep_view(),
        ),
{
    let taken = if target == Target::Test {
        list_other_keys(&out.dev_dependencies, &dep.path)
    } else {
        list_other_keys(&out.dependencies, &dep.path)
    };
    let name = fresh_name(&taken, dep.artifact.as_str());
    dep.artifact = name;
    push(out, target, dep, report, config);
}

/// The manifest with the local jars from the `i`th on, and what is told.
pub open spec fn jars_pushed(
    jars: Seq<DependencyModel>,
    i: int,
    m: ManifestModel,
    target: Target,
    config: Seq<char>,
    told: ReportModel,
) -> (ManifestModel, ReportModel)
    decreases jars.len() - i,
{
    if i < 0 || i >= jars.len() {
        (m, told)
    } else {
        let (m, told) = pushed_local(m, target, jars[i], config, told);
        jars_pushed(jars, i + 1, m, target, config, told)
    }
}

fn push_jars(
    jars: &Vec<Dependency>,
    out: &mut Manifest,
    target: Target,
    report: &mut Report,
    config: &str,
)
    ensures
        (final(out).deep_view(), final(report).deep_view()) == jars_pushed(
            jars.deep_view(),
            0,
            old(out).deep_view(),
            target,
            config@,
            old(report).deep_view(),
        ),
{
    let ghost all = jars.deep_view();
    let ghost start = (out.deep_view(), report.deep_view());
    let mut i: usize = 0;
    while i < jars.len()
        invariant
            all == jars.deep_view(),
            i <= jars@.len(),
            jars_pushed(all, 0, start.0, target, config@, start.1) == jars_pushed(
                all,
                i as int,
                out.deep_view(),
                target,
                config@,
                report.deep_view(),
            ),
        decreases jars@.len() - i,
    {
        assert(all[i as int] == jars@[i as int].deep_view());
        push_local(out, target, jars[i].duplicate(), report, config);
        i = i + 1;
    }
}

// ---- the block -------------------------------------------------------------

/// The declaration whose `{ exclude ... }` closure is still open, and how deep
/// inside it the scan is.
pub struct Open {
    pub target: Target,
    pub index: usize,
    pub depth: u128,
}

/// What reading `dependencies { }` has come to.
pub struct DepsModel {
    pub m: ManifestModel,
    pub told: ReportModel,
    pub processors: Seq<Seq<char>>,
    pub closure: Option<(Target, int, int)>,
    /// How deep inside `constraints { }` the scan is.
    pub constraints: int,
}

pub open spec fn closure_of(c: Option<Open>) -> Option<(Target, int, int)> {
    match c {
        Some(o) => Some((o.target, o.index as int, o.depth as int)),
        None => None,
    }
}

/// The manifest with one more exclusion of the dependency at a place.
pub open spec fn with_exclusion(
    m: ManifestModel,
    target: Target,
    i: int,
    e: (Seq<char>, Seq<char>),
) -> ManifestModel {
    let list = table(m, target);
    with_table(
        m,
        target,
        list.update(
            i,
            DependencyModel { exclusions: list[i].exclusions.push(e), ..list[i] },
        ),
    )
}

/// A declaration's text and what follows from a `{` on.
pub open spec fn without_closure(line: Seq<char>) -> (Seq<char>, Option<Seq<char>>) {
    match found(line, "{"@) {
        Some(i) => (line.take(i), Some(line.skip(i))),
        None => (line, None),
    }
}

/// The dependency with what a closure on its line excludes.
pub open spec fn with_inline(d: DependencyModel, closure: Option<Seq<char>>) -> DependencyModel {
    match closure {
        Some(body) => match exclusion_of(body) {
            Some(e) => DependencyModel { exclusions: d.exclusions.push(e), ..d },
            None => d,
        },
        None => d,
    }
}

/// Once a line that declares dependencies in a configuration is read.
pub open spec fn with_declared(
    s: DepsModel,
    line: Seq<char>,
    config: Seq<char>,
    target: Target,
    c: ContextModel,
) -> DepsModel {
    let (declaration, closure) = without_closure(line);
    if platform_in(declaration) is Some {
        s
    } else {
        let (jars, told) = files_read(line, c.files, s.told);
        match jars {
            Some(jars) => {
                let (m, told) = jars_pushed(jars, 0, s.m, target, config, told);
                DepsModel { m, told, ..s }
            },
            None => {
                let (dep, told) = declaration_of(declaration, config, c, told);
                match dep {
                    None => DepsModel { told, ..s },
                    Some(dep) => {
                        let d = with_inline(dep, closure);
                        let (m, index, told) = pushed(s.m, target, d, config, told);
                        DepsModel {
                            m,
                            told,
                            processors: if target == Target::Processor {
                                s.processors.push(d.key())
                            } else {
                                s.processors
                            },
                            closure: if tally(line, '{') > tally(line, '}') {
                                Some((target, index, tally(line, '{') - tally(line, '}')))
                            } else {
                                s.closure
                            },
                            ..s
                        }
                    },
                }
            },
        }
    }
}

/// Once a line of the block is read.
pub open spec fn with_line(s: DepsModel, raw: Seq<char>, c: ContextModel) -> DepsModel {
    let line = trimmed(raw);
    if s.constraints > 0 {
        DepsModel { constraints: deeper(s.constraints, line), ..s }
    } else if starts(line, "constraints"@) && tally(line, '{') > tally(line, '}') {
        DepsModel { constraints: tally(line, '{') - tally(line, '}'), ..s }
    } else {
        match s.closure {
            Some((target, index, depth)) => DepsModel {
                m: match exclusion_of(line) {
                    Some(e) => with_exclusion(s.m, target, index, e),
                    None => s.m,
                },
                closure: if deeper(depth, line) == 0 {
                    None
                } else {
                    Some((target, index, deeper(depth, line)))
                },
                ..s
            },
            None => match first_word(line) {
                None => s,
                Some(config) => match target_of(config) {
                    Some(target) => with_declared(s, line, config, target, c),
                    None => if reported_config(config) {
                        DepsModel {
                            told: s.told.with_skipped(
                                "`"@ + line + "` — the `"@ + config
                                    + "` configuration has no equivalent in jrs.toml"@,
                            ),
                            ..s
                        }
                    } else {
                        s
                    },
                },
            },
        }
    }
}

/// Once the lines of the block from the `i`th on are read.
pub open spec fn block_from(lines: Seq<Seq<char>>, i: int, s: DepsModel, c: ContextModel) -> DepsModel
    decreases lines.len() - i,
{
    if i < 0 || i >= lines.len() {
        s
    } else {
        block_from(lines, i + 1, with_line(s, lines[i], c), c)
    }
}

/// The closure that is open is that of a dependency in its table.
pub open spec fn placed_in(m: ManifestModel, closure: Option<Open>) -> bool {
    closure matches Some(o) ==> o.index < table(m, o.target).len()
}

fn exclude_at(out: &mut Manifest, target: Target, i: usize, e: Exclusion)
    requires
        i < table(old(out).deep_view(), target).len(),
    ensures
        final(out).deep_view() == with_exclusion(old(out).deep_view(), target, i as int, e.deep_view()),
        table(final(out).deep_view(), target).len() == table(old(out).deep_view(), target).len(),
{
    if target == Target::Test {
        exclude_in(&mut out.dev_dependencies, i, e);
    } else {
        exclude_in(&mut out.dependencies, i, e);
    }
}

fn exclude_in(list: &mut Vec<Dependency>, i: usize, e: Exclusion)
    requires
        i < old(list)@.len(),
    ensures
        ({
            let all = old(list).deep_view();
            let d = all[i as int];
            final(list).deep_view() == all.update(
                i as int,
                DependencyModel { exclusions: d.exclusions.push(e.deep_view()), ..d },
            )
        }),
{
    let ghost all = list.deep_view();
    let mut d = list.remove(i);
    assert(d.deep_view() == all[i as int]);
    put(&mut d.exclusions, e);
    let ghost changed = d.deep_view();
    list.insert(i, d);
    assert(list.deep_view() =~= all.update(i as int, changed));
}

/// What a scan of the block holds besides the manifest.
pub struct Block {
    pub processors: Vec<String>,
    pub closure: Option<Open>,
    pub constraints: u128,
}

pub open spec fn block_state(b: Block, m: ManifestModel, told: ReportModel) -> DepsModel {
    DepsModel {
        m,
        told,
        processors: b.processors.deep_view(),
        closure: closure_of(b.closure),
        constraints: b.constraints as int,
    }
}

/// No depth is above the bound.
pub open spec fn shallow(b: Block, bound: int) -> bool {
    &&& b.constraints <= bound
    &&& b.closure matches Some(o) ==> o.depth <= bound
}

fn read_declared(
    b: &mut Block,
    line: &str,
    config: &str,
    target: Target,
    c: &Context,
    out: &mut Manifest,
    report: &mut Report,
)
    requires
        old(b).closure is None,
    ensures
        block_state(*final(b), final(out).deep_view(), final(report).deep_view()) == with_declared(
            block_state(*old(b), old(out).deep_view(), old(report).deep_view()),
            line@,
            config@,
            target,
            c.deep_view(),
        ),
        placed_in(final(out).deep_view(), final(b).closure),
        final(b).constraints == old(b).constraints,
        final(b).closure matches Some(o) ==> o.depth <= usize::MAX,
{
    // Everything up to a trailing closure is the declaration itself.
    let (declaration, closure) = match find(line, "{") {
        Some(i) => (take(line, i), Some(skip(line, i))),
        None => (line, None),
    };
    // `platform(...)` is a BOM, which goes to [managed].
    if platform_argument(declaration).is_some() {
        return ;
    }
    // `files(...)` and `fileTree(...)`: jars in the project, not coordinates.
    if let Some(jars) = crate::gradle_files::read(line, c.files, report) {
        push_jars(&jars, out, target, report, config);
        return ;
    }
    let Some(mut dep) = read_declaration(declaration, config, c, report) else {
        return ;
    };
    if let Some(body) = closure {
        if let Some(e) = parse_exclude(body) {
            put(&mut dep.exclusions, e);
        }
    }
    if target == Target::Processor {
        put(&mut b.processors, dep.key());
    }
    let index: usize = push(out, target, dep, report, config);
    let opened: usize = count(line, '{');
    let closed: usize = count(line, '}');
    if opened > closed {
        b.closure = Some(Open { target, index, depth: (opened - closed) as u128 });
    }
}

fn read_line(
    b: &mut Block,
    raw: &str,
    c: &Context,
    out: &mut Manifest,
    report: &mut Report,
    bound: u128,
)
    requires
        shallow(*old(b), bound as int),
        bound <= u128::MAX - usize::MAX,
        placed_in(old(out).deep_view(), old(b).closure),
    ensures
        block_state(*final(b), final(out).deep_view(), final(report).deep_view()) == with_line(
            block_state(*old(b), old(out).deep_view(), old(report).deep_view()),
            raw@,
            c.deep_view(),
        ),
        shallow(*final(b), bound + usize::MAX),
        placed_in(final(out).deep_view(), final(b).closure),
{
    let line = trim(raw);
    let opened: usize = count(line, '{');
    let closed: usize = count(line, '}');
    if b.constraints > 0 {
        b.constraints = depth_after(b.constraints, line);
        return ;
    }
    if starts_with(line, "constraints") && opened > closed {
        b.constraints = (opened - closed) as u128;
        return ;
    }
    let open: Option<Open> = b.closure.take();
    if let Some(o) = open {
        if let Some(e) = parse_exclude(line) {
            exclude_at(out, o.target, o.index, e);
        }
        let depth: u128 = depth_after(o.depth, line);
        if depth > 0 {
            b.closure = Some(Open { target: o.target, index: o.index, depth });
        }
        return ;
    }
    let Some(config) = leading_word(line) else {
        return ;
    };
    match find_target(config) {
        Some(target) => {
            read_declared(b, line, config, target, c, out, report);
        },
        None => {
            if is_reported(config) {
                report.skipped(
                    cat5(
                        "`",
                        line,
                        "` — the `",
                        config,
                        "` configuration has no equivalent in jrs.toml",
                    ),
                );
            }
        },
    }
}

/// Some of the arguments says how processors run.
pub open spec fn proc_flag(args: Seq<Seq<char>>) -> bool {
    exists|i: int| 0 <= i < args.len() && starts(#[trigger] args[i], "-proc:"@)
}

pub fn has_proc_flag(args: &Vec<String>) -> (r: bool)
    ensures
        r == proc_flag(args.deep_view()),
{
    let ghost all = args.deep_view();
    let mut i: usize = 0;
    while i < args.len()
        invariant
            all == args.deep_view(),
            i <= args@.len(),
            forall|j: int| 0 <= j < i ==> !starts(#[trigger] all[j], "-proc:"@),
        decreases args@.len() - i,
    {
        assert(all[i as int] == args@[i as int]@);
        if starts_with(args[i].as_str(), "-proc:") {
            return true;
        }
        i = i + 1;
    }
    false
}

/// The manifest and the report with the annotation processors that were
/// declared.
pub open spec fn with_processors(
    m: ManifestModel,
    processors: Seq<Seq<char>>,
    told: ReportModel,
) -> (ManifestModel, ReportModel) {
    if processors.len() == 0 {
        (m, told)
    } else {
        let adds = m.java.source matches Some(s) && s >= 21 && !proc_flag(m.java.javac_args);
        (
            if adds {
                ManifestModel {
                    java: JavaModel {
                        javac_args: m.java.javac_args.push("-proc:full"@),
                        ..m.java
                    },
                    ..m
                }
            } else {
                m
            },
            told.with_review(
                "annotation processors "@ + joined(processors, ", "@)
                    + " — put on the compile classpath as compile-only dependencies; javac from JDK 23 on runs them only with `-proc:full` in java.javac-args"@
                    + (if adds {
                    ", which was added"@
                } else {
                    ", which JDK 17 does not accept, so it was not added"@
                }),
            ),
        )
    }
}

fn add_processors(processors: &Vec<String>, out: &mut Manifest, report: &mut Report)
    ensures
        (final(out).deep_view(), final(report).deep_view()) == with_processors(
            old(out).deep_view(),
            processors.deep_view(),
            old(report).deep_view(),
        ),
{
    if processors.len() == 0 {
        return ;
    }
    let recent = match out.java.source {
        Some(s) => s >= 21,
        None => false,
    };
    let adds = recent && !has_proc_flag(&out.java.javac_args);
    if adds {
        put(&mut out.java.javac_args, "-proc:full".to_owned());
    }
    report.review(
        cat4(
            "annotation processors ",
            join(processors, ", ").as_str(),
            " — put on the compile classpath as compile-only dependencies; javac from JDK 23 on runs them only with `-proc:full` in java.javac-args",
            if adds {
                ", which was added"
            } else {
                ", which JDK 17 does not accept, so it was not added"
            },
        ),
    );
}

/// The `[kotlin]` version of a manifest.
pub open spec fn kotlin_version(m: ManifestModel) -> Option<Seq<char>> {
    match language_place(m.languages, Language::Kotlin, 0) {
        Some(i) => Some(m.languages[i].version),
        None => None,
    }
}

fn find_kotlin_version(m: &Manifest) -> (r: Option<String>)
    ensures
        r.deep_view() == kotlin_version(m.deep_view()),
{
    match find_language(&m.languages, Language::Kotlin) {
        Some(i) => {
            assert(m.languages.deep_view()[i as int] == m.languages@[i as int].deep_view());
            Some(m.languages[i].version.clone())
        },
        None => None,
    }
}

/// The manifest and the report once a script's dependencies are read.
pub open spec fn dependencies_read(
    script: Seq<char>,
    catalog: Seq<(Seq<char>, DependencyModel)>,
    files: FilesModel,
    m: ManifestModel,
    told: ReportModel,
) -> (ManifestModel, ReportModel) {
    let s = block_from(
        top_lines("dependencies"@, script),
        0,
        DepsModel { m, told, processors: seq![], closure: None, constraints: 0 },
        ContextModel {
            kotlin: kotlin_version(m),
            managed: m.managed.len() > 0,
            catalog,
            files,
        },
    );
    with_processors(s.m, s.processors, s.told)
}

/// The dependencies of a script's `dependencies { }`, in the tables their
/// configurations go to.
pub fn read_dependencies(
    script: &str,
    catalog: &Catalog,
    files: &Files,
    out: &mut Manifest,
    report: &mut Report,
)
    ensures
        (final(out).deep_view(), final(report).deep_view()) == dependencies_read(
            script@,
            catalog.deep_view(),
            files.deep_view(),
            old(out).deep_view(),
            old(report).deep_view(),
        ),
{
    let c = Context {
        kotlin: find_kotlin_version(out),
        managed: out.managed.len() > 0,
        catalog,
        files,
    };
    assert(out.deep_view().managed.len() == out.managed@.len());
    let ghost cm = c.deep_view();
    let list = block_lines(script, "dependencies");
    let ghost all = list.deep_view();
    let mut b = Block { processors: none_of(), closure: None, constraints: 0 };
    let ghost start = block_state(b, out.deep_view(), report.deep_view());
    let mut bound: u128 = 0;
    let mut i: usize = 0;
    while i < list.len()
        invariant
            all == list.deep_view(),
            cm == c.deep_view(),
            i <= list@.len(),
            bound == i * 0xffff_ffff_ffff_ffff,
            shallow(b, bound as int),
            placed_in(out.deep_view(), b.closure),
            block_from(all, 0, start, cm) == block_from(
                all,
                i as int,
                block_state(b, out.deep_view(), report.deep_view()),
                cm,
            ),
        decreases list@.len() - i,
    {
        assert(all[i as int] == list@[i as int]@);
        read_line(&mut b, list[i], &c, out, report, bound);
        bound = bound + 0xffff_ffff_ffff_ffff;
        i = i + 1;
    }
    add_processors(&b.processors, out, report);
}

// ---- laws ------------------------------------------------------------------

/// A dependency is on one table of a manifest at most once: declared again it
/// is merged with what is there.
pub proof fn declared_again_is_merged(
    list: Seq<DependencyModel>,
    target: Target,
    dep: DependencyModel,
    config: Seq<char>,
    told: ReportModel,
)
    requires
        forall|i: int, j: int| 0 <= i < j < list.len() ==> list[i].key() != list[j].key(),
    ensures
        ({
            let (after, at, _) = added(list, target, dep, config, told);
            &&& forall|i: int, j: int| 0 <= i < j < after.len() ==> after[i].key() != after[j].key()
            &&& 0 <= at < after.len()
            &&& after[at].key() == dep.key()
            &&& after.len() <= list.len() + 1
        }),
{
    lemma_key_place(list, dep.key(), 0);
}

proof fn lemma_key_place(list: Seq<DependencyModel>, key: Seq<char>, i: int)
    requires
        0 <= i,
    ensures
        key_place(list, key, i) matches Some(k) ==> i <= k < list.len() && list[k].key() == key,
        key_place(list, key, i) is None ==> forall|j: int|
            i <= j < list.len() ==> (#[trigger] list[j]).key() != key,
    decreases list.len() - i,
{
    if i < list.len() {
        lemma_key_place(list, key, i + 1);
    }
}

proof fn lemma_jars_told(
    jars: Seq<DependencyModel>,
    i: int,
    m: ManifestModel,
    target: Target,
    config: Seq<char>,
    told: ReportModel,
)
    requires
        0 <= i <= jars.len(),
    ensures
        jars_pushed(jars, i, m, target, config, told).1.count() == told.count() + jars.len() - i,
    decreases jars.len() - i,
{
    if i < jars.len() {
        let (m1, said) = pushed_local(m, target, jars[i], config, told);
        lemma_jars_told(jars, i + 1, m1, target, config, said);
    }
}

/// No declaration is dropped in silence: whatever is read from a line that
/// declares a dependency, the report says more. Platforms are read apart.
pub proof fn no_declaration_is_dropped(
    s: DepsModel,
    line: Seq<char>,
    config: Seq<char>,
    target: Target,
    c: ContextModel,
)
    requires
        platform_in(without_closure(line).0) is None,
    ensures
        with_declared(s, line, config, target, c).told.count() > s.told.count(),
{
    named_files_are_told(line, c.files, s.told);
    let (jars, said) = files_read(line, c.files, s.told);
    if let Some(jars) = jars {
        lemma_jars_told(jars, 0, s.m, target, config, said);
    }
}

} // verus!
