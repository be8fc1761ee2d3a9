//! What every migration does: versions that are managed, languages that are
//! turned on, and Spring Boot.

use crate::dependency::{Dependency, DependencyModel, Managed, ManagedModel};
use crate::language::Language;
use crate::manifest::{JavaModel, LanguageConfig, LanguageModel, Manifest, ManifestModel};
use crate::parse_dependencies::{is_managed, manages};
use crate::report::{Report, ReportModel};
use crate::text::{
    after_prefix, cat2, cat3, cat4, cat5, cat6, cat7, contains, cut_last, drop_run, line_seq, lines,
    listed, none_of, put, rsplit_once, same, sans_tail, strip_prefix, trim, trimmed, within, Class,
    Duplicate,
};
use vstd::prelude::*;

verus! {

/// The group of Spring Boot's artifacts.
pub const SPRING_BOOT_GROUP: &'static str = "org.springframework.boot";

/// Spring Boot's BOM.
pub const SPRING_BOOT_BOM: &'static str = "spring-boot-dependencies";

/// What a migrated build was built with.
#[derive(Debug, Clone, Copy, PartialEq, Eq, Structural)]
pub enum Source {
    Maven,
    Gradle,
}

/// A build's manifest, and what became of the build.
#[derive(Debug)]
pub struct Migration {
    pub source: Source,
    pub source_file: String,
    pub manifest: Manifest,
    pub report: Report,
}

/// A build's manifest, and what became of the build.
pub struct MigrationModel {
    pub source: Source,
    pub source_file: Seq<char>,
    pub manifest: ManifestModel,
    pub report: ReportModel,
}

impl DeepView for Migration {
    type V = MigrationModel;

    open spec fn deep_view(&self) -> MigrationModel {
        MigrationModel {
            source: self.source,
            source_file: self.source_file@,
            manifest: self.manifest.deep_view(),
            report: self.report.deep_view(),
        }
    }
}

impl Migration {
    /// The manifest as `jrs.toml` holds it.
    pub fn render_manifest(&self) -> (r: String)
        ensures
            r@ == crate::render::rendered(self.manifest.deep_view(), None),
    {
        self.manifest.render(None)
    }
}

// ---- managed versions ------------------------------------------------------

/// A manifest that manages one version more, unless it manages one already.
pub open spec fn with_managed(
    m: ManifestModel,
    group: Seq<char>,
    artifact: Seq<char>,
    version: Seq<char>,
    bom: bool,
) -> ManifestModel {
    if manages(m.managed, group, artifact) {
        m
    } else {
        ManifestModel {
            managed: m.managed.push(ManagedModel { group, artifact, version, bom }),
            ..m
        }
    }
}

/// Pin a version in `[managed]`, unless one is there. Whether it was added.
pub fn add_managed(out: &mut Manifest, group: &str, artifact: &str, version: &str) -> (r: bool)
    ensures
        r == !manages(old(out).deep_view().managed, group@, artifact@),
        final(out).deep_view() == with_managed(
            old(out).deep_view(),
            group@,
            artifact@,
            version@,
            false,
        ),
{
    if is_managed(&out.managed, group, artifact) {
        return false;
    }
    put(&mut out.managed, Managed::new(group, artifact, version));
    true
}

/// What is told of a BOM.
pub open spec fn bom_line(
    group: Seq<char>,
    artifact: Seq<char>,
    version: Seq<char>,
    from: Seq<char>,
) -> Seq<char> {
    "[managed] "@ + group + ":"@ + artifact + " = "@ + version + (", a BOM (from "@ + from + ")"@)
}

/// The manifest and the report with a BOM, unless it is there.
pub open spec fn with_bom(
    m: ManifestModel,
    told: ReportModel,
    group: Seq<char>,
    artifact: Seq<char>,
    version: Seq<char>,
    from: Seq<char>,
) -> (ManifestModel, ReportModel) {
    (
        with_managed(m, group, artifact, version, true),
        if manages(m.managed, group, artifact) {
            told
        } else {
            told.with_migrated(bom_line(group, artifact, version, from))
        },
    )
}

/// Import a BOM in `[managed]`, unless it is there.
pub fn add_bom(
    out: &mut Manifest,
    group: &str,
    artifact: &str,
    version: &str,
    from: &str,
    report: &mut Report,
)
    ensures
        (final(out).deep_view(), final(report).deep_view()) == with_bom(
            old(out).deep_view(),
            old(report).deep_view(),
            group@,
            artifact@,
            version@,
            from@,
        ),
{
    if is_managed(&out.managed, group, artifact) {
        return ;
    }
    put(&mut out.managed, Managed::bom(group, artifact, version));
    report.migrated(
        cat7(
            "[managed] ",
            group,
            ":",
            artifact,
            " = ",
            version,
            cat3(", a BOM (from ", from, ")").as_str(),
        ),
    );
}

// ---- Spring Boot -----------------------------------------------------------

/// Import Spring Boot's BOM.
pub fn spring_boot_bom(out: &mut Manifest, version: &str, from: &str, report: &mut Report)
    ensures
        (final(out).deep_view(), final(report).deep_view()) == with_bom(
            old(out).deep_view(),
            old(report).deep_view(),
            SPRING_BOOT_GROUP@,
            SPRING_BOOT_BOM@,
            version@,
            from@,
        ),
{
    add_bom(out, SPRING_BOOT_GROUP, SPRING_BOOT_BOM, version, from, report);
}

/// The manifest and the report with the parameter names that Spring Boot
/// compiles in.
pub open spec fn with_parameters(m: ManifestModel, told: ReportModel, from: Seq<char>) -> (
    ManifestModel,
    ReportModel,
) {
    if m.java.javac_args.contains("-parameters"@) {
        (m, told)
    } else {
        (
            ManifestModel {
                java: JavaModel { javac_args: m.java.javac_args.push("-parameters"@), ..m.java },
                ..m
            },
            told.with_migrated("java.javac-args gained -parameters (from "@ + from + ")"@),
        )
    }
}

/// Spring Boot compiles with `-parameters`.
pub fn spring_boot_parameters(out: &mut Manifest, from: &str, report: &mut Report)
    ensures
        (final(out).deep_view(), final(report).deep_view()) == with_parameters(
            old(out).deep_view(),
            old(report).deep_view(),
            from@,
        ),
{
    if listed(&out.java.javac_args, "-parameters") {
        return ;
    }
    put(&mut out.java.javac_args, "-parameters".to_owned());
    report.migrated(cat3("java.javac-args gained -parameters (from ", from, ")"));
}

/// The manifest and the report with the `@SpringBootApplication` class as the
/// main class, where there is none.
pub open spec fn with_application(
    m: ManifestModel,
    told: ReportModel,
    class: Option<Seq<char>>,
    from: Seq<char>,
) -> (ManifestModel, ReportModel) {
    match class {
        Some(c) if m.main_class is None => (
            ManifestModel { main_class: Some(c), ..m },
            told.with_migrated(
                "project.main-class = "@ + c + ", the @SpringBootApplication class (from "@ + from
                    + ")"@,
            ),
        ),
        _ => (m, told),
    }
}

/// Make `class`, the project's `@SpringBootApplication`, the main class,
/// unless there is one.
pub fn spring_boot_application(
    out: &mut Manifest,
    class: Option<&str>,
    from: &str,
    report: &mut Report,
)
    ensures
        (final(out).deep_view(), final(report).deep_view()) == with_application(
            old(out).deep_view(),
            old(report).deep_view(),
            class.deep_view(),
            from@,
        ),
{
    if out.main_class.is_some() {
        return ;
    }
    if let Some(c) = class {
        out.main_class = Some(c.to_owned());
        report.migrated(
            cat5(
                "project.main-class = ",
                c,
                ", the @SpringBootApplication class (from ",
                from,
                ")",
            ),
        );
    }
}

/// The package that the lines from `i` on declare.
pub open spec fn package_from(lines: Seq<Seq<char>>, i: int) -> Option<Seq<char>>
    decreases lines.len() - i,
{
    if i < 0 || i >= lines.len() {
        None
    } else {
        match after_prefix(trimmed(lines[i]), "package "@) {
            Some(rest) => Some(trimmed(sans_tail(trimmed(rest), Class::One(';')))),
            None => package_from(lines, i + 1),
        }
    }
}

fn find_package(text: &str) -> (r: Option<&str>)
    ensures
        r.deep_view() == package_from(line_seq(text@), 0),
{
    let list = lines(text);
    let ghost all = list.deep_view();
    let mut i: usize = 0;
    while i < list.len()
        invariant
            all == list.deep_view(),
            all == line_seq(text@),
            i <= list@.len(),
            package_from(all, 0) == package_from(all, i as int),
        decreases list@.len() - i,
    {
        assert(all[i as int] == list@[i as int]@);
        if let Some(rest) = strip_prefix(trim(list[i]), "package ") {
            return Some(trim(drop_run(trim(rest), Class::One(';'))));
        }
        i = i + 1;
    }
    None
}

/// The class that a source file, by its path and text, makes the main class:
/// Kotlin's main function compiles into `<File>Kt`.
pub open spec fn application_of(path: Seq<char>, text: Seq<char>) -> Option<Seq<char>> {
    if !within(text, "@SpringBootApplication"@) {
        None
    } else {
        let file = match cut_last(path, "/"@) {
            Some((_, f)) => f,
            None => path,
        };
        let (stem, extension) = match cut_last(file, "."@) {
            Some((s, e)) => (s, e),
            None => (file, ""@),
        };
        let class = if extension == "kt"@ {
            stem + "Kt"@
        } else {
            stem
        };
        match package_from(line_seq(text), 0) {
            Some(p) => Some(p + "."@ + class),
            None => Some(class),
        }
    }
}

/// The class that a source file, by its path and text, makes the main class:
/// Kotlin's main function compiles into `<File>Kt`.
pub fn application_class(path: &str, text: &str) -> (r: Option<String>)
    ensures
        r.deep_view() == application_of(path@, text@),
{
    if !contains(text, "@SpringBootApplication") {
        return None;
    }
    let file = match rsplit_once(path, "/") {
        Some((_, f)) => f,
        None => path,
    };
    let (stem, extension) = match rsplit_once(file, ".") {
        Some((s, e)) => (s, e),
        None => (file, ""),
    };
    let class = if same(extension, "kt") {
        cat2(stem, "Kt")
    } else {
        stem.to_owned()
    };
    match find_package(text) {
        Some(p) => Some(cat3(p, ".", class.as_str())),
        None => Some(class),
    }
}

// ---- languages -------------------------------------------------------------

/// A language's table with its version alone.
pub open spec fn bare_language(language: Language, version: Seq<char>) -> LanguageModel {
    LanguageModel {
        language,
        version,
        source_dir: "src/main/"@ + language.word(),
        test_dir: "src/test/"@ + language.word(),
        compiler_args: seq![],
        compiler_jvm_args: seq![],
    }
}

/// Some table of the list is the language's.
pub open spec fn enabled(list: Seq<LanguageModel>, language: Language) -> bool {
    exists|i: int| 0 <= i < list.len() && (#[trigger] list[i]).language == language
}

fn is_enabled(list: &Vec<LanguageConfig>, language: Language) -> (r: bool)
    ensures
        r == enabled(list.deep_view(), language),
{
    let ghost all = list.deep_view();
    let mut i: usize = 0;
    while i < list.len()
        invariant
            all == list.deep_view(),
            i <= list@.len(),
            forall|j: int| 0 <= j < i ==> (#[trigger] all[j]).language != language,
        decreases list@.len() - i,
    {
        assert(all[i as int] == list@[i as int].deep_view());
        if list[i].language == language {
            return true;
        }
        i = i + 1;
    }
    false
}

/// The manifest and the report with a language turned on.
pub open spec fn with_language(
    m: ManifestModel,
    told: ReportModel,
    language: Language,
    version: Seq<char>,
    from: Seq<char>,
) -> (ManifestModel, ReportModel) {
    if enabled(m.languages, language) {
        (m, told)
    } else {
        match language.refusal(version) {
            Some(why) => (
                m,
                told.with_skipped(
                    from + " — "@ + language.title() + " "@ + version + ": "@ + why,
                ),
            ),
            None => (
                ManifestModel { languages: m.languages.push(bare_language(language, version)), ..m },
                told.with_migrated(
                    "["@ + language.word() + "] version = "@ + version + " (from "@ + from + ")"@,
                ),
            ),
        }
    }
}

/// Turn a language on at `version`, unless it is on, or say why jrs cannot
/// compile it.
pub fn enable_language(
    out: &mut Manifest,
    language: Language,
    version: &str,
    from: &str,
    report: &mut Report,
)
    ensures
        (final(out).deep_view(), final(report).deep_view()) == with_language(
            old(out).deep_view(),
            old(report).deep_view(),
            language,
            version@,
            from@,
        ),
{
    if is_enabled(&out.languages, language) {
        return ;
    }
    if let Some(why) = language.check_version(version) {
        report.skipped(
            cat7(from, " — ", language.name(), " ", version, ": ", why.as_str()),
        );
        return ;
    }
    put(
        &mut out.languages,
        LanguageConfig {
            language,
            version: version.to_owned(),
            source_dir: cat2("src/main/", language.key()),
            test_dir: cat2("src/test/", language.key()),
            compiler_args: none_of(),
            compiler_jvm_args: none_of(),
        },
    );
    report.migrated(
        cat7("[", language.key(), "] version = ", version, " (from ", from, ")"),
    );
}

/// A dependency is the library that a language's programs run with.
pub open spec fn runs_language(d: DependencyModel, language: Language) -> bool {
    match language {
        Language::Java => false,
        Language::Kotlin => d.group == "org.jetbrains.kotlin"@ && d.artifact == "kotlin-stdlib"@,
        Language::Scala => d.group == "org.scala-lang"@ && (d.artifact == "scala3-library_3"@
            || d.artifact == "scala-library"@),
        Language::Groovy => d.group == "org.apache.groovy"@ && (d.artifact == "groovy"@
            || d.artifact == "groovy-all"@),
    }
}

fn does_run(d: &Dependency, language: Language) -> (r: bool)
    ensures
        r == runs_language(d.deep_view(), language),
{
    let group = d.group.as_str();
    let artifact = d.artifact.as_str();
    match language {
        Language::Java => false,
        Language::Kotlin => same(group, "org.jetbrains.kotlin") && same(artifact, "kotlin-stdlib"),
        Language::Scala => same(group, "org.scala-lang") && (same(artifact, "scala3-library_3")
            || same(artifact, "scala-library")),
        Language::Groovy => same(group, "org.apache.groovy") && (same(artifact, "groovy") || same(
            artifact,
            "groovy-all",
        )),
    }
}

/// The version, from the `i`th dependency on, of the library that a
/// language's programs run with.
pub open spec fn library_version(list: Seq<DependencyModel>, language: Language, i: int) -> Option<
    Seq<char>,
>
    decreases list.len() - i,
{
    if i < 0 || i >= list.len() {
        None
    } else if runs_language(list[i], language) && list[i].version.len() > 0 {
        Some(list[i].version)
    } else {
        library_version(list, language, i + 1)
    }
}

fn find_library_version(list: &Vec<Dependency>, language: Language) -> (r: Option<String>)
    ensures
        r.deep_view() == library_version(list.deep_view(), language, 0),
{
    let ghost all = list.deep_view();
    let mut i: usize = 0;
    while i < list.len()
        invariant
            all == list.deep_view(),
            i <= list@.len(),
            library_version(all, language, 0) == library_version(all, language, i as int),
        decreases list@.len() - i,
    {
        assert(all[i as int] == list@[i as int].deep_view());
        if does_run(&list[i], language) && !list[i].version.as_str().is_empty() {
            return Some(list[i].version.clone());
        }
        i = i + 1;
    }
    None
}

/// The library that a language's version is read from.
pub open spec fn library_of(language: Language) -> Seq<char> {
    match language {
        Language::Java => "a library"@,
        Language::Kotlin => "org.jetbrains.kotlin:kotlin-stdlib"@,
        Language::Scala => "org.scala-lang:scala3-library_3 or org.scala-lang:scala-library"@,
        Language::Groovy => "org.apache.groovy:groovy"@,
    }
}

fn name_library(language: Language) -> (r: &'static str)
    ensures
        r@ == library_of(language),
{
    match language {
        Language::Java => "a library",
        Language::Kotlin => "org.jetbrains.kotlin:kotlin-stdlib",
        Language::Scala => "org.scala-lang:scala3-library_3 or org.scala-lang:scala-library",
        Language::Groovy => "org.apache.groovy:groovy",
    }
}

/// The manifest and the report with a language turned on at its library's
/// version.
pub open spec fn with_library_language(
    m: ManifestModel,
    told: ReportModel,
    language: Language,
    from: Seq<char>,
) -> (ManifestModel, ReportModel) {
    let version = match library_version(m.dependencies, language, 0) {
        Some(v) => Some(v),
        None => library_version(m.dev_dependencies, language, 0),
    };
    match version {
        Some(v) => with_language(m, told, language, v, from),
        None => (
            m,
            told.with_skipped(
                from + " — the "@ + language.title() + " version is read from "@ + library_of(
                    language,
                ) + (", which is not declared with one; no ["@ + language.word()
                    + "] table was written"@),
            ),
        ),
    }
}

/// Turn a language on at the version of its library among the dependencies.
pub fn enable_from_library(out: &mut Manifest, language: Language, from: &str, report: &mut Report)
    ensures
        (final(out).deep_view(), final(report).deep_view()) == with_library_language(
            old(out).deep_view(),
            old(report).deep_view(),
            language,
            from@,
        ),
{
    let version = match find_library_version(&out.dependencies, language) {
        Some(v) => Some(v),
        None => find_library_version(&out.dev_dependencies, language),
    };
    match version {
        Some(v) => {
            enable_language(out, language, v.as_str(), from, report);
        },
        None => {
            report.skipped(
                cat6(
                    from,
                    " — the ",
                    language.name(),
                    " version is read from ",
                    name_library(language),
                    cat3(
                        ", which is not declared with one; no [",
                        language.key(),
                        "] table was written",
                    ).as_str(),
                ),
            );
        },
    }
}

/// A dependency is a library that a language's programs run with.
pub open spec fn library_of_language(d: DependencyModel, language: LanguageModel) -> bool {
    let libraries = language.language.libraries(language.version);
    d.classifier is None && exists|i: int|
        0 <= i < libraries.len() && #[trigger] libraries[i] == (d.group, d.artifact)
}

fn is_library_of(d: &Dependency, language: &LanguageConfig) -> (r: bool)
    ensures
        r == library_of_language(d.deep_view(), language.deep_view()),
{
    let libraries = language.language.runtime_libraries(language.version.as_str());
    let ghost all = libraries.deep_view();
    if d.classifier.is_some() {
        return false;
    }
    let mut i: usize = 0;
    while i < libraries.len()
        invariant
            all == libraries.deep_view(),
            all == language.deep_view().language.libraries(language.deep_view().version),
            d.deep_view().classifier is None,
            i <= libraries@.len(),
            forall|j: int| 0 <= j < i ==> #[trigger] all[j] != (d.group@, d.artifact@),
        decreases libraries@.len() - i,
    {
        assert(all[i as int] == (libraries@[i as int].0@, libraries@[i as int].1@));
        if same(libraries[i].0, d.group.as_str()) && same(libraries[i].1, d.artifact.as_str()) {
            assert(all[i as int] == (d.group@, d.artifact@));
            return true;
        }
        i = i + 1;
    }
    false
}

/// The first language from the `i`th on whose library the dependency is.
pub open spec fn language_of_library(
    d: DependencyModel,
    languages: Seq<LanguageModel>,
    i: int,
) -> Option<LanguageModel>
    decreases languages.len() - i,
{
    if i < 0 || i >= languages.len() {
        None
    } else if library_of_language(d, languages[i]) {
        Some(languages[i])
    } else {
        language_of_library(d, languages, i + 1)
    }
}

fn find_language_of<'a>(d: &Dependency, languages: &'a Vec<LanguageConfig>) -> (r: Option<
    &'a LanguageConfig,
>)
    ensures
        r.deep_view() == language_of_library(d.deep_view(), languages.deep_view(), 0),
{
    let ghost all = languages.deep_view();
    let mut i: usize = 0;
    while i < languages.len()
        invariant
            all == languages.deep_view(),
            i <= languages@.len(),
            language_of_library(d.deep_view(), all, 0) == language_of_library(
                d.deep_view(),
                all,
                i as int,
            ),
        decreases languages@.len() - i,
    {
        assert(all[i as int] == languages@[i as int].deep_view());
        if is_library_of(d, &languages[i]) {
            return Some(&languages[i]);
        }
        i = i + 1;
    }
    None
}

/// A dependency that a language's table implies: its library at its version,
/// with nothing of its own.
pub open spec fn implied_by(d: DependencyModel, language: LanguageModel) -> bool {
    d.plain() && (d.version.len() == 0 || d.version == language.version)
}

/// The dependencies from the `i`th on that no language implies, and the report
/// of the languages' libraries.
pub open spec fn unimplied_from(
    list: Seq<DependencyModel>,
    languages: Seq<LanguageModel>,
    i: int,
    out: Seq<DependencyModel>,
    told: ReportModel,
) -> (Seq<DependencyModel>, ReportModel)
    decreases list.len() - i,
{
    if i < 0 || i >= list.len() {
        (out, told)
    } else {
        let d = list[i];
        match language_of_library(d, languages, 0) {
            None => unimplied_from(list, languages, i + 1, out.push(d), told),
            Some(language) => if implied_by(d, language) {
                unimplied_from(
                    list,
                    languages,
                    i + 1,
                    out,
                    told.with_migrated(
                        d.key() + " — implied by ["@ + language.language.word() + "]"@,
                    ),
                )
            } else if d.version != language.version {
                unimplied_from(
                    list,
                    languages,
                    i + 1,
                    out.push(d),
                    told.with_review(
                        d.key() + " — kept at the version declared, "@ + d.version + "; ["@
                            + language.language.word() + ("] implies "@ + language.version),
                    ),
                )
            } else {
                unimplied_from(list, languages, i + 1, out.push(d), told)
            },
        }
    }
}

/// Take the runtime libraries that the languages imply out of the
/// dependencies. One at another version than its language's stays, and is
/// reported.
pub fn drop_implied_libraries(out: &mut Manifest, report: &mut Report)
    ensures
        ({
            let m = old(out).deep_view();
            let (kept, told) = unimplied_from(
                m.dependencies,
                m.languages,
                0,
                seq![],
                old(report).deep_view(),
            );
            &&& final(out).deep_view() == (ManifestModel { dependencies: kept, ..m })
            &&& final(report).deep_view() == told
        }),
{
    let ghost m = out.deep_view();
    let ghost all = m.dependencies;
    let ghost start = report.deep_view();
    let mut kept: Vec<Dependency> = none_of();
    let mut i: usize = 0;
    while i < out.dependencies.len()
        invariant
            out == old(out),
            m == out.deep_view(),
            all == out.dependencies.deep_view(),
            i <= out.dependencies@.len(),
            unimplied_from(all, m.languages, 0, seq![], start) == unimplied_from(
                all,
                m.languages,
                i as int,
                kept.deep_view(),
                report.deep_view(),
            ),
        decreases out.dependencies@.len() - i,
    {
        let d = &out.dependencies[i];
        assert(all[i as int] == d.deep_view());
        let mut keep = true;
        if let Some(language) = find_language_of(d, &out.languages) {
            let same_version = same(d.version.as_str(), language.version.as_str());
            if d.is_plain() && (d.version.as_str().is_empty() || same_version) {
                keep = false;
                report.migrated(
                    cat4(
                        d.key().as_str(),
                        " — implied by [",
                        language.language.key(),
                        "]",
                    ),
                );
            } else if !same_version {
                report.review(
                    cat6(
                        d.key().as_str(),
                        " — kept at the version declared, ",
                        d.version.as_str(),
                        "; [",
                        language.language.key(),
                        cat2("] implies ", language.version.as_str()).as_str(),
                    ),
                );
            }
        }
        if keep {
            put(&mut kept, d.duplicate());
        }
        i = i + 1;
    }
    out.dependencies = kept;
}

/// What a compiler plugin of Kotlin's is for.
pub open spec fn compiler_plugin_use(name: Seq<char>) -> Seq<char> {
    if name == "spring"@ {
        "it opens Spring's classes"@
    } else if name == "jpa"@ {
        "it adds the constructors JPA needs"@
    } else if name == "allopen"@ || name == "all-open"@ {
        "it opens annotated classes"@
    } else if name == "noarg"@ || name == "no-arg"@ {
        "it adds constructors without arguments"@
    } else if name == "serialization"@ {
        "it generates serializers"@
    } else if name == "kapt"@ {
        "it runs annotation processors over Kotlin sources"@
    } else {
        "it is a compiler plugin"@
    }
}

/// Report a compiler plugin of Kotlin's, which jrs does not run.
pub fn report_compiler_plugin(name: &str, from: &str, report: &mut Report)
    ensures
        final(report).deep_view() == old(report).deep_view().with_skipped(
            from@ + " — "@ + compiler_plugin_use(name@)
                + ", and jrs runs kotlinc without compiler plugins"@,
        ),
{
    let what = if same(name, "spring") {
        "it opens Spring's classes"
    } else if same(name, "jpa") {
        "it adds the constructors JPA needs"
    } else if same(name, "allopen") || same(name, "all-open") {
        "it opens annotated classes"
    } else if same(name, "noarg") || same(name, "no-arg") {
        "it adds constructors without arguments"
    } else if same(name, "serialization") {
        "it generates serializers"
    } else if same(name, "kapt") {
        "it runs annotation processors over Kotlin sources"
    } else {
        "it is a compiler plugin"
    };
    report.skipped(
        cat4(from, " — ", what, ", and jrs runs kotlinc without compiler plugins"),
    );
}

} // verus!
