//! What a Maven project becomes can be loaded.

use crate::attributes::{attribute_of, name_alike};
use crate::coord::ga_text;
use crate::dependency::{
    open_repository, plain_dependency, CENTRAL_NAME, CENTRAL_URL, DependencyModel, RepositoryModel,
};
use crate::element::ElementModel;
use crate::error::Fault;
use crate::gradle_files::FilesModel;
use crate::language::Language;
use crate::manifest::{blank_manifest, language_at, JavaModel, LanguageModel, ManifestModel};
use crate::maven::{boot_read, chain_from, migrated, pom_migrated, ChainModel, ProjectModel};
use crate::maven_build::{
    boot_java_read, entries_from, entry_value, jar_manifest_read, java_read, jvm_target_read,
    kotlin_read, languages_read, layout_read, main_read, plugin_config, plugin_version_from,
    proguard_read, test_read, with_entry,
};
use crate::maven_deps::{
    classifier_of, dependencies_from, dependencies_read, filled_text, imports_read, managed_read,
    pins_read, processor_paths, processors_from, processors_read, repositories_from,
    repositories_read, system_jar_of, version_of, with_dependency, with_pinned, with_processor,
    with_scoped,
};
use crate::maven_exec::{exec_read, plugin_in};
use crate::maven_loads::{execs_put, lemma_execs_load, lemma_executions, worded_task};
use crate::migration::{
    library_version, with_bom, with_language, with_library_language, SPRING_BOOT_BOM,
    SPRING_BOOT_GROUP,
};
use crate::migration_loads::{
    good_dirs, lemma_blank_put, lemma_language_place, lemma_language_put, lemma_managed_put,
    lemma_put_together, lemma_unimplied, put_languages, put_repositories, switched, unswitched,
    well_put, worded,
};
use crate::parse::language_checks_from;
use crate::parse_dependencies::{has_bom, keyed, keys_distinct, whole_central};
use crate::pom::{
    chain_properties, chained, effective_of, inherited_from, interpolated, managed_from,
    more_repositories, own_properties, property, property_from, scope_named, text_or,
    EffectiveModel, PluginModel, PomDependencyModel, PomModel, Properties, Scope,
};
use crate::render::rendered;
use crate::report::{empty_report, ReportModel};
use crate::reread::lemma_tail_once;
use crate::reread_dependencies::{good_repository, repositories_apart};
use crate::reread_manifest::{good_manifest, plain_header, readable, reads_back, same_manifest};
use crate::reread_paths::good_dir;
use crate::reread_settings::{good_attributes, good_java};
use crate::sheet_of::{languages_in_order, one_language};
use crate::template::TemplateModel;
use crate::text::{sans_tail, trimmed, within, Class};
use vstd::prelude::*;

verus! {

/// Attributes that a jar's manifest can have.
pub open spec fn put_attributes(list: Seq<(Seq<char>, TemplateModel)>) -> bool {
    forall|i: int|
        0 <= i < list.len() ==> attribute_of((#[trigger] list[i]).0, list[i].1.raw) == Ok::<
            TemplateModel,
            Fault,
        >(list[i].1)
}

/// Repositories that a table can declare, with Central behind them.
pub open spec fn put_before_central(list: Seq<RepositoryModel>) -> bool {
    &&& list.len() > 0
    &&& list.last() == open_repository(CENTRAL_NAME@, CENTRAL_URL@)
    &&& put_repositories(list.drop_last())
    &&& repositories_apart(list.drop_last())
}

/// What holds of the manifest of a project while it is filled.
#[verifier::opaque]
pub open spec fn maven_put(m: ManifestModel) -> bool {
    &&& well_put(m)
    &&& put_attributes(m.package.manifest)
    &&& put_before_central(m.repositories)
    &&& languages_in_order(m.languages)
    &&& execs_put(m.tasks, m.hooks)
}

proof fn lemma_blank(name: Seq<char>, version: Seq<char>, root: Seq<char>)
    ensures
        maven_put(blank_manifest(name, version, root)),
{
    reveal(maven_put);
    lemma_blank_put(name, version, root);
    let m = blank_manifest(name, version, root);
    assert(m.repositories.drop_last() =~= seq![]);
    lemma_in_order(m.languages);
}

/// At most one table of each language, Kotlin before Scala before Groovy.
proof fn lemma_in_order(list: Seq<LanguageModel>)
    requires
        list.len() == 0 || (list.len() == 1 && !(list[0].language is Java)) || (list.len() == 2
            && list[0].language is Kotlin && (list[1].language is Scala || list[1].language is Groovy))
            || (list.len() == 2 && list[0].language is Scala && list[1].language is Groovy) || (
        list.len() == 3 && list[0].language is Kotlin && list[1].language is Scala
            && list[2].language is Groovy),
    ensures
        languages_in_order(list),
{
    reveal_with_fuel(language_at, 4);
    assert(list =~= one_language(language_at(list, Language::Kotlin, 0)) + one_language(
        language_at(list, Language::Scala, 0),
    ) + one_language(language_at(list, Language::Groovy, 0)));
}

// ---- [java] and [package] --------------------------------------------------

/// What is said of Java stays: the source release once there is one, the
/// target, the encoding and the arguments of javac.
pub open spec fn kept_java(a: JavaModel, b: JavaModel) -> bool {
    &&& a.source is Some ==> b.source == a.source
    &&& b.target == a.target
    &&& b.encoding == a.encoding
    &&& forall|k: int| 0 <= k < a.javac_args.len() ==> b.javac_args.contains(#[trigger] a.javac_args[k])
}

proof fn lemma_kept(a: JavaModel, b: JavaModel, c: JavaModel)
    requires
        kept_java(a, b),
        kept_java(b, c),
    ensures
        kept_java(a, c),
{
    assert forall|k: int| 0 <= k < a.javac_args.len() implies c.javac_args.contains(
        #[trigger] a.javac_args[k],
    ) by {
        let j = choose|j: int| 0 <= j < b.javac_args.len() && b.javac_args[j] == a.javac_args[k];
        assert(c.javac_args.contains(b.javac_args[j]));
    }
}

proof fn lemma_same_java(a: JavaModel, b: JavaModel)
    requires
        b == (JavaModel { source: b.source, ..a }),
        a.source is Some ==> b.source == a.source,
    ensures
        kept_java(a, b),
{
}

proof fn lemma_more_java(a: JavaModel, b: JavaModel, flag: Seq<char>)
    requires
        b == a || b == (JavaModel { javac_args: a.javac_args.push(flag), ..a }),
    ensures
        kept_java(a, b),
{
    assert forall|k: int| 0 <= k < a.javac_args.len() implies b.javac_args.contains(
        #[trigger] a.javac_args[k],
    ) by {
        assert(b.javac_args[k] == a.javac_args[k]);
    }
}

proof fn lemma_java(pom: PomModel, props: Properties, m: ManifestModel, told: ReportModel)
    requires
        maven_put(m),
    ensures
        maven_put(java_read(pom, props, m, told).0),
        java_read(pom, props, m, told).0.languages == m.languages,
{
    reveal(maven_put);
}

proof fn lemma_boot_java(props: Properties, m: ManifestModel, told: ReportModel)
    requires
        maven_put(m),
    ensures
        maven_put(boot_java_read(props, m, told).0),
        boot_java_read(props, m, told).0.languages == m.languages,
        kept_java(m.java, boot_java_read(props, m, told).0.java),
{
    lemma_same_java(m.java, boot_java_read(props, m, told).0.java);
    reveal(maven_put);
}

proof fn lemma_main(pom: PomModel, props: Properties, m: ManifestModel, told: ReportModel)
    requires
        maven_put(m),
    ensures
        maven_put(main_read(pom, props, m, told).0),
        main_read(pom, props, m, told).0.languages == m.languages,
        main_read(pom, props, m, told).0.java == m.java,
{
    reveal(maven_put);
}

proof fn lemma_entry(m: ManifestModel, told: ReportModel, entry: ElementModel)
    requires
        maven_put(m),
    ensures
        maven_put(with_entry(m, told, entry).0),
        with_entry(m, told, entry).0.languages == m.languages,
        with_entry(m, told, entry).0.java == m.java,
{
    reveal(maven_put);
    let list = m.package.manifest;
    if let Ok(template) = attribute_of(entry.name, entry_value(trimmed(entry.text))) {
        let more = list.push((entry.name, template));
        assert forall|k: int| 0 <= k < more.len() implies attribute_of(
            (#[trigger] more[k]).0,
            more[k].1.raw,
        ) == Ok::<TemplateModel, Fault>(more[k].1) by {
            if k < list.len() {
                assert(more[k] == list[k]);
            }
        }
    }
}

proof fn lemma_entries(entries: Seq<ElementModel>, i: int, m: ManifestModel, told: ReportModel)
    requires
        0 <= i,
        maven_put(m),
    ensures
        maven_put(entries_from(entries, i, m, told).0),
        entries_from(entries, i, m, told).0.languages == m.languages,
        entries_from(entries, i, m, told).0.java == m.java,
    decreases entries.len() - i,
{
    if i < entries.len() {
        lemma_entry(m, told, entries[i]);
        let (next, more) = with_entry(m, told, entries[i]);
        lemma_entries(entries, i + 1, next, more);
    }
}

proof fn lemma_jar(pom: PomModel, m: ManifestModel, told: ReportModel)
    requires
        maven_put(m),
    ensures
        maven_put(jar_manifest_read(pom, m, told).0),
        jar_manifest_read(pom, m, told).0.languages == m.languages,
        jar_manifest_read(pom, m, told).0.java == m.java,
{
    if let Some(c) = plugin_config(pom, "maven-jar-plugin"@) {
        if let Some(entries) = c.grandchild("archive"@, "manifestEntries"@) {
            lemma_entries(entries.children, 0, m, told);
        }
    }
}

proof fn lemma_proguard(pom: PomModel, m: ManifestModel, told: ReportModel)
    requires
        maven_put(m),
    ensures
        maven_put(proguard_read(pom, m, told).0),
        proguard_read(pom, m, told).0.languages == m.languages,
        proguard_read(pom, m, told).0.java == m.java,
{
    reveal(maven_put);
}

// ---- [managed] and [dependencies] ------------------------------------------

proof fn lemma_imports(
    imports: Seq<PomDependencyModel>,
    i: int,
    m: ManifestModel,
    told: ReportModel,
)
    requires
        0 <= i,
        maven_put(m),
    ensures
        maven_put(imports_read(imports, i, m, told).0),
        imports_read(imports, i, m, told).0.languages == m.languages,
        imports_read(imports, i, m, told).0.java == m.java,
    decreases imports.len() - i,
{
    if i < imports.len() {
        reveal(maven_put);
        let d = imports[i];
        let version = text_or(d.version, ""@);
        lemma_managed_put(m, d.group, d.artifact, version, true);
        let from = "<dependencyManagement> <scope>import</scope>"@;
        if within(version, "${"@) {
            lemma_imports(
                imports,
                i + 1,
                m,
                told.with_skipped(
                    "<dependencyManagement> import "@ + d.group + ":"@ + d.artifact + ":"@ + version
                        + " — the version did not interpolate"@,
                ),
            );
        } else {
            let (next, more) = with_bom(m, told, d.group, d.artifact, version, from);
            lemma_imports(imports, i + 1, next, more);
        }
    }
}

proof fn lemma_pins(
    managed: Seq<PomDependencyModel>,
    i: int,
    declared: Seq<PomDependencyModel>,
    m: ManifestModel,
    told: ReportModel,
    pinned: nat,
)
    requires
        0 <= i,
        maven_put(m),
    ensures
        maven_put(pins_read(managed, i, declared, m, told, pinned).0),
        pins_read(managed, i, declared, m, told, pinned).0.languages == m.languages,
        pins_read(managed, i, declared, m, told, pinned).0.java == m.java,
    decreases managed.len() - i,
{
    if i < managed.len() {
        reveal(maven_put);
        let d = managed[i];
        if let Some(version) = d.version {
            lemma_managed_put(m, d.group, d.artifact, version, false);
        }
        let (next, more, n) = with_pinned(m, told, pinned, d, declared);
        assert(maven_put(next));
        lemma_pins(managed, i + 1, declared, next, more, n);
    }
}

proof fn lemma_managed(
    e: EffectiveModel,
    boot: Option<Seq<char>>,
    m: ManifestModel,
    told: ReportModel,
)
    requires
        maven_put(m),
    ensures
        maven_put(managed_read(e, boot, m, told).0),
        managed_read(e, boot, m, told).0.languages == m.languages,
        managed_read(e, boot, m, told).0.java == m.java,
{
    lemma_imports(e.imports, 0, m, told);
    let (a, told) = imports_read(e.imports, 0, m, told);
    match boot {
        Some(version) => {
            let (b, told) = with_bom(
                a,
                told,
                SPRING_BOOT_GROUP@,
                SPRING_BOOT_BOM@,
                version,
                "<parent> spring-boot-starter-parent"@,
            );
            let told = told.with_review(
                "<parent> spring-boot-starter-parent "@ + version
                    + " — its managed versions are the BOM now in [managed]; its plugin configuration and resource filtering were not applied"@,
            );
            assert(maven_put(b)) by {
                reveal(maven_put);
                lemma_managed_put(a, SPRING_BOOT_GROUP@, SPRING_BOOT_BOM@, version, true);
            }
            lemma_pins(e.managed, 0, e.dependencies, b, told, 0);
        },
        None => {
            lemma_pins(e.managed, 0, e.dependencies, a, told, 0);
        },
    }
}

proof fn lemma_more_switched(list: Seq<DependencyModel>, d: DependencyModel)
    requires
        switched(list),
        !(d.compile_only && d.runtime_only),
    ensures
        switched(list.push(d)),
{
    let next = list.push(d);
    assert forall|k: int| 0 <= k < next.len() implies !((#[trigger] next[k]).compile_only
        && next[k].runtime_only) by {
        if k < list.len() {
            assert(next[k] == list[k]);
        }
    }
}

proof fn lemma_more_unswitched(list: Seq<DependencyModel>, d: DependencyModel)
    requires
        unswitched(list),
        keys_distinct(list),
        !keyed(list, d.key()),
        !d.compile_only && !d.runtime_only,
    ensures
        unswitched(list.push(d)),
        keys_distinct(list.push(d)),
{
    let next = list.push(d);
    assert forall|k: int| 0 <= k < next.len() implies !(#[trigger] next[k]).compile_only
        && !next[k].runtime_only by {
        if k < list.len() {
            assert(next[k] == list[k]);
        }
    }
    assert forall|a: int, b: int| 0 <= a < b < next.len() implies (#[trigger] next[a]).key() != (
    #[trigger] next[b]).key() by {
        assert(next[a] == list[a]);
        if b < list.len() {
            assert(next[b] == list[b]);
        }
    }
}

proof fn lemma_scoped(
    m: ManifestModel,
    told: ReportModel,
    d: PomDependencyModel,
    classifier: Option<Seq<char>>,
    scope: Scope,
    bom: bool,
)
    requires
        maven_put(m),
    ensures
        maven_put(with_scoped(m, told, d, classifier, scope, bom).0),
        with_scoped(m, told, d, classifier, scope, bom).0.languages == m.languages,
        with_scoped(m, told, d, classifier, scope, bom).0.java == m.java,
{
    reveal(maven_put);
    let (version, told) = version_of(ga_text(d.group, d.artifact), d.version, bom, told);
    if let Some(version) = version {
        let dep = DependencyModel {
            classifier,
            compile_only: scope == Scope::Provided,
            runtime_only: scope == Scope::Runtime,
            exclusions: d.exclusions,
            ..plain_dependency(d.group, d.artifact, version)
        };
        if scope == Scope::Test {
            if !keyed(m.dev_dependencies, dep.key()) {
                lemma_more_unswitched(m.dev_dependencies, dep);
            }
        } else {
            lemma_more_switched(m.dependencies, dep);
        }
    }
}

proof fn lemma_dependency(
    m: ManifestModel,
    told: ReportModel,
    raw: PomDependencyModel,
    e: EffectiveModel,
    pom: PomModel,
    files: FilesModel,
    bom: bool,
)
    requires
        maven_put(m),
    ensures
        maven_put(with_dependency(m, told, raw, e, pom, files, bom).0),
        with_dependency(m, told, raw, e, pom, files, bom).0.languages == m.languages,
        with_dependency(m, told, raw, e, pom, files, bom).0.java == m.java,
{
    let d = e.managing(raw);
    let scope = scope_named(d.scope);
    if let Some(classifier) = classifier_of(d) {
        if scope == Scope::System {
            if let (Some(jar), told) = system_jar_of(pom, d, e.properties, files, told) {
                reveal(maven_put);
                lemma_more_switched(m.dependencies, jar);
            }
        } else {
            lemma_scoped(m, told, d, classifier, scope, bom);
        }
    }
}

proof fn lemma_dependencies_from(
    list: Seq<PomDependencyModel>,
    i: int,
    e: EffectiveModel,
    pom: PomModel,
    files: FilesModel,
    bom: bool,
    m: ManifestModel,
    told: ReportModel,
)
    requires
        0 <= i,
        maven_put(m),
    ensures
        maven_put(dependencies_from(list, i, e, pom, files, bom, m, told).0),
        dependencies_from(list, i, e, pom, files, bom, m, told).0.languages == m.languages,
        dependencies_from(list, i, e, pom, files, bom, m, told).0.java == m.java,
    decreases list.len() - i,
{
    if i < list.len() {
        lemma_dependency(m, told, list[i], e, pom, files, bom);
        let (next, more) = with_dependency(m, told, list[i], e, pom, files, bom);
        lemma_dependencies_from(list, i + 1, e, pom, files, bom, next, more);
    }
}

proof fn lemma_processors_from(
    paths: Seq<ElementModel>,
    i: int,
    e: EffectiveModel,
    m: ManifestModel,
    told: ReportModel,
    added: Seq<Seq<char>>,
)
    requires
        0 <= i,
        maven_put(m),
    ensures
        maven_put(processors_from(paths, i, e, m, told, added).0),
        processors_from(paths, i, e, m, told, added).0.java == m.java,
    decreases paths.len() - i,
{
    if i < paths.len() {
        reveal(maven_put);
        let path = paths[i];
        let (next, more, keys) = with_processor(m, told, added, path, e);
        if next.dependencies != m.dependencies {
            lemma_more_switched(m.dependencies, next.dependencies.last());
        }
        assert(maven_put(next));
        lemma_processors_from(paths, i + 1, e, next, more, keys);
    }
}

proof fn lemma_processors(e: EffectiveModel, pom: PomModel, m: ManifestModel, told: ReportModel)
    requires
        maven_put(m),
    ensures
        maven_put(processors_read(e, pom, m, told).0),
        kept_java(m.java, processors_read(e, pom, m, told).0.java),
{
    lemma_more_java(m.java, m.java, ""@);
    if let Some(paths) = processor_paths(pom) {
        lemma_processors_from(paths.children, 0, e, m, told, seq![]);
        reveal(maven_put);
        lemma_more_java(m.java, processors_read(e, pom, m, told).0.java, "-proc:full"@);
    }
}

// ---- the languages, and the layout -----------------------------------------

/// What a language that is turned on changes.
proof fn lemma_turned_on(
    m: ManifestModel,
    told: ReportModel,
    language: Language,
    version: Seq<char>,
    from: Seq<char>,
)
    requires
        put_languages(m.languages),
    ensures
        turned_on(m, with_language(m, told, language, version, from).0, language),
{
    lemma_language_put(m, told, language, version, from);
    let next = with_language(m, told, language, version, from).0.languages;
    if next != m.languages {
        assert(next.drop_last() =~= m.languages);
    }
}

/// The manifest is as it was, but for `language` at the end of the languages,
/// perhaps.
pub open spec fn turned_on(m: ManifestModel, next: ManifestModel, language: Language) -> bool {
    &&& next == ManifestModel { languages: next.languages, ..m }
    &&& put_languages(next.languages)
    &&& next.languages == m.languages || (next.languages.len() == m.languages.len() + 1
        && next.languages.drop_last() == m.languages && next.languages.last().language == language)
}

proof fn lemma_from_library(m: ManifestModel, told: ReportModel, language: Language, from: Seq<char>)
    requires
        put_languages(m.languages),
    ensures
        turned_on(m, with_library_language(m, told, language, from).0, language),
{
    if let Some(v) = library_version(m.dependencies, language, 0) {
        lemma_turned_on(m, told, language, v, from);
    }
    if let Some(v) = library_version(m.dev_dependencies, language, 0) {
        lemma_turned_on(m, told, language, v, from);
    }
}

proof fn lemma_kotlin(
    chain: Seq<PomModel>,
    kotlin: PluginModel,
    props: Properties,
    m: ManifestModel,
    told: ReportModel,
)
    requires
        put_languages(m.languages),
        m.languages.len() == 0,
    ensures
        ({
            let r = kotlin_read(chain, kotlin, props, m, told).0;
            &&& r == ManifestModel { java: r.java, languages: r.languages, ..m }
            &&& put_languages(r.languages)
            &&& r.languages.len() == 0 || (r.languages.len() == 1 && r.languages[0].language is Kotlin)
        }),
        kept_java(m.java, kotlin_read(chain, kotlin, props, m, told).0.java),
{
    let from = "kotlin-maven-plugin"@;
    let (a, told1) = match plugin_version_from(chain, from, 0) {
        Some(v) => with_language(m, told, Language::Kotlin, interpolated(v, props), from),
        None => with_library_language(m, told, Language::Kotlin, from),
    };
    match plugin_version_from(chain, from, 0) {
        Some(v) => {
            lemma_turned_on(m, told, Language::Kotlin, interpolated(v, props), from);
        },
        None => {
            lemma_from_library(m, told, Language::Kotlin, from);
        },
    }
    assert(turned_on(m, a, Language::Kotlin));
    let (b, told2) = jvm_target_read(kotlin, props, a, told1);
    assert(b == ManifestModel { java: b.java, ..a });
    lemma_same_java(m.java, b.java);
    lemma_language_place(b.languages, Language::Kotlin, 0);
    let r = kotlin_read(chain, kotlin, props, m, told).0;
    assert forall|k: int| 0 <= k < r.languages.len() implies (
    #[trigger] r.languages[k]).language.refusal(r.languages[k].version) is None && good_dir(
        r.languages[k].source_dir,
    ) && good_dir(r.languages[k].test_dir) by {
        let before = b.languages[k];
        assert(r.languages[k].language == before.language);
    }
    if r.languages.len() == 1 {
        assert(b.languages[0] == b.languages.last());
    }
}

proof fn lemma_languages(
    chain: Seq<PomModel>,
    pom: PomModel,
    props: Properties,
    m: ManifestModel,
    told: ReportModel,
)
    requires
        maven_put(m),
        m.languages.len() == 0,
    ensures
        maven_put(languages_read(chain, pom, props, m, told).0),
        kept_java(m.java, languages_read(chain, pom, props, m, told).0.java),
{
    lemma_more_java(m.java, m.java, ""@);
    reveal(maven_put);
    let (a, told1) = match plugin_in(pom, "kotlin-maven-plugin"@) {
        Some(kotlin) => kotlin_read(chain, kotlin, props, m, told),
        None => (m, told),
    };
    if let Some(kotlin) = plugin_in(pom, "kotlin-maven-plugin"@) {
        lemma_kotlin(chain, kotlin, props, m, told);
    }
    let (b, told2) = match plugin_in(pom, "scala-maven-plugin"@) {
        Some(scala) => {
            let configured = match scala.configuration {
                Some(c) => filled_text(c, "scalaVersion"@, props),
                None => None,
            };
            match configured {
                Some(version) => with_language(
                    a,
                    told1,
                    Language::Scala,
                    version,
                    "scala-maven-plugin <scalaVersion>"@,
                ),
                None => with_library_language(a, told1, Language::Scala, "scala-maven-plugin"@),
            }
        },
        None => (a, told1),
    };
    assert(turned_on(a, b, Language::Scala)) by {
        if let Some(scala) = plugin_in(pom, "scala-maven-plugin"@) {
            if let Some(c) = scala.configuration {
                if let Some(version) = filled_text(c, "scalaVersion"@, props) {
                    lemma_turned_on(
                        a,
                        told1,
                        Language::Scala,
                        version,
                        "scala-maven-plugin <scalaVersion>"@,
                    );
                }
            }
            lemma_from_library(a, told1, Language::Scala, "scala-maven-plugin"@);
        }
    }
    let (c, told3) = match plugin_in(pom, "gmavenplus-plugin"@) {
        Some(_) => with_library_language(b, told2, Language::Groovy, "gmavenplus-plugin"@),
        None => (b, told2),
    };
    assert(turned_on(b, c, Language::Groovy)) by {
        lemma_from_library(b, told2, Language::Groovy, "gmavenplus-plugin"@);
    }
    if b.languages != a.languages {
        assert(a.languages.len() == 1 ==> b.languages[0] == b.languages.drop_last()[0]);
        assert(b.languages[b.languages.len() - 1] == b.languages.last());
    }
    if c.languages != b.languages {
        assert(forall|k: int|
            0 <= k < b.languages.len() ==> c.languages.drop_last()[k] == #[trigger] c.languages[k]);
        assert(c.languages[c.languages.len() - 1] == c.languages.last());
    }
    lemma_in_order(c.languages);
    lemma_unimplied(c.dependencies, c.languages, 0, seq![], told3);
}

proof fn lemma_layout(pom: PomModel, m: ManifestModel, told: ReportModel)
    requires
        maven_put(m),
    ensures
        maven_put(layout_read(pom, m, told).0),
        layout_read(pom, m, told).0.java == m.java,
{
    reveal(maven_put);
}

// ---- [test], the repositories and the tasks --------------------------------

proof fn lemma_test(pom: PomModel, props: Properties, m: ManifestModel, told: ReportModel)
    requires
        maven_put(m),
    ensures
        maven_put(test_read(pom, props, m, told).0),
        test_read(pom, props, m, told).0.java == m.java,
{
    reveal(maven_put);
}

/// Repositories under ids of their own.
pub open spec fn ids_apart(list: Seq<(Seq<char>, Seq<char>)>) -> bool {
    forall|i: int, j: int|
        0 <= i < j < list.len() ==> (#[trigger] list[i]).0 != (#[trigger] list[j]).0
}

proof fn lemma_no_property(props: Properties, name: Seq<char>, i: int)
    requires
        0 <= i,
        property_from(props, name, i) is None,
    ensures
        forall|k: int| i <= k < props.len() ==> (#[trigger] props[k]).0 != name,
    decreases props.len() - i,
{
    if i < props.len() {
        lemma_no_property(props, name, i + 1);
    }
}

proof fn lemma_more_repositories(
    list: Seq<(Seq<char>, Seq<char>)>,
    i: int,
    props: Properties,
    out: Seq<(Seq<char>, Seq<char>)>,
)
    requires
        0 <= i,
        ids_apart(out),
    ensures
        ids_apart(more_repositories(list, i, props, out)),
    decreases list.len() - i,
{
    if i < list.len() {
        if property(out, list[i].0) is Some {
            lemma_more_repositories(list, i + 1, props, out);
        } else {
            lemma_no_property(out, list[i].0, 0);
            let more = out.push((list[i].0, interpolated(list[i].1, props)));
            assert forall|a: int, b: int| 0 <= a < b < more.len() implies (#[trigger] more[a]).0 != (
            #[trigger] more[b]).0 by {
                assert(more[a] == out[a]);
                if b < out.len() {
                    assert(more[b] == out[b]);
                }
            }
            lemma_more_repositories(list, i + 1, props, more);
        }
    }
}

proof fn lemma_chained(chain: Seq<PomModel>, i: int, e: EffectiveModel)
    requires
        0 <= i,
        ids_apart(e.repositories),
    ensures
        ids_apart(chained(chain, i, e).repositories),
    decreases chain.len() - i,
{
    if i < chain.len() {
        lemma_more_repositories(chain[i].repositories, 0, e.properties, e.repositories);
        let (managed, imports) = managed_from(
            chain[i].managed,
            0,
            e.properties,
            e.managed,
            e.imports,
        );
        lemma_chained(
            chain,
            i + 1,
            EffectiveModel {
                managed,
                imports,
                dependencies: inherited_from(
                    chain[i].dependencies,
                    0,
                    e.properties,
                    e.dependencies,
                ),
                repositories: more_repositories(
                    chain[i].repositories,
                    0,
                    e.properties,
                    e.repositories,
                ),
                ..e
            },
        );
    }
}

/// A chain of POMs declares each repository once.
pub proof fn lemma_effective(chain: Seq<PomModel>)
    ensures
        effective_of(chain) matches Ok(e) ==> ids_apart(e.repositories),
{
    let own = chain[0];
    if let (Some(group), Some(version)) = (own.group_id(), own.version_id()) {
        let declared = chain_properties(chain, chain.len() as int, seq![]);
        let v = interpolated(version, declared);
        lemma_chained(
            chain,
            0,
            EffectiveModel {
                group,
                artifact: own.artifact,
                version: v,
                properties: own_properties(declared, group, own.artifact, v),
                managed: seq![],
                imports: seq![],
                dependencies: seq![],
                repositories: seq![],
            },
        );
    }
}

proof fn lemma_repositories_from(
    list: Seq<(Seq<char>, Seq<char>)>,
    i: int,
    out: Seq<RepositoryModel>,
    told: ReportModel,
)
    requires
        0 <= i,
        ids_apart(list),
        put_repositories(out),
        repositories_apart(out),
        forall|k: int, j: int|
            0 <= k < out.len() && i <= j < list.len() ==> (#[trigger] out[k]).name != (
            #[trigger] list[j]).0,
    ensures
        put_repositories(repositories_from(list, i, out, told).0),
        repositories_apart(repositories_from(list, i, out, told).0),
    decreases list.len() - i,
{
    if i < list.len() {
        let (id, raw) = list[i];
        let url = sans_tail(raw, Class::One('/'));
        lemma_tail_once(raw, Class::One('/'));
        if url == CENTRAL_URL@ {
            lemma_repositories_from(list, i + 1, out, told);
        } else {
            let more = out.push(open_repository(id, url));
            assert forall|k: int| 0 <= k < more.len() implies good_repository(#[trigger] more[k])
                && !whole_central(more[k]) by {
                if k < out.len() {
                    assert(more[k] == out[k]);
                }
            }
            assert forall|a: int, b: int| 0 <= a < b < more.len() implies (
            #[trigger] more[a]).name != (#[trigger] more[b]).name by {
                assert(more[a] == out[a]);
                if b < out.len() {
                    assert(more[b] == out[b]);
                } else {
                    assert(out[a].name != list[i].0);
                }
            }
            assert forall|k: int, j: int|
                0 <= k < more.len() && i + 1 <= j < list.len() implies (#[trigger] more[k]).name != (
            #[trigger] list[j]).0 by {
                if k < out.len() {
                    assert(more[k] == out[k]);
                } else {
                    assert(list[i].0 != list[j].0);
                }
            }
            lemma_repositories_from(
                list,
                i + 1,
                more,
                told.with_migrated("repository "@ + id + " = "@ + url),
            );
        }
    }
}

proof fn lemma_repositories(list: Seq<(Seq<char>, Seq<char>)>, m: ManifestModel, told: ReportModel)
    requires
        maven_put(m),
        ids_apart(list),
    ensures
        maven_put(repositories_read(list, m, told).0),
        repositories_read(list, m, told).0.java == m.java,
{
    reveal(maven_put);
    lemma_repositories_from(list, 0, seq![], told);
    let own = repositories_from(list, 0, seq![], told).0;
    let next = repositories_read(list, m, told).0.repositories;
    assert(next.drop_last() =~= own);
}

proof fn lemma_exec(pom: PomModel, props: Properties, m: ManifestModel, told: ReportModel)
    requires
        maven_put(m),
    ensures
        maven_put(exec_read(pom, props, m, told).0),
        exec_read(pom, props, m, told).0.java == m.java,
{
    reveal(maven_put);
    if let Some(plugin) = plugin_in(pom, "exec-maven-plugin"@) {
        lemma_executions(plugin.executions, 0, plugin, pom, props, m, told);
    }
}

proof fn lemma_boot(
    pom: PomModel,
    boot: Option<Seq<char>>,
    class: Option<Seq<char>>,
    m: ManifestModel,
    told: ReportModel,
)
    requires
        maven_put(m),
    ensures
        maven_put(boot_read(pom, boot, class, m, told).0),
        kept_java(m.java, boot_read(pom, boot, class, m, told).0.java),
{
    lemma_more_java(m.java, boot_read(pom, boot, class, m, told).0.java, "-parameters"@);
    reveal(maven_put);
}

// ---- the whole -------------------------------------------------------------

/// The names of the attributes are apart, whatever their case.
pub open spec fn attributes_apart(list: Seq<(Seq<char>, TemplateModel)>) -> bool {
    forall|i: int|
        0 <= i < list.len() ==> name_alike(list.take(i), (#[trigger] list[i]).0, 0) is None
}

/// What a Maven project's words have to be for its manifest to be loaded: the
/// words that any build decides; directories inside the project; a target
/// release that is not the source release; flags for javac that groovyc can hand
/// on, where there is Groovy; attributes of the jar declared once; jars of the
/// system and annotation processors under keys of their own; and, for an
/// execution that runs a class of its plugin's dependencies, a class and
/// coordinates that a task can hold.
pub open spec fn maven_words(m: ManifestModel) -> bool {
    &&& worded(m)
    &&& good_dirs(m)
    &&& good_java(m.java)
    &&& language_checks_from(m, 0, seq![]) is Ok
    &&& attributes_apart(m.package.manifest)
    &&& keys_distinct(m.dependencies)
    &&& forall|k: int| 0 <= k < m.tasks.len() ==> worded_task(#[trigger] m.tasks[k])
}

proof fn lemma_maven_whole(m: ManifestModel)
    requires
        maven_put(m),
        maven_words(m),
    ensures
        good_manifest(m),
{
    reveal(maven_put);
    assert forall|i: int| 0 <= i < m.package.manifest.len() implies attribute_of(
        (#[trigger] m.package.manifest[i]).0,
        m.package.manifest[i].1.raw,
    ) == Ok::<TemplateModel, Fault>(m.package.manifest[i].1) && name_alike(
        m.package.manifest.take(i),
        m.package.manifest[i].0,
        0,
    ) is None by {
        let one = m.package.manifest[i];
    }
    assert(good_attributes(m.package.manifest));
    lemma_execs_load(m.tasks, m.hooks);
    let own = m.repositories.drop_last();
    assert forall|k: int| 0 <= k < m.repositories.len() - 1 implies good_repository(
        #[trigger] m.repositories[k],
    ) && !whole_central(m.repositories[k]) by {
        assert(own[k] == m.repositories[k]);
    }
    lemma_put_together(m);
}

/// What a project becomes is well put, and keeps what was first read of Java.
pub proof fn lemma_pom(
    p: ProjectModel,
    chain: Seq<PomModel>,
    boot: Option<Seq<char>>,
    e: EffectiveModel,
    told: ReportModel,
)
    requires
        ids_apart(e.repositories),
    ensures
        maven_put(pom_migrated(p, chain, boot, e, told).0),
        ({
            let start = told.with_migrated("project.name = "@ + e.artifact).with_migrated(
                "project.version = "@ + e.version,
            );
            let read = java_read(
                chain[0],
                e.properties,
                blank_manifest(e.artifact, e.version, p.root),
                start,
            ).0;
            kept_java(read.java, pom_migrated(p, chain, boot, e, told).0.java)
        }),
{
    let pom = chain[0];
    let m = blank_manifest(e.artifact, e.version, p.root);
    lemma_blank(e.artifact, e.version, p.root);
    let told = told.with_migrated("project.name = "@ + e.artifact).with_migrated(
        "project.version = "@ + e.version,
    );
    lemma_java(pom, e.properties, m, told);
    let (m, told) = java_read(pom, e.properties, m, told);
    let j0 = m.java;
    lemma_more_java(j0, j0, ""@);
    lemma_boot_java(e.properties, m, told);
    let (m, told) = if boot is Some {
        boot_java_read(e.properties, m, told)
    } else {
        (m, told)
    };
    let j1 = m.java;
    lemma_main(pom, e.properties, m, told);
    let (m, told) = main_read(pom, e.properties, m, told);
    lemma_jar(pom, m, told);
    let (m, told) = jar_manifest_read(pom, m, told);
    lemma_proguard(pom, m, told);
    let (m, told) = proguard_read(pom, m, told);
    lemma_managed(e, boot, m, told);
    let (m, told) = managed_read(e, boot, m, told);
    lemma_dependencies_from(e.dependencies, 0, e, pom, p.files, has_bom(m.managed), m, told);
    let (m, told) = dependencies_read(e, pom, p.files, m, told);
    lemma_languages(chain, pom, e.properties, m, told);
    let (m, told) = languages_read(chain, pom, e.properties, m, told);
    let j2 = m.java;
    lemma_kept(j0, j1, j2);
    lemma_layout(pom, m, told);
    let (m, told) = layout_read(pom, m, told);
    lemma_processors(e, pom, m, told);
    let (m, told) = processors_read(e, pom, m, told);
    let j3 = m.java;
    lemma_kept(j0, j2, j3);
    lemma_test(pom, e.properties, m, told);
    let (m, told) = test_read(pom, e.properties, m, told);
    lemma_repositories(e.repositories, m, told);
    let (m, told) = repositories_read(e.repositories, m, told);
    lemma_exec(pom, e.properties, m, told);
    let (m, told) = exec_read(pom, e.properties, m, told);
    lemma_boot(pom, boot, p.application, m, told);
    lemma_kept(j0, j3, boot_read(pom, boot, p.application, m, told).0.java);
}

/// What a Maven project becomes can be loaded, where a manifest can hold the
/// project's words: whatever else the project says, its tables pass every check
/// of a document.
pub proof fn migrated_projects_load(p: ProjectModel)
    ensures
        migrated(p) matches Ok(r) ==> (maven_words(r.manifest) ==> good_manifest(r.manifest)),
{
    let start = ChainModel {
        chain: seq![],
        boot: None,
        told: empty_report(),
        profiles: empty_report(),
    };
    if let Ok(c) = chain_from(p.poms, 0, start) {
        if let Ok(e) = effective_of(c.chain) {
            lemma_effective(c.chain);
            lemma_pom(p, c.chain, c.boot, e, c.told);
            let m = pom_migrated(p, c.chain, c.boot, e, c.told).0;
            if maven_words(m) {
                lemma_maven_whole(m);
            }
        }
    }
}

/// What a Maven project becomes is what `jrs` reads once it is written: the text
/// that it is rendered to is read, and says the same. Its texts have to be ones
/// that can be quoted, with no release 0, no first variable or repository called
/// like the mark of a date, and no colon in a classifier.
pub proof fn migrated_projects_are_read_back(
    p: ProjectModel,
    header: Option<Seq<char>>,
    path: Seq<char>,
    root: Seq<char>,
    read: Result<ManifestModel, Fault>,
)
    requires
        migrated(p) is Ok,
        maven_words(migrated(p)->Ok_0.manifest),
        readable(migrated(p)->Ok_0.manifest),
        plain_header(header),
        reads_back(rendered(migrated(p)->Ok_0.manifest, header), path, root, read),
    ensures
        read matches Ok(m) && m.path == path && m.root == root && same_manifest(
            m,
            migrated(p)->Ok_0.manifest,
        ),
{
    migrated_projects_load(p);
}

} // verus!
