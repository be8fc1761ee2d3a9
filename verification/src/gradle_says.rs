//! What the declarations of a Gradle build come to in the manifest.

use crate::dependency::DependencyModel;
use crate::gradle::{
    java_read, jvm_args_read, main_from, main_read, migrated, name_or, project_read, settings_read,
    BuildModel, PREAMBLE,
};
use crate::gradle_catalog::catalog_read;
use crate::gradle_deps::{
    added, aimed, block_from, declaration_of, dependencies_read, key_place, kotlin_call,
    kotlin_version, pushed, table, with_line, without_closure, ContextModel, DepsModel,
};
use crate::gradle_env::blocks_read;
use crate::gradle_files::call_from;
use crate::gradle_jar::{jar_manifest_read, manifest_text, pairs_from};
use crate::gradle_lex::statements_of;
use crate::gradle_managed::{managed_read, platform_in, target_of, Target};
use crate::gradle_manifest::{
    lemma_attributes, lemma_blocks, lemma_dependencies, lemma_java, lemma_jvm_args, lemma_kotlin,
    lemma_library_languages, lemma_library_languages_from, lemma_main, lemma_managed, lemma_place,
    lemma_proguard, lemma_project, same_dependencies,
};
use crate::gradle_plugins::{
    kotlin_read, library_languages, library_languages_from, plugins_of, proguard_read,
};
use crate::gradle_repos::repositories_of;
use crate::gradle_tasks::tasks_read;
use crate::gradle_text::{alias_in, first_of, first_word, gav_of, sans_comments, tally, top_lines};
use crate::manifest::{blank_manifest, LanguageModel, ManifestModel};
use crate::migration::{language_of_library, unimplied_from};
use crate::parse_dependencies::keyed;
use crate::report::{empty_report, ReportModel};
use crate::text::{found, line_seq, trimmed};
use crate::vocabulary::configurations_are_for_what_they_say;
use vstd::prelude::*;

verus! {

/// The line declares the coordinates of `d`, and nothing else, for the
/// configuration that its first word names.
pub open spec fn declares(line: Seq<char>, config: Seq<char>, d: DependencyModel) -> bool {
    &&& first_word(line) == Some(config)
    &&& first_of(line) is Some
    &&& gav_of(first_of(line)->0) == Some(d)
    &&& found(line, "{"@) is None
    &&& tally(line, '{') <= tally(line, '}')
    &&& platform_in(line) is None
    &&& kotlin_call(line) is None
    &&& alias_in(line) is None
    &&& call_from(line, "fileTree("@, 0) is None
    &&& call_from(line, "files("@, 0) is None
}

/// A line of the block, outside every closure.
pub open spec fn outside(s: DepsModel) -> bool {
    s.closure is None && s.constraints == 0
}

proof fn lemma_declared_line(s: DepsModel, raw: Seq<char>, c: ContextModel, config: Seq<char>, d: DependencyModel)
    requires
        outside(s),
        declares(trimmed(raw), config, d),
    ensures
        outside(with_line(s, raw, c)),
        target_of(config) is None ==> same_dependencies(s.m, with_line(s, raw, c).m),
        target_of(config) is Some ==> with_line(s, raw, c).m == pushed(
            s.m,
            target_of(config)->0,
            d,
            config,
            s.told,
        ).0,
{
    let line = trimmed(raw);
    assert(without_closure(line) == (line, None::<Seq<char>>));
    assert(declaration_of(line, config, c, s.told) == (Some(d), s.told));
}

proof fn lemma_added(
    list: Seq<DependencyModel>,
    target: Target,
    dep: DependencyModel,
    config: Seq<char>,
    told: ReportModel,
    x: DependencyModel,
)
    ensures
        dep.key() != x.key() && list.contains(x)
            ==> added(list, target, dep, config, told).0.contains(x),
        dep.key() != x.key() && !keyed(list, x.key()) ==> !keyed(
            added(list, target, dep, config, told).0,
            x.key(),
        ),
        !keyed(list, dep.key()) ==> added(list, target, dep, config, told).0.contains(
            aimed(dep, target),
        ),
{
    let d = aimed(dep, target);
    assert(d.key() == dep.key());
    lemma_place(list, d.key(), 0);
    let next = added(list, target, dep, config, told).0;
    match key_place(list, d.key(), 0) {
        Some(i) => {
            if dep.key() != x.key() && list.contains(x) {
                let k = choose|k: int| 0 <= k < list.len() && list[k] == x;
                assert(next[k] == x);
            }
            if keyed(next, x.key()) {
                let k = choose|k: int| 0 <= k < next.len() && (#[trigger] next[k]).key() == x.key();
                assert(list[k].key() == next[k].key());
            }
            assert(list[i].key() == dep.key());
        },
        None => {
            assert(next[list.len() as int] == d);
            if list.contains(x) {
                let k = choose|k: int| 0 <= k < list.len() && list[k] == x;
                assert(next[k] == x);
            }
            if dep.key() != x.key() && keyed(next, x.key()) {
                let k = choose|k: int| 0 <= k < next.len() && (#[trigger] next[k]).key() == x.key();
                assert(k < list.len());
                assert(list[k] == next[k]);
            }
        },
    }
}

/// The `i`th of plain declarations stays where it was put, while no other has
/// its key.
proof fn lemma_block(
    lines: Seq<Seq<char>>,
    j: int,
    s: DepsModel,
    c: ContextModel,
    configs: Seq<Seq<char>>,
    deps: Seq<DependencyModel>,
    i: int,
)
    requires
        0 <= i < lines.len(),
        0 <= j <= lines.len(),
        lines.len() == configs.len() == deps.len(),
        outside(s),
        forall|k: int| 0 <= k < lines.len()
            ==> declares(#[trigger] trimmed(lines[k]), configs[k], deps[k]),
        forall|k: int| 0 <= k < deps.len() && k != i
            ==> (#[trigger] deps[k]).key() != deps[i].key(),
        target_of(configs[i]) is Some,
        j <= i ==> !keyed(table(s.m, target_of(configs[i])->0), deps[i].key()),
        j > i ==> table(s.m, target_of(configs[i])->0).contains(
            aimed(deps[i], target_of(configs[i])->0),
        ),
    ensures
        table(block_from(lines, j, s, c).m, target_of(configs[i])->0).contains(
            aimed(deps[i], target_of(configs[i])->0),
        ),
    decreases lines.len() - j,
{
    if j < lines.len() {
        let t = target_of(configs[i])->0;
        let x = aimed(deps[i], t);
        assert(declares(trimmed(lines[j]), configs[j], deps[j]));
        lemma_declared_line(s, lines[j], c, configs[j], deps[j]);
        if let Some(u) = target_of(configs[j]) {
            lemma_added(table(s.m, u), u, deps[j], configs[j], s.told, x);
            if j != i {
                assert(deps[j].key() != deps[i].key());
            }
        }
        lemma_block(lines, j + 1, with_line(s, lines[j], c), c, configs, deps, i);
    }
}

/// What stands without a switch in the program's table stays there without one.
pub open spec fn plainly_there(m: ManifestModel, key: Seq<char>) -> bool {
    exists|k: int|
        0 <= k < m.dependencies.len() && (#[trigger] m.dependencies[k]).key() == key
            && !m.dependencies[k].compile_only && !m.dependencies[k].runtime_only
}

proof fn lemma_plainly(
    m: ManifestModel,
    target: Target,
    dep: DependencyModel,
    config: Seq<char>,
    told: ReportModel,
    key: Seq<char>,
)
    requires
        plainly_there(m, key) || (target == Target::Main && dep.key() == key),
    ensures
        plainly_there(pushed(m, target, dep, config, told).0, key),
{
    let before = table(m, target);
    let d = aimed(dep, target);
    lemma_place(before, d.key(), 0);
    let next = pushed(m, target, dep, config, told).0;
    let n = next.dependencies;
    if target == Target::Main && dep.key() == key {
        match key_place(before, d.key(), 0) {
            Some(i) => {
                assert(n[i].key() == key && !n[i].compile_only && !n[i].runtime_only);
            },
            None => {
                assert(n[before.len() as int] == d);
            },
        }
    } else {
        let k = choose|k: int|
            0 <= k < m.dependencies.len() && (#[trigger] m.dependencies[k]).key() == key
                && !m.dependencies[k].compile_only && !m.dependencies[k].runtime_only;
        assert(n[k].key() == key && !n[k].compile_only && !n[k].runtime_only);
    }
}

proof fn lemma_main_block(
    lines: Seq<Seq<char>>,
    j: int,
    s: DepsModel,
    c: ContextModel,
    configs: Seq<Seq<char>>,
    deps: Seq<DependencyModel>,
    i: int,
)
    requires
        0 <= i < lines.len(),
        0 <= j <= lines.len(),
        lines.len() == configs.len() == deps.len(),
        outside(s),
        forall|k: int| 0 <= k < lines.len()
            ==> declares(#[trigger] trimmed(lines[k]), configs[k], deps[k]),
        target_of(configs[i]) == Some(Target::Main),
        j > i ==> plainly_there(s.m, deps[i].key()),
    ensures
        plainly_there(block_from(lines, j, s, c).m, deps[i].key()),
    decreases lines.len() - j,
{
    if j < lines.len() {
        assert(declares(trimmed(lines[j]), configs[j], deps[j]));
        lemma_declared_line(s, lines[j], c, configs[j], deps[j]);
        if let Some(u) = target_of(configs[j]) {
            if j >= i {
                lemma_plainly(s.m, u, deps[j], configs[j], s.told, deps[i].key());
            }
        }
        lemma_main_block(lines, j + 1, with_line(s, lines[j], c), c, configs, deps, i);
    }
}

// ---- what the languages imply ----------------------------------------------

/// A library that comes with a language.
pub open spec fn comes_with_a_language(group: Seq<char>, artifact: Seq<char>) -> bool {
    ||| group == "org.jetbrains.kotlin"@ && artifact == "kotlin-stdlib"@
    ||| group == "org.apache.groovy"@ && artifact == "groovy"@
    ||| group == "org.scala-lang"@ && (artifact == "scala-library"@ || artifact
        == "scala3-library_3"@)
}

proof fn lemma_not_implied(d: DependencyModel, languages: Seq<LanguageModel>, i: int)
    requires
        0 <= i,
        !comes_with_a_language(d.group, d.artifact),
    ensures
        language_of_library(d, languages, i) is None,
    decreases languages.len() - i,
{
    if i < languages.len() {
        let l = languages[i].language.libraries(languages[i].version);
        assert forall|k: int| 0 <= k < l.len() implies #[trigger] l[k] != (d.group, d.artifact) by {}
        lemma_not_implied(d, languages, i + 1);
    }
}

proof fn lemma_left_in(
    list: Seq<DependencyModel>,
    languages: Seq<LanguageModel>,
    i: int,
    out: Seq<DependencyModel>,
    told: ReportModel,
    k: int,
)
    requires
        0 <= i <= list.len(),
        0 <= k < list.len(),
        !comes_with_a_language(list[k].group, list[k].artifact),
        k < i ==> out.contains(list[k]),
    ensures
        unimplied_from(list, languages, i, out, told).0.contains(list[k]),
    decreases list.len() - i,
{
    if i < list.len() {
        let d = list[i];
        let more = out.push(d);
        assert(more[out.len() as int] == d);
        if k < i {
            let j = choose|j: int| 0 <= j < out.len() && out[j] == list[k];
            assert(more[j] == list[k]);
        }
        if k == i {
            lemma_not_implied(d, languages, 0);
        }
        match language_of_library(d, languages, 0) {
            None => {
                lemma_left_in(list, languages, i + 1, more, told, k);
            },
            Some(language) => {
                let implied = told.with_migrated(
                    d.key() + " — implied by ["@ + language.language.word() + "]"@,
                );
                let kept = told.with_review(
                    d.key() + " — kept at the version declared, "@ + d.version + "; ["@
                        + language.language.word() + ("] implies "@ + language.version),
                );
                lemma_left_in(list, languages, i + 1, out, implied, k);
                lemma_left_in(list, languages, i + 1, more, kept, k);
                lemma_left_in(list, languages, i + 1, more, told, k);
            },
        }
    }
}

// ---- the law ---------------------------------------------------------------

/// What a build's block of dependencies comes to, before what its languages
/// imply is taken out.
pub open spec fn read_block(
    b: BuildModel,
    m: ManifestModel,
    told: ReportModel,
    catalog: Seq<(Seq<char>, DependencyModel)>,
) -> DepsModel {
    block_from(
        top_lines("dependencies"@, sans_comments(b.script)),
        0,
        DepsModel { m, told, processors: seq![], closure: None, constraints: 0 },
        ContextModel { kotlin: kotlin_version(m), managed: m.managed.len() > 0, catalog, files: b.files },
    )
}

/// The manifest that a build becomes has the tests' dependencies of its block,
/// and the program's but for those that come with a language.
proof fn lemma_tables(b: BuildModel) -> (r: (ManifestModel, ReportModel, Seq<(Seq<char>, DependencyModel)>))
    ensures
        r.0.dependencies.len() == 0,
        r.0.dev_dependencies.len() == 0,
        migrated(b).manifest.dev_dependencies == read_block(b, r.0, r.1, r.2).m.dev_dependencies,
        forall|k: int|
            0 <= k < read_block(b, r.0, r.1, r.2).m.dependencies.len() && !comes_with_a_language(
                (#[trigger] read_block(b, r.0, r.1, r.2).m.dependencies[k]).group,
                read_block(b, r.0, r.1, r.2).m.dependencies[k].artifact,
            ) ==> migrated(b).manifest.dependencies.contains(
                read_block(b, r.0, r.1, r.2).m.dependencies[k],
            ),
{
    let told = ReportModel { preamble: Some(PREAMBLE@), ..empty_report() };
    let script = sans_comments(b.script);
    let (settings, told) = settings_read(b.settings, b.settings_kotlin, told);
    let (catalog, told0) = catalog_read(b.catalog, told);
    let name = name_or(settings.root_project_name, b.directory);
    let (m, told) = project_read(name, script, b.root, told0);
    lemma_project(name, script, b.root, told0);
    assert(m.dependencies.len() == 0 && m.dev_dependencies.len() == 0);
    let plugins = plugins_of(script);
    lemma_java(script, m, told);
    let (m, told) = java_read(script, m, told);
    lemma_kotlin(script, plugins, m, told);
    let (m, told) = kotlin_read(script, plugins, m, told);
    lemma_main(script, m, told);
    let (m, told) = main_read(script, m, told);
    lemma_managed(script, plugins, catalog, b.application, m, told);
    let (m, told) = managed_read(script, plugins, catalog, b.application, m, told);
    let start = (m, told, catalog);
    lemma_dependencies(script, catalog, b.files, m, told);
    let block = read_block(b, m, told, catalog).m;
    let (m, told) = dependencies_read(script, catalog, b.files, m, told);
    assert(same_dependencies(block, m));
    lemma_library_languages_from(plugins, 0, m, told);
    lemma_library_languages(plugins, m, told);
    let (mid, told1) = library_languages_from(plugins, 0, m, told);
    let (m, told) = library_languages(plugins, m, told);
    assert forall|k: int|
        0 <= k < block.dependencies.len() && !comes_with_a_language(
            (#[trigger] block.dependencies[k]).group,
            block.dependencies[k].artifact,
        ) implies m.dependencies.contains(block.dependencies[k]) by {
        lemma_left_in(block.dependencies, mid.languages, 0, seq![], told1, k);
    }
    let kept = m;
    lemma_jvm_args(script, m, told);
    let (m, told) = jvm_args_read(script, m, told);
    lemma_blocks((m, told), statements_of(script), 0);
    let (m, told) = blocks_read((m, told), statements_of(script), 0);
    lemma_attributes(pairs_from(manifest_text(script), 0, seq![]), 0, m, told);
    let (m, told) = jar_manifest_read(script, m, told);
    lemma_proguard(plugins, m, told);
    let (m, told) = proguard_read(plugins, m, told);
    let (repositories, told) = repositories_of(script, told);
    let (tasks, hooks, told) = tasks_read(script, m.hooks, told);
    assert(migrated(b).manifest == ManifestModel { repositories, tasks, hooks, ..m });
    assert(same_dependencies(kept, m));
    start
}

/// In a block of plain declarations, each coordinate that is declared once
/// stands in the manifest as it was declared, and where its configuration says:
/// `implementation`, `api` and `compile` in the program's table without a switch;
/// `compileOnly`, `compileOnlyApi`, `providedCompile` and `annotationProcessor`
/// there for the compiler alone; `runtimeOnly` and `runtime` there for the
/// program alone; and the configurations of the tests in the tests' table. What
/// comes with a language is the language's affair.
pub proof fn declarations_stand_where_they_say(
    b: BuildModel,
    configs: Seq<Seq<char>>,
    deps: Seq<DependencyModel>,
    i: int,
)
    requires
        top_lines("dependencies"@, sans_comments(b.script)).len() == configs.len() == deps.len(),
        forall|k: int|
            0 <= k < configs.len() ==> declares(
                #[trigger] trimmed(top_lines("dependencies"@, sans_comments(b.script))[k]),
                configs[k],
                deps[k],
            ),
        0 <= i < deps.len(),
        !comes_with_a_language(deps[i].group, deps[i].artifact),
        forall|k: int| 0 <= k < deps.len() && k != i
            ==> (#[trigger] deps[k]).key() != deps[i].key(),
    ensures
        ({
            let m = migrated(b).manifest;
            let word = configs[i];
            let d = deps[i];
            &&& word == "implementation"@ || word == "api"@ || word == "compile"@
                ==> m.dependencies.contains(
                DependencyModel { compile_only: false, runtime_only: false, ..d },
            )
            &&& word == "compileOnly"@ || word == "compileOnlyApi"@ || word == "providedCompile"@
                || word == "annotationProcessor"@ ==> m.dependencies.contains(
                DependencyModel { compile_only: true, runtime_only: false, ..d },
            )
            &&& word == "runtimeOnly"@ || word == "runtime"@ ==> m.dependencies.contains(
                DependencyModel { compile_only: false, runtime_only: true, ..d },
            )
            &&& word == "testImplementation"@ || word == "testApi"@ || word == "testCompileOnly"@
                || word == "testRuntimeOnly"@ || word == "testCompile"@ || word == "testRuntime"@
                ==> m.dev_dependencies.contains(
                DependencyModel { compile_only: false, runtime_only: false, ..d },
            )
        }),
{
    let word = configs[i];
    configurations_are_for_what_they_say(word);
    let (m, told, catalog) = lemma_tables(b);
    if let Some(t) = target_of(word) {
        let lines = top_lines("dependencies"@, sans_comments(b.script));
        let s = DepsModel { m, told, processors: seq![], closure: None, constraints: 0 };
        let c = ContextModel {
            kotlin: kotlin_version(m),
            managed: m.managed.len() > 0,
            catalog,
            files: b.files,
        };
        lemma_block(lines, 0, s, c, configs, deps, i);
        let x = aimed(deps[i], t);
        let block = read_block(b, m, told, catalog).m;
        if t != Target::Test {
            let k = choose|k: int| 0 <= k < block.dependencies.len() && block.dependencies[k] == x;
            assert(migrated(b).manifest.dependencies.contains(block.dependencies[k]));
        }
    }
}

/// The lines of a block of plain declarations leave what is declared once for
/// the compiler and the program for both, whatever else it is declared for.
pub proof fn one_plain_declaration_is_enough(
    lines: Seq<Seq<char>>,
    s: DepsModel,
    c: ContextModel,
    configs: Seq<Seq<char>>,
    deps: Seq<DependencyModel>,
    i: int,
)
    requires
        outside(s),
        lines.len() == configs.len() == deps.len(),
        forall|k: int| 0 <= k < lines.len()
            ==> declares(#[trigger] trimmed(lines[k]), configs[k], deps[k]),
        0 <= i < deps.len(),
        configs[i] == "implementation"@ || configs[i] == "api"@ || configs[i] == "compile"@,
    ensures
        plainly_there(block_from(lines, 0, s, c).m, deps[i].key()),
{
    configurations_are_for_what_they_say(configs[i]);
    lemma_main_block(lines, 0, s, c, configs, deps, i);
}

/// The manifest of a build is for the release and the target that the script
/// names, and starts the class that it names: nothing that is read later changes
/// them.
pub proof fn releases_and_classes_stay(b: BuildModel, told: ReportModel)
    ensures
        ({
            let script = sans_comments(b.script);
            let m = migrated(b).manifest;
            let read = java_read(script, blank_manifest(m.name, m.version, b.root), told).0.java;
            &&& m.java.source == read.source
            &&& m.java.target == read.target
            &&& main_from(line_seq(script), 0) matches Some(class) ==> m.main_class == Some(class)
        }),
{
    let any = told;
    let told = ReportModel { preamble: Some(PREAMBLE@), ..empty_report() };
    let script = sans_comments(b.script);
    let (settings, told) = settings_read(b.settings, b.settings_kotlin, told);
    let (catalog, told0) = catalog_read(b.catalog, told);
    let name = name_or(settings.root_project_name, b.directory);
    let (m, told) = project_read(name, script, b.root, told0);
    lemma_project(name, script, b.root, told0);
    let plugins = plugins_of(script);
    lemma_java(script, m, told);
    let blank = m;
    let told1 = told;
    let (m, told) = java_read(script, m, told);
    let read = m;
    lemma_kotlin(script, plugins, m, told);
    let (m, told) = kotlin_read(script, plugins, m, told);
    lemma_main(script, m, told);
    let (m, told) = main_read(script, m, told);
    let named = m;
    lemma_managed(script, plugins, catalog, b.application, m, told);
    let (m, told) = managed_read(script, plugins, catalog, b.application, m, told);
    lemma_dependencies(script, catalog, b.files, m, told);
    let (m, told) = dependencies_read(script, catalog, b.files, m, told);
    lemma_library_languages_from(plugins, 0, m, told);
    lemma_library_languages(plugins, m, told);
    let (m, told) = library_languages(plugins, m, told);
    lemma_jvm_args(script, m, told);
    let (m, told) = jvm_args_read(script, m, told);
    lemma_blocks((m, told), statements_of(script), 0);
    let (m, told) = blocks_read((m, told), statements_of(script), 0);
    lemma_attributes(pairs_from(manifest_text(script), 0, seq![]), 0, m, told);
    let (m, told) = jar_manifest_read(script, m, told);
    lemma_proguard(plugins, m, told);
    let (m, told) = proguard_read(plugins, m, told);
    let (repositories, told) = repositories_of(script, told);
    let (tasks, hooks, told) = tasks_read(script, m.hooks, told);
    assert(migrated(b).manifest == ManifestModel { repositories, tasks, hooks, ..m });
    lemma_blank_java(blank, migrated(b).manifest.name, migrated(b).manifest.version, b.root, script, told1, any);
}

proof fn lemma_blank_java(
    m: ManifestModel,
    name: Seq<char>,
    version: Seq<char>,
    root: Seq<char>,
    script: Seq<char>,
    a: ReportModel,
    b: ReportModel,
)
    requires
        m.java == blank_manifest(name, version, root).java,
    ensures
        java_read(script, m, a).0.java == java_read(
            script,
            blank_manifest(name, version, root),
            b,
        ).0.java,
{
}

} // verus!
