//! What the words of a POM come to in the manifest.

use crate::coord::range;
use crate::dependency::{CENTRAL_URL, DependencyModel, ManagedModel, RepositoryModel};
use crate::element::ElementModel;
use crate::error::Fault;
use crate::gradle_files::FilesModel;
use crate::language::Language;
use crate::manifest::{blank_manifest, ManifestModel};
use crate::maven::{chain_from, migrated, ChainModel, ProjectModel};
use crate::maven_build::{
    compiler_args, filled_texts, forks_read, full_texts, java_read, jvm_target_read, languages_read,
    layout_read, main_read, plugin_config, plugin_text, proguard_read, release_of, root_language,
    sans_basedir, test_args_of, with_system_properties,
};
use crate::maven_deps::{
    below_basedir, depends, filled_text, imports_read, repositories_from, repositories_read,
    system_jar_of, system_path, with_dependency, with_pinned,
};
use crate::maven_exec::{
    arguments_of, exec_goal, exec_template_of, execution_hook, phase_hook, plugin_in, project_run,
    task_of_run, text_in, RunModel,
};
use crate::maven_manifest::{kept_java, lemma_effective, lemma_pom};
use crate::parse_dependencies::{keyed, manages};
use crate::pom::{
    effective_of, interpolated, property, EffectiveModel, PluginModel, PomDependencyModel, PomModel,
    Properties,
};
use crate::report::{empty_report, ReportModel};
use crate::task::{ActionModel, Builtin, Hook, TaskRefModel};
use crate::template::{literal_template, template_of, TemplateModel};
use crate::text::{number, sans_tail, trimmed, within, Class};
use crate::vocabulary::{scope_words_are_apart, scopes_are_what_they_say};
use vstd::prelude::*;

verus! {

// ---- [java] ----------------------------------------------------------------

/// The chain of POMs of a project before any of them is read.
pub open spec fn no_chain() -> ChainModel {
    ChainModel { chain: seq![], boot: None, told: empty_report(), profiles: empty_report() }
}

/// Where a release can be written, and which place counts first.
pub open spec fn written_release(pom: PomModel, props: Properties, place: int) -> Option<Seq<char>> {
    if place == 0 {
        match plugin_text(pom, "maven-compiler-plugin"@, "release"@) {
            Some(t) => Some(interpolated(t, props)),
            None => None,
        }
    } else if place == 1 {
        property(props, "maven.compiler.release"@)
    } else if place == 2 {
        match plugin_text(pom, "maven-compiler-plugin"@, "source"@) {
            Some(t) => Some(interpolated(t, props)),
            None => None,
        }
    } else {
        property(props, "maven.compiler.source"@)
    }
}

/// The target that a POM names: the compiler plugin's, or else the property's.
pub open spec fn written_target(pom: PomModel, props: Properties) -> Option<Seq<char>> {
    match plugin_text(pom, "maven-compiler-plugin"@, "target"@) {
        Some(t) => Some(interpolated(t, props)),
        None => property(props, "maven.compiler.target"@),
    }
}

/// The number, where it is that of a release.
pub open spec fn is_release(text: Option<Seq<char>>, n: u32) -> bool {
    text is Some && release_of(text->0) == Some(n as nat)
}

proof fn lemma_flags(list: Seq<ElementModel>, i: int, props: Properties, out: Seq<Seq<char>>)
    requires
        0 <= i,
    ensures
        forall|k: int|
            0 <= k < out.len() ==> filled_texts(list, i, props, out).contains(#[trigger] out[k]),
        forall|k: int|
            i <= k < list.len() && interpolated(trimmed((#[trigger] list[k]).text), props).len() > 0
                ==> filled_texts(list, i, props, out).contains(
                interpolated(trimmed(list[k].text), props),
            ),
    decreases list.len() - i,
{
    let all = filled_texts(list, i, props, out);
    if i < list.len() {
        let t = interpolated(trimmed(list[i].text), props);
        let next = if t.len() > 0 {
            out.push(t)
        } else {
            out
        };
        lemma_flags(list, i + 1, props, next);
        assert forall|k: int| 0 <= k < out.len() implies all.contains(#[trigger] out[k]) by {
            assert(next[k] == out[k]);
        }
        if t.len() > 0 {
            assert(next[out.len() as int] == t);
        }
    } else {
        assert forall|k: int| 0 <= k < out.len() implies all.contains(#[trigger] out[k]) by {
            assert(all[k] == out[k]);
        }
    }
}

/// The migrated manifest compiles for the release that the POM names, in the
/// first of four places that has one: the compiler plugin's `<release>`, the
/// property `maven.compiler.release`, the plugin's `<source>`, the property
/// `maven.compiler.source`. It has the target that the POM names, unless that is
/// the release; the encoding that `project.build.sourceEncoding` names; and every
/// argument that the plugin gives javac.
pub proof fn releases_are_where_they_are_written(
    p: ProjectModel,
    c: ChainModel,
    e: EffectiveModel,
    place: int,
    n: u32,
)
    requires
        chain_from(p.poms, 0, no_chain()) == Ok::<ChainModel, Fault>(c),
        effective_of(c.chain) == Ok::<EffectiveModel, Fault>(e),
    ensures
        migrated(p) is Ok,
        ({
            let pom = c.chain[0];
            let props = e.properties;
            let java = migrated(p)->Ok_0.manifest.java;
            let nowhere = written_release(pom, props, 0) is None && written_release(pom, props, 1)
                is None && written_release(pom, props, 2) is None && written_release(pom, props, 3)
                is None;
            &&& 0 <= place <= 3 && is_release(written_release(pom, props, place), n)
                && (forall|q: int|
                0 <= q < place ==> (#[trigger] written_release(pom, props, q)) is None)
                ==> java.source == Some(n) && (written_target(pom, props) is None
                || is_release(written_target(pom, props), n) ==> java.target is None)
            &&& forall|t: u32|
                #![trigger is_release(written_target(pom, props), t)]
                is_release(written_target(pom, props), t) && (nowhere || (0 <= place <= 3
                    && is_release(written_release(pom, props, place), n) && n != t
                        && (forall|q: int|
                    0 <= q < place ==> (#[trigger] written_release(pom, props, q)) is None)))
                    ==> java.target == Some(t)
            &&& match property(props, "project.build.sourceEncoding"@) {
                Some(v) => java.encoding == v,
                None => java.encoding == "UTF-8"@,
            }
            &&& plugin_config(pom, "maven-compiler-plugin"@) matches Some(config) ==> (config.child(
                "compilerArgs"@,
            ) matches Some(args) ==> forall|k: int|
                0 <= k < args.children.len() && interpolated(
                    trimmed((#[trigger] args.children[k]).text),
                    props,
                ).len() > 0 ==> java.javac_args.contains(
                    interpolated(trimmed(args.children[k].text), props),
                ))
        }),
{
    lemma_effective(c.chain);
    lemma_pom(p, c.chain, c.boot, e, c.told);
    let pom = c.chain[0];
    let props = e.properties;
    let start = c.told.with_migrated("project.name = "@ + e.artifact).with_migrated(
        "project.version = "@ + e.version,
    );
    let read = java_read(pom, props, blank_manifest(e.artifact, e.version, p.root), start).0.java;
    let java = migrated(p)->Ok_0.manifest.java;
    assert(kept_java(read, java));
    assert(written_release(pom, props, 0) is None || place == 0 || !(0 <= place <= 3)
        || !(forall|q: int|
        0 <= q < place ==> (#[trigger] written_release(pom, props, q)) is None));
    assert(written_release(pom, props, 1) is None || place <= 1 || !(0 <= place <= 3)
        || !(forall|q: int|
        0 <= q < place ==> (#[trigger] written_release(pom, props, q)) is None));
    assert(written_release(pom, props, 2) is None || place <= 2 || !(0 <= place <= 3)
        || !(forall|q: int|
        0 <= q < place ==> (#[trigger] written_release(pom, props, q)) is None));
    if let Some(config) = plugin_config(pom, "maven-compiler-plugin"@) {
        if let Some(args) = config.child("compilerArgs"@) {
            lemma_flags(args.children, 0, props, seq![]);
            let flags = compiler_args(pom, props);
            assert forall|k: int|
                0 <= k < args.children.len() && interpolated(
                    trimmed((#[trigger] args.children[k]).text),
                    props,
                ).len() > 0 implies java.javac_args.contains(
                interpolated(trimmed(args.children[k].text), props),
            ) by {
                let t = interpolated(trimmed(args.children[k].text), props);
                assert(flags.contains(t));
                let j = choose|j: int| 0 <= j < flags.len() && flags[j] == t;
                assert(flags.len() > 0);
                assert(read.javac_args == flags);
                assert(java.javac_args.contains(read.javac_args[j]));
            }
        }
    }
}

// ---- [dependencies] --------------------------------------------------------

/// A jar of a POM that is not optional, in a version that is one, is declared
/// once in the table of its scope: `test` in the tests' table, the others in the
/// program's, `provided` for the compiler alone and `runtime` for the program
/// alone, under the coordinates and with the exclusions that the POM gives.
pub proof fn scopes_choose_the_table(
    m: ManifestModel,
    told: ReportModel,
    raw: PomDependencyModel,
    e: EffectiveModel,
    pom: PomModel,
    files: FilesModel,
    bom: bool,
)
    requires
        !e.managing(raw).optional,
        e.managing(raw).kind == "jar"@,
        e.managing(raw).version is Some,
        !within(e.managing(raw).version->0, "${"@),
        !range(e.managing(raw).version->0),
        e.managing(raw).scope != Some("system"@),
        e.managing(raw).scope != Some("import"@),
    ensures
        ({
            let d = e.managing(raw);
            let next = with_dependency(m, told, raw, e, pom, files, bom).0;
            let test = d.scope == Some("test"@);
            let entry = DependencyModel {
                group: d.group,
                artifact: d.artifact,
                version: d.version->0,
                classifier: d.classifier,
                exclusions: d.exclusions,
                compile_only: d.scope == Some("provided"@),
                runtime_only: d.scope == Some("runtime"@),
                path: None,
            };
            &&& test ==> next.dependencies == m.dependencies
            &&& !test ==> next.dev_dependencies == m.dev_dependencies
            &&& test && !keyed(m.dev_dependencies, entry.key()) ==> next.dev_dependencies
                == m.dev_dependencies.push(entry)
            &&& !test && !keyed(m.dependencies, entry.key()) ==> next.dependencies
                == m.dependencies.push(entry)
        }),
{
    let d = e.managing(raw);
    if let Some(name) = d.scope {
        scopes_are_what_they_say(name);
    }
    scopes_are_what_they_say("compile"@);
    scope_words_are_apart();
}

/// What a POM imports is managed as a BOM, and what it manages otherwise is
/// pinned, in the version that it names, unless it is managed already.
pub proof fn managed_versions_are_kept(
    m: ManifestModel,
    told: ReportModel,
    d: PomDependencyModel,
    declared: Seq<PomDependencyModel>,
    pinned: nat,
)
    requires
        d.version is Some,
        !within(d.version->0, "${"@),
        !manages(m.managed, d.group, d.artifact),
    ensures
        imports_read(seq![d], 0, m, told).0.managed == m.managed.push(
            ManagedModel { group: d.group, artifact: d.artifact, version: d.version->0, bom: true },
        ),
        !range(d.version->0) && !depends(declared, d.group, d.artifact)
            ==> with_pinned(m, told, pinned, d, declared).0.managed == m.managed.push(
            ManagedModel { group: d.group, artifact: d.artifact, version: d.version->0, bom: false },
        ),
{
    reveal_with_fuel(imports_read, 2);
    assert(seq![d][0] == d);
}

// ---- the layout, the main class, the tests ---------------------------------

/// A directory that the build names is the project's, each in its own place,
/// unless it is the usual one or a language's own.
pub proof fn directories_keep_their_places(pom: PomModel, m: ManifestModel, told: ReportModel)
    ensures
        ({
            let next = layout_read(pom, m, told).0;
            &&& match pom.build.source_directory {
                Some(raw) => next.source_dir == (if sans_basedir(raw) == "src/main/java"@
                    || root_language(m.languages, sans_basedir(raw), "src/main"@, 0) is Some {
                    m.source_dir
                } else {
                    sans_basedir(raw)
                }),
                None => next.source_dir == m.source_dir,
            }
            &&& match pom.build.test_source_directory {
                Some(raw) => next.test_dir == (if sans_basedir(raw) == "src/test/java"@
                    || root_language(m.languages, sans_basedir(raw), "src/test"@, 0) is Some {
                    m.test_dir
                } else {
                    sans_basedir(raw)
                }),
                None => next.test_dir == m.test_dir,
            }
            &&& match pom.build.directory {
                Some(raw) => next.target_dir == (if sans_basedir(raw) == "target"@ {
                    m.target_dir
                } else {
                    sans_basedir(raw)
                }),
                None => next.target_dir == m.target_dir,
            }
            &&& pom.build.resource_directories.len() > 0 && sans_basedir(
                pom.build.resource_directories[0],
            ) != "src/main/resources"@ ==> next.resource_dir == sans_basedir(
                pom.build.resource_directories[0],
            )
            &&& pom.build.resource_directories.len() == 0 ==> next.resource_dir == m.resource_dir
            &&& next.test_resource_dir == m.test_resource_dir
        }),
{
}

/// The main class is the jar plugin's, where it names one; where neither it nor
/// the shade plugin does, it is Spring Boot's, or that of `start-class`.
pub proof fn main_classes_are_where_they_are_written(
    pom: PomModel,
    props: Properties,
    m: ManifestModel,
    told: ReportModel,
)
    ensures
        plugin_config(pom, "maven-jar-plugin"@) matches Some(c) ==> (c.grandchild(
            "archive"@,
            "manifest"@,
        ) matches Some(x) ==> (x.text_of("mainClass"@) matches Some(class) ==> main_read(
            pom,
            props,
            m,
            told,
        ).0.main_class == Some(class))),
        plugin_config(pom, "maven-jar-plugin"@) is None && plugin_in(
            pom,
            "maven-shade-plugin"@,
        ) is None ==> {
            let boot = plugin_text(pom, "spring-boot-maven-plugin"@, "mainClass"@);
            let class = main_read(pom, props, m, told).0.main_class;
            &&& boot matches Some(b) ==> (!within(b, "${"@) ==> class == Some(b))
            &&& boot is None ==> (property(props, "start-class"@) matches Some(s) ==> (!within(
                s,
                "${"@,
            ) ==> class == Some(s)))
            &&& boot is None && property(props, "start-class"@) is None ==> class == m.main_class
        },
{
}

/// The tests run in as many JVMs as `<forkCount>` says, from two on.
pub proof fn forks_are_counted(
    config: ElementModel,
    props: Properties,
    m: ManifestModel,
    told: ReportModel,
)
    ensures
        ({
            let forks = forks_read(config, props, m, told).0.test.forks;
            match filled_text(config, "forkCount"@, props) {
                Some(t) => match number(t, u32::MAX as nat) {
                    Some(n) => if n >= 2 {
                        forks == n as u32
                    } else {
                        forks == m.test.forks
                    },
                    None => forks == m.test.forks,
                },
                None => forks == m.test.forks,
            }
        }),
{
}

// ---- the repositories ------------------------------------------------------

proof fn lemma_repositories(
    list: Seq<(Seq<char>, Seq<char>)>,
    i: int,
    out: Seq<RepositoryModel>,
    told: ReportModel,
)
    requires
        0 <= i,
    ensures
        forall|k: int|
            0 <= k < out.len()
                ==> repositories_from(list, i, out, told).0.contains(#[trigger] out[k]),
        forall|k: int|
            i <= k < list.len()
                && sans_tail((#[trigger] list[k]).1, Class::One('/')) != CENTRAL_URL@
                ==> repositories_from(list, i, out, told).0.contains(
                RepositoryModel {
                    name: list[k].0,
                    url: sans_tail(list[k].1, Class::One('/')),
                    groups: seq![],
                },
            ),
    decreases list.len() - i,
{
    let all = repositories_from(list, i, out, told).0;
    if i < list.len() {
        let (id, raw) = list[i];
        let url = sans_tail(raw, Class::One('/'));
        if url == CENTRAL_URL@ {
            lemma_repositories(list, i + 1, out, told);
        } else {
            let r = RepositoryModel { name: id, url, groups: seq![] };
            let next = out.push(r);
            lemma_repositories(
                list,
                i + 1,
                next,
                told.with_migrated("repository "@ + id + " = "@ + url),
            );
            assert(next[out.len() as int] == r);
            assert forall|k: int| 0 <= k < out.len() implies all.contains(#[trigger] out[k]) by {
                assert(next[k] == out[k]);
            }
        }
    } else {
        assert forall|k: int| 0 <= k < out.len() implies all.contains(#[trigger] out[k]) by {
            assert(all[k] == out[k]);
        }
    }
}

/// Every repository that a POM names, but Maven Central, is in the manifest
/// under its id, for all groups; and Central is asked last.
pub proof fn repositories_are_kept(
    list: Seq<(Seq<char>, Seq<char>)>,
    m: ManifestModel,
    told: ReportModel,
    k: int,
)
    requires
        0 <= k < list.len(),
        sans_tail(list[k].1, Class::One('/')) != "https://repo1.maven.org/maven2"@,
    ensures
        repositories_read(list, m, told).0.repositories.contains(
            RepositoryModel {
                name: list[k].0,
                url: sans_tail(list[k].1, Class::One('/')),
                groups: seq![],
            },
        ),
        repositories_read(list, m, told).0.repositories.last().url
            == "https://repo1.maven.org/maven2"@,
{
    lemma_repositories(list, 0, seq![], told);
    let own = repositories_from(list, 0, seq![], told).0;
    let all = repositories_read(list, m, told).0.repositories;
    let r = RepositoryModel {
        name: list[k].0,
        url: sans_tail(list[k].1, Class::One('/')),
        groups: seq![],
    };
    let j = choose|j: int| 0 <= j < own.len() && own[j] == r;
    assert(all[j] == own[j]);
}

// ---- the executions --------------------------------------------------------

/// `exec:exec` runs its executable with its arguments, in their order, and needs
/// nothing built first.
pub proof fn executables_are_run(
    configs: Seq<ElementModel>,
    arguments: Seq<TemplateModel>,
    props: Properties,
)
    ensures
        exec_goal(configs, arguments, props) matches Ok(run) ==> {
            let executable = text_in(configs, "executable"@);
            &&& executable is Some
            &&& run.action matches ActionModel::Run(argv) && argv.len() == arguments.len() + 1
                && exec_template_of(executable->0, props) == Ok::<TemplateModel, Seq<char>>(argv[0])
                && forall|k: int|
                0 <= k < arguments.len() ==> #[trigger] argv[k + 1] == arguments[k]
            &&& run.depends_on.len() == 0
            &&& run.dependencies.len() == 0
        },
{
}

/// `exec:java` on the project's classpath starts `java` with the flags, the
/// classpath, the class and the arguments, in this order; it builds the project
/// first, unless a hook runs it.
pub proof fn classes_are_run(
    main: Seq<char>,
    flags: Seq<TemplateModel>,
    arguments: Seq<TemplateModel>,
    hooking: bool,
)
    ensures
        project_run(main, flags, arguments, hooking) matches Ok(run) ==> {
            let n = flags.len() as int;
            &&& run.action matches ActionModel::Run(argv) && argv.len() == n + 3 + arguments.len()
                && argv[0] == literal_template("java"@) && template_of("@{classpath-argfile}"@)
                == Ok::<TemplateModel, Seq<char>>(argv[n + 1]) && argv[n
                    + 2] == literal_template(main)
                && (forall|k: int| 0 <= k < n ==> #[trigger] argv[k + 1] == flags[k])
                    && forall|k: int|
                0 <= k < arguments.len() ==> #[trigger] argv[k + n + 3] == arguments[k]
            &&& hooking ==> run.depends_on.len() == 0
            &&& !hooking ==> run.depends_on == seq![TaskRefModel::Builtin(Builtin::Build)]
        },
{
}

/// An execution's task has the action, the variables and the directory that were
/// read of it, and is hooked where its phase says.
pub proof fn executions_are_their_tasks(
    name: Seq<char>,
    run: RunModel,
    env: Seq<(Seq<char>, TemplateModel)>,
    cwd: Option<TemplateModel>,
    hook: Option<Hook>,
)
    ensures
        ({
            let t = task_of_run(name, run, env, cwd, hook);
            &&& t.hook == hook
            &&& t.def.name == name
            &&& t.def.action == Some(run.action)
            &&& t.def.args == run.args
            &&& t.def.depends_on == run.depends_on
            &&& t.def.env == env
            &&& t.def.cwd == cwd
            &&& t.def.dependencies == run.dependencies
        }),
{
}

/// The phase of an execution is where its task is hooked; without a phase it is
/// hooked nowhere, and one that has no hook leaves it out.
pub proof fn phases_hook_executions(execution: ElementModel)
    ensures
        match execution.text_of("phase"@) {
            None => execution_hook(execution) == Ok::<
                Option<Hook>,
                Seq<char>,
            >(None),
            Some(phase) => match phase_hook(phase) {
                Some(h) => execution_hook(execution) == Ok::<
                    Option<Hook>,
                    Seq<char>,
                >(Some(h)),
                None => execution_hook(execution) is Err,
            },
        },
{
}

proof fn lemma_system_properties(
    list: Seq<ElementModel>,
    i: int,
    props: Properties,
    args: Seq<Seq<char>>,
)
    requires
        0 <= i <= list.len(),
    ensures
        ({
            let all = with_system_properties(list, i, props, args);
            &&& all.len() == args.len() + list.len() - i
            &&& all.take(args.len() as int) == args
            &&& forall|k: int|
                i <= k < list.len() ==> all[args.len() + k - i] == "-D"@ + (#[trigger] list[k]).name
                    + "="@ + interpolated(trimmed(list[k].text), props)
        }),
    decreases list.len() - i,
{
    let all = with_system_properties(list, i, props, args);
    if i < list.len() {
        let one = "-D"@ + list[i].name + "="@ + interpolated(trimmed(list[i].text), props);
        let next = args.push(one);
        lemma_system_properties(list, i + 1, props, next);
        assert(all.take(args.len() as int) =~= all.take(next.len() as int).take(args.len() as int));
        assert(next.take(args.len() as int) =~= args);
        assert(all[args.len() as int] == all.take(next.len() as int)[args.len() as int]);
    } else {
        assert(args.take(args.len() as int) =~= args);
    }
}

/// The tests' JVM gets the words of `<argLine>`, where jrs can read it, and then
/// each of the `<systemPropertyVariables>` as `-D`, its name and its value.
pub proof fn surefire_arguments_are_kept(
    config: ElementModel,
    props: Properties,
    told: ReportModel,
    k: int,
)
    ensures
        ({
            let args = test_args_of(config, props, told).0;
            let line = filled_text(config, "argLine"@, props);
            let read = line is Some && !within(line->0, "${"@) && !within(line->0, "@{"@);
            let words = if read {
                arguments_of(line->0)
            } else {
                seq![]
            };
            &&& config.child("systemPropertyVariables"@) is None ==> args == words
            &&& config.child("systemPropertyVariables"@) matches Some(list) ==> {
                &&& args.len() == words.len() + list.children.len()
                &&& args.take(words.len() as int) == words
                &&& 0 <= k < list.children.len() ==> args[words.len() + k] == "-D"@
                    + list.children[k].name + "="@ + interpolated(
                    trimmed(list.children[k].text),
                    props,
                )
            }
        }),
{
    let line = filled_text(config, "argLine"@, props);
    let read = line is Some && !within(line->0, "${"@) && !within(line->0, "@{"@);
    let words = if read {
        arguments_of(line->0)
    } else {
        seq![]
    };
    if let Some(list) = config.child("systemPropertyVariables"@) {
        lemma_system_properties(list.children, 0, props, words);
        if 0 <= k < list.children.len() {
            let one = list.children[k];
        }
    }
}

/// Kotlin's target is the release where none is named: the plugin's, or else the
/// property's.
pub proof fn kotlin_names_the_release(
    kotlin: PluginModel,
    props: Properties,
    m: ManifestModel,
    told: ReportModel,
    n: u32,
)
    requires
        m.java.source is None,
    ensures
        ({
            let own = match kotlin.configuration {
                Some(c) => c.text_of("jvmTarget"@),
                None => None,
            };
            let named = match own {
                Some(t) => Some(t),
                None => property(props, "kotlin.compiler.jvmTarget"@),
            };
            let next = jvm_target_read(kotlin, props, m, told).0;
            &&& named is Some && release_of(interpolated(named->0, props)) == Some(n as nat)
                ==> next.java.source == Some(n)
            &&& named is None ==> next == m
        }),
{
}

/// The plugin of ProGuard pins its version, and its options are handed on.
pub proof fn proguard_is_pinned(pom: PomModel, m: ManifestModel, told: ReportModel)
    ensures
        ({
            let next = proguard_read(pom, m, told).0.obfuscate;
            match plugin_config(pom, "proguard-maven-plugin"@) {
                None => next == m.obfuscate,
                Some(c) => match c.text_of("proguardVersion"@) {
                    Some(v) => next is Some && next->0.version == v && next->0.keep.len() == 0 && (
                    c.child("options"@) is None ==> next->0.proguard_args.len() == 0) && (c.child(
                        "options"@,
                    ) matches Some(o) ==> next->0.proguard_args == full_texts(
                        o.children,
                        0,
                        seq![],
                    )),
                    None => next == m.obfuscate,
                },
            }
        }),
{
}

/// A jar of the system, below the project, is a local jar for the compiler
/// alone.
pub proof fn system_jars_are_for_the_compiler(
    pom: PomModel,
    d: PomDependencyModel,
    props: Properties,
    files: FilesModel,
    told: ReportModel,
)
    ensures
        system_jar_of(pom, d, props, files, told).0 matches Some(jar) ==> {
            &&& jar.artifact == d.artifact
            &&& jar.path is Some
            &&& jar.compile_only
            &&& !jar.runtime_only
            &&& system_path(pom, d, props) matches Some(raw) && jar.path
                == below_basedir(raw, props)
        },
{
}

/// Scala is the version that its plugin names, and Groovy that of its library.
pub proof fn scala_is_the_plugins(
    chain: Seq<PomModel>,
    pom: PomModel,
    props: Properties,
    m: ManifestModel,
    told: ReportModel,
    scala: PluginModel,
    version: Seq<char>,
)
    requires
        m.languages.len() == 0,
        plugin_in(pom, "kotlin-maven-plugin"@) is None,
        plugin_in(pom, "gmavenplus-plugin"@) is None,
        plugin_in(pom, "scala-maven-plugin"@) == Some(scala),
        scala.configuration is Some,
        filled_text(scala.configuration->0, "scalaVersion"@, props) == Some(version),
        Language::Scala.refusal(version) is None,
    ensures
        languages_read(chain, pom, props, m, told).0.languages.len() == 1,
        languages_read(chain, pom, props, m, told).0.languages[0].language
            == Language::Scala,
        languages_read(chain, pom, props, m, told).0.languages[0].version
            == version,
{
}

} // verus!
