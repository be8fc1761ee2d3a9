//! What a manifest that was read has from each key of its document.

use crate::attributes::attribute_table;
use crate::error::Fault;
use crate::keys::{
    count_of, minimums, optional_text, path_text, release_of, required_text, switch_of, text_list,
};
use crate::language::Language;
use crate::manifest::{ManifestModel, ObfuscateModel};
use crate::parse::{language_of, manifest_of};
use crate::parse_dependencies::{
    coordinate, dependency_of, dependency_table, field_name, long_exclusions, managed_of,
    managed_table, repository_of, repository_table,
};
use crate::parse_tasks::{
    agents_of, env_of, hooks_of, jvm_cwd_of, jvm_env_of, optional_template, references_of,
    task_table, tasks_of, template_list,
};
use crate::reread_manifest::lemma_said;
use crate::task::ActionModel;
use crate::text::{sans_tail, trimmed, Class};
use crate::value::{entry, Entries, Tree, TreeKind};
use vstd::prelude::*;

verus! {

/// What was read is what is there.
pub open spec fn has<A>(read: Result<A, Fault>, there: A) -> bool {
    read == Ok::<A, Fault>(there)
}

/// The table under a key that a document has.
pub open spec fn table_at(table: Entries, key: Seq<char>) -> Option<Entries> {
    match entry(table, key) {
        Some(v) => v.table(),
        None => None,
    }
}

/// What `[project]` and its keys say.
pub open spec fn has_project(t: Entries, m: ManifestModel) -> bool {
    &&& has(required_text(t, "name"@, "project"@), m.name)
    &&& has(required_text(t, "version"@, "project"@), m.version)
    &&& has(optional_text(t, "main-class"@, "project"@), m.main_class)
    &&& has(path_text(t, "source-dir"@, "src/main/java"@, "project"@), m.source_dir)
    &&& has(path_text(t, "test-dir"@, "src/test/java"@, "project"@), m.test_dir)
    &&& has(path_text(t, "resource-dir"@, "src/main/resources"@, "project"@), m.resource_dir)
    &&& has(path_text(t, "target-dir"@, "target"@, "project"@), m.target_dir)
    &&& entry(t, "test-resource-dir"@) is Some ==> has(
        path_text(t, "test-resource-dir"@, ""@, "project"@),
        m.test_resource_dir,
    )
    &&& entry(t, "jrs-version"@) matches Some(v) ==> v.text() == m.jrs_version
    &&& entry(t, "jrs-version"@) is None ==> m.jrs_version is None
}

/// What `[java]` says: no target where it is the source.
pub open spec fn has_java(t: Entries, m: ManifestModel) -> bool {
    &&& has(release_of(t, "source"@), m.java.source)
    &&& release_of(t, "target"@) is Ok
    &&& m.java.target is Some ==> has(release_of(t, "target"@), m.java.target)
    &&& m.java.target is None ==> release_of(t, "target"@) == release_of(t, "source"@)
        || release_of(
        t,
        "target"@,
    )->Ok_0 is None
    &&& has(release_of(t, "jdk"@), m.java.jdk)
    &&& has(text_list(t, "javac-args"@, "java"@), m.java.javac_args)
    &&& has(text_list(t, "javadoc-args"@, "java"@), m.java.javadoc_args)
    &&& optional_text(t, "encoding"@, "java"@) matches Ok(e) && m.java.encoding == (match e {
        Some(s) => s,
        None => "UTF-8"@,
    })
}

/// What `[run]` says.
pub open spec fn has_run(t: Entries, m: ManifestModel) -> bool {
    &&& has(text_list(t, "jvm-args"@, "run"@), m.run.jvm_args)
    &&& has(agents_of(t, "run"@), m.run.java_agents)
    &&& has(jvm_env_of(t, "run"@), m.run.env)
    &&& has(jvm_cwd_of(t, "run"@), m.run.cwd)
}

/// What `[test]` says.
pub open spec fn has_test(t: Entries, m: ManifestModel) -> bool {
    &&& has(text_list(t, "jvm-args"@, "test"@), m.test.jvm_args)
    &&& has(optional_text(t, "jacoco-version"@, "test"@), m.test.jacoco_version)
    &&& has(agents_of(t, "test"@), m.test.java_agents)
    &&& has(jvm_env_of(t, "test"@), m.test.env)
    &&& has(count_of(t, "retries"@, "test"@), m.test.retries)
    &&& has(count_of(t, "forks"@, "test"@), m.test.forks)
    &&& has(minimums(t), m.test.coverage_minimum)
}

/// What `[package]` says.
pub open spec fn has_package(t: Entries, m: ManifestModel) -> bool {
    &&& has(text_list(t, "add-modules"@, "package"@), m.package.add_modules)
    &&& has(text_list(t, "native-image-args"@, "package"@), m.package.native_image_args)
    &&& has(attribute_table(t), m.package.manifest)
}

/// What `[obfuscate]` says.
pub open spec fn has_obfuscate(t: Entries, c: ObfuscateModel) -> bool {
    &&& has(required_text(t, "version"@, "obfuscate"@), c.version)
    &&& has(text_list(t, "keep"@, "obfuscate"@), c.keep)
    &&& has(text_list(t, "proguard-args"@, "obfuscate"@), c.proguard_args)
}

/// A manifest that was read has from each table, and from each key of it, what
/// stands there; from a table that is not there it has what is usual.
pub proof fn documents_are_read_by_their_keys(
    table: Entries,
    path: Seq<char>,
    root: Seq<char>,
    m: ManifestModel,
)
    requires
        manifest_of(table, path, root) == Ok::<ManifestModel, Fault>(m),
    ensures
        m.path == path,
        m.root == root,
        table_at(table, "project"@) is Some && has_project(table_at(table, "project"@)->0, m),
        entry(table, "java"@) is Some ==> table_at(table, "java"@) is Some && has_java(
            table_at(table, "java"@)->0,
            m,
        ),
        entry(table, "java"@) is None ==> m.java.source is None && m.java.target is None
            && m.java.jdk is None && m.java.javac_args.len() == 0 && m.java.encoding == "UTF-8"@,
        entry(table, "run"@) is Some ==> table_at(table, "run"@) is Some && has_run(
            table_at(table, "run"@)->0,
            m,
        ),
        entry(table, "test"@) is Some ==> table_at(table, "test"@) is Some && has_test(
            table_at(table, "test"@)->0,
            m,
        ),
        entry(table, "test"@) is None ==> m.test.forks == 0 && m.test.retries == 0
            && m.test.jvm_args.len() == 0,
        entry(table, "package"@) is Some ==> table_at(table, "package"@) is Some && has_package(
            table_at(table, "package"@)->0,
            m,
        ),
        entry(table, "obfuscate"@) is Some ==> table_at(table, "obfuscate"@) is Some
            && m.obfuscate is Some
                && has_obfuscate(table_at(table, "obfuscate"@)->0, m.obfuscate->0),
        entry(table, "obfuscate"@) is None ==> m.obfuscate is None,
        has(dependency_table(entry(table, "dependencies"@), "dependencies"@), m.dependencies),
        has(
            dependency_table(entry(table, "dev-dependencies"@), "dev-dependencies"@),
            m.dev_dependencies,
        ),
        entry(table, "dependencies"@) is None ==> m.dependencies.len() == 0,
        entry(table, "dev-dependencies"@) is None ==> m.dev_dependencies.len() == 0,
        has(managed_table(table), m.managed),
        has(repository_table(table), m.repositories),
        has(hooks_of(table), m.hooks),
        tasks_of(table) matches Ok((tasks, _)) && tasks == m.tasks,
{
    lemma_said(table, path, root, m);
}

/// A language's table: its version, its directories, and the arguments of its
/// compiler under the compiler's own name.
pub proof fn language_tables_are_read_by_their_keys(language: Language, t: Entries)
    ensures
        language_of(language, t) matches Ok(c) ==> {
            &&& c.language == language
            &&& entry(t, "version"@) is Some && entry(t, "version"@)->0.text() is Some && c.version
                == trimmed(entry(t, "version"@)->0.text()->0)
            &&& has(
                path_text(t, "source-dir"@, "src/main/"@ + language.word(), language.word()),
                c.source_dir,
            )
            &&& has(
                path_text(t, "test-dir"@, "src/test/"@ + language.word(), language.word()),
                c.test_dir,
            )
            &&& language is Kotlin
                ==> has(text_list(t, "kotlinc-args"@, "kotlin"@), c.compiler_args)
            &&& language is Scala ==> has(text_list(t, "scalac-args"@, "scala"@), c.compiler_args)
            &&& language is Groovy
                ==> has(text_list(t, "groovyc-args"@, "groovy"@), c.compiler_args)
            &&& has(text_list(t, "compiler-jvm-args"@, language.word()), c.compiler_jvm_args)
        },
{
}

/// A task's table: one action, and what else it says under each of its keys.
pub proof fn task_tables_are_read_by_their_keys(name: Seq<char>, t: Entries)
    ensures
        task_table(name, t) matches Ok(task) ==> {
            let section = "tasks."@ + name;
            &&& task.name == name
            &&& has(optional_text(t, "description"@, section), task.description)
            &&& entry(t, "run"@) is Some ==> (task.action matches Some(ActionModel::Run(argv))
                && has(
                template_list(t, "run"@, section),
                argv,
            ))
            &&& optional_text(t, "shell"@, section) matches Ok(Some(s)) ==> task.action == Some(
                ActionModel::Shell(s),
            )
            &&& optional_template(t, "script"@, section) matches Ok(Some(s))
                ==> task.action == Some(
                ActionModel::Script(s),
            )
            &&& optional_text(t, "main"@, section) matches Ok(Some(s)) ==> task.action == Some(
                ActionModel::Main(s),
            )
            &&& has(template_list(t, "args"@, section), task.args)
            &&& has(references_of(t, section), task.depends_on)
            &&& has(env_of(t, section, ", and are set for every task"@), task.env)
            &&& has(optional_template(t, "cwd"@, section), task.cwd)
            &&& has(template_list(t, "inputs"@, section), task.inputs)
            &&& has(template_list(t, "outputs"@, section), task.outputs)
            &&& has(template_list(t, "source-outputs"@, section), task.source_outputs)
            &&& has(template_list(t, "resource-outputs"@, section), task.resource_outputs)
            &&& has(
                dependency_table(entry(t, "dependencies"@), section + ".dependencies"@),
                task.dependencies,
            )
        },
{
}

/// An entry of dependencies: a text is the version, and a table has the version,
/// what is left out and the two switches under their keys. Without a table there
/// is no switch.
pub proof fn dependencies_are_read_by_their_keys(key: Seq<char>, v: Tree, section: Seq<char>)
    ensures
        dependency_of(key, v, section) matches Ok(d) ==> {
            &&& v.kind matches TreeKind::Text(version) ==> d.version == version && !d.compile_only
                && !d.runtime_only && d.exclusions.len() == 0 && d.path is None
            &&& v.table() matches Some(t) ==> (entry(t, "path"@) is None ==> {
                &&& has(
                    switch_of(t, "compile-only"@, field_name(section, key, "compile-only"@)),
                    d.compile_only,
                )
                &&& has(
                    switch_of(t, "runtime-only"@, field_name(section, key, "runtime-only"@)),
                    d.runtime_only,
                )
                &&& has(long_exclusions(key, t, section), d.exclusions)
            })
            &&& (v.kind is Text || v.table() is Some && entry(v.table()->0, "path"@) is None)
                ==> coordinate(key, section) is Ok && d.group == coordinate(key, section)->Ok_0.0
                && d.artifact == coordinate(key, section)->Ok_0.1
        },
{
}

/// An entry of pinned versions: a text is the version of no BOM, and a table
/// says whether it is one.
pub proof fn pins_are_read_by_their_keys(key: Seq<char>, v: Tree)
    ensures
        managed_of(key, v) matches Ok(m) ==> {
            &&& v.kind matches TreeKind::Text(version) ==> m.version == trimmed(version) && !m.bom
            &&& v.kind matches TreeKind::Table(t) ==> entry(t, "version"@) is Some && has(
                switch_of(t, "bom"@, "`managed.\""@ + key + "\".bom`"@),
                m.bom,
            )
        },
{
}

/// An entry of repositories: a text is the URL, for every group, and a table has
/// the URL and the groups under their keys. Slashes at the end of a URL go.
pub proof fn repositories_are_read_by_their_keys(name: Seq<char>, v: Tree)
    ensures
        repository_of(name, v) matches Ok(r) ==> {
            &&& r.name == name
            &&& v.table() is None ==> v.text() is Some && r.url == sans_tail(
                v.text()->0,
                Class::One('/'),
            ) && r.groups.len() == 0
            &&& v.table() matches Some(t) ==> {
                &&& entry(t, "url"@) is Some && entry(t, "url"@)->0.text() is Some && r.url
                    == sans_tail(entry(t, "url"@)->0.text()->0, Class::One('/'))
                &&& has(text_list(t, "groups"@, "repositories."@ + name), r.groups)
            }
        },
{
}

} // verus!
