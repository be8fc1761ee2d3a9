//! A manifest that a document can say, written and read again, is the same.

use crate::check::tasks_fault;
use crate::dependency::{DependencyModel, ManagedModel, RepositoryModel};
use crate::error::Fault;
use crate::keys::{key_warnings, subtable};
use crate::language::{foreign, Language};
use crate::manifest::{
    language_at, same_language, JavaModel, LanguageModel, ManifestModel, ObfuscateModel,
    PackageModel, RunModel, TestModel,
};
use crate::parse::{
    dev_fault_from, java_table, language_checks_from, language_keys, language_of, languages_from,
    library_warnings, manifest_of, obfuscate_table, package_table, project_of, run_table,
    setting_warnings, test_table, top_keys, ProjectModel,
};
use crate::parse_dependencies::{
    dependency_table, managed_table, repository_table, versionless_fault,
};
use crate::parse_tasks::{hooks_of, tasks_of};
use crate::paths::same_dir;
use crate::render::{comment_lines, rendered};
use crate::reread::{lemma_top, top_value};
use crate::reread_dependencies::{
    all_addressed, good_dependencies, good_managed_list, good_repositories,
    lemma_dependencies_again, lemma_managed_are_good, lemma_managed_table_again,
    lemma_repositories_again, plain_keyed,
};
use crate::reread_settings::{
    good_attributes, good_java, good_languages, good_obfuscate, good_project, good_run, good_test,
    lemma_attributes_are_good, lemma_java_again, lemma_languages_again, lemma_languages_good,
    lemma_obfuscate_again, lemma_package_again, lemma_project_again, lemma_project_good,
    lemma_run_again, lemma_run_good, lemma_test_again, lemma_test_good, respelled,
    respelled_language,
};
use crate::reread_tasks::{
    good_hooks, good_tasks, lemma_hooks_again, lemma_hooks_good, lemma_tasks_again,
    lemma_tasks_good,
};
use crate::sheet::{
    bare, block_is, blocks_are, plain_block, plain_comments, plain_sheet, sheet_text, writes, Block,
};
use crate::sheet_of::{
    blocks_of, dependencies_block, hooks_block, java_block, language_block, lemma_rendered,
    managed_block, obfuscate_block, package_block, project_slots, repository_block, run_block,
    sheet_of, table_of, tasks_block, test_block, top_dependencies, top_dev_dependencies, top_groovy,
    top_hooks, top_java, top_kotlin, top_managed, top_obfuscate, top_package, top_project,
    top_repositories, top_run, top_scala, top_tasks, top_test, tops_of, Tops,
};
use crate::task::HookLists;
use crate::text::line_seq;
use crate::value::{entry, plainly_read, sound, Entries, Tree};
use crate::version::jrs_version_of;
use crate::writable::{bare_on, env_unmarked, lemma_bare, lemma_sound};
use crate::writable_dependencies::{
    lemma_dependencies_good, lemma_dependencies_plain, lemma_managed_plain, lemma_repositories_good,
    lemma_repositories_plain, quotable_dependencies, quotable_managed, quotable_repositories,
    unmarked,
};
use crate::writable_settings::{
    lemma_java_plain, lemma_language_plain, lemma_obfuscate_plain, lemma_package_plain,
    lemma_project_plain, lemma_run_plain, lemma_test_plain, plain_top, quotable_java,
    quotable_languages, quotable_obfuscate, quotable_package, quotable_project, quotable_run,
    quotable_test,
};
use crate::writable_tasks::{lemma_hooks_plain, lemma_tasks_plain, quotable_tasks};
use vstd::prelude::*;

verus! {

/// Every text of the manifest can be quoted: of the control characters it
/// holds none but tabs and line ends.
pub open spec fn quotable_manifest(m: ManifestModel) -> bool {
    &&& quotable_project(m)
    &&& quotable_java(m.java)
    &&& quotable_languages(m.languages)
    &&& quotable_run(m.run)
    &&& quotable_test(m.test)
    &&& quotable_package(m.package)
    &&& quotable_managed(m.managed)
    &&& quotable_dependencies(m.dependencies)
    &&& quotable_dependencies(m.dev_dependencies)
    &&& quotable_repositories(m.repositories)
    &&& quotable_tasks(m.tasks)
    &&& quotable_obfuscate(m.obfuscate)
}

/// No table whose keys are free starts with a key like the mark of a date.
pub open spec fn unmarked_manifest(m: ManifestModel) -> bool {
    &&& env_unmarked(m.run.env)
    &&& env_unmarked(m.test.env)
    &&& unmarked(m.repositories)
    &&& forall|k: int| 0 <= k < m.tasks.len() ==> env_unmarked((#[trigger] m.tasks[k]).env)
}

/// A manifest that says, once it is written, what it says: its texts can be
/// quoted; its releases are numbers from 1 on; a repository of some groups has
/// a URL; no table of variables or repositories starts with a key like the mark
/// of a date; and no classifier in a key has a colon.
pub open spec fn readable(m: ManifestModel) -> bool {
    &&& quotable_manifest(m)
    &&& m.java.source != Some(0u32)
    &&& m.java.target != Some(0u32)
    &&& m.java.jdk != Some(0u32)
    &&& all_addressed(m.repositories)
    &&& unmarked_manifest(m)
    &&& forall|i: int| 0 <= i < m.dependencies.len() ==> plain_keyed(#[trigger] m.dependencies[i])
    &&& forall|i: int|
        0 <= i < m.dev_dependencies.len() ==> plain_keyed(#[trigger] m.dev_dependencies[i])
    &&& forall|k: int, d: int|
        0 <= k < m.tasks.len() && 0 <= d < m.tasks[k].dependencies.len() ==> plain_keyed(
            #[trigger] m.tasks[k].dependencies[d],
        )
}

/// A manifest that a document can say: each of its tables holds what can stand
/// in it, and together they pass the checks that a document has to.
pub open spec fn good_manifest(m: ManifestModel) -> bool {
    &&& good_project(m)
    &&& good_java(m.java)
    &&& good_run(m.run)
    &&& good_test(m.test)
    &&& good_attributes(m.package.manifest)
    &&& good_languages(m.languages)
    &&& good_dependencies(m.dependencies)
    &&& good_dependencies(m.dev_dependencies)
    &&& dev_fault_from(m.dev_dependencies, true, 0) is None
    &&& dev_fault_from(m.dev_dependencies, false, 0) is None
    &&& good_managed_list(m.managed)
    &&& versionless_fault(m.dependencies, m.dev_dependencies, m.managed) is None
    &&& good_repositories(m.repositories)
    &&& good_tasks(m.tasks)
    &&& good_hooks(m.hooks)
    &&& language_checks_from(m, 0, seq![]) is Ok
    &&& tasks_fault(m.tasks, m.hooks) is None
    &&& good_obfuscate(m.obfuscate)
}

/// What `[project]` says.
pub open spec fn project_part(m: ManifestModel) -> ProjectModel {
    ProjectModel {
        name: m.name,
        version: m.version,
        main_class: m.main_class,
        source_dir: m.source_dir,
        test_dir: m.test_dir,
        resource_dir: m.resource_dir,
        test_resource_dir: m.test_resource_dir,
        target_dir: m.target_dir,
    }
}

/// What a document says, table by table, is what the manifest says.
pub open spec fn says(table: Entries, path: Seq<char>, m: ManifestModel) -> bool {
    &&& entry(table, "project"@) is Some
    &&& entry(table, "project"@)->0.table() is Some
    &&& jrs_version_of(entry(table, "project"@)->0.table()->0, path) == Ok::<
        Option<Seq<char>>,
        Fault,
    >(m.jrs_version)
    &&& project_of(entry(table, "project"@)->0.table()->0) == Ok::<ProjectModel, Fault>(
        project_part(m),
    )
    &&& java_table(table) == Ok::<JavaModel, Fault>(m.java)
    &&& run_table(table) == Ok::<RunModel, Fault>(m.run)
    &&& test_table(table) == Ok::<TestModel, Fault>(m.test)
    &&& package_table(table) == Ok::<PackageModel, Fault>(m.package)
    &&& languages_from(table, 0, seq![], seq![]) matches Ok((l, _)) && l == m.languages
    &&& dependency_table(entry(table, "dependencies"@), "dependencies"@) == Ok::<
        Seq<DependencyModel>,
        Fault,
    >(m.dependencies)
    &&& dependency_table(entry(table, "dev-dependencies"@), "dev-dependencies"@) == Ok::<
        Seq<DependencyModel>,
        Fault,
    >(m.dev_dependencies)
    &&& dev_fault_from(m.dev_dependencies, true, 0) is None
    &&& dev_fault_from(m.dev_dependencies, false, 0) is None
    &&& managed_table(table) == Ok::<Seq<ManagedModel>, Fault>(m.managed)
    &&& versionless_fault(m.dependencies, m.dev_dependencies, m.managed) is None
    &&& repository_table(table) == Ok::<Seq<RepositoryModel>, Fault>(m.repositories)
    &&& tasks_of(table) matches Ok((l, _)) && l == m.tasks
    &&& hooks_of(table) == Ok::<HookLists, Fault>(m.hooks)
    &&& language_checks_from(m, 0, seq![]) is Ok
    &&& tasks_fault(m.tasks, m.hooks) is None
    &&& obfuscate_table(table) == Ok::<Option<ObfuscateModel>, Fault>(m.obfuscate)
}

/// The manifests are equal, apart from where they are and from warnings.
pub open spec fn equal_manifest(a: ManifestModel, b: ManifestModel) -> bool {
    a == ManifestModel { path: a.path, root: a.root, warnings: a.warnings, ..b }
}

/// The languages are the same, one by one.
pub open spec fn same_languages(a: Seq<LanguageModel>, b: Seq<LanguageModel>) -> bool {
    &&& a.len() == b.len()
    &&& forall|i: int| 0 <= i < a.len() ==> same_language(#[trigger] a[i], b[i])
}

/// The manifests say the same, apart from where they are and from warnings:
/// directories are the same whatever slashes and dots they are written with.
pub open spec fn same_manifest(a: ManifestModel, b: ManifestModel) -> bool {
    &&& a == ManifestModel {
        path: a.path,
        root: a.root,
        warnings: a.warnings,
        source_dir: a.source_dir,
        test_dir: a.test_dir,
        resource_dir: a.resource_dir,
        test_resource_dir: a.test_resource_dir,
        target_dir: a.target_dir,
        languages: a.languages,
        ..b
    }
    &&& same_dir(a.source_dir, b.source_dir)
    &&& same_dir(a.test_dir, b.test_dir)
    &&& same_dir(a.resource_dir, b.resource_dir)
    &&& same_dir(a.test_resource_dir, b.test_resource_dir)
    &&& same_dir(a.target_dir, b.target_dir)
    &&& same_languages(a.languages, b.languages)
}

// ---- the checks ------------------------------------------------------------

proof fn lemma_same_libraries(a: ManifestModel, b: ManifestModel, config: LanguageModel, n: int)
    requires
        equal_manifest(a, b),
    ensures
        library_warnings(a, config, n) == library_warnings(b, config, n),
    decreases n,
{
    if n > 0 {
        lemma_same_libraries(a, b, config, n - 1);
    }
}

proof fn lemma_same_checks(a: ManifestModel, b: ManifestModel, i: int, out: Seq<Seq<char>>)
    requires
        equal_manifest(a, b),
        0 <= i <= a.languages.len(),
    ensures
        language_checks_from(a, i, out) == language_checks_from(b, i, out),
    decreases a.languages.len() - i,
{
    if i < a.languages.len() {
        let config = a.languages[i];
        let n = config.language.libraries(config.version).len() as int;
        lemma_same_libraries(a, b, config, n);
        if let Ok(settings) = setting_warnings(a, config) {
            lemma_same_checks(a, b, i + 1, out + settings + library_warnings(a, config, n));
        }
    }
}

proof fn lemma_respelled_libraries(m: ManifestModel, config: LanguageModel, n: int)
    ensures
        library_warnings(respelled(m), respelled_language(config), n) == library_warnings(
            m,
            config,
            n,
        ),
    decreases n,
{
    if n > 0 {
        lemma_respelled_libraries(m, config, n - 1);
    }
}

/// How directories are spelled changes nothing in the checks.
proof fn lemma_respelled_checks(m: ManifestModel, i: int, out: Seq<Seq<char>>)
    requires
        0 <= i <= m.languages.len(),
    ensures
        language_checks_from(respelled(m), i, out) == language_checks_from(m, i, out),
    decreases m.languages.len() - i,
{
    if i < m.languages.len() {
        let config = m.languages[i];
        assert(respelled(m).languages[i] == respelled_language(config));
        let n = config.language.libraries(config.version).len() as int;
        lemma_respelled_libraries(m, config, n);
        if let Ok(settings) = setting_warnings(m, config) {
            lemma_respelled_checks(m, i + 1, out + settings + library_warnings(m, config, n));
        }
    }
}

/// A manifest that was read says what the document says.
#[verifier::rlimit(40)]
pub proof fn lemma_said(table: Entries, path: Seq<char>, root: Seq<char>, m: ManifestModel)
    requires
        manifest_of(table, path, root) == Ok::<ManifestModel, Fault>(m),
    ensures
        says(table, path, m),
{
    assert forall|x: ManifestModel| equal_manifest(x, m) implies (
    #[trigger] language_checks_from(x, 0, seq![])) == language_checks_from(m, 0, seq![]) by {
        lemma_same_checks(x, m, 0, seq![]);
    }
}

/// What a document says is what is read from it.
#[verifier::rlimit(40)]
proof fn lemma_read(table: Entries, path: Seq<char>, root: Seq<char>, m: ManifestModel)
    requires
        says(table, path, m),
    ensures
        manifest_of(table, path, root) matches Ok(r) && r.path == path && r.root == root
            && equal_manifest(r, m),
{
    assert forall|x: ManifestModel| equal_manifest(x, m) implies (
    #[trigger] language_checks_from(x, 0, seq![])) == language_checks_from(m, 0, seq![]) by {
        lemma_same_checks(x, m, 0, seq![]);
    }
}

// ---- the tables ------------------------------------------------------------

proof fn lemma_top_at(tops: Tops, k: int, i: int)
    requires
        0 <= i <= k < tops.len(),
        forall|a: int, b: int|
            0 <= a < b < tops.len() ==> (#[trigger] tops[a]).0 != (#[trigger] tops[b]).0,
    ensures
        top_value(tops, tops[k].0, i) == tops[k].1,
    decreases k - i,
{
    if i < k {
        assert(tops[i].0 != tops[k].0);
        lemma_top_at(tops, k, i + 1);
    } else if tops[k].1 is None {
        lemma_top_after(tops, k, k + 1);
    }
}

proof fn lemma_top_after(tops: Tops, k: int, i: int)
    requires
        0 <= k < i <= tops.len(),
        forall|a: int, b: int|
            0 <= a < b < tops.len() ==> (#[trigger] tops[a]).0 != (#[trigger] tops[b]).0,
    ensures
        top_value(tops, tops[k].0, i) is None,
    decreases tops.len() - i,
{
    if i < tops.len() {
        assert(tops[k].0 != tops[i].0);
        lemma_top_after(tops, k, i + 1);
    }
}

/// The tables of a document, by their names.
proof fn lemma_tops_of(tops: Tops)
    requires
        tops.len() == 15,
        tops[0].0 == "project"@,
        tops[1].0 == "java"@,
        tops[2].0 == "kotlin"@,
        tops[3].0 == "scala"@,
        tops[4].0 == "groovy"@,
        tops[5].0 == "run"@,
        tops[6].0 == "test"@,
        tops[7].0 == "package"@,
        tops[8].0 == "managed"@,
        tops[9].0 == "dependencies"@,
        tops[10].0 == "dev-dependencies"@,
        tops[11].0 == "repositories"@,
        tops[12].0 == "tasks"@,
        tops[13].0 == "hooks"@,
        tops[14].0 == "obfuscate"@,
    ensures
        top_value(tops, "project"@, 0) == tops[0].1,
        top_value(tops, "java"@, 0) == tops[1].1,
        top_value(tops, "kotlin"@, 0) == tops[2].1,
        top_value(tops, "scala"@, 0) == tops[3].1,
        top_value(tops, "groovy"@, 0) == tops[4].1,
        top_value(tops, "run"@, 0) == tops[5].1,
        top_value(tops, "test"@, 0) == tops[6].1,
        top_value(tops, "package"@, 0) == tops[7].1,
        top_value(tops, "managed"@, 0) == tops[8].1,
        top_value(tops, "dependencies"@, 0) == tops[9].1,
        top_value(tops, "dev-dependencies"@, 0) == tops[10].1,
        top_value(tops, "repositories"@, 0) == tops[11].1,
        top_value(tops, "tasks"@, 0) == tops[12].1,
        top_value(tops, "hooks"@, 0) == tops[13].1,
        top_value(tops, "obfuscate"@, 0) == tops[14].1,
        forall|i: int, j: int|
            0 <= i < j < 15 ==> (#[trigger] tops[i]).0 != (#[trigger] tops[j]).0,
{
    reveal_strlit("project");
    reveal_strlit("java");
    reveal_strlit("kotlin");
    reveal_strlit("scala");
    reveal_strlit("groovy");
    reveal_strlit("run");
    reveal_strlit("test");
    reveal_strlit("package");
    reveal_strlit("managed");
    reveal_strlit("dependencies");
    reveal_strlit("dev-dependencies");
    reveal_strlit("repositories");
    reveal_strlit("tasks");
    reveal_strlit("hooks");
    reveal_strlit("obfuscate");
    assert("project"@.len() == 7 && "project"@[0] == 'p' && "project"@[1] == 'r');
    assert("java"@.len() == 4 && "java"@[0] == 'j');
    assert("kotlin"@.len() == 6 && "kotlin"@[0] == 'k');
    assert("scala"@.len() == 5 && "scala"@[0] == 's');
    assert("groovy"@.len() == 6 && "groovy"@[0] == 'g');
    assert("run"@.len() == 3);
    assert("test"@.len() == 4 && "test"@[0] == 't');
    assert("package"@.len() == 7 && "package"@[0] == 'p' && "package"@[1] == 'a');
    assert("managed"@.len() == 7 && "managed"@[0] == 'm');
    assert("dependencies"@.len() == 12 && "dependencies"@[0] == 'd');
    assert("dev-dependencies"@.len() == 16);
    assert("repositories"@.len() == 12 && "repositories"@[0] == 'r');
    assert("tasks"@.len() == 5 && "tasks"@[0] == 't');
    assert("hooks"@.len() == 5 && "hooks"@[0] == 'h');
    assert("obfuscate"@.len() == 9);
    assert forall|i: int, j: int| 0 <= i < j < 15 implies (#[trigger] tops[i]).0 != (
    #[trigger] tops[j]).0 by {
        if i == 0 {
        } else if i == 1 {
        } else if i == 2 {
        } else if i == 3 {
        } else if i == 4 {
        } else if i == 5 {
        } else if i == 6 {
        } else if i == 7 {
        } else if i == 8 {
        } else if i == 9 {
        } else if i == 10 {
        } else if i == 11 {
        } else if i == 12 {
        } else if i == 13 {
        }
    }
    lemma_top_at(tops, 0, 0);
    lemma_top_at(tops, 1, 0);
    lemma_top_at(tops, 2, 0);
    lemma_top_at(tops, 3, 0);
    lemma_top_at(tops, 4, 0);
    lemma_top_at(tops, 5, 0);
    lemma_top_at(tops, 6, 0);
    lemma_top_at(tops, 7, 0);
    lemma_top_at(tops, 8, 0);
    lemma_top_at(tops, 9, 0);
    lemma_top_at(tops, 10, 0);
    lemma_top_at(tops, 11, 0);
    lemma_top_at(tops, 12, 0);
    lemma_top_at(tops, 13, 0);
    lemma_top_at(tops, 14, 0);
}

/// The table that `name` leads to is the one that was written.
pub open spec fn written(table: Entries, name: Seq<char>, block: Option<Block>) -> bool {
    match block {
        Some(b) => entry(table, name) is Some && entry(table, name)->0.kind is Table && block_is(
            entry(table, name)->0.kind->Table_0,
            b,
        ),
        None => entry(table, name) is None,
    }
}

/// Each table that was written is there.
proof fn lemma_written(table: Entries, tops: Tops, name: Seq<char>, block: Option<Block>)
    requires
        blocks_are(table, blocks_of(tops, tops.len() as int)),
        top_value(tops, name, 0) == block,
    ensures
        written(table, name, block),
{
    lemma_top(table, tops, name);
}

proof fn lemma_java(table: Entries, c: JavaModel)
    requires
        good_java(c),
        c.source != Some(0u32),
        c.target != Some(0u32),
        c.jdk != Some(0u32),
        written(table, "java"@, java_block(c)),
    ensures
        java_table(table) == Ok::<JavaModel, Fault>(c),
{
    if java_block(c) is Some {
        let t = entry(table, "java"@)->0.kind->Table_0;
        assert(subtable(table, "java"@) == Ok::<Option<Entries>, Fault>(Some(t)));
        lemma_java_again(t, c);
    } else {
        assert(c.javac_args =~= seq![]);
        assert(c.javadoc_args =~= seq![]);
    }
}

proof fn lemma_run(table: Entries, c: RunModel)
    requires
        good_run(c),
        written(table, "run"@, run_block(c)),
    ensures
        run_table(table) == Ok::<RunModel, Fault>(c),
{
    if run_block(c) is Some {
        let t = entry(table, "run"@)->0.kind->Table_0;
        assert(subtable(table, "run"@) == Ok::<Option<Entries>, Fault>(Some(t)));
        lemma_run_again(t, c);
    } else {
        assert(c.jvm_args =~= seq![]);
        assert(c.java_agents =~= seq![]);
        assert(c.env =~= seq![]);
    }
}

proof fn lemma_test(table: Entries, c: TestModel)
    requires
        good_test(c),
        written(table, "test"@, test_block(c)),
    ensures
        test_table(table) == Ok::<TestModel, Fault>(c),
{
    if test_block(c) is Some {
        let t = entry(table, "test"@)->0.kind->Table_0;
        assert(subtable(table, "test"@) == Ok::<Option<Entries>, Fault>(Some(t)));
        lemma_test_again(t, c);
    } else {
        assert(c.jvm_args =~= seq![]);
        assert(c.java_agents =~= seq![]);
        assert(c.env =~= seq![]);
        assert(c.coverage_minimum =~= seq![]);
    }
}

proof fn lemma_package(table: Entries, c: PackageModel)
    requires
        good_attributes(c.manifest),
        written(table, "package"@, package_block(c)),
    ensures
        package_table(table) == Ok::<PackageModel, Fault>(c),
{
    if package_block(c) is Some {
        let t = entry(table, "package"@)->0.kind->Table_0;
        assert(subtable(table, "package"@) == Ok::<Option<Entries>, Fault>(Some(t)));
        lemma_package_again(t, c);
    } else {
        assert(c.add_modules =~= seq![]);
        assert(c.native_image_args =~= seq![]);
        assert(c.manifest =~= seq![]);
    }
}

/// Every table of the manifest is the one that was written.
pub open spec fn all_written(table: Entries, m: ManifestModel) -> bool {
    &&& written(table, "project"@, Some(table_of(project_slots(m))))
    &&& written(table, "java"@, java_block(m.java))
    &&& written(table, "kotlin"@, language_block(language_at(m.languages, Language::Kotlin, 0)))
    &&& written(table, "scala"@, language_block(language_at(m.languages, Language::Scala, 0)))
    &&& written(table, "groovy"@, language_block(language_at(m.languages, Language::Groovy, 0)))
    &&& written(table, "run"@, run_block(m.run))
    &&& written(table, "test"@, test_block(m.test))
    &&& written(table, "package"@, package_block(m.package))
    &&& written(table, "managed"@, managed_block(m.managed))
    &&& written(table, "dependencies"@, dependencies_block(m.dependencies))
    &&& written(table, "dev-dependencies"@, dependencies_block(m.dev_dependencies))
    &&& written(table, "repositories"@, repository_block(m.repositories))
    &&& written(table, "tasks"@, tasks_block(m.tasks))
    &&& written(table, "hooks"@, hooks_block(m.hooks))
    &&& written(table, "obfuscate"@, obfuscate_block(m.obfuscate))
}

proof fn lemma_all_written(table: Entries, m: ManifestModel)
    requires
        blocks_are(table, sheet_of(m)),
    ensures
        all_written(table, m),
{
    let tops = tops_of(m);
    lemma_tops_of(tops);
    reveal(top_project);
    lemma_written(table, tops, "project"@, tops[0].1);
    reveal(top_java);
    lemma_written(table, tops, "java"@, tops[1].1);
    reveal(top_kotlin);
    lemma_written(table, tops, "kotlin"@, tops[2].1);
    reveal(top_scala);
    lemma_written(table, tops, "scala"@, tops[3].1);
    reveal(top_groovy);
    lemma_written(table, tops, "groovy"@, tops[4].1);
    reveal(top_run);
    lemma_written(table, tops, "run"@, tops[5].1);
    reveal(top_test);
    lemma_written(table, tops, "test"@, tops[6].1);
    reveal(top_package);
    lemma_written(table, tops, "package"@, tops[7].1);
    reveal(top_managed);
    lemma_written(table, tops, "managed"@, tops[8].1);
    reveal(top_dependencies);
    lemma_written(table, tops, "dependencies"@, tops[9].1);
    reveal(top_dev_dependencies);
    lemma_written(table, tops, "dev-dependencies"@, tops[10].1);
    reveal(top_repositories);
    lemma_written(table, tops, "repositories"@, tops[11].1);
    reveal(top_tasks);
    lemma_written(table, tops, "tasks"@, tops[12].1);
    reveal(top_hooks);
    lemma_written(table, tops, "hooks"@, tops[13].1);
    reveal(top_obfuscate);
    lemma_written(table, tops, "obfuscate"@, tops[14].1);
}

/// What was written says what the manifest says, its directories spelled anew.
proof fn lemma_says_again(table: Entries, path: Seq<char>, m: ManifestModel)
    requires
        good_manifest(m),
        readable(m),
        all_written(table, m),
    ensures
        says(table, path, respelled(m)),
        same_manifest(respelled(m), m),
{
    let t = entry(table, "project"@)->0.kind->Table_0;
    lemma_project_again(t, m, path);
    lemma_java(table, m.java);
    lemma_run(table, m.run);
    lemma_test(table, m.test);
    lemma_package(table, m.package);
    lemma_languages_again(table, m.languages);
    lemma_dependencies_again(entry(table, "dependencies"@), "dependencies"@, m.dependencies);
    lemma_dependencies_again(
        entry(table, "dev-dependencies"@),
        "dev-dependencies"@,
        m.dev_dependencies,
    );
    lemma_managed_table_again(table, m.managed);
    lemma_repositories_again(table, m.repositories);
    lemma_tasks_again(table, m.tasks);
    lemma_hooks_again(table, m.hooks);
    if let Some(c) = m.obfuscate {
        lemma_obfuscate_again(entry(table, "obfuscate"@)->0.kind->Table_0, c);
    }
    lemma_respelled_checks(m, 0, seq![]);
}

/// A manifest that a document can say, read from what it is written as, is the
/// same.
pub proof fn documents_are_read_back(
    m: ManifestModel,
    table: Entries,
    path: Seq<char>,
    root: Seq<char>,
)
    requires
        good_manifest(m),
        readable(m),
        blocks_are(table, sheet_of(m)),
    ensures
        manifest_of(table, path, root) matches Ok(r) && r.path == path && r.root == root
            && same_manifest(r, m),
{
    lemma_all_written(table, m);
    lemma_says_again(table, path, m);
    lemma_read(table, path, root, respelled(m));
}

/// What a document says, it can.
proof fn lemma_says_good(table: Entries, path: Seq<char>, m: ManifestModel)
    requires
        sound(table),
        says(table, path, m),
    ensures
        good_manifest(m),
        env_unmarked(m.run.env),
        env_unmarked(m.test.env),
        forall|k: int| 0 <= k < m.tasks.len() ==> env_unmarked((#[trigger] m.tasks[k]).env),
{
    lemma_project_good(entry(table, "project"@)->0.table()->0, path, m);
    lemma_run_good(table, m.run);
    lemma_test_good(table, m.test);
    if let Ok(Some(t)) = subtable(table, "package"@) {
        lemma_attributes_are_good(t);
    }
    lemma_languages_good(table, m.languages);
    lemma_sound(table, "dependencies"@);
    lemma_dependencies_good(entry(table, "dependencies"@), "dependencies"@, m.dependencies);
    lemma_sound(table, "dev-dependencies"@);
    lemma_dependencies_good(
        entry(table, "dev-dependencies"@),
        "dev-dependencies"@,
        m.dev_dependencies,
    );
    lemma_managed_are_good(table);
    lemma_repositories_good(table, m.repositories);
    lemma_tasks_good(table, m.tasks);
    lemma_hooks_good(table, m.hooks);
}

// ---- what can be written ---------------------------------------------------

proof fn lemma_blocks_plain(tops: Tops, n: int)
    requires
        0 <= n <= tops.len(),
        forall|i: int| 0 <= i < tops.len() ==> bare((#[trigger] tops[i]).0) && plain_top(tops[i].1),
        forall|i: int, j: int|
            0 <= i < j < tops.len() ==> (#[trigger] tops[i]).0 != (#[trigger] tops[j]).0,
    ensures
        plain_sheet(blocks_of(tops, n)),
        forall|k: int|
            0 <= k < blocks_of(tops, n).len() ==> exists|i: int|
                0 <= i < n && (#[trigger] tops[i]).0 == (#[trigger] blocks_of(tops, n)[k]).0,
    decreases n,
{
    if n > 0 {
        lemma_blocks_plain(tops, n - 1);
        let before = blocks_of(tops, n - 1);
        let doc = blocks_of(tops, n);
        assert(plain_top(tops[n - 1].1));
        assert forall|k: int| 0 <= k < doc.len() implies exists|i: int|
            0 <= i < n && (#[trigger] tops[i]).0 == (#[trigger] doc[k]).0 by {
            if k < before.len() {
                assert(doc[k] == before[k]);
                let i = choose|i: int| 0 <= i < n - 1 && (#[trigger] tops[i]).0 == before[k].0;
                assert(tops[i].0 == doc[k].0);
            } else {
                assert(tops[n - 1].0 == doc[k].0);
            }
        }
        assert forall|i: int, j: int| 0 <= i < j < doc.len() implies (#[trigger] doc[i]).0 != (
        #[trigger] doc[j]).0 by {
            assert(doc[i] == before[i]);
            if j < before.len() {
                assert(doc[j] == before[j]);
            } else {
                let k = choose|k: int| 0 <= k < n - 1 && (#[trigger] tops[k]).0 == before[i].0;
                assert(tops[k].0 != tops[n - 1].0);
            }
        }
        assert forall|i: int| 0 <= i < doc.len() implies bare((#[trigger] doc[i]).0)
            && plain_block(doc[i].1, 2) by {
            if i < before.len() {
                assert(doc[i] == before[i]);
            }
        }
    }
}

proof fn lemma_top_names(tops: Tops)
    requires
        tops.len() == 15,
        tops[0].0 == "project"@,
        tops[1].0 == "java"@,
        tops[2].0 == "kotlin"@,
        tops[3].0 == "scala"@,
        tops[4].0 == "groovy"@,
        tops[5].0 == "run"@,
        tops[6].0 == "test"@,
        tops[7].0 == "package"@,
        tops[8].0 == "managed"@,
        tops[9].0 == "dependencies"@,
        tops[10].0 == "dev-dependencies"@,
        tops[11].0 == "repositories"@,
        tops[12].0 == "tasks"@,
        tops[13].0 == "hooks"@,
        tops[14].0 == "obfuscate"@,
    ensures
        forall|i: int| 0 <= i < 15 ==> bare((#[trigger] tops[i]).0),
{
    assert(bare("project"@)) by {
        reveal_strlit("project");
        reveal_with_fuel(bare_on, 8);
        lemma_bare("project"@);
    }
    assert(bare("java"@)) by {
        reveal_strlit("java");
        reveal_with_fuel(bare_on, 5);
        lemma_bare("java"@);
    }
    assert(bare("kotlin"@)) by {
        reveal_strlit("kotlin");
        reveal_with_fuel(bare_on, 7);
        lemma_bare("kotlin"@);
    }
    assert(bare("scala"@)) by {
        reveal_strlit("scala");
        reveal_with_fuel(bare_on, 6);
        lemma_bare("scala"@);
    }
    assert(bare("groovy"@)) by {
        reveal_strlit("groovy");
        reveal_with_fuel(bare_on, 7);
        lemma_bare("groovy"@);
    }
    assert(bare("run"@)) by {
        reveal_strlit("run");
        reveal_with_fuel(bare_on, 4);
        lemma_bare("run"@);
    }
    assert(bare("test"@)) by {
        reveal_strlit("test");
        reveal_with_fuel(bare_on, 5);
        lemma_bare("test"@);
    }
    assert(bare("package"@)) by {
        reveal_strlit("package");
        reveal_with_fuel(bare_on, 8);
        lemma_bare("package"@);
    }
    assert(bare("managed"@)) by {
        reveal_strlit("managed");
        reveal_with_fuel(bare_on, 8);
        lemma_bare("managed"@);
    }
    assert(bare("dependencies"@)) by {
        reveal_strlit("dependencies");
        reveal_with_fuel(bare_on, 13);
        lemma_bare("dependencies"@);
    }
    assert(bare("dev-dependencies"@)) by {
        reveal_strlit("dev-dependencies");
        reveal_with_fuel(bare_on, 17);
        lemma_bare("dev-dependencies"@);
    }
    assert(bare("repositories"@)) by {
        reveal_strlit("repositories");
        reveal_with_fuel(bare_on, 13);
        lemma_bare("repositories"@);
    }
    assert(bare("tasks"@)) by {
        reveal_strlit("tasks");
        reveal_with_fuel(bare_on, 6);
        lemma_bare("tasks"@);
    }
    assert(bare("obfuscate"@)) by {
        reveal_strlit("obfuscate");
        reveal_with_fuel(bare_on, 10);
        lemma_bare("obfuscate"@);
    }
    assert(bare("hooks"@)) by {
        reveal_strlit("hooks");
        reveal_with_fuel(bare_on, 6);
        lemma_bare("hooks"@);
    }
}

/// Every table of a manifest that a document can say can be written.
proof fn lemma_plain_tops(m: ManifestModel)
    requires
        good_manifest(m),
        quotable_manifest(m),
        unmarked_manifest(m),
    ensures
        plain_top(top_project(m)),
        plain_top(top_java(m)),
        plain_top(top_kotlin(m)),
        plain_top(top_scala(m)),
        plain_top(top_groovy(m)),
        plain_top(top_run(m)),
        plain_top(top_test(m)),
        plain_top(top_package(m)),
        plain_top(top_managed(m)),
        plain_top(top_dependencies(m)),
        plain_top(top_dev_dependencies(m)),
        plain_top(top_repositories(m)),
        plain_top(top_tasks(m)),
        plain_top(top_hooks(m)),
        plain_top(top_obfuscate(m)),
{
    assert(plain_top(top_project(m))) by {
        reveal(top_project);
        lemma_project_plain(m);
    }
    assert(plain_top(top_java(m))) by {
        reveal(top_java);
        lemma_java_plain(m.java);
    }
    assert(plain_top(top_kotlin(m))) by {
        reveal(top_kotlin);
        lemma_language_plain(m.languages, Language::Kotlin);
    }
    assert(plain_top(top_scala(m))) by {
        reveal(top_scala);
        lemma_language_plain(m.languages, Language::Scala);
    }
    assert(plain_top(top_groovy(m))) by {
        reveal(top_groovy);
        lemma_language_plain(m.languages, Language::Groovy);
    }
    assert(plain_top(top_run(m))) by {
        reveal(top_run);
        lemma_run_plain(m.run);
    }
    assert(plain_top(top_test(m))) by {
        reveal(top_test);
        lemma_test_plain(m.test);
    }
    assert(plain_top(top_package(m))) by {
        reveal(top_package);
        lemma_package_plain(m.package);
    }
    assert(plain_top(top_managed(m))) by {
        reveal(top_managed);
        lemma_managed_plain(m.managed);
    }
    assert(plain_top(top_dependencies(m))) by {
        reveal(top_dependencies);
        lemma_dependencies_plain(m.dependencies);
    }
    assert(plain_top(top_dev_dependencies(m))) by {
        reveal(top_dev_dependencies);
        lemma_dependencies_plain(m.dev_dependencies);
    }
    assert(plain_top(top_repositories(m))) by {
        reveal(top_repositories);
        lemma_repositories_plain(m.repositories);
    }
    assert(plain_top(top_tasks(m))) by {
        reveal(top_tasks);
        lemma_tasks_plain(m.tasks, m.hooks);
    }
    assert(plain_top(top_hooks(m))) by {
        reveal(top_hooks);
        lemma_hooks_plain(m.tasks, m.hooks);
    }
    assert(plain_top(top_obfuscate(m))) by {
        reveal(top_obfuscate);
        lemma_obfuscate_plain(m.obfuscate);
    }
}

/// Where every table can be written, so can the document.
proof fn lemma_sheet_plain(m: ManifestModel)
    requires
        plain_top(top_project(m)),
        plain_top(top_java(m)),
        plain_top(top_kotlin(m)),
        plain_top(top_scala(m)),
        plain_top(top_groovy(m)),
        plain_top(top_run(m)),
        plain_top(top_test(m)),
        plain_top(top_package(m)),
        plain_top(top_managed(m)),
        plain_top(top_dependencies(m)),
        plain_top(top_dev_dependencies(m)),
        plain_top(top_repositories(m)),
        plain_top(top_tasks(m)),
        plain_top(top_hooks(m)),
        plain_top(top_obfuscate(m)),
    ensures
        plain_sheet(sheet_of(m)),
{
    let tops = tops_of(m);
    assert forall|i: int| 0 <= i < 15 implies plain_top((#[trigger] tops[i]).1) by {
        if i == 0 {
        } else if i == 1 {
        } else if i == 2 {
        } else if i == 3 {
        } else if i == 4 {
        } else if i == 5 {
        } else if i == 6 {
        } else if i == 7 {
        } else if i == 8 {
        } else if i == 9 {
        } else if i == 10 {
        } else if i == 11 {
        } else if i == 12 {
        } else if i == 13 {
        } else if i == 14 {
        }
    }
    assert forall|i: int, j: int| 0 <= i < j < 15 implies (#[trigger] tops[i]).0 != (
    #[trigger] tops[j]).0 by {
        lemma_tops_of(tops);
    }
    lemma_top_names(tops);
    lemma_blocks_plain(tops, 15);
}

// ---- as text ---------------------------------------------------------------

/// A manifest that was read from some document.
pub open spec fn from_document(m: ManifestModel) -> bool {
    exists|t: Entries, path: Seq<char>, root: Seq<char>|
        sound(t) && #[trigger] manifest_of(t, path, root) == Ok::<ManifestModel, Fault>(m)
}

/// A manifest that was read is one that a document can say, and none of its
/// tables of variables starts with a key like the mark of a date.
pub proof fn what_was_read_can_be_said(m: ManifestModel)
    requires
        from_document(m),
    ensures
        good_manifest(m),
        env_unmarked(m.run.env),
        env_unmarked(m.test.env),
        forall|k: int| 0 <= k < m.tasks.len() ==> env_unmarked((#[trigger] m.tasks[k]).env),
{
    let (t, path, root) = choose|t: Entries, path: Seq<char>, root: Seq<char>|
        sound(t) && #[trigger] manifest_of(t, path, root) == Ok::<ManifestModel, Fault>(m);
    lemma_said(t, path, root, m);
    lemma_says_good(t, path, m);
}

/// A manifest that a document can say, whose texts can be quoted and whose free
/// keys do not start a table with the mark of a date, is written as a document
/// that can be written.
pub proof fn what_can_be_said_can_be_written(m: ManifestModel)
    requires
        good_manifest(m),
        quotable_manifest(m),
        unmarked_manifest(m),
    ensures
        plain_sheet(sheet_of(m)),
{
    lemma_plain_tops(m);
    lemma_sheet_plain(m);
}

/// A header whose lines can stand in comments.
pub open spec fn plain_header(header: Option<Seq<char>>) -> bool {
    header matches Some(h) ==> plain_comments(line_seq(h))
}

/// What is read from a text is the manifest that the text was rendered from,
/// where that is one that a document can say and is readable once it is
/// written.
pub open spec fn reads_back(
    text: Seq<char>,
    path: Seq<char>,
    root: Seq<char>,
    read: Result<ManifestModel, Fault>,
) -> bool {
    forall|m: ManifestModel, header: Option<Seq<char>>|
        text == #[trigger] rendered(m, header) && good_manifest(m) && readable(m) && plain_header(
            header,
        ) ==> (read matches Ok(r) && r.path == path && r.root == root && same_manifest(r, m))
}

proof fn lemma_text(m: ManifestModel, header: Option<Seq<char>>)
    requires
        good_languages(m.languages),
        plain_header(header),
    ensures
        writes(rendered(m, header), sheet_of(m)),
{
    lemma_rendered(m, header);
    if let Some(h) = header {
        let c = line_seq(h);
        assert(rendered(m, header) == comment_lines(c, c.len() as int) + sheet_text(
            sheet_of(m),
            sheet_of(m).len() as int,
        ));
    }
}

/// A text that was rendered is read back.
pub proof fn lemma_reads_back(
    text: Seq<char>,
    path: Seq<char>,
    root: Seq<char>,
    tree: Option<Tree>,
    read: Result<ManifestModel, Fault>,
)
    requires
        plainly_read(text, tree),
        tree matches Some(t) ==> t.table() is Some && read == manifest_of(t.table()->0, path, root),
    ensures
        reads_back(text, path, root, read),
{
    assert forall|m: ManifestModel, header: Option<Seq<char>>|
        text == #[trigger] rendered(m, header) && good_manifest(m) && readable(m) && plain_header(
            header,
        ) implies (read matches Ok(r) && r.path == path && r.root == root && same_manifest(
        r,
        m,
    )) by {
        lemma_text(m, header);
        what_can_be_said_can_be_written(m);
        assert(writes(text, sheet_of(m)));
        documents_are_read_back(m, tree->0.kind->Table_0, path, root);
    }
}

// ---- unknown keys ----------------------------------------------------------

/// The documents hold the same under every key that jrs knows.
pub open spec fn known_alike(a: Entries, b: Entries) -> bool {
    forall|k: int|
        0 <= k < top_keys().len() ==> entry(a, #[trigger] top_keys()[k]) == entry(b, top_keys()[k])
}

proof fn lemma_same_languages(a: Entries, b: Entries, i: int, out: Seq<LanguageModel>, w: Seq<Seq<char>>)
    requires
        0 <= i <= foreign().len(),
        forall|k: int|
            0 <= k < foreign().len() ==> entry(a, (#[trigger] foreign()[k]).word()) == entry(
                b,
                foreign()[k].word(),
            ),
    ensures
        languages_from(a, i, out, w) == languages_from(b, i, out, w),
    decreases foreign().len() - i,
{
    if i < foreign().len() {
        let language = foreign()[i];
        assert(entry(a, language.word()) == entry(b, language.word()));
        assert(subtable(a, language.word()) == subtable(b, language.word()));
        if let Ok(found) = subtable(a, language.word()) {
            if let Some(t) = found {
                if let Ok(config) = language_of(language, t) {
                    lemma_same_languages(
                        a,
                        b,
                        i + 1,
                        out.push(config),
                        w + key_warnings(t, language_keys(language), language.word() + "."@),
                    );
                }
            } else {
                lemma_same_languages(a, b, i + 1, out, w);
            }
        }
    }
}

/// The documents hold the same under each of the keys.
proof fn lemma_known_alike(a: Entries, b: Entries)
    requires
        known_alike(a, b),
    ensures
        entry(a, "project"@) == entry(b, "project"@),
        entry(a, "java"@) == entry(b, "java"@),
        entry(a, "run"@) == entry(b, "run"@),
        entry(a, "test"@) == entry(b, "test"@),
        entry(a, "package"@) == entry(b, "package"@),
        entry(a, "dependencies"@) == entry(b, "dependencies"@),
        entry(a, "dev-dependencies"@) == entry(b, "dev-dependencies"@),
        entry(a, "managed"@) == entry(b, "managed"@),
        entry(a, "repositories"@) == entry(b, "repositories"@),
        entry(a, "tasks"@) == entry(b, "tasks"@),
        entry(a, "hooks"@) == entry(b, "hooks"@),
        entry(a, "obfuscate"@) == entry(b, "obfuscate"@),
        forall|k: int|
            0 <= k < foreign().len() ==> entry(a, (#[trigger] foreign()[k]).word()) == entry(
                b,
                foreign()[k].word(),
            ),
{
    let keys = top_keys();
    assert(keys[0] == "project"@ && keys[1] == "java"@ && keys[2] == "run"@);
    assert(keys[3] == "test"@ && keys[4] == "package"@ && keys[5] == "kotlin"@);
    assert(keys[6] == "scala"@ && keys[7] == "groovy"@ && keys[8] == "dependencies"@);
    assert(keys[9] == "dev-dependencies"@ && keys[10] == "managed"@);
    assert(keys[11] == "repositories"@ && keys[12] == "tasks"@ && keys[13] == "hooks"@);
    assert(keys[14] == "obfuscate"@);
}

proof fn lemma_says_alike(a: Entries, b: Entries, path: Seq<char>, m: ManifestModel)
    requires
        known_alike(a, b),
        says(a, path, m),
    ensures
        says(b, path, m),
{
    lemma_known_alike(a, b);
    lemma_same_languages(a, b, 0, seq![], seq![]);
}

/// A key that jrs does not know changes nothing but the warnings.
pub proof fn unknown_keys_only_warn(
    a: Entries,
    b: Entries,
    path: Seq<char>,
    root: Seq<char>,
    m: ManifestModel,
)
    requires
        known_alike(a, b),
        manifest_of(a, path, root) == Ok::<ManifestModel, Fault>(m),
    ensures
        manifest_of(b, path, root) matches Ok(r) && equal_manifest(r, m),
{
    lemma_said(a, path, root, m);
    lemma_says_alike(a, b, path, m);
    lemma_read(b, path, root, m);
}

} // verus!
