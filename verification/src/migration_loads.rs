//! What a migration leaves in a manifest can be loaded.
//!
//! A migration takes many of a build's words as they stand, and whether a
//! manifest can hold those is the build's affair: [`worded`] names them. How the
//! words are put together is the migration's: [`well_put`] holds of it whatever
//! the build says.

use crate::check::tasks_fault;
use crate::coord::range;
use crate::dependency::{DependencyModel, RepositoryModel};
use crate::gradle_env::{others, with_variable};
use crate::gradle_plugins::language_place;
use crate::keys::{class_fault, name_fault};
use crate::language::{not_a_flag, Language};
use crate::manifest::{blank_manifest, LanguageModel, ManifestModel};
use crate::migration::{
    bare_language, enabled, language_of_library, unimplied_from, with_language, with_managed,
};
use crate::parse::{dev_fault_from, language_checks_from, library_warnings, setting_warnings};
use crate::parse_dependencies::{keys_distinct, manages, versionless_fault, whole_central};
use crate::report::ReportModel;
use crate::reread_dependencies::{
    good_dependencies, good_dependency, good_managed, good_managed_list, good_repositories,
    good_repository, managed_apart, spelled_out,
};
use crate::reread_manifest::good_manifest;
use crate::reread_paths::{good_dir, lemma_starts_slash};
use crate::reread_settings::{
    good_attributes, good_env, good_java, good_language, good_languages, good_obfuscate, good_run,
    good_template, good_test,
};
use crate::reread_tasks::{good_hooks, good_tasks};
use crate::sheet_of::languages_in_order;
use crate::template::{template_of, TemplateModel};
use crate::text::{at, capital, found, includes, lemma_first_at, starts, trimmed, within};
use crate::writable::env_apart;
use crate::writable_dependencies::entries_apart;
use vstd::prelude::*;

verus! {

// ---- the build's words -----------------------------------------------------

/// A language whose version is one version.
pub open spec fn versioned(c: LanguageModel) -> bool {
    trimmed(c.version) == c.version && c.version.len() > 0 && !range(c.version)
}

/// Dependencies whose words a table can hold, no two under one key of it.
pub open spec fn worded_dependencies(list: Seq<DependencyModel>) -> bool {
    &&& forall|k: int| 0 <= k < list.len() ==> spelled_out(#[trigger] list[k])
    &&& entries_apart(list)
}

/// What both kinds of build decide with their own words: the project's name,
/// version and main class; the versions of the languages; the coordinates,
/// versions and exclusions of the dependencies, and whether something has a
/// version for those without one; the pinned versions; and the version of
/// ProGuard.
pub open spec fn worded(m: ManifestModel) -> bool {
    &&& name_fault(m.name) is None
    &&& trimmed(m.version).len() > 0
    &&& m.main_class matches Some(class) ==> class_fault(class, "project.main-class"@) is None
    &&& forall|k: int| 0 <= k < m.languages.len() ==> versioned(#[trigger] m.languages[k])
    &&& worded_dependencies(m.dependencies)
    &&& worded_dependencies(m.dev_dependencies)
    &&& forall|k: int| 0 <= k < m.managed.len() ==> good_managed(#[trigger] m.managed[k])
    &&& versionless_fault(m.dependencies, m.dev_dependencies, m.managed) is None
    &&& good_obfuscate(m.obfuscate)
}

// ---- how they are put together ---------------------------------------------

/// No dependency is for the compiler alone and for the program alone.
pub open spec fn switched(list: Seq<DependencyModel>) -> bool {
    forall|k: int|
        0 <= k < list.len() ==> !((#[trigger] list[k]).compile_only && list[k].runtime_only)
}

/// No dependency is for the compiler alone, or for the program alone.
pub open spec fn unswitched(list: Seq<DependencyModel>) -> bool {
    forall|k: int|
        0 <= k < list.len() ==> !(#[trigger] list[k]).compile_only && !list[k].runtime_only
}

/// Languages in versions that can be had, each in the directories of its own.
pub open spec fn put_languages(list: Seq<LanguageModel>) -> bool {
    forall|k: int|
        0 <= k < list.len() ==> (#[trigger] list[k]).language.refusal(list[k].version) is None
            && good_dir(list[k].source_dir) && good_dir(list[k].test_dir)
}

/// What holds of a manifest that a migration fills, whatever the build says.
pub open spec fn well_put(m: ManifestModel) -> bool {
    &&& m.jrs_version is None
    &&& good_run(m.run)
    &&& good_test(m.test)
    &&& put_languages(m.languages)
    &&& switched(m.dependencies)
    &&& unswitched(m.dev_dependencies)
    &&& keys_distinct(m.dev_dependencies)
    &&& managed_apart(m.managed)
}

/// Repositories that a table can declare, none of them the whole of Central.
pub open spec fn put_repositories(list: Seq<RepositoryModel>) -> bool {
    forall|k: int|
        0 <= k < list.len() ==> good_repository(#[trigger] list[k]) && !whole_central(list[k])
}

/// The directories of a project that names none.
pub open spec fn usual_dirs(m: ManifestModel) -> bool {
    &&& m.source_dir == "src/main/java"@
    &&& m.test_dir == "src/test/java"@
    &&& m.resource_dir == "src/main/resources"@
    &&& m.test_resource_dir == "src/test/resources"@
    &&& m.target_dir == "target"@
}

/// The directories of the project are inside it.
pub open spec fn good_dirs(m: ManifestModel) -> bool {
    &&& good_dir(m.source_dir)
    &&& good_dir(m.test_dir)
    &&& good_dir(m.resource_dir)
    &&& good_dir(m.target_dir)
    &&& good_dir(m.test_resource_dir)
}

proof fn lemma_dotless(dir: Seq<char>)
    requires
        dir.len() > 0 ==> dir[0] != '/',
        forall|i: int| 0 <= i < dir.len() ==> #[trigger] dir[i] != '.',
    ensures
        good_dir(dir),
{
    reveal_strlit("..");
    lemma_starts_slash(dir);
    lemma_first_at(dir, ".."@, 0);
    if within(dir, ".."@) {
        let j = found(dir, ".."@)->0;
        assert(at(dir, ".."@, j));
        assert(dir[j] == dir.subrange(j, j + 2)[0]);
    }
}

/// The directories of a project that names none are inside it.
pub proof fn lemma_usual_dirs(m: ManifestModel)
    requires
        usual_dirs(m),
    ensures
        good_dirs(m),
{
    reveal_strlit("src/main/java");
    reveal_strlit("src/test/java");
    reveal_strlit("src/main/resources");
    reveal_strlit("src/test/resources");
    reveal_strlit("target");
    lemma_dotless(m.source_dir);
    lemma_dotless(m.test_dir);
    lemma_dotless(m.resource_dir);
    lemma_dotless(m.target_dir);
    lemma_dotless(m.test_resource_dir);
}

proof fn lemma_bare_language(language: Language, version: Seq<char>)
    ensures
        good_dir(bare_language(language, version).source_dir),
        good_dir(bare_language(language, version).test_dir),
{
    reveal_strlit("java");
    reveal_strlit("kotlin");
    reveal_strlit("scala");
    reveal_strlit("groovy");
    reveal_strlit("src/main/");
    reveal_strlit("src/test/");
    let c = bare_language(language, version);
    assert forall|i: int| 0 <= i < c.source_dir.len() implies #[trigger] c.source_dir[i] != '.' by {
        if i >= 9 {
            assert(c.source_dir[i] == language.word()[i - 9]);
        } else {
            assert(c.source_dir[i] == "src/main/"@[i]);
        }
    }
    assert forall|i: int| 0 <= i < c.test_dir.len() implies #[trigger] c.test_dir[i] != '.' by {
        if i >= 9 {
            assert(c.test_dir[i] == language.word()[i - 9]);
        } else {
            assert(c.test_dir[i] == "src/test/"@[i]);
        }
    }
    assert(c.source_dir[0] == "src/main/"@[0]);
    assert(c.test_dir[0] == "src/test/"@[0]);
    lemma_dotless(c.source_dir);
    lemma_dotless(c.test_dir);
}

/// A manifest with nothing in it is well put.
pub proof fn lemma_blank_put(name: Seq<char>, version: Seq<char>, root: Seq<char>)
    ensures
        well_put(blank_manifest(name, version, root)),
        usual_dirs(blank_manifest(name, version, root)),
{
}

pub proof fn lemma_managed_put(
    m: ManifestModel,
    group: Seq<char>,
    artifact: Seq<char>,
    version: Seq<char>,
    bom: bool,
)
    requires
        managed_apart(m.managed),
    ensures
        managed_apart(with_managed(m, group, artifact, version, bom).managed),
{
    let next = with_managed(m, group, artifact, version, bom).managed;
    if !manages(m.managed, group, artifact) {
        assert forall|i: int, j: int| 0 <= i < j < next.len() implies (#[trigger] next[i]).group != (
        #[trigger] next[j]).group || next[i].artifact != next[j].artifact by {
            assert(next[i] == m.managed[i]);
            if j < m.managed.len() {
                assert(next[j] == m.managed[j]);
            }
        }
    }
}

pub proof fn lemma_language_put(
    m: ManifestModel,
    told: ReportModel,
    language: Language,
    version: Seq<char>,
    from: Seq<char>,
)
    requires
        put_languages(m.languages),
    ensures
        put_languages(with_language(m, told, language, version, from).0.languages),
{
    let next = with_language(m, told, language, version, from).0.languages;
    if !enabled(m.languages, language) && language.refusal(version) is None {
        lemma_bare_language(language, version);
        assert forall|k: int| 0 <= k < next.len() implies (
        #[trigger] next[k]).language.refusal(next[k].version) is None && good_dir(next[k].source_dir)
            && good_dir(next[k].test_dir) by {
            if k < m.languages.len() {
                assert(next[k] == m.languages[k]);
            }
        }
    }
}

/// Where a language is found is in the list.
pub proof fn lemma_language_place(list: Seq<LanguageModel>, language: Language, i: int)
    requires
        0 <= i,
    ensures
        language_place(list, language, i) matches Some(k) ==> i <= k < list.len(),
    decreases list.len() - i,
{
    if i < list.len() {
        lemma_language_place(list, language, i + 1);
    }
}

/// Taking out what the languages imply leaves the rest as it is.
pub proof fn lemma_unimplied(
    list: Seq<DependencyModel>,
    languages: Seq<LanguageModel>,
    i: int,
    out: Seq<DependencyModel>,
    told: ReportModel,
)
    requires
        0 <= i <= list.len(),
        switched(list),
        switched(out),
    ensures
        switched(unimplied_from(list, languages, i, out, told).0),
        keys_distinct(list) && keys_distinct(out) && (forall|a: int, b: int|
            0 <= a < out.len() && i <= b < list.len() ==> (#[trigger] out[a]).key() != (
            #[trigger] list[b]).key()) ==> keys_distinct(
            unimplied_from(list, languages, i, out, told).0,
        ),
    decreases list.len() - i,
{
    if i < list.len() {
        let d = list[i];
        let more = out.push(d);
        assert forall|k: int| 0 <= k < more.len() implies !((#[trigger] more[k]).compile_only
            && more[k].runtime_only) by {
            if k < out.len() {
                assert(more[k] == out[k]);
            }
        }
        if keys_distinct(list) && keys_distinct(out) && (forall|a: int, b: int|
            0 <= a < out.len() && i <= b < list.len() ==> (#[trigger] out[a]).key() != (
            #[trigger] list[b]).key()) {
            assert forall|a: int, b: int| 0 <= a < b < more.len() implies (#[trigger] more[a]).key()
                != (#[trigger] more[b]).key() by {
                assert(more[a] == out[a]);
                if b < out.len() {
                    assert(more[b] == out[b]);
                } else {
                    assert(more[b] == list[i]);
                }
            }
            assert forall|a: int, b: int|
                0 <= a < more.len() && i + 1 <= b < list.len() implies (#[trigger] more[a]).key()
                != (#[trigger] list[b]).key() by {
                if a < out.len() {
                    assert(more[a] == out[a]);
                } else {
                    assert(more[a] == list[i]);
                }
            }
        }
        match language_of_library(d, languages, 0) {
            None => {
                lemma_unimplied(list, languages, i + 1, more, told);
            },
            Some(language) => {
                let implied = told.with_migrated(
                    d.key() + " — implied by ["@ + language.language.word() + "]"@,
                );
                let kept = told.with_review(
                    d.key() + " — kept at the version declared, "@ + d.version + "; ["@
                        + language.language.word() + ("] implies "@ + language.version),
                );
                lemma_unimplied(list, languages, i + 1, out, implied);
                lemma_unimplied(list, languages, i + 1, more, kept);
                lemma_unimplied(list, languages, i + 1, more, told);
            },
        }
    }
}

// ---- variables -------------------------------------------------------------

proof fn lemma_others(env: Seq<(Seq<char>, TemplateModel)>, name: Seq<char>, n: int)
    requires
        env_apart(env),
        0 <= n <= env.len(),
    ensures
        env_apart(others(env, name, n)),
        forall|k: int|
            0 <= k < others(env, name, n).len() ==> (#[trigger] others(env, name, n)[k]).0 != name
                && exists|j: int| 0 <= j < n && #[trigger] env[j] == others(env, name, n)[k],
    decreases n,
{
    if n > 0 {
        lemma_others(env, name, n - 1);
        let before = others(env, name, n - 1);
        let list = others(env, name, n);
        assert forall|k: int| 0 <= k < list.len() implies (#[trigger] list[k]).0 != name && exists|
            j: int,
        |
            0 <= j < n && #[trigger] env[j] == list[k] by {
            if k < before.len() {
                assert(list[k] == before[k]);
                let j = choose|j: int| 0 <= j < n - 1 && #[trigger] env[j] == before[k];
                assert(env[j] == list[k]);
            } else {
                assert(env[n - 1] == list[k]);
            }
        }
        assert forall|i: int, j: int| 0 <= i < j < list.len() implies (#[trigger] list[i]).0 != (
        #[trigger] list[j]).0 by {
            assert(list[i] == before[i]);
            if j < before.len() {
                assert(list[j] == before[j]);
            } else {
                let k = choose|k: int| 0 <= k < n - 1 && #[trigger] env[k] == before[i];
                assert(env[k].0 != env[n - 1].0);
            }
        }
    }
}

/// A variable that is set leaves an environment that a table can hold.
pub proof fn lemma_with_variable(
    env: Seq<(Seq<char>, TemplateModel)>,
    name: Seq<char>,
    value: TemplateModel,
)
    requires
        good_env(env),
        env_apart(env),
        name.len() > 0,
        !includes(name, '='),
        !includes(name, '\0'),
        !starts(capital(name), "JRS_"@),
        good_template(value),
    ensures
        good_env(with_variable(env, name, value)),
        env_apart(with_variable(env, name, value)),
        forall|k: int|
            0 <= k < with_variable(env, name, value).len() ==> (
            #[trigger] with_variable(env, name, value)[k]) == (name, value) || exists|j: int|
                0 <= j < env.len() && #[trigger] env[j] == with_variable(env, name, value)[k],
{
    lemma_others(env, name, env.len() as int);
    let before = others(env, name, env.len() as int);
    let list = with_variable(env, name, value);
    assert forall|i: int, j: int| 0 <= i < j < list.len() implies (#[trigger] list[i]).0 != (
    #[trigger] list[j]).0 by {
        assert(list[i] == before[i]);
        if j < before.len() {
            assert(list[j] == before[j]);
        }
    }
    assert forall|k: int| 0 <= k < list.len() implies (#[trigger] list[k]) == (name, value)
        || exists|j: int| 0 <= j < env.len() && #[trigger] env[j] == list[k] by {
        if k < before.len() {
            assert(list[k] == before[k]);
        }
    }
    assert forall|k: int| 0 <= k < list.len() implies ({
        let (key, t) = #[trigger] list[k];
        &&& key.len() > 0
        &&& !includes(key, '=')
        &&& !includes(key, '\0')
        &&& !starts(capital(key), "JRS_"@)
        &&& template_of(t.raw) == Ok::<TemplateModel, Seq<char>>(t)
    }) by {
        if list[k] != (name, value) {
            let j = choose|j: int| 0 <= j < env.len() && #[trigger] env[j] == list[k];
            assert(env[j] == list[k]);
        }
    }
}

// ---- the whole -------------------------------------------------------------

proof fn lemma_no_dev_fault(list: Seq<DependencyModel>, compile: bool, i: int)
    requires
        unswitched(list),
        0 <= i,
    ensures
        dev_fault_from(list, compile, i) is None,
    decreases list.len() - i,
{
    if i < list.len() {
        lemma_no_dev_fault(list, compile, i + 1);
    }
}

/// Arguments that are all flags.
pub open spec fn all_flags(args: Seq<Seq<char>>) -> bool {
    forall|k: int| 0 <= k < args.len() ==> starts(#[trigger] args[k], "-"@)
}

proof fn lemma_all_flags(args: Seq<Seq<char>>)
    requires
        all_flags(args),
    ensures
        not_a_flag(args) is None,
    decreases args.len(),
{
    if args.len() > 0 {
        let rest = args.skip(1);
        assert forall|k: int| 0 <= k < rest.len() implies starts(#[trigger] rest[k], "-"@) by {
            assert(rest[k] == args[k + 1]);
        }
        lemma_all_flags(rest);
    }
}

/// Flags are what every compiler takes.
pub proof fn lemma_flags_checked(m: ManifestModel, i: int, out: Seq<Seq<char>>)
    requires
        0 <= i,
        all_flags(m.java.javac_args),
    ensures
        language_checks_from(m, i, out) is Ok,
    decreases m.languages.len() - i,
{
    if i < m.languages.len() {
        let config = m.languages[i];
        lemma_all_flags(m.java.javac_args);
        let settings = setting_warnings(m, config)->Ok_0;
        let n = config.language.libraries(config.version).len() as int;
        lemma_flags_checked(m, i + 1, out + settings + library_warnings(m, config, n));
    }
}

/// Words that a manifest can hold, well put, are a manifest that can be loaded.
pub proof fn lemma_put_together(m: ManifestModel)
    requires
        worded(m),
        well_put(m),
        good_dirs(m),
        good_java(m.java),
        good_attributes(m.package.manifest),
        keys_distinct(m.dependencies),
        languages_in_order(m.languages),
        language_checks_from(m, 0, seq![]) is Ok,
        good_repositories(m.repositories),
        good_tasks(m.tasks),
        good_hooks(m.hooks),
        tasks_fault(m.tasks, m.hooks) is None,
    ensures
        good_manifest(m),
{
    lemma_no_dev_fault(m.dev_dependencies, true, 0);
    lemma_no_dev_fault(m.dev_dependencies, false, 0);
    assert forall|k: int| 0 <= k < m.languages.len() implies good_language(#[trigger] m.languages[k]) by {
        assert(versioned(m.languages[k]));
    }
    assert(good_languages(m.languages));
    assert forall|k: int| 0 <= k < m.dependencies.len() implies good_dependency(
        #[trigger] m.dependencies[k],
    ) by {
        assert(spelled_out(m.dependencies[k]));
    }
    assert forall|k: int| 0 <= k < m.dev_dependencies.len() implies good_dependency(
        #[trigger] m.dev_dependencies[k],
    ) by {
        assert(spelled_out(m.dev_dependencies[k]));
    }
    assert(good_dependencies(m.dependencies));
    assert(good_dependencies(m.dev_dependencies));
    assert(good_managed_list(m.managed));
}

} // verus!
