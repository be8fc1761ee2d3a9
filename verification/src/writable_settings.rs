//! The settings of a manifest that was read can be written.

use crate::attributes::name_alike;
use crate::coverage::{counter_keys_are_their_own, counter_named, CoverageMinimum};
use crate::keys::{minimums_from, ratio_of};
use crate::language::Language;
use crate::manifest::{
    language_at, JavaModel, LanguageModel, ManifestModel, ObfuscateModel, PackageModel, RunModel,
    TestModel,
};
use crate::reread_settings::{
    good_attributes, good_minimums, good_run, good_test,
};
use crate::sheet::{
    bare, plain_block, plain_fields, plain_key, plain_lines, plain_scalar, plain_value, quotable,
    Block,
};
use crate::sheet_of::{
    attribute_block, java_block, java_slots, language_block, language_slots, lines_of,
    minimum_fields, minimum_value, obfuscate_block, obfuscate_slots, package_block, package_slots,
    project_slots, run_block, run_slots, table_of, test_block, test_slots,
};
use crate::template::TemplateModel;
use crate::value::{sound, Entries};
use crate::writable::{
    bare_on, env_apart, env_unmarked, lemma_bare, lemma_env_plain, lemma_gas, lemma_lines_plain,
    lemma_no_mark, lemma_slashed_quotable, lemma_table_plain, plain_slot, plain_slots, quotable_all,
    quotable_env, quotable_option, quotable_pairs, quotable_template,
};
use vstd::prelude::*;

verus! {

/// The texts of `[project]` can be quoted.
pub open spec fn quotable_project(m: ManifestModel) -> bool {
    &&& quotable(m.name)
    &&& quotable(m.version)
    &&& quotable_option(m.main_class)
    &&& quotable(m.source_dir)
    &&& quotable(m.test_dir)
    &&& quotable(m.resource_dir)
    &&& quotable(m.test_resource_dir)
    &&& quotable(m.target_dir)
    &&& quotable_option(m.jrs_version)
}

proof fn lemma_project_slots(m: ManifestModel)
    requires
        quotable_project(m),
    ensures
        plain_slots(project_slots(m)),
{
    let slots = project_slots(m);
    lemma_slashed_quotable(m.source_dir);
    lemma_slashed_quotable(m.test_dir);
    lemma_slashed_quotable(m.resource_dir);
    lemma_slashed_quotable(m.test_resource_dir);
    lemma_slashed_quotable(m.target_dir);
    assert(bare("name"@)) by {
        reveal_strlit("name");
        reveal_with_fuel(bare_on, 5);
        lemma_bare("name"@);
    }
    assert(bare("version"@)) by {
        reveal_strlit("version");
        reveal_with_fuel(bare_on, 8);
        lemma_bare("version"@);
    }
    assert(bare("main-class"@)) by {
        reveal_strlit("main-class");
        reveal_with_fuel(bare_on, 11);
        lemma_bare("main-class"@);
    }
    assert(bare("source-dir"@)) by {
        reveal_strlit("source-dir");
        reveal_with_fuel(bare_on, 11);
        lemma_bare("source-dir"@);
    }
    assert(bare("test-dir"@)) by {
        reveal_strlit("test-dir");
        reveal_with_fuel(bare_on, 9);
        lemma_bare("test-dir"@);
    }
    assert(bare("resource-dir"@)) by {
        reveal_strlit("resource-dir");
        reveal_with_fuel(bare_on, 13);
        lemma_bare("resource-dir"@);
    }
    assert(bare("target-dir"@)) by {
        reveal_strlit("target-dir");
        reveal_with_fuel(bare_on, 11);
        lemma_bare("target-dir"@);
    }
    assert(bare("test-resource-dir"@)) by {
        reveal_strlit("test-resource-dir");
        reveal_with_fuel(bare_on, 18);
        lemma_bare("test-resource-dir"@);
    }
    assert(bare("jrs-version"@)) by {
        reveal_strlit("jrs-version");
        reveal_with_fuel(bare_on, 12);
        lemma_bare("jrs-version"@);
    }
    reveal_strlit("name");
    reveal_strlit("version");
    reveal_strlit("main-class");
    reveal_strlit("source-dir");
    reveal_strlit("test-dir");
    reveal_strlit("resource-dir");
    reveal_strlit("target-dir");
    reveal_strlit("test-resource-dir");
    reveal_strlit("jrs-version");
    assert("name"@.len() == 4);
    assert("version"@.len() == 7);
    assert("main-class"@.len() == 10 && "main-class"@[0] == 'm');
    assert("source-dir"@.len() == 10 && "source-dir"@[0] == 's');
    assert("test-dir"@.len() == 8);
    assert("resource-dir"@.len() == 12);
    assert("target-dir"@.len() == 10 && "target-dir"@[0] == 't');
    assert("test-resource-dir"@.len() == 17);
    assert("jrs-version"@.len() == 11);
    assert forall|i: int| 0 <= i < 9 implies plain_slot(#[trigger] slots[i]) by {
        if i == 0 {
        } else if i == 1 {
        } else if i == 2 {
        } else if i == 3 {
        } else if i == 4 {
        } else if i == 5 {
        } else if i == 6 {
        } else if i == 7 {
        } else if i == 8 {
        }
    }
    assert forall|i: int, j: int| 0 <= i < j < 9 implies (#[trigger] slots[i]).0 != (
    #[trigger] slots[j]).0 by {
        if i == 0 {
        } else if i == 1 {
        } else if i == 2 {
        } else if i == 3 {
        } else if i == 4 {
        } else if i == 5 {
        } else if i == 6 {
        } else if i == 7 {
        }
    }
}

pub proof fn lemma_project_plain(m: ManifestModel)
    requires
        quotable_project(m),
    ensures
        plain_block(table_of(project_slots(m)), 2),
{
    lemma_project_slots(m);
    lemma_table_plain(project_slots(m), 2);
}

/// The texts of `[java]` can be quoted.
pub open spec fn quotable_java(j: JavaModel) -> bool {
    quotable(j.encoding) && quotable_all(j.javac_args) && quotable_all(j.javadoc_args)
}

proof fn lemma_java_slots(j: JavaModel)
    requires
        quotable_java(j),
    ensures
        plain_slots(java_slots(j)),
{
    let slots = java_slots(j);
    assert(bare("source"@)) by {
        reveal_strlit("source");
        reveal_with_fuel(bare_on, 7);
        lemma_bare("source"@);
    }
    assert(bare("target"@)) by {
        reveal_strlit("target");
        reveal_with_fuel(bare_on, 7);
        lemma_bare("target"@);
    }
    assert(bare("encoding"@)) by {
        reveal_strlit("encoding");
        reveal_with_fuel(bare_on, 9);
        lemma_bare("encoding"@);
    }
    assert(bare("javac-args"@)) by {
        reveal_strlit("javac-args");
        reveal_with_fuel(bare_on, 11);
        lemma_bare("javac-args"@);
    }
    assert(bare("javadoc-args"@)) by {
        reveal_strlit("javadoc-args");
        reveal_with_fuel(bare_on, 13);
        lemma_bare("javadoc-args"@);
    }
    assert(bare("jdk"@)) by {
        reveal_strlit("jdk");
        reveal_with_fuel(bare_on, 4);
        lemma_bare("jdk"@);
    }
    reveal_strlit("source");
    reveal_strlit("target");
    reveal_strlit("encoding");
    reveal_strlit("javac-args");
    reveal_strlit("javadoc-args");
    reveal_strlit("jdk");
    assert("source"@.len() == 6 && "source"@[0] == 's');
    assert("target"@.len() == 6 && "target"@[0] == 't');
    assert("encoding"@.len() == 8);
    assert("javac-args"@.len() == 10);
    assert("javadoc-args"@.len() == 12);
    assert("jdk"@.len() == 3);
    assert forall|i: int| 0 <= i < 6 implies plain_slot(#[trigger] slots[i]) by {
        if i == 0 {
        } else if i == 1 {
        } else if i == 2 {
        } else if i == 3 {
        } else if i == 4 {
        } else if i == 5 {
        }
    }
    assert forall|i: int, j: int| 0 <= i < j < 6 implies (#[trigger] slots[i]).0 != (
    #[trigger] slots[j]).0 by {
        if i == 0 {
        } else if i == 1 {
        } else if i == 2 {
        } else if i == 3 {
        } else if i == 4 {
        }
    }
}

/// A table that is written can be.
pub open spec fn plain_top(b: Option<Block>) -> bool {
    b matches Some(b) ==> plain_block(b, 2)
}

pub proof fn lemma_java_plain(j: JavaModel)
    requires
        quotable_java(j),
    ensures
        plain_top(java_block(j)),
{
    lemma_java_slots(j);
    lemma_table_plain(java_slots(j), 2);
}

/// The texts of a language's table can be quoted.
pub open spec fn quotable_language(c: LanguageModel) -> bool {
    &&& quotable(c.version)
    &&& quotable(c.source_dir)
    &&& quotable(c.test_dir)
    &&& quotable_all(c.compiler_args)
    &&& quotable_all(c.compiler_jvm_args)
}

proof fn lemma_language_slots(c: LanguageModel)
    requires
        quotable_language(c),
    ensures
        plain_slots(language_slots(c)),
{
    let slots = language_slots(c);
    lemma_slashed_quotable(c.source_dir);
    lemma_slashed_quotable(c.test_dir);
    assert(bare("version"@)) by {
        reveal_strlit("version");
        reveal_with_fuel(bare_on, 8);
        lemma_bare("version"@);
    }
    assert(bare("source-dir"@)) by {
        reveal_strlit("source-dir");
        reveal_with_fuel(bare_on, 11);
        lemma_bare("source-dir"@);
    }
    assert(bare("test-dir"@)) by {
        reveal_strlit("test-dir");
        reveal_with_fuel(bare_on, 9);
        lemma_bare("test-dir"@);
    }
    assert(bare("compiler-jvm-args"@)) by {
        reveal_strlit("compiler-jvm-args");
        reveal_with_fuel(bare_on, 18);
        lemma_bare("compiler-jvm-args"@);
    }
    assert(bare("javac-args"@)) by {
        reveal_strlit("javac-args");
        reveal_with_fuel(bare_on, 11);
        lemma_bare("javac-args"@);
    }
    assert(bare("kotlinc-args"@)) by {
        reveal_strlit("kotlinc-args");
        reveal_with_fuel(bare_on, 13);
        lemma_bare("kotlinc-args"@);
    }
    assert(bare("scalac-args"@)) by {
        reveal_strlit("scalac-args");
        reveal_with_fuel(bare_on, 12);
        lemma_bare("scalac-args"@);
    }
    assert(bare("groovyc-args"@)) by {
        reveal_strlit("groovyc-args");
        reveal_with_fuel(bare_on, 13);
        lemma_bare("groovyc-args"@);
    }
    reveal_strlit("version");
    reveal_strlit("source-dir");
    reveal_strlit("test-dir");
    reveal_strlit("compiler-jvm-args");
    reveal_strlit("javac-args");
    reveal_strlit("kotlinc-args");
    reveal_strlit("scalac-args");
    reveal_strlit("groovyc-args");
    assert("version"@.len() == 7);
    assert("source-dir"@.len() == 10 && "source-dir"@[0] == 's');
    assert("test-dir"@.len() == 8);
    assert("compiler-jvm-args"@.len() == 17);
    assert("javac-args"@.len() == 10 && "javac-args"@[0] == 'j');
    assert("kotlinc-args"@.len() == 12 && "kotlinc-args"@[0] == 'k');
    assert("scalac-args"@.len() == 11);
    assert("groovyc-args"@.len() == 12 && "groovyc-args"@[0] == 'g');
    match c.language {
        Language::Java => {},
        Language::Kotlin => {},
        Language::Scala => {},
        Language::Groovy => {},
    }
    assert forall|i: int| 0 <= i < 5 implies plain_slot(#[trigger] slots[i]) by {
        if i == 0 {
        } else if i == 1 {
        } else if i == 2 {
        } else if i == 3 {
        } else if i == 4 {
        }
    }
    assert forall|i: int, j: int| 0 <= i < j < 5 implies (#[trigger] slots[i]).0 != (
    #[trigger] slots[j]).0 by {
        if i == 0 {
        } else if i == 1 {
        } else if i == 2 {
        } else if i == 3 {
        }
    }
}

/// The texts of every language's table can be quoted.
pub open spec fn quotable_languages(list: Seq<LanguageModel>) -> bool {
    forall|i: int| 0 <= i < list.len() ==> quotable_language(#[trigger] list[i])
}

proof fn lemma_found_quotable(list: Seq<LanguageModel>, language: Language, i: int)
    requires
        quotable_languages(list),
        0 <= i,
    ensures
        language_at(list, language, i) matches Some(c) ==> quotable_language(c),
    decreases list.len() - i,
{
    if i < list.len() {
        lemma_found_quotable(list, language, i + 1);
    }
}

pub proof fn lemma_language_plain(list: Seq<LanguageModel>, language: Language)
    requires
        quotable_languages(list),
    ensures
        plain_top(language_block(language_at(list, language, 0))),
{
    lemma_found_quotable(list, language, 0);
    if let Some(c) = language_at(list, language, 0) {
        lemma_language_slots(c);
        lemma_table_plain(language_slots(c), 2);
    }
}

/// The texts of `[run]` can be quoted.
pub open spec fn quotable_run(c: RunModel) -> bool {
    &&& quotable_all(c.jvm_args)
    &&& quotable_pairs(c.java_agents)
    &&& quotable_env(c.env)
    &&& quotable_template(c.cwd)
}

proof fn lemma_run_slots(c: RunModel)
    requires
        quotable_run(c),
        env_apart(c.env),
        env_unmarked(c.env),
    ensures
        plain_slots(run_slots(c)),
{
    let slots = run_slots(c);
    lemma_gas(c.java_agents);
    lemma_env_plain(c.env);
    assert(bare("jvm-args"@)) by {
        reveal_strlit("jvm-args");
        reveal_with_fuel(bare_on, 9);
        lemma_bare("jvm-args"@);
    }
    assert(bare("java-agents"@)) by {
        reveal_strlit("java-agents");
        reveal_with_fuel(bare_on, 12);
        lemma_bare("java-agents"@);
    }
    assert(bare("env"@)) by {
        reveal_strlit("env");
        reveal_with_fuel(bare_on, 4);
        lemma_bare("env"@);
    }
    assert(bare("cwd"@)) by {
        reveal_strlit("cwd");
        reveal_with_fuel(bare_on, 4);
        lemma_bare("cwd"@);
    }
    reveal_strlit("jvm-args");
    reveal_strlit("java-agents");
    reveal_strlit("env");
    reveal_strlit("cwd");
    assert("jvm-args"@.len() == 8);
    assert("java-agents"@.len() == 11);
    assert("env"@.len() == 3 && "env"@[0] == 'e');
    assert("cwd"@.len() == 3 && "cwd"@[0] == 'c');
    assert forall|i: int| 0 <= i < 4 implies plain_slot(#[trigger] slots[i]) by {
        if i == 0 {
        } else if i == 1 {
        } else if i == 2 {
        } else if i == 3 {
        }
    }
    assert forall|i: int, j: int| 0 <= i < j < 4 implies (#[trigger] slots[i]).0 != (
    #[trigger] slots[j]).0 by {
        if i == 0 {
        } else if i == 1 {
        } else if i == 2 {
        }
    }
}

pub proof fn lemma_run_plain(c: RunModel)
    requires
        good_run(c),
        quotable_run(c),
        env_unmarked(c.env),
    ensures
        plain_top(run_block(c)),
{
    lemma_run_slots(c);
    lemma_table_plain(run_slots(c), 2);
}

/// The texts of `[test]` can be quoted.
pub open spec fn quotable_test(c: TestModel) -> bool {
    &&& quotable_all(c.jvm_args)
    &&& quotable_option(c.jacoco_version)
    &&& quotable_pairs(c.java_agents)
    &&& quotable_env(c.env)
}

/// Minimums of counters that differ.
pub open spec fn minimums_apart(list: Seq<CoverageMinimum>) -> bool {
    forall|i: int, j: int|
        0 <= i < j < list.len() ==> (#[trigger] list[i]).counter != (#[trigger] list[j]).counter
}

pub proof fn lemma_minimums_apart(t: Entries, i: int, out: Seq<CoverageMinimum>)
    requires
        sound(t),
        0 <= i <= t.len(),
        minimums_apart(out),
        forall|k: int|
            0 <= k < out.len() ==> exists|j: int|
                0 <= j < i && (#[trigger] t[j]).0 == (#[trigger] out[k]).counter.word(),
    ensures
        minimums_from(t, i, out) matches Ok(list) ==> minimums_apart(list),
    decreases t.len() - i,
{
    if i < t.len() {
        match counter_named(t[i].0) {
            None => {
                assert forall|k: int| 0 <= k < out.len() implies exists|j: int|
                    0 <= j < i + 1 && (#[trigger] t[j]).0 == (#[trigger] out[k]).counter.word() by {
                    let j = choose|j: int|
                        0 <= j < i && (#[trigger] t[j]).0 == out[k].counter.word();
                    assert(t[j].0 == out[k].counter.word());
                }
                lemma_minimums_apart(t, i + 1, out);
            },
            Some(counter) => {
                counter_keys_are_their_own(counter, t[i].0);
                if let Ok(basis_points) = ratio_of(t[i].0, t[i].1) {
                    let more = out.push(CoverageMinimum { counter, basis_points });
                    assert forall|k: int| 0 <= k < more.len() implies exists|j: int|
                        0 <= j < i + 1 && (#[trigger] t[j]).0 == (
                        #[trigger] more[k]).counter.word() by {
                        if k < out.len() {
                            assert(more[k] == out[k]);
                            let j = choose|j: int|
                                0 <= j < i && (#[trigger] t[j]).0 == out[k].counter.word();
                            assert(t[j].0 == more[k].counter.word());
                        } else {
                            assert(t[i].0 == more[k].counter.word());
                        }
                    }
                    assert forall|a: int, b: int| 0 <= a < b < more.len() implies (
                    #[trigger] more[a]).counter != (#[trigger] more[b]).counter by {
                        assert(more[a] == out[a]);
                        if b < out.len() {
                            assert(more[b] == out[b]);
                        } else {
                            let j = choose|j: int|
                                0 <= j < i && (#[trigger] t[j]).0 == out[a].counter.word();
                            assert(t[j].0 != t[i].0);
                        }
                    }
                    lemma_minimums_apart(t, i + 1, more);
                }
            },
        }
    }
}

proof fn lemma_minimums_plain(list: Seq<CoverageMinimum>)
    requires
        minimums_apart(list),
        good_minimums(list),
    ensures
        minimum_value(list) matches Some(v) ==> plain_value(v),
{
    let fields = minimum_fields(list);
    assert(bare("instruction"@)) by {
        reveal_strlit("instruction");
        reveal_with_fuel(bare_on, 12);
        lemma_bare("instruction"@);
    }
    assert(bare("branch"@)) by {
        reveal_strlit("branch");
        reveal_with_fuel(bare_on, 7);
        lemma_bare("branch"@);
    }
    assert(bare("line"@)) by {
        reveal_strlit("line");
        reveal_with_fuel(bare_on, 5);
        lemma_bare("line"@);
    }
    assert(bare("complexity"@)) by {
        reveal_strlit("complexity");
        reveal_with_fuel(bare_on, 11);
        lemma_bare("complexity"@);
    }
    assert(bare("method"@)) by {
        reveal_strlit("method");
        reveal_with_fuel(bare_on, 7);
        lemma_bare("method"@);
    }
    assert(bare("class"@)) by {
        reveal_strlit("class");
        reveal_with_fuel(bare_on, 6);
        lemma_bare("class"@);
    }
    assert forall|i: int| 0 <= i < fields.len() implies plain_key((#[trigger] fields[i]).0)
        && plain_scalar(fields[i].1) by {
        assert(list[i].basis_points <= 10000);
    }
    assert forall|i: int, j: int| 0 <= i < j < fields.len() implies (#[trigger] fields[i]).0.name
        != (#[trigger] fields[j]).0.name by {
        assert(list[i].counter != list[j].counter);
        counter_keys_are_their_own(list[i].counter, list[i].counter.word());
        counter_keys_are_their_own(list[j].counter, list[j].counter.word());
    }
    if list.len() > 0 {
        assert(plain_key(fields[0].0));
        lemma_no_mark(fields[0].0.name);
    }
    assert(plain_fields(fields));
}

proof fn lemma_test_slots(c: TestModel)
    requires
        quotable_test(c),
        env_apart(c.env),
        env_unmarked(c.env),
        minimums_apart(c.coverage_minimum),
        good_minimums(c.coverage_minimum),
    ensures
        plain_slots(test_slots(c)),
{
    let slots = test_slots(c);
    lemma_gas(c.java_agents);
    lemma_env_plain(c.env);
    lemma_minimums_plain(c.coverage_minimum);
    assert(bare("jvm-args"@)) by {
        reveal_strlit("jvm-args");
        reveal_with_fuel(bare_on, 9);
        lemma_bare("jvm-args"@);
    }
    assert(bare("jacoco-version"@)) by {
        reveal_strlit("jacoco-version");
        reveal_with_fuel(bare_on, 15);
        lemma_bare("jacoco-version"@);
    }
    assert(bare("java-agents"@)) by {
        reveal_strlit("java-agents");
        reveal_with_fuel(bare_on, 12);
        lemma_bare("java-agents"@);
    }
    assert(bare("env"@)) by {
        reveal_strlit("env");
        reveal_with_fuel(bare_on, 4);
        lemma_bare("env"@);
    }
    assert(bare("retries"@)) by {
        reveal_strlit("retries");
        reveal_with_fuel(bare_on, 8);
        lemma_bare("retries"@);
    }
    assert(bare("forks"@)) by {
        reveal_strlit("forks");
        reveal_with_fuel(bare_on, 6);
        lemma_bare("forks"@);
    }
    assert(bare("coverage-minimum"@)) by {
        reveal_strlit("coverage-minimum");
        reveal_with_fuel(bare_on, 17);
        lemma_bare("coverage-minimum"@);
    }
    reveal_strlit("jvm-args");
    reveal_strlit("jacoco-version");
    reveal_strlit("java-agents");
    reveal_strlit("env");
    reveal_strlit("retries");
    reveal_strlit("forks");
    reveal_strlit("coverage-minimum");
    assert("jvm-args"@.len() == 8);
    assert("jacoco-version"@.len() == 14);
    assert("java-agents"@.len() == 11);
    assert("env"@.len() == 3);
    assert("retries"@.len() == 7);
    assert("forks"@.len() == 5);
    assert("coverage-minimum"@.len() == 16);
    assert forall|i: int| 0 <= i < 7 implies plain_slot(#[trigger] slots[i]) by {
        if i == 0 {
        } else if i == 1 {
        } else if i == 2 {
        } else if i == 3 {
        } else if i == 4 {
        } else if i == 5 {
        } else if i == 6 {
        }
    }
    assert forall|i: int, j: int| 0 <= i < j < 7 implies (#[trigger] slots[i]).0 != (
    #[trigger] slots[j]).0 by {
        if i == 0 {
        } else if i == 1 {
        } else if i == 2 {
        } else if i == 3 {
        } else if i == 4 {
        } else if i == 5 {
        }
    }
}

pub proof fn lemma_test_plain(c: TestModel)
    requires
        good_test(c),
        quotable_test(c),
        env_unmarked(c.env),
    ensures
        plain_top(test_block(c)),
{
    lemma_test_slots(c);
    lemma_table_plain(test_slots(c), 2);
}

/// The texts of `[package]` can be quoted.
pub open spec fn quotable_package(c: PackageModel) -> bool {
    &&& quotable_all(c.add_modules)
    &&& quotable_all(c.native_image_args)
    &&& quotable_env(c.manifest)
}

proof fn lemma_not_alike(list: Seq<(Seq<char>, TemplateModel)>, name: Seq<char>, i: int)
    requires
        name_alike(list, name, i) is None,
        0 <= i,
    ensures
        forall|k: int| i <= k < list.len() ==> (#[trigger] list[k]).0 != name,
    decreases list.len() - i,
{
    if i < list.len() {
        lemma_not_alike(list, name, i + 1);
    }
}

proof fn lemma_attributes_plain(list: Seq<(Seq<char>, TemplateModel)>)
    requires
        quotable_env(list),
        good_attributes(list),
    ensures
        plain_block(attribute_block(list), 1),
{
    let lines = attribute_block(list).lines;
    assert forall|i: int| 0 <= i < lines.len() implies plain_key((#[trigger] lines[i]).0)
        && plain_value(lines[i].1) by {
        assert(quotable(list[i].1.raw) && bare(list[i].0));
    }
    assert forall|i: int, j: int| 0 <= i < j < lines.len() implies (#[trigger] lines[i]).0.name
        != (#[trigger] lines[j]).0.name by {
        assert(name_alike(list.take(j), list[j].0, 0) is None);
        lemma_not_alike(list.take(j), list[j].0, 0);
        assert(list.take(j)[i] == list[i]);
    }
    if list.len() > 0 {
        assert(plain_key(lines[0].0));
        lemma_no_mark(lines[0].0.name);
    }
    assert(plain_lines(lines));
}

proof fn lemma_package_slots(c: PackageModel)
    requires
        quotable_package(c),
    ensures
        plain_slots(package_slots(c)),
{
    let slots = package_slots(c);
    assert(bare("add-modules"@)) by {
        reveal_strlit("add-modules");
        reveal_with_fuel(bare_on, 12);
        lemma_bare("add-modules"@);
    }
    assert(bare("native-image-args"@)) by {
        reveal_strlit("native-image-args");
        reveal_with_fuel(bare_on, 18);
        lemma_bare("native-image-args"@);
    }
    reveal_strlit("add-modules");
    reveal_strlit("native-image-args");
    assert("add-modules"@.len() == 11);
    assert("native-image-args"@.len() == 17);
    assert forall|i: int| 0 <= i < 2 implies plain_slot(#[trigger] slots[i]) by {
        if i == 0 {
        } else if i == 1 {
        }
    }
    assert forall|i: int, j: int| 0 <= i < j < 2 implies (#[trigger] slots[i]).0 != (
    #[trigger] slots[j]).0 by {
        if i == 0 {
        }
    }
}

pub proof fn lemma_package_plain(c: PackageModel)
    requires
        good_attributes(c.manifest),
        quotable_package(c),
    ensures
        plain_top(package_block(c)),
{
    let slots = package_slots(c);
    lemma_package_slots(c);
    lemma_lines_plain(slots, 2);
    lemma_attributes_plain(c.manifest);
    if let Some(b) = package_block(c) {
        assert(bare("manifest"@)) by {
            reveal_strlit("manifest");
            reveal_with_fuel(bare_on, 9);
            lemma_bare("manifest"@);
        }
        reveal_strlit("manifest");
        reveal_strlit("add-modules");
        reveal_strlit("native-image-args");
        assert("manifest"@.len() == 8);
        assert("add-modules"@.len() == 11);
        assert("native-image-args"@.len() == 17);
        assert(plain_lines(b.lines));
        assert forall|i: int, j: int|
            0 <= i < b.lines.len() && 0 <= j < b.inner.len() implies (#[trigger] b.lines[i]).0.name
            != (#[trigger] b.inner[j]).0 by {
            let k = choose|k: int| 0 <= k < 2 && (#[trigger] slots[k]).0 == b.lines[i].0.name;
            assert(slots[k].0.len() != 8);
        }
        reveal_with_fuel(lines_of, 3);
        if c.manifest.len() > 0 {
            assert(b.inner[0] == ("manifest"@, attribute_block(c.manifest)));
        }
        assert(plain_block(b, 2));
    }
}

/// The texts of `[obfuscate]` can be quoted.
pub open spec fn quotable_obfuscate(c: Option<ObfuscateModel>) -> bool {
    c matches Some(c) ==> quotable(c.version) && quotable_all(c.keep) && quotable_all(
        c.proguard_args,
    )
}

proof fn lemma_obfuscate_slots(c: ObfuscateModel)
    requires
        quotable_obfuscate(Some(c)),
    ensures
        plain_slots(obfuscate_slots(c)),
{
    let slots = obfuscate_slots(c);
    assert(bare("version"@)) by {
        reveal_strlit("version");
        reveal_with_fuel(bare_on, 8);
        lemma_bare("version"@);
    }
    assert(bare("keep"@)) by {
        reveal_strlit("keep");
        reveal_with_fuel(bare_on, 5);
        lemma_bare("keep"@);
    }
    assert(bare("proguard-args"@)) by {
        reveal_strlit("proguard-args");
        reveal_with_fuel(bare_on, 14);
        lemma_bare("proguard-args"@);
    }
    reveal_strlit("version");
    reveal_strlit("keep");
    reveal_strlit("proguard-args");
    assert("version"@.len() == 7);
    assert("keep"@.len() == 4);
    assert("proguard-args"@.len() == 13);
    assert forall|i: int| 0 <= i < 3 implies plain_slot(#[trigger] slots[i]) by {
        if i == 0 {
        } else if i == 1 {
        } else if i == 2 {
        }
    }
    assert forall|i: int, j: int| 0 <= i < j < 3 implies (#[trigger] slots[i]).0 != (
    #[trigger] slots[j]).0 by {
        if i == 0 {
        } else if i == 1 {
        }
    }
}

pub proof fn lemma_obfuscate_plain(c: Option<ObfuscateModel>)
    requires
        quotable_obfuscate(c),
    ensures
        plain_top(obfuscate_block(c)),
{
    if let Some(c) = c {
        lemma_obfuscate_slots(c);
        lemma_table_plain(obfuscate_slots(c), 2);
    }
}

} // verus!
