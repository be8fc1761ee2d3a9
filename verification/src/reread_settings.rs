//! What the tables of settings say when they are read again.

use crate::attributes::{attribute_of, attribute_table, attributes_from, name_alike};
use crate::coord::{ga_text, range};
use crate::coverage::{
    counter_keys_are_their_own, counter_named, nearest_ratios_are_read, ratios_are_at_most_one,
    unit_bits, CoverageMinimum,
};
use crate::error::Fault;
use crate::keys::{
    class_fault, count_of, minimums, minimums_from, name_fault, optional_text, path_text, ratio_of,
    release_of, required_text, subtable, text_list,
};
use crate::language::Language;
use crate::manifest::{
    language_at, same_language, JavaModel, LanguageModel, ManifestModel, ObfuscateModel,
    PackageModel, RunModel, TestModel,
};
use crate::parse::{
    java_of, language_of, language_version, languages_from, obfuscate_of, package_of, project_of,
    run_of, run_table, test_of, test_table, ProjectModel,
};
use crate::parse_tasks::{
    agent_of, agents_from, agents_of, classpath_from, env_fault_from, env_from, env_of,
    optional_template, solid, task_placeholder_fault,
};
use crate::paths::{resources_beside, same_dir, slashed};
use crate::render::gas;
use crate::reread::{
    begins, lemma_first_piece, lemma_in_table, lemma_one_piece, lemma_pieces_apart, lemma_slot,
    lemma_texts, lemma_trim_once, slot_value,
};
use crate::reread_manifest::project_part;
use crate::reread_paths::{good_dir, lemma_beside, lemma_path_again, lemma_same_spelling};
use crate::sheet::{block_is, fields_are, plain_is, scalar_is};
use crate::sheet_of::{
    attribute_block, attribute_line, env_fields, env_value, java_slots, language_slots,
    languages_in_order, lines_of, list_value, minimum_fields, minimum_value, number_value,
    obfuscate_slots, one_language, package_block, package_slots, path_value, project_slots,
    raw_value, run_slots, table_of, test_slots,
};
use crate::template::{template_of, TemplateModel};
use crate::text::{capital, includes, pieces, starts, trimmed};
use crate::value::{entry, entry_from, sound, Entries, TreeKind};
use crate::version::{jrs_version_of, release, version_fault, VERSION};
use crate::writable::{env_apart, env_unmarked, lemma_env_apart, lemma_sound};
use crate::writable_settings::{lemma_minimums_apart, minimums_apart};
use vstd::prelude::*;

verus! {

// ---- [project] -------------------------------------------------------------

/// Where the tests' resources are, once that is written and read again.
pub open spec fn respelled_resources(m: ManifestModel) -> Seq<char> {
    let beside = resources_beside(m.test_dir);
    if slashed(m.test_resource_dir) == slashed(beside) {
        beside
    } else {
        slashed(m.test_resource_dir)
    }
}

/// A language with its directories as they are once they are written and read
/// again.
pub open spec fn respelled_language(c: LanguageModel) -> LanguageModel {
    LanguageModel { source_dir: slashed(c.source_dir), test_dir: slashed(c.test_dir), ..c }
}

pub open spec fn respelled_languages(list: Seq<LanguageModel>) -> Seq<LanguageModel> {
    Seq::new(list.len(), |i: int| respelled_language(list[i]))
}

/// A manifest with its directories as they are once they are written and read
/// again.
pub open spec fn respelled(m: ManifestModel) -> ManifestModel {
    ManifestModel {
        source_dir: slashed(m.source_dir),
        test_dir: slashed(m.test_dir),
        resource_dir: slashed(m.resource_dir),
        test_resource_dir: respelled_resources(m),
        target_dir: slashed(m.target_dir),
        languages: respelled_languages(m.languages),
        ..m
    }
}

proof fn lemma_project_slots(m: ManifestModel)
    ensures
        ({
            let slots = project_slots(m);
            &&& slot_value(slots, "name"@, 0) == slots[0].1
            &&& slot_value(slots, "version"@, 0) == slots[1].1
            &&& slot_value(slots, "main-class"@, 0) == slots[2].1
            &&& slot_value(slots, "source-dir"@, 0) == slots[3].1
            &&& slot_value(slots, "test-dir"@, 0) == slots[4].1
            &&& slot_value(slots, "resource-dir"@, 0) == slots[5].1
            &&& slot_value(slots, "target-dir"@, 0) == slots[6].1
            &&& slot_value(slots, "test-resource-dir"@, 0) == slots[7].1
            &&& slot_value(slots, "jrs-version"@, 0) == slots[8].1
        }),
{
    reveal_strlit("name");
    reveal_strlit("version");
    reveal_strlit("main-class");
    reveal_strlit("source-dir");
    reveal_strlit("test-dir");
    reveal_strlit("resource-dir");
    reveal_strlit("target-dir");
    reveal_strlit("test-resource-dir");
    reveal_strlit("jrs-version");
    assert("name"@.len() == 4);
    assert("version"@.len() == 7);
    assert("main-class"@.len() == 10 && "main-class"@[0] == 'm');
    assert("source-dir"@.len() == 10 && "source-dir"@[0] == 's');
    assert("test-dir"@.len() == 8);
    assert("resource-dir"@.len() == 12);
    assert("target-dir"@.len() == 10 && "target-dir"@[0] == 't');
    assert("test-resource-dir"@.len() == 17);
    assert("jrs-version"@.len() == 11);
    reveal_with_fuel(slot_value, 10);
}

proof fn lemma_path(
    t: Entries,
    key: Seq<char>,
    default: Seq<char>,
    section: Seq<char>,
    dir: Seq<char>,
)
    requires
        good_dir(dir),
        match path_value(dir, default) {
            Some(p) => entry(t, key) is Some && plain_is(entry(t, key)->0, p),
            None => entry(t, key) is None,
        },
    ensures
        path_text(t, key, default, section) == Ok::<Seq<char>, Fault>(slashed(dir)),
        same_dir(slashed(dir), dir),
{
    lemma_path_again(t, key, default, section, dir);
}

/// A required jrs that this one is.
pub open spec fn good_required(v: Option<Seq<char>>) -> bool {
    v matches Some(required) ==> release(required) is Some && version_fault(
        required,
        VERSION@,
        ""@,
    ) is None
}

/// What `[project]` can say.
pub open spec fn good_project(m: ManifestModel) -> bool {
    &&& name_fault(m.name) is None
    &&& trimmed(m.version).len() > 0
    &&& m.main_class matches Some(class) ==> class_fault(class, "project.main-class"@) is None
    &&& good_dir(m.source_dir)
    &&& good_dir(m.test_dir)
    &&& good_dir(m.resource_dir)
    &&& good_dir(m.target_dir)
    &&& good_dir(m.test_resource_dir) || m.test_resource_dir == resources_beside(m.test_dir)
    &&& good_required(m.jrs_version)
}

/// What `[project]` was read to say, it can.
pub proof fn lemma_project_good(t: Entries, path: Seq<char>, m: ManifestModel)
    requires
        project_of(t) == Ok::<ProjectModel, Fault>(project_part(m)),
        jrs_version_of(t, path) == Ok::<Option<Seq<char>>, Fault>(m.jrs_version),
    ensures
        good_project(m),
{
}

/// `[project]` is read again as it was, its directories spelled anew.
pub proof fn lemma_project_again(t: Entries, m: ManifestModel, path: Seq<char>)
    requires
        good_project(m),
        block_is(t, table_of(project_slots(m))),
    ensures
        project_of(t) == Ok::<ProjectModel, Fault>(project_part(respelled(m))),
        same_dir(slashed(m.source_dir), m.source_dir),
        same_dir(slashed(m.test_dir), m.test_dir),
        same_dir(slashed(m.resource_dir), m.resource_dir),
        same_dir(slashed(m.target_dir), m.target_dir),
        same_dir(respelled_resources(m), m.test_resource_dir),
        jrs_version_of(t, path) == Ok::<Option<Seq<char>>, Fault>(m.jrs_version),
{
    let slots = project_slots(m);
    lemma_project_slots(m);
    lemma_in_table(t, slots, "name"@);
    lemma_in_table(t, slots, "version"@);
    lemma_in_table(t, slots, "main-class"@);
    lemma_in_table(t, slots, "source-dir"@);
    lemma_in_table(t, slots, "test-dir"@);
    lemma_in_table(t, slots, "resource-dir"@);
    lemma_in_table(t, slots, "target-dir"@);
    lemma_in_table(t, slots, "test-resource-dir"@);
    lemma_in_table(t, slots, "jrs-version"@);
    lemma_path(t, "source-dir"@, "src/main/java"@, "project"@, m.source_dir);
    lemma_path(t, "test-dir"@, "src/test/java"@, "project"@, m.test_dir);
    lemma_path(t, "resource-dir"@, "src/main/resources"@, "project"@, m.resource_dir);
    lemma_path(t, "target-dir"@, "target"@, "project"@, m.target_dir);
    assert(required_text(t, "name"@, "project"@) == Ok::<Seq<char>, Fault>(m.name));
    assert(required_text(t, "version"@, "project"@) == Ok::<Seq<char>, Fault>(m.version));
    assert(optional_text(t, "main-class"@, "project"@) == Ok::<Option<Seq<char>>, Fault>(
        m.main_class,
    ));
    lemma_resources(t, m);
}

/// Where the tests' resources are, read again.
proof fn lemma_resources(t: Entries, m: ManifestModel)
    requires
        good_dir(m.test_dir),
        good_dir(m.test_resource_dir) || m.test_resource_dir == resources_beside(m.test_dir),
        match path_value(m.test_resource_dir, slashed(resources_beside(m.test_dir))) {
            Some(p) => entry(t, "test-resource-dir"@) is Some && plain_is(
                entry(t, "test-resource-dir"@)->0,
                p,
            ),
            None => entry(t, "test-resource-dir"@) is None,
        },
    ensures
        (if entry(t, "test-resource-dir"@) is Some {
            path_text(t, "test-resource-dir"@, ""@, "project"@)
        } else {
            Ok(resources_beside(slashed(m.test_dir)))
        }) == Ok::<Seq<char>, Fault>(respelled_resources(m)),
        same_dir(respelled_resources(m), m.test_resource_dir),
{
    let beside = resources_beside(m.test_dir);
    lemma_beside(m.test_dir);
    if slashed(m.test_resource_dir) == slashed(beside) {
        lemma_same_spelling(beside, m.test_resource_dir);
    } else {
        lemma_path_again(t, "test-resource-dir"@, ""@, "project"@, m.test_resource_dir);
    }
}

// ---- [java] ----------------------------------------------------------------

proof fn lemma_java_slots(j: JavaModel)
    ensures
        ({
            let slots = java_slots(j);
            &&& slot_value(slots, "source"@, 0) == slots[0].1
            &&& slot_value(slots, "target"@, 0) == slots[1].1
            &&& slot_value(slots, "encoding"@, 0) == slots[2].1
            &&& slot_value(slots, "javac-args"@, 0) == slots[3].1
            &&& slot_value(slots, "javadoc-args"@, 0) == slots[4].1
            &&& slot_value(slots, "jdk"@, 0) == slots[5].1
        }),
{
    reveal_strlit("source");
    reveal_strlit("target");
    reveal_strlit("encoding");
    reveal_strlit("javac-args");
    reveal_strlit("javadoc-args");
    reveal_strlit("jdk");
    assert("source"@.len() == 6 && "source"@[0] == 's');
    assert("target"@.len() == 6 && "target"@[0] == 't');
    assert("encoding"@.len() == 8);
    assert("javac-args"@.len() == 10);
    assert("javadoc-args"@.len() == 12);
    assert("jdk"@.len() == 3);
    reveal_with_fuel(slot_value, 7);
}

proof fn lemma_release(t: Entries, key: Seq<char>, n: Option<u32>)
    requires
        n matches Some(n) ==> n > 0,
        match number_value(n) {
            Some(p) => entry(t, key) is Some && plain_is(entry(t, key)->0, p),
            None => entry(t, key) is None,
        },
    ensures
        release_of(t, key) == Ok::<Option<u32>, Fault>(n),
{
}

/// What `[java]` can say: a target is one of its own.
pub open spec fn good_java(j: JavaModel) -> bool {
    j.target is Some ==> j.target != j.source
}

/// `[java]` is read again as it was. A release of 0 can be given as text, and
/// is not read as a number.
pub proof fn lemma_java_again(t: Entries, j: JavaModel)
    requires
        good_java(j),
        j.source != Some(0u32),
        j.target != Some(0u32),
        j.jdk != Some(0u32),
        block_is(t, table_of(java_slots(j))),
    ensures
        java_of(t) == Ok::<JavaModel, Fault>(j),
{
    let slots = java_slots(j);
    lemma_java_slots(j);
    lemma_in_table(t, slots, "source"@);
    lemma_in_table(t, slots, "target"@);
    lemma_in_table(t, slots, "encoding"@);
    lemma_in_table(t, slots, "javac-args"@);
    lemma_in_table(t, slots, "javadoc-args"@);
    lemma_in_table(t, slots, "jdk"@);
    let target = if j.target == j.source {
        None
    } else {
        j.target
    };
    lemma_release(t, "source"@, j.source);
    lemma_release(t, "target"@, target);
    lemma_release(t, "jdk"@, j.jdk);
    lemma_texts(t, "javac-args"@, "java"@, j.javac_args);
    lemma_texts(t, "javadoc-args"@, "java"@, j.javadoc_args);
    let encoding = if j.encoding != "UTF-8"@ {
        Some(j.encoding)
    } else {
        None
    };
    assert(optional_text(t, "encoding"@, "java"@) == Ok::<Option<Seq<char>>, Fault>(encoding));
}

// ---- [run] and [test] ------------------------------------------------------

/// Variables that a table can name.
pub open spec fn good_env(env: Seq<(Seq<char>, TemplateModel)>) -> bool {
    forall|i: int|
        0 <= i < env.len() ==> {
            let (key, t) = #[trigger] env[i];
            &&& key.len() > 0
            &&& !includes(key, '=')
            &&& !includes(key, '\0')
            &&& !starts(capital(key), "JRS_"@)
            &&& template_of(t.raw) == Ok::<TemplateModel, Seq<char>>(t)
        }
}

proof fn lemma_good_env(
    t: Entries,
    section: Seq<char>,
    tail: Seq<char>,
    i: int,
    out: Seq<(Seq<char>, TemplateModel)>,
)
    requires
        0 <= i <= t.len(),
        good_env(out),
    ensures
        env_from(t, section, tail, i, out) matches Ok(env) ==> good_env(env),
    decreases t.len() - i,
{
    if i < t.len() {
        let (key, value) = t[i];
        if let Some(raw) = value.text() {
            if let Ok(template) = template_of(raw) {
                if !(key.len() == 0 || includes(key, '=') || includes(key, '\0')) && !starts(
                    capital(key),
                    "JRS_"@,
                ) {
                    lemma_good_env(t, section, tail, i + 1, out.push((key, template)));
                }
            }
        }
    }
}

proof fn lemma_env_from(
    t: Entries,
    env: Seq<(Seq<char>, TemplateModel)>,
    section: Seq<char>,
    tail: Seq<char>,
    i: int,
    out: Seq<(Seq<char>, TemplateModel)>,
)
    requires
        0 <= i <= env.len(),
        fields_are(t, env_fields(env)),
        good_env(env),
        out == env.take(i),
    ensures
        env_from(t, section, tail, i, out) == Ok::<Seq<(Seq<char>, TemplateModel)>, Fault>(env),
    decreases env.len() - i,
{
    if i < env.len() {
        assert(t[i].0 == env_fields(env)[i].0.name);
        assert(t[i].1.text() == Some(env[i].1.raw));
        assert(env.take(i + 1) =~= out.push(env[i]));
        assert(out.push((t[i].0, env[i].1)) =~= out.push(env[i]));
        lemma_env_from(t, env, section, tail, i + 1, out.push(env[i]));
    } else {
        assert(env.take(i) =~= env);
    }
}

/// The variables of a table are.
pub proof fn lemma_env_is_good(t: Entries, section: Seq<char>, tail: Seq<char>)
    ensures
        env_of(t, section, tail) matches Ok(env) ==> good_env(env),
{
    if let Some(v) = entry(t, "env"@) {
        if let Some(vars) = v.table() {
            lemma_good_env(vars, section, tail, 0, seq![]);
        }
    }
}

/// An environment is read again as it was.
pub proof fn lemma_env_again(
    t: Entries,
    section: Seq<char>,
    tail: Seq<char>,
    env: Seq<(Seq<char>, TemplateModel)>,
)
    requires
        good_env(env),
        match env_value(env) {
            Some(p) => entry(t, "env"@) is Some && plain_is(entry(t, "env"@)->0, p),
            None => entry(t, "env"@) is None,
        },
    ensures
        env_of(t, section, tail) == Ok::<Seq<(Seq<char>, TemplateModel)>, Fault>(env),
{
    if env.len() > 0 {
        assert(env.take(0) =~= seq![]);
        lemma_env_from(entry(t, "env"@)->0.kind->Table_0, env, section, tail, 0, seq![]);
    } else {
        assert(env =~= seq![]);
    }
}

/// Agents that a list can name: each once.
pub open spec fn good_agents(list: Seq<(Seq<char>, Seq<char>)>) -> bool {
    &&& forall|i: int|
        0 <= i < list.len() ==> solid((#[trigger] list[i]).0) && solid(list[i].1) && !includes(
            list[i].0,
            ':',
        ) && !includes(list[i].1, ':')
    &&& forall|i: int, j: int| 0 <= i < j < list.len() ==> #[trigger] list[i] != #[trigger] list[j]
}

proof fn lemma_good_agents(
    raw: Seq<Seq<char>>,
    key: Seq<char>,
    i: int,
    out: Seq<(Seq<char>, Seq<char>)>,
)
    requires
        0 <= i <= raw.len(),
        good_agents(out),
    ensures
        agents_from(raw, key, i, out) matches Ok(list) ==> good_agents(list),
    decreases raw.len() - i,
{
    if i < raw.len() {
        if let Some(ga) = agent_of(raw[i]) {
            lemma_pieces_apart(raw[i], ':', 0);
            lemma_pieces_apart(raw[i], ':', 1);
            if !out.contains(ga) {
                let more = out.push(ga);
                assert forall|a: int, b: int| 0 <= a < b < more.len() implies #[trigger] more[a]
                    != #[trigger] more[b] by {
                    if b == out.len() {
                        assert(more[a] == out[a]);
                        assert(out.contains(out[a]));
                    } else {
                        assert(more[a] == out[a] && more[b] == out[b]);
                    }
                }
                lemma_good_agents(raw, key, i + 1, more);
            }
        }
    }
}

/// Two names with a colon between them are two pieces.
pub proof fn lemma_ga_pieces(g: Seq<char>, a: Seq<char>)
    requires
        !includes(g, ':'),
        !includes(a, ':'),
    ensures
        pieces(ga_text(g, a), ':') == seq![g, a],
{
    reveal_strlit(":");
    assert(":"@ =~= seq![':']);
    lemma_first_piece(g, a, ':');
    lemma_one_piece(a, ':');
    assert(seq![g] + seq![a] =~= seq![g, a]);
}

proof fn lemma_agents_from(
    list: Seq<(Seq<char>, Seq<char>)>,
    key: Seq<char>,
    i: int,
    out: Seq<(Seq<char>, Seq<char>)>,
)
    requires
        0 <= i <= list.len(),
        good_agents(list),
        out == list.take(i),
    ensures
        agents_from(gas(list), key, i, out) == Ok::<Seq<(Seq<char>, Seq<char>)>, Fault>(list),
    decreases list.len() - i,
{
    if i < list.len() {
        lemma_ga_pieces(list[i].0, list[i].1);
        assert(agent_of(gas(list)[i]) == Some(list[i]));
        assert(list.take(i + 1) =~= out.push(list[i]));
        assert(!out.contains(list[i]));
        lemma_agents_from(list, key, i + 1, out.push(list[i]));
    } else {
        assert(list.take(i) =~= list);
    }
}

/// The agents of a table are.
proof fn lemma_agents_are_good(t: Entries, section: Seq<char>)
    ensures
        agents_of(t, section) matches Ok(list) ==> good_agents(list),
{
    if let Ok(raw) = text_list(t, "java-agents"@, section) {
        lemma_good_agents(raw, section + ".java-agents"@, 0, seq![]);
    }
}

/// Agents are read again as they were.
proof fn lemma_agents_again(t: Entries, section: Seq<char>, list: Seq<(Seq<char>, Seq<char>)>)
    requires
        good_agents(list),
        match list_value(gas(list)) {
            Some(p) => entry(t, "java-agents"@) is Some && plain_is(
                entry(t, "java-agents"@)->0,
                p,
            ),
            None => entry(t, "java-agents"@) is None,
        },
    ensures
        agents_of(t, section) == Ok::<Seq<(Seq<char>, Seq<char>)>, Fault>(list),
{
    lemma_texts(t, "java-agents"@, section, gas(list));
    assert(list.take(0) =~= seq![]);
    lemma_agents_from(list, section + ".java-agents"@, 0, seq![]);
}

/// A template that is what its text says.
pub open spec fn good_template(t: TemplateModel) -> bool {
    template_of(t.raw) == Ok::<TemplateModel, Seq<char>>(t)
}

/// A template is read again as it was.
pub proof fn lemma_template_again(
    t: Entries,
    key: Seq<char>,
    section: Seq<char>,
    template: Option<TemplateModel>,
)
    requires
        template matches Some(x) ==> good_template(x),
        match raw_value(template) {
            Some(p) => entry(t, key) is Some && plain_is(entry(t, key)->0, p),
            None => entry(t, key) is None,
        },
    ensures
        optional_template(t, key, section) == Ok::<Option<TemplateModel>, Fault>(template),
{
    if let Some(x) = template {
        assert(entry(t, key)->0.text() == Some(x.raw));
    }
}

/// The variables of a JVM that jrs starts.
pub open spec fn good_jvm_env(env: Seq<(Seq<char>, TemplateModel)>, section: Seq<char>) -> bool {
    good_env(env) && env_apart(env) && env_fault_from(env, section, 0) is None
}

/// Where a JVM that jrs starts runs.
pub open spec fn good_jvm_cwd(cwd: Option<TemplateModel>, section: Seq<char>) -> bool {
    cwd matches Some(t) ==> good_template(t) && task_placeholder_fault(t, section + ".cwd"@) is None
        && classpath_from(t.placeholders(), 0) is None
}

/// What `[run]` can say.
pub open spec fn good_run(c: RunModel) -> bool {
    good_agents(c.java_agents) && good_jvm_env(c.env, "run"@) && good_jvm_cwd(c.cwd, "run"@)
}

/// What `[run]` was read to say, it can.
pub proof fn lemma_run_good(table: Entries, c: RunModel)
    requires
        sound(table),
        run_table(table) == Ok::<RunModel, Fault>(c),
    ensures
        good_run(c),
        env_unmarked(c.env),
{
    lemma_sound(table, "run"@);
    if let Ok(Some(t)) = subtable(table, "run"@) {
        lemma_agents_are_good(t, "run"@);
        lemma_env_is_good(t, "run"@, ""@);
        lemma_env_apart(t, "run"@, ""@, c.env);
    }
}

proof fn lemma_run_slots(c: RunModel)
    ensures
        ({
            let slots = run_slots(c);
            &&& slot_value(slots, "jvm-args"@, 0) == slots[0].1
            &&& slot_value(slots, "java-agents"@, 0) == slots[1].1
            &&& slot_value(slots, "env"@, 0) == slots[2].1
            &&& slot_value(slots, "cwd"@, 0) == slots[3].1
        }),
{
    reveal_strlit("jvm-args");
    reveal_strlit("java-agents");
    reveal_strlit("env");
    reveal_strlit("cwd");
    assert("jvm-args"@.len() == 8);
    assert("java-agents"@.len() == 11);
    assert("env"@.len() == 3 && "env"@[0] == 'e');
    assert("cwd"@.len() == 3 && "cwd"@[0] == 'c');
    reveal_with_fuel(slot_value, 5);
}

/// `[run]` is read again as it was.
pub proof fn lemma_run_again(t: Entries, c: RunModel)
    requires
        good_run(c),
        block_is(t, table_of(run_slots(c))),
    ensures
        run_of(t) == Ok::<RunModel, Fault>(c),
{
    let slots = run_slots(c);
    lemma_run_slots(c);
    lemma_in_table(t, slots, "jvm-args"@);
    lemma_in_table(t, slots, "java-agents"@);
    lemma_in_table(t, slots, "env"@);
    lemma_in_table(t, slots, "cwd"@);
    lemma_texts(t, "jvm-args"@, "run"@, c.jvm_args);
    lemma_agents_again(t, "run"@, c.java_agents);
    lemma_env_again(t, "run"@, ""@, c.env);
    lemma_template_again(t, "cwd"@, "run"@, c.cwd);
}

proof fn lemma_test_slots(c: TestModel)
    ensures
        ({
            let slots = test_slots(c);
            &&& slot_value(slots, "jvm-args"@, 0) == slots[0].1
            &&& slot_value(slots, "jacoco-version"@, 0) == slots[1].1
            &&& slot_value(slots, "java-agents"@, 0) == slots[2].1
            &&& slot_value(slots, "env"@, 0) == slots[3].1
            &&& slot_value(slots, "retries"@, 0) == slots[4].1
            &&& slot_value(slots, "forks"@, 0) == slots[5].1
            &&& slot_value(slots, "coverage-minimum"@, 0) == slots[6].1
        }),
{
    reveal_strlit("jvm-args");
    reveal_strlit("jacoco-version");
    reveal_strlit("java-agents");
    reveal_strlit("env");
    reveal_strlit("retries");
    reveal_strlit("forks");
    reveal_strlit("coverage-minimum");
    assert("jvm-args"@.len() == 8);
    assert("jacoco-version"@.len() == 14);
    assert("java-agents"@.len() == 11);
    assert("env"@.len() == 3);
    assert("retries"@.len() == 7);
    assert("forks"@.len() == 5);
    assert("coverage-minimum"@.len() == 16);
    reveal_with_fuel(slot_value, 8);
}

/// Minimums that a table can hold.
pub open spec fn good_minimums(list: Seq<CoverageMinimum>) -> bool {
    forall|i: int| 0 <= i < list.len() ==> (#[trigger] list[i]).basis_points <= 10000
}

proof fn lemma_good_minimums(t: Entries, i: int, out: Seq<CoverageMinimum>)
    requires
        0 <= i <= t.len(),
        good_minimums(out),
    ensures
        minimums_from(t, i, out) matches Ok(list) ==> good_minimums(list),
    decreases t.len() - i,
{
    if i < t.len() {
        match counter_named(t[i].0) {
            None => lemma_good_minimums(t, i + 1, out),
            Some(counter) => {
                if let TreeKind::Float(bits, _) = t[i].1.kind {
                    if unit_bits(bits) {
                        ratios_are_at_most_one(bits);
                    }
                }
                if let Ok(basis_points) = ratio_of(t[i].0, t[i].1) {
                    lemma_good_minimums(
                        t,
                        i + 1,
                        out.push(CoverageMinimum { counter, basis_points }),
                    );
                }
            },
        }
    }
}

/// The minimums of a table are.
pub proof fn lemma_minimums_are_good(t: Entries)
    ensures
        minimums(t) matches Ok(list) ==> good_minimums(list),
{
    if let Some(v) = entry(t, "coverage-minimum"@) {
        if let Some(inner) = v.table() {
            lemma_good_minimums(inner, 0, seq![]);
        }
    }
}

proof fn lemma_minimums_from(
    t: Entries,
    list: Seq<CoverageMinimum>,
    i: int,
    out: Seq<CoverageMinimum>,
)
    requires
        0 <= i <= list.len(),
        fields_are(t, minimum_fields(list)),
        good_minimums(list),
        out == list.take(i),
    ensures
        minimums_from(t, i, out) == Ok::<Seq<CoverageMinimum>, Fault>(list),
    decreases list.len() - i,
{
    if i < list.len() {
        let fields = minimum_fields(list);
        assert(t[i].0 == fields[i].0.name && scalar_is(t[i].1, fields[i].1));
        counter_keys_are_their_own(list[i].counter, t[i].0);
        nearest_ratios_are_read(t[i].1.kind->Float_0, list[i].basis_points as nat);
        assert(list.take(i + 1) =~= out.push(list[i]));
        lemma_minimums_from(t, list, i + 1, out.push(list[i]));
    } else {
        assert(list.take(i) =~= list);
    }
}

/// Minimums are read again as they were.
proof fn lemma_minimums_again(t: Entries, list: Seq<CoverageMinimum>)
    requires
        good_minimums(list),
        match minimum_value(list) {
            Some(p) => entry(t, "coverage-minimum"@) is Some && plain_is(
                entry(t, "coverage-minimum"@)->0,
                p,
            ),
            None => entry(t, "coverage-minimum"@) is None,
        },
    ensures
        minimums(t) == Ok::<Seq<CoverageMinimum>, Fault>(list),
{
    if list.len() > 0 {
        assert(list.take(0) =~= seq![]);
        lemma_minimums_from(entry(t, "coverage-minimum"@)->0.kind->Table_0, list, 0, seq![]);
    } else {
        assert(list =~= seq![]);
    }
}

/// What `[test]` can say.
pub open spec fn good_test(c: TestModel) -> bool {
    &&& good_agents(c.java_agents)
    &&& good_jvm_env(c.env, "test"@)
    &&& good_minimums(c.coverage_minimum)
    &&& minimums_apart(c.coverage_minimum)
}

/// What `[test]` was read to say, it can.
pub proof fn lemma_test_good(table: Entries, c: TestModel)
    requires
        sound(table),
        test_table(table) == Ok::<TestModel, Fault>(c),
    ensures
        good_test(c),
        env_unmarked(c.env),
{
    lemma_sound(table, "test"@);
    if let Ok(Some(t)) = subtable(table, "test"@) {
        lemma_agents_are_good(t, "test"@);
        lemma_env_is_good(t, "test"@, ""@);
        lemma_env_apart(t, "test"@, ""@, c.env);
        lemma_minimums_are_good(t);
        lemma_sound(t, "coverage-minimum"@);
        if let Some(v) = entry(t, "coverage-minimum"@) {
            lemma_minimums_apart(v.kind->Table_0, 0, seq![]);
        }
    }
}

/// `[test]` is read again as it was.
pub proof fn lemma_test_again(t: Entries, c: TestModel)
    requires
        good_test(c),
        block_is(t, table_of(test_slots(c))),
    ensures
        test_of(t) == Ok::<TestModel, Fault>(c),
{
    let slots = test_slots(c);
    lemma_test_slots(c);
    lemma_in_table(t, slots, "jvm-args"@);
    lemma_in_table(t, slots, "jacoco-version"@);
    lemma_in_table(t, slots, "java-agents"@);
    lemma_in_table(t, slots, "env"@);
    lemma_in_table(t, slots, "retries"@);
    lemma_in_table(t, slots, "forks"@);
    lemma_in_table(t, slots, "coverage-minimum"@);
    lemma_texts(t, "jvm-args"@, "test"@, c.jvm_args);
    lemma_agents_again(t, "test"@, c.java_agents);
    lemma_env_again(t, "test"@, ""@, c.env);
    assert(optional_text(t, "jacoco-version"@, "test"@) == Ok::<Option<Seq<char>>, Fault>(
        c.jacoco_version,
    ));
    assert(count_of(t, "retries"@, "test"@) == Ok::<u32, Fault>(c.retries));
    assert(count_of(t, "forks"@, "test"@) == Ok::<u32, Fault>(c.forks));
    lemma_minimums_again(t, c.coverage_minimum);
}

// ---- [package] -------------------------------------------------------------

/// Attributes that a table can name: each once.
pub open spec fn good_attributes(list: Seq<(Seq<char>, TemplateModel)>) -> bool {
    forall|i: int|
        0 <= i < list.len() ==> attribute_of((#[trigger] list[i]).0, list[i].1.raw) == Ok::<
            TemplateModel,
            Fault,
        >(list[i].1) && name_alike(list.take(i), list[i].0, 0) is None
}

proof fn lemma_good_attributes(t: Entries, i: int, out: Seq<(Seq<char>, TemplateModel)>)
    requires
        0 <= i <= t.len(),
        good_attributes(out),
    ensures
        attributes_from(t, i, out) matches Ok(list) ==> good_attributes(list),
    decreases t.len() - i,
{
    if i < t.len() {
        let (name, value) = t[i];
        if let Some(raw) = value.text() {
            if let Ok(template) = attribute_of(name, raw) {
                if name_alike(out, name, 0) is None {
                    let more = out.push((name, template));
                    assert forall|k: int| 0 <= k < more.len() implies attribute_of(
                        (#[trigger] more[k]).0,
                        more[k].1.raw,
                    ) == Ok::<TemplateModel, Fault>(more[k].1) && name_alike(
                        more.take(k),
                        more[k].0,
                        0,
                    ) is None by {
                        if k < out.len() {
                            assert(more[k] == out[k]);
                            assert(more.take(k) =~= out.take(k));
                        } else {
                            assert(more.take(k) =~= out);
                        }
                    }
                    lemma_good_attributes(t, i + 1, more);
                }
            }
        }
    }
}

/// The attributes of a table are.
pub proof fn lemma_attributes_are_good(t: Entries)
    ensures
        attribute_table(t) matches Ok(list) ==> good_attributes(list),
{
    if let Some(v) = entry(t, "manifest"@) {
        if let Some(inner) = v.table() {
            lemma_good_attributes(inner, 0, seq![]);
        }
    }
}

proof fn lemma_attributes_from(
    t: Entries,
    list: Seq<(Seq<char>, TemplateModel)>,
    i: int,
    out: Seq<(Seq<char>, TemplateModel)>,
)
    requires
        0 <= i <= list.len(),
        block_is(t, attribute_block(list)),
        good_attributes(list),
        out == list.take(i),
    ensures
        attributes_from(t, i, out) == Ok::<Seq<(Seq<char>, TemplateModel)>, Fault>(list),
    decreases list.len() - i,
{
    if i < list.len() {
        let b = attribute_block(list);
        assert(t[i].0 == b.lines[i].0.name);
        assert(b.lines[i] == attribute_line(list[i]));
        assert(t[i].1.text() == Some(list[i].1.raw));
        assert(list.take(i + 1) =~= out.push(list[i]));
        assert(out.push((t[i].0, list[i].1)) =~= out.push(list[i]));
        lemma_attributes_from(t, list, i + 1, out.push(list[i]));
    } else {
        assert(list.take(i) =~= list);
    }
}

proof fn lemma_package_slots(c: PackageModel)
    ensures
        ({
            let slots = package_slots(c);
            &&& slot_value(slots, "add-modules"@, 0) == slots[0].1
            &&& slot_value(slots, "native-image-args"@, 0) == slots[1].1
            &&& slot_value(slots, "manifest"@, 0) is None
        }),
        "add-modules"@ != "manifest"@,
        "native-image-args"@ != "manifest"@,
{
    reveal_strlit("add-modules");
    reveal_strlit("native-image-args");
    reveal_strlit("manifest");
    assert("add-modules"@.len() == 11);
    assert("native-image-args"@.len() == 17);
    assert("manifest"@.len() == 8);
    reveal_with_fuel(slot_value, 3);
}

/// `[package]` is read again as it was.
pub proof fn lemma_package_again(t: Entries, c: PackageModel)
    requires
        good_attributes(c.manifest),
        package_block(c) is Some,
        block_is(t, package_block(c)->0),
    ensures
        package_of(t) == Ok::<PackageModel, Fault>(c),
{
    let b = package_block(c)->0;
    let slots = package_slots(c);
    let n = b.lines.len() as int;
    lemma_package_slots(c);
    assert(begins(t, lines_of(slots, 2)));
    lemma_slot(t, slots, "add-modules"@);
    lemma_slot(t, slots, "native-image-args"@);
    lemma_slot(t, slots, "manifest"@);
    reveal_with_fuel(entry_from, 2);
    if c.manifest.len() > 0 {
        let rest = t.skip(n);
        assert(rest[0] == t[n]);
        assert(b.inner[0] == ("manifest"@, attribute_block(c.manifest)));
        assert(t[n].0 == "manifest"@);
        assert(c.manifest.take(0) =~= seq![]);
        lemma_attributes_from(t[n].1.kind->Table_0, c.manifest, 0, seq![]);
    } else {
        assert(c.manifest =~= seq![]);
    }
    lemma_texts(t, "add-modules"@, "package"@, c.add_modules);
    lemma_texts(t, "native-image-args"@, "package"@, c.native_image_args);
}

// ---- languages -------------------------------------------------------------

proof fn lemma_language_slots(c: LanguageModel)
    ensures
        ({
            let slots = language_slots(c);
            &&& slot_value(slots, "version"@, 0) == slots[0].1
            &&& slot_value(slots, "source-dir"@, 0) == slots[1].1
            &&& slot_value(slots, "test-dir"@, 0) == slots[2].1
            &&& slot_value(slots, c.language.args_word(), 0) == slots[3].1
            &&& slot_value(slots, "compiler-jvm-args"@, 0) == slots[4].1
        }),
{
    reveal_strlit("version");
    reveal_strlit("source-dir");
    reveal_strlit("test-dir");
    reveal_strlit("javac-args");
    reveal_strlit("kotlinc-args");
    reveal_strlit("scalac-args");
    reveal_strlit("groovyc-args");
    reveal_strlit("compiler-jvm-args");
    assert("version"@.len() == 7);
    assert("source-dir"@.len() == 10 && "source-dir"@[0] == 's');
    assert("test-dir"@.len() == 8);
    assert("javac-args"@.len() == 10 && "javac-args"@[0] == 'j');
    assert("kotlinc-args"@.len() == 12 && "kotlinc-args"@[0] == 'k');
    assert("scalac-args"@.len() == 11);
    assert("groovyc-args"@.len() == 12 && "groovyc-args"@[0] == 'g');
    assert("compiler-jvm-args"@.len() == 17);
    reveal_with_fuel(slot_value, 6);
}

/// What a language's table can say.
pub open spec fn good_language(c: LanguageModel) -> bool {
    &&& trimmed(c.version) == c.version
    &&& c.version.len() > 0
    &&& !range(c.version)
    &&& c.language.refusal(c.version) is None
    &&& good_dir(c.source_dir)
    &&& good_dir(c.test_dir)
}

/// What a language's table was read to say, it can.
proof fn lemma_language_good(t: Entries, language: Language, c: LanguageModel)
    requires
        language_of(language, t) == Ok::<LanguageModel, Fault>(c),
    ensures
        good_language(c),
        c.language == language,
{
    lemma_trim_once(entry(t, "version"@)->0.text()->0);
}

/// A language's table is read again as it was, its directories spelled anew.
proof fn lemma_language_again(t: Entries, c: LanguageModel)
    requires
        good_language(c),
        block_is(t, table_of(language_slots(c))),
    ensures
        language_of(c.language, t) == Ok::<LanguageModel, Fault>(respelled_language(c)),
        same_language(respelled_language(c), c),
{
    let slots = language_slots(c);
    let language = c.language;
    let key = language.word();
    lemma_language_slots(c);
    lemma_in_table(t, slots, "version"@);
    lemma_in_table(t, slots, "source-dir"@);
    lemma_in_table(t, slots, "test-dir"@);
    lemma_in_table(t, slots, language.args_word());
    lemma_in_table(t, slots, "compiler-jvm-args"@);
    lemma_path(t, "source-dir"@, "src/main/"@ + key, key, c.source_dir);
    lemma_path(t, "test-dir"@, "src/test/"@ + key, key, c.test_dir);
    lemma_texts(t, language.args_word(), key, c.compiler_args);
    lemma_texts(t, "compiler-jvm-args"@, key, c.compiler_jvm_args);
    assert(entry(t, "version"@)->0.text() == Some(c.version));
    assert(language_version(language, t) == Ok::<Seq<char>, Fault>(c.version));
}

/// What a document says of a language, where it can be read.
pub open spec fn language_in(table: Entries, language: Language) -> Option<LanguageModel> {
    match subtable(table, language.word()) {
        Ok(Some(t)) => match language_of(language, t) {
            Ok(c) => Some(c),
            Err(_) => None,
        },
        _ => None,
    }
}

proof fn lemma_languages_read(table: Entries)
    ensures
        languages_from(table, 0, seq![], seq![]) matches Ok((list, _)) ==> list == one_language(
            language_in(table, Language::Kotlin),
        ) + one_language(language_in(table, Language::Scala)) + one_language(
            language_in(table, Language::Groovy),
        ),
{
    reveal_with_fuel(languages_from, 4);
    let k = language_in(table, Language::Kotlin);
    let s = language_in(table, Language::Scala);
    let g = language_in(table, Language::Groovy);
    if let Ok((list, _)) = languages_from(table, 0, seq![], seq![]) {
        assert(list =~= one_language(k) + one_language(s) + one_language(g));
    }
}

proof fn lemma_found_languages(
    list: Seq<LanguageModel>,
    k: Option<LanguageModel>,
    s: Option<LanguageModel>,
    g: Option<LanguageModel>,
)
    requires
        list == one_language(k) + one_language(s) + one_language(g),
        k matches Some(c) ==> c.language is Kotlin,
        s matches Some(c) ==> c.language is Scala,
        g matches Some(c) ==> c.language is Groovy,
    ensures
        language_at(list, Language::Kotlin, 0) == k,
        language_at(list, Language::Scala, 0) == s,
        language_at(list, Language::Groovy, 0) == g,
{
    reveal_with_fuel(language_at, 4);
}

/// The table of a language in a document is the one that was written.
pub open spec fn language_written(
    table: Entries,
    list: Seq<LanguageModel>,
    language: Language,
) -> bool {
    match language_at(list, language, 0) {
        Some(c) => entry(table, language.word()) is Some && entry(
            table,
            language.word(),
        )->0.kind is Table && block_is(
            entry(table, language.word())->0.kind->Table_0,
            table_of(language_slots(c)),
        ),
        None => entry(table, language.word()) is None,
    }
}

/// Languages that were read come in their order.
pub proof fn lemma_languages_in_order(table: Entries, list: Seq<LanguageModel>)
    requires
        languages_from(table, 0, seq![], seq![]) matches Ok((l, _)) && l == list,
    ensures
        languages_in_order(list),
        language_at(list, Language::Kotlin, 0) == language_in(table, Language::Kotlin),
        language_at(list, Language::Scala, 0) == language_in(table, Language::Scala),
        language_at(list, Language::Groovy, 0) == language_in(table, Language::Groovy),
{
    lemma_languages_read(table);
    lemma_found_languages(
        list,
        language_in(table, Language::Kotlin),
        language_in(table, Language::Scala),
        language_in(table, Language::Groovy),
    );
}

/// What the languages' tables can say, each language's once and in their order.
pub open spec fn good_languages(list: Seq<LanguageModel>) -> bool {
    languages_in_order(list) && forall|i: int|
        0 <= i < list.len() ==> good_language(#[trigger] list[i])
}

proof fn lemma_one_good(table: Entries, language: Language)
    ensures
        language_in(table, language) matches Some(c) ==> good_language(c),
{
    if let Ok(Some(t)) = subtable(table, language.word()) {
        if let Ok(c) = language_of(language, t) {
            lemma_language_good(t, language, c);
        }
    }
}

/// What the languages' tables were read to say, they can.
pub proof fn lemma_languages_good(table: Entries, list: Seq<LanguageModel>)
    requires
        languages_from(table, 0, seq![], seq![]) matches Ok((l, _)) && l == list,
    ensures
        good_languages(list),
{
    lemma_languages_in_order(table, list);
    lemma_languages_read(table);
    lemma_one_good(table, Language::Kotlin);
    lemma_one_good(table, Language::Scala);
    lemma_one_good(table, Language::Groovy);
}

proof fn lemma_language_found(list: Seq<LanguageModel>, language: Language, i: int)
    requires
        0 <= i,
        forall|k: int| 0 <= k < list.len() ==> good_language(#[trigger] list[k]),
    ensures
        language_at(list, language, i) matches Some(c) ==> good_language(c) && c.language
            == language,
    decreases list.len() - i,
{
    if i < list.len() {
        lemma_language_found(list, language, i + 1);
    }
}

proof fn lemma_language_in(table: Entries, list: Seq<LanguageModel>, l: Language)
    requires
        good_languages(list),
        language_written(table, list, l),
    ensures
        match subtable(table, l.word()) {
            Err(_) => false,
            Ok(None) => language_at(list, l, 0) is None,
            Ok(Some(t)) => language_at(list, l, 0) is Some && language_of(l, t) == Ok::<
                LanguageModel,
                Fault,
            >(respelled_language(language_at(list, l, 0)->0)),
        },
        language_at(list, l, 0) matches Some(c) ==> same_language(respelled_language(c), c),
{
    lemma_language_found(list, l, 0);
    if let Some(c) = language_at(list, l, 0) {
        let t = entry(table, l.word())->0.kind->Table_0;
        assert(subtable(table, l.word()) == Ok::<Option<Entries>, Fault>(Some(t)));
        lemma_language_again(t, c);
    }
}

spec fn respelled_option(c: Option<LanguageModel>) -> Option<LanguageModel> {
    match c {
        Some(c) => Some(respelled_language(c)),
        None => None,
    }
}

/// The languages are read again as they were, their directories spelled anew.
pub proof fn lemma_languages_again(table: Entries, list: Seq<LanguageModel>)
    requires
        good_languages(list),
        language_written(table, list, Language::Kotlin),
        language_written(table, list, Language::Scala),
        language_written(table, list, Language::Groovy),
    ensures
        languages_from(table, 0, seq![], seq![]) matches Ok((l, _)) && l == respelled_languages(
            list,
        ),
        forall|i: int|
            0 <= i < list.len() ==> same_language(
                #[trigger] respelled_languages(list)[i],
                list[i],
            ),
{
    let k = language_at(list, Language::Kotlin, 0);
    let s = language_at(list, Language::Scala, 0);
    let g = language_at(list, Language::Groovy, 0);
    lemma_language_in(table, list, Language::Kotlin);
    lemma_language_in(table, list, Language::Scala);
    lemma_language_in(table, list, Language::Groovy);
    lemma_languages_read(table);
    assert(language_in(table, Language::Kotlin) == respelled_option(k));
    assert(language_in(table, Language::Scala) == respelled_option(s));
    assert(language_in(table, Language::Groovy) == respelled_option(g));
    reveal_with_fuel(languages_from, 4);
    assert(languages_from(table, 0, seq![], seq![]) is Ok);
    assert(one_language(respelled_option(k)) + one_language(respelled_option(s)) + one_language(
        respelled_option(g),
    ) =~= respelled_languages(list));
    assert forall|i: int| 0 <= i < list.len() implies same_language(
        #[trigger] respelled_languages(list)[i],
        list[i],
    ) by {
        let a = one_language(k).len() as int;
        let b = one_language(s).len() as int;
        if i < a {
            assert(list[i] == k->0);
        } else if i < a + b {
            assert(list[i] == s->0);
        } else {
            assert(list[i] == g->0);
        }
    }
}

// ---- [obfuscate] -----------------------------------------------------------

/// What `[obfuscate]` can say.
pub open spec fn good_obfuscate(c: Option<ObfuscateModel>) -> bool {
    c matches Some(c) ==> trimmed(c.version).len() > 0
}

/// `[obfuscate]` is read again as it was.
pub proof fn lemma_obfuscate_again(t: Entries, c: ObfuscateModel)
    requires
        good_obfuscate(Some(c)),
        block_is(t, table_of(obfuscate_slots(c))),
    ensures
        obfuscate_of(t) == Ok::<ObfuscateModel, Fault>(c),
{
    let slots = obfuscate_slots(c);
    reveal_strlit("version");
    reveal_strlit("keep");
    reveal_strlit("proguard-args");
    assert("version"@.len() == 7);
    assert("keep"@.len() == 4);
    assert("proguard-args"@.len() == 13);
    reveal_with_fuel(slot_value, 4);
    lemma_in_table(t, slots, "version"@);
    lemma_in_table(t, slots, "keep"@);
    lemma_in_table(t, slots, "proguard-args"@);
    assert(required_text(t, "version"@, "obfuscate"@) == Ok::<Seq<char>, Fault>(c.version));
    lemma_texts(t, "keep"@, "obfuscate"@, c.keep);
    lemma_texts(t, "proguard-args"@, "obfuscate"@, c.proguard_args);
}

} // verus!
