//! A manifest as a plain document, and that it is written as one.

use crate::dependency::{DependencyModel, ManagedModel, RepositoryModel};
use crate::coord::ga_text;
use crate::coverage::CoverageMinimum;
use crate::language::Language;
use crate::manifest::{
    JavaModel, LanguageModel, ManifestModel, ObfuscateModel, PackageModel, RunModel, TestModel,
    language_at,
};
use crate::paths::{resources_beside, slashed};
use crate::render::{
    action_line, and_field, and_switches, attribute_lines, comment_lines, dependency_lines,
    dependency_section, each_minimum, each_variable, entry_of, env_line, extra, gas, header_section,
    hook_lines, hook_section, java_section, language_section, language_sections, line_of, list_line,
    long_fields, managed_line, managed_lines, managed_section, minimum_line, obfuscate_section,
    package_section, project_section, quoted, quoted_list, raws, reference_words, rendered,
    repository_line, repository_lines, repository_section, run_section, table_classifier,
    task_section, task_sections, test_section, text_line,
};
use crate::sheet::{
    block_text, field_texts, inner_text, key_text, lines_text, plain_text, scalar_text, sheet_text,
    Block, Key, Plain, Scalar, Sheet,
};
use crate::task::{ActionModel, HookLists, TaskModel};
use crate::template::TemplateModel;
use crate::text::{joined, line_seq};
use vstd::prelude::*;

verus! {

// ---- slots -----------------------------------------------------------------

/// The keys of a table in their order, with what those that are written say.
pub type Slots = Seq<(Seq<char>, Option<Plain>)>;

/// The lines of the first `n` slots.
pub open spec fn lines_of(slots: Slots, n: int) -> Seq<(Key, Plain)>
    decreases n,
{
    if n <= 0 || n > slots.len() {
        seq![]
    } else {
        match slots[n - 1].1 {
            Some(v) => lines_of(slots, n - 1).push((Key { name: slots[n - 1].0, quoted: false }, v)),
            None => lines_of(slots, n - 1),
        }
    }
}

/// A table with a header and the lines of its slots.
pub open spec fn table_of(slots: Slots) -> Block {
    Block { header: true, lines: lines_of(slots, slots.len() as int), inner: seq![] }
}

pub open spec fn slot_text(slot: (Seq<char>, Option<Plain>)) -> Seq<char> {
    match slot.1 {
        Some(v) => line_of(slot.0, plain_text(v)),
        None => ""@,
    }
}

pub open spec fn slot_texts(slots: Slots) -> Seq<Seq<char>> {
    Seq::new(slots.len(), |i: int| slot_text(slots[i]))
}

/// The first `n` parts, one after another, behind `start`.
pub open spec fn chain(start: Seq<char>, parts: Seq<Seq<char>>, n: int) -> Seq<char>
    decreases n,
{
    if n <= 0 {
        start
    } else {
        chain(start, parts, n - 1) + parts[n - 1]
    }
}

pub proof fn lemma_chain(start: Seq<char>, parts: Seq<Seq<char>>, n: int)
    ensures
        chain(start, parts, n) == start + chain(seq![], parts, n),
    decreases n,
{
    if n <= 0 {
        assert(start + Seq::<char>::empty() =~= start);
    } else {
        lemma_chain(start, parts, n - 1);
        assert(chain(start, parts, n) =~= start + chain(seq![], parts, n));
    }
}

proof fn lemma_more_lines(lines: Seq<(Key, Plain)>, last: (Key, Plain), n: int)
    requires
        n <= lines.len(),
    ensures
        lines_text(lines.push(last), n) == lines_text(lines, n),
    decreases n,
{
    if n > 0 {
        lemma_more_lines(lines, last, n - 1);
    }
}

proof fn lemma_slot_lines(slots: Slots, n: int)
    requires
        0 <= n <= slots.len(),
    ensures
        lines_text(lines_of(slots, n), lines_of(slots, n).len() as int) == chain(
            seq![],
            slot_texts(slots),
            n,
        ),
    decreases n,
{
    if n > 0 {
        lemma_slot_lines(slots, n - 1);
        let before = lines_of(slots, n - 1);
        if let Some(v) = slots[n - 1].1 {
            let line = (Key { name: slots[n - 1].0, quoted: false }, v);
            lemma_more_lines(before, line, before.len() as int);
            assert(lines_of(slots, n)[before.len() as int] == line);
        } else {
            let text = chain(seq![], slot_texts(slots), n - 1);
            reveal_strlit("");
            assert(text + ""@ =~= text);
        }
    }
}

/// A table of slots is its header and the text of each slot.
proof fn lemma_table(path: Seq<char>, slots: Slots, header: Seq<char>)
    requires
        header == "\n["@ + path + "]\n"@,
    ensures
        block_text(path, table_of(slots)) == chain(header, slot_texts(slots), slots.len() as int),
{
    let n = slots.len() as int;
    lemma_slot_lines(slots, n);
    lemma_chain(header, slot_texts(slots), n);
    let b = table_of(slots);
    assert(inner_text(path, b.inner, 0) == Seq::<char>::empty());
    assert(block_text(path, b) =~= header + lines_text(b.lines, b.lines.len() as int));
}

// ---- values ----------------------------------------------------------------

pub open spec fn text_value(s: Option<Seq<char>>) -> Option<Plain> {
    match s {
        Some(s) => Some(Plain::One(Scalar::Text(s))),
        None => None,
    }
}

pub open spec fn number_value(n: Option<u32>) -> Option<Plain> {
    match n {
        Some(n) => Some(Plain::One(Scalar::Number(n as nat))),
        None => None,
    }
}

pub open spec fn list_value(items: Seq<Seq<char>>) -> Option<Plain> {
    if items.len() > 0 {
        Some(Plain::One(Scalar::Texts(items)))
    } else {
        None
    }
}

pub open spec fn path_value(path: Seq<char>, default: Seq<char>) -> Option<Plain> {
    if slashed(path) != default {
        Some(Plain::One(Scalar::Text(slashed(path))))
    } else {
        None
    }
}

pub open spec fn env_fields(env: Seq<(Seq<char>, TemplateModel)>) -> Seq<(Key, Scalar)> {
    Seq::new(
        env.len(),
        |i: int| (Key { name: env[i].0, quoted: true }, Scalar::Text(env[i].1.raw)),
    )
}

pub open spec fn env_value(env: Seq<(Seq<char>, TemplateModel)>) -> Option<Plain> {
    if env.len() > 0 {
        Some(Plain::Fields(env_fields(env)))
    } else {
        None
    }
}

pub open spec fn raw_value(t: Option<TemplateModel>) -> Option<Plain> {
    match t {
        Some(t) => Some(Plain::One(Scalar::Text(t.raw))),
        None => None,
    }
}

proof fn lemma_env(env: Seq<(Seq<char>, TemplateModel)>)
    ensures
        slot_text(("env"@, env_value(env))) == env_line(env),
{
    assert(field_texts(env_fields(env)) =~= each_variable(env));
}

// ---- the tables ------------------------------------------------------------

pub open spec fn project_slots(m: ManifestModel) -> Slots {
    seq![
        ("name"@, text_value(Some(m.name))),
        ("version"@, text_value(Some(m.version))),
        ("main-class"@, text_value(m.main_class)),
        ("source-dir"@, path_value(m.source_dir, "src/main/java"@)),
        ("test-dir"@, path_value(m.test_dir, "src/test/java"@)),
        ("resource-dir"@, path_value(m.resource_dir, "src/main/resources"@)),
        ("target-dir"@, path_value(m.target_dir, "target"@)),
        (
            "test-resource-dir"@,
            path_value(m.test_resource_dir, slashed(resources_beside(m.test_dir))),
        ),
        ("jrs-version"@, text_value(m.jrs_version)),
    ]
}

#[verifier::rlimit(30)]
proof fn lemma_project(m: ManifestModel)
    ensures
        block_text("project"@, table_of(project_slots(m))) == "\n"@ + project_section(m),
{
    reveal(project_section);
    reveal_strlit("\n[");
    reveal_strlit("project");
    reveal_strlit("]\n");
    reveal_strlit("[project]\n");
    reveal_strlit("\n");
    let head = "\n"@ + "[project]\n"@;
    assert(head =~= "\n["@ + "project"@ + "]\n"@);
    let slots = project_slots(m);
    let parts = slot_texts(slots);
    lemma_table("project"@, slots, head);
    lemma_chain(head, parts, 9);
    let h = "[project]\n"@;
    lemma_chain(h, parts, 9);
    assert(chain(h, parts, 0) == h);
    assert(chain(h, parts, 1) == chain(h, parts, 0) + parts[0]);
    assert(chain(h, parts, 2) == chain(h, parts, 1) + parts[1]);
    assert(chain(h, parts, 3) == chain(h, parts, 2) + parts[2]);
    assert(chain(h, parts, 4) == chain(h, parts, 3) + parts[3]);
    assert(chain(h, parts, 5) == chain(h, parts, 4) + parts[4]);
    assert(chain(h, parts, 6) == chain(h, parts, 5) + parts[5]);
    assert(chain(h, parts, 7) == chain(h, parts, 6) + parts[6]);
    assert(chain(h, parts, 8) == chain(h, parts, 7) + parts[7]);
    assert(chain(h, parts, 9) == chain(h, parts, 8) + parts[8]);
    assert(chain(h, parts, 9) == project_section(m));
    assert("\n"@ + ("[project]\n"@ + chain(seq![], parts, 9)) =~= head + chain(seq![], parts, 9));
}

pub open spec fn java_slots(j: JavaModel) -> Slots {
    seq![
        ("source"@, number_value(j.source)),
        (
            "target"@,
            number_value(
                if j.target == j.source {
                    None
                } else {
                    j.target
                },
            ),
        ),
        (
            "encoding"@,
            text_value(
                if j.encoding != "UTF-8"@ {
                    Some(j.encoding)
                } else {
                    None
                },
            ),
        ),
        ("javac-args"@, list_value(j.javac_args)),
        ("javadoc-args"@, list_value(j.javadoc_args)),
        ("jdk"@, number_value(j.jdk)),
    ]
}

pub open spec fn java_block(j: JavaModel) -> Option<Block> {
    if j.source is Some || j.target is Some || j.encoding != "UTF-8"@ || j.javac_args.len() > 0
        || j.javadoc_args.len() > 0 || j.jdk is Some {
        Some(table_of(java_slots(j)))
    } else {
        None
    }
}

pub open spec fn top_text(top: (Seq<char>, Option<Block>)) -> Seq<char> {
    match top.1 {
        Some(b) => block_text(top.0, b),
        None => ""@,
    }
}

proof fn lemma_java(j: JavaModel)
    ensures
        top_text(("java"@, java_block(j))) == java_section(j),
{
    reveal(java_section);
    reveal_strlit("\n[");
    reveal_strlit("java");
    reveal_strlit("]\n");
    reveal_strlit("\n[java]\n");
    assert("\n[java]\n"@ =~= "\n["@ + "java"@ + "]\n"@);
    lemma_table("java"@, java_slots(j), "\n[java]\n"@);
    reveal_with_fuel(chain, 7);
}

pub open spec fn language_slots(c: LanguageModel) -> Slots {
    let key = c.language.word();
    seq![
        ("version"@, text_value(Some(c.version))),
        ("source-dir"@, path_value(c.source_dir, "src/main/"@ + key)),
        ("test-dir"@, path_value(c.test_dir, "src/test/"@ + key)),
        (c.language.args_word(), list_value(c.compiler_args)),
        ("compiler-jvm-args"@, list_value(c.compiler_jvm_args)),
    ]
}

pub open spec fn language_block(c: Option<LanguageModel>) -> Option<Block> {
    match c {
        Some(c) => Some(table_of(language_slots(c))),
        None => None,
    }
}

proof fn lemma_language(c: LanguageModel)
    ensures
        block_text(c.language.word(), table_of(language_slots(c))) == language_section(c),
{
    reveal(language_section);
    let key = c.language.word();
    lemma_table(key, language_slots(c), "\n["@ + key + "]\n"@);
    reveal_with_fuel(chain, 6);
}

pub open spec fn run_slots(c: RunModel) -> Slots {
    seq![
        ("jvm-args"@, list_value(c.jvm_args)),
        ("java-agents"@, list_value(gas(c.java_agents))),
        ("env"@, env_value(c.env)),
        ("cwd"@, raw_value(c.cwd)),
    ]
}

pub open spec fn run_block(c: RunModel) -> Option<Block> {
    if c.jvm_args.len() > 0 || c.java_agents.len() > 0 || c.env.len() > 0 || c.cwd is Some {
        Some(table_of(run_slots(c)))
    } else {
        None
    }
}

proof fn lemma_run(c: RunModel)
    ensures
        top_text(("run"@, run_block(c))) == run_section(c),
{
    reveal(run_section);
    reveal_strlit("\n[");
    reveal_strlit("run");
    reveal_strlit("]\n");
    reveal_strlit("\n[run]\n");
    assert("\n[run]\n"@ =~= "\n["@ + "run"@ + "]\n"@);
    lemma_table("run"@, run_slots(c), "\n[run]\n"@);
    lemma_env(c.env);
    reveal_with_fuel(chain, 5);
    let a = "\n[run]\n"@ + list_line("jvm-args"@, c.jvm_args);
    let b = list_line("java-agents"@, gas(c.java_agents));
    assert(a + b + env_line(c.env) =~= a + (b + env_line(c.env)));
}

pub open spec fn retries_of(c: TestModel) -> Option<u32> {
    if c.retries > 0 {
        Some(c.retries)
    } else {
        None
    }
}

pub open spec fn forks_of(c: TestModel) -> Option<u32> {
    if c.forks > 0 {
        Some(c.forks)
    } else {
        None
    }
}

pub open spec fn minimum_fields(list: Seq<CoverageMinimum>) -> Seq<(Key, Scalar)> {
    Seq::new(
        list.len(),
        |i: int|
            (
                Key { name: list[i].counter.word(), quoted: false },
                Scalar::Ratio(list[i].basis_points as nat),
            ),
    )
}

pub open spec fn minimum_value(list: Seq<CoverageMinimum>) -> Option<Plain> {
    if list.len() > 0 {
        Some(Plain::Fields(minimum_fields(list)))
    } else {
        None
    }
}

proof fn lemma_minimums(list: Seq<CoverageMinimum>)
    ensures
        slot_text(("coverage-minimum"@, minimum_value(list))) == minimum_line(list),
{
    assert(field_texts(minimum_fields(list)) =~= each_minimum(list));
}

pub open spec fn test_slots(c: TestModel) -> Slots {
    seq![
        ("jvm-args"@, list_value(c.jvm_args)),
        ("jacoco-version"@, text_value(c.jacoco_version)),
        ("java-agents"@, list_value(gas(c.java_agents))),
        ("env"@, env_value(c.env)),
        ("retries"@, number_value(retries_of(c))),
        ("forks"@, number_value(forks_of(c))),
        ("coverage-minimum"@, minimum_value(c.coverage_minimum)),
    ]
}

pub open spec fn test_block(c: TestModel) -> Option<Block> {
    if c.jvm_args.len() > 0 || c.jacoco_version is Some || c.java_agents.len() > 0 || c.env.len()
        > 0 || c.retries > 0 || c.forks > 0 || c.coverage_minimum.len() > 0 {
        Some(table_of(test_slots(c)))
    } else {
        None
    }
}

proof fn lemma_test(c: TestModel)
    ensures
        top_text(("test"@, test_block(c))) == test_section(c),
{
    reveal(test_section);
    reveal_strlit("\n[");
    reveal_strlit("test");
    reveal_strlit("]\n");
    reveal_strlit("\n[test]\n");
    assert("\n[test]\n"@ =~= "\n["@ + "test"@ + "]\n"@);
    lemma_table("test"@, test_slots(c), "\n[test]\n"@);
    lemma_env(c.env);
    lemma_minimums(c.coverage_minimum);
    reveal_with_fuel(chain, 8);
    let a = "\n[test]\n"@ + list_line("jvm-args"@, c.jvm_args) + text_line(
        "jacoco-version"@,
        c.jacoco_version,
    );
    let b = list_line("java-agents"@, gas(c.java_agents));
    assert(a + b + env_line(c.env) =~= a + (b + env_line(c.env)));
}

// ---- packages, versions and repositories -----------------------------------

/// A table of lines, in the order they come in.
pub open spec fn lined(lines: Seq<(Key, Plain)>) -> Block {
    Block { header: true, lines, inner: seq![] }
}

proof fn lemma_lined(path: Seq<char>, lines: Seq<(Key, Plain)>)
    ensures
        block_text(path, lined(lines)) == "\n["@ + path + "]\n"@ + lines_text(
            lines,
            lines.len() as int,
        ),
{
    let b = lined(lines);
    assert(inner_text(path, b.inner, 0) == Seq::<char>::empty());
    let own = "\n["@ + path + "]\n"@ + lines_text(lines, lines.len() as int);
    assert(own + Seq::<char>::empty() =~= own);
}

pub open spec fn attribute_line(a: (Seq<char>, TemplateModel)) -> (Key, Plain) {
    (Key { name: a.0, quoted: false }, Plain::One(Scalar::Text(a.1.raw)))
}

pub open spec fn attribute_block(list: Seq<(Seq<char>, TemplateModel)>) -> Block {
    lined(Seq::new(list.len(), |i: int| attribute_line(list[i])))
}

pub open spec fn package_slots(c: PackageModel) -> Slots {
    seq![
        ("add-modules"@, list_value(c.add_modules)),
        ("native-image-args"@, list_value(c.native_image_args)),
    ]
}

pub open spec fn package_block(c: PackageModel) -> Option<Block> {
    let own = c.add_modules.len() > 0 || c.native_image_args.len() > 0;
    if own || c.manifest.len() > 0 {
        Some(
            Block {
                header: own,
                lines: lines_of(package_slots(c), 2),
                inner: if c.manifest.len() > 0 {
                    seq![("manifest"@, attribute_block(c.manifest))]
                } else {
                    seq![]
                },
            },
        )
    } else {
        None
    }
}

proof fn lemma_attributes(list: Seq<(Seq<char>, TemplateModel)>, n: int)
    requires
        0 <= n <= list.len(),
    ensures
        lines_text(attribute_block(list).lines, n) == attribute_lines(list, n),
    decreases n,
{
    if n > 0 {
        lemma_attributes(list, n - 1);
    } else {
        reveal_strlit("");
        assert(attribute_lines(list, n) =~= seq![]);
    }
}

proof fn lemma_package(c: PackageModel)
    ensures
        top_text(("package"@, package_block(c))) == package_section(c),
{
    reveal(package_section);
    reveal_strlit("");
    reveal_strlit("\n[");
    reveal_strlit("package");
    reveal_strlit(".");
    reveal_strlit("manifest");
    reveal_strlit("]\n");
    reveal_strlit("\n[package]\n");
    reveal_strlit("\n[package.manifest]\n");
    let slots = package_slots(c);
    let path = "package"@ + "."@ + "manifest"@;
    assert("\n[package]\n"@ =~= "\n["@ + "package"@ + "]\n"@);
    assert("\n[package.manifest]\n"@ =~= "\n["@ + path + "]\n"@);
    lemma_slot_lines(slots, 2);
    lemma_chain("\n[package]\n"@, slot_texts(slots), 2);
    reveal_with_fuel(chain, 3);
    lemma_attributes(c.manifest, c.manifest.len() as int);
    lemma_lined(path, attribute_block(c.manifest).lines);
    reveal_with_fuel(inner_text, 2);
    if let Some(b) = package_block(c) {
        let own = if b.header {
            "\n["@ + "package"@ + "]\n"@ + lines_text(b.lines, b.lines.len() as int)
        } else {
            seq![]
        };
        let below = inner_text("package"@, b.inner, b.inner.len() as int);
        assert(block_text("package"@, b) == own + below);
        if c.manifest.len() > 0 {
            assert(below =~= block_text(path, attribute_block(c.manifest)));
        } else {
            assert(below =~= ""@);
        }
        if !b.header {
            assert(own =~= ""@);
        }
    } else {
        assert(""@ + ""@ =~= ""@);
    }
}

pub open spec fn bare_key(name: Seq<char>) -> Key {
    Key { name, quoted: false }
}

/// The fields, and a switch that is on.
pub open spec fn switched(fields: Seq<(Key, Scalar)>, on: bool, name: Seq<char>) -> Seq<
    (Key, Scalar),
> {
    if on {
        fields.push((bare_key(name), Scalar::Flag(true)))
    } else {
        fields
    }
}

pub open spec fn switches(fields: Seq<(Key, Scalar)>, d: DependencyModel) -> Seq<(Key, Scalar)> {
    switched(switched(fields, d.compile_only, "compile-only"@), d.runtime_only, "runtime-only"@)
}

/// The fields of the long form of a dependency.
pub open spec fn long_plain(d: DependencyModel) -> Seq<(Key, Scalar)> {
    let fields: Seq<(Key, Scalar)> = if d.managed() {
        seq![]
    } else {
        seq![(bare_key("version"@), Scalar::Text(d.version))]
    };
    let fields = match table_classifier(d) {
        Some(c) => fields.push((bare_key("classifier"@), Scalar::Text(c))),
        None => fields,
    };
    let fields = if d.exclusions.len() > 0 {
        fields.push((bare_key("exclusions"@), Scalar::Texts(gas(d.exclusions))))
    } else {
        fields
    };
    switches(fields, d)
}

/// The fields of a local jar.
pub open spec fn local_plain(d: DependencyModel, path: Seq<char>) -> Seq<(Key, Scalar)> {
    switches(seq![(bare_key("path"@), Scalar::Text(path))], d)
}

pub open spec fn dependency_plain(d: DependencyModel) -> Plain {
    match d.path {
        Some(path) => Plain::Fields(local_plain(d, path)),
        None => if d.plain() && table_classifier(d) is None && !d.managed() {
            Plain::One(Scalar::Text(d.version))
        } else {
            Plain::Fields(long_plain(d))
        },
    }
}

proof fn lemma_switches(fields: Seq<(Key, Scalar)>, d: DependencyModel)
    ensures
        field_texts(switches(fields, d)) == and_switches(field_texts(fields), d),
{
    reveal_strlit("compile-only");
    reveal_strlit("runtime-only");
    reveal_strlit(" = ");
    reveal_strlit("true");
    reveal_strlit("compile-only = true");
    reveal_strlit("runtime-only = true");
    assert("compile-only = true"@ =~= "compile-only"@ + " = "@ + "true"@);
    assert("runtime-only = true"@ =~= "runtime-only"@ + " = "@ + "true"@);
    assert(field_texts(switches(fields, d)) =~= and_switches(field_texts(fields), d));
}

proof fn lemma_field(fields: Seq<(Key, Scalar)>, key: Seq<char>, value: Scalar, text: Seq<char>)
    requires
        text == key + " = "@,
    ensures
        field_texts(fields.push((bare_key(key), value))) == field_texts(fields).push(
            text + scalar_text(value),
        ),
{
    assert(field_texts(fields.push((bare_key(key), value))) =~= field_texts(fields).push(
        text + scalar_text(value),
    ));
}

proof fn lemma_dependency(d: DependencyModel)
    ensures
        plain_text(dependency_plain(d)) == entry_of(d).1,
{
    reveal_strlit(" = ");
    reveal_strlit("path");
    reveal_strlit("path = ");
    reveal_strlit("version");
    reveal_strlit("version = ");
    reveal_strlit("classifier");
    reveal_strlit("classifier = ");
    reveal_strlit("exclusions");
    reveal_strlit("exclusions = ");
    assert("path = "@ =~= "path"@ + " = "@);
    assert("version = "@ =~= "version"@ + " = "@);
    assert("classifier = "@ =~= "classifier"@ + " = "@);
    assert("exclusions = "@ =~= "exclusions"@ + " = "@);
    let none = Seq::<(Key, Scalar)>::empty();
    assert(field_texts(none) =~= seq![]);
    if let Some(path) = d.path {
        let first = seq![(bare_key("path"@), Scalar::Text(path))];
        assert(field_texts(first) =~= seq!["path = "@ + quoted(path)]);
        lemma_switches(first, d);
    } else if d.plain() && table_classifier(d) is None && !d.managed() {
    } else {
        let f0: Seq<(Key, Scalar)> = if d.managed() {
            seq![]
        } else {
            seq![(bare_key("version"@), Scalar::Text(d.version))]
        };
        let t0 = and_field(seq![], !d.managed(), "version = "@ + quoted(d.version));
        assert(field_texts(f0) =~= t0);
        let f1 = match table_classifier(d) {
            Some(c) => f0.push((bare_key("classifier"@), Scalar::Text(c))),
            None => f0,
        };
        if let Some(c) = table_classifier(d) {
            lemma_field(f0, "classifier"@, Scalar::Text(c), "classifier = "@);
        }
        let list = Scalar::Texts(gas(d.exclusions));
        let f2 = if d.exclusions.len() > 0 {
            f1.push((bare_key("exclusions"@), list))
        } else {
            f1
        };
        lemma_field(f1, "exclusions"@, list, "exclusions = "@);
        lemma_switches(f2, d);
        assert(field_texts(long_plain(d)) == long_fields(d));
    }
}

pub open spec fn dependency_plain_line(d: DependencyModel) -> (Key, Plain) {
    (Key { name: entry_of(d).0, quoted: true }, dependency_plain(d))
}

pub open spec fn dependency_block(list: Seq<DependencyModel>) -> Block {
    lined(Seq::new(list.len(), |i: int| dependency_plain_line(list[i])))
}

pub open spec fn dependencies_block(list: Seq<DependencyModel>) -> Option<Block> {
    if list.len() > 0 {
        Some(dependency_block(list))
    } else {
        None
    }
}

proof fn lemma_dependency_lines(list: Seq<DependencyModel>, n: int)
    requires
        0 <= n <= list.len(),
    ensures
        lines_text(dependency_block(list).lines, n) == dependency_lines(list, n),
    decreases n,
{
    if n > 0 {
        lemma_dependency_lines(list, n - 1);
        lemma_dependency(list[n - 1]);
    } else {
        reveal_strlit("");
        assert(dependency_lines(list, n) =~= seq![]);
    }
}

proof fn lemma_dependencies(path: Seq<char>, list: Seq<DependencyModel>)
    ensures
        top_text((path, dependencies_block(list))) == dependency_section(path, list),
{
    reveal(dependency_section);
    lemma_dependency_lines(list, list.len() as int);
    lemma_lined(path, dependency_block(list).lines);
}

pub open spec fn managed_plain(m: ManagedModel) -> Plain {
    if m.bom {
        Plain::Fields(
            seq![
                (bare_key("version"@), Scalar::Text(m.version)),
                (bare_key("bom"@), Scalar::Flag(true)),
            ],
        )
    } else {
        Plain::One(Scalar::Text(m.version))
    }
}

pub open spec fn managed_plain_line(m: ManagedModel) -> (Key, Plain) {
    (Key { name: ga_text(m.group, m.artifact), quoted: true }, managed_plain(m))
}

pub open spec fn managed_block(list: Seq<ManagedModel>) -> Option<Block> {
    if list.len() > 0 {
        Some(lined(Seq::new(list.len(), |i: int| managed_plain_line(list[i]))))
    } else {
        None
    }
}

proof fn lemma_two(a: Seq<char>, b: Seq<char>)
    ensures
        joined(seq![a, b], ", "@) == a + ", "@ + b,
{
    reveal_with_fuel(joined, 3);
    assert(seq![a, b].drop_last() =~= seq![a]);
}

proof fn lemma_managed_line(m: ManagedModel)
    ensures
        line_of(key_text(managed_plain_line(m).0), plain_text(managed_plain(m))) == managed_line(m),
{
    if m.bom {
        reveal_strlit("version");
        reveal_strlit("bom");
        reveal_strlit(" = ");
        reveal_strlit("true");
        reveal_strlit("{ ");
        reveal_strlit(" }");
        reveal_strlit(", ");
        reveal_strlit("{ version = ");
        reveal_strlit(", bom = true }");
        let fields = managed_plain(m)->Fields_0;
        let a = "version"@ + " = "@ + quoted(m.version);
        let b = "bom"@ + " = "@ + "true"@;
        assert(field_texts(fields) =~= seq![a, b]);
        lemma_two(a, b);
        assert(plain_text(managed_plain(m)) =~= "{ version = "@ + quoted(m.version)
            + ", bom = true }"@);
    }
}

proof fn lemma_managed_lines(list: Seq<ManagedModel>, n: int)
    requires
        0 <= n <= list.len(),
    ensures
        lines_text(Seq::new(list.len(), |i: int| managed_plain_line(list[i])), n) == managed_lines(
            list,
            n,
        ),
    decreases n,
{
    if n > 0 {
        lemma_managed_lines(list, n - 1);
        lemma_managed_line(list[n - 1]);
    } else {
        reveal_strlit("");
        assert(managed_lines(list, n) =~= seq![]);
    }
}

proof fn lemma_managed(list: Seq<ManagedModel>)
    ensures
        top_text(("managed"@, managed_block(list))) == managed_section(list),
{
    reveal(managed_section);
    reveal_strlit("\n[");
    reveal_strlit("managed");
    reveal_strlit("]\n");
    reveal_strlit("\n[managed]\n");
    assert("\n[managed]\n"@ =~= "\n["@ + "managed"@ + "]\n"@);
    lemma_managed_lines(list, list.len() as int);
    lemma_lined("managed"@, Seq::new(list.len(), |i: int| managed_plain_line(list[i])));
}

pub open spec fn repository_plain(r: RepositoryModel) -> Plain {
    if r.groups.len() == 0 {
        Plain::One(Scalar::Text(r.url))
    } else {
        Plain::Fields(
            seq![
                (bare_key("url"@), Scalar::Text(r.url)),
                (bare_key("groups"@), Scalar::Texts(r.groups)),
            ],
        )
    }
}

pub open spec fn repository_plain_line(r: RepositoryModel) -> (Key, Plain) {
    (Key { name: r.name, quoted: true }, repository_plain(r))
}

/// The repositories among the first `n` that have to be named.
pub open spec fn extras(list: Seq<RepositoryModel>, n: int) -> Seq<RepositoryModel>
    decreases n,
{
    if n <= 0 {
        seq![]
    } else if extra(list[n - 1]) {
        extras(list, n - 1).push(list[n - 1])
    } else {
        extras(list, n - 1)
    }
}

pub open spec fn repository_plain_lines(list: Seq<RepositoryModel>) -> Seq<(Key, Plain)> {
    Seq::new(list.len(), |i: int| repository_plain_line(list[i]))
}

pub open spec fn repository_block(list: Seq<RepositoryModel>) -> Option<Block> {
    let named = extras(list, list.len() as int);
    if named.len() > 0 {
        Some(lined(repository_plain_lines(named)))
    } else {
        None
    }
}

proof fn lemma_repository_line(r: RepositoryModel)
    ensures
        line_of(key_text(repository_plain_line(r).0), plain_text(repository_plain(r)))
            == repository_line(r),
{
    if r.groups.len() > 0 {
        reveal_strlit("url");
        reveal_strlit("groups");
        reveal_strlit(" = ");
        reveal_strlit("{ ");
        reveal_strlit(" }");
        reveal_strlit(", ");
        reveal_strlit("{ url = ");
        reveal_strlit(", groups = ");
        let fields = repository_plain(r)->Fields_0;
        let a = "url"@ + " = "@ + quoted(r.url);
        let b = "groups"@ + " = "@ + quoted_list(r.groups);
        assert(field_texts(fields) =~= seq![a, b]);
        lemma_two(a, b);
        assert(plain_text(repository_plain(r)) =~= "{ url = "@ + quoted(r.url) + ", groups = "@
            + quoted_list(r.groups) + " }"@);
    }
}

proof fn lemma_repository_lines(list: Seq<RepositoryModel>, n: int)
    requires
        0 <= n <= list.len(),
    ensures
        lines_text(
            repository_plain_lines(extras(list, n)),
            extras(list, n).len() as int,
        ) == repository_lines(list, n),
        extras(list, n).len() > 0 <==> exists|i: int| 0 <= i < n && extra(#[trigger] list[i]),
    decreases n,
{
    reveal_strlit("");
    if n > 0 {
        lemma_repository_lines(list, n - 1);
        let before = extras(list, n - 1);
        let last = list[n - 1];
        if extra(last) {
            lemma_repository_line(last);
            lemma_more_lines(
                repository_plain_lines(before),
                repository_plain_line(last),
                before.len() as int,
            );
            assert(repository_plain_lines(before.push(last)) =~= repository_plain_lines(
                before,
            ).push(repository_plain_line(last)));
            assert(extra(list[n - 1]));
        } else {
            let text = repository_lines(list, n - 1);
            assert(text + ""@ =~= text);
        }
    } else {
        assert(repository_lines(list, n) =~= seq![]);
    }
}

proof fn lemma_repositories(list: Seq<RepositoryModel>)
    ensures
        top_text(("repositories"@, repository_block(list))) == repository_section(list),
{
    reveal(repository_section);
    reveal_strlit("\n[");
    reveal_strlit("repositories");
    reveal_strlit("]\n");
    reveal_strlit("\n[repositories]\n");
    assert("\n[repositories]\n"@ =~= "\n["@ + "repositories"@ + "]\n"@);
    let n = list.len() as int;
    lemma_repository_lines(list, n);
    lemma_lined("repositories"@, repository_plain_lines(extras(list, n)));
}

// ---- tasks and hooks -------------------------------------------------------

/// The value of one of the keys that an action can be written under.
pub open spec fn action_value(action: Option<ActionModel>, key: Seq<char>) -> Option<Plain> {
    match action {
        Some(ActionModel::Run(argv)) => if key == "run"@ {
            Some(Plain::One(Scalar::Texts(raws(argv))))
        } else {
            None
        },
        Some(ActionModel::Shell(script)) => if key == "shell"@ {
            text_value(Some(script))
        } else {
            None
        },
        Some(ActionModel::Script(file)) => if key == "script"@ {
            text_value(Some(file.raw))
        } else {
            None
        },
        Some(ActionModel::Main(class)) => if key == "main"@ {
            text_value(Some(class))
        } else {
            None
        },
        None => None,
    }
}

pub open spec fn task_slots(t: TaskModel) -> Slots {
    seq![
        ("description"@, text_value(t.description)),
        ("run"@, action_value(t.action, "run"@)),
        ("shell"@, action_value(t.action, "shell"@)),
        ("script"@, action_value(t.action, "script"@)),
        ("main"@, action_value(t.action, "main"@)),
        ("args"@, list_value(raws(t.args))),
        ("depends-on"@, list_value(reference_words(t.depends_on))),
        ("env"@, env_value(t.env)),
        ("cwd"@, raw_value(t.cwd)),
        ("inputs"@, list_value(raws(t.inputs))),
        ("outputs"@, list_value(raws(t.outputs))),
        ("source-outputs"@, list_value(raws(t.source_outputs))),
        ("resource-outputs"@, list_value(raws(t.resource_outputs))),
    ]
}

pub open spec fn task_block(t: TaskModel) -> Block {
    Block {
        header: true,
        lines: lines_of(task_slots(t), 13),
        inner: if t.dependencies.len() > 0 {
            seq![("dependencies"@, dependency_block(t.dependencies))]
        } else {
            seq![]
        },
    }
}

pub open spec fn tasks_inner(list: Seq<TaskModel>) -> Seq<(Seq<char>, Block)> {
    Seq::new(list.len(), |i: int| (list[i].name, task_block(list[i])))
}

pub open spec fn tasks_block(list: Seq<TaskModel>) -> Option<Block> {
    if list.len() > 0 {
        Some(Block { header: false, lines: seq![], inner: tasks_inner(list) })
    } else {
        None
    }
}

proof fn lemma_action(start: Seq<char>, action: Option<ActionModel>)
    ensures
        start + slot_text(("run"@, action_value(action, "run"@))) + slot_text(
            ("shell"@, action_value(action, "shell"@)),
        ) + slot_text(("script"@, action_value(action, "script"@))) + slot_text(
            ("main"@, action_value(action, "main"@)),
        ) == start + action_line(action),
{
    reveal_strlit("");
    reveal_strlit("run");
    reveal_strlit("shell");
    reveal_strlit("script");
    reveal_strlit("main");
    let line = action_line(action);
    let a = slot_text(("run"@, action_value(action, "run"@)));
    let b = slot_text(("shell"@, action_value(action, "shell"@)));
    let c = slot_text(("script"@, action_value(action, "script"@)));
    let d = slot_text(("main"@, action_value(action, "main"@)));
    match action {
        Some(ActionModel::Run(_)) => {
            assert(a == line && b == ""@ && c == ""@ && d == ""@);
        },
        Some(ActionModel::Shell(_)) => {
            assert(a == ""@ && b == line && c == ""@ && d == ""@);
        },
        Some(ActionModel::Script(_)) => {
            assert(a == ""@ && b == ""@ && c == line && d == ""@);
        },
        Some(ActionModel::Main(_)) => {
            assert(a == ""@ && b == ""@ && c == ""@ && d == line);
        },
        None => {
            assert(a == ""@ && b == ""@ && c == ""@ && d == ""@);
        },
    }
    assert(start + a + b + c + d =~= start + line);
}

/// The lines of a task, behind `head`.
proof fn lemma_task_lines(t: TaskModel, head: Seq<char>)
    ensures
        chain(head, slot_texts(task_slots(t)), 13) == head + text_line(
            "description"@,
            t.description,
        ) + action_line(t.action) + list_line("args"@, raws(t.args)) + list_line(
            "depends-on"@,
            reference_words(t.depends_on),
        ) + env_line(t.env) + text_line(
            "cwd"@,
            match t.cwd {
                Some(t) => Some(t.raw),
                None => None,
            },
        ) + list_line("inputs"@, raws(t.inputs)) + list_line("outputs"@, raws(t.outputs))
            + list_line("source-outputs"@, raws(t.source_outputs)) + list_line(
            "resource-outputs"@,
            raws(t.resource_outputs),
        ),
{
    let parts = slot_texts(task_slots(t));
    lemma_env(t.env);
    assert(chain(head, parts, 0) == head);
    assert(chain(head, parts, 1) == head + parts[0]);
    assert(chain(head, parts, 2) == chain(head, parts, 1) + parts[1]);
    assert(chain(head, parts, 3) == chain(head, parts, 2) + parts[2]);
    assert(chain(head, parts, 4) == chain(head, parts, 3) + parts[3]);
    assert(chain(head, parts, 5) == chain(head, parts, 4) + parts[4]);
    lemma_action(chain(head, parts, 1), t.action);
    assert(chain(head, parts, 5) == chain(head, parts, 1) + action_line(t.action));
    assert(chain(head, parts, 6) == chain(head, parts, 5) + parts[5]);
    assert(chain(head, parts, 7) == chain(head, parts, 6) + parts[6]);
    assert(chain(head, parts, 8) == chain(head, parts, 7) + parts[7]);
    assert(chain(head, parts, 9) == chain(head, parts, 8) + parts[8]);
    assert(chain(head, parts, 10) == chain(head, parts, 9) + parts[9]);
    assert(chain(head, parts, 11) == chain(head, parts, 10) + parts[10]);
    assert(chain(head, parts, 12) == chain(head, parts, 11) + parts[11]);
    assert(chain(head, parts, 13) == chain(head, parts, 12) + parts[12]);
}

/// The names that lead to a task's tables.
proof fn lemma_task_paths(name: Seq<char>)
    ensures
        "\n[tasks."@ + name + "]\n"@ == "\n["@ + ("tasks"@ + "."@ + name) + "]\n"@,
        "tasks."@ + name + ".dependencies"@ == "tasks"@ + "."@ + name + "."@ + "dependencies"@,
{
    reveal_strlit("\n[");
    reveal_strlit("tasks");
    reveal_strlit(".");
    reveal_strlit("dependencies");
    reveal_strlit("tasks.");
    reveal_strlit(".dependencies");
    reveal_strlit("]\n");
    reveal_strlit("\n[tasks.");
    assert("\n[tasks."@ + name + "]\n"@ =~= "\n["@ + ("tasks"@ + "."@ + name) + "]\n"@);
    assert("tasks."@ + name + ".dependencies"@ =~= "tasks"@ + "."@ + name + "."@ + "dependencies"@);
}

proof fn lemma_task_below(path: Seq<char>, t: TaskModel)
    ensures
        inner_text(path, task_block(t).inner, task_block(t).inner.len() as int)
            == dependency_section(path + "."@ + "dependencies"@, t.dependencies),
{
    reveal(dependency_section);
    let inner = task_block(t).inner;
    let deps = path + "."@ + "dependencies"@;
    lemma_dependencies(deps, t.dependencies);
    assert(inner_text(path, inner, 0) == Seq::<char>::empty());
    if t.dependencies.len() > 0 {
        let text = block_text(deps, dependency_block(t.dependencies));
        assert(inner_text(path, inner, 1) == inner_text(path, inner, 0) + text);
        assert(Seq::<char>::empty() + text =~= text);
    } else {
        reveal_strlit("");
        assert(""@ =~= Seq::<char>::empty());
    }
}

proof fn lemma_task(t: TaskModel)
    ensures
        block_text("tasks"@ + "."@ + t.name, task_block(t)) == task_section(t),
{
    reveal(task_section);
    let path = "tasks"@ + "."@ + t.name;
    let head = "\n[tasks."@ + t.name + "]\n"@;
    lemma_task_paths(t.name);
    let slots = task_slots(t);
    lemma_slot_lines(slots, 13);
    lemma_chain(head, slot_texts(slots), 13);
    lemma_task_lines(t, head);
    lemma_task_below(path, t);
}

proof fn lemma_tasks_inner(list: Seq<TaskModel>, n: int)
    requires
        0 <= n <= list.len(),
    ensures
        inner_text("tasks"@, tasks_inner(list), n) == task_sections(list, n),
    decreases n,
{
    if n > 0 {
        lemma_tasks_inner(list, n - 1);
        lemma_task(list[n - 1]);
    } else {
        reveal_strlit("");
        assert(task_sections(list, n) =~= seq![]);
    }
}

proof fn lemma_tasks(list: Seq<TaskModel>)
    ensures
        top_text(("tasks"@, tasks_block(list))) == task_sections(list, list.len() as int),
{
    lemma_tasks_inner(list, list.len() as int);
    let text = task_sections(list, list.len() as int);
    assert(Seq::<char>::empty() + text =~= text);
}

pub open spec fn hook_plain_line(h: (crate::task::Hook, Seq<Seq<char>>)) -> (Key, Plain) {
    (bare_key(h.0.word()), Plain::One(Scalar::Texts(h.1)))
}

pub open spec fn hooks_block(list: HookLists) -> Option<Block> {
    if list.len() > 0 {
        Some(lined(Seq::new(list.len(), |i: int| hook_plain_line(list[i]))))
    } else {
        None
    }
}

proof fn lemma_hook_lines(list: HookLists, n: int)
    requires
        0 <= n <= list.len(),
    ensures
        lines_text(Seq::new(list.len(), |i: int| hook_plain_line(list[i])), n) == hook_lines(
            list,
            n,
        ),
    decreases n,
{
    if n > 0 {
        lemma_hook_lines(list, n - 1);
    } else {
        reveal_strlit("");
        assert(hook_lines(list, n) =~= seq![]);
    }
}

proof fn lemma_hooks(list: HookLists)
    ensures
        top_text(("hooks"@, hooks_block(list))) == hook_section(list),
{
    reveal(hook_section);
    reveal_strlit("\n[");
    reveal_strlit("hooks");
    reveal_strlit("]\n");
    reveal_strlit("\n[hooks]\n");
    assert("\n[hooks]\n"@ =~= "\n["@ + "hooks"@ + "]\n"@);
    lemma_hook_lines(list, list.len() as int);
    lemma_lined("hooks"@, Seq::new(list.len(), |i: int| hook_plain_line(list[i])));
}

// ---- obfuscation -----------------------------------------------------------

pub open spec fn obfuscate_slots(c: ObfuscateModel) -> Slots {
    seq![
        ("version"@, text_value(Some(c.version))),
        ("keep"@, list_value(c.keep)),
        ("proguard-args"@, list_value(c.proguard_args)),
    ]
}

pub open spec fn obfuscate_block(c: Option<ObfuscateModel>) -> Option<Block> {
    match c {
        Some(c) => Some(table_of(obfuscate_slots(c))),
        None => None,
    }
}

proof fn lemma_obfuscate(c: Option<ObfuscateModel>)
    ensures
        top_text(("obfuscate"@, obfuscate_block(c))) == obfuscate_section(c),
{
    reveal(obfuscate_section);
    reveal_strlit("\n[");
    reveal_strlit("obfuscate");
    reveal_strlit("]\n");
    reveal_strlit("\n[obfuscate]\n");
    assert("\n[obfuscate]\n"@ =~= "\n["@ + "obfuscate"@ + "]\n"@);
    if let Some(c) = c {
        lemma_table("obfuscate"@, obfuscate_slots(c), "\n[obfuscate]\n"@);
        reveal_with_fuel(chain, 4);
    }
}

// ---- the manifest ----------------------------------------------------------

/// The tables of a document in their order, with those that are written.
pub type Tops = Seq<(Seq<char>, Option<Block>)>;

/// Those of the first `n` that are written.
pub open spec fn blocks_of(tops: Tops, n: int) -> Sheet
    decreases n,
{
    if n <= 0 || n > tops.len() {
        seq![]
    } else {
        match tops[n - 1].1 {
            Some(b) => blocks_of(tops, n - 1).push((tops[n - 1].0, b)),
            None => blocks_of(tops, n - 1),
        }
    }
}

#[verifier::opaque]
pub open spec fn top_project(m: ManifestModel) -> Option<Block> {
    Some(table_of(project_slots(m)))
}

#[verifier::opaque]
pub open spec fn top_java(m: ManifestModel) -> Option<Block> {
    java_block(m.java)
}

#[verifier::opaque]
pub open spec fn top_kotlin(m: ManifestModel) -> Option<Block> {
    language_block(language_at(m.languages, Language::Kotlin, 0))
}

#[verifier::opaque]
pub open spec fn top_scala(m: ManifestModel) -> Option<Block> {
    language_block(language_at(m.languages, Language::Scala, 0))
}

#[verifier::opaque]
pub open spec fn top_groovy(m: ManifestModel) -> Option<Block> {
    language_block(language_at(m.languages, Language::Groovy, 0))
}

#[verifier::opaque]
pub open spec fn top_run(m: ManifestModel) -> Option<Block> {
    run_block(m.run)
}

#[verifier::opaque]
pub open spec fn top_test(m: ManifestModel) -> Option<Block> {
    test_block(m.test)
}

#[verifier::opaque]
pub open spec fn top_package(m: ManifestModel) -> Option<Block> {
    package_block(m.package)
}

#[verifier::opaque]
pub open spec fn top_managed(m: ManifestModel) -> Option<Block> {
    managed_block(m.managed)
}

#[verifier::opaque]
pub open spec fn top_dependencies(m: ManifestModel) -> Option<Block> {
    dependencies_block(m.dependencies)
}

#[verifier::opaque]
pub open spec fn top_dev_dependencies(m: ManifestModel) -> Option<Block> {
    dependencies_block(m.dev_dependencies)
}

#[verifier::opaque]
pub open spec fn top_repositories(m: ManifestModel) -> Option<Block> {
    repository_block(m.repositories)
}

#[verifier::opaque]
pub open spec fn top_tasks(m: ManifestModel) -> Option<Block> {
    tasks_block(m.tasks)
}

#[verifier::opaque]
pub open spec fn top_hooks(m: ManifestModel) -> Option<Block> {
    hooks_block(m.hooks)
}

#[verifier::opaque]
pub open spec fn top_obfuscate(m: ManifestModel) -> Option<Block> {
    obfuscate_block(m.obfuscate)
}

/// The tables of a manifest in their order, with those that are written.
pub open spec fn tops_of(m: ManifestModel) -> Tops {
    seq![
        ("project"@, top_project(m)),
        ("java"@, top_java(m)),
        ("kotlin"@, top_kotlin(m)),
        ("scala"@, top_scala(m)),
        ("groovy"@, top_groovy(m)),
        ("run"@, top_run(m)),
        ("test"@, top_test(m)),
        ("package"@, top_package(m)),
        ("managed"@, top_managed(m)),
        ("dependencies"@, top_dependencies(m)),
        ("dev-dependencies"@, top_dev_dependencies(m)),
        ("repositories"@, top_repositories(m)),
        ("tasks"@, top_tasks(m)),
        ("hooks"@, top_hooks(m)),
        ("obfuscate"@, top_obfuscate(m)),
    ]
}

/// The document that a manifest is written as.
pub open spec fn sheet_of(m: ManifestModel) -> Sheet {
    blocks_of(tops_of(m), 15)
}

proof fn lemma_more_blocks(doc: Sheet, last: (Seq<char>, Block), n: int)
    requires
        n <= doc.len(),
    ensures
        sheet_text(doc.push(last), n) == sheet_text(doc, n),
    decreases n,
{
    if n > 0 {
        lemma_more_blocks(doc, last, n - 1);
    }
}

pub open spec fn top_texts(tops: Tops) -> Seq<Seq<char>> {
    Seq::new(tops.len(), |i: int| top_text(tops[i]))
}

proof fn lemma_blocks(tops: Tops, n: int)
    requires
        0 <= n <= tops.len(),
    ensures
        sheet_text(blocks_of(tops, n), blocks_of(tops, n).len() as int) == chain(
            seq![],
            top_texts(tops),
            n,
        ),
    decreases n,
{
    if n > 0 {
        lemma_blocks(tops, n - 1);
        let before = blocks_of(tops, n - 1);
        if let Some(b) = tops[n - 1].1 {
            let last = (tops[n - 1].0, b);
            lemma_more_blocks(before, last, before.len() as int);
            assert(blocks_of(tops, n)[before.len() as int] == last);
        } else {
            let text = chain(seq![], top_texts(tops), n - 1);
            reveal_strlit("");
            assert(text + ""@ =~= text);
        }
    }
}

/// A language, where there is one.
pub open spec fn one_language(c: Option<LanguageModel>) -> Seq<LanguageModel> {
    match c {
        Some(c) => seq![c],
        None => seq![],
    }
}

/// The languages that are on, each once and in their order.
pub open spec fn languages_in_order(list: Seq<LanguageModel>) -> bool {
    list == one_language(language_at(list, Language::Kotlin, 0)) + one_language(
        language_at(list, Language::Scala, 0),
    ) + one_language(language_at(list, Language::Groovy, 0))
}

proof fn lemma_language_at(list: Seq<LanguageModel>, language: Language, i: int)
    ensures
        language_at(list, language, i) matches Some(c) ==> c.language == language,
    decreases list.len() - i,
{
    if 0 <= i < list.len() && list[i].language != language {
        lemma_language_at(list, language, i + 1);
    }
}

proof fn lemma_language_sections(a: Seq<LanguageModel>, b: Seq<LanguageModel>, n: int)
    requires
        0 <= n <= b.len(),
    ensures
        language_sections(a + b, a.len() + n) == language_sections(a, a.len() as int)
            + language_sections(b, n),
    decreases n,
{
    if n > 0 {
        lemma_language_sections(a, b, n - 1);
        assert((a + b)[a.len() + n - 1] == b[n - 1]);
        assert(language_sections(a + b, a.len() + n) =~= language_sections(a, a.len() as int)
            + language_sections(b, n));
    } else {
        reveal_strlit("");
        lemma_same_languages(a, b, a.len() as int);
        let text = language_sections(a, a.len() as int);
        assert(text + ""@ =~= text);
    }
}

proof fn lemma_same_languages(a: Seq<LanguageModel>, b: Seq<LanguageModel>, n: int)
    requires
        n <= a.len(),
    ensures
        language_sections(a + b, n) == language_sections(a, n),
    decreases n,
{
    if n > 0 {
        lemma_same_languages(a, b, n - 1);
    }
}

proof fn lemma_one_language(c: Option<LanguageModel>, name: Seq<char>)
    requires
        c matches Some(c) ==> c.language.word() == name,
    ensures
        language_sections(one_language(c), one_language(c).len() as int) == top_text(
            (name, language_block(c)),
        ),
{
    if let Some(x) = c {
        lemma_language(x);
        let list = one_language(c);
        reveal_strlit("");
        assert(language_sections(list, 0) == ""@);
        assert(language_sections(list, 1) == language_sections(list, 0) + language_section(x));
        assert(""@ + language_section(x) =~= language_section(x));
    }
}

proof fn lemma_three_languages(
    a: Seq<LanguageModel>,
    b: Seq<LanguageModel>,
    c: Seq<LanguageModel>,
)
    ensures
        language_sections(a + b + c, (a + b + c).len() as int) == language_sections(
            a,
            a.len() as int,
        ) + language_sections(b, b.len() as int) + language_sections(c, c.len() as int),
{
    lemma_language_sections(a, b, b.len() as int);
    lemma_language_sections(a + b, c, c.len() as int);
}

proof fn lemma_languages(list: Seq<LanguageModel>)
    requires
        languages_in_order(list),
    ensures
        top_text(("kotlin"@, language_block(language_at(list, Language::Kotlin, 0)))) + top_text(
            ("scala"@, language_block(language_at(list, Language::Scala, 0))),
        ) + top_text(("groovy"@, language_block(language_at(list, Language::Groovy, 0))))
            == language_sections(list, list.len() as int),
{
    let k = language_at(list, Language::Kotlin, 0);
    let s = language_at(list, Language::Scala, 0);
    let g = language_at(list, Language::Groovy, 0);
    lemma_language_at(list, Language::Kotlin, 0);
    lemma_language_at(list, Language::Scala, 0);
    lemma_language_at(list, Language::Groovy, 0);
    lemma_one_language(k, "kotlin"@);
    lemma_one_language(s, "scala"@);
    lemma_one_language(g, "groovy"@);
    lemma_three_languages(one_language(k), one_language(s), one_language(g));
}

/// The text of a manifest from its first header on.
spec fn body_parts(m: ManifestModel) -> Seq<Seq<char>> {
    seq![
        project_section(m),
        java_section(m.java),
        language_sections(m.languages, m.languages.len() as int),
        run_section(m.run),
        test_section(m.test),
        package_section(m.package),
        managed_section(m.managed),
        dependency_section("dependencies"@, m.dependencies),
        dependency_section("dev-dependencies"@, m.dev_dependencies),
        repository_section(m.repositories),
        task_sections(m.tasks, m.tasks.len() as int),
        hook_section(m.hooks),
        obfuscate_section(m.obfuscate),
    ]
}

/// Tables behind one another are sections behind one another, where three of
/// the tables are one section.
proof fn lemma_body(x: Seq<Seq<char>>, y: Seq<Seq<char>>, start: Seq<char>)
    requires
        x.len() == 15,
        y.len() == 13,
        x[0] == start + y[0],
        x[1] == y[1],
        x[2] + x[3] + x[4] == y[2],
        forall|i: int| 5 <= i < 15 ==> #[trigger] x[i] == y[i - 2],
    ensures
        chain(seq![], x, 15) == chain(start, y, 13),
{
    let none = Seq::<char>::empty();
    assert(chain(none, x, 0) == none);
    assert(chain(start, y, 0) == start);
    assert(chain(none, x, 1) == none + x[0]);
    assert(none + x[0] =~= x[0]);
    assert(chain(start, y, 1) == start + y[0]);
    assert(chain(none, x, 2) == chain(none, x, 1) + x[1]);
    assert(chain(start, y, 2) == chain(start, y, 1) + y[1]);
    assert(chain(none, x, 3) == chain(none, x, 2) + x[2]);
    assert(chain(none, x, 4) == chain(none, x, 3) + x[3]);
    assert(chain(none, x, 5) == chain(none, x, 4) + x[4]);
    assert(chain(start, y, 3) == chain(start, y, 2) + y[2]);
    let before = chain(start, y, 2);
    assert(before + x[2] + x[3] + x[4] =~= before + (x[2] + x[3] + x[4]));
    lemma_same_chain(chain(none, x, 5), x, chain(start, y, 3), y, 10);
}

proof fn lemma_same_chain(
    a: Seq<char>,
    x: Seq<Seq<char>>,
    b: Seq<char>,
    y: Seq<Seq<char>>,
    n: int,
)
    requires
        a == b,
        0 <= n <= 10,
        x.len() == 15,
        y.len() == 13,
        a == chain(seq![], x, 5),
        exists|start: Seq<char>| b == #[trigger] chain(start, y, 3),
        forall|i: int| 5 <= i < 15 ==> #[trigger] x[i] == y[i - 2],
    ensures
        forall|start: Seq<char>| b == #[trigger] chain(start, y, 3) ==> chain(seq![], x, 5 + n)
            == chain(start, y, 3 + n),
    decreases n,
{
    if n > 0 {
        lemma_same_chain(a, x, b, y, n - 1);
        assert forall|start: Seq<char>| b == #[trigger] chain(start, y, 3) implies chain(
            seq![],
            x,
            5 + n,
        ) == chain(start, y, 3 + n) by {
            assert(x[5 + n - 1] == y[3 + n - 1]);
        }
    }
}

/// The parts behind a start.
proof fn lemma_behind(h: Seq<char>, y: Seq<Seq<char>>)
    ensures
        chain(h, y, 13) == h + y[0] + y[1] + y[2] + y[3] + y[4] + y[5] + y[6] + y[7] + y[8] + y[9]
            + y[10] + y[11] + y[12],
{
    reveal_with_fuel(chain, 14);
}

proof fn lemma_part_project(m: ManifestModel)
    ensures
        top_texts(tops_of(m))[0] == "\n"@ + body_parts(m)[0],
{
    reveal(top_project);
    lemma_project(m);
}

proof fn lemma_part_java(m: ManifestModel)
    ensures
        top_texts(tops_of(m))[1] == body_parts(m)[1],
{
    reveal(top_java);
    lemma_java(m.java);
}

proof fn lemma_part_run(m: ManifestModel)
    ensures
        top_texts(tops_of(m))[5] == body_parts(m)[3],
{
    reveal(top_run);
    lemma_run(m.run);
}

proof fn lemma_part_test(m: ManifestModel)
    ensures
        top_texts(tops_of(m))[6] == body_parts(m)[4],
{
    reveal(top_test);
    lemma_test(m.test);
}

proof fn lemma_part_package(m: ManifestModel)
    ensures
        top_texts(tops_of(m))[7] == body_parts(m)[5],
{
    reveal(top_package);
    lemma_package(m.package);
}

proof fn lemma_part_managed(m: ManifestModel)
    ensures
        top_texts(tops_of(m))[8] == body_parts(m)[6],
{
    reveal(top_managed);
    lemma_managed(m.managed);
}

proof fn lemma_part_dependencies(m: ManifestModel)
    ensures
        top_texts(tops_of(m))[9] == body_parts(m)[7],
{
    reveal(top_dependencies);
    lemma_dependencies("dependencies"@, m.dependencies);
}

proof fn lemma_part_dev_dependencies(m: ManifestModel)
    ensures
        top_texts(tops_of(m))[10] == body_parts(m)[8],
{
    reveal(top_dev_dependencies);
    lemma_dependencies("dev-dependencies"@, m.dev_dependencies);
}

proof fn lemma_part_repositories(m: ManifestModel)
    ensures
        top_texts(tops_of(m))[11] == body_parts(m)[9],
{
    reveal(top_repositories);
    lemma_repositories(m.repositories);
}

proof fn lemma_part_tasks(m: ManifestModel)
    ensures
        top_texts(tops_of(m))[12] == body_parts(m)[10],
{
    reveal(top_tasks);
    lemma_tasks(m.tasks);
}

proof fn lemma_part_hooks(m: ManifestModel)
    ensures
        top_texts(tops_of(m))[13] == body_parts(m)[11],
{
    reveal(top_hooks);
    lemma_hooks(m.hooks);
}

proof fn lemma_part_obfuscate(m: ManifestModel)
    ensures
        top_texts(tops_of(m))[14] == body_parts(m)[12],
{
    reveal(top_obfuscate);
    lemma_obfuscate(m.obfuscate);
}

proof fn lemma_part_languages(m: ManifestModel)
    requires
        languages_in_order(m.languages),
    ensures
        top_texts(tops_of(m))[2] + top_texts(tops_of(m))[3] + top_texts(tops_of(m))[4]
            == body_parts(m)[2],
{
    reveal(top_kotlin);
    reveal(top_scala);
    reveal(top_groovy);
    lemma_languages(m.languages);
}

proof fn lemma_part_counts(m: ManifestModel)
    ensures
        tops_of(m).len() == 15,
        top_texts(tops_of(m)).len() == 15,
        body_parts(m).len() == 13,
{
}

/// A manifest's text is its sections.
proof fn lemma_rendered_parts(m: ManifestModel, header: Option<Seq<char>>)
    ensures
        rendered(m, header) == chain(header_section(header), body_parts(m), 13),
{
    lemma_behind(header_section(header), body_parts(m));
}

/// A manifest's text is the document that the manifest is written as.
pub proof fn lemma_rendered(m: ManifestModel, header: Option<Seq<char>>)
    requires
        languages_in_order(m.languages),
    ensures
        header is None ==> "\n"@ + rendered(m, header) == sheet_text(
            sheet_of(m),
            sheet_of(m).len() as int,
        ),
        header matches Some(h) ==> rendered(m, header) == comment_lines(
            line_seq(h),
            line_seq(h).len() as int,
        ) + sheet_text(sheet_of(m), sheet_of(m).len() as int),
{
    let x = top_texts(tops_of(m));
    let y = body_parts(m);
    lemma_part_counts(m);
    lemma_blocks(tops_of(m), 15);
    lemma_part_project(m);
    lemma_part_java(m);
    lemma_part_run(m);
    lemma_part_test(m);
    lemma_part_package(m);
    lemma_part_managed(m);
    lemma_part_dependencies(m);
    lemma_part_dev_dependencies(m);
    lemma_part_repositories(m);
    lemma_part_tasks(m);
    lemma_part_hooks(m);
    lemma_part_obfuscate(m);
    lemma_part_languages(m);
    lemma_body(x, y, "\n"@);
    lemma_rendered_parts(m, header);
    lemma_under_header(header, y);
}

proof fn lemma_under_header(header: Option<Seq<char>>, y: Seq<Seq<char>>)
    ensures
        header is None ==> "\n"@ + chain(header_section(header), y, 13) == chain("\n"@, y, 13),
        header matches Some(h) ==> chain(header_section(header), y, 13) == comment_lines(
            line_seq(h),
            line_seq(h).len() as int,
        ) + chain("\n"@, y, 13),
{
    let top = header_section(header);
    lemma_chain(top, y, 13);
    lemma_chain("\n"@, y, 13);
    let body = chain(seq![], y, 13);
    if let Some(h) = header {
        let c = comment_lines(line_seq(h), line_seq(h).len() as int);
        assert(c + "\n"@ + body =~= c + ("\n"@ + body));
    } else {
        reveal_strlit("");
        assert(""@ + body =~= body);
    }
}

} // verus!
