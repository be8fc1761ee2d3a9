//! What the project model says, looked up key by key.

use crate::json::JsonModel;
use crate::language::Language;
use crate::manifest::{LanguageModel, ManifestModel};
use crate::model::{
    absolute_path, assembled, classpaths_value, document, entries_from, entry_value, has_root,
    hooks_of, java_value, jdk_value, language_value, languages_from, package_of, path_values,
    project_value, root_value, root_values, roots, roots_from, task_value, tasks_from, text_values,
    unit_value, PackageModel, ResolutionModel,
};
use crate::paths::{same_dir, under};
use crate::task::{HookLists, TaskModel};
use crate::toolchain::ToolchainModel;
use crate::version::VERSION;
use vstd::prelude::*;

verus! {

// ---- looking up ------------------------------------------------------------

/// The value of the first field from the `i`th on that is called `key`.
pub open spec fn member_from(fields: Seq<(Seq<char>, JsonModel)>, key: Seq<char>, i: int) -> Option<
    JsonModel,
>
    decreases fields.len() - i,
{
    if i < 0 || i >= fields.len() {
        None
    } else if fields[i].0 == key {
        Some(fields[i].1)
    } else {
        member_from(fields, key, i + 1)
    }
}

/// The value that an object has under `key`.
pub open spec fn member(j: JsonModel, key: Seq<char>) -> Option<JsonModel> {
    match j {
        JsonModel::Object(fields) => member_from(fields, key, 0),
        _ => None,
    }
}

/// The value that an object inside an object has.
pub open spec fn inner(j: JsonModel, outer: Seq<char>, key: Seq<char>) -> Option<JsonModel> {
    match member(j, outer) {
        Some(o) => member(o, key),
        None => None,
    }
}

/// The value is a text.
pub open spec fn says_text(j: Option<JsonModel>, text: Seq<char>) -> bool {
    j == Some(JsonModel::Text(text))
}

/// The value is a text, or `null` where there is none.
pub open spec fn says_optional(j: Option<JsonModel>, text: Option<Seq<char>>) -> bool {
    match text {
        Some(t) => says_text(j, t),
        None => j == Some(JsonModel::Null),
    }
}

/// The value is a number, or `null` where there is none.
pub open spec fn says_number(j: Option<JsonModel>, n: Option<u32>) -> bool {
    match n {
        Some(n) => j == Some(JsonModel::Int(n as i64)),
        None => j == Some(JsonModel::Null),
    }
}

/// The value is a list of the texts, in their order.
pub open spec fn says_texts(j: Option<JsonModel>, texts: Seq<Seq<char>>) -> bool {
    j matches Some(JsonModel::Array(a)) && a.len() == texts.len() && forall|k: int|
        0 <= k < texts.len() ==> #[trigger] a[k] == JsonModel::Text(texts[k])
}

/// The value is the path, seen from `directory`.
pub open spec fn says_path(j: Option<JsonModel>, path: Seq<char>, directory: Seq<char>) -> bool {
    says_text(j, absolute_path(path, directory))
}

/// The value is a list of the paths, in their order.
pub open spec fn says_paths(
    j: Option<JsonModel>,
    paths: Seq<Seq<char>>,
    directory: Seq<char>,
) -> bool {
    j matches Some(JsonModel::Array(a)) && a.len() == paths.len() && forall|k: int|
        0 <= k < paths.len() ==> #[trigger] a[k] == JsonModel::Text(
            absolute_path(paths[k], directory),
        )
}

// ---- the members -----------------------------------------------------------

proof fn lemma_top(a: JsonModel, b: JsonModel, c: JsonModel, d: JsonModel, e: JsonModel, f: JsonModel, g: JsonModel, h: JsonModel, i: JsonModel, k: JsonModel)
    ensures
        ({
            let j = assembled(a, b, c, d, e, f, g, h, i, k);
            j matches JsonModel::Object(o) && o.len() == 12
                && member(j, "version"@) == Some(o[0].1) && member(j, "jrs"@) == Some(o[1].1)
                && member(j, "project"@) == Some(o[2].1) && member(j, "jdk"@) == Some(o[3].1)
                && member(j, "java"@) == Some(o[4].1) && member(j, "languages"@) == Some(o[5].1)
                && member(j, "main"@) == Some(o[6].1) && member(j, "test"@) == Some(o[7].1)
                && member(j, "target-dir"@) == Some(o[8].1) && member(j, "jar"@) == Some(o[9].1)
                && member(j, "classpaths"@) == Some(o[10].1) && member(j, "tasks"@) == Some(o[11].1)
        }),
{
    reveal_strlit("version");
    reveal_strlit("jrs");
    reveal_strlit("project");
    reveal_strlit("jdk");
    reveal_strlit("java");
    reveal_strlit("languages");
    reveal_strlit("main");
    reveal_strlit("test");
    reveal_strlit("target-dir");
    reveal_strlit("jar");
    reveal_strlit("classpaths");
    reveal_strlit("tasks");
    assert("version"@.len() == 7 && "version"@[0] == 'v');
    assert("jrs"@.len() == 3 && "jrs"@[1] == 'r');
    assert("project"@.len() == 7 && "project"@[0] == 'p');
    assert("jdk"@.len() == 3 && "jdk"@[1] == 'd');
    assert("java"@.len() == 4 && "java"@[0] == 'j');
    assert("languages"@.len() == 9);
    assert("main"@.len() == 4 && "main"@[0] == 'm');
    assert("test"@.len() == 4 && "test"@[0] == 't');
    assert("target-dir"@.len() == 10 && "target-dir"@[0] == 't');
    assert("jar"@.len() == 3 && "jar"@[1] == 'a');
    assert("classpaths"@.len() == 10 && "classpaths"@[0] == 'c');
    assert("tasks"@.len() == 5);
    reveal_with_fuel(member_from, 13);
}

proof fn lemma_project_members(m: ManifestModel, directory: Seq<char>)
    ensures
        ({
            let j = project_value(m, directory);
            j matches JsonModel::Object(o) && o.len() == 7 && member(j, "name"@) == Some(o[0].1)
                && member(j, "version"@) == Some(o[1].1)
                && member(j, "main-class"@) == Some(o[2].1)
                && member(j, "jrs-version"@) == Some(o[3].1)
                && member(j, "root"@) == Some(o[4].1) && member(j, "manifest"@) == Some(o[5].1)
                && member(j, "lockfile"@) == Some(o[6].1)
        }),
{
    reveal_strlit("name");
    reveal_strlit("version");
    reveal_strlit("main-class");
    reveal_strlit("jrs-version");
    reveal_strlit("root");
    reveal_strlit("manifest");
    reveal_strlit("lockfile");
    assert("name"@.len() == 4 && "name"@[0] == 'n');
    assert("version"@.len() == 7);
    assert("main-class"@.len() == 10);
    assert("jrs-version"@.len() == 11);
    assert("root"@.len() == 4 && "root"@[0] == 'r');
    assert("manifest"@.len() == 8 && "manifest"@[0] == 'm');
    assert("lockfile"@.len() == 8 && "lockfile"@[0] == 'l');
    reveal_with_fuel(member_from, 8);
}

proof fn lemma_jdk_members(t: ToolchainModel, directory: Seq<char>)
    ensures
        ({
            let j = jdk_value(t, directory);
            j matches JsonModel::Object(o) && o.len() == 4 && member(j, "home"@) == Some(o[0].1)
                && member(j, "version"@) == Some(o[1].1) && member(j, "javac"@) == Some(o[2].1)
                && member(j, "java"@) == Some(o[3].1)
        }),
{
    reveal_strlit("home");
    reveal_strlit("version");
    reveal_strlit("javac");
    reveal_strlit("java");
    assert("home"@.len() == 4 && "home"@[0] == 'h');
    assert("version"@.len() == 7);
    assert("javac"@.len() == 5);
    assert("java"@.len() == 4 && "java"@[0] == 'j');
    reveal_with_fuel(member_from, 5);
}

proof fn lemma_java_members(m: ManifestModel, toolchain: Option<ToolchainModel>)
    ensures
        ({
            let j = java_value(m, toolchain);
            j matches JsonModel::Object(o) && o.len() == 4
                && member(j, "release"@) == Some(o[0].1) && member(j, "target"@) == Some(o[1].1)
                && member(j, "encoding"@) == Some(o[2].1)
                && member(j, "javac-args"@) == Some(o[3].1)
        }),
{
    reveal_strlit("release");
    reveal_strlit("target");
    reveal_strlit("encoding");
    reveal_strlit("javac-args");
    assert("release"@.len() == 7);
    assert("target"@.len() == 6);
    assert("encoding"@.len() == 8);
    assert("javac-args"@.len() == 10);
    reveal_with_fuel(member_from, 5);
}

proof fn lemma_language_members(language: Language, version: Option<Seq<char>>, compiler: Option<Seq<char>>)
    ensures
        ({
            let j = language_value(language, version, compiler);
            j matches JsonModel::Object(o) && o.len() == 3 && member(j, "name"@) == Some(o[0].1)
                && member(j, "version"@) == Some(o[1].1) && member(j, "compiler"@) == Some(o[2].1)
        }),
{
    reveal_strlit("name");
    reveal_strlit("version");
    reveal_strlit("compiler");
    assert("name"@.len() == 4);
    assert("version"@.len() == 7);
    assert("compiler"@.len() == 8);
    reveal_with_fuel(member_from, 4);
}

proof fn lemma_root_members(root: (Language, Seq<char>), directory: Seq<char>)
    ensures
        ({
            let j = root_value(root, directory);
            j matches JsonModel::Object(o) && o.len() == 2
                && member(j, "language"@) == Some(o[0].1) && member(j, "dir"@) == Some(o[1].1)
        }),
{
    reveal_strlit("language");
    reveal_strlit("dir");
    assert("language"@.len() == 8);
    assert("dir"@.len() == 3);
    reveal_with_fuel(member_from, 3);
}

proof fn lemma_unit_members(a: Seq<(Language, Seq<char>)>, b: Seq<Seq<char>>, c: Seq<char>, d: Seq<Seq<char>>, e: Seq<char>, f: Seq<char>)
    ensures
        ({
            let j = unit_value(a, b, c, d, e, f);
            j matches JsonModel::Object(o) && o.len() == 5
                && member(j, "sources"@) == Some(o[0].1)
                && member(j, "generated-sources"@) == Some(o[1].1)
                && member(j, "resources"@) == Some(o[2].1)
                && member(j, "generated-resources"@) == Some(o[3].1)
                && member(j, "output"@) == Some(o[4].1)
        }),
{
    reveal_strlit("sources");
    reveal_strlit("generated-sources");
    reveal_strlit("resources");
    reveal_strlit("generated-resources");
    reveal_strlit("output");
    assert("sources"@.len() == 7);
    assert("generated-sources"@.len() == 17);
    assert("resources"@.len() == 9);
    assert("generated-resources"@.len() == 19);
    assert("output"@.len() == 6);
    reveal_with_fuel(member_from, 6);
}

proof fn lemma_entry_members(packages: Seq<PackageModel>, jar: Seq<char>, directory: Seq<char>)
    ensures
        ({
            let j = entry_value(packages, jar, directory);
            j matches JsonModel::Object(o) && o.len() == 3
                && member(j, "coordinate"@) == Some(o[0].1) && member(j, "jar"@) == Some(o[1].1)
                && member(j, "sources"@) == Some(o[2].1)
        }),
{
    reveal_strlit("coordinate");
    reveal_strlit("jar");
    reveal_strlit("sources");
    assert("coordinate"@.len() == 10);
    assert("jar"@.len() == 3);
    assert("sources"@.len() == 7);
    reveal_with_fuel(member_from, 4);
}

proof fn lemma_classpath_members(r: ResolutionModel, directory: Seq<char>)
    ensures
        ({
            let j = classpaths_value(r, directory);
            j matches JsonModel::Object(o) && o.len() == 3
                && member(j, "compile"@) == Some(o[0].1) && member(j, "runtime"@) == Some(o[1].1)
                && member(j, "test"@) == Some(o[2].1)
        }),
{
    reveal_strlit("compile");
    reveal_strlit("runtime");
    reveal_strlit("test");
    assert("compile"@.len() == 7 && "compile"@[0] == 'c');
    assert("runtime"@.len() == 7 && "runtime"@[0] == 'r');
    assert("test"@.len() == 4);
    reveal_with_fuel(member_from, 4);
}

proof fn lemma_task_members(hooks: HookLists, task: TaskModel)
    ensures
        ({
            let j = task_value(hooks, task);
            j matches JsonModel::Object(o) && o.len() == 3 && member(j, "name"@) == Some(o[0].1)
                && member(j, "description"@) == Some(o[1].1) && member(j, "hooks"@) == Some(o[2].1)
        }),
{
    reveal_strlit("name");
    reveal_strlit("description");
    reveal_strlit("hooks");
    assert("name"@.len() == 4);
    assert("description"@.len() == 11);
    assert("hooks"@.len() == 5);
    reveal_with_fuel(member_from, 4);
}

// ---- the lists -------------------------------------------------------------

proof fn lemma_texts(texts: Seq<Seq<char>>, i: int, out: Seq<JsonModel>)
    requires
        0 <= i <= texts.len(),
        out.len() == i,
        forall|k: int| 0 <= k < i ==> #[trigger] out[k] == JsonModel::Text(texts[k]),
    ensures
        says_texts(Some(JsonModel::Array(text_values(texts, i, out))), texts),
    decreases texts.len() - i,
{
    if i < texts.len() {
        lemma_texts(texts, i + 1, out.push(JsonModel::Text(texts[i])));
    }
}

proof fn lemma_paths(paths: Seq<Seq<char>>, directory: Seq<char>, i: int, out: Seq<JsonModel>)
    requires
        0 <= i <= paths.len(),
        out.len() == i,
        forall|k: int|
            0 <= k < i ==> #[trigger] out[k] == JsonModel::Text(absolute_path(paths[k], directory)),
    ensures
        says_paths(Some(JsonModel::Array(path_values(paths, directory, i, out))), paths, directory),
    decreases paths.len() - i,
{
    if i < paths.len() {
        lemma_paths(
            paths,
            directory,
            i + 1,
            out.push(JsonModel::Text(absolute_path(paths[i], directory))),
        );
    }
}

/// A language of the list: its name, its version and the compiler that its
/// version pins.
pub open spec fn says_language(j: JsonModel, c: LanguageModel) -> bool {
    &&& says_text(member(j, "name"@), c.language.word())
    &&& says_text(member(j, "version"@), c.version)
    &&& says_optional(member(j, "compiler"@), c.language.compiler_at(c.version))
}

/// Java, in no version, before the languages that have a table.
pub open spec fn says_languages(j: Option<JsonModel>, list: Seq<LanguageModel>) -> bool {
    &&& j matches Some(JsonModel::Array(a)) && {
        &&& a.len() == list.len() + 1
        &&& says_text(member(a[0], "name"@), "java"@)
        &&& member(a[0], "version"@) == Some(JsonModel::Null)
        &&& member(a[0], "compiler"@) == Some(JsonModel::Null)
        &&& forall|k: int| 0 < k < a.len() ==> says_language(#[trigger] a[k], list[k - 1])
    }
}

proof fn lemma_languages(list: Seq<LanguageModel>, i: int, out: Seq<JsonModel>)
    requires
        0 <= i <= list.len(),
        out.len() == i + 1,
        says_text(member(out[0], "name"@), "java"@),
        member(out[0], "version"@) == Some(JsonModel::Null),
        member(out[0], "compiler"@) == Some(JsonModel::Null),
        forall|k: int| 0 < k < out.len() ==> says_language(#[trigger] out[k], list[k - 1]),
    ensures
        says_languages(Some(JsonModel::Array(languages_from(list, i, out))), list),
    decreases list.len() - i,
{
    if i < list.len() {
        let c = list[i];
        lemma_language_members(c.language, Some(c.version), c.language.compiler_at(c.version));
        let more = out.push(
            language_value(c.language, Some(c.version), c.language.compiler_at(c.version)),
        );
        assert(more[0] == out[0]);
        assert forall|k: int| 0 < k < more.len() implies says_language(
            #[trigger] more[k],
            list[k - 1],
        ) by {
            if k < out.len() {
                assert(more[k] == out[k]);
            }
        }
        lemma_languages(list, i + 1, more);
    }
}

/// The directory of a language's sources, or of its tests.
pub open spec fn language_dir(m: ManifestModel, test: bool, k: int) -> Seq<char> {
    if test {
        under(m.root, m.languages[k].test_dir)
    } else {
        under(m.root, m.languages[k].source_dir)
    }
}

/// The directory of Java's sources, or of its tests.
pub open spec fn java_dir(m: ManifestModel, test: bool) -> Seq<char> {
    if test {
        under(m.root, m.test_dir)
    } else {
        under(m.root, m.source_dir)
    }
}

/// Roots that the manifest names: Java's first, then each language's, unless
/// its directory is there already.
pub open spec fn named_roots(m: ManifestModel, test: bool, list: Seq<(Language, Seq<char>)>) -> bool {
    &&& list.len() > 0
    &&& list[0] == (Language::Java, java_dir(m, test))
    &&& forall|k: int|
        0 < k < list.len() ==> exists|l: int|
            0 <= l < m.languages.len() && (#[trigger] list[k]) == (
                (#[trigger] m.languages[l]).language,
                language_dir(m, test, l),
            )
}

/// The directory is one of the roots.
pub open spec fn rooted(list: Seq<(Language, Seq<char>)>, dir: Seq<char>) -> bool {
    exists|k: int| 0 <= k < list.len() && same_dir((#[trigger] list[k]).1, dir)
}

/// The roots are listed with their languages, in their order.
pub open spec fn says_roots(
    j: Option<JsonModel>,
    list: Seq<(Language, Seq<char>)>,
    directory: Seq<char>,
) -> bool {
    j matches Some(JsonModel::Array(a)) && a.len() == list.len() && forall|k: int|
        0 <= k < list.len() ==> says_text(member(#[trigger] a[k], "language"@), list[k].0.word())
            && says_path(member(a[k], "dir"@), list[k].1, directory)
}

/// The roots of the sources, or of the tests, that a unit has to list.
pub open spec fn says_sources(
    j: Option<JsonModel>,
    m: ManifestModel,
    test: bool,
    directory: Seq<char>,
) -> bool {
    exists|list: Seq<(Language, Seq<char>)>| #[trigger]
        named_roots(m, test, list) && says_roots(j, list, directory) && forall|l: int|
            0 <= l < m.languages.len() ==> rooted(list, #[trigger] language_dir(m, test, l))
}

proof fn lemma_root_list(
    list: Seq<(Language, Seq<char>)>,
    directory: Seq<char>,
    i: int,
    out: Seq<JsonModel>,
)
    requires
        0 <= i <= list.len(),
        out.len() == i,
        forall|k: int|
            0 <= k < i ==> says_text(member(#[trigger] out[k], "language"@), list[k].0.word())
                && says_path(member(out[k], "dir"@), list[k].1, directory),
    ensures
        says_roots(Some(JsonModel::Array(root_values(list, directory, i, out))), list, directory),
    decreases list.len() - i,
{
    if i < list.len() {
        lemma_root_members(list[i], directory);
        let more = out.push(root_value(list[i], directory));
        assert forall|k: int| 0 <= k < i + 1 implies says_text(
            member(#[trigger] more[k], "language"@),
            list[k].0.word(),
        ) && says_path(member(more[k], "dir"@), list[k].1, directory) by {
            if k < i {
                assert(more[k] == out[k]);
            }
        }
        lemma_root_list(list, directory, i + 1, more);
    }
}

proof fn lemma_has(list: Seq<(Language, Seq<char>)>, dir: Seq<char>, i: int)
    requires
        0 <= i,
        has_root(list, dir, i),
    ensures
        rooted(list, dir),
    decreases list.len() - i,
{
    if i < list.len() && !same_dir(list[i].1, dir) {
        lemma_has(list, dir, i + 1);
    }
}

proof fn lemma_still_rooted(list: Seq<(Language, Seq<char>)>, r: (Language, Seq<char>), dir: Seq<char>)
    requires
        rooted(list, dir),
    ensures
        rooted(list.push(r), dir),
{
    let k = choose|k: int| 0 <= k < list.len() && same_dir((#[trigger] list[k]).1, dir);
    assert(list.push(r)[k] == list[k]);
}

proof fn lemma_roots(m: ManifestModel, test: bool, i: int, out: Seq<(Language, Seq<char>)>)
    requires
        0 <= i <= m.languages.len(),
        named_roots(m, test, out),
        forall|l: int| 0 <= l < i ==> rooted(out, #[trigger] language_dir(m, test, l)),
    ensures
        named_roots(m, test, roots_from(m, test, i, out)),
        forall|l: int|
            0 <= l < m.languages.len() ==> rooted(
                roots_from(m, test, i, out),
                #[trigger] language_dir(m, test, l),
            ),
    decreases m.languages.len() - i,
{
    if i < m.languages.len() {
        let c = m.languages[i];
        let dir = language_dir(m, test, i);
        if has_root(out, dir, 0) {
            lemma_has(out, dir, 0);
            lemma_roots(m, test, i + 1, out);
        } else {
            let more = out.push((c.language, dir));
            assert forall|k: int| 0 < k < more.len() implies exists|l: int|
                0 <= l < m.languages.len() && (#[trigger] more[k]) == (
                    (#[trigger] m.languages[l]).language,
                    language_dir(m, test, l),
                ) by {
                if k < out.len() {
                    assert(more[k] == out[k]);
                } else {
                    assert(more[k] == (m.languages[i].language, language_dir(m, test, i)));
                }
            }
            assert forall|l: int| 0 <= l < i + 1 implies rooted(
                more,
                #[trigger] language_dir(m, test, l),
            ) by {
                if l < i {
                    lemma_still_rooted(out, (c.language, dir), language_dir(m, test, l));
                } else {
                    assert(more[out.len() as int].1 == dir);
                }
            }
            lemma_roots(m, test, i + 1, more);
        }
    }
}

// ---- a unit, the classpaths, the tasks -------------------------------------

/// A unit: its source roots, what tasks generate for it, its resources, and
/// where it is compiled to.
pub open spec fn says_unit(
    j: JsonModel,
    m: ManifestModel,
    test: bool,
    generated: (Seq<Seq<char>>, Seq<Seq<char>>),
    resources: Seq<char>,
    output: Seq<char>,
    directory: Seq<char>,
) -> bool {
    &&& says_sources(member(j, "sources"@), m, test, directory)
    &&& says_paths(member(j, "generated-sources"@), generated.0, directory)
    &&& says_paths(member(j, "resources"@), seq![resources], directory)
    &&& says_paths(member(j, "generated-resources"@), generated.1, directory)
    &&& says_path(member(j, "output"@), output, directory)
}

proof fn lemma_unit(
    m: ManifestModel,
    test: bool,
    generated: (Seq<Seq<char>>, Seq<Seq<char>>),
    resources: Seq<char>,
    output: Seq<char>,
    directory: Seq<char>,
)
    ensures
        says_unit(
            unit_value(roots(m, test), generated.0, resources, generated.1, output, directory),
            m,
            test,
            generated,
            resources,
            output,
            directory,
        ),
{
    let list = roots(m, test);
    lemma_unit_members(list, generated.0, resources, generated.1, output, directory);
    lemma_paths(generated.0, directory, 0, seq![]);
    lemma_paths(generated.1, directory, 0, seq![]);
    lemma_roots(m, test, 0, seq![(Language::Java, java_dir(m, test))]);
    lemma_root_list(list, directory, 0, seq![]);
    let j = unit_value(list, generated.0, resources, generated.1, output, directory);
    assert(named_roots(m, test, list) && says_roots(member(j, "sources"@), list, directory));
}

/// A jar of a classpath: where it is, and of the package that it is of, the
/// coordinate and the sources.
pub open spec fn says_entry(
    j: JsonModel,
    packages: Seq<PackageModel>,
    jar: Seq<char>,
    directory: Seq<char>,
) -> bool {
    &&& says_path(member(j, "jar"@), jar, directory)
    &&& forall|k: int|
        0 <= k < packages.len() && (#[trigger] packages[k]).jar == Some(jar) && (forall|l: int|
            0 <= l < k ==> (#[trigger] packages[l]).jar != Some(jar)) ==> says_text(
            member(j, "coordinate"@),
            packages[k].coordinate,
        ) && (match packages[k].sources {
            Some(s) => says_path(member(j, "sources"@), s, directory),
            None => member(j, "sources"@) == Some(JsonModel::Null),
        })
    &&& (forall|k: int| 0 <= k < packages.len() ==> (#[trigger] packages[k]).jar != Some(jar))
        ==> member(j, "coordinate"@) == Some(JsonModel::Null) && member(j, "sources"@) == Some(
        JsonModel::Null,
    )
}

/// A classpath: its jars, in their order.
pub open spec fn says_classpath(
    j: Option<JsonModel>,
    packages: Seq<PackageModel>,
    jars: Seq<Seq<char>>,
    directory: Seq<char>,
) -> bool {
    j matches Some(JsonModel::Array(a)) && a.len() == jars.len() && forall|k: int|
        0 <= k < jars.len() ==> says_entry(#[trigger] a[k], packages, jars[k], directory)
}

proof fn lemma_package(packages: Seq<PackageModel>, jar: Seq<char>, i: int)
    requires
        0 <= i <= packages.len(),
        forall|l: int| 0 <= l < i ==> (#[trigger] packages[l]).jar != Some(jar),
    ensures
        forall|k: int|
            0 <= k < packages.len() && (#[trigger] packages[k]).jar == Some(jar) && (forall|l: int|
                0 <= l < k ==> (#[trigger] packages[l]).jar != Some(jar)) ==> package_of(
                packages,
                jar,
                i,
            ) == Some(packages[k]),
        (forall|k: int| 0 <= k < packages.len() ==> (#[trigger] packages[k]).jar != Some(jar))
            ==> package_of(packages, jar, i) is None,
    decreases packages.len() - i,
{
    if i < packages.len() && packages[i].jar != Some(jar) {
        lemma_package(packages, jar, i + 1);
    }
}

proof fn lemma_entries(
    packages: Seq<PackageModel>,
    jars: Seq<Seq<char>>,
    directory: Seq<char>,
    i: int,
    out: Seq<JsonModel>,
)
    requires
        0 <= i <= jars.len(),
        out.len() == i,
        forall|k: int| 0 <= k < i ==> says_entry(#[trigger] out[k], packages, jars[k], directory),
    ensures
        says_classpath(
            Some(JsonModel::Array(entries_from(packages, jars, directory, i, out))),
            packages,
            jars,
            directory,
        ),
    decreases jars.len() - i,
{
    if i < jars.len() {
        let e = entry_value(packages, jars[i], directory);
        lemma_entry_members(packages, jars[i], directory);
        lemma_package(packages, jars[i], 0);
        assert(says_entry(e, packages, jars[i], directory));
        let more = out.push(e);
        assert forall|k: int| 0 <= k < i + 1 implies says_entry(
            #[trigger] more[k],
            packages,
            jars[k],
            directory,
        ) by {
            if k < i {
                assert(more[k] == out[k]);
            }
        }
        lemma_entries(packages, jars, directory, i + 1, more);
    }
}

/// The value is the name of a hook that runs the task.
pub open spec fn hook_of_task(v: JsonModel, hooks: HookLists, task: Seq<char>) -> bool {
    exists|h: int|
        0 <= h < hooks.len() && (#[trigger] hooks[h]).1.contains(task) && v == JsonModel::Text(
            hooks[h].0.word(),
        )
}

/// A hook is listed when it runs the task, and no other is.
pub open spec fn says_hooks(j: Option<JsonModel>, hooks: HookLists, task: Seq<char>) -> bool {
    &&& j is Some && j->0 is Array
    &&& forall|h: int|
        0 <= h < hooks.len() && (#[trigger] hooks[h]).1.contains(task) ==> j->0->Array_0.contains(
            JsonModel::Text(hooks[h].0.word()),
        )
    &&& forall|k: int|
        0 <= k < j->0->Array_0.len() ==> hook_of_task(#[trigger] j->0->Array_0[k], hooks, task)
}

proof fn lemma_hook_list(hooks: HookLists, task: Seq<char>, i: int, out: Seq<JsonModel>)
    requires
        0 <= i <= hooks.len(),
        forall|h: int|
            0 <= h < i && (#[trigger] hooks[h]).1.contains(task) ==> out.contains(
                JsonModel::Text(hooks[h].0.word()),
            ),
        forall|k: int| 0 <= k < out.len() ==> hook_of_task(#[trigger] out[k], hooks, task),
    ensures
        says_hooks(Some(JsonModel::Array(hooks_of(hooks, task, i, out))), hooks, task),
    decreases hooks.len() - i,
{
    if i < hooks.len() {
        if hooks[i].1.contains(task) {
            let last = JsonModel::Text(hooks[i].0.word());
            let more = out.push(last);
            assert(more[out.len() as int] == last);
            assert forall|h: int|
                0 <= h < i + 1 && (#[trigger] hooks[h]).1.contains(task) implies more.contains(
                JsonModel::Text(hooks[h].0.word()),
            ) by {
                if h < i {
                    let k = choose|k: int|
                        0 <= k < out.len() && out[k] == JsonModel::Text(hooks[h].0.word());
                    assert(more[k] == out[k]);
                }
            }
            assert forall|k: int| 0 <= k < more.len() implies hook_of_task(
                #[trigger] more[k],
                hooks,
                task,
            ) by {
                if k < out.len() {
                    assert(more[k] == out[k]);
                } else {
                    assert(hooks[i].1.contains(task) && more[k] == last);
                }
            }
            lemma_hook_list(hooks, task, i + 1, more);
        } else {
            lemma_hook_list(hooks, task, i + 1, out);
        }
    }
}

/// A task: its name, what it is for, and the hooks that run it.
pub open spec fn says_task(j: JsonModel, hooks: HookLists, t: TaskModel) -> bool {
    &&& says_text(member(j, "name"@), t.name)
    &&& says_optional(member(j, "description"@), t.description)
    &&& says_hooks(member(j, "hooks"@), hooks, t.name)
}

/// The tasks, in their order.
pub open spec fn says_tasks(j: Option<JsonModel>, hooks: HookLists, tasks: Seq<TaskModel>) -> bool {
    j matches Some(JsonModel::Array(a)) && a.len() == tasks.len() && forall|k: int|
        0 <= k < tasks.len() ==> says_task(#[trigger] a[k], hooks, tasks[k])
}

proof fn lemma_tasks(hooks: HookLists, tasks: Seq<TaskModel>, i: int, out: Seq<JsonModel>)
    requires
        0 <= i <= tasks.len(),
        out.len() == i,
        forall|k: int| 0 <= k < i ==> says_task(#[trigger] out[k], hooks, tasks[k]),
    ensures
        says_tasks(Some(JsonModel::Array(tasks_from(hooks, tasks, i, out))), hooks, tasks),
    decreases tasks.len() - i,
{
    if i < tasks.len() {
        lemma_task_members(hooks, tasks[i]);
        lemma_hook_list(hooks, tasks[i].name, 0, seq![]);
        let more = out.push(task_value(hooks, tasks[i]));
        assert forall|k: int| 0 <= k < i + 1 implies says_task(
            #[trigger] more[k],
            hooks,
            tasks[k],
        ) by {
            if k < i {
                assert(more[k] == out[k]);
            }
        }
        lemma_tasks(hooks, tasks, i + 1, more);
    }
}

// ---- the document ----------------------------------------------------------

/// What the document says of the project.
pub open spec fn says_project(d: JsonModel, m: ManifestModel, directory: Seq<char>) -> bool {
    &&& says_text(inner(d, "project"@, "name"@), m.name)
    &&& says_text(inner(d, "project"@, "version"@), m.version)
    &&& says_optional(inner(d, "project"@, "main-class"@), m.main_class)
    &&& says_optional(inner(d, "project"@, "jrs-version"@), m.jrs_version)
    &&& says_path(inner(d, "project"@, "root"@), m.root, directory)
    &&& says_path(inner(d, "project"@, "manifest"@), m.path, directory)
    &&& says_path(inner(d, "project"@, "lockfile"@), under(m.root, "jrs.lock"@), directory)
}

/// What the document says of the JDK: where it is and its version, or nothing
/// when none was found.
pub open spec fn says_jdk(d: JsonModel, toolchain: Option<ToolchainModel>, directory: Seq<char>) -> bool {
    match toolchain {
        None => member(d, "jdk"@) == Some(JsonModel::Null),
        Some(t) => {
            &&& match t.home {
                Some(home) => says_path(inner(d, "jdk"@, "home"@), home, directory),
                None => inner(d, "jdk"@, "home"@) == Some(JsonModel::Null),
            }
            &&& inner(d, "jdk"@, "version"@) == Some(JsonModel::Int(t.version as i64))
            &&& says_path(inner(d, "jdk"@, "javac"@), t.javac, directory)
            &&& says_path(inner(d, "jdk"@, "java"@), t.java, directory)
        },
    }
}

/// What the document says of Java: the release that the manifest names, or the
/// JDK's where it names none; the target; the encoding; and every argument of
/// javac, in order.
pub open spec fn says_java(d: JsonModel, m: ManifestModel, toolchain: Option<ToolchainModel>) -> bool {
    &&& m.java.source is Some ==> says_number(inner(d, "java"@, "release"@), m.java.source)
    &&& m.java.source is None && toolchain is Some ==> says_number(
        inner(d, "java"@, "release"@),
        Some(toolchain->0.version),
    )
    &&& m.java.source is None && toolchain is None ==> says_number(
        inner(d, "java"@, "release"@),
        None,
    )
    &&& says_number(inner(d, "java"@, "target"@), m.java.target)
    &&& says_text(inner(d, "java"@, "encoding"@), m.java.encoding)
    &&& says_texts(inner(d, "java"@, "javac-args"@), m.java.javac_args)
}

/// What the document says of the classpaths, or nothing when no graph was
/// resolved.
pub open spec fn says_classpaths(
    d: JsonModel,
    resolution: Option<ResolutionModel>,
    directory: Seq<char>,
) -> bool {
    match resolution {
        None => member(d, "classpaths"@) == Some(JsonModel::Null),
        Some(r) => {
            &&& says_classpath(inner(d, "classpaths"@, "compile"@), r.packages, r.compile, directory)
            &&& says_classpath(inner(d, "classpaths"@, "runtime"@), r.packages, r.runtime, directory)
            &&& says_classpath(inner(d, "classpaths"@, "test"@), r.packages, r.test, directory)
        },
    }
}

/// What the whole document says, by its keys, of a manifest, a JDK, a graph and
/// what tasks generate.
pub open spec fn says_document(
    d: JsonModel,
    m: ManifestModel,
    toolchain: Option<ToolchainModel>,
    resolution: Option<ResolutionModel>,
    directory: Seq<char>,
    main: (Seq<Seq<char>>, Seq<Seq<char>>),
    test: (Seq<Seq<char>>, Seq<Seq<char>>),
) -> bool {
    let target = under(m.root, m.target_dir);
    &&& member(d, "version"@) == Some(JsonModel::Int(1))
    &&& says_text(member(d, "jrs"@), VERSION@)
    &&& says_project(d, m, directory)
    &&& says_jdk(d, toolchain, directory)
    &&& says_java(d, m, toolchain)
    &&& says_languages(member(d, "languages"@), m.languages)
    &&& member(d, "main"@) is Some && says_unit(
        member(d, "main"@)->0,
        m,
        false,
        main,
        under(m.root, m.resource_dir),
        under(target, "classes"@),
        directory,
    )
    &&& member(d, "test"@) is Some && says_unit(
        member(d, "test"@)->0,
        m,
        true,
        test,
        under(m.root, m.test_resource_dir),
        under(target, "test-classes"@),
        directory,
    )
    &&& says_path(member(d, "target-dir"@), target, directory)
    &&& says_path(
        member(d, "jar"@),
        under(target, m.name + "-"@ + m.version + ".jar"@),
        directory,
    )
    &&& says_classpaths(d, resolution, directory)
    &&& says_tasks(member(d, "tasks"@), m.hooks, m.tasks)
}

proof fn lemma_says_project(d: JsonModel, m: ManifestModel, directory: Seq<char>)
    requires
        member(d, "project"@) == Some(project_value(m, directory)),
    ensures
        says_project(d, m, directory),
{
    lemma_project_members(m, directory);
}

proof fn lemma_says_jdk(d: JsonModel, t: ToolchainModel, directory: Seq<char>)
    requires
        member(d, "jdk"@) == Some(jdk_value(t, directory)),
    ensures
        says_jdk(d, Some(t), directory),
{
    lemma_jdk_members(t, directory);
}

proof fn lemma_says_java(d: JsonModel, m: ManifestModel, toolchain: Option<ToolchainModel>)
    requires
        member(d, "java"@) == Some(java_value(m, toolchain)),
    ensures
        says_java(d, m, toolchain),
{
    lemma_java_members(m, toolchain);
    lemma_texts(m.java.javac_args, 0, seq![]);
}

proof fn lemma_says_classpaths(d: JsonModel, r: ResolutionModel, directory: Seq<char>)
    requires
        member(d, "classpaths"@) == Some(classpaths_value(r, directory)),
    ensures
        says_classpaths(d, Some(r), directory),
{
    lemma_classpath_members(r, directory);
    lemma_entries(r.packages, r.compile, directory, 0, seq![]);
    lemma_entries(r.packages, r.runtime, directory, 0, seq![]);
    lemma_entries(r.packages, r.test, directory, 0, seq![]);
}

proof fn lemma_says_languages(list: Seq<LanguageModel>)
    ensures
        says_languages(
            Some(
                JsonModel::Array(
                    languages_from(list, 0, seq![language_value(Language::Java, None, None)]),
                ),
            ),
            list,
        ),
{
    lemma_language_members(Language::Java, None, None);
    lemma_languages(list, 0, seq![language_value(Language::Java, None, None)]);
}

/// Each key of the document holds what the manifest, the JDK and the graph say
/// under that name.
pub proof fn the_document_says_what_it_is_made_of(
    m: ManifestModel,
    toolchain: Option<ToolchainModel>,
    resolution: Option<ResolutionModel>,
    directory: Seq<char>,
    main: (Seq<Seq<char>>, Seq<Seq<char>>),
    test: (Seq<Seq<char>>, Seq<Seq<char>>),
)
    ensures
        says_document(
            document(m, toolchain, resolution, directory, main, test),
            m,
            toolchain,
            resolution,
            directory,
            main,
            test,
        ),
{
    let d = document(m, toolchain, resolution, directory, main, test);
    let target = under(m.root, m.target_dir);
    let o = d->Object_0;
    lemma_top(o[2].1, o[3].1, o[4].1, o[5].1, o[6].1, o[7].1, o[8].1, o[9].1, o[10].1, o[11].1);
    lemma_says_project(d, m, directory);
    lemma_says_java(d, m, toolchain);
    if let Some(t) = toolchain {
        lemma_says_jdk(d, t, directory);
    }
    if let Some(r) = resolution {
        lemma_says_classpaths(d, r, directory);
    }
    lemma_says_languages(m.languages);
    lemma_unit(m, false, main, under(m.root, m.resource_dir), under(target, "classes"@), directory);
    lemma_unit(
        m,
        true,
        test,
        under(m.root, m.test_resource_dir),
        under(target, "test-classes"@),
        directory,
    );
    lemma_tasks(m.hooks, m.tasks, 0, seq![]);
}

} // verus!
