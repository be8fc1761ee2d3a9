//! Writing a manifest as TOML.

use crate::coord::{ga_text, Ga};
use crate::coverage::{ratio_text, CoverageMinimum};
use crate::dependency::{
    CENTRAL_URL, Dependency, DependencyModel, Exclusion, Managed, ManagedModel, Repository,
    RepositoryModel,
};
use crate::manifest::{
    JavaConfig, JavaModel, LanguageConfig, LanguageModel, Manifest, ManifestModel, ObfuscateConfig,
    ObfuscateModel, PackageConfig, PackageModel, RunConfig, RunModel, TestConfig, TestModel,
};
use crate::paths::{default_test_resource_dir, resources_beside, slashed, to_slash};
use crate::task::{
    Action, ActionModel, HookLists, Hooks, TaskDef, TaskModel, TaskRef, TaskRefModel,
};
use crate::template::{Template, TemplateModel};
use crate::text::{
    cat2, cat3, cat4, cat5, cat7, chars, decimal, drop_run, join, joined, line_seq, lines, none_of,
    one_of, put, same, sans_tail, show, Class,
};
use crate::chars::{digit, is_digit};
use vstd::prelude::*;

verus! {

/// `s` with what TOML escapes in a basic string escaped.
pub open spec fn escaped_text(s: Seq<char>) -> Seq<char>
    decreases s.len(),
{
    if s.len() == 0 {
        s
    } else {
        let before = escaped_text(s.drop_last());
        let c = s.last();
        if c == '\\' || c == '"' {
            before.push('\\').push(c)
        } else if c == '\n' {
            before.push('\\').push('n')
        } else {
            before.push(c)
        }
    }
}

/// `s` as a TOML string.
pub open spec fn quoted(s: Seq<char>) -> Seq<char> {
    "\""@ + escaped_text(s) + "\""@
}

/// `s` as a TOML string.
pub fn quote(s: &str) -> (r: String)
    ensures
        r@ == quoted(s@),
{
    let cs = chars(s);
    let mut out = String::new();
    let mut i: usize = 0;
    while i < cs.len()
        invariant
            cs@ == s@,
            i <= cs@.len(),
            out@ == escaped_text(s@.take(i as int)),
        decreases cs@.len() - i,
    {
        assert(s@.take(i + 1).drop_last() =~= s@.take(i as int));
        let c: char = cs[i];
        if c == '\\' || c == '"' {
            out.push('\\');
            out.push(c);
        } else if c == '\n' {
            out.push('\\');
            out.push('n');
        } else {
            out.push(c);
        }
        i = i + 1;
    }
    assert(s@.take(i as int) =~= s@);
    cat3("\"", out.as_str(), "\"")
}

/// What escaped text stands for.
pub open spec fn unescaped(s: Seq<char>) -> Seq<char>
    decreases s.len(),
{
    if s.len() == 0 {
        s
    } else if s[0] == '\\' && s.len() > 1 {
        seq![
            if s[1] == 'n' {
                '\n'
            } else {
                s[1]
            },
        ] + unescaped(s.skip(2))
    } else {
        seq![s[0]] + unescaped(s.skip(1))
    }
}

proof fn lemma_escape_head(s: Seq<char>)
    requires
        s.len() > 0,
    ensures
        escaped_text(s) == escaped_text(seq![s[0]]) + escaped_text(s.skip(1)),
    decreases s.len(),
{
    if s.len() == 1 {
        assert(s =~= seq![s[0]]);
        assert(s.skip(1) =~= seq![]);
        assert(escaped_text(s) + Seq::<char>::empty() =~= escaped_text(s));
    } else {
        lemma_escape_head(s.drop_last());
        assert(s.drop_last().skip(1) =~= s.skip(1).drop_last());
        assert(s.skip(1).last() == s.last());
        assert(escaped_text(s) =~= escaped_text(seq![s[0]]) + escaped_text(s.skip(1)));
    }
}

/// What is quoted can be read back: no two texts are quoted alike.
pub proof fn quoting_loses_nothing(s: Seq<char>)
    ensures
        unescaped(escaped_text(s)) == s,
    decreases s.len(),
{
    if s.len() > 0 {
        lemma_escape_head(s);
        quoting_loses_nothing(s.skip(1));
        let head = escaped_text(seq![s[0]]);
        let e = escaped_text(s);
        reveal_with_fuel(escaped_text, 2);
        assert(seq![s[0]].drop_last() =~= seq![]);
        assert(escaped_text(seq![s[0]].drop_last()) =~= seq![]);
        if s[0] == '\\' || s[0] == '"' || s[0] == '\n' {
            assert(head.len() == 2);
            assert(e.skip(2) =~= escaped_text(s.skip(1)));
        } else {
            assert(head =~= seq![s[0]]);
            assert(e.skip(1) =~= escaped_text(s.skip(1)));
        }
        assert(unescaped(e) =~= seq![s[0]] + s.skip(1));
        assert(seq![s[0]] + s.skip(1) =~= s);
    }
}

// ---- lines -----------------------------------------------------------------

/// The texts as TOML strings.
pub open spec fn each_quoted(items: Seq<Seq<char>>) -> Seq<Seq<char>> {
    Seq::new(items.len(), |i: int| quoted(items[i]))
}

/// The texts as a TOML array.
pub open spec fn quoted_list(items: Seq<Seq<char>>) -> Seq<char> {
    "["@ + joined(each_quoted(items), ", "@) + "]"@
}

pub fn quote_list(items: &Vec<String>) -> (r: String)
    ensures
        r@ == quoted_list(items.deep_view()),
{
    let ghost all = items.deep_view();
    let mut out: Vec<String> = none_of();
    let mut i: usize = 0;
    while i < items.len()
        invariant
            all == items.deep_view(),
            i <= items@.len(),
            out.deep_view() =~= each_quoted(all).take(i as int),
        decreases items@.len() - i,
    {
        put(&mut out, quote(items[i].as_str()));
        i = i + 1;
    }
    assert(each_quoted(all).take(i as int) =~= each_quoted(all));
    cat3("[", join(&out, ", ").as_str(), "]")
}

/// `key = value`, as a line.
pub open spec fn line_of(key: Seq<char>, value: Seq<char>) -> Seq<char> {
    key + " = "@ + value + "\n"@
}

fn line(key: &str, value: &str) -> (r: String)
    ensures
        r@ == line_of(key@, value@),
{
    cat4(key, " = ", value, "\n")
}

/// `key = "value"`, where there is a value.
pub open spec fn text_line(key: Seq<char>, value: Option<Seq<char>>) -> Seq<char> {
    match value {
        Some(v) => line_of(key, quoted(v)),
        None => ""@,
    }
}

fn write_text(key: &str, value: &Option<String>) -> (r: String)
    ensures
        r@ == text_line(key@, value.deep_view()),
{
    match value {
        Some(v) => line(key, quote(v.as_str()).as_str()),
        None => "".to_owned(),
    }
}

/// `key = 21`, where there is a number.
pub open spec fn number_line(key: Seq<char>, value: Option<u32>) -> Seq<char> {
    match value {
        Some(v) => line_of(key, decimal(v as nat)),
        None => ""@,
    }
}

fn write_number(key: &str, value: Option<u32>) -> (r: String)
    ensures
        r@ == number_line(key@, value),
{
    match value {
        Some(v) => line(key, show(v as u128).as_str()),
        None => "".to_owned(),
    }
}

/// `key = ["a", "b"]`, where there is an item.
pub open spec fn list_line(key: Seq<char>, items: Seq<Seq<char>>) -> Seq<char> {
    if items.len() > 0 {
        line_of(key, quoted_list(items))
    } else {
        ""@
    }
}

fn write_list(key: &str, items: &Vec<String>) -> (r: String)
    ensures
        r@ == list_line(key@, items.deep_view()),
{
    if items.len() > 0 {
        line(key, quote_list(items).as_str())
    } else {
        "".to_owned()
    }
}

/// `key = "path"`, where the path is not the default.
pub open spec fn path_line(key: Seq<char>, path: Seq<char>, default: Seq<char>) -> Seq<char> {
    if slashed(path) != default {
        line_of(key, quoted(slashed(path)))
    } else {
        ""@
    }
}

fn write_path(key: &str, path: &str, default: &str) -> (r: String)
    ensures
        r@ == path_line(key@, path@, default@),
{
    let value = to_slash(path);
    if !same(value.as_str(), default) {
        line(key, quote(value.as_str()).as_str())
    } else {
        "".to_owned()
    }
}

/// What the templates are written as.
pub open spec fn raws(items: Seq<TemplateModel>) -> Seq<Seq<char>> {
    Seq::new(items.len(), |i: int| items[i].raw)
}

fn raw_texts(items: &Vec<Template>) -> (r: Vec<String>)
    ensures
        r.deep_view() == raws(items.deep_view()),
{
    let ghost all = items.deep_view();
    let mut out: Vec<String> = none_of();
    let mut i: usize = 0;
    while i < items.len()
        invariant
            all == items.deep_view(),
            i <= items@.len(),
            out.deep_view() =~= raws(all).take(i as int),
        decreases items@.len() - i,
    {
        assert(all[i as int] == items@[i as int].deep_view());
        put(&mut out, items[i].raw.clone());
        i = i + 1;
    }
    assert(raws(all).take(i as int) =~= raws(all));
    out
}

/// `NAME = "value"` for each variable.
pub open spec fn each_variable(env: Seq<(Seq<char>, TemplateModel)>) -> Seq<Seq<char>> {
    Seq::new(env.len(), |i: int| quoted(env[i].0) + " = "@ + quoted(env[i].1.raw))
}

/// An `env` table as one inline TOML table, in declaration order.
pub open spec fn env_text(env: Seq<(Seq<char>, TemplateModel)>) -> Seq<char> {
    "{ "@ + joined(each_variable(env), ", "@) + " }"@
}

/// `env = { ... }`, where there is a variable.
pub open spec fn env_line(env: Seq<(Seq<char>, TemplateModel)>) -> Seq<char> {
    if env.len() > 0 {
        line_of("env"@, env_text(env))
    } else {
        ""@
    }
}

/// An `env` table as one inline TOML table, in declaration order.
pub fn inline_env(env: &Vec<(String, Template)>) -> (r: String)
    ensures
        r@ == env_text(env.deep_view()),
{
    let ghost all = env.deep_view();
    let mut out: Vec<String> = none_of();
    let mut i: usize = 0;
    while i < env.len()
        invariant
            all == env.deep_view(),
            i <= env@.len(),
            out.deep_view() =~= each_variable(all).take(i as int),
        decreases env@.len() - i,
    {
        let (name, value) = &env[i];
        assert(all[i as int] == (name@, value.deep_view()));
        put(
            &mut out,
            cat3(quote(name.as_str()).as_str(), " = ", quote(value.raw.as_str()).as_str()),
        );
        i = i + 1;
    }
    assert(each_variable(all).take(i as int) =~= each_variable(all));
    cat3("{ ", join(&out, ", ").as_str(), " }")
}

fn write_env(env: &Vec<(String, Template)>) -> (r: String)
    ensures
        r@ == env_line(env.deep_view()),
{
    if env.len() > 0 {
        line("env", inline_env(env).as_str())
    } else {
        "".to_owned()
    }
}

// ---- dependencies ----------------------------------------------------------

pub open spec fn gas(list: Seq<(Seq<char>, Seq<char>)>) -> Seq<Seq<char>> {
    Seq::new(list.len(), |i: int| ga_text(list[i].0, list[i].1))
}

fn exclusion_texts(list: &Vec<Exclusion>) -> (r: Vec<String>)
    ensures
        r.deep_view() == gas(list.deep_view()),
{
    let ghost all = list.deep_view();
    let mut out: Vec<String> = none_of();
    let mut i: usize = 0;
    while i < list.len()
        invariant
            all == list.deep_view(),
            i <= list@.len(),
            out.deep_view() =~= gas(all).take(i as int),
        decreases list@.len() - i,
    {
        assert(all[i as int] == list@[i as int].deep_view());
        put(&mut out, list[i].to_text());
        i = i + 1;
    }
    assert(gas(all).take(i as int) =~= gas(all));
    out
}

fn agent_texts(list: &Vec<Ga>) -> (r: Vec<String>)
    ensures
        r.deep_view() == gas(list.deep_view()),
{
    let ghost all = list.deep_view();
    let mut out: Vec<String> = none_of();
    let mut i: usize = 0;
    while i < list.len()
        invariant
            all == list.deep_view(),
            i <= list@.len(),
            out.deep_view() =~= gas(all).take(i as int),
        decreases list@.len() - i,
    {
        assert(all[i as int] == list@[i as int].deep_view());
        put(&mut out, list[i].to_text());
        i = i + 1;
    }
    assert(gas(all).take(i as int) =~= gas(all));
    out
}

/// The fields, and one more where it is wanted.
pub open spec fn and_field(fields: Seq<Seq<char>>, wanted: bool, field: Seq<char>) -> Seq<
    Seq<char>,
> {
    if wanted {
        fields.push(field)
    } else {
        fields
    }
}

/// The fields, and the switches that are on.
pub open spec fn and_switches(fields: Seq<Seq<char>>, d: DependencyModel) -> Seq<Seq<char>> {
    and_field(
        and_field(fields, d.compile_only, "compile-only = true"@),
        d.runtime_only,
        "runtime-only = true"@,
    )
}

/// The classifier, where it can stand in the key.
pub open spec fn key_classifier(d: DependencyModel) -> Option<Seq<char>> {
    match d.classifier {
        Some(c) => if c.len() > 0 && digit(c[0]) {
            None
        } else {
            Some(c)
        },
        None => None,
    }
}

/// The classifier, where it cannot stand in the key.
pub open spec fn table_classifier(d: DependencyModel) -> Option<Seq<char>> {
    if key_classifier(d) is None {
        d.classifier
    } else {
        None
    }
}

/// The fields of the long form.
pub open spec fn long_fields(d: DependencyModel) -> Seq<Seq<char>> {
    let fields = and_field(seq![], !d.managed(), "version = "@ + quoted(d.version));
    let fields = match table_classifier(d) {
        Some(c) => fields.push("classifier = "@ + quoted(c)),
        None => fields,
    };
    and_switches(
        and_field(
            fields,
            d.exclusions.len() > 0,
            "exclusions = "@ + quoted_list(gas(d.exclusions)),
        ),
        d,
    )
}

/// A dependency as a table entry: its key, unquoted, and its value as TOML.
pub open spec fn entry_of(d: DependencyModel) -> (Seq<char>, Seq<char>) {
    match d.path {
        Some(path) => (
            d.artifact,
            "{ "@ + joined(and_switches(seq!["path = "@ + quoted(path)], d), ", "@) + " }"@,
        ),
        None => {
            let key = match key_classifier(d) {
                Some(c) => d.group + ":"@ + d.artifact + ":"@ + c,
                None => d.group + ":"@ + d.artifact,
            };
            if d.plain() && table_classifier(d) is None && !d.managed() {
                (key, quoted(d.version))
            } else if long_fields(d).len() == 0 {
                (key, "{}"@)
            } else {
                (key, "{ "@ + joined(long_fields(d), ", "@) + " }"@)
            }
        },
    }
}

/// A dependency as a table entry: its key, unquoted, and its value as TOML.
/// `jrs add` writes exactly this, so an added line reads like a generated one.
pub fn dependency_entry(d: &Dependency) -> (r: (String, String))
    ensures
        r.deep_view() == entry_of(d.deep_view()),
{
    let ghost m = d.deep_view();
    if let Some(path) = &d.path {
        let mut fields: Vec<String> = one_of(cat2("path = ", quote(path.as_str()).as_str()));
        if d.compile_only {
            put(&mut fields, "compile-only = true".to_owned());
        }
        if d.runtime_only {
            put(&mut fields, "runtime-only = true".to_owned());
        }
        return (d.artifact.clone(), cat3("{ ", join(&fields, ", ").as_str(), " }"));
    }
    // The classifier goes in the key when it can, so two classifiers of one
    // artifact stay two distinct keys.
    let mut in_key: Option<String> = None;
    let mut in_table: Option<String> = None;
    if let Some(c) = &d.classifier {
        if !c.as_str().is_empty() && is_digit(c.as_str().get_char(0)) {
            in_table = Some(c.clone());
        } else {
            in_key = Some(c.clone());
        }
    }
    assert(in_key.deep_view() == key_classifier(m));
    assert(in_table.deep_view() == table_classifier(m));
    let key = match &in_key {
        Some(c) => cat5(d.group.as_str(), ":", d.artifact.as_str(), ":", c.as_str()),
        None => cat3(d.group.as_str(), ":", d.artifact.as_str()),
    };
    if d.is_plain() && in_table.is_none() && !d.is_managed() {
        return (key, quote(d.version.as_str()));
    }
    // A managed dependency has no `version` field; `{}` alone says so.
    let mut fields: Vec<String> = none_of();
    if !d.is_managed() {
        put(&mut fields, cat2("version = ", quote(d.version.as_str()).as_str()));
    }
    if let Some(c) = &in_table {
        put(&mut fields, cat2("classifier = ", quote(c.as_str()).as_str()));
    }
    if d.exclusions.len() > 0 {
        let patterns = exclusion_texts(&d.exclusions);
        put(&mut fields, cat2("exclusions = ", quote_list(&patterns).as_str()));
    }
    if d.compile_only {
        put(&mut fields, "compile-only = true".to_owned());
    }
    if d.runtime_only {
        put(&mut fields, "runtime-only = true".to_owned());
    }
    assert(fields.deep_view() =~= long_fields(m));
    if fields.len() == 0 {
        return (key, "{}".to_owned());
    }
    (key, cat3("{ ", join(&fields, ", ").as_str(), " }"))
}

/// One `[dependencies]` line.
pub open spec fn dependency_line(d: DependencyModel) -> Seq<char> {
    line_of(quoted(entry_of(d).0), entry_of(d).1)
}

fn render_dependency(d: &Dependency) -> (r: String)
    ensures
        r@ == dependency_line(d.deep_view()),
{
    let (key, value) = dependency_entry(d);
    line(quote(key.as_str()).as_str(), value.as_str())
}

/// The lines of the first `n` dependencies.
pub open spec fn dependency_lines(list: Seq<DependencyModel>, n: int) -> Seq<char>
    decreases n,
{
    if n <= 0 {
        ""@
    } else {
        dependency_lines(list, n - 1) + dependency_line(list[n - 1])
    }
}

/// A table of dependencies under its header, where there is one to list.
#[verifier::opaque]
pub open spec fn dependency_section(header: Seq<char>, list: Seq<DependencyModel>) -> Seq<char> {
    if list.len() == 0 {
        ""@
    } else {
        "\n["@ + header + "]\n"@ + dependency_lines(list, list.len() as int)
    }
}

fn write_dependencies(header: &str, list: &Vec<Dependency>) -> (r: String)
    ensures
        r@ == dependency_section(header@, list.deep_view()),
{
    proof {
        reveal(dependency_section);
    }
    if list.len() == 0 {
        return "".to_owned();
    }
    let ghost all = list.deep_view();
    let mut body = "".to_owned();
    let mut i: usize = 0;
    while i < list.len()
        invariant
            all == list.deep_view(),
            i <= list@.len(),
            body@ == dependency_lines(all, i as int),
        decreases list@.len() - i,
    {
        assert(all[i as int] == list@[i as int].deep_view());
        body.append(render_dependency(&list[i]).as_str());
        i = i + 1;
    }
    cat4("\n[", header, "]\n", body.as_str())
}

// ---- the tables ------------------------------------------------------------

/// The first `n` lines as comments.
pub open spec fn comment_lines(text: Seq<Seq<char>>, n: int) -> Seq<char>
    decreases n,
{
    if n <= 0 {
        ""@
    } else {
        comment_lines(text, n - 1) + ("# "@ + text[n - 1] + "\n"@)
    }
}

/// The comment above everything.
pub open spec fn header_section(header: Option<Seq<char>>) -> Seq<char> {
    match header {
        None => ""@,
        Some(h) => comment_lines(line_seq(h), line_seq(h).len() as int) + "\n"@,
    }
}

fn write_header(header: Option<&str>) -> (r: String)
    ensures
        r@ == header_section(header.deep_view()),
{
    match header {
        None => "".to_owned(),
        Some(h) => {
            let text = lines(h);
            let ghost all = text.deep_view();
            let mut out = "".to_owned();
            let mut i: usize = 0;
            while i < text.len()
                invariant
                    all == text.deep_view(),
                    all == line_seq(h@),
                    i <= text@.len(),
                    out@ == comment_lines(all, i as int),
                decreases text@.len() - i,
            {
                assert(all[i as int] == text@[i as int]@);
                out.append(cat3("# ", text[i], "\n").as_str());
                i = i + 1;
            }
            cat2(out.as_str(), "\n")
        },
    }
}

#[verifier::opaque]
pub open spec fn project_section(m: ManifestModel) -> Seq<char> {
    "[project]\n"@ + line_of("name"@, quoted(m.name)) + line_of("version"@, quoted(m.version))
        + text_line("main-class"@, m.main_class) + path_line(
        "source-dir"@,
        m.source_dir,
        "src/main/java"@,
    ) + path_line("test-dir"@, m.test_dir, "src/test/java"@) + path_line(
        "resource-dir"@,
        m.resource_dir,
        "src/main/resources"@,
    ) + path_line("target-dir"@, m.target_dir, "target"@) + path_line(
        "test-resource-dir"@,
        m.test_resource_dir,
        slashed(resources_beside(m.test_dir)),
    ) + text_line("jrs-version"@, m.jrs_version)
}

fn write_project(m: &Manifest) -> (r: String)
    ensures
        r@ == project_section(m.deep_view()),
{
    proof {
        reveal(project_section);
    }
    let mut s = "[project]\n".to_owned();
    s.append(line("name", quote(m.name.as_str()).as_str()).as_str());
    s.append(line("version", quote(m.version.as_str()).as_str()).as_str());
    s.append(write_text("main-class", &m.main_class).as_str());
    s.append(write_path("source-dir", m.source_dir.as_str(), "src/main/java").as_str());
    s.append(write_path("test-dir", m.test_dir.as_str(), "src/test/java").as_str());
    s.append(write_path("resource-dir", m.resource_dir.as_str(), "src/main/resources").as_str());
    s.append(write_path("target-dir", m.target_dir.as_str(), "target").as_str());
    let beside = to_slash(default_test_resource_dir(m.test_dir.as_str()).as_str());
    s.append(
        write_path("test-resource-dir", m.test_resource_dir.as_str(), beside.as_str()).as_str(),
    );
    s.append(write_text("jrs-version", &m.jrs_version).as_str());
    s
}

#[verifier::opaque]
pub open spec fn java_section(j: JavaModel) -> Seq<char> {
    if j.source is Some || j.target is Some || j.encoding != "UTF-8"@ || j.javac_args.len() > 0
        || j.javadoc_args.len() > 0 || j.jdk is Some {
        "\n[java]\n"@ + number_line("source"@, j.source) + number_line(
            "target"@,
            if j.target == j.source {
                None
            } else {
                j.target
            },
        ) + (if j.encoding != "UTF-8"@ {
            line_of("encoding"@, quoted(j.encoding))
        } else {
            ""@
        }) + list_line("javac-args"@, j.javac_args) + list_line("javadoc-args"@, j.javadoc_args)
            + number_line("jdk"@, j.jdk)
    } else {
        ""@
    }
}

fn write_java(j: &JavaConfig) -> (r: String)
    ensures
        r@ == java_section(j.deep_view()),
{
    proof {
        reveal(java_section);
    }
    let odd = !same(j.encoding.as_str(), "UTF-8");
    if !(j.source.is_some() || j.target.is_some() || odd || j.javac_args.len() > 0
        || j.javadoc_args.len() > 0 || j.jdk.is_some()) {
        return "".to_owned();
    }
    let mut s = "\n[java]\n".to_owned();
    s.append(write_number("source", j.source).as_str());
    let target: Option<u32> = match (j.target, j.source) {
        (Some(a), Some(b)) => if a == b {
            None
        } else {
            Some(a)
        },
        (other, _) => other,
    };
    s.append(write_number("target", target).as_str());
    let encoding = if odd {
        line("encoding", quote(j.encoding.as_str()).as_str())
    } else {
        "".to_owned()
    };
    s.append(encoding.as_str());
    s.append(write_list("javac-args", &j.javac_args).as_str());
    s.append(write_list("javadoc-args", &j.javadoc_args).as_str());
    s.append(write_number("jdk", j.jdk).as_str());
    s
}

#[verifier::opaque]
pub open spec fn language_section(c: LanguageModel) -> Seq<char> {
    let key = c.language.word();
    "\n["@ + key + "]\n"@ + line_of("version"@, quoted(c.version)) + path_line(
        "source-dir"@,
        c.source_dir,
        "src/main/"@ + key,
    ) + path_line("test-dir"@, c.test_dir, "src/test/"@ + key) + list_line(
        c.language.args_word(),
        c.compiler_args,
    ) + list_line("compiler-jvm-args"@, c.compiler_jvm_args)
}

fn write_language(c: &LanguageConfig) -> (r: String)
    ensures
        r@ == language_section(c.deep_view()),
{
    proof {
        reveal(language_section);
    }
    let key = c.language.key();
    let mut s = cat3("\n[", key, "]\n");
    s.append(line("version", quote(c.version.as_str()).as_str()).as_str());
    s.append(
        write_path("source-dir", c.source_dir.as_str(), cat2("src/main/", key).as_str()).as_str(),
    );
    s.append(
        write_path("test-dir", c.test_dir.as_str(), cat2("src/test/", key).as_str()).as_str(),
    );
    s.append(write_list(c.language.args_key(), &c.compiler_args).as_str());
    s.append(write_list("compiler-jvm-args", &c.compiler_jvm_args).as_str());
    s
}

/// The tables of the first `n` languages.
pub open spec fn language_sections(list: Seq<LanguageModel>, n: int) -> Seq<char>
    decreases n,
{
    if n <= 0 {
        ""@
    } else {
        language_sections(list, n - 1) + language_section(list[n - 1])
    }
}

fn write_languages(list: &Vec<LanguageConfig>) -> (r: String)
    ensures
        r@ == language_sections(list.deep_view(), list@.len() as int),
{
    let ghost all = list.deep_view();
    let mut s = "".to_owned();
    let mut i: usize = 0;
    while i < list.len()
        invariant
            all == list.deep_view(),
            i <= list@.len(),
            s@ == language_sections(all, i as int),
        decreases list@.len() - i,
    {
        assert(all[i as int] == list@[i as int].deep_view());
        s.append(write_language(&list[i]).as_str());
        i = i + 1;
    }
    s
}

/// The `java-agents` and `env` lines `[run]` and `[test]` share.
pub open spec fn jvm_lines(
    agents: Seq<(Seq<char>, Seq<char>)>,
    env: Seq<(Seq<char>, TemplateModel)>,
) -> Seq<char> {
    list_line("java-agents"@, gas(agents)) + env_line(env)
}

/// The `java-agents` and `env` lines `[run]` and `[test]` share.
pub fn render_jvm_extras(agents: &Vec<Ga>, env: &Vec<(String, Template)>) -> (r: String)
    ensures
        r@ == jvm_lines(agents.deep_view(), env.deep_view()),
{
    cat2(write_list("java-agents", &agent_texts(agents)).as_str(), write_env(env).as_str())
}

#[verifier::opaque]
pub open spec fn run_section(c: RunModel) -> Seq<char> {
    if c.jvm_args.len() > 0 || c.java_agents.len() > 0 || c.env.len() > 0 || c.cwd is Some {
        "\n[run]\n"@ + list_line("jvm-args"@, c.jvm_args) + jvm_lines(c.java_agents, c.env)
            + text_line(
            "cwd"@,
            match c.cwd {
                Some(t) => Some(t.raw),
                None => None,
            },
        )
    } else {
        ""@
    }
}

/// What an optional template is written as.
fn raw_of(t: &Option<Template>) -> (r: Option<String>)
    ensures
        r.deep_view() == (match t.deep_view() {
            Some(t) => Some(t.raw),
            None => None,
        }),
{
    match t {
        Some(t) => Some(t.raw.clone()),
        None => None,
    }
}

fn write_run(c: &RunConfig) -> (r: String)
    ensures
        r@ == run_section(c.deep_view()),
{
    proof {
        reveal(run_section);
    }
    if !(c.jvm_args.len() > 0 || c.java_agents.len() > 0 || c.env.len() > 0 || c.cwd.is_some()) {
        return "".to_owned();
    }
    cat4(
        "\n[run]\n",
        write_list("jvm-args", &c.jvm_args).as_str(),
        render_jvm_extras(&c.java_agents, &c.env).as_str(),
        write_text("cwd", &raw_of(&c.cwd)).as_str(),
    )
}

/// `line = 0.8` for each minimum.
pub open spec fn each_minimum(list: Seq<CoverageMinimum>) -> Seq<Seq<char>> {
    Seq::new(
        list.len(),
        |i: int| list[i].counter.word() + " = "@ + ratio_text(list[i].basis_points as nat),
    )
}

pub open spec fn minimum_line(list: Seq<CoverageMinimum>) -> Seq<char> {
    if list.len() > 0 {
        line_of("coverage-minimum"@, "{ "@ + joined(each_minimum(list), ", "@) + " }"@)
    } else {
        ""@
    }
}

fn write_minimums(list: &Vec<CoverageMinimum>) -> (r: String)
    ensures
        r@ == minimum_line(list.deep_view()),
{
    if list.len() == 0 {
        return "".to_owned();
    }
    let ghost all = list.deep_view();
    let mut out: Vec<String> = none_of();
    let mut i: usize = 0;
    while i < list.len()
        invariant
            all == list.deep_view(),
            i <= list@.len(),
            out.deep_view() =~= each_minimum(all).take(i as int),
        decreases list@.len() - i,
    {
        assert(all[i as int] == list@[i as int]);
        put(&mut out, cat3(list[i].counter.key(), " = ", list[i].ratio().as_str()));
        i = i + 1;
    }
    assert(each_minimum(all).take(i as int) =~= each_minimum(all));
    line("coverage-minimum", cat3("{ ", join(&out, ", ").as_str(), " }").as_str())
}

#[verifier::opaque]
pub open spec fn test_section(c: TestModel) -> Seq<char> {
    if c.jvm_args.len() > 0 || c.jacoco_version is Some || c.java_agents.len() > 0 || c.env.len()
        > 0 || c.retries > 0 || c.forks > 0 || c.coverage_minimum.len() > 0 {
        "\n[test]\n"@ + list_line("jvm-args"@, c.jvm_args) + text_line(
            "jacoco-version"@,
            c.jacoco_version,
        ) + jvm_lines(c.java_agents, c.env) + number_line(
            "retries"@,
            if c.retries > 0 {
                Some(c.retries)
            } else {
                None
            },
        ) + number_line(
            "forks"@,
            if c.forks > 0 {
                Some(c.forks)
            } else {
                None
            },
        ) + minimum_line(c.coverage_minimum)
    } else {
        ""@
    }
}

fn write_test(c: &TestConfig) -> (r: String)
    ensures
        r@ == test_section(c.deep_view()),
{
    proof {
        reveal(test_section);
    }
    if !(c.jvm_args.len() > 0 || c.jacoco_version.is_some() || c.java_agents.len() > 0
        || c.env.len() > 0 || c.retries > 0 || c.forks > 0 || c.coverage_minimum.len() > 0) {
        return "".to_owned();
    }
    let retries: Option<u32> = if c.retries > 0 {
        Some(c.retries)
    } else {
        None
    };
    let forks: Option<u32> = if c.forks > 0 {
        Some(c.forks)
    } else {
        None
    };
    cat7(
        "\n[test]\n",
        write_list("jvm-args", &c.jvm_args).as_str(),
        write_text("jacoco-version", &c.jacoco_version).as_str(),
        render_jvm_extras(&c.java_agents, &c.env).as_str(),
        write_number("retries", retries).as_str(),
        write_number("forks", forks).as_str(),
        write_minimums(&c.coverage_minimum).as_str(),
    )
}

/// The lines of the first `n` attributes.
pub open spec fn attribute_lines(list: Seq<(Seq<char>, TemplateModel)>, n: int) -> Seq<char>
    decreases n,
{
    if n <= 0 {
        ""@
    } else {
        attribute_lines(list, n - 1) + line_of(list[n - 1].0, quoted(list[n - 1].1.raw))
    }
}

#[verifier::opaque]
pub open spec fn package_section(c: PackageModel) -> Seq<char> {
    (if c.add_modules.len() > 0 || c.native_image_args.len() > 0 {
        "\n[package]\n"@ + list_line("add-modules"@, c.add_modules) + list_line(
            "native-image-args"@,
            c.native_image_args,
        )
    } else {
        ""@
    }) + (if c.manifest.len() > 0 {
        "\n[package.manifest]\n"@ + attribute_lines(c.manifest, c.manifest.len() as int)
    } else {
        ""@
    })
}

fn write_package(c: &PackageConfig) -> (r: String)
    ensures
        r@ == package_section(c.deep_view()),
{
    proof {
        reveal(package_section);
    }
    let first = if c.add_modules.len() > 0 || c.native_image_args.len() > 0 {
        cat3(
            "\n[package]\n",
            write_list("add-modules", &c.add_modules).as_str(),
            write_list("native-image-args", &c.native_image_args).as_str(),
        )
    } else {
        "".to_owned()
    };
    if c.manifest.len() == 0 {
        return cat2(first.as_str(), "");
    }
    // Attribute names are validated to bare-key characters on the way in, so
    // they need no quoting.
    let ghost all = c.manifest.deep_view();
    let mut body = "".to_owned();
    let mut i: usize = 0;
    while i < c.manifest.len()
        invariant
            all == c.manifest.deep_view(),
            i <= c.manifest@.len(),
            body@ == attribute_lines(all, i as int),
        decreases c.manifest@.len() - i,
    {
        let (name, value) = &c.manifest[i];
        assert(all[i as int] == (name@, value.deep_view()));
        body.append(line(name.as_str(), quote(value.raw.as_str()).as_str()).as_str());
        i = i + 1;
    }
    cat2(first.as_str(), cat2("\n[package.manifest]\n", body.as_str()).as_str())
}

pub open spec fn managed_line(m: ManagedModel) -> Seq<char> {
    line_of(
        quoted(ga_text(m.group, m.artifact)),
        if m.bom {
            "{ version = "@ + quoted(m.version) + ", bom = true }"@
        } else {
            quoted(m.version)
        },
    )
}

/// The lines of the first `n` managed versions.
pub open spec fn managed_lines(list: Seq<ManagedModel>, n: int) -> Seq<char>
    decreases n,
{
    if n <= 0 {
        ""@
    } else {
        managed_lines(list, n - 1) + managed_line(list[n - 1])
    }
}

#[verifier::opaque]
pub open spec fn managed_section(list: Seq<ManagedModel>) -> Seq<char> {
    if list.len() == 0 {
        ""@
    } else {
        "\n[managed]\n"@ + managed_lines(list, list.len() as int)
    }
}

fn write_managed(list: &Vec<Managed>) -> (r: String)
    ensures
        r@ == managed_section(list.deep_view()),
{
    proof {
        reveal(managed_section);
    }
    if list.len() == 0 {
        return "".to_owned();
    }
    let ghost all = list.deep_view();
    let mut body = "".to_owned();
    let mut i: usize = 0;
    while i < list.len()
        invariant
            all == list.deep_view(),
            i <= list@.len(),
            body@ == managed_lines(all, i as int),
        decreases list@.len() - i,
    {
        let m = &list[i];
        assert(all[i as int] == m.deep_view());
        let value = if m.bom {
            cat3("{ version = ", quote(m.version.as_str()).as_str(), ", bom = true }")
        } else {
            quote(m.version.as_str())
        };
        body.append(line(quote(m.key().as_str()).as_str(), value.as_str()).as_str());
        i = i + 1;
    }
    cat2("\n[managed]\n", body.as_str())
}

/// A repository that the manifest has to name: any but Central for everything.
pub open spec fn extra(r: RepositoryModel) -> bool {
    sans_tail(r.url, Class::One('/')) != CENTRAL_URL@ || r.groups.len() > 0
}

pub open spec fn repository_line(r: RepositoryModel) -> Seq<char> {
    line_of(
        quoted(r.name),
        if r.groups.len() == 0 {
            quoted(r.url)
        } else {
            "{ url = "@ + quoted(r.url) + ", groups = "@ + quoted_list(r.groups) + " }"@
        },
    )
}

/// The lines of the first `n` repositories that have to be named.
pub open spec fn repository_lines(list: Seq<RepositoryModel>, n: int) -> Seq<char>
    decreases n,
{
    if n <= 0 {
        ""@
    } else {
        repository_lines(list, n - 1) + (if extra(list[n - 1]) {
            repository_line(list[n - 1])
        } else {
            ""@
        })
    }
}

#[verifier::opaque]
pub open spec fn repository_section(list: Seq<RepositoryModel>) -> Seq<char> {
    if exists|i: int| 0 <= i < list.len() && extra(#[trigger] list[i]) {
        "\n[repositories]\n"@ + repository_lines(list, list.len() as int)
    } else {
        ""@
    }
}

fn write_repositories(list: &Vec<Repository>) -> (r: String)
    ensures
        r@ == repository_section(list.deep_view()),
{
    proof {
        reveal(repository_section);
    }
    let ghost all = list.deep_view();
    let mut any = false;
    let mut body = "".to_owned();
    let mut i: usize = 0;
    while i < list.len()
        invariant
            all == list.deep_view(),
            i <= list@.len(),
            body@ == repository_lines(all, i as int),
            any ==> exists|j: int| 0 <= j < all.len() && extra(#[trigger] all[j]),
            !any ==> forall|j: int| 0 <= j < i ==> !extra(#[trigger] all[j]),
        decreases list@.len() - i,
    {
        let r = &list[i];
        assert(all[i as int] == r.deep_view());
        let text = if !same(drop_run(r.url.as_str(), Class::One('/')), CENTRAL_URL)
            || r.groups.len() > 0 {
            assert(extra(all[i as int]));
            any = true;
            let value = if r.groups.len() == 0 {
                quote(r.url.as_str())
            } else {
                cat5(
                    "{ url = ",
                    quote(r.url.as_str()).as_str(),
                    ", groups = ",
                    quote_list(&r.groups).as_str(),
                    " }",
                )
            };
            line(quote(r.name.as_str()).as_str(), value.as_str())
        } else {
            "".to_owned()
        };
        body.append(text.as_str());
        i = i + 1;
    }
    if any {
        cat2("\n[repositories]\n", body.as_str())
    } else {
        "".to_owned()
    }
}

// ---- tasks and hooks -------------------------------------------------------

pub open spec fn action_line(action: Option<ActionModel>) -> Seq<char> {
    match action {
        Some(ActionModel::Run(argv)) => line_of("run"@, quoted_list(raws(argv))),
        Some(ActionModel::Shell(script)) => line_of("shell"@, quoted(script)),
        Some(ActionModel::Script(file)) => line_of("script"@, quoted(file.raw)),
        Some(ActionModel::Main(class)) => line_of("main"@, quoted(class)),
        None => ""@,
    }
}

fn write_action(action: &Option<Action>) -> (r: String)
    ensures
        r@ == action_line(action.deep_view()),
{
    match action {
        Some(Action::Run(argv)) => line("run", quote_list(&raw_texts(argv)).as_str()),
        Some(Action::Shell(script)) => line("shell", quote(script.as_str()).as_str()),
        Some(Action::Script(file)) => line("script", quote(file.raw.as_str()).as_str()),
        Some(Action::Main(class)) => line("main", quote(class.as_str()).as_str()),
        None => "".to_owned(),
    }
}

pub open spec fn reference_words(list: Seq<TaskRefModel>) -> Seq<Seq<char>> {
    Seq::new(list.len(), |i: int| list[i].word())
}

fn reference_texts(list: &Vec<TaskRef>) -> (r: Vec<String>)
    ensures
        r.deep_view() == reference_words(list.deep_view()),
{
    let ghost all = list.deep_view();
    let mut out: Vec<String> = none_of();
    let mut i: usize = 0;
    while i < list.len()
        invariant
            all == list.deep_view(),
            i <= list@.len(),
            out.deep_view() =~= reference_words(all).take(i as int),
        decreases list@.len() - i,
    {
        assert(all[i as int] == list@[i as int].deep_view());
        put(&mut out, list[i].to_text());
        i = i + 1;
    }
    assert(reference_words(all).take(i as int) =~= reference_words(all));
    out
}

/// One `[tasks.<name>]` table.
#[verifier::opaque]
pub open spec fn task_section(t: TaskModel) -> Seq<char> {
    "\n[tasks."@ + t.name + "]\n"@ + text_line("description"@, t.description) + action_line(
        t.action,
    ) + list_line("args"@, raws(t.args)) + list_line("depends-on"@, reference_words(t.depends_on))
        + env_line(t.env) + text_line(
        "cwd"@,
        match t.cwd {
            Some(t) => Some(t.raw),
            None => None,
        },
    ) + list_line("inputs"@, raws(t.inputs)) + list_line("outputs"@, raws(t.outputs)) + list_line(
        "source-outputs"@,
        raws(t.source_outputs),
    ) + list_line("resource-outputs"@, raws(t.resource_outputs)) + dependency_section(
        "tasks."@ + t.name + ".dependencies"@,
        t.dependencies,
    )
}

/// One `[tasks.<name>]` table, its keys in their order.
pub fn render_task(task: &TaskDef) -> (r: String)
    ensures
        r@ == task_section(task.deep_view()),
{
    proof {
        reveal(task_section);
    }
    let mut s = cat3("\n[tasks.", task.name.as_str(), "]\n");
    s.append(write_text("description", &task.description).as_str());
    s.append(write_action(&task.action).as_str());
    s.append(write_list("args", &raw_texts(&task.args)).as_str());
    s.append(write_list("depends-on", &reference_texts(&task.depends_on)).as_str());
    s.append(write_env(&task.env).as_str());
    s.append(write_text("cwd", &raw_of(&task.cwd)).as_str());
    s.append(write_list("inputs", &raw_texts(&task.inputs)).as_str());
    s.append(write_list("outputs", &raw_texts(&task.outputs)).as_str());
    s.append(write_list("source-outputs", &raw_texts(&task.source_outputs)).as_str());
    s.append(write_list("resource-outputs", &raw_texts(&task.resource_outputs)).as_str());
    let header = cat3("tasks.", task.name.as_str(), ".dependencies");
    s.append(write_dependencies(header.as_str(), &task.dependencies).as_str());
    s
}

/// The tables of the first `n` tasks.
pub open spec fn task_sections(list: Seq<TaskModel>, n: int) -> Seq<char>
    decreases n,
{
    if n <= 0 {
        ""@
    } else {
        task_sections(list, n - 1) + task_section(list[n - 1])
    }
}

fn write_tasks(list: &Vec<TaskDef>) -> (r: String)
    ensures
        r@ == task_sections(list.deep_view(), list@.len() as int),
{
    let ghost all = list.deep_view();
    let mut s = "".to_owned();
    let mut i: usize = 0;
    while i < list.len()
        invariant
            all == list.deep_view(),
            i <= list@.len(),
            s@ == task_sections(all, i as int),
        decreases list@.len() - i,
    {
        assert(all[i as int] == list@[i as int].deep_view());
        s.append(render_task(&list[i]).as_str());
        i = i + 1;
    }
    s
}

/// The lines of the first `n` hooks.
pub open spec fn hook_lines(m: HookLists, n: int) -> Seq<char>
    decreases n,
{
    if n <= 0 {
        ""@
    } else {
        hook_lines(m, n - 1) + line_of(m[n - 1].0.word(), quoted_list(m[n - 1].1))
    }
}

#[verifier::opaque]
pub open spec fn hook_section(m: HookLists) -> Seq<char> {
    if m.len() == 0 {
        ""@
    } else {
        "\n[hooks]\n"@ + hook_lines(m, m.len() as int)
    }
}

fn write_hooks(hooks: &Hooks) -> (r: String)
    ensures
        r@ == hook_section(hooks.deep_view()),
{
    proof {
        reveal(hook_section);
    }
    let list = hooks.iter();
    if list.len() == 0 {
        return "".to_owned();
    }
    let ghost all = list.deep_view();
    let mut body = "".to_owned();
    let mut i: usize = 0;
    while i < list.len()
        invariant
            all == list.deep_view(),
            i <= list@.len(),
            body@ == hook_lines(all, i as int),
        decreases list@.len() - i,
    {
        let (hook, names) = &list[i];
        assert(all[i as int] == (*hook, names.deep_view()));
        body.append(line(hook.name(), quote_list(names).as_str()).as_str());
        i = i + 1;
    }
    cat2("\n[hooks]\n", body.as_str())
}

#[verifier::opaque]
pub open spec fn obfuscate_section(c: Option<ObfuscateModel>) -> Seq<char> {
    match c {
        Some(c) => "\n[obfuscate]\n"@ + text_line("version"@, Some(c.version)) + list_line(
            "keep"@,
            c.keep,
        ) + list_line("proguard-args"@, c.proguard_args),
        None => ""@,
    }
}

fn write_obfuscate(c: &Option<ObfuscateConfig>) -> (r: String)
    ensures
        r@ == obfuscate_section(c.deep_view()),
{
    proof {
        reveal(obfuscate_section);
    }
    match c {
        Some(c) => cat4(
            "\n[obfuscate]\n",
            line("version", quote(c.version.as_str()).as_str()).as_str(),
            write_list("keep", &c.keep).as_str(),
            write_list("proguard-args", &c.proguard_args).as_str(),
        ),
        None => "".to_owned(),
    }
}

// ---- the manifest ----------------------------------------------------------

/// A manifest as TOML, under a comment.
pub open spec fn rendered(m: ManifestModel, header: Option<Seq<char>>) -> Seq<char> {
    header_section(header) + project_section(m) + java_section(m.java) + language_sections(
        m.languages,
        m.languages.len() as int,
    ) + run_section(m.run) + test_section(m.test) + package_section(m.package) + managed_section(
        m.managed,
    ) + dependency_section("dependencies"@, m.dependencies) + dependency_section(
        "dev-dependencies"@,
        m.dev_dependencies,
    ) + repository_section(m.repositories) + task_sections(m.tasks, m.tasks.len() as int)
        + hook_section(m.hooks) + obfuscate_section(m.obfuscate)
}

impl Manifest {
    /// Render this manifest back to TOML, optionally with a comment header.
    ///
    /// The output is deliberately hand-formatted, since a generated manifest
    /// is something a human reads.
    pub fn render(&self, header: Option<&str>) -> (r: String)
        ensures
            r@ == rendered(self.deep_view(), header.deep_view()),
    {
        let mut s = write_header(header);
        s.append(write_project(self).as_str());
        s.append(write_java(&self.java).as_str());
        s.append(write_languages(&self.languages).as_str());
        s.append(write_run(&self.run).as_str());
        s.append(write_test(&self.test).as_str());
        s.append(write_package(&self.package).as_str());
        s.append(write_managed(&self.managed).as_str());
        s.append(write_dependencies("dependencies", &self.dependencies).as_str());
        s.append(write_dependencies("dev-dependencies", &self.dev_dependencies).as_str());
        s.append(write_repositories(&self.repositories).as_str());
        s.append(write_tasks(&self.tasks).as_str());
        s.append(write_hooks(&self.hooks).as_str());
        s.append(write_obfuscate(&self.obfuscate).as_str());
        s
    }
}

} // verus!
