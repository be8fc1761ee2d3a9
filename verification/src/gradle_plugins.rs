//! A Gradle build's plugins, and the JVM languages they turn on.

use crate::chars::{is_space, is_unicode_alphanumeric, space, unicode_alphanumeric};
use crate::debug::{debug_list, debug_list_form};
use crate::gradle_text::{
    as_number, block_lines, blocks_where, count, does_open, first_literal, lines_inside,
    literal_and_rest, literals_of, number_after, number_past, opens, quoted, tally, top_lines,
    Block, BlockModel,
};
use crate::language::Language;
use crate::manifest::{
    JavaModel, LanguageConfig, LanguageModel, Manifest, ManifestModel, ObfuscateConfig,
    ObfuscateModel,
};
use crate::migration::{
    compiler_plugin_use, drop_implied_libraries, enable_from_library, enable_language,
    report_compiler_plugin, unimplied_from, with_language, with_library_language,
};
use crate::report::{Report, ReportModel};
use crate::text::{
    after_prefix, cat2, cat3, chars, contains, decimal, drop_run, has_char, includes, line_seq,
    lines, none_of, put, put_all, replace, replaced, same, sans_head, sans_tail, show, skip_run,
    starts, starts_with, strip_prefix, trim, trimmed, within, Class,
};
use vstd::prelude::*;

verus! {

/// One entry of the `plugins { }` block.
#[derive(Debug)]
pub struct Plugin {
    pub id: String,
    /// The version written beside the id, when it is a literal.
    pub version: Option<String>,
}

/// One entry of the `plugins { }` block.
pub struct PluginModel {
    pub id: Seq<char>,
    pub version: Option<Seq<char>>,
}

impl DeepView for Plugin {
    type V = PluginModel;

    open spec fn deep_view(&self) -> PluginModel {
        PluginModel { id: self.id@, version: self.version.deep_view() }
    }
}

/// `version "2.2.0"` or `.version("2.2.0")` after a plugin's id.
pub open spec fn version_after(rest: Seq<char>) -> Option<Seq<char>> {
    match after_prefix(sans_head(rest, Class::OneOf(')', ' ', '\t', '.')), "version"@) {
        None => None,
        Some(tail) => match literal_and_rest(tail) {
            Some((version, _)) => if includes(version, '$') {
                None
            } else {
                Some(version)
            },
            None => None,
        },
    }
}

/// `version "2.2.0"` or `.version("2.2.0")` after a plugin's id. A version
/// from a variable or a catalog is not one jrs can read.
pub fn plugin_version(rest: &str) -> (r: Option<String>)
    ensures
        r.deep_view() == version_after(rest@),
{
    let Some(tail) = strip_prefix(skip_run(rest, Class::OneOf(')', ' ', '\t', '.')), "version")
    else {
        return None;
    };
    match first_literal(tail) {
        Some((version, _)) => if has_char(version, '$') {
            None
        } else {
            Some(version.to_owned())
        },
        None => None,
    }
}

/// A character of a plugin's bare id.
pub open spec fn id_char(c: char) -> bool {
    unicode_alphanumeric(c) || c == '-' || c == '_' || c == '.' || c == '`'
}

/// A plugin's bare id.
pub open spec fn bare_id(s: Seq<char>) -> bool {
    s.len() > 0 && forall|i: int| 0 <= i < s.len() ==> id_char(#[trigger] s[i])
}

fn is_bare_id(s: &str) -> (r: bool)
    ensures
        r == bare_id(s@),
{
    let cs = chars(s);
    if cs.len() == 0 {
        return false;
    }
    let mut i: usize = 0;
    while i < cs.len()
        invariant
            cs@ == s@,
            i <= cs@.len(),
            forall|j: int| 0 <= j < i ==> id_char(#[trigger] s@[j]),
        decreases cs@.len() - i,
    {
        let c: char = cs[i];
        if !(is_unicode_alphanumeric(c) || c == '-' || c == '_' || c == '.' || c == '`') {
            assert(!id_char(s@[i as int]));
            return false;
        }
        i = i + 1;
    }
    true
}

/// The plugin that a line names.
pub open spec fn plugin_of(line: Seq<char>) -> Option<PluginModel> {
    let t = trimmed(line);
    match after_prefix(t, "kotlin("@) {
        Some(args) => match literal_and_rest(args) {
            Some((name, rest)) => Some(
                PluginModel {
                    id: "org.jetbrains.kotlin."@ + name,
                    version: version_after(rest),
                },
            ),
            None => None,
        },
        None => if bare_id(t) {
            Some(
                PluginModel {
                    id: sans_tail(sans_head(t, Class::One('`')), Class::One('`')),
                    version: None,
                },
            )
        } else {
            match literal_and_rest(t) {
                Some((id, rest)) => Some(PluginModel { id, version: version_after(rest) }),
                None => None,
            }
        },
    }
}

/// `id 'x' version 'v'`, `id("x") version "v"`, `kotlin("jvm") version "v"`,
/// and the Kotlin DSL's bare `java` or `groovy`.
pub fn read_plugin(line: &str) -> (r: Option<Plugin>)
    ensures
        r.deep_view() == plugin_of(line@),
{
    let t = trim(line);
    // `kotlin("jvm")` is Gradle's shorthand for `id("org.jetbrains.kotlin.jvm")`.
    if let Some(args) = strip_prefix(t, "kotlin(") {
        return match first_literal(args) {
            Some((name, rest)) => Some(
                Plugin { id: cat2("org.jetbrains.kotlin.", name), version: plugin_version(rest) },
            ),
            None => None,
        };
    }
    if is_bare_id(t) {
        return Some(
            Plugin {
                id: drop_run(skip_run(t, Class::One('`')), Class::One('`')).to_owned(),
                version: None,
            },
        );
    }
    match first_literal(t) {
        Some((id, rest)) => Some(Plugin { id: id.to_owned(), version: plugin_version(rest) }),
        None => None,
    }
}

/// The plugins of the lines from `i` on, after those before.
pub open spec fn plugins_from(lines: Seq<Seq<char>>, i: int, out: Seq<PluginModel>) -> Seq<
    PluginModel,
>
    decreases lines.len() - i,
{
    if i < 0 || i >= lines.len() {
        out
    } else {
        match plugin_of(lines[i]) {
            Some(p) => plugins_from(lines, i + 1, out.push(p)),
            None => plugins_from(lines, i + 1, out),
        }
    }
}

/// The plugins of a script.
pub open spec fn plugins_of(script: Seq<char>) -> Seq<PluginModel> {
    plugins_from(top_lines("plugins"@, script), 0, seq![])
}

/// The entries of the `plugins { }` block.
pub fn read_plugins(script: &str) -> (r: Vec<Plugin>)
    ensures
        r.deep_view() == plugins_of(script@),
{
    let list = block_lines(script, "plugins");
    let ghost all = list.deep_view();
    let mut out: Vec<Plugin> = none_of();
    let mut i: usize = 0;
    while i < list.len()
        invariant
            all == list.deep_view(),
            i <= list@.len(),
            plugins_from(all, 0, seq![]) == plugins_from(all, i as int, out.deep_view()),
        decreases list@.len() - i,
    {
        assert(all[i as int] == list@[i as int]@);
        if let Some(p) = read_plugin(list[i]) {
            put(&mut out, p);
        }
        i = i + 1;
    }
    out
}

/// The first plugin, from the `i`th on, with the id.
pub open spec fn plugin_named(plugins: Seq<PluginModel>, id: Seq<char>, i: int) -> Option<
    PluginModel,
>
    decreases plugins.len() - i,
{
    if i < 0 || i >= plugins.len() {
        None
    } else if plugins[i].id == id {
        Some(plugins[i])
    } else {
        plugin_named(plugins, id, i + 1)
    }
}

/// The first plugin with the id.
pub fn find_plugin<'a>(plugins: &'a Vec<Plugin>, id: &str) -> (r: Option<&'a Plugin>)
    ensures
        r.deep_view() == plugin_named(plugins.deep_view(), id@, 0),
{
    let ghost all = plugins.deep_view();
    let mut i: usize = 0;
    while i < plugins.len()
        invariant
            all == plugins.deep_view(),
            i <= plugins@.len(),
            plugin_named(all, id@, 0) == plugin_named(all, id@, i as int),
        decreases plugins@.len() - i,
    {
        assert(all[i as int] == plugins@[i as int].deep_view());
        if same(plugins[i].id.as_str(), id) {
            return Some(&plugins[i]);
        }
        i = i + 1;
    }
    None
}

/// The language that a plugin turns on.
pub open spec fn plugin_language(id: Seq<char>) -> Option<Language> {
    if id == "org.jetbrains.kotlin.jvm"@ {
        Some(Language::Kotlin)
    } else if id == "scala"@ {
        Some(Language::Scala)
    } else if id == "groovy"@ {
        Some(Language::Groovy)
    } else {
        None
    }
}

/// The plugins that turn a language on.
pub fn language_plugin(id: &str) -> (r: Option<Language>)
    ensures
        r == plugin_language(id@),
{
    if same(id, "org.jetbrains.kotlin.jvm") {
        Some(Language::Kotlin)
    } else if same(id, "scala") {
        Some(Language::Scala)
    } else if same(id, "groovy") {
        Some(Language::Groovy)
    } else {
        None
    }
}

/// The name of a compiler plugin of Kotlin's.
pub open spec fn compiler_plugin(id: Seq<char>) -> Option<Seq<char>> {
    if id == "org.jetbrains.kotlin.kapt"@ {
        Some("kapt"@)
    } else {
        after_prefix(id, "org.jetbrains.kotlin.plugin."@)
    }
}

/// `org.jetbrains.kotlin.plugin.spring` → `spring`, and kapt, which is a
/// compiler plugin too.
pub fn kotlin_compiler_plugin(id: &str) -> (r: Option<&str>)
    ensures
        r.deep_view() == compiler_plugin(id@),
{
    if same(id, "org.jetbrains.kotlin.kapt") {
        Some("kapt")
    } else {
        strip_prefix(id, "org.jetbrains.kotlin.plugin.")
    }
}

/// A plugin in the report.
pub open spec fn plugin_shown(id: Seq<char>) -> Seq<char> {
    "plugin `"@ + id + "`"@
}

// ---- Kotlin ----------------------------------------------------------------

/// The manifest and the report once a plugin is read for Kotlin.
pub open spec fn with_kotlin_plugin(m: ManifestModel, told: ReportModel, p: PluginModel) -> (
    ManifestModel,
    ReportModel,
) {
    let from = plugin_shown(p.id);
    if plugin_language(p.id) == Some(Language::Kotlin) {
        match p.version {
            Some(version) => with_language(m, told, Language::Kotlin, version, from),
            None => (
                m,
                told.with_skipped(
                    from
                        + " — its version is set somewhere jrs does not read (settings, a catalog, a variable); no [kotlin] table was written"@,
                ),
            ),
        }
    } else {
        match compiler_plugin(p.id) {
            Some(name) => (
                m,
                told.with_skipped(
                    from + " — "@ + compiler_plugin_use(name)
                        + ", and jrs runs kotlinc without compiler plugins"@,
                ),
            ),
            None => (m, told),
        }
    }
}

/// The manifest and the report once the plugins from the `i`th on are read
/// for Kotlin.
pub open spec fn kotlin_plugins_from(
    plugins: Seq<PluginModel>,
    i: int,
    m: ManifestModel,
    told: ReportModel,
) -> (ManifestModel, ReportModel)
    decreases plugins.len() - i,
{
    if i < 0 || i >= plugins.len() {
        (m, told)
    } else {
        let (m, told) = with_kotlin_plugin(m, told, plugins[i]);
        kotlin_plugins_from(plugins, i + 1, m, told)
    }
}

fn read_kotlin_plugin(p: &Plugin, out: &mut Manifest, report: &mut Report)
    ensures
        (final(out).deep_view(), final(report).deep_view()) == with_kotlin_plugin(
            old(out).deep_view(),
            old(report).deep_view(),
            p.deep_view(),
        ),
{
    let from = cat3("plugin `", p.id.as_str(), "`");
    if language_plugin(p.id.as_str()) == Some(Language::Kotlin) {
        match &p.version {
            Some(version) => {
                enable_language(out, Language::Kotlin, version.as_str(), from.as_str(), report);
            },
            None => {
                report.skipped(
                    cat2(
                        from.as_str(),
                        " — its version is set somewhere jrs does not read (settings, a catalog, a variable); no [kotlin] table was written",
                    ),
                );
            },
        }
    } else if let Some(name) = kotlin_compiler_plugin(p.id.as_str()) {
        report_compiler_plugin(name, from.as_str(), report);
    }
}

/// The lines that open a `kotlin { }` block or set a property of it.
pub open spec fn kotlin_line(line: Seq<char>) -> bool {
    opens(BlockModel::Kotlin, trimmed(line)) || starts(trimmed(line), "kotlin."@)
}

/// Whether a line opens a `kotlin { }` block or sets a property of it.
pub fn is_kotlin_line(line: &str) -> (r: bool)
    ensures
        r == kotlin_line(line@),
{
    does_open(&Block::Kotlin, trim(line)) || starts_with(trim(line), "kotlin.")
}

pub open spec fn kotlin_heads_from(lines: Seq<Seq<char>>, i: int, out: Seq<Seq<char>>) -> Seq<
    Seq<char>,
>
    decreases lines.len() - i,
{
    if i < 0 || i >= lines.len() {
        out
    } else if kotlin_line(lines[i]) {
        kotlin_heads_from(lines, i + 1, out.push(lines[i]))
    } else {
        kotlin_heads_from(lines, i + 1, out)
    }
}

/// The `kotlin { }` extension's lines, opening lines first.
pub open spec fn kotlin_lines_of(script: Seq<char>) -> Seq<Seq<char>> {
    kotlin_heads_from(line_seq(script), 0, seq![]) + lines_inside(BlockModel::Kotlin, script)
}

/// The `kotlin { }` extension's lines, opening lines included: `kotlin {
/// jvmToolchain(21) }` is as often written on one line as on three.
pub fn kotlin_lines(script: &str) -> (r: Vec<&str>)
    ensures
        r.deep_view() == kotlin_lines_of(script@),
{
    let list = lines(script);
    let ghost all = list.deep_view();
    let mut out: Vec<&str> = none_of();
    let mut i: usize = 0;
    while i < list.len()
        invariant
            all == list.deep_view(),
            i <= list@.len(),
            kotlin_heads_from(all, 0, seq![]) == kotlin_heads_from(all, i as int, out.deep_view()),
        decreases list@.len() - i,
    {
        assert(all[i as int] == list@[i as int]@);
        if is_kotlin_line(list[i]) {
            put(&mut out, list[i]);
        }
        i = i + 1;
    }
    put_all(&mut out, blocks_where(script, &Block::Kotlin));
    out
}

/// The first number after `needle` on a line from the `i`th on.
pub open spec fn first_number(lines: Seq<Seq<char>>, needle: Seq<char>, i: int) -> Option<nat>
    decreases lines.len() - i,
{
    if i < 0 || i >= lines.len() {
        None
    } else {
        match number_past(lines[i], needle) {
            Some(n) => Some(n),
            None => first_number(lines, needle, i + 1),
        }
    }
}

fn find_number(list: &Vec<&str>, needle: &str) -> (r: Option<u32>)
    ensures
        as_number(r) == first_number(list.deep_view(), needle@, 0),
{
    let ghost all = list.deep_view();
    let mut i: usize = 0;
    while i < list.len()
        invariant
            all == list.deep_view(),
            i <= list@.len(),
            first_number(all, needle@, 0) == first_number(all, needle@, i as int),
        decreases list@.len() - i,
    {
        assert(all[i as int] == list@[i as int]@);
        if let Some(n) = number_after(list[i], needle) {
            return Some(n);
        }
        i = i + 1;
    }
    None
}

/// The JDK that Kotlin's toolchain names.
pub open spec fn kotlin_jdk(script: Seq<char>) -> Option<nat> {
    let lines = kotlin_lines_of(script);
    match first_number(lines, "jvmToolchain"@, 0) {
        Some(n) => Some(n),
        None => first_number(lines, "JavaLanguageVersion.of"@, 0),
    }
}

/// `jvmToolchain(21)`, or the block form when all it says is the version.
fn find_kotlin_jdk(script: &str) -> (r: Option<u32>)
    ensures
        as_number(r) == kotlin_jdk(script@),
{
    let list = kotlin_lines(script);
    match find_number(&list, "jvmToolchain") {
        Some(n) => Some(n),
        None => find_number(&list, "JavaLanguageVersion.of"),
    }
}

/// The manifest and the report with the JDK that Kotlin's toolchain pins.
pub open spec fn with_kotlin_jdk(m: ManifestModel, told: ReportModel, script: Seq<char>) -> (
    ManifestModel,
    ReportModel,
) {
    match kotlin_jdk(script) {
        Some(n) if m.java.jdk is None => (
            ManifestModel { java: JavaModel { jdk: Some(n as u32), ..m.java }, ..m },
            told.with_migrated("java.jdk = "@ + decimal(n) + " (from kotlin { jvmToolchain })"@),
        ),
        _ => (m, told),
    }
}

// ---- compiler arguments ----------------------------------------------------

/// `s` from `i` on without its literals and their quotes.
pub open spec fn around_from(s: Seq<char>, i: int, quote: Option<char>) -> Seq<char>
    decreases s.len() - i,
{
    if i < 0 || i >= s.len() {
        seq![]
    } else {
        match quote {
            Some(q) => around_from(
                s,
                i + 1,
                if s[i] == q {
                    None
                } else {
                    quote
                },
            ),
            None => if s[i] == '"' || s[i] == '\'' {
                around_from(s, i + 1, Some(s[i]))
            } else {
                seq![s[i]] + around_from(s, i + 1, None)
            },
        }
    }
}

fn outside_literals(s: &str) -> (r: String)
    ensures
        r@ == around_from(s@, 0, None),
{
    let cs = chars(s);
    let mut out = String::new();
    let mut quote: Option<char> = None;
    let mut i: usize = 0;
    while i < cs.len()
        invariant
            cs@ == s@,
            i <= cs@.len(),
            around_from(s@, 0, None) =~= out@ + around_from(s@, i as int, quote),
        decreases cs@.len() - i,
    {
        let c: char = cs[i];
        match quote {
            Some(q) => {
                if c == q {
                    quote = None;
                }
            },
            None => {
                if c == '"' || c == '\'' {
                    quote = Some(c);
                } else {
                    out.push(c);
                }
            },
        }
        i = i + 1;
    }
    assert(around_from(s@, 0, None) =~= out@);
    out
}

/// A character that puts literals in a list.
pub open spec fn list_char(c: char) -> bool {
    space(c) || c == '=' || c == '+' || c == '.' || c == ',' || c == '(' || c == ')' || c == '['
        || c == ']' || c == '{' || c == '}'
}

/// A statement without its literals and the words that put them in a list.
pub open spec fn sans_list_words(statement: Seq<char>) -> Seq<char> {
    let rest = replaced(around_from(statement, 0, None), "freeCompilerArgs"@, ""@);
    let rest = replaced(rest, "mutableListOf"@, ""@);
    let rest = replaced(rest, "listOf"@, ""@);
    let rest = replaced(rest, "arrayOf"@, ""@);
    let rest = replaced(rest, "addAll"@, ""@);
    let rest = replaced(rest, "add"@, ""@);
    replaced(rest, "set"@, ""@)
}

/// A statement is made of string literals and the few words that put them in
/// a list.
pub open spec fn literals_alone(statement: Seq<char>) -> bool {
    let rest = sans_list_words(statement);
    forall|i: int| 0 <= i < rest.len() ==> list_char(#[trigger] rest[i])
}

/// Whether a `freeCompilerArgs` statement is made of string literals and the
/// few words that put them in a list, and nothing that is worked out when
/// Gradle runs.
pub fn only_literals(statement: &str) -> (r: bool)
    ensures
        r == literals_alone(statement@),
{
    proof {
        reveal_strlit("freeCompilerArgs");
        reveal_strlit("mutableListOf");
        reveal_strlit("listOf");
        reveal_strlit("arrayOf");
        reveal_strlit("addAll");
        reveal_strlit("add");
        reveal_strlit("set");
    }
    let rest = replace(outside_literals(statement).as_str(), "freeCompilerArgs", "");
    let rest = replace(rest.as_str(), "mutableListOf", "");
    let rest = replace(rest.as_str(), "listOf", "");
    let rest = replace(rest.as_str(), "arrayOf", "");
    let rest = replace(rest.as_str(), "addAll", "");
    let rest = replace(rest.as_str(), "add", "");
    let rest = replace(rest.as_str(), "set", "");
    let cs = chars(rest.as_str());
    let mut i: usize = 0;
    while i < cs.len()
        invariant
            cs@ == sans_list_words(statement@),
            i <= cs@.len(),
            forall|j: int| 0 <= j < i ==> list_char(#[trigger] cs@[j]),
        decreases cs@.len() - i,
    {
        let c: char = cs[i];
        if !(is_space(c) || c == '=' || c == '+' || c == '.' || c == ',' || c == '(' || c == ')'
            || c == '[' || c == ']' || c == '{' || c == '}') {
            assert(!list_char(sans_list_words(statement@)[i as int]));
            return false;
        }
        i = i + 1;
    }
    true
}

/// A statement that the lines from `i` on finish, and the place of the line
/// after it.
pub open spec fn whole_statement(lines: Seq<Seq<char>>, i: int, statement: Seq<char>) -> (
    Seq<char>,
    int,
)
    decreases lines.len() - i,
{
    if 0 <= i < lines.len() && tally(statement, '(') > tally(statement, ')') {
        whole_statement(lines, i + 1, statement + " "@ + trimmed(lines[i]))
    } else {
        (statement, i)
    }
}

fn finish_statement(list: &Vec<&str>, i: usize, statement: String) -> (r: (String, usize))
    requires
        i <= list@.len(),
    ensures
        (r.0@, r.1 as int) == whole_statement(list.deep_view(), i as int, statement@),
        i <= r.1 <= list@.len(),
{
    let ghost all = list.deep_view();
    let ghost start = statement@;
    let mut text = statement;
    let mut k: usize = i;
    while k < list.len() && count(text.as_str(), '(') > count(text.as_str(), ')')
        invariant
            all == list.deep_view(),
            i <= k <= list@.len(),
            whole_statement(all, i as int, start) == whole_statement(all, k as int, text@),
        decreases list@.len() - k,
    {
        assert(all[k as int] == list@[k as int]@);
        text.append(" ");
        text.append(trim(list[k]));
        k = k + 1;
    }
    (text, k)
}

/// Some of them holds a `$`.
pub open spec fn some_computed(literals: Seq<Seq<char>>) -> bool {
    exists|i: int| 0 <= i < literals.len() && includes(#[trigger] literals[i], '$')
}

fn any_computed(literals: &Vec<String>) -> (r: bool)
    ensures
        r == some_computed(literals.deep_view()),
{
    let ghost all = literals.deep_view();
    let mut i: usize = 0;
    while i < literals.len()
        invariant
            all == literals.deep_view(),
            i <= literals@.len(),
            forall|j: int| 0 <= j < i ==> !includes(#[trigger] all[j], '$'),
        decreases literals@.len() - i,
    {
        assert(all[i as int] == literals@[i as int]@);
        if has_char(literals[i].as_str(), '$') {
            return true;
        }
        i = i + 1;
    }
    false
}

/// The compiler arguments that the lines from `i` on set, after those before,
/// and the report.
pub open spec fn free_args_from(
    lines: Seq<Seq<char>>,
    i: int,
    args: Seq<Seq<char>>,
    told: ReportModel,
) -> (Seq<Seq<char>>, ReportModel)
    decreases lines.len() - i,
{
    if i < 0 || i >= lines.len() {
        (args, told)
    } else {
        let line = trimmed(lines[i]);
        if !within(line, "freeCompilerArgs"@) || starts(line, "//"@) {
            free_args_from(lines, i + 1, args, told)
        } else {
            let (statement, next) = whole_statement(lines, i + 1, line);
            let literals = literals_of(statement);
            if !(i < next <= lines.len()) {
                (args, told)
            } else if literals.len() == 0 || some_computed(literals) || !literals_alone(statement) {
                free_args_from(
                    lines,
                    next,
                    args,
                    told.with_skipped(
                        "`"@ + statement
                            + "` — not every argument is a literal; set [kotlin] kotlinc-args by hand"@,
                    ),
                )
            } else {
                free_args_from(lines, next, args + literals, told)
            }
        }
    }
}

fn read_free_args(script: &str, report: &mut Report) -> (r: Vec<String>)
    ensures
        (r.deep_view(), final(report).deep_view()) == free_args_from(
            line_seq(script@),
            0,
            seq![],
            old(report).deep_view(),
        ),
{
    let list = lines(script);
    let ghost all = list.deep_view();
    let ghost start = report.deep_view();
    let mut args: Vec<String> = none_of();
    let mut i: usize = 0;
    while i < list.len()
        invariant
            all == list.deep_view(),
            i <= list@.len(),
            free_args_from(all, 0, seq![], start) == free_args_from(
                all,
                i as int,
                args.deep_view(),
                report.deep_view(),
            ),
        decreases list@.len() - i,
    {
        assert(all[i as int] == list@[i as int]@);
        let line = trim(list[i]);
        if !contains(line, "freeCompilerArgs") || starts_with(line, "//") {
            i = i + 1;
        } else {
            let (statement, next) = finish_statement(&list, i + 1, line.to_owned());
            let literals = quoted(statement.as_str());
            if literals.len() == 0 || any_computed(&literals) || !only_literals(
                statement.as_str(),
            ) {
                report.skipped(
                    cat3(
                        "`",
                        statement.as_str(),
                        "` — not every argument is a literal; set [kotlin] kotlinc-args by hand",
                    ),
                );
            } else {
                put_all(&mut args, literals);
            }
            i = next;
        }
    }
    args
}

/// The place of the language's table, from the `i`th on.
pub open spec fn language_place(list: Seq<LanguageModel>, language: Language, i: int) -> Option<int>
    decreases list.len() - i,
{
    if i < 0 || i >= list.len() {
        None
    } else if list[i].language == language {
        Some(i)
    } else {
        language_place(list, language, i + 1)
    }
}

/// The place of the language's table.
pub fn find_language(list: &Vec<LanguageConfig>, language: Language) -> (r: Option<usize>)
    ensures
        r is Some <==> language_place(list.deep_view(), language, 0) is Some,
        r matches Some(i) ==> i < list@.len() && language_place(list.deep_view(), language, 0)
            == Some(i as int),
{
    let ghost all = list.deep_view();
    let mut i: usize = 0;
    while i < list.len()
        invariant
            all == list.deep_view(),
            i <= list@.len(),
            language_place(all, language, 0) == language_place(all, language, i as int),
        decreases list@.len() - i,
    {
        assert(all[i as int] == list@[i as int].deep_view());
        if list[i].language == language {
            return Some(i);
        }
        i = i + 1;
    }
    None
}

/// The table with more compiler arguments.
pub open spec fn with_args(c: LanguageModel, args: Seq<Seq<char>>) -> LanguageModel {
    LanguageModel { compiler_args: c.compiler_args + args, ..c }
}

/// The manifest and the report with Kotlin's compiler arguments.
pub open spec fn with_kotlinc_args(m: ManifestModel, told: ReportModel, script: Seq<char>) -> (
    ManifestModel,
    ReportModel,
) {
    let (args, told) = free_args_from(line_seq(script), 0, seq![], told);
    if args.len() == 0 {
        (m, told)
    } else {
        match language_place(m.languages, Language::Kotlin, 0) {
            None => (
                m,
                told.with_skipped(
                    "freeCompilerArgs "@ + debug_list_form(args)
                        + " — no [kotlin] table was written to hold them"@,
                ),
            ),
            Some(i) => (
                ManifestModel {
                    languages: m.languages.update(i, with_args(m.languages[i], args)),
                    ..m
                },
                told.with_migrated(
                    "[kotlin] kotlinc-args = "@ + debug_list_form(args)
                        + " (from freeCompilerArgs)"@,
                ),
            ),
        }
    }
}

/// `freeCompilerArgs` → `[kotlin] kotlinc-args`, when every argument is a
/// literal: in `kotlin { compilerOptions { } }`, as start.spring.io writes
/// it, or in the older `kotlinOptions { }` of a `KotlinCompile` task. An
/// `addAll(` or `listOf(` may carry on over several lines.
pub fn read_kotlinc_args(script: &str, out: &mut Manifest, report: &mut Report)
    ensures
        (final(out).deep_view(), final(report).deep_view()) == with_kotlinc_args(
            old(out).deep_view(),
            old(report).deep_view(),
            script@,
        ),
{
    let args = read_free_args(script, report);
    if args.len() == 0 {
        return ;
    }
    let shown = debug_list(&args);
    let Some(i) = find_language(&out.languages, Language::Kotlin) else {
        report.skipped(
            cat3(
                "freeCompilerArgs ",
                shown.as_str(),
                " — no [kotlin] table was written to hold them",
            ),
        );
        return ;
    };
    report.migrated(
        cat3("[kotlin] kotlinc-args = ", shown.as_str(), " (from freeCompilerArgs)"),
    );
    let ghost before = out.languages.deep_view();
    let mut config = out.languages.remove(i);
    assert(config.deep_view() == before[i as int]);
    put_all(&mut config.compiler_args, args);
    let ghost changed = config.deep_view();
    out.languages.insert(i, config);
    assert(out.languages.deep_view() =~= before.update(i as int, changed));
}

/// The manifest and the report once a script is read for Kotlin.
pub open spec fn kotlin_read(
    script: Seq<char>,
    plugins: Seq<PluginModel>,
    m: ManifestModel,
    told: ReportModel,
) -> (ManifestModel, ReportModel) {
    let (m, told) = kotlin_plugins_from(plugins, 0, m, told);
    let (m, told) = with_kotlin_jdk(m, told, script);
    with_kotlinc_args(m, told, script)
}

/// The Kotlin plugin's version turns `[kotlin]` on, `jvmToolchain` pins the
/// JDK, and the compiler plugins beside it are reported.
pub fn read_kotlin(script: &str, plugins: &Vec<Plugin>, out: &mut Manifest, report: &mut Report)
    ensures
        (final(out).deep_view(), final(report).deep_view()) == kotlin_read(
            script@,
            plugins.deep_view(),
            old(out).deep_view(),
            old(report).deep_view(),
        ),
{
    let ghost all = plugins.deep_view();
    let ghost start = (out.deep_view(), report.deep_view());
    let mut i: usize = 0;
    while i < plugins.len()
        invariant
            all == plugins.deep_view(),
            i <= plugins@.len(),
            kotlin_plugins_from(all, 0, start.0, start.1) == kotlin_plugins_from(
                all,
                i as int,
                out.deep_view(),
                report.deep_view(),
            ),
        decreases plugins@.len() - i,
    {
        assert(all[i as int] == plugins@[i as int].deep_view());
        read_kotlin_plugin(&plugins[i], out, report);
        i = i + 1;
    }
    let jdk = find_kotlin_jdk(script);
    if let Some(n) = jdk {
        if out.java.jdk.is_none() {
            out.java.jdk = Some(n);
            report.migrated(
                cat3(
                    "java.jdk = ",
                    show(n as u128).as_str(),
                    " (from kotlin { jvmToolchain })",
                ),
            );
        }
    }
    read_kotlinc_args(script, out, report);
}

// ---- Groovy and Scala ------------------------------------------------------

/// The manifest and the report once the plugins from the `i`th on are read
/// for the languages whose library has their version.
pub open spec fn library_languages_from(
    plugins: Seq<PluginModel>,
    i: int,
    m: ManifestModel,
    told: ReportModel,
) -> (ManifestModel, ReportModel)
    decreases plugins.len() - i,
{
    if i < 0 || i >= plugins.len() {
        (m, told)
    } else {
        let (m, told) = match plugin_language(plugins[i].id) {
            Some(language) if language != Language::Kotlin => with_library_language(
                m,
                told,
                language,
                plugin_shown(plugins[i].id),
            ),
            _ => (m, told),
        };
        library_languages_from(plugins, i + 1, m, told)
    }
}

/// The manifest and the report once the languages whose library has their
/// version are read, and the libraries that the tables imply taken out.
pub open spec fn library_languages(plugins: Seq<PluginModel>, m: ManifestModel, told: ReportModel) -> (
    ManifestModel,
    ReportModel,
) {
    let (m, told) = library_languages_from(plugins, 0, m, told);
    let (kept, told) = unimplied_from(m.dependencies, m.languages, 0, seq![], told);
    (ManifestModel { dependencies: kept, ..m }, told)
}

/// `groovy` and `scala` name no version: it is their library's, read out of
/// the dependencies. Then the runtime libraries the tables imply are taken
/// out.
pub fn read_library_languages(plugins: &Vec<Plugin>, out: &mut Manifest, report: &mut Report)
    ensures
        (final(out).deep_view(), final(report).deep_view()) == library_languages(
            plugins.deep_view(),
            old(out).deep_view(),
            old(report).deep_view(),
        ),
{
    let ghost all = plugins.deep_view();
    let ghost start = (out.deep_view(), report.deep_view());
    let mut i: usize = 0;
    while i < plugins.len()
        invariant
            all == plugins.deep_view(),
            i <= plugins@.len(),
            library_languages_from(all, 0, start.0, start.1) == library_languages_from(
                all,
                i as int,
                out.deep_view(),
                report.deep_view(),
            ),
        decreases plugins@.len() - i,
    {
        assert(all[i as int] == plugins@[i as int].deep_view());
        if let Some(language) = language_plugin(plugins[i].id.as_str()) {
            if language != Language::Kotlin {
                enable_from_library(
                    out,
                    language,
                    cat3("plugin `", plugins[i].id.as_str(), "`").as_str(),
                    report,
                );
            }
        }
        i = i + 1;
    }
    drop_implied_libraries(out, report);
}

// ---- ProGuard --------------------------------------------------------------

/// The manifest and the report once the `ProGuard` plugin is read.
pub open spec fn proguard_read(plugins: Seq<PluginModel>, m: ManifestModel, told: ReportModel) -> (
    ManifestModel,
    ReportModel,
) {
    match plugin_named(plugins, "com.guardsquare.proguard"@, 0) {
        None => (m, told),
        Some(plugin) => match plugin.version {
            Some(version) => (
                ManifestModel {
                    obfuscate: Some(ObfuscateModel { version, keep: seq![], proguard_args: seq![] }),
                    ..m
                },
                told.with_migrated("obfuscate.version = "@ + version).with_review(
                    "com.guardsquare.proguard — the `proguard { }` task's keep rules and options do not translate; add them to [obfuscate].keep / proguard-args, then run `jrs package --obfuscate`"@,
                ),
            ),
            None => (
                m,
                told.with_review(
                    "com.guardsquare.proguard — set obfuscate.version to the ProGuard release to pin (the plugin block names no version)"@,
                ),
            ),
        },
    }
}

/// The Guardsquare `ProGuard` plugin (`com.guardsquare.proguard`) → `[obfuscate]`.
/// The plugin's own version is the `ProGuard` release, so it pins `version`; the
/// keep rules and options live in a `proguard { }` task jrs cannot read, so
/// they are flagged for `keep` / `proguard-args`.
pub fn read_proguard(plugins: &Vec<Plugin>, out: &mut Manifest, report: &mut Report)
    ensures
        (final(out).deep_view(), final(report).deep_view()) == proguard_read(
            plugins.deep_view(),
            old(out).deep_view(),
            old(report).deep_view(),
        ),
{
    let Some(plugin) = find_plugin(plugins, "com.guardsquare.proguard") else {
        return ;
    };
    match &plugin.version {
        Some(version) => {
            report.migrated(cat2("obfuscate.version = ", version.as_str()));
            report.review(
                "com.guardsquare.proguard — the `proguard { }` task's keep rules and options do not translate; add them to [obfuscate].keep / proguard-args, then run `jrs package --obfuscate`".to_owned(),
            );
            out.obfuscate = Some(
                ObfuscateConfig {
                    version: version.clone(),
                    keep: none_of(),
                    proguard_args: none_of(),
                },
            );
        },
        None => {
            report.review(
                "com.guardsquare.proguard — set obfuscate.version to the ProGuard release to pin (the plugin block names no version)".to_owned(),
            );
        },
    }
}

} // verus!
