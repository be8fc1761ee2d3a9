//! The `OpenAPI` Generator plugin's task, as a run of the generator's own
//! command-line tool.

use crate::chars::{digit, is_digit, is_unicode_alphabetic, unicode_alphabetic};
use crate::dependency::{plain_dependency, Dependency};
use crate::gradle_lex::{
    bracket, bracketed, lemma_outside, literal, literal_of, outside, places, split_top, statements,
    statements_of, top_parts, unquoted, Stmt, StmtModel,
};
use crate::gradle_paths::{
    argument_template, joined_lines, joined_statements, path_argument, path_at, path_template,
    template, vals_of, Paths,
};
use crate::report::{Report, ReportModel};
use crate::task::{Action, ActionModel, TaskDef, TaskModel};
use crate::template::{literal_template, Template, TemplateModel};
use crate::text::{
    after_prefix, cat3, chars, dense, drop_run, head, join, joined, left, none_of, one_of, put,
    put_all, right, same, sans_head, sans_prefix, sans_tail, skip, skip_run, starts, starts_with,
    strip_prefix, take, take_run, trim, trim_end, trim_start, trimmed, without_prefix,
    without_space, Class,
};
use vstd::prelude::*;

verus! {

// ---- settings --------------------------------------------------------------

/// What is set by what follows a key.
pub open spec fn value_of(rest: Seq<char>) -> Option<Seq<char>> {
    match after_prefix(rest, "="@) {
        Some(v) => Some(trimmed(v)),
        None => match bracket(rest) {
            Some((inner, after)) => if trimmed(after).len() > 0 {
                None
            } else {
                Some(right(sans_tail(trimmed(inner), Class::One(','))))
            },
            None => Some(rest),
        },
    }
}

/// `key.set(value)`, `key = value`, `key(value)` or `key value`.
pub open spec fn setting_of(statement: Seq<char>) -> Option<(Seq<char>, Seq<char>)> {
    let s = trimmed(statement);
    let key = head(s, Class::Word);
    if key.len() == 0 {
        None
    } else {
        match value_of(left(sans_prefix(trimmed(sans_head(s, Class::Word)), ".set"@))) {
            Some(value) => Some((key, value)),
            None => None,
        }
    }
}

/// `key.set(value)`, `key = value`, `key(value)` or `key value`: the key and
/// the value as written.
pub fn setting(statement: &str) -> (r: Option<(&str, &str)>)
    ensures
        r.deep_view() == setting_of(statement@),
{
    let s = trim(statement);
    let key = take_run(s, Class::Word);
    if key.is_empty() {
        return None;
    }
    let rest = trim_start(without_prefix(trim(skip_run(s, Class::Word)), ".set"));
    if let Some(v) = strip_prefix(rest, "=") {
        return Some((key, trim(v)));
    }
    if let Some((inner, after)) = bracketed(rest) {
        if !trim(after).is_empty() {
            return None;
        }
        // Kotlin allows a trailing comma after the last argument.
        return Some((key, trim_end(drop_run(trim(inner), Class::One(',')))));
    }
    Some((key, rest))
}

/// A number's characters: digits and dots.
pub open spec fn numeric(s: Seq<char>) -> bool {
    s.len() > 0 && forall|i: int| 0 <= i < s.len() ==> digit(#[trigger] s[i]) || s[i] == '.'
}

fn is_numeric(s: &str) -> (r: bool)
    ensures
        r == numeric(s@),
{
    let cs = chars(s);
    if cs.len() == 0 {
        return false;
    }
    let mut i: usize = 0;
    while i < cs.len()
        invariant
            cs@ == s@,
            i <= cs@.len(),
            forall|j: int| 0 <= j < i ==> digit(#[trigger] s@[j]) || s@[j] == '.',
        decreases cs@.len() - i,
    {
        let c: char = cs[i];
        if !(is_digit(c) || c == '.') {
            assert(!digit(s@[i as int]));
            return false;
        }
        i = i + 1;
    }
    true
}

/// A literal string, boolean or number, as text.
pub open spec fn scalar_of(value: Seq<char>) -> Option<Seq<char>> {
    let v = trimmed(value);
    match literal_of(v) {
        Some(l) => if l.interpolated {
            None
        } else {
            Some(l.text)
        },
        None => if v == "true"@ || v == "false"@ || numeric(v) {
            Some(v)
        } else {
            None
        },
    }
}

/// A literal string, boolean or number, as text.
pub fn scalar(value: &str) -> (r: Option<String>)
    ensures
        r.deep_view() == scalar_of(value@),
{
    let v = trim(value);
    if let Some(l) = literal(v) {
        if l.interpolated {
            return None;
        }
        return Some(l.text);
    }
    if same(v, "true") || same(v, "false") || is_numeric(v) {
        Some(v.to_owned())
    } else {
        None
    }
}

/// The place of the first ` to ` among the marks from the `k`th on.
pub open spec fn to_from(marks: Seq<(int, char)>, k: int) -> Option<int>
    decreases marks.len() - k,
{
    if k < 0 || k + 3 >= marks.len() {
        None
    } else if marks[k].1 == ' ' && marks[k + 1].1 == 't' && marks[k + 2].1 == 'o' && marks[k + 3].1
        == ' ' {
        Some(marks[k].0)
    } else {
        to_from(marks, k + 1)
    }
}

/// `"k" to "v"` or `"k": "v"`.
pub open spec fn pair_of(entry: Seq<char>) -> Option<(Seq<char>, Seq<char>)> {
    match crate::gradle_lex::opening(entry, ':') {
        Some(i) => Some((entry.take(i), entry.skip(i + 1))),
        None => match to_from(outside(entry), 0) {
            Some(at) => Some((entry.take(at), entry.skip(at + 4))),
            None => None,
        },
    }
}

/// `"k" to "v"` or `"k": "v"`.
fn split_pair(entry: &str) -> (r: Option<(&str, &str)>)
    ensures
        r.deep_view() == pair_of(entry@),
{
    if let Some(i) = crate::gradle_lex::first_open(entry, ':') {
        let _size: usize = entry.unicode_len();
        return Some((take(entry, i), skip(entry, i + 1)));
    }
    let size: usize = entry.unicode_len();
    let marks = unquoted(entry);
    proof {
        lemma_outside(entry@);
    }
    let ghost all = outside(entry@);
    let mut k: usize = 0;
    while marks.len() >= 4 && k <= marks.len() - 4
        invariant
            places(marks@) == all,
            all == outside(entry@),
            size == entry@.len(),
            all.len() <= size,
            forall|k: int| 0 <= k < all.len() ==> 0 <= (#[trigger] all[k]).0 < size,
            forall|j: int, k: int|
                0 <= j < k < all.len() ==> (#[trigger] all[j]).0 < (#[trigger] all[k]).0,
            k <= marks@.len(),
            crate::gradle_lex::opening(entry@, ':') is None,
            to_from(all, 0) == to_from(all, k as int),
        decreases marks@.len() - k,
    {
        assert(all[k as int] == (marks@[k as int].0 as int, marks@[k as int].1));
        assert(all[k + 1] == (marks@[k + 1].0 as int, marks@[k + 1].1));
        assert(all[k + 2] == (marks@[k + 2].0 as int, marks@[k + 2].1));
        assert(all[k + 3] == (marks@[k + 3].0 as int, marks@[k + 3].1));
        if marks[k].1 == ' ' && marks[k + 1].1 == 't' && marks[k + 2].1 == 'o' && marks[k + 3].1
            == ' ' {
            let at: usize = marks[k].0;
            return Some((take(entry, at), skip(entry, at + 4)));
        }
        k = k + 1;
    }
    None
}

/// The entries of a map, as written.
pub open spec fn map_entries(value: Seq<char>) -> Option<Seq<char>> {
    let v = trimmed(value);
    let rest = match after_prefix(v, "mapOf"@) {
        Some(r) => left(r),
        None => match after_prefix(v, "mutableMapOf"@) {
            Some(r) => left(r),
            None => v,
        },
    };
    match bracket(rest) {
        Some((inner, after)) => if trimmed(after).len() == 0 {
            Some(inner)
        } else {
            None
        },
        None => None,
    }
}

fn find_entries(value: &str) -> (r: Option<&str>)
    ensures
        r.deep_view() == map_entries(value@),
{
    let v = trim(value);
    let rest = match strip_prefix(v, "mapOf") {
        Some(r) => trim_start(r),
        None => match strip_prefix(v, "mutableMapOf") {
            Some(r) => trim_start(r),
            None => v,
        },
    };
    match bracketed(rest) {
        Some((inner, after)) => if trim(after).is_empty() {
            Some(inner)
        } else {
            None
        },
        None => None,
    }
}

pub open spec fn literal_pair(entry: Seq<char>) -> Option<(Seq<char>, Seq<char>)> {
    match pair_of(entry) {
        Some((key, value)) => match (scalar_of(key), scalar_of(value)) {
            (Some(k), Some(v)) => Some((k, v)),
            _ => None,
        },
        None => None,
    }
}

/// The pairs of the entries from `i` on, after those before.
pub open spec fn pairs_from(
    entries: Seq<Seq<char>>,
    i: int,
    out: Seq<(Seq<char>, Seq<char>)>,
) -> Option<Seq<(Seq<char>, Seq<char>)>>
    decreases entries.len() - i,
{
    if i < 0 || i >= entries.len() {
        Some(out)
    } else if trimmed(entries[i]).len() == 0 {
        pairs_from(entries, i + 1, out)
    } else {
        match literal_pair(trimmed(entries[i])) {
            Some(p) => pairs_from(entries, i + 1, out.push(p)),
            None => None,
        }
    }
}

/// `mapOf("a" to "b", "c" to "")` or Groovy's `["a": "b"]`: its pairs, when
/// every key and value is a literal.
pub open spec fn pairs_of(value: Seq<char>) -> Option<Seq<(Seq<char>, Seq<char>)>> {
    match map_entries(value) {
        Some(inner) => pairs_from(top_parts(inner, ','), 0, seq![]),
        None => None,
    }
}

/// `mapOf("a" to "b", "c" to "")` or Groovy's `["a": "b"]`: its pairs, when
/// every key and value is a literal (`true` and numbers count).
pub fn map_pairs(value: &str) -> (r: Option<Vec<(String, String)>>)
    ensures
        r.deep_view() == pairs_of(value@),
{
    let Some(inner) = find_entries(value) else {
        return None;
    };
    let entries = split_top(inner, ',');
    let ghost all = entries.deep_view();
    let mut pairs: Vec<(String, String)> = none_of();
    let mut i: usize = 0;
    while i < entries.len()
        invariant
            all == entries.deep_view(),
            i <= entries@.len(),
            pairs_of(value@) == pairs_from(all, i as int, pairs.deep_view()),
        decreases entries@.len() - i,
    {
        assert(all[i as int] == entries@[i as int]@);
        let entry = trim(entries[i]);
        if !entry.is_empty() {
            let Some((key, value)) = split_pair(entry) else {
                return None;
            };
            match (scalar(key), scalar(value)) {
                (Some(k), Some(v)) => {
                    put(&mut pairs, (k, v));
                },
                _ => {
                    return None;
                },
            }
        }
        i = i + 1;
    }
    Some(pairs)
}

/// `s` from its first character, at `i` or later, that is no letter.
pub open spec fn sans_letters(s: Seq<char>, i: int) -> Seq<char>
    decreases s.len() - i,
{
    if i < 0 || i >= s.len() {
        seq![]
    } else if unicode_alphabetic(s[i]) {
        sans_letters(s, i + 1)
    } else {
        s.skip(i)
    }
}

fn skip_letters(s: &str) -> (r: &str)
    ensures
        r@ == sans_letters(s@, 0),
{
    let cs = chars(s);
    let mut i: usize = 0;
    while i < cs.len()
        invariant
            cs@ == s@,
            i <= cs@.len(),
            sans_letters(s@, 0) == sans_letters(s@, i as int),
        decreases cs@.len() - i,
    {
        if !is_unicode_alphabetic(cs[i]) {
            return skip(s, i);
        }
        i = i + 1;
    }
    let r = skip(s, i);
    assert(r@ =~= seq![]);
    r
}

/// The literals among the elements from `i` on, after those before.
pub open spec fn scalars_from(elements: Seq<Seq<char>>, i: int, out: Seq<Seq<char>>) -> Seq<
    Seq<char>,
>
    decreases elements.len() - i,
{
    if i < 0 || i >= elements.len() {
        out
    } else {
        match scalar_of(elements[i]) {
            Some(s) => scalars_from(elements, i + 1, out.push(s)),
            None => scalars_from(elements, i + 1, out),
        }
    }
}

/// `listOf("a", "b")`, `setOf(...)` or `["a", "b"]`: the literals in it.
pub open spec fn listed_literals(value: Seq<char>) -> Option<Seq<Seq<char>>> {
    match bracket(sans_letters(value, 0)) {
        Some((inner, _)) => Some(scalars_from(top_parts(inner, ','), 0, seq![])),
        None => None,
    }
}

/// `listOf("a", "b")`, `setOf(...)` or `["a", "b"]`: the literals in it.
pub fn literal_list(value: &str) -> (r: Option<Vec<String>>)
    ensures
        r.deep_view() == listed_literals(value@),
{
    let Some((inner, _)) = bracketed(skip_letters(value)) else {
        return None;
    };
    let elements = split_top(inner, ',');
    let ghost all = elements.deep_view();
    let mut out: Vec<String> = none_of();
    let mut i: usize = 0;
    while i < elements.len()
        invariant
            all == elements.deep_view(),
            i <= elements@.len(),
            scalars_from(all, 0, seq![]) == scalars_from(all, i as int, out.deep_view()),
        decreases elements@.len() - i,
    {
        assert(all[i as int] == elements@[i as int]@);
        if let Some(s) = scalar(elements[i]) {
            put(&mut out, s);
        }
        i = i + 1;
    }
    Some(out)
}

// ---- options ---------------------------------------------------------------

/// The plugin's id.
pub const OPENAPI_PLUGIN: &'static str = "org.openapi.generator";

/// The command-line tool the plugin runs, from Maven Central.
pub const OPENAPI_GROUP: &'static str = "org.openapitools";

pub const OPENAPI_ARTIFACT: &'static str = "openapi-generator-cli";

/// The tool's entry point.
pub const OPENAPI_MAIN: &'static str = "org.openapitools.codegen.OpenAPIGenerator";

/// `openApiGenerate { }` settings that name a file or directory.
pub open spec fn path_options() -> Seq<(Seq<char>, Seq<char>)> {
    seq![
        ("inputSpec"@, "-i"@),
        ("outputDir"@, "-o"@),
        ("templateDir"@, "-t"@),
        ("configFile"@, "-c"@),
        ("ignoreFileOverride"@, "--ignore-file-override"@),
    ]
}

/// Settings that are one string, and the CLI's option for each.
pub open spec fn string_options() -> Seq<(Seq<char>, Seq<char>)> {
    seq![
        ("generatorName"@, "-g"@),
        ("modelPackage"@, "--model-package"@),
        ("apiPackage"@, "--api-package"@),
        ("invokerPackage"@, "--invoker-package"@),
        ("packageName"@, "--package-name"@),
        ("modelNamePrefix"@, "--model-name-prefix"@),
        ("modelNameSuffix"@, "--model-name-suffix"@),
        ("apiNameSuffix"@, "--api-name-suffix"@),
        ("library"@, "--library"@),
        ("groupId"@, "--group-id"@),
        ("id"@, "--artifact-id"@),
        ("version"@, "--artifact-version"@),
        ("gitHost"@, "--git-host"@),
        ("gitUserId"@, "--git-user-id"@),
        ("gitRepoId"@, "--git-repo-id"@),
        ("releaseNote"@, "--release-note"@),
        ("httpUserAgent"@, "--http-user-agent"@),
        ("auth"@, "--auth"@),
    ]
}

/// Settings that are a map, written `k=v,k=v`.
pub open spec fn map_options() -> Seq<(Seq<char>, Seq<char>)> {
    seq![
        ("globalProperties"@, "--global-property"@),
        ("configOptions"@, "--additional-properties"@),
        ("additionalProperties"@, "--additional-properties"@),
        ("typeMappings"@, "--type-mappings"@),
        ("importMappings"@, "--import-mappings"@),
        ("schemaMappings"@, "--schema-mappings"@),
        ("instantiationTypes"@, "--instantiation-types"@),
        ("nameMappings"@, "--name-mappings"@),
        ("modelNameMappings"@, "--model-name-mappings"@),
        ("parameterNameMappings"@, "--parameter-name-mappings"@),
        ("enumNameMappings"@, "--enum-name-mappings"@),
        ("inlineSchemaNameMappings"@, "--inline-schema-name-mappings"@),
        ("reservedWordsMappings"@, "--reserved-words-mappings"@),
    ]
}

/// Settings that are a switch, set to `true`.
pub open spec fn switch_options() -> Seq<(Seq<char>, Seq<char>)> {
    seq![
        ("skipValidateSpec"@, "--skip-validate-spec"@),
        ("removeOperationIdPrefix"@, "--remove-operation-id-prefix"@),
        ("skipOverwrite"@, "--skip-overwrite"@),
        ("minimalUpdate"@, "--minimal-update"@),
        ("generateAliasAsModel"@, "--generate-alias-as-model"@),
        ("enablePostProcessFile"@, "--enable-post-process-file"@),
        ("skipOperationExample"@, "--skip-operation-example"@),
        ("dryRun"@, "--dry-run"@),
        ("verbose"@, "-v"@),
    ]
}

fn list_path_options() -> (r: Vec<(&'static str, &'static str)>)
    ensures
        r.deep_view() == path_options(),
{
    let r: Vec<(&'static str, &'static str)> = vec![
        ("inputSpec", "-i"),
        ("outputDir", "-o"),
        ("templateDir", "-t"),
        ("configFile", "-c"),
        ("ignoreFileOverride", "--ignore-file-override"),
    ];
    assert(r.deep_view() =~= path_options());
    r
}

fn list_string_options() -> (r: Vec<(&'static str, &'static str)>)
    ensures
        r.deep_view() == string_options(),
{
    let r: Vec<(&'static str, &'static str)> = vec![
        ("generatorName", "-g"),
        ("modelPackage", "--model-package"),
        ("apiPackage", "--api-package"),
        ("invokerPackage", "--invoker-package"),
        ("packageName", "--package-name"),
        ("modelNamePrefix", "--model-name-prefix"),
        ("modelNameSuffix", "--model-name-suffix"),
        ("apiNameSuffix", "--api-name-suffix"),
        ("library", "--library"),
        ("groupId", "--group-id"),
        ("id", "--artifact-id"),
        ("version", "--artifact-version"),
        ("gitHost", "--git-host"),
        ("gitUserId", "--git-user-id"),
        ("gitRepoId", "--git-repo-id"),
        ("releaseNote", "--release-note"),
        ("httpUserAgent", "--http-user-agent"),
        ("auth", "--auth"),
    ];
    assert(r.deep_view() =~= string_options());
    r
}

fn list_map_options() -> (r: Vec<(&'static str, &'static str)>)
    ensures
        r.deep_view() == map_options(),
{
    let r: Vec<(&'static str, &'static str)> = vec![
        ("globalProperties", "--global-property"),
        ("configOptions", "--additional-properties"),
        ("additionalProperties", "--additional-properties"),
        ("typeMappings", "--type-mappings"),
        ("importMappings", "--import-mappings"),
        ("schemaMappings", "--schema-mappings"),
        ("instantiationTypes", "--instantiation-types"),
        ("nameMappings", "--name-mappings"),
        ("modelNameMappings", "--model-name-mappings"),
        ("parameterNameMappings", "--parameter-name-mappings"),
        ("enumNameMappings", "--enum-name-mappings"),
        ("inlineSchemaNameMappings", "--inline-schema-name-mappings"),
        ("reservedWordsMappings", "--reserved-words-mappings"),
    ];
    assert(r.deep_view() =~= map_options());
    r
}

fn list_switch_options() -> (r: Vec<(&'static str, &'static str)>)
    ensures
        r.deep_view() == switch_options(),
{
    let r: Vec<(&'static str, &'static str)> = vec![
        ("skipValidateSpec", "--skip-validate-spec"),
        ("removeOperationIdPrefix", "--remove-operation-id-prefix"),
        ("skipOverwrite", "--skip-overwrite"),
        ("minimalUpdate", "--minimal-update"),
        ("generateAliasAsModel", "--generate-alias-as-model"),
        ("enablePostProcessFile", "--enable-post-process-file"),
        ("skipOperationExample", "--skip-operation-example"),
        ("dryRun", "--dry-run"),
        ("verbose", "-v"),
    ];
    assert(r.deep_view() =~= switch_options());
    r
}

/// The option of the first entry for `key`, from the `i`th on.
pub open spec fn option_named(
    options: Seq<(Seq<char>, Seq<char>)>,
    key: Seq<char>,
    i: int,
) -> Option<Seq<char>>
    decreases options.len() - i,
{
    if i < 0 || i >= options.len() {
        None
    } else if options[i].0 == key {
        Some(options[i].1)
    } else {
        option_named(options, key, i + 1)
    }
}

fn find_option(options: &Vec<(&'static str, &'static str)>, key: &str) -> (r: Option<&'static str>)
    ensures
        r.deep_view() == option_named(options.deep_view(), key@, 0),
{
    let ghost all = options.deep_view();
    let mut i: usize = 0;
    while i < options.len()
        invariant
            all == options.deep_view(),
            i <= options@.len(),
            option_named(all, key@, 0) == option_named(all, key@, i as int),
        decreases options@.len() - i,
    {
        assert(all[i as int] == (options@[i as int].0@, options@[i as int].1@));
        if same(options[i].0, key) {
            return Some(options[i].1);
        }
        i = i + 1;
    }
    None
}

/// The generator's command line, and what it reads and writes.
pub struct Cli {
    pub args: Vec<Template>,
    /// `k=v` entries, by their option.
    pub maps: Vec<(String, Vec<String>)>,
    pub inputs: Vec<Template>,
    pub outputs: Vec<Template>,
}

/// The generator's command line.
pub struct CliModel {
    pub args: Seq<TemplateModel>,
    pub maps: Seq<(Seq<char>, Seq<Seq<char>>)>,
    pub inputs: Seq<TemplateModel>,
    pub outputs: Seq<TemplateModel>,
}

impl DeepView for Cli {
    type V = CliModel;

    open spec fn deep_view(&self) -> CliModel {
        CliModel {
            args: self.args.deep_view(),
            maps: self.maps.deep_view(),
            inputs: self.inputs.deep_view(),
            outputs: self.outputs.deep_view(),
        }
    }
}

impl CliModel {
    /// With one more argument.
    pub open spec fn with_argument(self, arg: TemplateModel) -> CliModel {
        CliModel { args: self.args.push(arg), ..self }
    }
}

/// The arguments with one option and its value.
pub open spec fn with_option(c: CliModel, option: Seq<char>, value: TemplateModel) -> CliModel {
    c.with_argument(literal_template(option)).with_argument(value)
}

/// The command line with the path that `key` names.
pub open spec fn with_path(c: CliModel, key: Seq<char>, option: Seq<char>, path: Seq<char>) -> CliModel {
    let d = with_option(c, option, argument_template(path));
    if key == "outputDir"@ {
        CliModel { outputs: d.outputs.push(path_template(path)), ..d }
    } else if key == "inputSpec"@ || key == "templateDir"@ || key == "configFile"@ {
        CliModel { inputs: d.inputs.push(path_template(path)), ..d }
    } else {
        d
    }
}

/// The pairs as `k=v`.
pub open spec fn entries_of(pairs: Seq<(Seq<char>, Seq<char>)>) -> Seq<Seq<char>> {
    Seq::new(pairs.len(), |i: int| pairs[i].0 + "="@ + pairs[i].1)
}

fn write_entries(pairs: &Vec<(String, String)>) -> (r: Vec<String>)
    ensures
        r.deep_view() == entries_of(pairs.deep_view()),
{
    let ghost all = pairs.deep_view();
    let mut out: Vec<String> = none_of();
    let mut i: usize = 0;
    while i < pairs.len()
        invariant
            all == pairs.deep_view(),
            i <= pairs@.len(),
            out.deep_view() =~= entries_of(all).take(i as int),
        decreases pairs@.len() - i,
    {
        assert(all[i as int] == (pairs@[i as int].0@, pairs@[i as int].1@));
        put(&mut out, cat3(pairs[i].0.as_str(), "=", pairs[i].1.as_str()));
        i = i + 1;
    }
    assert(entries_of(all).take(i as int) =~= entries_of(all));
    out
}

/// The place, from the `i`th on, of the entries of `option`.
pub open spec fn map_place(
    maps: Seq<(Seq<char>, Seq<Seq<char>>)>,
    option: Seq<char>,
    i: int,
) -> Option<int>
    decreases maps.len() - i,
{
    if i < 0 || i >= maps.len() {
        None
    } else if maps[i].0 == option {
        Some(i)
    } else {
        map_place(maps, option, i + 1)
    }
}

/// The maps with more entries of `option`.
pub open spec fn with_entries(
    maps: Seq<(Seq<char>, Seq<Seq<char>>)>,
    option: Seq<char>,
    entries: Seq<Seq<char>>,
) -> Seq<(Seq<char>, Seq<Seq<char>>)> {
    match map_place(maps, option, 0) {
        Some(i) => maps.update(i, (maps[i].0, maps[i].1 + entries)),
        None => maps.push((option, entries)),
    }
}

fn add_entries(maps: &mut Vec<(String, Vec<String>)>, option: &str, entries: Vec<String>)
    ensures
        final(maps).deep_view() == with_entries(
            old(maps).deep_view(),
            option@,
            entries.deep_view(),
        ),
{
    let ghost all = maps.deep_view();
    let mut i: usize = 0;
    while i < maps.len()
        invariant
            maps == old(maps),
            all == maps.deep_view(),
            i <= maps@.len(),
            map_place(all, option@, 0) == map_place(all, option@, i as int),
        decreases maps@.len() - i,
    {
        assert(all[i as int] == (maps@[i as int].0@, maps@[i as int].1.deep_view()));
        if same(maps[i].0.as_str(), option) {
            let (name, mut list) = maps.remove(i);
            put_all(&mut list, entries);
            let ghost changed = (name@, list.deep_view());
            maps.insert(i, (name, list));
            assert(maps.deep_view() =~= all.update(i as int, changed));
            return ;
        }
        i = i + 1;
    }
    put(maps, (option.to_owned(), entries));
}

/// The command line and the report once a setting of the block is read, or
/// the report alone where the task cannot be had.
pub open spec fn with_setting(
    c: CliModel,
    told: ReportModel,
    statement: Seq<char>,
    vals: Seq<(Seq<char>, Seq<char>)>,
) -> (Option<CliModel>, ReportModel) {
    match setting_of(statement) {
        None => (Some(c), told),
        Some((key, value)) => match option_named(path_options(), key, 0) {
            Some(option) => match path_at(vals, value, 0) {
                Some(path) => (Some(with_path(c, key, option, path)), told),
                None => (
                    None,
                    told.with_skipped(
                        "`openApiGenerate { "@ + statement
                            + " }` — not a path jrs can work out without running Gradle; the task was not migrated"@,
                    ),
                ),
            },
            None => match option_named(string_options(), key, 0) {
                Some(option) => match scalar_of(value) {
                    Some(text) => (Some(with_option(c, option, literal_template(text))), told),
                    None => (
                        None,
                        told.with_skipped(
                            "`openApiGenerate { "@ + statement
                                + " }` — not a literal; the task was not migrated"@,
                        ),
                    ),
                },
                None => match option_named(map_options(), key, 0) {
                    Some(option) => match pairs_of(value) {
                        Some(pairs) => (
                            Some(
                                CliModel {
                                    maps: with_entries(c.maps, option, entries_of(pairs)),
                                    ..c
                                },
                            ),
                            told,
                        ),
                        None => (
                            None,
                            told.with_skipped(
                                "`openApiGenerate { "@ + statement
                                    + " }` — not a map of literals; the task was not migrated"@,
                            ),
                        ),
                    },
                    None => match option_named(switch_options(), key, 0) {
                        Some(option) => if value == "true"@ {
                            (Some(c.with_argument(literal_template(option))), told)
                        } else {
                            (Some(c), told)
                        },
                        None => if key == "languageSpecificPrimitives"@ {
                            match listed_literals(value) {
                                Some(list) if list.len() > 0 => (
                                    Some(
                                        with_option(
                                            c,
                                            "--language-specific-primitives"@,
                                            literal_template(joined(list, ","@)),
                                        ),
                                    ),
                                    told,
                                ),
                                _ => (
                                    Some(c),
                                    told.with_review(
                                        "`openApiGenerate { "@ + statement
                                            + " }` — not a list of literals; set --language-specific-primitives by hand"@,
                                    ),
                                ),
                            }
                        } else {
                            (
                                Some(c),
                                told.with_review(
                                    "`openApiGenerate { "@ + statement
                                        + " }` — not translated to the generator's CLI; add its option to [tasks.open-api-generate] args by hand"@,
                                ),
                            )
                        },
                    },
                },
            },
        },
    }
}

fn add_option(cli: &mut Cli, option: &str, value: Template)
    ensures
        final(cli).deep_view() == with_option(old(cli).deep_view(), option@, value.deep_view()),
{
    put(&mut cli.args, Template::literal(option));
    put(&mut cli.args, value);
}

fn add_path(cli: &mut Cli, key: &str, option: &str, path: &str)
    ensures
        final(cli).deep_view() == with_path(old(cli).deep_view(), key@, option@, path@),
{
    add_option(cli, option, path_argument(path));
    if same(key, "outputDir") {
        put(&mut cli.outputs, template(path));
    } else if same(key, "inputSpec") || same(key, "templateDir") || same(key, "configFile") {
        put(&mut cli.inputs, template(path));
    }
}

/// Read one setting of the block. Whether the task can still be had.
fn read_setting(cli: &mut Cli, statement: &str, paths: &Paths, report: &mut Report) -> (r: bool)
    ensures
        ({
            let (c, told) = with_setting(
                old(cli).deep_view(),
                old(report).deep_view(),
                statement@,
                paths.deep_view(),
            );
            &&& r == (c is Some)
            &&& c matches Some(c) ==> final(cli).deep_view() == c
            &&& final(report).deep_view() == told
        }),
{
    let Some((key, value)) = setting(statement) else {
        return true;
    };
    if let Some(option) = find_option(&list_path_options(), key) {
        let Some(path) = paths.path(value) else {
            report.skipped(
                cat3(
                    "`openApiGenerate { ",
                    statement,
                    " }` — not a path jrs can work out without running Gradle; the task was not migrated",
                ),
            );
            return false;
        };
        add_path(cli, key, option, path.as_str());
        return true;
    }
    if let Some(option) = find_option(&list_string_options(), key) {
        let Some(text) = scalar(value) else {
            report.skipped(
                cat3(
                    "`openApiGenerate { ",
                    statement,
                    " }` — not a literal; the task was not migrated",
                ),
            );
            return false;
        };
        add_option(cli, option, Template::literal(text.as_str()));
        return true;
    }
    if let Some(option) = find_option(&list_map_options(), key) {
        let Some(pairs) = map_pairs(value) else {
            report.skipped(
                cat3(
                    "`openApiGenerate { ",
                    statement,
                    " }` — not a map of literals; the task was not migrated",
                ),
            );
            return false;
        };
        add_entries(&mut cli.maps, option, write_entries(&pairs));
        return true;
    }
    if let Some(option) = find_option(&list_switch_options(), key) {
        if same(value, "true") {
            put(&mut cli.args, Template::literal(option));
        }
        return true;
    }
    if same(key, "languageSpecificPrimitives") {
        if let Some(list) = literal_list(value) {
            if list.len() > 0 {
                add_option(
                    cli,
                    "--language-specific-primitives",
                    Template::literal(join(&list, ",").as_str()),
                );
                return true;
            }
        }
        report.review(
            cat3(
                "`openApiGenerate { ",
                statement,
                " }` — not a list of literals; set --language-specific-primitives by hand",
            ),
        );
        return true;
    }
    report.review(
        cat3(
            "`openApiGenerate { ",
            statement,
            " }` — not translated to the generator's CLI; add its option to [tasks.open-api-generate] args by hand",
        ),
    );
    true
}

/// The command line and the report once the settings from `i` on are read.
pub open spec fn settings_from(
    statements: Seq<Seq<char>>,
    i: int,
    c: CliModel,
    told: ReportModel,
    vals: Seq<(Seq<char>, Seq<char>)>,
) -> (Option<CliModel>, ReportModel)
    decreases statements.len() - i,
{
    if i < 0 || i >= statements.len() {
        (Some(c), told)
    } else {
        match with_setting(c, told, statements[i], vals) {
            (None, told) => (None, told),
            (Some(c), told) => settings_from(statements, i + 1, c, told, vals),
        }
    }
}

/// The arguments, with the maps from the `i`th on.
pub open spec fn with_maps(
    args: Seq<TemplateModel>,
    maps: Seq<(Seq<char>, Seq<Seq<char>>)>,
    i: int,
) -> Seq<TemplateModel>
    decreases maps.len() - i,
{
    if i < 0 || i >= maps.len() {
        args
    } else {
        with_maps(
            args.push(literal_template(maps[i].0)).push(
                literal_template(joined(maps[i].1, ","@)),
            ),
            maps,
            i + 1,
        )
    }
}

fn add_maps(args: &mut Vec<Template>, maps: &Vec<(String, Vec<String>)>)
    ensures
        final(args).deep_view() == with_maps(old(args).deep_view(), maps.deep_view(), 0),
{
    let ghost all = maps.deep_view();
    let ghost start = args.deep_view();
    let mut i: usize = 0;
    while i < maps.len()
        invariant
            all == maps.deep_view(),
            i <= maps@.len(),
            with_maps(start, all, 0) == with_maps(args.deep_view(), all, i as int),
        decreases maps@.len() - i,
    {
        assert(all[i as int] == (maps@[i as int].0@, maps@[i as int].1.deep_view()));
        put(args, Template::literal(maps[i].0.as_str()));
        put(args, Template::literal(join(&maps[i].1, ",").as_str()));
        i = i + 1;
    }
}

// ---- the task --------------------------------------------------------------

/// The statement configures the plugin's task.
pub open spec fn configures_openapi(s: StmtModel) -> bool {
    let head = dense(s.head);
    head == "openApiGenerate"@ || head == "tasks.openApiGenerate"@ || starts(
        head,
        "tasks.named<GenerateTask>(\"openApiGenerate\")"@,
    ) || starts(head, "tasks.named(\"openApiGenerate\""@)
}

/// The block, from the `i`th statement on, that configures the plugin's task.
pub open spec fn openapi_block_from(top: Seq<StmtModel>, i: int) -> Option<Seq<char>>
    decreases top.len() - i,
{
    if i < 0 || i >= top.len() {
        None
    } else if configures_openapi(top[i]) && top[i].block is Some {
        top[i].block
    } else {
        openapi_block_from(top, i + 1)
    }
}

/// The block that configures the plugin's `openApiGenerate` task.
fn openapi_block(top: &Vec<Stmt>) -> (r: Option<&str>)
    ensures
        r.deep_view() == openapi_block_from(top.deep_view(), 0),
{
    let ghost all = top.deep_view();
    let mut i: usize = 0;
    while i < top.len()
        invariant
            all == top.deep_view(),
            i <= top@.len(),
            openapi_block_from(all, 0) == openapi_block_from(all, i as int),
        decreases top@.len() - i,
    {
        assert(all[i as int] == top@[i as int].deep_view());
        let dense = without_space(top[i].head.as_str());
        let head = dense.as_str();
        if same(head, "openApiGenerate") || same(head, "tasks.openApiGenerate") || starts_with(
            head,
            "tasks.named<GenerateTask>(\"openApiGenerate\")",
        ) || starts_with(head, "tasks.named(\"openApiGenerate\"") {
            if let Some(block) = &top[i].block {
                return Some(block.as_str());
            }
        }
        i = i + 1;
    }
    None
}

/// The `[tasks.open-api-generate]` that runs the generator's CLI at `version`.
pub open spec fn openapi_task_of(
    version: Seq<char>,
    args: Seq<TemplateModel>,
    inputs: Seq<TemplateModel>,
    outputs: Seq<TemplateModel>,
) -> TaskModel {
    TaskModel {
        name: "open-api-generate"@,
        description: Some(
            "Generate code from the OpenAPI spec (the Gradle plugin's openApiGenerate, run as the OpenAPI Generator CLI "@
                + version + ")"@,
        ),
        action: Some(ActionModel::Main(OPENAPI_MAIN@)),
        args,
        depends_on: seq![],
        env: seq![],
        cwd: None,
        inputs: if outputs.len() == 0 {
            seq![]
        } else {
            inputs
        },
        outputs,
        source_outputs: seq![],
        resource_outputs: seq![],
        dependencies: seq![plain_dependency(OPENAPI_GROUP@, OPENAPI_ARTIFACT@, version)],
    }
}

/// The `[tasks.open-api-generate]` that runs the generator's CLI at `version`.
fn openapi_task(
    version: &str,
    args: Vec<Template>,
    inputs: Vec<Template>,
    outputs: Vec<Template>,
) -> (r: TaskDef)
    ensures
        r.deep_view() == openapi_task_of(
            version@,
            args.deep_view(),
            inputs.deep_view(),
            outputs.deep_view(),
        ),
{
    // Without an output there is nothing to be fresh about.
    let inputs = if outputs.len() == 0 {
        none_of()
    } else {
        inputs
    };
    TaskDef {
        name: "open-api-generate".to_owned(),
        description: Some(
            cat3(
                "Generate code from the OpenAPI spec (the Gradle plugin's openApiGenerate, run as the OpenAPI Generator CLI ",
                version,
                ")",
            ),
        ),
        action: Some(Action::Main(OPENAPI_MAIN.to_owned())),
        args,
        depends_on: none_of(),
        env: none_of(),
        cwd: None,
        inputs,
        outputs,
        source_outputs: none_of(),
        resource_outputs: none_of(),
        dependencies: one_of(Dependency::new(OPENAPI_GROUP, OPENAPI_ARTIFACT, version)),
    }
}

/// The command line before any setting.
pub open spec fn bare_cli() -> CliModel {
    CliModel {
        args: seq![literal_template("generate"@)],
        maps: seq![],
        inputs: seq![],
        outputs: seq![],
    }
}

/// The task that `openApiGenerate { }` becomes, and the report.
pub open spec fn openapi_of(
    script: Seq<char>,
    version: Option<Seq<char>>,
    vals: Seq<(Seq<char>, Seq<char>)>,
    told: ReportModel,
) -> (Option<TaskModel>, ReportModel) {
    match openapi_block_from(statements_of(script), 0) {
        None => (None, told),
        Some(block) => match version {
            None => (
                None,
                told.with_skipped(
                    "`openApiGenerate { }` — the plugin's version could not be read, and the generator's CLI is pinned at it"@,
                ),
            ),
            Some(version) => match settings_from(
                joined_lines(block),
                0,
                bare_cli(),
                told,
                vals_of(block) + vals,
            ) {
                (None, told) => (None, told),
                (Some(c), told) => (
                    Some(
                        openapi_task_of(version, with_maps(c.args, c.maps, 0), c.inputs, c.outputs),
                    ),
                    told,
                ),
            },
        },
    }
}

/// `openApiGenerate { }` → a `main` task over the `OpenAPI` Generator's CLI at
/// the plugin's `version`, which does what the plugin's task does: every
/// setting jrs knows becomes the CLI's option. `None`, reported, when the
/// block names something jrs cannot work out.
pub fn openapi(script: &str, version: Option<&str>, paths: &Paths, report: &mut Report) -> (r: Option<
    TaskDef,
>)
    ensures
        (r.deep_view(), final(report).deep_view()) == openapi_of(
            script@,
            version.deep_view(),
            paths.deep_view(),
            old(report).deep_view(),
        ),
{
    let top = statements(script);
    let Some(block) = openapi_block(&top) else {
        return None;
    };
    let Some(pinned) = version else {
        report.skipped(
            "`openApiGenerate { }` — the plugin's version could not be read, and the generator's CLI is pinned at it".to_owned(),
        );
        return None;
    };
    let scope = paths.within(block);
    let mut cli = Cli {
        args: one_of(Template::literal("generate")),
        maps: none_of(),
        inputs: none_of(),
        outputs: none_of(),
    };
    assert(cli.deep_view() == bare_cli());
    let settings = joined_statements(block);
    let ghost all = settings.deep_view();
    let ghost start = report.deep_view();
    let mut i: usize = 0;
    while i < settings.len()
        invariant
            all == settings.deep_view(),
            start == old(report).deep_view(),
            version.deep_view() == Some(pinned@),
            i <= settings@.len(),
            settings_from(all, 0, bare_cli(), start, scope.deep_view()) == settings_from(
                all,
                i as int,
                cli.deep_view(),
                report.deep_view(),
                scope.deep_view(),
            ),
            openapi_of(script@, Some(pinned@), paths.deep_view(), start) == (match settings_from(
                all,
                0,
                bare_cli(),
                start,
                scope.deep_view(),
            ) {
                (None, told) => (None, told),
                (Some(c), told) => (
                    Some(
                        openapi_task_of(pinned@, with_maps(c.args, c.maps, 0), c.inputs, c.outputs),
                    ),
                    told,
                ),
            }),
        decreases settings@.len() - i,
    {
        assert(all[i as int] == settings@[i as int]@);
        if !read_setting(&mut cli, settings[i].as_str(), &scope, report) {
            return None;
        }
        i = i + 1;
    }
    add_maps(&mut cli.args, &cli.maps);
    Some(openapi_task(pinned, cli.args, cli.inputs, cli.outputs))
}

} // verus!
