//! The project model `jrs metadata` prints, like `cargo metadata`: what an
//! editor plugin or a language server needs to set a project up without
//! reading `jrs.toml` itself — the source and resource roots per language,
//! the output directories, the three classpaths, the JDK and `--release`,
//! the main class, and the tasks.
//!
//! It is versioned JSON ([`FORMAT_VERSION`]), written by [`crate::json`].
//! Every path is absolute, and every key comes out in a fixed order, so the
//! same project prints the same bytes. Building the model never compiles:
//! it needs the manifest, the resolved graph (unless `--no-deps`), and the
//! JDK when there is one.

use crate::error::{Fault, JrsError};
use crate::json::{field, text_or_null, Json, JsonModel};
use crate::keys::key_warnings;
use crate::language::Language;
use crate::manifest::{LOCK_FILE, LanguageModel, Manifest, ManifestModel};
use crate::model_says::{says_document, the_document_says_what_it_is_made_of};
use crate::parse_tasks::{
    classpath_from, path_fault_from, path_keys, task_keys, task_table, tasks_of,
};
use crate::paths::{is_same_dir, join_path, names, same_dir, under};
use crate::reach::{reached, reached_from};
use crate::reread::lemma_pieces_apart;
use crate::reread_paths::{lemma_joined_first, lemma_names, lemma_starts_slash};
use crate::task::{Hook, HookLists, Hooks, TaskDef, TaskModel};
use crate::template::{
    lemma_placeholder_listed, Placeholder, Segment, SegmentModel, Template, TemplateModel,
};
use crate::text::{
    cat2, cat3, ends, ends_with, join, joined, listed, none_of, one_of, outcome, pieces, put, same,
    split, starts, starts_with,
};
use crate::toolchain::{Toolchain, ToolchainModel};
use crate::value::{entry, Entries};
use crate::version::VERSION;
use vstd::prelude::*;

verus! {

/// The format version, the document's first key. It goes up only when a key
/// changes meaning or goes away; new keys may appear within a version.
pub const FORMAT_VERSION: i64 = 1;

/// A package of the resolved graph.
#[derive(Debug)]
pub struct Package {
    /// `group:artifact:version`.
    pub coordinate: String,
    /// Where its jar is.
    pub jar: Option<String>,
    /// Where its `-sources.jar` is, when it was fetched.
    pub sources: Option<String>,
}

/// A package of the resolved graph.
pub struct PackageModel {
    pub coordinate: Seq<char>,
    pub jar: Option<Seq<char>>,
    pub sources: Option<Seq<char>>,
}

impl DeepView for Package {
    type V = PackageModel;

    open spec fn deep_view(&self) -> PackageModel {
        PackageModel {
            coordinate: self.coordinate@,
            jar: self.jar.deep_view(),
            sources: self.sources.deep_view(),
        }
    }
}

/// The resolved graph: its packages, and the jars of the three classpaths in
/// the order the build uses them.
#[derive(Debug)]
pub struct Resolution {
    pub packages: Vec<Package>,
    pub compile: Vec<String>,
    pub runtime: Vec<String>,
    pub test: Vec<String>,
}

/// The resolved graph.
pub struct ResolutionModel {
    pub packages: Seq<PackageModel>,
    pub compile: Seq<Seq<char>>,
    pub runtime: Seq<Seq<char>>,
    pub test: Seq<Seq<char>>,
}

impl DeepView for Resolution {
    type V = ResolutionModel;

    open spec fn deep_view(&self) -> ResolutionModel {
        ResolutionModel {
            packages: self.packages.deep_view(),
            compile: self.compile.deep_view(),
            runtime: self.runtime.deep_view(),
            test: self.test.deep_view(),
        }
    }
}

/// What the model is built from.
#[derive(Debug)]
pub struct Inputs<'a> {
    pub manifest: &'a Manifest,
    /// The JDK the project builds with, if one was found.
    pub toolchain: Option<&'a Toolchain>,
    /// The resolved graph, jars located; `None` under `--no-deps`.
    pub resolution: Option<&'a Resolution>,
    /// The directory that relative paths are seen from.
    pub directory: &'a str,
}

// ---- paths -----------------------------------------------------------------

/// Where a path begins: at the root — or at the two slashes that stand for
/// another one — or in `directory`.
pub open spec fn start_of(path: Seq<char>, directory: Seq<char>) -> Seq<char> {
    if !starts(path, "/"@) {
        directory
    } else if starts(path, "//"@) && !starts(path, "///"@) {
        "//"@
    } else {
        "/"@
    }
}

/// `path` seen from `directory`, from the root down, without empty parts and
/// without `.`. A slash at its end stays, and an empty path is left as it is.
pub open spec fn absolute_path(path: Seq<char>, directory: Seq<char>) -> Seq<char> {
    let parts = names(pieces(path, '/'));
    let start = start_of(path, directory);
    let whole = if parts.len() == 0 {
        start
    } else {
        under(start, joined(parts, "/"@))
    };
    if path.len() == 0 {
        path
    } else if ends(path, "/"@) && !ends(whole, "/"@) {
        whole + "/"@
    } else {
        whole
    }
}

fn absolute(path: &str, directory: &str) -> (r: String)
    ensures
        r@ == absolute_path(path@, directory@),
{
    if path.is_empty() {
        return path.to_owned();
    }
    let parts = split(path, '/');
    let ghost all = parts.deep_view();
    let mut kept: Vec<String> = none_of();
    let mut i: usize = 0;
    assert(all.take(0) =~= seq![]);
    while i < parts.len()
        invariant
            all == parts.deep_view(),
            i <= parts@.len(),
            kept.deep_view() =~= names(all.take(i as int)),
        decreases parts@.len() - i,
    {
        assert(all.take(i + 1).drop_last() =~= all.take(i as int));
        assert(all.take(i + 1).last() == parts@[i as int]@);
        if !(parts[i].is_empty() || same(parts[i], ".")) {
            put(&mut kept, parts[i].to_owned());
        }
        i = i + 1;
    }
    assert(all.take(i as int) =~= all);
    let start = if !starts_with(path, "/") {
        directory
    } else if starts_with(path, "//") && !starts_with(path, "///") {
        "//"
    } else {
        "/"
    };
    assert(kept.deep_view().len() == kept@.len());
    let whole = if kept.len() == 0 {
        start.to_owned()
    } else {
        join_path(start, join(&kept, "/").as_str())
    };
    if ends_with(path, "/") && !ends_with(whole.as_str(), "/") {
        cat2(whole.as_str(), "/")
    } else {
        whole
    }
}

/// A path, absolute, as JSON.
pub open spec fn path_value(path: Seq<char>, directory: Seq<char>) -> JsonModel {
    JsonModel::Text(absolute_path(path, directory))
}

fn path_json(path: &str, directory: &str) -> (r: Json)
    ensures
        r.deep_view() == path_value(path@, directory@),
{
    Json::Text(absolute(path, directory))
}

/// Paths, each absolute, from the `i`th on, after those before.
pub open spec fn path_values(
    paths: Seq<Seq<char>>,
    directory: Seq<char>,
    i: int,
    out: Seq<JsonModel>,
) -> Seq<JsonModel>
    decreases paths.len() - i,
{
    if i < 0 || i >= paths.len() {
        out
    } else {
        path_values(paths, directory, i + 1, out.push(path_value(paths[i], directory)))
    }
}

fn paths_json(paths: &Vec<String>, directory: &str) -> (r: Json)
    ensures
        r.deep_view() == JsonModel::Array(path_values(paths.deep_view(), directory@, 0, seq![])),
{
    let ghost all = paths.deep_view();
    let mut out: Vec<Json> = none_of();
    let mut i: usize = 0;
    while i < paths.len()
        invariant
            all == paths.deep_view(),
            i <= paths@.len(),
            path_values(all, directory@, 0, seq![]) == path_values(
                all,
                directory@,
                i as int,
                out.deep_view(),
            ),
        decreases paths@.len() - i,
    {
        assert(all[i as int] == paths@[i as int]@);
        put(&mut out, path_json(paths[i].as_str(), directory));
        i = i + 1;
    }
    Json::array(out)
}

impl ManifestModel {
    /// Where everything that is built goes.
    pub open spec fn target(self) -> Seq<char> {
        under(self.root, self.target_dir)
    }

    /// Where the compiled classes go.
    pub open spec fn classes(self) -> Seq<char> {
        under(self.target(), "classes"@)
    }

    /// Where the compiled tests go.
    pub open spec fn test_classes(self) -> Seq<char> {
        under(self.target(), "test-classes"@)
    }

    /// The jar.
    pub open spec fn jar(self) -> Seq<char> {
        under(self.target(), self.name + "-"@ + self.version + ".jar"@)
    }
}

fn classes_dir(m: &Manifest) -> (r: String)
    ensures
        r@ == m.deep_view().classes(),
{
    join_path(m.target_path().as_str(), "classes")
}

fn test_classes_dir(m: &Manifest) -> (r: String)
    ensures
        r@ == m.deep_view().test_classes(),
{
    join_path(m.target_path().as_str(), "test-classes")
}

fn jar_path(m: &Manifest) -> (r: String)
    ensures
        r@ == m.deep_view().jar(),
{
    join_path(m.target_path().as_str(), m.jar_name().as_str())
}

// ---- generated directories -------------------------------------------------

/// What a placeholder in a task's path stands for.
pub open spec fn path_placeholder(m: ManifestModel, p: Placeholder) -> Result<Seq<char>, Fault> {
    match p {
        Placeholder::Root => Ok(m.root),
        Placeholder::Target => Ok(m.target()),
        Placeholder::ProjectName => Ok(m.name),
        Placeholder::ProjectVersion => Ok(m.version),
        Placeholder::Classes => Ok(m.classes()),
        Placeholder::TestClasses => Ok(m.test_classes()),
        Placeholder::Jar => Ok(m.jar()),
        _ => Err(Fault::Manifest("`{"@ + p.word() + "}` is not available in a path"@)),
    }
}

fn expand_placeholder(m: &Manifest, p: Placeholder) -> (r: Result<String, JrsError>)
    ensures
        outcome(r) == path_placeholder(m.deep_view(), p),
{
    match p {
        Placeholder::Root => Ok(m.root.clone()),
        Placeholder::Target => Ok(m.target_path()),
        Placeholder::ProjectName => Ok(m.name.clone()),
        Placeholder::ProjectVersion => Ok(m.version.clone()),
        Placeholder::Classes => Ok(classes_dir(m)),
        Placeholder::TestClasses => Ok(test_classes_dir(m)),
        Placeholder::Jar => Ok(jar_path(m)),
        _ => Err(JrsError::Manifest(cat3("`{", p.name(), "}` is not available in a path"))),
    }
}

/// A task's path with its placeholders, from the `i`th segment on, expanded.
pub open spec fn path_from(
    m: ManifestModel,
    segments: Seq<SegmentModel>,
    i: int,
    out: Seq<char>,
) -> Result<Seq<char>, Fault>
    decreases segments.len() - i,
{
    if i < 0 || i >= segments.len() {
        Ok(under(m.root, out))
    } else {
        match segments[i] {
            SegmentModel::Text(t) => path_from(m, segments, i + 1, out + t),
            SegmentModel::Placeholder(p) => match path_placeholder(m, p) {
                Ok(t) => path_from(m, segments, i + 1, out + t),
                Err(e) => Err(e),
            },
        }
    }
}

fn expand_path(m: &Manifest, t: &Template) -> (r: Result<String, JrsError>)
    ensures
        outcome(r) == path_from(m.deep_view(), t.deep_view().segments, 0, seq![]),
{
    let ghost all = t.segments.deep_view();
    let ghost model = m.deep_view();
    let mut out = String::new();
    let mut i: usize = 0;
    assert(out@ =~= seq![]);
    while i < t.segments.len()
        invariant
            all == t.segments.deep_view(),
            all == t.deep_view().segments,
            model == m.deep_view(),
            i <= t.segments@.len(),
            path_from(model, all, 0, seq![]) == path_from(model, all, i as int, out@),
        decreases t.segments@.len() - i,
    {
        assert(all[i as int] == t.segments@[i as int].deep_view());
        match &t.segments[i] {
            Segment::Text(s) => {
                out.append(s.as_str());
            },
            Segment::Placeholder(p) => match expand_placeholder(m, *p) {
                Ok(s) => {
                    out.append(s.as_str());
                },
                Err(e) => {
                    return Err(e);
                },
            },
        }
        i = i + 1;
    }
    Ok(join_path(m.root.as_str(), out.as_str()))
}

/// A task's paths, from the `i`th on, expanded, after those before.
pub open spec fn paths_from(
    m: ManifestModel,
    paths: Seq<TemplateModel>,
    i: int,
    out: Seq<Seq<char>>,
) -> Result<Seq<Seq<char>>, Fault>
    decreases paths.len() - i,
{
    if i < 0 || i >= paths.len() {
        Ok(out)
    } else {
        match path_from(m, paths[i].segments, 0, seq![]) {
            Ok(p) => paths_from(m, paths, i + 1, out.push(p)),
            Err(e) => Err(e),
        }
    }
}

fn expand_paths(m: &Manifest, paths: &Vec<Template>, before: Vec<String>) -> (r: Result<
    Vec<String>,
    JrsError,
>)
    ensures
        outcome(r) == paths_from(m.deep_view(), paths.deep_view(), 0, before.deep_view()),
{
    let ghost all = paths.deep_view();
    let ghost model = m.deep_view();
    let ghost start = before.deep_view();
    let mut out = before;
    let mut i: usize = 0;
    while i < paths.len()
        invariant
            all == paths.deep_view(),
            model == m.deep_view(),
            start == before.deep_view(),
            i <= paths@.len(),
            paths_from(model, all, 0, start) == paths_from(model, all, i as int, out.deep_view()),
        decreases paths@.len() - i,
    {
        assert(all[i as int] == paths@[i as int].deep_view());
        match expand_path(m, &paths[i]) {
            Ok(p) => {
                put(&mut out, p);
            },
            Err(e) => {
                return Err(e);
            },
        }
        i = i + 1;
    }
    Ok(out)
}

/// The directories that the tasks a hook reaches write, from the `i`th task
/// on, after those before: sources, or resources.
pub open spec fn generated_from(
    m: ManifestModel,
    hook: Hook,
    resources: bool,
    i: int,
    out: Seq<Seq<char>>,
) -> Result<Seq<Seq<char>>, Fault>
    decreases m.tasks.len() - i,
{
    if i < 0 || i >= m.tasks.len() {
        Ok(out)
    } else if !reached(m, hook).contains(m.tasks[i].name) {
        generated_from(m, hook, resources, i + 1, out)
    } else {
        let paths = if resources {
            m.tasks[i].resource_outputs
        } else {
            m.tasks[i].source_outputs
        };
        match paths_from(m, paths, 0, out) {
            Ok(more) => generated_from(m, hook, resources, i + 1, more),
            Err(e) => Err(e),
        }
    }
}

/// The directories that the tasks `hook` reaches write, in the order the
/// tasks are declared: sources, or resources.
pub fn generated(m: &Manifest, hook: Hook, resources: bool) -> (r: Result<Vec<String>, JrsError>)
    ensures
        outcome(r) == generated_from(m.deep_view(), hook, resources, 0, seq![]),
{
    let reach = reached_from(m, hook);
    let ghost all = m.tasks.deep_view();
    let ghost model = m.deep_view();
    let mut out: Vec<String> = none_of();
    let mut i: usize = 0;
    while i < m.tasks.len()
        invariant
            all == m.tasks.deep_view(),
            all == model.tasks,
            model == m.deep_view(),
            reach.deep_view() == reached(model, hook),
            i <= m.tasks@.len(),
            generated_from(model, hook, resources, 0, seq![]) == generated_from(
                model,
                hook,
                resources,
                i as int,
                out.deep_view(),
            ),
        decreases m.tasks@.len() - i,
    {
        assert(all[i as int] == m.tasks@[i as int].deep_view());
        if listed(&reach, m.tasks[i].name.as_str()) {
            let paths = if resources {
                &m.tasks[i].resource_outputs
            } else {
                &m.tasks[i].source_outputs
            };
            match expand_paths(m, paths, out) {
                Ok(more) => {
                    out = more;
                },
                Err(e) => {
                    return Err(e);
                },
            }
        }
        i = i + 1;
    }
    Ok(out)
}

// ---- the parts -------------------------------------------------------------

/// A number, or `null` where there is none.
pub open spec fn number_or_null(n: Option<u32>) -> JsonModel {
    match n {
        Some(n) => JsonModel::Int(n as i64),
        None => JsonModel::Null,
    }
}

fn number_json(n: Option<u32>) -> (r: Json)
    ensures
        r.deep_view() == number_or_null(n),
{
    match n {
        Some(n) => Json::Int(n as i64),
        None => Json::Null,
    }
}

fn text_json(s: &Option<String>) -> (r: Json)
    ensures
        r.deep_view() == text_or_null(s.deep_view()),
{
    match s {
        Some(s) => Json::string(s.as_str()),
        None => Json::Null,
    }
}

/// What is said of the project itself.
pub open spec fn project_value(m: ManifestModel, directory: Seq<char>) -> JsonModel {
    JsonModel::Object(
        seq![
            ("name"@, JsonModel::Text(m.name)),
            ("version"@, JsonModel::Text(m.version)),
            ("main-class"@, text_or_null(m.main_class)),
            ("jrs-version"@, text_or_null(m.jrs_version)),
            ("root"@, path_value(m.root, directory)),
            ("manifest"@, path_value(m.path, directory)),
            ("lockfile"@, path_value(under(m.root, LOCK_FILE@), directory)),
        ],
    )
}

fn project_json(m: &Manifest, directory: &str) -> (r: Json)
    ensures
        r.deep_view() == project_value(m.deep_view(), directory@),
{
    let mut o: Vec<(String, Json)> = none_of();
    field(&mut o, "name", Json::string(m.name.as_str()));
    field(&mut o, "version", Json::string(m.version.as_str()));
    field(&mut o, "main-class", text_json(&m.main_class));
    field(&mut o, "jrs-version", text_json(&m.jrs_version));
    field(&mut o, "root", path_json(m.root.as_str(), directory));
    field(&mut o, "manifest", path_json(m.path.as_str(), directory));
    field(&mut o, "lockfile", path_json(m.lock_path().as_str(), directory));
    let r = Json::object(o);
    assert(r.deep_view()->Object_0 =~= project_value(m.deep_view(), directory@)->Object_0);
    r
}

/// What is said of the JDK.
pub open spec fn jdk_value(t: ToolchainModel, directory: Seq<char>) -> JsonModel {
    JsonModel::Object(
        seq![
            (
                "home"@,
                match t.home {
                    Some(home) => path_value(home, directory),
                    None => JsonModel::Null,
                },
            ),
            ("version"@, JsonModel::Int(t.version as i64)),
            ("javac"@, path_value(t.javac, directory)),
            ("java"@, path_value(t.java, directory)),
        ],
    )
}

fn jdk_json(t: &Toolchain, directory: &str) -> (r: Json)
    ensures
        r.deep_view() == jdk_value(t.deep_view(), directory@),
{
    let mut o: Vec<(String, Json)> = none_of();
    let home = match &t.home {
        Some(home) => path_json(home.as_str(), directory),
        None => Json::Null,
    };
    field(&mut o, "home", home);
    field(&mut o, "version", Json::Int(t.version as i64));
    field(&mut o, "javac", path_json(t.javac.as_str(), directory));
    field(&mut o, "java", path_json(t.java.as_str(), directory));
    let r = Json::object(o);
    assert(r.deep_view()->Object_0 =~= jdk_value(t.deep_view(), directory@)->Object_0);
    r
}

/// What `javac --release` gets: `java.source`, or the JDK's own release when
/// the manifest leaves it out — nothing with neither.
pub open spec fn release(source: Option<u32>, toolchain: Option<ToolchainModel>) -> Option<u32> {
    match (source, toolchain) {
        (Some(n), _) => Some(n),
        (None, Some(t)) => Some(t.version),
        (None, None) => None,
    }
}

/// Texts, from the `i`th on, after those before.
pub open spec fn text_values(texts: Seq<Seq<char>>, i: int, out: Seq<JsonModel>) -> Seq<JsonModel>
    decreases texts.len() - i,
{
    if i < 0 || i >= texts.len() {
        out
    } else {
        text_values(texts, i + 1, out.push(JsonModel::Text(texts[i])))
    }
}

fn texts_json(texts: &Vec<String>) -> (r: Json)
    ensures
        r.deep_view() == JsonModel::Array(text_values(texts.deep_view(), 0, seq![])),
{
    let ghost all = texts.deep_view();
    let mut out: Vec<Json> = none_of();
    let mut i: usize = 0;
    while i < texts.len()
        invariant
            all == texts.deep_view(),
            i <= texts@.len(),
            text_values(all, 0, seq![]) == text_values(all, i as int, out.deep_view()),
        decreases texts@.len() - i,
    {
        assert(all[i as int] == texts@[i as int]@);
        put(&mut out, Json::string(texts[i].as_str()));
        i = i + 1;
    }
    Json::array(out)
}

/// What is said of the Java compiler.
pub open spec fn java_value(m: ManifestModel, toolchain: Option<ToolchainModel>) -> JsonModel {
    JsonModel::Object(
        seq![
            ("release"@, number_or_null(release(m.java.source, toolchain))),
            ("target"@, number_or_null(m.java.target)),
            ("encoding"@, JsonModel::Text(m.java.encoding)),
            ("javac-args"@, JsonModel::Array(text_values(m.java.javac_args, 0, seq![]))),
        ],
    )
}

fn java_json(m: &Manifest, toolchain: Option<&Toolchain>) -> (r: Json)
    ensures
        r.deep_view() == java_value(m.deep_view(), toolchain.deep_view()),
{
    let release = match (m.java.source, toolchain) {
        (Some(n), _) => Some(n),
        (None, Some(t)) => Some(t.version),
        (None, None) => None,
    };
    let mut o: Vec<(String, Json)> = none_of();
    field(&mut o, "release", number_json(release));
    field(&mut o, "target", number_json(m.java.target));
    field(&mut o, "encoding", Json::string(m.java.encoding.as_str()));
    field(&mut o, "javac-args", texts_json(&m.java.javac_args));
    let r = Json::object(o);
    assert(r.deep_view()->Object_0 =~= java_value(m.deep_view(), toolchain.deep_view())->Object_0);
    r
}

/// A language, its version and its compiler.
pub open spec fn language_value(
    language: Language,
    version: Option<Seq<char>>,
    compiler: Option<Seq<char>>,
) -> JsonModel {
    JsonModel::Object(
        seq![
            ("name"@, JsonModel::Text(language.word())),
            ("version"@, text_or_null(version)),
            ("compiler"@, text_or_null(compiler)),
        ],
    )
}

fn language_json(language: Language, version: Option<&str>, compiler: Option<&str>) -> (r: Json)
    ensures
        r.deep_view() == language_value(language, version.deep_view(), compiler.deep_view()),
{
    let mut o: Vec<(String, Json)> = none_of();
    field(&mut o, "name", Json::string(language.key()));
    field(&mut o, "version", Json::text_or_null(version));
    field(&mut o, "compiler", Json::text_or_null(compiler));
    let r = Json::object(o);
    assert(r.deep_view()->Object_0 =~= language_value(
        language,
        version.deep_view(),
        compiler.deep_view(),
    )->Object_0);
    r
}

/// The languages that tables turn on, from the `i`th on, after those before.
pub open spec fn languages_from(
    list: Seq<LanguageModel>,
    i: int,
    out: Seq<JsonModel>,
) -> Seq<JsonModel>
    decreases list.len() - i,
{
    if i < 0 || i >= list.len() {
        out
    } else {
        let config = list[i];
        languages_from(
            list,
            i + 1,
            out.push(
                language_value(
                    config.language,
                    Some(config.version),
                    config.language.compiler_at(config.version),
                ),
            ),
        )
    }
}

/// Java, always on, then each language the manifest turns on, with the
/// version and compiler jrs pins for it.
pub open spec fn languages_value(m: ManifestModel) -> JsonModel {
    JsonModel::Array(
        languages_from(m.languages, 0, seq![language_value(Language::Java, None, None)]),
    )
}

fn languages_json(m: &Manifest) -> (r: Json)
    ensures
        r.deep_view() == languages_value(m.deep_view()),
{
    let mut out: Vec<Json> = one_of(language_json(Language::Java, None, None));
    let ghost start = out.deep_view();
    let ghost all = m.languages.deep_view();
    let mut i: usize = 0;
    while i < m.languages.len()
        invariant
            all == m.languages.deep_view(),
            i <= m.languages@.len(),
            languages_from(all, 0, start) == languages_from(all, i as int, out.deep_view()),
        decreases m.languages@.len() - i,
    {
        let config = &m.languages[i];
        assert(all[i as int] == config.deep_view());
        let compiler = config.language.compiler(config.version.as_str());
        let name = match &compiler {
            Some(c) => Some(c.as_str()),
            None => None,
        };
        put(&mut out, language_json(config.language, Some(config.version.as_str()), name));
        i = i + 1;
    }
    assert(start =~= seq![language_value(Language::Java, None, None)]);
    Json::array(out)
}

/// One of the roots, from the `i`th on, is `dir`, whatever slashes and dots
/// they are written with.
pub open spec fn has_root(roots: Seq<(Language, Seq<char>)>, dir: Seq<char>, i: int) -> bool
    decreases roots.len() - i,
{
    if i < 0 || i >= roots.len() {
        false
    } else {
        same_dir(roots[i].1, dir) || has_root(roots, dir, i + 1)
    }
}

fn find_root(roots: &Vec<(Language, String)>, dir: &str) -> (r: bool)
    ensures
        r == has_root(roots.deep_view(), dir@, 0),
{
    let ghost all = roots.deep_view();
    let mut i: usize = 0;
    while i < roots.len()
        invariant
            all == roots.deep_view(),
            i <= roots@.len(),
            has_root(all, dir@, 0) == has_root(all, dir@, i as int),
        decreases roots@.len() - i,
    {
        assert(all[i as int] == roots@[i as int].deep_view());
        if is_same_dir(roots[i].1.as_str(), dir) {
            return true;
        }
        i = i + 1;
    }
    false
}

/// The roots, with those of the languages from the `i`th on that are not
/// among them.
pub open spec fn roots_from(
    m: ManifestModel,
    test: bool,
    i: int,
    out: Seq<(Language, Seq<char>)>,
) -> Seq<(Language, Seq<char>)>
    decreases m.languages.len() - i,
{
    if i < 0 || i >= m.languages.len() {
        out
    } else {
        let config = m.languages[i];
        let dir = under(
            m.root,
            if test {
                config.test_dir
            } else {
                config.source_dir
            },
        );
        if has_root(out, dir, 0) {
            roots_from(m, test, i + 1, out)
        } else {
            roots_from(m, test, i + 1, out.push((config.language, dir)))
        }
    }
}

/// A unit's source roots with the language each one is for.
pub open spec fn roots(m: ManifestModel, test: bool) -> Seq<(Language, Seq<char>)> {
    let java = under(
        m.root,
        if test {
            m.test_dir
        } else {
            m.source_dir
        },
    );
    roots_from(m, test, 0, seq![(Language::Java, java)])
}

/// A unit's source roots with the language each one is for: the project's
/// Java root, then each turned-on language's.
fn source_roots(m: &Manifest, test: bool) -> (r: Vec<(Language, String)>)
    ensures
        r.deep_view() == roots(m.deep_view(), test),
{
    let java = if test {
        m.test_path()
    } else {
        m.source_path()
    };
    let mut out: Vec<(Language, String)> = one_of((Language::Java, java));
    let ghost start = out.deep_view();
    let ghost model = m.deep_view();
    let ghost all = m.languages.deep_view();
    let mut i: usize = 0;
    while i < m.languages.len()
        invariant
            model == m.deep_view(),
            all == m.languages.deep_view(),
            i <= m.languages@.len(),
            roots_from(model, test, 0, start) == roots_from(model, test, i as int, out.deep_view()),
        decreases m.languages@.len() - i,
    {
        let config = &m.languages[i];
        assert(all[i as int] == config.deep_view());
        let dir = join_path(
            m.root.as_str(),
            if test {
                config.test_dir.as_str()
            } else {
                config.source_dir.as_str()
            },
        );
        if !find_root(&out, dir.as_str()) {
            put(&mut out, (config.language, dir));
        }
        i = i + 1;
    }
    assert(start =~= seq![(Language::Java, java@)]);
    out
}

/// A source root and its language.
pub open spec fn root_value(root: (Language, Seq<char>), directory: Seq<char>) -> JsonModel {
    JsonModel::Object(
        seq![
            ("language"@, JsonModel::Text(root.0.word())),
            ("dir"@, path_value(root.1, directory)),
        ],
    )
}

/// Source roots, from the `i`th on, after those before.
pub open spec fn root_values(
    list: Seq<(Language, Seq<char>)>,
    directory: Seq<char>,
    i: int,
    out: Seq<JsonModel>,
) -> Seq<JsonModel>
    decreases list.len() - i,
{
    if i < 0 || i >= list.len() {
        out
    } else {
        root_values(list, directory, i + 1, out.push(root_value(list[i], directory)))
    }
}

fn root_json(language: Language, dir: &str, directory: &str) -> (r: Json)
    ensures
        r.deep_view() == root_value((language, dir@), directory@),
{
    let mut o: Vec<(String, Json)> = none_of();
    field(&mut o, "language", Json::string(language.key()));
    field(&mut o, "dir", path_json(dir, directory));
    let r = Json::object(o);
    assert(r.deep_view()->Object_0 =~= root_value((language, dir@), directory@)->Object_0);
    r
}

fn roots_json(list: &Vec<(Language, String)>, directory: &str) -> (r: Json)
    ensures
        r.deep_view() == JsonModel::Array(root_values(list.deep_view(), directory@, 0, seq![])),
{
    let ghost all = list.deep_view();
    let mut out: Vec<Json> = none_of();
    let mut i: usize = 0;
    while i < list.len()
        invariant
            all == list.deep_view(),
            i <= list@.len(),
            root_values(all, directory@, 0, seq![]) == root_values(
                all,
                directory@,
                i as int,
                out.deep_view(),
            ),
        decreases list@.len() - i,
    {
        assert(all[i as int] == list@[i as int].deep_view());
        put(&mut out, root_json(list[i].0, list[i].1.as_str(), directory));
        i = i + 1;
    }
    Json::array(out)
}

/// What a unit — the program, or its tests — is compiled from and to.
pub open spec fn unit_value(
    sources: Seq<(Language, Seq<char>)>,
    generated_sources: Seq<Seq<char>>,
    resources: Seq<char>,
    generated_resources: Seq<Seq<char>>,
    output: Seq<char>,
    directory: Seq<char>,
) -> JsonModel {
    JsonModel::Object(
        seq![
            ("sources"@, JsonModel::Array(root_values(sources, directory, 0, seq![]))),
            (
                "generated-sources"@,
                JsonModel::Array(path_values(generated_sources, directory, 0, seq![])),
            ),
            ("resources"@, JsonModel::Array(seq![path_value(resources, directory)])),
            (
                "generated-resources"@,
                JsonModel::Array(path_values(generated_resources, directory, 0, seq![])),
            ),
            ("output"@, path_value(output, directory)),
        ],
    )
}

fn unit_json(
    sources: &Vec<(Language, String)>,
    generated_sources: &Vec<String>,
    resources: &str,
    generated_resources: &Vec<String>,
    output: &str,
    directory: &str,
) -> (r: Json)
    ensures
        r.deep_view() == unit_value(
            sources.deep_view(),
            generated_sources.deep_view(),
            resources@,
            generated_resources.deep_view(),
            output@,
            directory@,
        ),
{
    let mut o: Vec<(String, Json)> = none_of();
    field(&mut o, "sources", roots_json(sources, directory));
    field(&mut o, "generated-sources", paths_json(generated_sources, directory));
    let own = one_of(path_json(resources, directory));
    assert(own.deep_view() =~= seq![path_value(resources@, directory@)]);
    field(&mut o, "resources", Json::array(own));
    field(&mut o, "generated-resources", paths_json(generated_resources, directory));
    field(&mut o, "output", path_json(output, directory));
    let r = Json::object(o);
    assert(r.deep_view()->Object_0 =~= unit_value(
        sources.deep_view(),
        generated_sources.deep_view(),
        resources@,
        generated_resources.deep_view(),
        output@,
        directory@,
    )->Object_0);
    r
}

// ---- classpaths ------------------------------------------------------------

/// The first package, from the `i`th on, whose jar is `jar`.
pub open spec fn package_of(packages: Seq<PackageModel>, jar: Seq<char>, i: int) -> Option<
    PackageModel,
>
    decreases packages.len() - i,
{
    if i < 0 || i >= packages.len() {
        None
    } else if packages[i].jar == Some(jar) {
        Some(packages[i])
    } else {
        package_of(packages, jar, i + 1)
    }
}

fn find_package<'a>(packages: &'a Vec<Package>, jar: &str) -> (r: Option<&'a Package>)
    ensures
        r.deep_view() == package_of(packages.deep_view(), jar@, 0),
{
    let ghost all = packages.deep_view();
    let mut i: usize = 0;
    while i < packages.len()
        invariant
            all == packages.deep_view(),
            i <= packages@.len(),
            package_of(all, jar@, 0) == package_of(all, jar@, i as int),
        decreases packages@.len() - i,
    {
        assert(all[i as int] == packages@[i as int].deep_view());
        if let Some(own) = &packages[i].jar {
            if same(own.as_str(), jar) {
                return Some(&packages[i]);
            }
        }
        i = i + 1;
    }
    None
}

/// A jar of a classpath: its coordinate, where it is, and its `-sources.jar`.
pub open spec fn entry_value(
    packages: Seq<PackageModel>,
    jar: Seq<char>,
    directory: Seq<char>,
) -> JsonModel {
    let package = package_of(packages, jar, 0);
    JsonModel::Object(
        seq![
            (
                "coordinate"@,
                match package {
                    Some(p) => JsonModel::Text(p.coordinate),
                    None => JsonModel::Null,
                },
            ),
            ("jar"@, path_value(jar, directory)),
            (
                "sources"@,
                match package {
                    Some(p) => match p.sources {
                        Some(s) => path_value(s, directory),
                        None => JsonModel::Null,
                    },
                    None => JsonModel::Null,
                },
            ),
        ],
    )
}

fn entry_json(packages: &Vec<Package>, jar: &str, directory: &str) -> (r: Json)
    ensures
        r.deep_view() == entry_value(packages.deep_view(), jar@, directory@),
{
    let package = find_package(packages, jar);
    let mut coordinate = Json::Null;
    let mut sources = Json::Null;
    if let Some(p) = package {
        coordinate = Json::string(p.coordinate.as_str());
        if let Some(s) = &p.sources {
            sources = path_json(s.as_str(), directory);
        }
    }
    let mut o: Vec<(String, Json)> = none_of();
    field(&mut o, "coordinate", coordinate);
    field(&mut o, "jar", path_json(jar, directory));
    field(&mut o, "sources", sources);
    let r = Json::object(o);
    assert(r.deep_view()->Object_0 =~= entry_value(
        packages.deep_view(),
        jar@,
        directory@,
    )->Object_0);
    r
}

/// The jars of a classpath, from the `i`th on, after those before.
pub open spec fn entries_from(
    packages: Seq<PackageModel>,
    jars: Seq<Seq<char>>,
    directory: Seq<char>,
    i: int,
    out: Seq<JsonModel>,
) -> Seq<JsonModel>
    decreases jars.len() - i,
{
    if i < 0 || i >= jars.len() {
        out
    } else {
        entries_from(
            packages,
            jars,
            directory,
            i + 1,
            out.push(entry_value(packages, jars[i], directory)),
        )
    }
}

/// One entry per jar: its coordinate, where it is, and its `-sources.jar`
/// when it was fetched (`null` otherwise).
fn entries(packages: &Vec<Package>, jars: &Vec<String>, directory: &str) -> (r: Json)
    ensures
        r.deep_view() == JsonModel::Array(
            entries_from(packages.deep_view(), jars.deep_view(), directory@, 0, seq![]),
        ),
{
    let ghost known = packages.deep_view();
    let ghost all = jars.deep_view();
    let mut out: Vec<Json> = none_of();
    let mut i: usize = 0;
    while i < jars.len()
        invariant
            known == packages.deep_view(),
            all == jars.deep_view(),
            i <= jars@.len(),
            entries_from(known, all, directory@, 0, seq![]) == entries_from(
                known,
                all,
                directory@,
                i as int,
                out.deep_view(),
            ),
        decreases jars@.len() - i,
    {
        assert(all[i as int] == jars@[i as int]@);
        put(&mut out, entry_json(packages, jars[i].as_str(), directory));
        i = i + 1;
    }
    Json::array(out)
}

/// The three classpaths, each with exactly the jars `javac`, `java` and the
/// test JVM get, in their order.
pub open spec fn classpaths_value(r: ResolutionModel, directory: Seq<char>) -> JsonModel {
    JsonModel::Object(
        seq![
            (
                "compile"@,
                JsonModel::Array(entries_from(r.packages, r.compile, directory, 0, seq![])),
            ),
            (
                "runtime"@,
                JsonModel::Array(entries_from(r.packages, r.runtime, directory, 0, seq![])),
            ),
            ("test"@, JsonModel::Array(entries_from(r.packages, r.test, directory, 0, seq![]))),
        ],
    )
}

/// The three classpaths. Class directories are not in them: they are
/// `main.output` and `test.output`, and go first.
fn classpaths_json(resolution: &Resolution, directory: &str) -> (r: Json)
    ensures
        r.deep_view() == classpaths_value(resolution.deep_view(), directory@),
{
    let mut o: Vec<(String, Json)> = none_of();
    field(&mut o, "compile", entries(&resolution.packages, &resolution.compile, directory));
    field(&mut o, "runtime", entries(&resolution.packages, &resolution.runtime, directory));
    field(&mut o, "test", entries(&resolution.packages, &resolution.test, directory));
    let r = Json::object(o);
    assert(r.deep_view()->Object_0 =~= classpaths_value(
        resolution.deep_view(),
        directory@,
    )->Object_0);
    r
}

// ---- tasks -----------------------------------------------------------------

/// The names of the hooks, from the `i`th on, that run `task`, after those
/// before.
pub open spec fn hooks_of(hooks: HookLists, task: Seq<char>, i: int, out: Seq<JsonModel>) -> Seq<
    JsonModel,
>
    decreases hooks.len() - i,
{
    if i < 0 || i >= hooks.len() {
        out
    } else if hooks[i].1.contains(task) {
        hooks_of(hooks, task, i + 1, out.push(JsonModel::Text(hooks[i].0.word())))
    } else {
        hooks_of(hooks, task, i + 1, out)
    }
}

fn find_hooks(hooks: &Hooks, task: &str) -> (r: Json)
    ensures
        r.deep_view() == JsonModel::Array(hooks_of(hooks.deep_view(), task@, 0, seq![])),
{
    let lists = hooks.iter();
    let ghost all = lists.deep_view();
    let mut out: Vec<Json> = none_of();
    let mut i: usize = 0;
    while i < lists.len()
        invariant
            all == lists.deep_view(),
            i <= lists@.len(),
            hooks_of(all, task@, 0, seq![]) == hooks_of(all, task@, i as int, out.deep_view()),
        decreases lists@.len() - i,
    {
        assert(all[i as int] == lists@[i as int].deep_view());
        if listed(&lists[i].1, task) {
            put(&mut out, Json::string(lists[i].0.name()));
        }
        i = i + 1;
    }
    Json::array(out)
}

/// A task: its name, its description, and the hooks that run it.
pub open spec fn task_value(hooks: HookLists, task: TaskModel) -> JsonModel {
    JsonModel::Object(
        seq![
            ("name"@, JsonModel::Text(task.name)),
            ("description"@, text_or_null(task.description)),
            ("hooks"@, JsonModel::Array(hooks_of(hooks, task.name, 0, seq![]))),
        ],
    )
}

fn task_json(hooks: &Hooks, task: &TaskDef) -> (r: Json)
    ensures
        r.deep_view() == task_value(hooks.deep_view(), task.deep_view()),
{
    let mut o: Vec<(String, Json)> = none_of();
    field(&mut o, "name", Json::string(task.name.as_str()));
    field(&mut o, "description", text_json(&task.description));
    field(&mut o, "hooks", find_hooks(hooks, task.name.as_str()));
    let r = Json::object(o);
    assert(r.deep_view()->Object_0 =~= task_value(hooks.deep_view(), task.deep_view())->Object_0);
    r
}

/// The tasks, from the `i`th on, after those before.
pub open spec fn tasks_from(
    hooks: HookLists,
    tasks: Seq<TaskModel>,
    i: int,
    out: Seq<JsonModel>,
) -> Seq<JsonModel>
    decreases tasks.len() - i,
{
    if i < 0 || i >= tasks.len() {
        out
    } else {
        tasks_from(hooks, tasks, i + 1, out.push(task_value(hooks, tasks[i])))
    }
}

/// The tasks in declaration order: name, description, and the hooks that run
/// them.
fn tasks_json(m: &Manifest) -> (r: Json)
    ensures
        r.deep_view() == JsonModel::Array(
            tasks_from(m.deep_view().hooks, m.deep_view().tasks, 0, seq![]),
        ),
{
    let ghost hooks = m.hooks.deep_view();
    let ghost all = m.tasks.deep_view();
    let mut out: Vec<Json> = none_of();
    let mut i: usize = 0;
    while i < m.tasks.len()
        invariant
            hooks == m.hooks.deep_view(),
            all == m.tasks.deep_view(),
            i <= m.tasks@.len(),
            tasks_from(hooks, all, 0, seq![]) == tasks_from(hooks, all, i as int, out.deep_view()),
        decreases m.tasks@.len() - i,
    {
        assert(all[i as int] == m.tasks@[i as int].deep_view());
        put(&mut out, task_json(&m.hooks, &m.tasks[i]));
        i = i + 1;
    }
    Json::array(out)
}

// ---- the whole -------------------------------------------------------------

/// The document that its parts make.
pub open spec fn assembled(
    project: JsonModel,
    jdk: JsonModel,
    java: JsonModel,
    languages: JsonModel,
    main: JsonModel,
    test: JsonModel,
    target: JsonModel,
    jar: JsonModel,
    classpaths: JsonModel,
    tasks: JsonModel,
) -> JsonModel {
    JsonModel::Object(
        seq![
            ("version"@, JsonModel::Int(FORMAT_VERSION)),
            ("jrs"@, JsonModel::Text(VERSION@)),
            ("project"@, project),
            ("jdk"@, jdk),
            ("java"@, java),
            ("languages"@, languages),
            ("main"@, main),
            ("test"@, test),
            ("target-dir"@, target),
            ("jar"@, jar),
            ("classpaths"@, classpaths),
            ("tasks"@, tasks),
        ],
    )
}

fn assemble(
    project: Json,
    jdk: Json,
    java: Json,
    languages: Json,
    main: Json,
    test: Json,
    target: Json,
    jar: Json,
    classpaths: Json,
    tasks: Json,
) -> (r: Json)
    ensures
        r.deep_view() == assembled(
            project.deep_view(),
            jdk.deep_view(),
            java.deep_view(),
            languages.deep_view(),
            main.deep_view(),
            test.deep_view(),
            target.deep_view(),
            jar.deep_view(),
            classpaths.deep_view(),
            tasks.deep_view(),
        ),
{
    let ghost want = assembled(
        project.deep_view(),
        jdk.deep_view(),
        java.deep_view(),
        languages.deep_view(),
        main.deep_view(),
        test.deep_view(),
        target.deep_view(),
        jar.deep_view(),
        classpaths.deep_view(),
        tasks.deep_view(),
    );
    let mut o: Vec<(String, Json)> = none_of();
    field(&mut o, "version", Json::Int(FORMAT_VERSION));
    field(&mut o, "jrs", Json::string(VERSION));
    field(&mut o, "project", project);
    field(&mut o, "jdk", jdk);
    field(&mut o, "java", java);
    field(&mut o, "languages", languages);
    field(&mut o, "main", main);
    field(&mut o, "test", test);
    field(&mut o, "target-dir", target);
    field(&mut o, "jar", jar);
    field(&mut o, "classpaths", classpaths);
    field(&mut o, "tasks", tasks);
    assert(o.deep_view() =~= want->Object_0);
    Json::object(o)
}

/// The document, of what the tasks generate for the program and its tests.
pub open spec fn document(
    m: ManifestModel,
    toolchain: Option<ToolchainModel>,
    resolution: Option<ResolutionModel>,
    directory: Seq<char>,
    main: (Seq<Seq<char>>, Seq<Seq<char>>),
    test: (Seq<Seq<char>>, Seq<Seq<char>>),
) -> JsonModel {
    assembled(
        project_value(m, directory),
        match toolchain {
            Some(t) => jdk_value(t, directory),
            None => JsonModel::Null,
        },
        java_value(m, toolchain),
        languages_value(m),
        unit_value(
            roots(m, false),
            main.0,
            under(m.root, m.resource_dir),
            main.1,
            m.classes(),
            directory,
        ),
        unit_value(
            roots(m, true),
            test.0,
            under(m.root, m.test_resource_dir),
            test.1,
            m.test_classes(),
            directory,
        ),
        path_value(m.target(), directory),
        path_value(m.jar(), directory),
        match resolution {
            Some(r) => classpaths_value(r, directory),
            None => JsonModel::Null,
        },
        JsonModel::Array(tasks_from(m.hooks, m.tasks, 0, seq![])),
    )
}

/// The sources and resources that the tasks of a hook generate.
pub open spec fn unit_generated(m: ManifestModel, hook: Hook) -> Result<
    (Seq<Seq<char>>, Seq<Seq<char>>),
    Fault,
> {
    match generated_from(m, hook, false, 0, seq![]) {
        Err(e) => Err(e),
        Ok(sources) => match generated_from(m, hook, true, 0, seq![]) {
            Err(e) => Err(e),
            Ok(resources) => Ok((sources, resources)),
        },
    }
}

fn generate(m: &Manifest, hook: Hook) -> (r: Result<(Vec<String>, Vec<String>), JrsError>)
    ensures
        outcome(r) == unit_generated(m.deep_view(), hook),
{
    match generated(m, hook, false) {
        Err(e) => Err(e),
        Ok(sources) => match generated(m, hook, true) {
            Err(e) => Err(e),
            Ok(resources) => Ok((sources, resources)),
        },
    }
}

/// The whole document.
pub fn metadata(inputs: &Inputs) -> (r: Result<Json, JrsError>)
    ensures
        outcome(r) == (match unit_generated(inputs.manifest.deep_view(), Hook::PreCompile) {
            Err(e) => Err(e),
            Ok(main) => match unit_generated(inputs.manifest.deep_view(), Hook::PreTest) {
                Err(e) => Err(e),
                Ok(test) => Ok(
                    document(
                        inputs.manifest.deep_view(),
                        inputs.toolchain.deep_view(),
                        inputs.resolution.deep_view(),
                        inputs.directory@,
                        main,
                        test,
                    ),
                ),
            },
        }),
        outcome(r) matches Ok(d) ==> {
            let m = inputs.manifest.deep_view();
            &&& unit_generated(m, Hook::PreCompile) is Ok
            &&& unit_generated(m, Hook::PreTest) is Ok
            &&& says_document(
                d,
                m,
                inputs.toolchain.deep_view(),
                inputs.resolution.deep_view(),
                inputs.directory@,
                unit_generated(m, Hook::PreCompile)->Ok_0,
                unit_generated(m, Hook::PreTest)->Ok_0,
            )
        },
{
    let m = inputs.manifest;
    let dir = inputs.directory;
    let main = match generate(m, Hook::PreCompile) {
        Ok(main) => main,
        Err(e) => {
            return Err(e);
        },
    };
    let test = match generate(m, Hook::PreTest) {
        Ok(test) => test,
        Err(e) => {
            return Err(e);
        },
    };
    let jdk = match inputs.toolchain {
        Some(t) => jdk_json(t, dir),
        None => Json::Null,
    };
    let classpaths = match inputs.resolution {
        Some(r) => classpaths_json(r, dir),
        None => Json::Null,
    };
    let main_unit = unit_json(
        &source_roots(m, false),
        &main.0,
        m.resource_path().as_str(),
        &main.1,
        classes_dir(m).as_str(),
        dir,
    );
    let test_unit = unit_json(
        &source_roots(m, true),
        &test.0,
        m.test_resource_path().as_str(),
        &test.1,
        test_classes_dir(m).as_str(),
        dir,
    );
    let r = assemble(
        project_json(m, dir),
        jdk,
        java_json(m, inputs.toolchain),
        languages_json(m),
        main_unit,
        test_unit,
        path_json(m.target_path().as_str(), dir),
        path_json(jar_path(m).as_str(), dir),
        classpaths,
        tasks_json(m),
    );
    proof {
        the_document_says_what_it_is_made_of(
            m.deep_view(),
            inputs.toolchain.deep_view(),
            inputs.resolution.deep_view(),
            dir@,
            unit_generated(m.deep_view(), Hook::PreCompile)->Ok_0,
            unit_generated(m.deep_view(), Hook::PreTest)->Ok_0,
        );
    }
    Ok(r)
}

// ---- what holds of it ------------------------------------------------------

proof fn lemma_no_classpath(ps: Seq<Placeholder>, i: int, j: int)
    requires
        0 <= i <= j < ps.len(),
        classpath_from(ps, i) is None,
    ensures
        !ps[j].on_classpath(),
    decreases j - i,
{
    if i < j {
        lemma_no_classpath(ps, i + 1, j);
    }
}

proof fn lemma_no_fault(list: Seq<(Seq<char>, TemplateModel)>, section: Seq<char>, i: int, j: int)
    requires
        0 <= i <= j < list.len(),
        path_fault_from(list, section, i) is None,
    ensures
        classpath_from(list[j].1.placeholders(), 0) is None,
    decreases j - i,
{
    if i < j {
        lemma_no_fault(list, section, i + 1, j);
    }
}

/// A path without classpaths.
spec fn plain_path(t: TemplateModel) -> bool {
    classpath_from(t.placeholders(), 0) is None
}

proof fn lemma_path_expands(m: ManifestModel, t: TemplateModel, i: int, out: Seq<char>)
    requires
        plain_path(t),
        0 <= i <= t.segments.len(),
    ensures
        path_from(m, t.segments, i, out) is Ok,
    decreases t.segments.len() - i,
{
    if i < t.segments.len() {
        match t.segments[i] {
            SegmentModel::Text(s) => lemma_path_expands(m, t, i + 1, out + s),
            SegmentModel::Placeholder(p) => {
                lemma_placeholder_listed(t.segments, i);
                let j = choose|j: int|
                    0 <= j < t.placeholders().len() && t.placeholders()[j] == p;
                lemma_no_classpath(t.placeholders(), 0, j);
                lemma_path_expands(m, t, i + 1, out + path_placeholder(m, p)->Ok_0);
            },
        }
    }
}

proof fn lemma_paths_expand(
    m: ManifestModel,
    paths: Seq<TemplateModel>,
    i: int,
    out: Seq<Seq<char>>,
)
    requires
        forall|j: int| 0 <= j < paths.len() ==> plain_path(#[trigger] paths[j]),
        0 <= i <= paths.len(),
    ensures
        paths_from(m, paths, i, out) is Ok,
    decreases paths.len() - i,
{
    if i < paths.len() {
        lemma_path_expands(m, paths[i], 0, seq![]);
        lemma_paths_expand(
            m,
            paths,
            i + 1,
            out.push(path_from(m, paths[i].segments, 0, seq![])->Ok_0),
        );
    }
}

/// The directories a task generates are plain paths.
spec fn plain_outputs(task: TaskModel) -> bool {
    &&& forall|j: int|
        0 <= j < task.source_outputs.len() ==> plain_path(#[trigger] task.source_outputs[j])
    &&& forall|j: int|
        0 <= j < task.resource_outputs.len() ==> plain_path(#[trigger] task.resource_outputs[j])
}

proof fn lemma_plain_outputs(task: TaskModel, section: Seq<char>)
    requires
        path_fault_from(path_keys(task), section, 0) is None,
    ensures
        plain_outputs(task),
{
    let keys = path_keys(task);
    let a = (task.inputs.len() + task.outputs.len()) as int;
    assert forall|j: int| 0 <= j < task.source_outputs.len() implies plain_path(
        #[trigger] task.source_outputs[j],
    ) by {
        assert(keys[a + j] == ("source-outputs"@, task.source_outputs[j]));
        lemma_no_fault(keys, section, 0, a + j);
    }
    let b = a + task.source_outputs.len();
    assert forall|j: int| 0 <= j < task.resource_outputs.len() implies plain_path(
        #[trigger] task.resource_outputs[j],
    ) by {
        assert(keys[b + j] == ("resource-outputs"@, task.resource_outputs[j]));
        lemma_no_fault(keys, section, 0, b + j);
    }
}

proof fn lemma_parsed_outputs(
    t: Entries,
    i: int,
    out: Seq<TaskModel>,
    warnings: Seq<Seq<char>>,
)
    requires
        0 <= i <= t.len(),
        forall|j: int| 0 <= j < out.len() ==> plain_outputs(#[trigger] out[j]),
    ensures
        crate::parse_tasks::tasks_from(t, i, out, warnings) matches Ok((tasks, _)) ==> forall|j: int|
            0 <= j < tasks.len() ==> plain_outputs(#[trigger] tasks[j]),
    decreases t.len() - i,
{
    if i < t.len() && t[i].1.table() is Some {
        let inner = t[i].1.table()->0;
        if let Ok(task) = task_table(t[i].0, inner) {
            lemma_plain_outputs(task, "tasks."@ + t[i].0);
            lemma_parsed_outputs(
                t,
                i + 1,
                out.push(task),
                warnings + key_warnings(inner, task_keys(), "tasks."@ + t[i].0 + "."@),
            );
        }
    }
}

proof fn lemma_generated(
    m: ManifestModel,
    hook: Hook,
    resources: bool,
    i: int,
    out: Seq<Seq<char>>,
)
    requires
        forall|j: int| 0 <= j < m.tasks.len() ==> plain_outputs(#[trigger] m.tasks[j]),
        0 <= i <= m.tasks.len(),
    ensures
        generated_from(m, hook, resources, i, out) is Ok,
    decreases m.tasks.len() - i,
{
    if i < m.tasks.len() {
        if reached(m, hook).contains(m.tasks[i].name) {
            let paths = if resources {
                m.tasks[i].resource_outputs
            } else {
                m.tasks[i].source_outputs
            };
            lemma_paths_expand(m, paths, 0, out);
            lemma_generated(m, hook, resources, i + 1, paths_from(m, paths, 0, out)->Ok_0);
        } else {
            lemma_generated(m, hook, resources, i + 1, out);
        }
    }
}

/// There is a model of every project whose tasks were read from a manifest:
/// what the tasks generate can always be named.
pub proof fn read_tasks_can_be_modelled(m: ManifestModel, table: Entries, hook: Hook)
    requires
        tasks_of(table) matches Ok((tasks, _)) && tasks == m.tasks,
    ensures
        unit_generated(m, hook) is Ok,
{
    if let Some(value) = entry(table, "tasks"@) {
        if let Some(t) = value.table() {
            lemma_parsed_outputs(t, 0, seq![], seq![]);
        }
    }
    lemma_generated(m, hook, false, 0, seq![]);
    lemma_generated(m, hook, true, 0, seq![]);
}

/// Every path of the model begins at the root, wherever the project is.
pub proof fn paths_are_absolute(path: Seq<char>, directory: Seq<char>)
    requires
        path.len() > 0,
        starts(directory, "/"@),
    ensures
        starts(absolute_path(path, directory), "/"@),
{
    let start = start_of(path, directory);
    reveal_strlit("/");
    reveal_strlit("//");
    assert("/"@ =~= seq!['/']);
    assert(start.len() > 0 && start[0] == '/') by {
        if !starts(path, "/"@) {
            assert(directory.subrange(0, 1)[0] == directory[0]);
        }
    }
    let parts = names(pieces(path, '/'));
    if parts.len() > 0 {
        lemma_joined_relative(path);
    }
    let whole = absolute_path(path, directory);
    assert(whole[0] == '/');
    assert(whole.subrange(0, 1) =~= "/"@);
}

/// The names of a path do not begin at the root.
proof fn lemma_joined_relative(path: Seq<char>)
    requires
        names(pieces(path, '/')).len() > 0,
    ensures
        !starts(joined(names(pieces(path, '/')), "/"@), "/"@),
{
    let parts = names(pieces(path, '/'));
    lemma_names(pieces(path, '/'), 0);
    let j = choose|j: int|
        0 <= j < pieces(path, '/').len() && #[trigger] pieces(path, '/')[j] == parts[0];
    lemma_pieces_apart(path, '/', j);
    assert(parts[0][0] != '/');
    lemma_joined_first(parts);
    lemma_starts_slash(joined(parts, "/"@));
}

proof fn lemma_has_root(list: Seq<(Language, Seq<char>)>, dir: Seq<char>, i: int, k: int)
    requires
        0 <= i <= k < list.len(),
        !has_root(list, dir, i),
    ensures
        !same_dir(list[k].1, dir),
    decreases k - i,
{
    if i < k {
        lemma_has_root(list, dir, i + 1, k);
    }
}

/// No two of the roots are the same directory.
spec fn apart(list: Seq<(Language, Seq<char>)>) -> bool {
    forall|a: int, b: int|
        0 <= a < b < list.len() ==> !same_dir((#[trigger] list[a]).1, (#[trigger] list[b]).1)
}

proof fn lemma_roots(m: ManifestModel, test: bool, i: int, out: Seq<(Language, Seq<char>)>)
    requires
        0 <= i <= m.languages.len(),
        apart(out),
    ensures
        apart(roots_from(m, test, i, out)),
    decreases m.languages.len() - i,
{
    if i < m.languages.len() {
        let config = m.languages[i];
        let dir = under(
            m.root,
            if test {
                config.test_dir
            } else {
                config.source_dir
            },
        );
        if has_root(out, dir, 0) {
            lemma_roots(m, test, i + 1, out);
        } else {
            let more = out.push((config.language, dir));
            assert forall|a: int, b: int| 0 <= a < b < more.len() implies !same_dir(
                (#[trigger] more[a]).1,
                (#[trigger] more[b]).1,
            ) by {
                if b == out.len() {
                    lemma_has_root(out, dir, 0, a);
                } else {
                    assert(more[a] == out[a] && more[b] == out[b]);
                }
            }
            lemma_roots(m, test, i + 1, more);
        }
    }
}

/// No directory is a source root of a unit twice, however it is written.
pub proof fn source_roots_are_apart(m: ManifestModel, test: bool, a: int, b: int)
    requires
        0 <= a < b < roots(m, test).len(),
    ensures
        !same_dir(roots(m, test)[a].1, roots(m, test)[b].1),
{
    let java = under(
        m.root,
        if test {
            m.test_dir
        } else {
            m.source_dir
        },
    );
    lemma_roots(m, test, 0, seq![(Language::Java, java)]);
}

} // verus!
