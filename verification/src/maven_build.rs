//! What a POM's plugins and its build say: Java, layout, the jar, languages
//! and tests.

use crate::attributes::{alike, attribute_of, jar_attribute, same_ignoring_case};
use crate::debug::{debug_list, debug_list_form};
use crate::element::{lemma_children, Element, ElementModel};
use crate::gradle_plugins::{find_language, language_place};
use crate::gradle_text::{as_number, parse_u32};
use crate::language::Language;
use crate::manifest::{
    JavaModel, LanguageConfig, LanguageModel, Manifest, ManifestModel, ObfuscateConfig,
    ObfuscateModel, PackageModel, TestModel,
};
use crate::maven_deps::{filled_text, read_filled};
use crate::maven_exec::{
    arguments_of, find_plugin_element, plugin, plugin_element_from, plugin_in, split_arguments,
};
use crate::migration::{
    compiler_plugin_use, drop_implied_libraries, enable_from_library, enable_language,
    report_compiler_plugin, unimplied_from, with_language, with_library_language,
};
use crate::pom::{
    interpolate, interpolated, property, Effective, PluginInfo, PluginModel, Pom, PomModel,
    Properties,
};
use crate::report::{Report, ReportModel};
use crate::task::once_more;
use crate::template::{escaped, Template};
use crate::text::{
    cat2, cat3, cat4, cat5, cat7, contains, decimal, ends, ends_with, listed, none_of, number, put,
    put_all, replace, replaced, same, sans_head, sans_prefix, show, skip_run, trim, trimmed, within,
    without_prefix, Class,
};
use vstd::prelude::*;

verus! {

// ---- values ----------------------------------------------------------------

/// The Java release that a text names.
pub open spec fn release_of(raw: Seq<char>) -> Option<nat> {
    number(sans_prefix(trimmed(raw), "1."@), u32::MAX as nat)
}

/// `21`, `1.8`, `17` — Maven accepts all three spellings.
pub fn parse_release(raw: &str) -> (r: Option<u32>)
    ensures
        as_number(r) == release_of(raw@),
{
    parse_u32(without_prefix(trim(raw), "1."))
}

/// A path in the project, without what stands for the project's directory.
pub open spec fn sans_basedir(raw: Seq<char>) -> Seq<char> {
    let s = replaced(trimmed(raw), "\\"@, "/"@);
    let s = sans_prefix(s, "${project.basedir}/"@);
    let s = sans_prefix(s, "${basedir}/"@);
    let s = sans_prefix(s, "${project.build.directory}/"@);
    let s = sans_prefix(s, "./"@);
    sans_head(s, Class::One('/'))
}

/// `${project.basedir}/src/gen` → `src/gen`.
pub fn strip_basedir(raw: &str) -> (r: String)
    ensures
        r@ == sans_basedir(raw@),
{
    proof {
        reveal_strlit("\\");
    }
    let slashed = replace(trim(raw), "\\", "/");
    let s = without_prefix(slashed.as_str(), "${project.basedir}/");
    let s = without_prefix(s, "${basedir}/");
    let s = without_prefix(s, "${project.build.directory}/");
    let s = without_prefix(s, "./");
    skip_run(s, Class::One('/')).to_owned()
}

/// What a plugin's configuration holds under a name, as text.
pub open spec fn plugin_text(pom: PomModel, artifact: Seq<char>, name: Seq<char>) -> Option<
    Seq<char>,
> {
    match plugin_config(pom, artifact) {
        Some(c) => c.text_of(name),
        None => None,
    }
}

/// A plugin's configuration.
pub open spec fn plugin_config(pom: PomModel, artifact: Seq<char>) -> Option<ElementModel> {
    match plugin_in(pom, artifact) {
        Some(p) => p.configuration,
        None => None,
    }
}

fn find_config<'a>(pom: &'a Pom, artifact: &str) -> (r: Option<&'a Element>)
    ensures
        r.deep_view() == plugin_config(pom.deep_view(), artifact@),
{
    match plugin(pom, artifact) {
        Some(p) => match &p.configuration {
            Some(c) => Some(c),
            None => None,
        },
        None => None,
    }
}

/// The first that is there.
pub open spec fn or_else(a: Option<Seq<char>>, b: Option<Seq<char>>) -> Option<Seq<char>> {
    match a {
        Some(_) => a,
        None => b,
    }
}

// ---- Java ------------------------------------------------------------------

/// What the compiler plugin is configured with.
pub open spec fn compiler_text(pom: PomModel, name: Seq<char>, props: Properties) -> Option<
    Seq<char>,
> {
    match plugin_text(pom, "maven-compiler-plugin"@, name) {
        Some(v) => Some(interpolated(v, props)),
        None => None,
    }
}

fn find_compiler_text(pom: &Pom, name: &str, props: &Vec<(String, String)>) -> (r: Option<String>)
    ensures
        r.deep_view() == compiler_text(pom.deep_view(), name@, props.deep_view()),
{
    match find_config(pom, "maven-compiler-plugin") {
        Some(c) => read_filled(c, name, props),
        None => None,
    }
}

/// The release that a POM compiles for, as written.
pub open spec fn release_text(pom: PomModel, props: Properties) -> Option<Seq<char>> {
    or_else(
        compiler_text(pom, "release"@, props),
        or_else(
            property(props, "maven.compiler.release"@),
            or_else(
                compiler_text(pom, "source"@, props),
                property(props, "maven.compiler.source"@),
            ),
        ),
    )
}

fn own(s: Option<&str>) -> (r: Option<String>)
    ensures
        r.deep_view() == s.deep_view(),
{
    match s {
        Some(s) => Some(s.to_owned()),
        None => None,
    }
}

fn find_release_text(pom: &Pom, effective: &Effective) -> (r: Option<String>)
    ensures
        r.deep_view() == release_text(pom.deep_view(), effective.deep_view().properties),
{
    let props = &effective.properties;
    match find_compiler_text(pom, "release", props) {
        Some(v) => Some(v),
        None => match effective.property("maven.compiler.release") {
            Some(v) => Some(v.to_owned()),
            None => match find_compiler_text(pom, "source", props) {
                Some(v) => Some(v),
                None => own(effective.property("maven.compiler.source")),
            },
        },
    }
}

/// The manifest and the report with the release that a POM compiles for.
pub open spec fn with_release(pom: PomModel, props: Properties, m: ManifestModel, told: ReportModel) -> (
    ManifestModel,
    ReportModel,
) {
    match release_text(pom, props) {
        None => (m, told),
        Some(release) => match release_of(release) {
            Some(n) => (
                ManifestModel { java: JavaModel { source: Some(n as u32), ..m.java }, ..m },
                told.with_migrated("java.source = "@ + decimal(n)),
            ),
            None => (
                m,
                told.with_review(
                    "compiler release `"@ + release
                        + "` could not be read as a version; java.source was left to the JDK default"@,
                ),
            ),
        },
    }
}

/// The release that a POM targets.
pub open spec fn target_of(pom: PomModel, props: Properties) -> Option<nat> {
    match or_else(
        compiler_text(pom, "target"@, props),
        property(props, "maven.compiler.target"@),
    ) {
        Some(t) => release_of(t),
        None => None,
    }
}

/// The manifest and the report with the release that a POM targets.
pub open spec fn with_target(pom: PomModel, props: Properties, m: ManifestModel, told: ReportModel) -> (
    ManifestModel,
    ReportModel,
) {
    match target_of(pom, props) {
        Some(n) => if as_number(m.java.source) == Some(n) {
            (m, told)
        } else {
            (
                ManifestModel { java: JavaModel { target: Some(n as u32), ..m.java }, ..m },
                told.with_migrated("java.target = "@ + decimal(n)),
            )
        },
        None => (m, told),
    }
}

/// The manifest and the report with the encoding of a POM's sources.
pub open spec fn with_encoding(props: Properties, m: ManifestModel, told: ReportModel) -> (
    ManifestModel,
    ReportModel,
) {
    match property(props, "project.build.sourceEncoding"@) {
        Some(encoding) => if encoding == "UTF-8"@ {
            (m, told)
        } else {
            (
                ManifestModel { java: JavaModel { encoding, ..m.java }, ..m },
                told.with_migrated("java.encoding = "@ + encoding),
            )
        },
        None => (m, told),
    }
}

/// The texts of elements from the `i`th on, interpolated, after those before;
/// empty ones are left out.
pub open spec fn filled_texts(
    list: Seq<ElementModel>,
    i: int,
    props: Properties,
    out: Seq<Seq<char>>,
) -> Seq<Seq<char>>
    decreases list.len() - i,
{
    if i < 0 || i >= list.len() {
        out
    } else {
        let t = interpolated(trimmed(list[i].text), props);
        filled_texts(
            list,
            i + 1,
            props,
            if t.len() > 0 {
                out.push(t)
            } else {
                out
            },
        )
    }
}

fn read_filled_texts(e: &Element, props: &Vec<(String, String)>) -> (r: Vec<String>)
    ensures
        r.deep_view() == filled_texts(e.deep_view().children, 0, props.deep_view(), seq![]),
{
    let ghost all = e.children.deep_view();
    let ghost p = props.deep_view();
    proof {
        lemma_children(*e);
    }
    let mut out: Vec<String> = none_of();
    let mut i: usize = 0;
    while i < e.children.len()
        invariant
            all == e.children.deep_view(),
            p == props.deep_view(),
            i <= e.children@.len(),
            filled_texts(all, 0, p, seq![]) == filled_texts(all, i as int, p, out.deep_view()),
        decreases e.children@.len() - i,
    {
        assert(all[i as int] == e.children@[i as int].deep_view());
        let t = interpolate(e.children[i].trimmed(), props);
        if !t.as_str().is_empty() {
            put(&mut out, t);
        }
        i = i + 1;
    }
    out
}

/// The arguments of the compiler plugin.
pub open spec fn compiler_args(pom: PomModel, props: Properties) -> Seq<Seq<char>> {
    match plugin_config(pom, "maven-compiler-plugin"@) {
        Some(c) => match c.child("compilerArgs"@) {
            Some(args) => filled_texts(args.children, 0, props, seq![]),
            None => seq![],
        },
        None => seq![],
    }
}

fn read_compiler_args(pom: &Pom, props: &Vec<(String, String)>) -> (r: Vec<String>)
    ensures
        r.deep_view() == compiler_args(pom.deep_view(), props.deep_view()),
{
    match find_config(pom, "maven-compiler-plugin") {
        Some(c) => match c.child("compilerArgs") {
            Some(args) => read_filled_texts(args, props),
            None => none_of(),
        },
        None => none_of(),
    }
}

/// The manifest and the report once the compiler's settings are read.
pub open spec fn java_read(pom: PomModel, props: Properties, m: ManifestModel, told: ReportModel) -> (
    ManifestModel,
    ReportModel,
) {
    let (m, told) = with_release(pom, props, m, told);
    let (m, told) = with_target(pom, props, m, told);
    let (m, told) = with_encoding(props, m, told);
    let flags = compiler_args(pom, props);
    if flags.len() == 0 {
        (m, told)
    } else {
        (
            ManifestModel { java: JavaModel { javac_args: flags, ..m.java }, ..m },
            told.with_migrated("java.javac-args = "@ + debug_list_form(flags)),
        )
    }
}

/// The compiler's settings: the releases, the encoding and the arguments.
pub fn read_java_settings(effective: &Effective, pom: &Pom, out: &mut Manifest, report: &mut Report)
    ensures
        (final(out).deep_view(), final(report).deep_view()) == java_read(
            pom.deep_view(),
            effective.deep_view().properties,
            old(out).deep_view(),
            old(report).deep_view(),
        ),
{
    let props = &effective.properties;
    if let Some(release) = find_release_text(pom, effective) {
        match parse_release(release.as_str()) {
            Some(n) => {
                out.java.source = Some(n);
                report.migrated(cat2("java.source = ", show(n as u128).as_str()));
            },
            None => {
                report.review(
                    cat3(
                        "compiler release `",
                        release.as_str(),
                        "` could not be read as a version; java.source was left to the JDK default",
                    ),
                );
            },
        }
    }
    let target_text = match find_compiler_text(pom, "target", props) {
        Some(t) => Some(t),
        None => own(effective.property("maven.compiler.target")),
    };
    let target = match target_text {
        Some(t) => parse_release(t.as_str()),
        None => None,
    };
    if let Some(n) = target {
        if out.java.source != Some(n) {
            out.java.target = Some(n);
            report.migrated(cat2("java.target = ", show(n as u128).as_str()));
        }
    }
    if let Some(encoding) = effective.property("project.build.sourceEncoding") {
        if !same(encoding, "UTF-8") {
            out.java.encoding = encoding.to_owned();
            report.migrated(cat2("java.encoding = ", encoding));
        }
    }
    let flags = read_compiler_args(pom, props);
    if flags.len() > 0 {
        report.migrated(cat2("java.javac-args = ", debug_list(&flags).as_str()));
        out.java.javac_args = flags;
    }
}

/// The manifest and the report with the release that
/// spring-boot-starter-parent compiles for.
pub open spec fn boot_java_read(props: Properties, m: ManifestModel, told: ReportModel) -> (
    ManifestModel,
    ReportModel,
) {
    let release = match property(props, "java.version"@) {
        Some(v) => release_of(v),
        None => None,
    };
    match release {
        Some(n) if m.java.source is None => (
            ManifestModel { java: JavaModel { source: Some(n as u32), ..m.java }, ..m },
            told.with_migrated(
                "java.source = "@ + decimal(n)
                    + " (from java.version, which spring-boot-starter-parent compiles for)"@,
            ),
        ),
        _ => (m, told),
    }
}

/// spring-boot-starter-parent compiles for `${java.version}`.
pub fn read_boot_java_version(effective: &Effective, out: &mut Manifest, report: &mut Report)
    ensures
        (final(out).deep_view(), final(report).deep_view()) == boot_java_read(
            effective.deep_view().properties,
            old(out).deep_view(),
            old(report).deep_view(),
        ),
{
    if out.java.source.is_some() {
        return ;
    }
    let release = match effective.property("java.version") {
        Some(v) => parse_release(v),
        None => None,
    };
    if let Some(n) = release {
        out.java.source = Some(n);
        report.migrated(
            cat3(
                "java.source = ",
                show(n as u128).as_str(),
                " (from java.version, which spring-boot-starter-parent compiles for)",
            ),
        );
    }
}

// ---- layout ----------------------------------------------------------------

/// The first language, from the `i`th on, whose own root the directory is.
pub open spec fn root_language(
    languages: Seq<LanguageModel>,
    dir: Seq<char>,
    parent: Seq<char>,
    i: int,
) -> Option<Language>
    decreases languages.len() - i,
{
    if i < 0 || i >= languages.len() {
        None
    } else if dir == parent + "/"@ + languages[i].language.word() {
        Some(languages[i].language)
    } else {
        root_language(languages, dir, parent, i + 1)
    }
}

fn find_root_language(languages: &Vec<LanguageConfig>, dir: &str, parent: &str) -> (r: Option<
    Language,
>)
    ensures
        r == root_language(languages.deep_view(), dir@, parent@, 0),
{
    let ghost all = languages.deep_view();
    let mut i: usize = 0;
    while i < languages.len()
        invariant
            all == languages.deep_view(),
            i <= languages@.len(),
            root_language(all, dir@, parent@, 0) == root_language(all, dir@, parent@, i as int),
        decreases languages@.len() - i,
    {
        assert(all[i as int] == languages@[i as int].deep_view());
        if same(dir, cat3(parent, "/", languages[i].language.key()).as_str()) {
            return Some(languages[i].language);
        }
        i = i + 1;
    }
    None
}

/// The directory that a setting names, where it is another than the default's,
/// and the report. `parent` is where a language keeps its own root: `src/main`
/// for `src/main/kotlin`. Such a root is compiled through its table already,
/// and moving the Java root there would lose `src/main/java`.
pub open spec fn directory_set(
    value: Option<Seq<char>>,
    default: Seq<char>,
    name: Seq<char>,
    parent: Option<Seq<char>>,
    languages: Seq<LanguageModel>,
    told: ReportModel,
) -> (Option<Seq<char>>, ReportModel) {
    match value {
        None => (None, told),
        Some(raw) => {
            let dir = sans_basedir(raw);
            let root = match parent {
                Some(p) => root_language(languages, dir, p, 0),
                None => None,
            };
            if dir == default {
                (None, told)
            } else {
                match root {
                    Some(language) => (
                        None,
                        told.with_migrated(
                            "project."@ + name + " left at "@ + default + ": "@ + dir + (" is ["@
                                + language.word()
                                + "]'s own root, which jrs compiles too"@),
                        ),
                    ),
                    None => (
                        Some(dir),
                        told.with_review(
                            "project."@ + name + " = "@ + dir
                                + " — a non-default layout; check that it is what you expect"@,
                        ),
                    ),
                }
            }
        },
    }
}

fn set_directory(
    value: &Option<String>,
    default: &str,
    name: &str,
    parent: Option<&str>,
    languages: &Vec<LanguageConfig>,
    report: &mut Report,
) -> (r: Option<String>)
    ensures
        (r.deep_view(), final(report).deep_view()) == directory_set(
            value.deep_view(),
            default@,
            name@,
            parent.deep_view(),
            languages.deep_view(),
            old(report).deep_view(),
        ),
{
    let Some(raw) = value else {
        return None;
    };
    let dir = strip_basedir(raw.as_str());
    if same(dir.as_str(), default) {
        return None;
    }
    let root = match parent {
        Some(p) => find_root_language(languages, dir.as_str(), p),
        None => None,
    };
    if let Some(language) = root {
        report.migrated(
            cat7(
                "project.",
                name,
                " left at ",
                default,
                ": ",
                dir.as_str(),
                cat3(" is [", language.key(), "]'s own root, which jrs compiles too").as_str(),
            ),
        );
        return None;
    }
    report.review(
        cat5(
            "project.",
            name,
            " = ",
            dir.as_str(),
            " — a non-default layout; check that it is what you expect",
        ),
    );
    Some(dir)
}

/// The manifest and the report once the directories of resources are read.
pub open spec fn resources_read(dirs: Seq<Seq<char>>, m: ManifestModel, told: ReportModel) -> (
    ManifestModel,
    ReportModel,
) {
    if dirs.len() == 0 {
        (m, told)
    } else {
        let dir = sans_basedir(dirs[0]);
        if dirs.len() == 1 {
            if dir == "src/main/resources"@ {
                (m, told)
            } else {
                (
                    ManifestModel { resource_dir: dir, ..m },
                    told.with_review("project.resource-dir = "@ + dir),
                )
            }
        } else {
            (
                ManifestModel { resource_dir: dir, ..m },
                told.with_skipped(
                    decimal(dirs.len()) + " <resource> directories — jrs supports one; kept "@
                        + dir + " and dropped the rest"@,
                ),
            )
        }
    }
}

/// The manifest and the report once the layout is read.
pub open spec fn layout_read(pom: PomModel, m: ManifestModel, told: ReportModel) -> (
    ManifestModel,
    ReportModel,
) {
    let (source, told) = directory_set(
        pom.build.source_directory,
        "src/main/java"@,
        "source-dir"@,
        Some("src/main"@),
        m.languages,
        told,
    );
    let (test, told) = directory_set(
        pom.build.test_source_directory,
        "src/test/java"@,
        "test-dir"@,
        Some("src/test"@),
        m.languages,
        told,
    );
    let (target, told) = directory_set(
        pom.build.directory,
        "target"@,
        "target-dir"@,
        None,
        m.languages,
        told,
    );
    let m = ManifestModel {
        source_dir: match source {
            Some(d) => d,
            None => m.source_dir,
        },
        test_dir: match test {
            Some(d) => d,
            None => m.test_dir,
        },
        target_dir: match target {
            Some(d) => d,
            None => m.target_dir,
        },
        ..m
    };
    resources_read(pom.build.resource_directories, m, told)
}

/// Where a POM keeps its sources, and where it builds.
pub fn read_layout(pom: &Pom, out: &mut Manifest, report: &mut Report)
    ensures
        (final(out).deep_view(), final(report).deep_view()) == layout_read(
            pom.deep_view(),
            old(out).deep_view(),
            old(report).deep_view(),
        ),
{
    let build = &pom.build;
    if let Some(d) = set_directory(
        &build.source_directory,
        "src/main/java",
        "source-dir",
        Some("src/main"),
        &out.languages,
        report,
    ) {
        out.source_dir = d;
    }
    if let Some(d) = set_directory(
        &build.test_source_directory,
        "src/test/java",
        "test-dir",
        Some("src/test"),
        &out.languages,
        report,
    ) {
        out.test_dir = d;
    }
    if let Some(d) = set_directory(
        &build.directory,
        "target",
        "target-dir",
        None,
        &out.languages,
        report,
    ) {
        out.target_dir = d;
    }
    let dirs = &build.resource_directories;
    let ghost all = dirs.deep_view();
    assert(all.len() == dirs@.len());
    if dirs.len() == 0 {
        return ;
    }
    assert(all[0] == dirs@[0]@);
    let dir = strip_basedir(dirs[0].as_str());
    if dirs.len() == 1 {
        if !same(dir.as_str(), "src/main/resources") {
            report.review(cat2("project.resource-dir = ", dir.as_str()));
            out.resource_dir = dir;
        }
    } else {
        report.skipped(
            cat4(
                show(dirs.len() as u128).as_str(),
                " <resource> directories — jrs supports one; kept ",
                dir.as_str(),
                " and dropped the rest",
            ),
        );
        out.resource_dir = dir;
    }
}

// ---- the main class --------------------------------------------------------

/// The main class that Spring Boot's plugin, or the property that its parent
/// passes it, names.
pub open spec fn boot_main(pom: PomModel, props: Properties) -> Option<Seq<char>> {
    match or_else(
        plugin_text(pom, "spring-boot-maven-plugin"@, "mainClass"@),
        property(props, "start-class"@),
    ) {
        Some(m) => if within(m, "${"@) {
            None
        } else {
            Some(m)
        },
        None => None,
    }
}

/// The main class that the jar plugin names.
pub open spec fn jar_main(pom: PomModel) -> Option<Seq<char>> {
    match plugin_config(pom, "maven-jar-plugin"@) {
        Some(c) => match c.grandchild("archive"@, "manifest"@) {
            Some(m) => m.text_of("mainClass"@),
            None => None,
        },
        None => None,
    }
}

/// The configurations of a plugin's executions from the `i`th on, after those
/// before.
pub open spec fn execution_configs(list: Seq<ElementModel>, i: int, out: Seq<ElementModel>) -> Seq<
    ElementModel,
>
    decreases list.len() - i,
{
    if i < 0 || i >= list.len() {
        out
    } else {
        match list[i].child("configuration"@) {
            Some(c) => execution_configs(list, i + 1, out.push(c)),
            None => execution_configs(list, i + 1, out),
        }
    }
}

/// The configurations of a plugin: its executions', then its own.
pub open spec fn all_configs(p: PluginModel) -> Seq<ElementModel> {
    let configs = execution_configs(p.executions, 0, seq![]);
    match p.configuration {
        Some(c) => configs.push(c),
        None => configs,
    }
}

fn list_all_configs(p: &PluginInfo) -> (r: Vec<&Element>)
    ensures
        r.deep_view() == all_configs(p.deep_view()),
{
    let ghost all = p.executions.deep_view();
    let mut out: Vec<&Element> = none_of();
    let mut i: usize = 0;
    while i < p.executions.len()
        invariant
            all == p.executions.deep_view(),
            i <= p.executions@.len(),
            execution_configs(all, 0, seq![]) == execution_configs(all, i as int, out.deep_view()),
        decreases p.executions@.len() - i,
    {
        assert(all[i as int] == p.executions@[i as int].deep_view());
        if let Some(c) = p.executions[i].child("configuration") {
            put(&mut out, c);
        }
        i = i + 1;
    }
    if let Some(c) = &p.configuration {
        put(&mut out, c);
    }
    out
}

/// The elements in the lists called `name` of the configurations from the
/// `i`th on, after those before.
pub open spec fn listed_in(
    configs: Seq<ElementModel>,
    name: Seq<char>,
    i: int,
    out: Seq<ElementModel>,
) -> Seq<ElementModel>
    decreases configs.len() - i,
{
    if i < 0 || i >= configs.len() {
        out
    } else {
        match configs[i].child(name) {
            Some(list) => listed_in(configs, name, i + 1, out + list.children),
            None => listed_in(configs, name, i + 1, out),
        }
    }
}

fn list_in<'a>(configs: &Vec<&'a Element>, name: &str) -> (r: Vec<&'a Element>)
    ensures
        r.deep_view() == listed_in(configs.deep_view(), name@, 0, seq![]),
{
    let ghost all = configs.deep_view();
    let mut out: Vec<&'a Element> = none_of();
    let mut i: usize = 0;
    while i < configs.len()
        invariant
            all == configs.deep_view(),
            i <= configs@.len(),
            listed_in(all, name@, 0, seq![]) == listed_in(all, name@, i as int, out.deep_view()),
        decreases configs@.len() - i,
    {
        assert(all[i as int] == configs@[i as int].deep_view());
        if let Some(list) = configs[i].child(name) {
            let refs = children_of(list);
            put_all(&mut out, refs);
        }
        i = i + 1;
    }
    out
}

fn children_of(e: &Element) -> (r: Vec<&Element>)
    ensures
        r.deep_view() == e.deep_view().children,
{
    let ghost all = e.children.deep_view();
    proof {
        lemma_children(*e);
    }
    let mut out: Vec<&Element> = none_of();
    let mut i: usize = 0;
    while i < e.children.len()
        invariant
            all == e.children.deep_view(),
            i <= e.children@.len(),
            out.deep_view() =~= all.take(i as int),
        decreases e.children@.len() - i,
    {
        assert(all[i as int] == e.children@[i as int].deep_view());
        put(&mut out, &e.children[i]);
        i = i + 1;
    }
    assert(all.take(i as int) =~= all);
    out
}

/// The first main class that an element from the `i`th on names.
pub open spec fn main_in(list: Seq<ElementModel>, i: int) -> Option<Seq<char>>
    decreases list.len() - i,
{
    if i < 0 || i >= list.len() {
        None
    } else {
        match list[i].text_of("mainClass"@) {
            Some(m) => Some(m),
            None => main_in(list, i + 1),
        }
    }
}

fn find_main_in<'a>(list: &Vec<&'a Element>) -> (r: Option<&'a str>)
    ensures
        r.deep_view() == main_in(list.deep_view(), 0),
{
    let ghost all = list.deep_view();
    let mut i: usize = 0;
    while i < list.len()
        invariant
            all == list.deep_view(),
            i <= list@.len(),
            main_in(all, 0) == main_in(all, i as int),
        decreases list@.len() - i,
    {
        assert(all[i as int] == list@[i as int].deep_view());
        if let Some(m) = list[i].text_of("mainClass") {
            return Some(m);
        }
        i = i + 1;
    }
    None
}

/// The main class that the shade plugin names: it puts its transformers under
/// an execution's configuration as often as under its own.
pub open spec fn shade_main(pom: PomModel) -> Option<Seq<char>> {
    match plugin_in(pom, "maven-shade-plugin"@) {
        Some(p) => main_in(listed_in(all_configs(p), "transformers"@, 0, seq![]), 0),
        None => None,
    }
}

/// The main class that a POM names.
pub open spec fn main_of(pom: PomModel, props: Properties) -> Option<Seq<char>> {
    or_else(jar_main(pom), or_else(shade_main(pom), boot_main(pom, props)))
}

fn find_jar_main(pom: &Pom) -> (r: Option<&str>)
    ensures
        r.deep_view() == jar_main(pom.deep_view()),
{
    match find_config(pom, "maven-jar-plugin") {
        Some(c) => match c.grandchild("archive", "manifest") {
            Some(m) => m.text_of("mainClass"),
            None => None,
        },
        None => None,
    }
}

fn find_shade_main(pom: &Pom) -> (r: Option<&str>)
    ensures
        r.deep_view() == shade_main(pom.deep_view()),
{
    match plugin(pom, "maven-shade-plugin") {
        Some(p) => find_main_in(&list_in(&list_all_configs(p), "transformers")),
        None => None,
    }
}

fn find_boot_main<'a>(pom: &'a Pom, effective: &'a Effective) -> (r: Option<&'a str>)
    ensures
        r.deep_view() == boot_main(pom.deep_view(), effective.deep_view().properties),
{
    let named = match find_config(pom, "spring-boot-maven-plugin") {
        Some(c) => c.text_of("mainClass"),
        None => None,
    };
    let main = match named {
        Some(m) => Some(m),
        None => effective.property("start-class"),
    };
    match main {
        Some(m) => if contains(m, "${") {
            None
        } else {
            Some(m)
        },
        None => None,
    }
}

/// The manifest and the report once the main class is read.
pub open spec fn main_read(pom: PomModel, props: Properties, m: ManifestModel, told: ReportModel) -> (
    ManifestModel,
    ReportModel,
) {
    match main_of(pom, props) {
        Some(main) => (
            ManifestModel { main_class: Some(main), ..m },
            told.with_migrated("project.main-class = "@ + main),
        ),
        None => (m, told),
    }
}

/// The main class that the jar plugin, the shade plugin or Spring Boot's
/// names.
pub fn read_main_class(pom: &Pom, effective: &Effective, out: &mut Manifest, report: &mut Report)
    ensures
        (final(out).deep_view(), final(report).deep_view()) == main_read(
            pom.deep_view(),
            effective.deep_view().properties,
            old(out).deep_view(),
            old(report).deep_view(),
        ),
{
    let main = match find_jar_main(pom) {
        Some(m) => Some(m),
        None => match find_shade_main(pom) {
            Some(m) => Some(m),
            None => find_boot_main(pom, effective),
        },
    };
    if let Some(m) = main {
        out.main_class = Some(m.to_owned());
        report.migrated(cat2("project.main-class = ", m));
    }
}

// ---- the jar's manifest ----------------------------------------------------

/// The text of a manifest entry as a value: braces in it are literal, so they
/// are escaped before the two properties jrs knows become placeholders.
pub open spec fn entry_value(text: Seq<char>) -> Seq<char> {
    replaced(
        replaced(escaped(text), "${{project.version}}"@, "{project.version}"@),
        "${{project.artifactId}}"@,
        "{project.name}"@,
    )
}

fn read_entry_value(text: &str) -> (r: String)
    ensures
        r@ == entry_value(text@),
{
    proof {
        reveal_strlit("${{project.version}}");
        reveal_strlit("${{project.artifactId}}");
    }
    let raw = Template::literal(text).raw;
    let raw = replace(raw.as_str(), "${{project.version}}", "{project.version}");
    replace(raw.as_str(), "${{project.artifactId}}", "{project.name}")
}

/// The manifest and the report once an entry is read.
pub open spec fn with_entry(m: ManifestModel, told: ReportModel, entry: ElementModel) -> (
    ManifestModel,
    ReportModel,
) {
    let name = entry.name;
    let text = trimmed(entry.text);
    let raw = entry_value(text);
    if within(raw, "${{"@) {
        (
            m,
            told.with_skipped(
                "jar manifest entry `"@ + name + "` — `"@ + text
                    + "` names a property jrs cannot evaluate"@,
            ),
        )
    } else if alike(name, "Main-Class"@) && m.main_class == Some(text) {
        (m, told)
    } else {
        match attribute_of(name, raw) {
            Ok(template) => (
                ManifestModel {
                    package: PackageModel {
                        manifest: m.package.manifest.push((name, template)),
                        ..m.package
                    },
                    ..m
                },
                told.with_migrated("package.manifest."@ + name + " = "@ + raw),
            ),
            Err(e) => (m, told.with_skipped("jar manifest entry — "@ + e.text())),
        }
    }
}

fn read_entry(entry: &Element, out: &mut Manifest, report: &mut Report)
    ensures
        (final(out).deep_view(), final(report).deep_view()) == with_entry(
            old(out).deep_view(),
            old(report).deep_view(),
            entry.deep_view(),
        ),
{
    proof {
        lemma_children(*entry);
    }
    let name = entry.name.as_str();
    let text = entry.trimmed();
    let raw = read_entry_value(text);
    if contains(raw.as_str(), "${{") {
        report.skipped(
            cat5(
                "jar manifest entry `",
                name,
                "` — `",
                text,
                "` names a property jrs cannot evaluate",
            ),
        );
        return ;
    }
    let is_main = match &out.main_class {
        Some(m) => same(m.as_str(), text),
        None => false,
    };
    if same_ignoring_case(name, "Main-Class") && is_main {
        return ;
    }
    match jar_attribute(name, raw.as_str()) {
        Ok(template) => {
            report.migrated(cat4("package.manifest.", name, " = ", raw.as_str()));
            put(&mut out.package.manifest, (name.to_owned(), template));
        },
        Err(e) => {
            report.skipped(cat2("jar manifest entry — ", e.to_text().as_str()));
        },
    }
}

/// The manifest and the report once the entries from the `i`th on are read.
pub open spec fn entries_from(
    entries: Seq<ElementModel>,
    i: int,
    m: ManifestModel,
    told: ReportModel,
) -> (ManifestModel, ReportModel)
    decreases entries.len() - i,
{
    if i < 0 || i >= entries.len() {
        (m, told)
    } else {
        let (m, told) = with_entry(m, told, entries[i]);
        entries_from(entries, i + 1, m, told)
    }
}

/// The manifest and the report once the jar's manifest is read.
pub open spec fn jar_manifest_read(pom: PomModel, m: ManifestModel, told: ReportModel) -> (
    ManifestModel,
    ReportModel,
) {
    let entries = match plugin_config(pom, "maven-jar-plugin"@) {
        Some(c) => c.grandchild("archive"@, "manifestEntries"@),
        None => None,
    };
    match entries {
        Some(entries) => entries_from(entries.children, 0, m, told),
        None => (m, told),
    }
}

/// `maven-jar-plugin`'s `<archive><manifestEntries>` → `[package.manifest]`, in
/// order. `${project.version}` and `${project.artifactId}` become
/// `{project.version}` and `{project.name}`; a value with any other `${...}`
/// is reported, as is an attribute jrs writes itself. `Main-Class` is
/// `<manifest><mainClass>`'s business, read before.
pub fn read_jar_manifest(pom: &Pom, out: &mut Manifest, report: &mut Report)
    ensures
        (final(out).deep_view(), final(report).deep_view()) == jar_manifest_read(
            pom.deep_view(),
            old(out).deep_view(),
            old(report).deep_view(),
        ),
{
    let entries = match find_config(pom, "maven-jar-plugin") {
        Some(c) => c.grandchild("archive", "manifestEntries"),
        None => None,
    };
    let Some(entries) = entries else {
        return ;
    };
    let ghost all = entries.children.deep_view();
    let ghost start = (out.deep_view(), report.deep_view());
    proof {
        lemma_children(*entries);
    }
    let mut i: usize = 0;
    while i < entries.children.len()
        invariant
            all == entries.children.deep_view(),
            i <= entries.children@.len(),
            entries_from(all, 0, start.0, start.1) == entries_from(
                all,
                i as int,
                out.deep_view(),
                report.deep_view(),
            ),
        decreases entries.children@.len() - i,
    {
        assert(all[i as int] == entries.children@[i as int].deep_view());
        read_entry(&entries.children[i], out, report);
        i = i + 1;
    }
}

// ---- ProGuard --------------------------------------------------------------

/// The texts of elements from the `i`th on, after those before; empty ones are
/// left out.
pub open spec fn full_texts(list: Seq<ElementModel>, i: int, out: Seq<Seq<char>>) -> Seq<Seq<char>>
    decreases list.len() - i,
{
    if i < 0 || i >= list.len() {
        out
    } else if trimmed(list[i].text).len() > 0 {
        full_texts(list, i + 1, out.push(trimmed(list[i].text)))
    } else {
        full_texts(list, i + 1, out)
    }
}

fn read_full_texts(list: &Vec<&Element>) -> (r: Vec<String>)
    ensures
        r.deep_view() == full_texts(list.deep_view(), 0, seq![]),
{
    let ghost all = list.deep_view();
    let mut out: Vec<String> = none_of();
    let mut i: usize = 0;
    while i < list.len()
        invariant
            all == list.deep_view(),
            i <= list@.len(),
            full_texts(all, 0, seq![]) == full_texts(all, i as int, out.deep_view()),
        decreases list@.len() - i,
    {
        assert(all[i as int] == list@[i as int].deep_view());
        if !list[i].trimmed().is_empty() {
            put(&mut out, list[i].trimmed().to_owned());
        }
        i = i + 1;
    }
    out
}

/// The report of the options from the `i`th on.
pub open spec fn options_told(options: Seq<Seq<char>>, i: int, told: ReportModel) -> ReportModel
    decreases options.len() - i,
{
    if i < 0 || i >= options.len() {
        told
    } else {
        options_told(
            options,
            i + 1,
            told.with_migrated("obfuscate.proguard-args += "@ + options[i]),
        )
    }
}

fn tell_options(options: &Vec<String>, report: &mut Report)
    ensures
        final(report).deep_view() == options_told(
            options.deep_view(),
            0,
            old(report).deep_view(),
        ),
{
    let ghost all = options.deep_view();
    let ghost start = report.deep_view();
    let mut i: usize = 0;
    while i < options.len()
        invariant
            all == options.deep_view(),
            i <= options@.len(),
            options_told(all, 0, start) == options_told(all, i as int, report.deep_view()),
        decreases options@.len() - i,
    {
        assert(all[i as int] == options@[i as int]@);
        report.migrated(cat2("obfuscate.proguard-args += ", options[i].as_str()));
        i = i + 1;
    }
}

/// The manifest and the report once the `ProGuard` plugin is read.
pub open spec fn proguard_read(pom: PomModel, m: ManifestModel, told: ReportModel) -> (
    ManifestModel,
    ReportModel,
) {
    match plugin_config(pom, "proguard-maven-plugin"@) {
        None => (m, told),
        Some(config) => {
            let options = match config.child("options"@) {
                Some(o) => full_texts(o.children, 0, seq![]),
                None => seq![],
            };
            match config.text_of("proguardVersion"@) {
                Some(version) => (
                    ManifestModel {
                        obfuscate: Some(
                            ObfuscateModel { version, keep: seq![], proguard_args: options },
                        ),
                        ..m
                    },
                    options_told(
                        options,
                        0,
                        told.with_migrated("obfuscate.version = "@ + version),
                    ),
                ),
                None => (
                    m,
                    told.with_review(
                        "proguard-maven-plugin — set obfuscate.version to the ProGuard release to pin, then run `jrs package --obfuscate` (it has no <proguardVersion>)"@,
                    ),
                ),
            }
        },
    }
}

/// `proguard-maven-plugin` → `[obfuscate]`. Its `<proguardVersion>` pins
/// `ProGuard`, and its `<options>` pass through verbatim; jrs adds its own keeps
/// for the entry point and the `ServiceLoader` providers. Without a pinned
/// version there is nothing reproducible to write, so that is flagged instead.
pub fn read_proguard(pom: &Pom, out: &mut Manifest, report: &mut Report)
    ensures
        (final(out).deep_view(), final(report).deep_view()) == proguard_read(
            pom.deep_view(),
            old(out).deep_view(),
            old(report).deep_view(),
        ),
{
    let Some(config) = find_config(pom, "proguard-maven-plugin") else {
        return ;
    };
    let options = match config.child("options") {
        Some(o) => read_full_texts(&children_of(o)),
        None => none_of(),
    };
    match config.text_of("proguardVersion") {
        Some(version) => {
            report.migrated(cat2("obfuscate.version = ", version));
            tell_options(&options, report);
            out.obfuscate = Some(
                ObfuscateConfig {
                    version: version.to_owned(),
                    keep: none_of(),
                    proguard_args: options,
                },
            );
        },
        None => {
            report.review(
                "proguard-maven-plugin — set obfuscate.version to the ProGuard release to pin, then run `jrs package --obfuscate` (it has no <proguardVersion>)".to_owned(),
            );
        },
    }
}

// ---- languages -------------------------------------------------------------

/// The version of the plugin of that artifact among `<plugins>`.
pub open spec fn version_in(plugins: Option<ElementModel>, artifact: Seq<char>) -> Option<Seq<char>> {
    match plugins {
        Some(p) => match plugin_element_from(p.children_named("plugin"@), artifact, 0) {
            Some(e) => e.text_of("version"@),
            None => None,
        },
        None => None,
    }
}

fn find_version_in<'a>(plugins: Option<&'a Element>, artifact: &str) -> (r: Option<&'a str>)
    ensures
        r.deep_view() == version_in(plugins.deep_view(), artifact@),
{
    match plugins {
        Some(p) => match find_plugin_element(&p.children_named("plugin"), artifact) {
            Some(e) => e.text_of("version"),
            None => None,
        },
        None => None,
    }
}

/// The version of a plugin in the POMs from the `i`th on: from `<plugins>`,
/// else from `<pluginManagement>`, nearest POM first.
pub open spec fn plugin_version_from(chain: Seq<PomModel>, artifact: Seq<char>, i: int) -> Option<
    Seq<char>,
>
    decreases chain.len() - i,
{
    if i < 0 || i >= chain.len() {
        None
    } else {
        let version = match chain[i].root.child("build"@) {
            Some(build) => or_else(
                version_in(build.child("plugins"@), artifact),
                version_in(build.grandchild("pluginManagement"@, "plugins"@), artifact),
            ),
            None => None,
        };
        match version {
            Some(v) => Some(v),
            None => plugin_version_from(chain, artifact, i + 1),
        }
    }
}

/// A plugin's `<version>`, which `PluginInfo` does not keep: from `<plugins>`,
/// else from `<pluginManagement>`, nearest POM first. Not yet interpolated.
pub fn plugin_version<'a>(chain: &'a Vec<Pom>, artifact: &str) -> (r: Option<&'a str>)
    ensures
        r.deep_view() == plugin_version_from(chain.deep_view(), artifact@, 0),
{
    let ghost all = chain.deep_view();
    let mut i: usize = 0;
    while i < chain.len()
        invariant
            all == chain.deep_view(),
            i <= chain@.len(),
            plugin_version_from(all, artifact@, 0) == plugin_version_from(
                all,
                artifact@,
                i as int,
            ),
        decreases chain@.len() - i,
    {
        assert(all[i as int] == chain@[i as int].deep_view());
        if let Some(build) = chain[i].root.child("build") {
            if let Some(v) = find_version_in(build.child("plugins"), artifact) {
                return Some(v);
            }
            if let Some(v) = find_version_in(
                build.grandchild("pluginManagement", "plugins"),
                artifact,
            ) {
                return Some(v);
            }
        }
        i = i + 1;
    }
    None
}

/// The manifest and the report once Kotlin's target is read.
pub open spec fn jvm_target_read(
    kotlin: PluginModel,
    props: Properties,
    m: ManifestModel,
    told: ReportModel,
) -> (ManifestModel, ReportModel) {
    let named = match kotlin.configuration {
        Some(c) => c.text_of("jvmTarget"@),
        None => None,
    };
    match or_else(named, property(props, "kotlin.compiler.jvmTarget"@)) {
        None => (m, told),
        Some(t) => {
            let raw = interpolated(t, props);
            match release_of(raw) {
                None => (
                    m,
                    told.with_review(
                        "kotlin-maven-plugin <jvmTarget>"@ + raw
                            + "</jvmTarget> could not be read as a Java release; java.source was not set from it"@,
                    ),
                ),
                Some(n) => match m.java.source {
                    None => (
                        ManifestModel { java: JavaModel { source: Some(n as u32), ..m.java }, ..m },
                        told.with_migrated(
                            "java.source = "@ + decimal(n)
                                + " (from kotlin-maven-plugin <jvmTarget>)"@,
                        ),
                    ),
                    Some(source) => if n != source {
                        (
                            m,
                            told.with_review(
                                "kotlin-maven-plugin <jvmTarget>"@ + decimal(n)
                                    + "</jvmTarget> — java.source is "@ + decimal(source as nat)
                                    + ", and jrs compiles Java and Kotlin for that one release"@,
                            ),
                        )
                    } else {
                        (m, told)
                    },
                },
            }
        },
    }
}

fn read_jvm_target(
    kotlin: &PluginInfo,
    effective: &Effective,
    out: &mut Manifest,
    report: &mut Report,
)
    ensures
        (final(out).deep_view(), final(report).deep_view()) == jvm_target_read(
            kotlin.deep_view(),
            effective.deep_view().properties,
            old(out).deep_view(),
            old(report).deep_view(),
        ),
{
    let named = match &kotlin.configuration {
        Some(c) => c.text_of("jvmTarget"),
        None => None,
    };
    let target = match named {
        Some(t) => Some(t),
        None => effective.property("kotlin.compiler.jvmTarget"),
    };
    let Some(t) = target else {
        return ;
    };
    let raw = interpolate(t, &effective.properties);
    match (parse_release(raw.as_str()), out.java.source) {
        (Some(n), None) => {
            out.java.source = Some(n);
            report.migrated(
                cat3(
                    "java.source = ",
                    show(n as u128).as_str(),
                    " (from kotlin-maven-plugin <jvmTarget>)",
                ),
            );
        },
        (Some(n), Some(source)) => {
            if n != source {
                report.review(
                    cat5(
                        "kotlin-maven-plugin <jvmTarget>",
                        show(n as u128).as_str(),
                        "</jvmTarget> — java.source is ",
                        show(source as u128).as_str(),
                        ", and jrs compiles Java and Kotlin for that one release",
                    ),
                );
            }
        },
        (None, _) => {
            report.review(
                cat3(
                    "kotlin-maven-plugin <jvmTarget>",
                    raw.as_str(),
                    "</jvmTarget> could not be read as a Java release; java.source was not set from it",
                ),
            );
        },
    }
}

/// The report of the compiler plugins from the `i`th on, each once.
pub open spec fn compiler_plugins_told(
    names: Seq<Seq<char>>,
    i: int,
    seen: Seq<Seq<char>>,
    told: ReportModel,
) -> ReportModel
    decreases names.len() - i,
{
    if i < 0 || i >= names.len() {
        told
    } else if seen.contains(names[i]) {
        compiler_plugins_told(names, i + 1, seen, told)
    } else {
        compiler_plugins_told(
            names,
            i + 1,
            seen.push(names[i]),
            told.with_skipped(
                "kotlin-maven-plugin compiler plugin `"@ + names[i] + "`"@ + " — "@
                    + compiler_plugin_use(names[i])
                    + ", and jrs runs kotlinc without compiler plugins"@,
            ),
        )
    }
}

fn tell_compiler_plugins(names: &Vec<String>, report: &mut Report)
    ensures
        final(report).deep_view() == compiler_plugins_told(
            names.deep_view(),
            0,
            seq![],
            old(report).deep_view(),
        ),
{
    let ghost all = names.deep_view();
    let ghost start = report.deep_view();
    let mut seen: Vec<String> = none_of();
    let mut i: usize = 0;
    while i < names.len()
        invariant
            all == names.deep_view(),
            i <= names@.len(),
            compiler_plugins_told(all, 0, seq![], start) == compiler_plugins_told(
                all,
                i as int,
                seen.deep_view(),
                report.deep_view(),
            ),
        decreases names@.len() - i,
    {
        assert(all[i as int] == names@[i as int]@);
        let name = names[i].as_str();
        if !listed(&seen, name) {
            report_compiler_plugin(
                name,
                cat3("kotlin-maven-plugin compiler plugin `", name, "`").as_str(),
                report,
            );
            put(&mut seen, name.to_owned());
        }
        i = i + 1;
    }
}

/// Some execution from the `i`th on runs the goal.
pub open spec fn runs_goal(executions: Seq<ElementModel>, goal: Seq<char>, i: int) -> bool
    decreases executions.len() - i,
{
    if i < 0 || i >= executions.len() {
        false
    } else {
        full_texts(executions[i].list("goals"@, "goal"@), 0, seq![]).contains(goal) || runs_goal(
            executions,
            goal,
            i + 1,
        )
    }
}

fn does_run_goal(executions: &Vec<Element>, goal: &str) -> (r: bool)
    ensures
        r == runs_goal(executions.deep_view(), goal@, 0),
{
    let ghost all = executions.deep_view();
    let mut i: usize = 0;
    while i < executions.len()
        invariant
            all == executions.deep_view(),
            i <= executions@.len(),
            runs_goal(all, goal@, 0) == runs_goal(all, goal@, i as int),
        decreases executions@.len() - i,
    {
        assert(all[i as int] == executions@[i as int].deep_view());
        let goals = read_full_texts(&executions[i].list("goals", "goal"));
        if listed(&goals, goal) {
            return true;
        }
        i = i + 1;
    }
    false
}

/// The arguments of Kotlin's compiler from the `i`th on, each once, after
/// those before, and the report.
pub open spec fn kotlinc_args_from(
    list: Seq<ElementModel>,
    i: int,
    props: Properties,
    args: Seq<Seq<char>>,
    told: ReportModel,
) -> (Seq<Seq<char>>, ReportModel)
    decreases list.len() - i,
{
    if i < 0 || i >= list.len() {
        (args, told)
    } else {
        let arg = interpolated(trimmed(list[i].text), props);
        if arg.len() == 0 {
            kotlinc_args_from(list, i + 1, props, args, told)
        } else if within(arg, "${"@) {
            kotlinc_args_from(
                list,
                i + 1,
                props,
                args,
                told.with_skipped(
                    "kotlin-maven-plugin <arg>"@ + arg
                        + "</arg> — the property did not interpolate"@,
                ),
            )
        } else {
            kotlinc_args_from(list, i + 1, props, once_more(args, arg), told)
        }
    }
}

fn gather_kotlinc_args(
    list: &Vec<&Element>,
    props: &Vec<(String, String)>,
    report: &mut Report,
) -> (r: Vec<String>)
    ensures
        (r.deep_view(), final(report).deep_view()) == kotlinc_args_from(
            list.deep_view(),
            0,
            props.deep_view(),
            seq![],
            old(report).deep_view(),
        ),
{
    let ghost all = list.deep_view();
    let ghost p = props.deep_view();
    let ghost start = report.deep_view();
    let mut args: Vec<String> = none_of();
    let mut i: usize = 0;
    while i < list.len()
        invariant
            all == list.deep_view(),
            p == props.deep_view(),
            i <= list@.len(),
            kotlinc_args_from(all, 0, p, seq![], start) == kotlinc_args_from(
                all,
                i as int,
                p,
                args.deep_view(),
                report.deep_view(),
            ),
        decreases list@.len() - i,
    {
        assert(all[i as int] == list@[i as int].deep_view());
        let arg = interpolate(list[i].trimmed(), props);
        if !arg.as_str().is_empty() {
            if contains(arg.as_str(), "${") {
                report.skipped(
                    cat3(
                        "kotlin-maven-plugin <arg>",
                        arg.as_str(),
                        "</arg> — the property did not interpolate",
                    ),
                );
            } else if !listed(&args, arg.as_str()) {
                put(&mut args, arg);
            }
        }
        i = i + 1;
    }
    args
}

/// The manifest and the report once the arguments of Kotlin's compiler are
/// read.
pub open spec fn kotlinc_args_read(
    configs: Seq<ElementModel>,
    props: Properties,
    m: ManifestModel,
    told: ReportModel,
) -> (ManifestModel, ReportModel) {
    let (args, told) = kotlinc_args_from(
        listed_in(configs, "args"@, 0, seq![]),
        0,
        props,
        seq![],
        told,
    );
    match language_place(m.languages, Language::Kotlin, 0) {
        Some(i) if args.len() > 0 => (
            ManifestModel {
                languages: m.languages.update(
                    i,
                    LanguageModel { compiler_args: args, ..m.languages[i] },
                ),
                ..m
            },
            told.with_migrated(
                "[kotlin] kotlinc-args = "@ + debug_list_form(args)
                    + " (from kotlin-maven-plugin <args>)"@,
            ),
        ),
        _ => (m, told),
    }
}

/// kotlin-maven-plugin's `<args><arg>-Xjsr305=strict</arg></args>`, as
/// start.spring.io writes it, in the plugin's configuration or an
/// execution's → `[kotlin] kotlinc-args`, each argument once.
fn read_kotlinc_args(
    configurations: &Vec<&Element>,
    effective: &Effective,
    out: &mut Manifest,
    report: &mut Report,
)
    ensures
        (final(out).deep_view(), final(report).deep_view()) == kotlinc_args_read(
            configurations.deep_view(),
            effective.deep_view().properties,
            old(out).deep_view(),
            old(report).deep_view(),
        ),
{
    let list = list_in(configurations, "args");
    let args = gather_kotlinc_args(&list, &effective.properties, report);
    if args.len() == 0 {
        return ;
    }
    if let Some(i) = find_language(&out.languages, Language::Kotlin) {
        report.migrated(
            cat3(
                "[kotlin] kotlinc-args = ",
                debug_list(&args).as_str(),
                " (from kotlin-maven-plugin <args>)",
            ),
        );
        let ghost before = out.languages.deep_view();
        let mut config = out.languages.remove(i);
        assert(config.deep_view() == before[i as int]);
        config.compiler_args = args;
        let ghost changed = config.deep_view();
        out.languages.insert(i, config);
        assert(out.languages.deep_view() =~= before.update(i as int, changed));
    }
}

/// The manifest and the report once kotlin-maven-plugin is read.
pub open spec fn kotlin_read(
    chain: Seq<PomModel>,
    kotlin: PluginModel,
    props: Properties,
    m: ManifestModel,
    told: ReportModel,
) -> (ManifestModel, ReportModel) {
    let (m, told) = match plugin_version_from(chain, "kotlin-maven-plugin"@, 0) {
        Some(v) => with_language(
            m,
            told,
            Language::Kotlin,
            interpolated(v, props),
            "kotlin-maven-plugin"@,
        ),
        None => with_library_language(m, told, Language::Kotlin, "kotlin-maven-plugin"@),
    };
    let (m, told) = jvm_target_read(kotlin, props, m, told);
    let configs = all_configs(kotlin);
    let told = compiler_plugins_told(
        full_texts(listed_in(configs, "compilerPlugins"@, 0, seq![]), 0, seq![]),
        0,
        seq![],
        told,
    );
    let told = if runs_goal(kotlin.executions, "kapt"@, 0) {
        told.with_skipped(
            "kotlin-maven-plugin's `kapt` goal"@ + " — "@ + compiler_plugin_use("kapt"@)
                + ", and jrs runs kotlinc without compiler plugins"@,
        )
    } else {
        told
    };
    kotlinc_args_read(configs, props, m, told)
}

/// kotlin-maven-plugin: its version is the compiler's, `<jvmTarget>` is the
/// release when nothing else set one, and its compiler plugins and kapt are
/// reported.
fn read_kotlin(
    chain: &Vec<Pom>,
    effective: &Effective,
    kotlin: &PluginInfo,
    out: &mut Manifest,
    report: &mut Report,
)
    ensures
        (final(out).deep_view(), final(report).deep_view()) == kotlin_read(
            chain.deep_view(),
            kotlin.deep_view(),
            effective.deep_view().properties,
            old(out).deep_view(),
            old(report).deep_view(),
        ),
{
    match plugin_version(chain, "kotlin-maven-plugin") {
        Some(v) => {
            let version = interpolate(v, &effective.properties);
            enable_language(
                out,
                Language::Kotlin,
                version.as_str(),
                "kotlin-maven-plugin",
                report,
            );
        },
        None => {
            enable_from_library(out, Language::Kotlin, "kotlin-maven-plugin", report);
        },
    }
    read_jvm_target(kotlin, effective, out, report);
    // `<compilerPlugins>` sits under the plugin's configuration or an
    // execution's, as shade's transformers do.
    let configs = list_all_configs(kotlin);
    let names = read_full_texts(&list_in(&configs, "compilerPlugins"));
    tell_compiler_plugins(&names, report);
    if does_run_goal(&kotlin.executions, "kapt") {
        report_compiler_plugin("kapt", "kotlin-maven-plugin's `kapt` goal", report);
    }
    read_kotlinc_args(&configs, effective, out, report);
}

/// The manifest and the report once the languages are read.
pub open spec fn languages_read(
    chain: Seq<PomModel>,
    pom: PomModel,
    props: Properties,
    m: ManifestModel,
    told: ReportModel,
) -> (ManifestModel, ReportModel) {
    let (m, told) = match plugin_in(pom, "kotlin-maven-plugin"@) {
        Some(kotlin) => kotlin_read(chain, kotlin, props, m, told),
        None => (m, told),
    };
    let (m, told) = match plugin_in(pom, "scala-maven-plugin"@) {
        Some(scala) => {
            let configured = match scala.configuration {
                Some(c) => filled_text(c, "scalaVersion"@, props),
                None => None,
            };
            match configured {
                Some(version) => with_language(
                    m,
                    told,
                    Language::Scala,
                    version,
                    "scala-maven-plugin <scalaVersion>"@,
                ),
                None => with_library_language(m, told, Language::Scala, "scala-maven-plugin"@),
            }
        },
        None => (m, told),
    };
    let (m, told) = match plugin_in(pom, "gmavenplus-plugin"@) {
        Some(_) => with_library_language(m, told, Language::Groovy, "gmavenplus-plugin"@),
        None => (m, told),
    };
    let (kept, told) = unimplied_from(m.dependencies, m.languages, 0, seq![], told);
    (ManifestModel { dependencies: kept, ..m }, told)
}

/// The compiler plugins for Kotlin, Scala and Groovy turn their language on,
/// and the runtime library each then implies is taken out of
/// `[dependencies]`.
pub fn read_languages(
    chain: &Vec<Pom>,
    pom: &Pom,
    effective: &Effective,
    out: &mut Manifest,
    report: &mut Report,
)
    ensures
        (final(out).deep_view(), final(report).deep_view()) == languages_read(
            chain.deep_view(),
            pom.deep_view(),
            effective.deep_view().properties,
            old(out).deep_view(),
            old(report).deep_view(),
        ),
{
    if let Some(kotlin) = plugin(pom, "kotlin-maven-plugin") {
        read_kotlin(chain, effective, kotlin, out, report);
    }
    if let Some(scala) = plugin(pom, "scala-maven-plugin") {
        let configured = match &scala.configuration {
            Some(c) => read_filled(c, "scalaVersion", &effective.properties),
            None => None,
        };
        match configured {
            Some(version) => {
                enable_language(
                    out,
                    Language::Scala,
                    version.as_str(),
                    "scala-maven-plugin <scalaVersion>",
                    report,
                );
            },
            None => {
                enable_from_library(out, Language::Scala, "scala-maven-plugin", report);
            },
        }
    }
    if plugin(pom, "gmavenplus-plugin").is_some() {
        enable_from_library(out, Language::Groovy, "gmavenplus-plugin", report);
    }
    drop_implied_libraries(out, report);
}

// ---- tests -----------------------------------------------------------------

/// The arguments with the system properties from the `i`th on.
pub open spec fn with_system_properties(
    list: Seq<ElementModel>,
    i: int,
    props: Properties,
    args: Seq<Seq<char>>,
) -> Seq<Seq<char>>
    decreases list.len() - i,
{
    if i < 0 || i >= list.len() {
        args
    } else {
        with_system_properties(
            list,
            i + 1,
            props,
            args.push(
                "-D"@ + list[i].name + "="@ + interpolated(trimmed(list[i].text), props),
            ),
        )
    }
}

fn add_system_properties(e: &Element, props: &Vec<(String, String)>, args: &mut Vec<String>)
    ensures
        final(args).deep_view() == with_system_properties(
            e.deep_view().children,
            0,
            props.deep_view(),
            old(args).deep_view(),
        ),
{
    let ghost all = e.children.deep_view();
    let ghost p = props.deep_view();
    let ghost start = args.deep_view();
    proof {
        lemma_children(*e);
    }
    let mut i: usize = 0;
    while i < e.children.len()
        invariant
            all == e.children.deep_view(),
            p == props.deep_view(),
            i <= e.children@.len(),
            with_system_properties(all, 0, p, start) == with_system_properties(
                all,
                i as int,
                p,
                args.deep_view(),
            ),
        decreases e.children@.len() - i,
    {
        let c = &e.children[i];
        assert(all[i as int] == c.deep_view());
        proof {
            lemma_children(*c);
        }
        let value = interpolate(c.trimmed(), props);
        put(args, cat4("-D", c.name.as_str(), "=", value.as_str()));
        i = i + 1;
    }
}

/// The arguments of the test JVM, and the report.
pub open spec fn test_args_of(config: ElementModel, props: Properties, told: ReportModel) -> (
    Seq<Seq<char>>,
    ReportModel,
) {
    let (args, told) = match filled_text(config, "argLine"@, props) {
        Some(line) => if within(line, "${"@) || within(line, "@{"@) {
            (
                seq![],
                told.with_skipped(
                    "surefire <argLine>"@ + line
                        + "</argLine> — refers to a property another plugin sets at build time; use `jrs test --coverage` for JaCoCo"@,
                ),
            )
        } else {
            (arguments_of(line), told)
        },
        None => (seq![], told),
    };
    match config.child("systemPropertyVariables"@) {
        Some(list) => (with_system_properties(list.children, 0, props, args), told),
        None => (args, told),
    }
}

fn read_test_args(config: &Element, props: &Vec<(String, String)>, report: &mut Report) -> (r: Vec<
    String,
>)
    ensures
        (r.deep_view(), final(report).deep_view()) == test_args_of(
            config.deep_view(),
            props.deep_view(),
            old(report).deep_view(),
        ),
{
    let mut args: Vec<String> = match read_filled(config, "argLine", props) {
        Some(line) => {
            let l = line.as_str();
            if contains(l, "${") || contains(l, "@{") {
                // Usually `@{argLine}`, filled in at build time by JaCoCo's
                // plugin.
                report.skipped(
                    cat3(
                        "surefire <argLine>",
                        l,
                        "</argLine> — refers to a property another plugin sets at build time; use `jrs test --coverage` for JaCoCo",
                    ),
                );
                none_of()
            } else {
                split_arguments(l)
            }
        },
        None => none_of(),
    };
    if let Some(list) = config.child("systemPropertyVariables") {
        add_system_properties(list, props, &mut args);
    }
    args
}

/// The manifest and the report once the number of test JVMs is read.
pub open spec fn forks_read(
    config: ElementModel,
    props: Properties,
    m: ManifestModel,
    told: ReportModel,
) -> (ManifestModel, ReportModel) {
    let (m, told) = match filled_text(config, "forkCount"@, props) {
        None => (m, told),
        Some(count) => match number(count, u32::MAX as nat) {
            Some(n) => if n == 1 {
                (m, told)
            } else if n == 0 {
                (
                    m,
                    told.with_review(
                        "surefire <forkCount>0</forkCount> runs the tests inside Maven's own JVM; jrs runs them in a test JVM of their own"@,
                    ),
                )
            } else {
                (
                    ManifestModel { test: TestModel { forks: n as u32, ..m.test }, ..m },
                    told.with_migrated(
                        "test.forks = "@ + decimal(n) + " (from surefire <forkCount>)"@,
                    ),
                )
            },
            None => if ends(count, "C"@) {
                (
                    m,
                    told.with_skipped(
                        "surefire <forkCount>"@ + count
                            + "</forkCount> — so many JVMs per CPU core, which depends on the machine; set test.forks to a number"@,
                    ),
                )
            } else {
                (
                    m,
                    told.with_skipped(
                        "surefire <forkCount>"@ + count
                            + "</forkCount> — not a number of test JVMs"@,
                    ),
                )
            },
        },
    };
    (
        m,
        if config.text_of("reuseForks"@) == Some("false"@) {
            told.with_skipped(
                "surefire <reuseForks>false</reuseForks> — a fresh JVM for every test class; jrs starts each test JVM once, for its whole share of the classes"@,
            )
        } else {
            told
        },
    )
}

/// surefire's `<forkCount>` → `test.forks`. `<reuseForks>false</reuseForks>`,
/// a fresh JVM for every test class, has no counterpart.
fn read_forks(effective: &Effective, config: &Element, out: &mut Manifest, report: &mut Report)
    ensures
        (final(out).deep_view(), final(report).deep_view()) == forks_read(
            config.deep_view(),
            effective.deep_view().properties,
            old(out).deep_view(),
            old(report).deep_view(),
        ),
{
    if let Some(count) = read_filled(config, "forkCount", &effective.properties) {
        let c = count.as_str();
        match parse_u32(c) {
            Some(n) => {
                // One is Maven's default, and jrs's.
                if n == 0 {
                    report.review(
                        "surefire <forkCount>0</forkCount> runs the tests inside Maven's own JVM; jrs runs them in a test JVM of their own".to_owned(),
                    );
                } else if n > 1 {
                    out.test.forks = n;
                    report.migrated(
                        cat3(
                            "test.forks = ",
                            show(n as u128).as_str(),
                            " (from surefire <forkCount>)",
                        ),
                    );
                }
            },
            None => {
                if ends_with(c, "C") {
                    report.skipped(
                        cat3(
                            "surefire <forkCount>",
                            c,
                            "</forkCount> — so many JVMs per CPU core, which depends on the machine; set test.forks to a number",
                        ),
                    );
                } else {
                    report.skipped(
                        cat3(
                            "surefire <forkCount>",
                            c,
                            "</forkCount> — not a number of test JVMs",
                        ),
                    );
                }
            },
        }
    }
    if let Some(t) = config.text_of("reuseForks") {
        if same(t, "false") {
            report.skipped(
                "surefire <reuseForks>false</reuseForks> — a fresh JVM for every test class; jrs starts each test JVM once, for its whole share of the classes".to_owned(),
            );
        }
    }
}

/// The manifest and the report once the settings of tests are read.
pub open spec fn test_read(pom: PomModel, props: Properties, m: ManifestModel, told: ReportModel) -> (
    ManifestModel,
    ReportModel,
) {
    match plugin_config(pom, "maven-surefire-plugin"@) {
        None => (m, told),
        Some(config) => {
            let (args, told) = test_args_of(config, props, told);
            let (m, told) = if args.len() > 0 {
                (
                    ManifestModel { test: TestModel { jvm_args: args, ..m.test }, ..m },
                    told.with_migrated(
                        "test.jvm-args = "@ + debug_list_form(args)
                            + " (from maven-surefire-plugin)"@,
                    ),
                )
            } else {
                (m, told)
            };
            forks_read(config, props, m, told)
        },
    }
}

/// `maven-surefire-plugin`'s `<argLine>` and `<systemPropertyVariables>` are
/// the test JVM's arguments.
pub fn read_test_settings(effective: &Effective, pom: &Pom, out: &mut Manifest, report: &mut Report)
    ensures
        (final(out).deep_view(), final(report).deep_view()) == test_read(
            pom.deep_view(),
            effective.deep_view().properties,
            old(out).deep_view(),
            old(report).deep_view(),
        ),
{
    let Some(config) = find_config(pom, "maven-surefire-plugin") else {
        return ;
    };
    let args = read_test_args(config, &effective.properties, report);
    if args.len() > 0 {
        report.migrated(
            cat3(
                "test.jvm-args = ",
                debug_list(&args).as_str(),
                " (from maven-surefire-plugin)",
            ),
        );
        out.test.jvm_args = args;
    }
    read_forks(effective, config, out, report);
}

} // verus!
