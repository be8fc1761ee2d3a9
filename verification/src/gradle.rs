//! `build.gradle` / `build.gradle.kts` → `jrs.toml`.
//!
//! Gradle build scripts are programs, so parsing one exactly would mean running
//! Gradle. jrs does not. What happens instead is line-oriented pattern extraction
//! over the conventional declarative subset, and everything jrs cannot read
//! confidently is reported rather than guessed at.
//!
//! Version catalogs are the exception to "programs are unreadable": a
//! `libs.versions.toml` is declarative, so `libs.foo.bar` references are resolved
//! through it.

use crate::check::tasks_fault;
use crate::coord::Ga;
use crate::debug::{debug_list, debug_list_form};
use crate::dependency::{Dependency, DependencyModel};
use crate::gradle_catalog::{catalog_read, read_catalog};
use crate::gradle_deps::{dependencies_read, read_dependencies};
use crate::gradle_env::{blocks_read, read_jvm_environment};
use crate::gradle_files::{Files, FilesModel};
use crate::gradle_jar::{jar_manifest_read, read_jar_manifest};
use crate::gradle_lex::statements_of;
use crate::gradle_managed::{managed_read, read_managed};
use crate::gradle_manifest::{gradle_words, migrated_builds_load};
use crate::gradle_plugins::{
    compiler_plugin, is_kotlin_line, kotlin_compiler_plugin, kotlin_line, kotlin_read,
    language_plugin, library_languages, plugin_language, plugins_of, proguard_read, read_kotlin,
    read_library_languages, read_plugins, read_proguard, Plugin, PluginModel,
};
use crate::gradle_repos::repositories_of;
use crate::gradle_tasks::tasks_read;
use crate::gradle_text::{
    as_number, assigned_in, assignment, blocks_where, depth_next, first_of, first_quoted, java_of,
    java_version, lines_inside, literals_of, next_depth, number_after, number_past, parse_u32,
    quoted, sans_comments, set_on, setting, strip_comments, Block, BlockModel,
};
use crate::manifest::{
    blank, blank_manifest, JavaModel, Manifest, ManifestModel, RunModel, TestModel,
};
use crate::migration::{Migration, MigrationModel, Source};
use crate::report::{empty_report, Report, ReportModel};
use crate::reread_manifest::good_manifest;
use crate::text::{
    cat2, cat3, cat4, cat5, cat7, contains, decimal, join, joined, line_seq, lines, none_of, number,
    put, put_all, same, show, small, starts, starts_with, to_small, trim, trimmed, within,
};
use vstd::prelude::*;

verus! {

pub const PREAMBLE: &'static str =
    "Gradle migration is approximate. jrs reads the declarative parts of a build script by pattern, not by running Gradle, so review the manifest below before relying on it.";

// ---- settings.gradle -------------------------------------------------------

/// What `settings.gradle` says.
#[derive(Debug)]
pub struct Settings {
    pub root_project_name: Option<String>,
    pub includes: Vec<String>,
}

/// What `settings.gradle` says.
pub struct SettingsModel {
    pub root_project_name: Option<Seq<char>>,
    pub includes: Seq<Seq<char>>,
}

impl DeepView for Settings {
    type V = SettingsModel;

    open spec fn deep_view(&self) -> SettingsModel {
        SettingsModel {
            root_project_name: self.root_project_name.deep_view(),
            includes: self.includes.deep_view(),
        }
    }
}

/// What the lines from the `i`th on say, after what those before say.
pub open spec fn settings_from(
    lines: Seq<Seq<char>>,
    i: int,
    file: Seq<char>,
    s: SettingsModel,
    told: ReportModel,
) -> (SettingsModel, ReportModel)
    decreases lines.len() - i,
{
    if i < 0 || i >= lines.len() {
        (s, told)
    } else {
        let line = trimmed(lines[i]);
        if starts(line, "rootProject.name"@) {
            match first_of(line) {
                Some(value) => settings_from(
                    lines,
                    i + 1,
                    file,
                    SettingsModel { root_project_name: Some(value), ..s },
                    told.with_migrated(
                        "rootProject.name = "@ + value + " (from "@ + file + ")"@,
                    ),
                ),
                None => settings_from(lines, i + 1, file, s, told),
            }
        } else if starts(line, "include"@) {
            settings_from(
                lines,
                i + 1,
                file,
                SettingsModel { includes: s.includes + literals_of(line), ..s },
                told,
            )
        } else {
            settings_from(lines, i + 1, file, s, told)
        }
    }
}

/// What the settings say, in Groovy or else in Kotlin.
pub open spec fn settings_read(
    groovy: Option<Seq<char>>,
    kotlin: Option<Seq<char>>,
    told: ReportModel,
) -> (SettingsModel, ReportModel) {
    let none = SettingsModel { root_project_name: None, includes: seq![] };
    match groovy {
        Some(text) => settings_from(
            line_seq(sans_comments(text)),
            0,
            "settings.gradle"@,
            none,
            told,
        ),
        None => match kotlin {
            Some(text) => settings_from(
                line_seq(sans_comments(text)),
                0,
                "settings.gradle.kts"@,
                none,
                told,
            ),
            None => (none, told),
        },
    }
}

fn read_settings_text(text: &str, file: &str, report: &mut Report) -> (r: Settings)
    ensures
        (r.deep_view(), final(report).deep_view()) == settings_from(
            line_seq(sans_comments(text@)),
            0,
            file@,
            SettingsModel { root_project_name: None, includes: seq![] },
            old(report).deep_view(),
        ),
{
    let bare = strip_comments(text);
    let list = lines(bare.as_str());
    let ghost all = list.deep_view();
    let ghost none = SettingsModel { root_project_name: None, includes: seq![] };
    let ghost start = report.deep_view();
    let mut s = Settings { root_project_name: None, includes: none_of() };
    let mut i: usize = 0;
    while i < list.len()
        invariant
            all == list.deep_view(),
            i <= list@.len(),
            settings_from(all, 0, file@, none, start) == settings_from(
                all,
                i as int,
                file@,
                s.deep_view(),
                report.deep_view(),
            ),
        decreases list@.len() - i,
    {
        assert(all[i as int] == list@[i as int]@);
        let line = trim(list[i]);
        if starts_with(line, "rootProject.name") {
            if let Some(value) = first_quoted(line) {
                report.migrated(
                    cat5("rootProject.name = ", value.as_str(), " (from ", file, ")"),
                );
                s.root_project_name = Some(value);
            }
        } else if starts_with(line, "include") {
            put_all(&mut s.includes, quoted(line));
        }
        i = i + 1;
    }
    s
}

/// The settings of a build: `settings.gradle`'s text, or else
/// `settings.gradle.kts`'s.
pub fn read_settings(groovy: Option<&str>, kotlin: Option<&str>, report: &mut Report) -> (r: Settings)
    ensures
        (r.deep_view(), final(report).deep_view()) == settings_read(
            groovy.deep_view(),
            kotlin.deep_view(),
            old(report).deep_view(),
        ),
{
    if let Some(text) = groovy {
        return read_settings_text(text, "settings.gradle", report);
    }
    if let Some(text) = kotlin {
        return read_settings_text(text, "settings.gradle.kts", report);
    }
    Settings { root_project_name: None, includes: none_of() }
}

// ---- Java ------------------------------------------------------------------

/// The first line from the `i`th on that sets the toolchain's version, and is
/// none of the `kotlin { }` extension's: a toolchain there pins the JDK, not
/// the release. `depth` is how deep inside `kotlin { }` the scan is.
pub open spec fn toolchain_from(lines: Seq<Seq<char>>, i: int, depth: int) -> Option<Seq<char>>
    decreases lines.len() - i,
{
    if i < 0 || i >= lines.len() {
        None
    } else {
        let next = depth_next(BlockModel::Kotlin, depth, lines[i]);
        if !kotlin_line(lines[i]) && !(depth > 0 && next > 0) && within(
            lines[i],
            "languageVersion"@,
        ) && within(lines[i], "JavaLanguageVersion.of"@) {
            Some(lines[i])
        } else {
            toolchain_from(lines, i + 1, next)
        }
    }
}

fn find_toolchain(script: &str) -> (r: Option<&str>)
    ensures
        r.deep_view() == toolchain_from(line_seq(script@), 0, 0),
{
    let list = lines(script);
    let ghost all = list.deep_view();
    let kotlin = Block::Kotlin;
    let mut depth: u128 = 0;
    let mut i: usize = 0;
    while i < list.len()
        invariant
            all == list.deep_view(),
            all == line_seq(script@),
            kotlin.deep_view() == BlockModel::Kotlin,
            i <= list@.len(),
            depth <= i * 0xffff_ffff_ffff_ffff,
            toolchain_from(all, 0, 0) == toolchain_from(all, i as int, depth as int),
        decreases list@.len() - i,
    {
        assert(all[i as int] == list@[i as int]@);
        let next: u128 = next_depth(&kotlin, depth, list[i]);
        if !is_kotlin_line(list[i]) && !(depth > 0 && next > 0) && contains(
            list[i],
            "languageVersion",
        ) && contains(list[i], "JavaLanguageVersion.of") {
            return Some(list[i]);
        }
        depth = next;
        i = i + 1;
    }
    None
}

/// The release that a script compiles for.
pub open spec fn source_of(script: Seq<char>) -> Option<nat> {
    let toolchain = match toolchain_from(line_seq(script), 0, 0) {
        Some(line) => number_past(line, "JavaLanguageVersion.of"@),
        None => None,
    };
    match toolchain {
        Some(n) => Some(n),
        None => match assigned_in(script, "sourceCompatibility"@) {
            Some(v) => java_of(v),
            None => None,
        },
    }
}

fn find_source(script: &str) -> (r: Option<u32>)
    ensures
        as_number(r) == source_of(script@),
{
    let toolchain = match find_toolchain(script) {
        Some(line) => number_after(line, "JavaLanguageVersion.of"),
        None => None,
    };
    match toolchain {
        Some(n) => Some(n),
        None => match assignment(script, "sourceCompatibility") {
            Some(v) => java_version(v.as_str()),
            None => None,
        },
    }
}

/// The release that a script targets.
pub open spec fn release_of(script: Seq<char>) -> Option<nat> {
    match assigned_in(script, "targetCompatibility"@) {
        Some(v) => java_of(v),
        None => None,
    }
}

/// The manifest and the report once the releases are read.
pub open spec fn java_read(script: Seq<char>, m: ManifestModel, told: ReportModel) -> (
    ManifestModel,
    ReportModel,
) {
    let (m, told) = match source_of(script) {
        Some(n) => (
            ManifestModel { java: JavaModel { source: Some(n as u32), ..m.java }, ..m },
            told.with_migrated("java.source = "@ + decimal(n)),
        ),
        None => (m, told),
    };
    match release_of(script) {
        Some(n) => if as_number(m.java.source) == Some(n) {
            (m, told)
        } else {
            (
                ManifestModel { java: JavaModel { target: Some(n as u32), ..m.java }, ..m },
                told.with_migrated("java.target = "@ + decimal(n)),
            )
        },
        None => (m, told),
    }
}

/// The releases a script compiles for: its toolchain's, `sourceCompatibility`
/// and `targetCompatibility`.
pub fn read_java(script: &str, out: &mut Manifest, report: &mut Report)
    ensures
        (final(out).deep_view(), final(report).deep_view()) == java_read(
            script@,
            old(out).deep_view(),
            old(report).deep_view(),
        ),
{
    if let Some(n) = find_source(script) {
        out.java.source = Some(n);
        report.migrated(cat2("java.source = ", show(n as u128).as_str()));
    }
    let target = match assignment(script, "targetCompatibility") {
        Some(v) => java_version(v.as_str()),
        None => None,
    };
    if let Some(n) = target {
        if out.java.source != Some(n) {
            out.java.target = Some(n);
            report.migrated(cat2("java.target = ", show(n as u128).as_str()));
        }
    }
}

// ---- the main class --------------------------------------------------------

/// A line that sets the main class.
pub open spec fn main_line(line: Seq<char>) -> bool {
    starts(line, "mainClass"@) || starts(line, "mainClassName"@) || starts(line, "getMainClass()"@)
}

/// The main class that a line from the `i`th on names.
pub open spec fn main_from(lines: Seq<Seq<char>>, i: int) -> Option<Seq<char>>
    decreases lines.len() - i,
{
    if i < 0 || i >= lines.len() {
        None
    } else if main_line(trimmed(lines[i])) && first_of(trimmed(lines[i])) is Some {
        first_of(trimmed(lines[i]))
    } else {
        main_from(lines, i + 1)
    }
}

/// The manifest and the report once the main class is read.
pub open spec fn main_read(script: Seq<char>, m: ManifestModel, told: ReportModel) -> (
    ManifestModel,
    ReportModel,
) {
    match main_from(line_seq(script), 0) {
        Some(class) => (
            ManifestModel { main_class: Some(class), ..m },
            told.with_migrated("project.main-class = "@ + class),
        ),
        None => (m, told),
    }
}

/// The main class that a script names.
pub fn read_main_class(script: &str, out: &mut Manifest, report: &mut Report)
    ensures
        (final(out).deep_view(), final(report).deep_view()) == main_read(
            script@,
            old(out).deep_view(),
            old(report).deep_view(),
        ),
{
    let list = lines(script);
    let ghost all = list.deep_view();
    let mut i: usize = 0;
    while i < list.len()
        invariant
            all == list.deep_view(),
            all == line_seq(script@),
            out == old(out),
            report == old(report),
            i <= list@.len(),
            main_from(all, 0) == main_from(all, i as int),
        decreases list@.len() - i,
    {
        assert(all[i as int] == list@[i as int]@);
        let line = trim(list[i]);
        if starts_with(line, "mainClass") || starts_with(line, "mainClassName") || starts_with(
            line,
            "getMainClass()",
        ) {
            if let Some(class) = first_quoted(line) {
                report.migrated(cat2("project.main-class = ", class.as_str()));
                out.main_class = Some(class);
                return ;
            }
        }
        i = i + 1;
    }
}

// ---- JVM arguments ---------------------------------------------------------

/// The arguments from the `i`th on that name an agent, or where `!agents`
/// those that do not, after those before.
pub open spec fn agents_from(args: Seq<Seq<char>>, agents: bool, i: int, out: Seq<Seq<char>>) -> Seq<
    Seq<char>,
>
    decreases args.len() - i,
{
    if i < 0 || i >= args.len() {
        out
    } else if starts(args[i], "-javaagent:"@) == agents {
        agents_from(args, agents, i + 1, out.push(args[i]))
    } else {
        agents_from(args, agents, i + 1, out)
    }
}

/// The arguments that name an agent, or where `!agents` those that do not.
pub open spec fn parted(args: Seq<Seq<char>>, agents: bool) -> Seq<Seq<char>> {
    agents_from(args, agents, 0, seq![])
}

/// The `-javaagent:` arguments, or where `!agents` the others, in order.
fn take_java_agents(args: &Vec<String>, agents: bool) -> (r: Vec<String>)
    ensures
        r.deep_view() == parted(args.deep_view(), agents),
{
    let ghost all = args.deep_view();
    let mut out: Vec<String> = none_of();
    let mut i: usize = 0;
    while i < args.len()
        invariant
            all == args.deep_view(),
            i <= args@.len(),
            parted(all, agents) == agents_from(all, agents, i as int, out.deep_view()),
        decreases args@.len() - i,
    {
        assert(all[i as int] == args@[i as int]@);
        if starts_with(args[i].as_str(), "-javaagent:") == agents {
            put(&mut out, args[i].clone());
        }
        i = i + 1;
    }
    out
}

/// Mockito is among the dependencies.
pub open spec fn has_mockito(list: Seq<DependencyModel>) -> bool {
    exists|i: int|
        0 <= i < list.len() && (#[trigger] list[i]).group == "org.mockito"@ && list[i].artifact
            == "mockito-core"@
}

fn is_mockito_in(list: &Vec<Dependency>) -> (r: bool)
    ensures
        r == has_mockito(list.deep_view()),
{
    let ghost all = list.deep_view();
    let mut i: usize = 0;
    while i < list.len()
        invariant
            all == list.deep_view(),
            i <= list@.len(),
            forall|j: int|
                0 <= j < i ==> !((#[trigger] all[j]).group == "org.mockito"@ && all[j].artifact
                    == "mockito-core"@),
        decreases list@.len() - i,
    {
        assert(all[i as int] == list@[i as int].deep_view());
        if same(list[i].group.as_str(), "org.mockito") && same(
            list[i].artifact.as_str(),
            "mockito-core",
        ) {
            return true;
        }
        i = i + 1;
    }
    false
}

/// The list with Mockito's agent, which is not in it twice.
pub open spec fn with_mockito(agents: Seq<(Seq<char>, Seq<char>)>) -> Seq<(Seq<char>, Seq<char>)> {
    if agents.contains(("org.mockito"@, "mockito-core"@)) {
        agents
    } else {
        agents.push(("org.mockito"@, "mockito-core"@))
    }
}

fn add_mockito(agents: &mut Vec<Ga>)
    ensures
        final(agents).deep_view() == with_mockito(old(agents).deep_view()),
{
    let ghost all = agents.deep_view();
    let mut i: usize = 0;
    while i < agents.len()
        invariant
            agents == old(agents),
            all == agents.deep_view(),
            i <= agents@.len(),
            forall|j: int| 0 <= j < i ==> all[j] != ("org.mockito"@, "mockito-core"@),
        decreases agents@.len() - i,
    {
        assert(all[i as int] == agents@[i as int].deep_view());
        if same(agents[i].group.as_str(), "org.mockito") && same(
            agents[i].artifact.as_str(),
            "mockito-core",
        ) {
            assert(all.contains(("org.mockito"@, "mockito-core"@)));
            return ;
        }
        i = i + 1;
    }
    put(agents, Ga::new("org.mockito", "mockito-core"));
}

/// The section of the manifest.
pub open spec fn section(run: bool) -> Seq<char> {
    if run {
        "run"@
    } else {
        "test"@
    }
}

/// The manifest and the report once an agent of `run` or of `test` is read.
pub open spec fn with_agent(m: ManifestModel, told: ReportModel, run: bool, arg: Seq<char>) -> (
    ManifestModel,
    ReportModel,
) {
    let declared = has_mockito(m.dependencies) || (!run && has_mockito(m.dev_dependencies));
    if !(declared && within(small(arg), "mockito"@)) {
        (
            m,
            told.with_skipped(
                "`"@ + arg + "` in the "@ + section(run)
                    + " JVM's arguments — a path jrs cannot carry over; name the agent by `group:artifact` in `"@
                    + section(run) + ".java-agents`, and declare it as a dependency"@,
            ),
        )
    } else {
        (
            if run {
                ManifestModel {
                    run: RunModel { java_agents: with_mockito(m.run.java_agents), ..m.run },
                    ..m
                }
            } else {
                ManifestModel {
                    test: TestModel { java_agents: with_mockito(m.test.java_agents), ..m.test },
                    ..m
                }
            },
            told.with_migrated(
                section(run) + ".java-agents = [\"org.mockito:mockito-core\"] (from `"@ + arg
                    + "`)"@,
            ),
        )
    }
}

/// A `-javaagent:` argument names its jar by path, and in a Gradle build that
/// path is into Gradle's own cache, which a committed jrs.toml cannot name.
/// Mockito's documented recipe is the one jrs can translate: its agent is the
/// `mockito-core` jar the project already depends on, so `java-agents` names
/// that. Any other agent is reported.
fn translate_java_agent(run: bool, arg: &str, out: &mut Manifest, report: &mut Report)
    ensures
        (final(out).deep_view(), final(report).deep_view()) == with_agent(
            old(out).deep_view(),
            old(report).deep_view(),
            run,
            arg@,
        ),
{
    let section = if run {
        "run"
    } else {
        "test"
    };
    let declared = is_mockito_in(&out.dependencies) || (!run && is_mockito_in(
        &out.dev_dependencies,
    ));
    if !(declared && contains(to_small(arg).as_str(), "mockito")) {
        report.skipped(
            cat7(
                "`",
                arg,
                "` in the ",
                section,
                " JVM's arguments — a path jrs cannot carry over; name the agent by `group:artifact` in `",
                section,
                ".java-agents`, and declare it as a dependency",
            ),
        );
        return ;
    }
    if run {
        add_mockito(&mut out.run.java_agents);
    } else {
        add_mockito(&mut out.test.java_agents);
    }
    report.migrated(
        cat4(
            section,
            ".java-agents = [\"org.mockito:mockito-core\"] (from `",
            arg,
            "`)",
        ),
    );
}

/// The manifest and the report once the agents from the `i`th on are read.
pub open spec fn with_agents(
    agents: Seq<Seq<char>>,
    i: int,
    run: bool,
    m: ManifestModel,
    told: ReportModel,
) -> (ManifestModel, ReportModel)
    decreases agents.len() - i,
{
    if i < 0 || i >= agents.len() {
        (m, told)
    } else {
        let (m, told) = with_agent(m, told, run, agents[i]);
        with_agents(agents, i + 1, run, m, told)
    }
}

fn translate_agents(agents: &Vec<String>, run: bool, out: &mut Manifest, report: &mut Report)
    ensures
        (final(out).deep_view(), final(report).deep_view()) == with_agents(
            agents.deep_view(),
            0,
            run,
            old(out).deep_view(),
            old(report).deep_view(),
        ),
{
    let ghost all = agents.deep_view();
    let ghost start = (out.deep_view(), report.deep_view());
    let mut i: usize = 0;
    while i < agents.len()
        invariant
            all == agents.deep_view(),
            i <= agents@.len(),
            with_agents(all, 0, run, start.0, start.1) == with_agents(
                all,
                i as int,
                run,
                out.deep_view(),
                report.deep_view(),
            ),
        decreases agents@.len() - i,
    {
        assert(all[i as int] == agents@[i as int]@);
        translate_java_agent(run, agents[i].as_str(), out, report);
        i = i + 1;
    }
}

/// The first line from the `i`th on that sets the arguments of `run`.
pub open spec fn run_args_line(lines: Seq<Seq<char>>, i: int) -> Option<Seq<char>>
    decreases lines.len() - i,
{
    if i < 0 || i >= lines.len() {
        None
    } else if starts(trimmed(lines[i]), "applicationDefaultJvmArgs"@) {
        Some(lines[i])
    } else {
        run_args_line(lines, i + 1)
    }
}

fn find_run_args_line(script: &str) -> (r: Option<&str>)
    ensures
        r.deep_view() == run_args_line(line_seq(script@), 0),
{
    let list = lines(script);
    let ghost all = list.deep_view();
    let mut i: usize = 0;
    while i < list.len()
        invariant
            all == list.deep_view(),
            all == line_seq(script@),
            i <= list@.len(),
            run_args_line(all, 0) == run_args_line(all, i as int),
        decreases list@.len() - i,
    {
        assert(all[i as int] == list@[i as int]@);
        if starts_with(trim(list[i]), "applicationDefaultJvmArgs") {
            return Some(list[i]);
        }
        i = i + 1;
    }
    None
}

/// The manifest and the report once the arguments of `run` are read.
pub open spec fn run_args_read(script: Seq<char>, m: ManifestModel, told: ReportModel) -> (
    ManifestModel,
    ReportModel,
) {
    match run_args_line(line_seq(script), 0) {
        None => (m, told),
        Some(line) => {
            let all = literals_of(line);
            let (m, told) = with_agents(parted(all, true), 0, true, m, told);
            let args = parted(all, false);
            if args.len() == 0 {
                (m, told)
            } else {
                (
                    ManifestModel { run: RunModel { jvm_args: args, ..m.run }, ..m },
                    told.with_migrated("run.jvm-args = "@ + debug_list_form(args)),
                )
            }
        },
    }
}

fn read_run_args(script: &str, out: &mut Manifest, report: &mut Report)
    ensures
        (final(out).deep_view(), final(report).deep_view()) == run_args_read(
            script@,
            old(out).deep_view(),
            old(report).deep_view(),
        ),
{
    let Some(line) = find_run_args_line(script) else {
        return ;
    };
    let all = quoted(line);
    let agents = take_java_agents(&all, true);
    let args = take_java_agents(&all, false);
    translate_agents(&agents, true, out, report);
    if args.len() > 0 {
        report.migrated(cat2("run.jvm-args = ", debug_list(&args).as_str()));
        out.run.jvm_args = args;
    }
}

/// The manifest and the report once `maxParallelForks` is read.
pub open spec fn with_forks(m: ManifestModel, told: ReportModel, line: Seq<char>, value: Seq<char>) -> (
    ManifestModel,
    ReportModel,
) {
    match number(value, u32::MAX as nat) {
        Some(n) => if n <= 1 {
            (m, told)
        } else {
            (
                ManifestModel { test: TestModel { forks: n as u32, ..m.test }, ..m },
                told.with_migrated("test.forks = "@ + decimal(n) + " (from maxParallelForks)"@),
            )
        },
        None => (
            m,
            told.with_skipped(
                "`"@ + line
                    + "` — its value is computed; set test.forks to a number of test JVMs"@,
            ),
        ),
    }
}

/// `maxParallelForks` → `test.forks`. Builds usually compute it from the
/// machine's cores, which a committed jrs.toml cannot, so that is reported.
pub fn read_max_parallel_forks(line: &str, value: &str, out: &mut Manifest, report: &mut Report)
    ensures
        (final(out).deep_view(), final(report).deep_view()) == with_forks(
            old(out).deep_view(),
            old(report).deep_view(),
            line@,
            value@,
        ),
{
    match parse_u32(value) {
        Some(n) => {
            // One is Gradle's default, and jrs's.
            if n > 1 {
                out.test.forks = n;
                report.migrated(
                    cat3("test.forks = ", show(n as u128).as_str(), " (from maxParallelForks)"),
                );
            }
        },
        None => {
            report.skipped(
                cat3(
                    "`",
                    line,
                    "` — its value is computed; set test.forks to a number of test JVMs",
                ),
            );
        },
    }
}

/// What reading the blocks of `test` has come to.
pub struct TestArgsModel {
    pub m: ManifestModel,
    pub told: ReportModel,
    pub args: Seq<Seq<char>>,
    pub agents: Seq<Seq<char>>,
}

/// Once a line of a block of `test` is read.
pub open spec fn with_test_line(t: TestArgsModel, raw: Seq<char>) -> TestArgsModel {
    let line = trimmed(raw);
    let literals = literals_of(line);
    if starts(line, "jvmArgs"@) {
        TestArgsModel {
            agents: t.agents + parted(literals, true),
            args: t.args + parted(literals, false),
            ..t
        }
    } else if starts(line, "systemProperty"@) && !starts(line, "systemProperties"@) {
        if literals.len() == 2 {
            TestArgsModel {
                args: t.args.push("-D"@ + literals[0] + "="@ + literals[1]),
                ..t
            }
        } else {
            t
        }
    } else if within(line, "useTestNG"@) {
        TestArgsModel {
            told: t.told.with_skipped(
                "`useTestNG()` — jrs runs JUnit 5, and JUnit 4 through the Vintage engine; TestNG is not supported"@,
            ),
            ..t
        }
    } else {
        match set_on(line, "maxParallelForks"@) {
            Some(value) => {
                let (m, told) = with_forks(t.m, t.told, line, value);
                TestArgsModel { m, told, ..t }
            },
            None => if set_on(line, "forkEvery"@) is Some {
                TestArgsModel {
                    told: t.told.with_skipped(
                        "`"@ + line
                            + "` — Gradle restarts a test JVM after so many classes; jrs starts each test JVM once, for its whole share of the classes"@,
                    ),
                    ..t
                }
            } else {
                t
            },
        }
    }
}

/// Once the lines from the `i`th on are read.
pub open spec fn test_lines_from(lines: Seq<Seq<char>>, i: int, t: TestArgsModel) -> TestArgsModel
    decreases lines.len() - i,
{
    if i < 0 || i >= lines.len() {
        t
    } else {
        test_lines_from(lines, i + 1, with_test_line(t, lines[i]))
    }
}

fn read_test_line(
    raw: &str,
    args: &mut Vec<String>,
    agents: &mut Vec<String>,
    out: &mut Manifest,
    report: &mut Report,
)
    ensures
        (TestArgsModel {
            m: final(out).deep_view(),
            told: final(report).deep_view(),
            args: final(args).deep_view(),
            agents: final(agents).deep_view(),
        }) == with_test_line(
            TestArgsModel {
                m: old(out).deep_view(),
                told: old(report).deep_view(),
                args: old(args).deep_view(),
                agents: old(agents).deep_view(),
            },
            raw@,
        ),
{
    let line = trim(raw);
    if starts_with(line, "jvmArgs") {
        let literals = quoted(line);
        put_all(agents, take_java_agents(&literals, true));
        put_all(args, take_java_agents(&literals, false));
    } else if starts_with(line, "systemProperty") && !starts_with(line, "systemProperties") {
        let literals = quoted(line);
        let ghost all = literals.deep_view();
        assert(all.len() == literals@.len());
        if literals.len() == 2 {
            assert(all[0] == literals@[0]@ && all[1] == literals@[1]@);
            put(args, cat4("-D", literals[0].as_str(), "=", literals[1].as_str()));
        }
    } else if contains(line, "useTestNG") {
        report.skipped(
            "`useTestNG()` — jrs runs JUnit 5, and JUnit 4 through the Vintage engine; TestNG is not supported".to_owned(),
        );
    } else if let Some(value) = setting(line, "maxParallelForks") {
        read_max_parallel_forks(line, value, out, report);
    } else if setting(line, "forkEvery").is_some() {
        report.skipped(
            cat3(
                "`",
                line,
                "` — Gradle restarts a test JVM after so many classes; jrs starts each test JVM once, for its whole share of the classes",
            ),
        );
    }
}

/// The manifest and the report once the arguments of `run` and `test` are
/// read.
pub open spec fn jvm_args_read(script: Seq<char>, m: ManifestModel, told: ReportModel) -> (
    ManifestModel,
    ReportModel,
) {
    let (m, told) = run_args_read(script, m, told);
    let t = test_lines_from(
        lines_inside(BlockModel::Test, script),
        0,
        TestArgsModel { m, told, args: seq![], agents: seq![] },
    );
    let (m, told) = if t.args.len() > 0 {
        (
            ManifestModel { test: TestModel { jvm_args: t.args, ..t.m.test }, ..t.m },
            t.told.with_migrated("test.jvm-args = "@ + debug_list_form(t.args)),
        )
    } else {
        (t.m, t.told)
    };
    with_agents(t.agents, 0, false, m, told)
}

/// `applicationDefaultJvmArgs` for `jrs run`; the test task's `jvmArgs` and
/// `systemProperty` for `jrs test`.
pub fn read_jvm_args(script: &str, out: &mut Manifest, report: &mut Report)
    ensures
        (final(out).deep_view(), final(report).deep_view()) == jvm_args_read(
            script@,
            old(out).deep_view(),
            old(report).deep_view(),
        ),
{
    read_run_args(script, out, report);
    let list = blocks_where(script, &Block::Test);
    let ghost all = list.deep_view();
    let mut args: Vec<String> = none_of();
    let mut agents: Vec<String> = none_of();
    let ghost start = TestArgsModel {
        m: out.deep_view(),
        told: report.deep_view(),
        args: seq![],
        agents: seq![],
    };
    let mut i: usize = 0;
    while i < list.len()
        invariant
            all == list.deep_view(),
            i <= list@.len(),
            test_lines_from(all, 0, start) == test_lines_from(
                all,
                i as int,
                TestArgsModel {
                    m: out.deep_view(),
                    told: report.deep_view(),
                    args: args.deep_view(),
                    agents: agents.deep_view(),
                },
            ),
        decreases list@.len() - i,
    {
        assert(all[i as int] == list@[i as int]@);
        read_test_line(list[i], &mut args, &mut agents, out, report);
        i = i + 1;
    }
    if args.len() > 0 {
        report.migrated(cat2("test.jvm-args = ", debug_list(&args).as_str()));
        out.test.jvm_args = args;
    }
    translate_agents(&agents, false, out, report);
}

// ---- what jrs cannot read --------------------------------------------------

/// Some line from the `i`th on starts with `needle`.
pub open spec fn some_line_starts(lines: Seq<Seq<char>>, needle: Seq<char>) -> bool {
    exists|i: int| 0 <= i < lines.len() && starts(trimmed(#[trigger] lines[i]), needle)
}

fn any_line_starts(list: &Vec<&str>, needle: &str) -> (r: bool)
    ensures
        r == some_line_starts(list.deep_view(), needle@),
{
    let ghost all = list.deep_view();
    let mut i: usize = 0;
    while i < list.len()
        invariant
            all == list.deep_view(),
            i <= list@.len(),
            forall|j: int| 0 <= j < i ==> !starts(trimmed(#[trigger] all[j]), needle@),
        decreases list@.len() - i,
    {
        assert(all[i as int] == list@[i as int]@);
        if starts_with(trim(list[i]), needle) {
            return true;
        }
        i = i + 1;
    }
    false
}

/// The report, with `what` where a line starts with `needle`.
pub open spec fn where_starts(
    lines: Seq<Seq<char>>,
    needle: Seq<char>,
    what: Seq<char>,
    told: ReportModel,
) -> ReportModel {
    if some_line_starts(lines, needle) {
        told.with_skipped(what)
    } else {
        told
    }
}

fn tell_where(list: &Vec<&str>, needle: &str, what: &str, report: &mut Report)
    ensures
        final(report).deep_view() == where_starts(
            list.deep_view(),
            needle@,
            what@,
            old(report).deep_view(),
        ),
{
    if any_line_starts(list, needle) {
        report.skipped(what.to_owned());
    }
}

/// A plugin that jrs understands.
pub open spec fn understood(id: Seq<char>) -> bool {
    id == "java"@ || id == "java-library"@ || id == "application"@ || id
        == "org.springframework.boot"@ || id == "io.spring.dependency-management"@ || id
        == "com.guardsquare.proguard"@ || plugin_language(id) is Some || compiler_plugin(id) is Some
}

fn is_understood(id: &str) -> (r: bool)
    ensures
        r == understood(id@),
{
    same(id, "java") || same(id, "java-library") || same(id, "application") || same(
        id,
        "org.springframework.boot",
    ) || same(id, "io.spring.dependency-management") || same(id, "com.guardsquare.proguard")
        || language_plugin(id).is_some() || kotlin_compiler_plugin(id).is_some()
}

/// The report of the plugins from the `i`th on that jrs does not understand.
pub open spec fn plugins_told(plugins: Seq<PluginModel>, i: int, told: ReportModel) -> ReportModel
    decreases plugins.len() - i,
{
    if i < 0 || i >= plugins.len() {
        told
    } else if understood(plugins[i].id) {
        plugins_told(plugins, i + 1, told)
    } else {
        plugins_told(
            plugins,
            i + 1,
            told.with_skipped("plugin `"@ + plugins[i].id + "` — jrs has no plugin system"@),
        )
    }
}

/// The report of what jrs cannot read.
pub open spec fn unreadable_told(
    script: Seq<char>,
    includes: Seq<Seq<char>>,
    plugins: Seq<PluginModel>,
    told: ReportModel,
) -> ReportModel {
    let lines = line_seq(script);
    let told = if includes.len() > 0 {
        told.with_skipped(
            "settings.gradle includes "@ + joined(includes, ", "@)
                + " — jrs builds one module per manifest; migrate each with `jrs migrate --path <module>`"@,
        )
    } else {
        told
    };
    let told = where_starts(
        lines,
        "subprojects"@,
        "`subprojects { }` — per-project configuration"@,
        told,
    );
    let told = where_starts(
        lines,
        "allprojects"@,
        "`allprojects { }` — per-project configuration"@,
        told,
    );
    let told = where_starts(
        lines,
        "ext {"@,
        "`ext { }` — script variables jrs cannot evaluate"@,
        told,
    );
    let told = where_starts(
        lines,
        "sourceSets"@,
        "`sourceSets { }` — use project.source-dir instead"@,
        told,
    );
    plugins_told(plugins, 0, told)
}

/// Report what jrs cannot read.
pub fn report_the_unreadable(
    script: &str,
    settings: &Settings,
    plugins: &Vec<Plugin>,
    report: &mut Report,
)
    ensures
        final(report).deep_view() == unreadable_told(
            script@,
            settings.deep_view().includes,
            plugins.deep_view(),
            old(report).deep_view(),
        ),
{
    if settings.includes.len() > 0 {
        report.skipped(
            cat3(
                "settings.gradle includes ",
                join(&settings.includes, ", ").as_str(),
                " — jrs builds one module per manifest; migrate each with `jrs migrate --path <module>`",
            ),
        );
    }
    let list = lines(script);
    tell_where(&list, "subprojects", "`subprojects { }` — per-project configuration", report);
    tell_where(&list, "allprojects", "`allprojects { }` — per-project configuration", report);
    tell_where(&list, "ext {", "`ext { }` — script variables jrs cannot evaluate", report);
    tell_where(&list, "sourceSets", "`sourceSets { }` — use project.source-dir instead", report);
    let ghost all = plugins.deep_view();
    let ghost start = report.deep_view();
    let mut i: usize = 0;
    while i < plugins.len()
        invariant
            all == plugins.deep_view(),
            i <= plugins@.len(),
            plugins_told(all, 0, start) == plugins_told(all, i as int, report.deep_view()),
        decreases plugins@.len() - i,
    {
        assert(all[i as int] == plugins@[i as int].deep_view());
        // Language plugins, Kotlin's compiler plugins and Spring Boot's two
        // have been reported, migrated or not, where they were read.
        let id = plugins[i].id.as_str();
        if !is_understood(id) {
            report.skipped(cat3("plugin `", id, "` — jrs has no plugin system"));
        }
        i = i + 1;
    }
}

// ---- the build -------------------------------------------------------------

/// A Gradle build, as it was read from disk.
#[derive(Debug)]
pub struct Build {
    /// The build script's path and text.
    pub file: String,
    pub script: String,
    /// The project's directory, and its name where it has one.
    pub root: String,
    pub directory: Option<String>,
    /// `settings.gradle` and `settings.gradle.kts`, where they are there.
    pub settings: Option<String>,
    pub settings_kotlin: Option<String>,
    /// `gradle/libs.versions.toml`, where it is there.
    pub catalog: Option<String>,
    /// What is in the project's directory.
    pub files: Files,
    /// The `@SpringBootApplication` class, where there is one.
    pub application: Option<String>,
}

/// A Gradle build, as it was read from disk.
pub struct BuildModel {
    pub file: Seq<char>,
    pub script: Seq<char>,
    pub root: Seq<char>,
    pub directory: Option<Seq<char>>,
    pub settings: Option<Seq<char>>,
    pub settings_kotlin: Option<Seq<char>>,
    pub catalog: Option<Seq<char>>,
    pub files: FilesModel,
    pub application: Option<Seq<char>>,
}

impl DeepView for Build {
    type V = BuildModel;

    open spec fn deep_view(&self) -> BuildModel {
        BuildModel {
            file: self.file@,
            script: self.script@,
            root: self.root@,
            directory: self.directory.deep_view(),
            settings: self.settings.deep_view(),
            settings_kotlin: self.settings_kotlin.deep_view(),
            catalog: self.catalog.deep_view(),
            files: self.files.deep_view(),
            application: self.application.deep_view(),
        }
    }
}

/// The text of an option.
pub open spec fn name_or(a: Option<Seq<char>>, b: Option<Seq<char>>) -> Seq<char> {
    match a {
        Some(s) => s,
        None => match b {
            Some(s) => s,
            None => "app"@,
        },
    }
}

/// The manifest and the report with the project's name and version alone.
pub open spec fn project_read(
    name: Seq<char>,
    script: Seq<char>,
    root: Seq<char>,
    told: ReportModel,
) -> (ManifestModel, ReportModel) {
    let (version, told) = match assigned_in(script, "version"@) {
        Some(v) => (v, told.with_migrated("project.version = "@ + v)),
        None => (
            "0.1.0"@,
            told.with_review(
                "project.version — no `version = ...` found; defaulted to 0.1.0"@,
            ),
        ),
    };
    (
        blank_manifest(name, version, root),
        told.with_migrated("project.name = "@ + name),
    )
}

/// What a Gradle build becomes.
pub open spec fn migrated(b: BuildModel) -> MigrationModel {
    let told = ReportModel { preamble: Some(PREAMBLE@), ..empty_report() };
    let script = sans_comments(b.script);
    let (settings, told) = settings_read(b.settings, b.settings_kotlin, told);
    let (catalog, told) = catalog_read(b.catalog, told);
    let name = name_or(settings.root_project_name, b.directory);
    let (m, told) = project_read(name, script, b.root, told);
    let plugins = plugins_of(script);
    let (m, told) = java_read(script, m, told);
    let (m, told) = kotlin_read(script, plugins, m, told);
    let (m, told) = main_read(script, m, told);
    let (m, told) = managed_read(script, plugins, catalog, b.application, m, told);
    let (m, told) = dependencies_read(script, catalog, b.files, m, told);
    let (m, told) = library_languages(plugins, m, told);
    let (m, told) = jvm_args_read(script, m, told);
    let (m, told) = blocks_read((m, told), statements_of(script), 0);
    let (m, told) = jar_manifest_read(script, m, told);
    let (m, told) = proguard_read(plugins, m, told);
    let (repositories, told) = repositories_of(script, told);
    let (tasks, hooks, told) = tasks_read(script, m.hooks, told);
    let told = unreadable_told(script, settings.includes, plugins, told);
    MigrationModel {
        source: Source::Gradle,
        source_file: b.file,
        manifest: ManifestModel { repositories, tasks, hooks, ..m },
        report: told,
    }
}

fn text_of(s: &Option<String>) -> (r: Option<&str>)
    ensures
        r.deep_view() == s.deep_view(),
{
    match s {
        Some(s) => Some(s.as_str()),
        None => None,
    }
}

fn read_project(name: &str, script: &str, root: &str, report: &mut Report) -> (r: Manifest)
    ensures
        (r.deep_view(), final(report).deep_view()) == project_read(
            name@,
            script@,
            root@,
            old(report).deep_view(),
        ),
{
    let version = match assignment(script, "version") {
        Some(v) => {
            report.migrated(cat2("project.version = ", v.as_str()));
            v
        },
        None => {
            report.review(
                "project.version — no `version = ...` found; defaulted to 0.1.0".to_owned(),
            );
            "0.1.0".to_owned()
        },
    };
    report.migrated(cat2("project.name = ", name));
    blank(name, version.as_str(), root)
}

/// Translate a Gradle build, with its settings and its version catalog when
/// they are there. Everything jrs cannot read in it goes into the report.
pub fn migrate(build: &Build) -> (r: Migration)
    ensures
        r.deep_view() == migrated(build.deep_view()),
        tasks_fault(r.deep_view().manifest.tasks, r.deep_view().manifest.hooks) is None,
        gradle_words(r.deep_view().manifest) ==> good_manifest(r.deep_view().manifest),
{
    let mut report = Report::default();
    report.preamble = Some(PREAMBLE.to_owned());
    let bare = strip_comments(build.script.as_str());
    let script = bare.as_str();
    let settings = read_settings(
        text_of(&build.settings),
        text_of(&build.settings_kotlin),
        &mut report,
    );
    let catalog = read_catalog(text_of(&build.catalog), &mut report);
    let name = match &settings.root_project_name {
        Some(s) => s.clone(),
        None => match &build.directory {
            Some(s) => s.clone(),
            None => "app".to_owned(),
        },
    };
    let mut out = read_project(name.as_str(), script, build.root.as_str(), &mut report);
    let plugins = read_plugins(script);
    read_java(script, &mut out, &mut report);
    // Before the dependencies: `kotlin("reflect")` takes [kotlin]'s version.
    read_kotlin(script, &plugins, &mut out, &mut report);
    read_main_class(script, &mut out, &mut report);
    // Before the dependencies: whether anything manages versions decides
    // whether a coordinate without one can be migrated.
    read_managed(
        script,
        &plugins,
        &catalog,
        text_of(&build.application),
        &mut out,
        &mut report,
    );
    read_dependencies(script, &catalog, &build.files, &mut out, &mut report);
    // After them: `groovy` and `scala` take their library's version.
    read_library_languages(&plugins, &mut out, &mut report);
    read_jvm_args(script, &mut out, &mut report);
    read_jvm_environment(script, &mut out, &mut report);
    read_jar_manifest(script, &mut out, &mut report);
    read_proguard(&plugins, &mut out, &mut report);
    crate::gradle_repos::read(script, &mut out, &mut report);
    crate::gradle_tasks::read(script, &mut out, &mut report);
    report_the_unreadable(script, &settings, &plugins, &mut report);
    proof {
        let b = build.deep_view();
        if gradle_words(migrated(b).manifest) {
            migrated_builds_load(b);
        }
    }
    Migration {
        source: Source::Gradle,
        source_file: build.file.clone(),
        manifest: out,
        report,
    }
}

} // verus!
