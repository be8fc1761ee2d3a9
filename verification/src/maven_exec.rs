//! `exec-maven-plugin`: its executions as tasks.

use crate::chars::{is_space, space};
use crate::coord::{is_range, range};
use crate::dependency::{plain_dependency, Dependency, DependencyModel};
use crate::element::{lemma_children, Element, ElementModel};
use crate::fresh::{fresh, fresh_name};
use crate::gradle_decl::{dashed_name, task_name};
use crate::gradle_env::{set_variable, with_variable};
use crate::manifest::{Manifest, ManifestModel};
use crate::pom::{
    find_property, interpolate, interpolated, property, text_or, Effective, PluginInfo, PluginModel,
    Pom, PomModel, Properties,
};
use crate::report::{Report, ReportModel};
use crate::task::{
    hooked, Action, ActionModel, Builtin, Hook, TaskDef, TaskModel, TaskRef, TaskRefModel,
};
use crate::template::{escaped, literal_template, template_of, Template, TemplateModel};
use crate::text::{
    capital, cat2, cat3, cat4, cat5, chars, contains, cut, has_char, includes, lemma_first_at,
    none_of, one_of, outcome, put, put_all, same, split_once, starts, starts_with, to_capital, trim,
    trimmed, within,
};
use vstd::prelude::*;

verus! {

// ---- phases ----------------------------------------------------------------

/// The hook that fires where a Maven phase would run an execution.
pub open spec fn phase_hook(phase: Seq<char>) -> Option<Hook> {
    if phase == "validate"@ || phase == "initialize"@ || phase == "generate-sources"@ || phase
        == "process-sources"@ || phase == "generate-resources"@ || phase == "process-resources"@ {
        Some(Hook::PreCompile)
    } else if phase == "compile"@ || phase == "process-classes"@ {
        Some(Hook::PostCompile)
    } else if phase == "generate-test-sources"@ || phase == "process-test-sources"@ || phase
        == "generate-test-resources"@ || phase == "process-test-resources"@ || phase
        == "test-compile"@ || phase == "process-test-classes"@ {
        Some(Hook::PreTest)
    } else if phase == "test"@ {
        Some(Hook::PostTest)
    } else if phase == "package"@ {
        Some(Hook::PostPackage)
    } else {
        None
    }
}

/// The hook that fires where a Maven phase would run an execution: before
/// compilation for the source-generating phases, after it for `compile` and
/// `process-classes` (a plugin bound to a phase runs after the phase's own
/// work), and so on. A phase with no such point is not here.
pub fn hook_for_phase(phase: &str) -> (r: Option<Hook>)
    ensures
        r == phase_hook(phase@),
{
    if same(phase, "validate") || same(phase, "initialize") || same(phase, "generate-sources")
        || same(phase, "process-sources") || same(phase, "generate-resources") || same(
        phase,
        "process-resources",
    ) {
        Some(Hook::PreCompile)
    } else if same(phase, "compile") || same(phase, "process-classes") {
        Some(Hook::PostCompile)
    } else if same(phase, "generate-test-sources") || same(phase, "process-test-sources") || same(
        phase,
        "generate-test-resources",
    ) || same(phase, "process-test-resources") || same(phase, "test-compile") || same(
        phase,
        "process-test-classes",
    ) {
        Some(Hook::PreTest)
    } else if same(phase, "test") {
        Some(Hook::PostTest)
    } else if same(phase, "package") {
        Some(Hook::PostPackage)
    } else {
        None
    }
}

// ---- values ----------------------------------------------------------------

/// How many properties may name one another before jrs gives up.
pub const MAX_DEPTH: usize = 8;

/// The placeholder that a property of the project's becomes.
pub open spec fn known_property(name: Seq<char>) -> Option<Seq<char>> {
    if name == "project.basedir"@ || name == "basedir"@ {
        Some("{root}"@)
    } else if name == "project.build.directory"@ {
        Some("{target}"@)
    } else if name == "project.build.outputDirectory"@ {
        Some("{classes}"@)
    } else if name == "project.version"@ || name == "version"@ {
        Some("{project.version}"@)
    } else if name == "project.artifactId"@ {
        Some("{project.name}"@)
    } else {
        None
    }
}

fn find_known(name: &str) -> (r: Option<&'static str>)
    ensures
        r.deep_view() == known_property(name@),
{
    if same(name, "project.basedir") || same(name, "basedir") {
        Some("{root}")
    } else if same(name, "project.build.directory") {
        Some("{target}")
    } else if same(name, "project.build.outputDirectory") {
        Some("{classes}")
    } else if same(name, "project.version") || same(name, "version") {
        Some("{project.version}")
    } else if same(name, "project.artifactId") {
        Some("{project.name}")
    } else {
        None
    }
}

/// `raw` as a template's text, its braces escaped and its properties resolved.
pub open spec fn exec_text_of(raw: Seq<char>, props: Properties, depth: int) -> Result<
    Seq<char>,
    Seq<char>,
>
    decreases MAX_DEPTH + 1 - depth, 1int, 0nat,
{
    exec_text_from(raw, escaped(raw), props, depth, seq![])
}

/// The rest of a template's text, after what came before.
pub open spec fn exec_text_from(
    raw: Seq<char>,
    rest: Seq<char>,
    props: Properties,
    depth: int,
    out: Seq<char>,
) -> Result<Seq<char>, Seq<char>>
    decreases MAX_DEPTH + 1 - depth, 0int, rest.len(),
{
    match cut(rest, "${{"@) {
        None => Ok(out + rest),
        Some((before, after)) => match cut(after, "}}"@) {
            None => Err("`"@ + raw + "` has an unclosed `${`"@),
            Some((name, tail)) => {
                let value: Result<Seq<char>, Seq<char>> = match known_property(name) {
                    Some(v) => Ok(v),
                    None => match property(props, name) {
                        Some(v) => if depth < MAX_DEPTH {
                            exec_text_of(v, props, depth + 1)
                        } else {
                            Err("`${"@ + name + "}` is a property jrs cannot evaluate"@)
                        },
                        None => Err("`${"@ + name + "}` is a property jrs cannot evaluate"@),
                    },
                };
                match value {
                    Err(e) => Err(e),
                    Ok(v) => if tail.len() < rest.len() {
                        exec_text_from(raw, tail, props, depth, out + before + v)
                    } else {
                        Ok(out)
                    },
                }
            },
        },
    }
}

/// `raw` as a template's text, its braces escaped and its properties
/// resolved. A property whose value names another is followed, a few levels
/// deep: `${grammar.dir}` set to `${project.basedir}/src/main/grammar`.
pub fn exec_text(raw: &str, props: &Vec<(String, String)>, depth: usize) -> (r: Result<
    String,
    String,
>)
    ensures
        outcome(r) == exec_text_of(raw@, props.deep_view(), depth as int),
    decreases MAX_DEPTH - depth,
{
    let ghost p = props.deep_view();
    let whole = Template::literal(raw).raw;
    let mut out = String::new();
    let mut rest: &str = whole.as_str();
    proof {
        reveal_strlit("${{");
        reveal_strlit("}}");
        assert(out@ =~= seq![]);
    }
    loop
        invariant
            p == props.deep_view(),
            "${{"@.len() == 3,
            "}}"@.len() == 2,
            exec_text_of(raw@, p, depth as int) == exec_text_from(
                raw@,
                rest@,
                p,
                depth as int,
                out@,
            ),
        decreases rest@.len(),
    {
        proof {
            lemma_first_at(rest@, "${{"@, 0);
        }
        let Some((before, after)) = split_once(rest, "${{") else {
            out.append(rest);
            return Ok(out);
        };
        proof {
            lemma_first_at(after@, "}}"@, 0);
        }
        let Some((name, tail)) = split_once(after, "}}") else {
            return Err(cat3("`", raw, "` has an unclosed `${`"));
        };
        let value = match find_known(name) {
            Some(v) => v.to_owned(),
            None => {
                let found = find_property(props, name);
                let Some(v) = found else {
                    return Err(cat3("`${", name, "}` is a property jrs cannot evaluate"));
                };
                if depth >= MAX_DEPTH {
                    return Err(cat3("`${", name, "}` is a property jrs cannot evaluate"));
                }
                match exec_text(v, props, depth + 1) {
                    Ok(v) => v,
                    Err(e) => {
                        return Err(e);
                    },
                }
            },
        };
        out.append(before);
        out.append(value.as_str());
        rest = tail;
    }
}

/// A POM value as a task template.
pub open spec fn exec_template_of(raw: Seq<char>, props: Properties) -> Result<
    TemplateModel,
    Seq<char>,
> {
    match exec_text_of(trimmed(raw), props, 0) {
        Ok(text) => template_of(text),
        Err(e) => Err(e),
    }
}

/// A POM value as a task template: `${project.basedir}`,
/// `${project.build.directory}`, `${project.build.outputDirectory}`,
/// `${project.version}` and `${project.artifactId}` become placeholders, any
/// other property its value, and a property with none makes it unreadable.
pub fn exec_template(raw: &str, props: &Vec<(String, String)>) -> (r: Result<Template, String>)
    ensures
        outcome(r) == exec_template_of(raw@, props.deep_view()),
{
    match exec_text(trim(raw), props, 0) {
        Ok(text) => Template::parse(text.as_str()),
        Err(e) => Err(e),
    }
}

/// The arguments of a command line from `i` on, after those before, where
/// `current` is one that is being read.
pub open spec fn arguments_from(
    line: Seq<char>,
    i: int,
    current: Seq<char>,
    quoted: bool,
    out: Seq<Seq<char>>,
) -> Seq<Seq<char>>
    decreases line.len() - i,
{
    if i < 0 || i >= line.len() {
        if current.len() > 0 {
            out.push(current)
        } else {
            out
        }
    } else if line[i] == '"' {
        arguments_from(line, i + 1, current, !quoted, out)
    } else if space(line[i]) && !quoted {
        arguments_from(
            line,
            i + 1,
            seq![],
            quoted,
            if current.len() > 0 {
                out.push(current)
            } else {
                out
            },
        )
    } else {
        arguments_from(line, i + 1, current.push(line[i]), quoted, out)
    }
}

/// The arguments of a command line.
pub open spec fn arguments_of(line: Seq<char>) -> Seq<Seq<char>> {
    arguments_from(line, 0, seq![], false, seq![])
}

/// Split a command line on whitespace, keeping double-quoted runs together.
pub fn split_arguments(line: &str) -> (r: Vec<String>)
    ensures
        r.deep_view() == arguments_of(line@),
{
    let cs = chars(line);
    let mut out: Vec<String> = none_of();
    let mut current = String::new();
    let mut quoted = false;
    let mut i: usize = 0;
    assert(current@ =~= seq![]);
    while i < cs.len()
        invariant
            cs@ == line@,
            i <= cs@.len(),
            arguments_of(line@) == arguments_from(
                line@,
                i as int,
                current@,
                quoted,
                out.deep_view(),
            ),
        decreases cs@.len() - i,
    {
        let c: char = cs[i];
        if c == '"' {
            quoted = !quoted;
        } else if is_space(c) && !quoted {
            if !current.as_str().is_empty() {
                put(&mut out, current);
            }
            current = String::new();
            assert(current@ =~= seq![]);
        } else {
            current.push(c);
        }
        i = i + 1;
    }
    if !current.as_str().is_empty() {
        put(&mut out, current);
    }
    out
}

// ---- configurations --------------------------------------------------------

/// The first child of that name in the configurations from the `i`th on.
pub open spec fn get_from(configs: Seq<ElementModel>, name: Seq<char>, i: int) -> Option<
    ElementModel,
>
    decreases configs.len() - i,
{
    if i < 0 || i >= configs.len() {
        None
    } else {
        match configs[i].child(name) {
            Some(c) => Some(c),
            None => get_from(configs, name, i + 1),
        }
    }
}

/// What the configurations hold under a name: the first wins, key by key.
pub open spec fn get(configs: Seq<ElementModel>, name: Seq<char>) -> Option<ElementModel> {
    get_from(configs, name, 0)
}

/// The text that the configurations hold under a name.
pub open spec fn text_in(configs: Seq<ElementModel>, name: Seq<char>) -> Option<Seq<char>> {
    match get(configs, name) {
        Some(e) => if trimmed(e.text).len() > 0 {
            Some(trimmed(e.text))
        } else {
            None
        },
        None => None,
    }
}

fn find_in<'a>(configs: &Vec<&'a Element>, name: &str) -> (r: Option<&'a Element>)
    ensures
        r.deep_view() == get(configs.deep_view(), name@),
{
    let ghost all = configs.deep_view();
    let mut i: usize = 0;
    while i < configs.len()
        invariant
            all == configs.deep_view(),
            i <= configs@.len(),
            get(all, name@) == get_from(all, name@, i as int),
        decreases configs@.len() - i,
    {
        assert(all[i as int] == configs@[i as int].deep_view());
        if let Some(c) = configs[i].child(name) {
            return Some(c);
        }
        i = i + 1;
    }
    None
}

fn find_text<'a>(configs: &Vec<&'a Element>, name: &str) -> (r: Option<&'a str>)
    ensures
        r.deep_view() == text_in(configs.deep_view(), name@),
{
    match find_in(configs, name) {
        Some(e) => {
            let t = e.trimmed();
            if t.is_empty() {
                None
            } else {
                Some(t)
            }
        },
        None => None,
    }
}

/// The configurations of an execution: its own, then the plugin's.
pub open spec fn configs_of(execution: ElementModel, plugin: PluginModel) -> Seq<ElementModel> {
    let own: Seq<ElementModel> = match execution.child("configuration"@) {
        Some(c) => seq![c],
        None => seq![],
    };
    match plugin.configuration {
        Some(c) => own.push(c),
        None => own,
    }
}

fn list_configs<'a>(execution: &'a Element, plugin: &'a PluginInfo) -> (r: Vec<&'a Element>)
    ensures
        r.deep_view() == configs_of(execution.deep_view(), plugin.deep_view()),
{
    let mut out: Vec<&'a Element> = none_of();
    if let Some(c) = execution.child("configuration") {
        put(&mut out, c);
        assert(out.deep_view() =~= seq![c.deep_view()]);
    }
    if let Some(c) = &plugin.configuration {
        put(&mut out, c);
    }
    out
}

/// Why an execution cannot be a task, by what its configuration holds.
pub open spec fn refusal_of(configs: Seq<ElementModel>) -> Option<Seq<char>> {
    if text_in(configs, "skip"@) == Some("true"@) {
        Some("it is skipped (`<skip>true</skip>`)"@)
    } else if get(configs, "async"@) is Some {
        Some("<async> has no equivalent in a jrs task"@)
    } else if get(configs, "outputFile"@) is Some {
        Some("<outputFile> has no equivalent in a jrs task"@)
    } else if get(configs, "executableDependency"@) is Some {
        Some("<executableDependency> has no equivalent in a jrs task"@)
    } else if get(configs, "modulepath"@) is Some {
        Some("<modulepath> has no equivalent in a jrs task"@)
    } else {
        match text_in(configs, "classpathScope"@) {
            Some(scope) => if scope == "runtime"@ || scope == "compile"@ {
                None
            } else {
                Some(
                    "<classpathScope>"@ + scope
                        + "</classpathScope>: a task gets the main classpath only"@,
                )
            },
            None => None,
        }
    }
}

fn is_text(s: Option<&str>, other: &str) -> (r: bool)
    ensures
        r == (s.deep_view() == Some(other@)),
{
    match s {
        Some(s) => same(s, other),
        None => false,
    }
}

fn find_refusal(configs: &Vec<&Element>) -> (r: Option<String>)
    ensures
        r.deep_view() == refusal_of(configs.deep_view()),
{
    if is_text(find_text(configs, "skip"), "true") {
        return Some("it is skipped (`<skip>true</skip>`)".to_owned());
    }
    if find_in(configs, "async").is_some() {
        return Some("<async> has no equivalent in a jrs task".to_owned());
    }
    if find_in(configs, "outputFile").is_some() {
        return Some("<outputFile> has no equivalent in a jrs task".to_owned());
    }
    if find_in(configs, "executableDependency").is_some() {
        return Some("<executableDependency> has no equivalent in a jrs task".to_owned());
    }
    if find_in(configs, "modulepath").is_some() {
        return Some("<modulepath> has no equivalent in a jrs task".to_owned());
    }
    match find_text(configs, "classpathScope") {
        Some(scope) => if same(scope, "runtime") || same(scope, "compile") {
            None
        } else {
            Some(
                cat3(
                    "<classpathScope>",
                    scope,
                    "</classpathScope>: a task gets the main classpath only",
                ),
            )
        },
        None => None,
    }
}

/// The hook that runs an execution, or why there is none.
pub open spec fn execution_hook(execution: ElementModel) -> Result<Option<Hook>, Seq<char>> {
    match execution.text_of("phase"@) {
        None => Ok(None),
        Some(phase) => match phase_hook(phase) {
            Some(hook) => Ok(Some(hook)),
            None => Err(
                "its phase `"@ + phase + "` has no point in jrs's build to run at"@,
            ),
        },
    }
}

fn find_execution_hook(execution: &Element) -> (r: Result<Option<Hook>, String>)
    ensures
        outcome(r) == execution_hook(execution.deep_view()),
{
    match execution.text_of("phase") {
        None => Ok(None),
        Some(phase) => match hook_for_phase(phase) {
            Some(hook) => Ok(Some(hook)),
            None => Err(
                cat3("its phase `", phase, "` has no point in jrs's build to run at"),
            ),
        },
    }
}

/// The names of the tasks.
pub open spec fn task_names(tasks: Seq<TaskModel>) -> Seq<Seq<char>> {
    Seq::new(tasks.len(), |i: int| tasks[i].name)
}

fn list_task_names(tasks: &Vec<TaskDef>) -> (r: Vec<String>)
    ensures
        r.deep_view() == task_names(tasks.deep_view()),
{
    let ghost all = tasks.deep_view();
    let mut out: Vec<String> = none_of();
    let mut i: usize = 0;
    while i < tasks.len()
        invariant
            all == tasks.deep_view(),
            i <= tasks@.len(),
            out.deep_view() =~= task_names(all).take(i as int),
        decreases tasks@.len() - i,
    {
        put(&mut out, tasks[i].name.clone());
        i = i + 1;
    }
    assert(task_names(all).take(i as int) =~= task_names(all));
    out
}

/// The name of an execution's task, which no other task has.
pub open spec fn execution_name(
    id: Seq<char>,
    goal: Seq<char>,
    several: bool,
    tasks: Seq<TaskModel>,
) -> Result<Seq<char>, Seq<char>> {
    let base: Result<Seq<char>, Seq<char>> = if id == "default"@ || starts(id, "default-"@) {
        Ok("exec"@)
    } else {
        dashed_name(id)
    };
    match base {
        Err(e) => Err(e),
        Ok(base) => Ok(
            fresh(
                task_names(tasks),
                if several {
                    base + "-"@ + goal
                } else {
                    base
                },
            ),
        ),
    }
}

fn name_execution(id: &str, goal: &str, several: bool, tasks: &Vec<TaskDef>) -> (r: Result<
    String,
    String,
>)
    ensures
        outcome(r) == execution_name(id@, goal@, several, tasks.deep_view()),
{
    let base = if same(id, "default") || starts_with(id, "default-") {
        "exec".to_owned()
    } else {
        match task_name(id) {
            Ok(n) => n,
            Err(e) => {
                return Err(e);
            },
        }
    };
    let base = if several {
        cat3(base.as_str(), "-", goal)
    } else {
        base
    };
    Ok(fresh_name(&list_task_names(tasks), base.as_str()))
}

// ---- arguments -------------------------------------------------------------

/// The templates of the `<arguments>` from the `i`th on, after those before.
pub open spec fn listed_arguments(
    list: Seq<ElementModel>,
    i: int,
    goal: Seq<char>,
    props: Properties,
    out: Seq<TemplateModel>,
) -> Result<Seq<TemplateModel>, Seq<char>>
    decreases list.len() - i,
{
    if i < 0 || i >= list.len() {
        Ok(out)
    } else {
        let t: Result<TemplateModel, Seq<char>> = if list[i].name == "argument"@ {
            exec_template_of(list[i].text, props)
        } else if list[i].name == "classpath"@ && goal == "exec"@ {
            template_of("{runtime-classpath}"@)
        } else {
            Err("<"@ + list[i].name + "> in <arguments> is not read"@)
        };
        match t {
            Ok(t) => listed_arguments(list, i + 1, goal, props, out.push(t)),
            Err(e) => Err(e),
        }
    }
}

/// The templates of the words from the `i`th on, after those before.
pub open spec fn word_arguments(
    words: Seq<Seq<char>>,
    i: int,
    props: Properties,
    out: Seq<TemplateModel>,
) -> Result<Seq<TemplateModel>, Seq<char>>
    decreases words.len() - i,
{
    if i < 0 || i >= words.len() {
        Ok(out)
    } else {
        match exec_template_of(words[i], props) {
            Ok(t) => word_arguments(words, i + 1, props, out.push(t)),
            Err(e) => Err(e),
        }
    }
}

/// The arguments of an execution.
pub open spec fn execution_arguments(
    configs: Seq<ElementModel>,
    goal: Seq<char>,
    props: Properties,
) -> Result<Seq<TemplateModel>, Seq<char>> {
    let listed: Result<Seq<TemplateModel>, Seq<char>> = match get(configs, "arguments"@) {
        Some(list) => listed_arguments(list.children, 0, goal, props, seq![]),
        None => Ok(seq![]),
    };
    match listed {
        Err(e) => Err(e),
        Ok(args) => match text_in(configs, "commandlineArgs"@) {
            Some(line) => word_arguments(arguments_of(line), 0, props, args),
            None => Ok(args),
        },
    }
}

fn read_listed_arguments(list: &Element, goal: &str, props: &Vec<(String, String)>) -> (r: Result<
    Vec<Template>,
    String,
>)
    ensures
        outcome(r) == listed_arguments(
            list.deep_view().children,
            0,
            goal@,
            props.deep_view(),
            seq![],
        ),
{
    let ghost all = list.children.deep_view();
    let ghost p = props.deep_view();
    proof {
        lemma_children(*list);
    }
    let mut out: Vec<Template> = none_of();
    let mut i: usize = 0;
    while i < list.children.len()
        invariant
            all == list.children.deep_view(),
            all == list.deep_view().children,
            p == props.deep_view(),
            i <= list.children@.len(),
            listed_arguments(all, 0, goal@, p, seq![]) == listed_arguments(
                all,
                i as int,
                goal@,
                p,
                out.deep_view(),
            ),
        decreases list.children@.len() - i,
    {
        let e = &list.children[i];
        assert(all[i as int] == e.deep_view());
        proof {
            lemma_children(*e);
        }
        let t = if same(e.name.as_str(), "argument") {
            exec_template(e.text.as_str(), props)
        } else if same(e.name.as_str(), "classpath") && same(goal, "exec") {
            // `exec`'s stand-in for the project's classpath.
            Template::parse("{runtime-classpath}")
        } else {
            Err(cat3("<", e.name.as_str(), "> in <arguments> is not read"))
        };
        match t {
            Ok(t) => {
                put(&mut out, t);
            },
            Err(e) => {
                return Err(e);
            },
        }
        i = i + 1;
    }
    Ok(out)
}

fn read_word_arguments(
    words: &Vec<String>,
    props: &Vec<(String, String)>,
    first: Vec<Template>,
) -> (r: Result<Vec<Template>, String>)
    ensures
        outcome(r) == word_arguments(words.deep_view(), 0, props.deep_view(), first.deep_view()),
{
    let ghost all = words.deep_view();
    let ghost p = props.deep_view();
    let ghost start = first.deep_view();
    let mut out = first;
    let mut i: usize = 0;
    while i < words.len()
        invariant
            all == words.deep_view(),
            p == props.deep_view(),
            start == first.deep_view(),
            i <= words@.len(),
            word_arguments(all, 0, p, start) == word_arguments(all, i as int, p, out.deep_view()),
        decreases words@.len() - i,
    {
        assert(all[i as int] == words@[i as int]@);
        match exec_template(words[i].as_str(), props) {
            Ok(t) => {
                put(&mut out, t);
            },
            Err(e) => {
                return Err(e);
            },
        }
        i = i + 1;
    }
    Ok(out)
}

fn read_arguments(configs: &Vec<&Element>, goal: &str, props: &Vec<(String, String)>) -> (r: Result<
    Vec<Template>,
    String,
>)
    ensures
        outcome(r) == execution_arguments(configs.deep_view(), goal@, props.deep_view()),
{
    let args = match find_in(configs, "arguments") {
        Some(list) => match read_listed_arguments(list, goal, props) {
            Ok(a) => a,
            Err(e) => {
                return Err(e);
            },
        },
        None => none_of(),
    };
    match find_text(configs, "commandlineArgs") {
        Some(line) => read_word_arguments(&split_arguments(line), props, args),
        None => Ok(args),
    }
}

/// No environment variable can be called `name`.
pub open spec fn unnameable(name: Seq<char>) -> bool {
    name.len() == 0 || includes(name, '=') || includes(name, '\0')
}

/// The environment variables from the `i`th on, after those before. One that is
/// set twice keeps its last value.
pub open spec fn environment_from(
    list: Seq<ElementModel>,
    i: int,
    props: Properties,
    out: Seq<(Seq<char>, TemplateModel)>,
) -> Result<Seq<(Seq<char>, TemplateModel)>, Seq<char>>
    decreases list.len() - i,
{
    if i < 0 || i >= list.len() {
        Ok(out)
    } else if starts(capital(list[i].name), "JRS_"@) {
        Err("its environment variable `"@ + list[i].name + "` is jrs's"@)
    } else if unnameable(list[i].name) {
        Err("`"@ + list[i].name + "` is not an environment variable name"@)
    } else {
        match exec_template_of(list[i].text, props) {
            Ok(t) => environment_from(list, i + 1, props, with_variable(out, list[i].name, t)),
            Err(e) => Err(e),
        }
    }
}

/// The environment of an execution.
pub open spec fn execution_environment(configs: Seq<ElementModel>, props: Properties) -> Result<
    Seq<(Seq<char>, TemplateModel)>,
    Seq<char>,
> {
    match get(configs, "environmentVariables"@) {
        Some(vars) => environment_from(vars.children, 0, props, seq![]),
        None => Ok(seq![]),
    }
}

fn read_environment(configs: &Vec<&Element>, props: &Vec<(String, String)>) -> (r: Result<
    Vec<(String, Template)>,
    String,
>)
    ensures
        outcome(r) == execution_environment(configs.deep_view(), props.deep_view()),
{
    let Some(vars) = find_in(configs, "environmentVariables") else {
        return Ok(none_of());
    };
    let ghost all = vars.children.deep_view();
    let ghost p = props.deep_view();
    proof {
        lemma_children(*vars);
    }
    let mut out: Vec<(String, Template)> = none_of();
    let mut i: usize = 0;
    while i < vars.children.len()
        invariant
            all == vars.children.deep_view(),
            p == props.deep_view(),
            execution_environment(configs.deep_view(), p) == environment_from(all, 0, p, seq![]),
            i <= vars.children@.len(),
            environment_from(all, 0, p, seq![]) == environment_from(
                all,
                i as int,
                p,
                out.deep_view(),
            ),
        decreases vars.children@.len() - i,
    {
        let var = &vars.children[i];
        assert(all[i as int] == var.deep_view());
        proof {
            lemma_children(*var);
        }
        if starts_with(to_capital(var.name.as_str()).as_str(), "JRS_") {
            return Err(
                cat3("its environment variable `", var.name.as_str(), "` is jrs's"),
            );
        }
        let name = var.name.as_str();
        if name.is_empty() || has_char(name, '=') || has_char(name, '\0') {
            return Err(cat3("`", name, "` is not an environment variable name"));
        }
        match exec_template(var.text.as_str(), props) {
            Ok(t) => {
                out = set_variable(&out, name, t);
            },
            Err(e) => {
                return Err(e);
            },
        }
        i = i + 1;
    }
    Ok(out)
}

/// The directory that an execution runs in.
pub open spec fn execution_directory(configs: Seq<ElementModel>, props: Properties) -> Result<
    Option<TemplateModel>,
    Seq<char>,
> {
    match text_in(configs, "workingDirectory"@) {
        Some(d) => match exec_template_of(d, props) {
            Ok(t) => Ok(Some(t)),
            Err(e) => Err(e),
        },
        None => Ok(None),
    }
}

fn read_directory(configs: &Vec<&Element>, props: &Vec<(String, String)>) -> (r: Result<
    Option<Template>,
    String,
>)
    ensures
        outcome(r) == execution_directory(configs.deep_view(), props.deep_view()),
{
    match find_text(configs, "workingDirectory") {
        Some(d) => match exec_template(d, props) {
            Ok(t) => Ok(Some(t)),
            Err(e) => Err(e),
        },
        None => Ok(None),
    }
}

// ---- dependencies ----------------------------------------------------------

/// The first plugin of that artifact, from the `i`th element on.
pub open spec fn plugin_element_from(
    list: Seq<ElementModel>,
    artifact: Seq<char>,
    i: int,
) -> Option<ElementModel>
    decreases list.len() - i,
{
    if i < 0 || i >= list.len() {
        None
    } else if list[i].text_of("artifactId"@) == Some(artifact) {
        Some(list[i])
    } else {
        plugin_element_from(list, artifact, i + 1)
    }
}

/// The first plugin of that artifact among elements.
pub fn find_plugin_element<'a>(list: &Vec<&'a Element>, artifact: &str) -> (r: Option<&'a Element>)
    ensures
        r.deep_view() == plugin_element_from(list.deep_view(), artifact@, 0),
{
    let ghost all = list.deep_view();
    let mut i: usize = 0;
    while i < list.len()
        invariant
            all == list.deep_view(),
            i <= list@.len(),
            plugin_element_from(all, artifact@, 0) == plugin_element_from(
                all,
                artifact@,
                i as int,
            ),
        decreases list@.len() - i,
    {
        assert(all[i as int] == list@[i as int].deep_view());
        if is_text(list[i].text_of("artifactId"), artifact) {
            return Some(list[i]);
        }
        i = i + 1;
    }
    None
}

/// The text of a child, where its properties have values.
pub open spec fn settled_text(e: ElementModel, name: Seq<char>, props: Properties) -> Option<
    Seq<char>,
> {
    match e.text_of(name) {
        Some(t) => if within(interpolated(t, props), "${"@) {
            None
        } else {
            Some(interpolated(t, props))
        },
        None => None,
    }
}

fn read_settled(e: &Element, name: &str, props: &Vec<(String, String)>) -> (r: Option<String>)
    ensures
        r.deep_view() == settled_text(e.deep_view(), name@, props.deep_view()),
{
    match e.text_of(name) {
        Some(t) => {
            let v = interpolate(t, props);
            if contains(v.as_str(), "${") {
                None
            } else {
                Some(v)
            }
        },
        None => None,
    }
}

/// The dependency of a plugin, or why it cannot be read.
pub open spec fn plugin_dependency(d: ElementModel, props: Properties) -> Result<
    DependencyModel,
    Seq<char>,
> {
    let group = settled_text(d, "groupId"@, props);
    let artifact = settled_text(d, "artifactId"@, props);
    let version = settled_text(d, "version"@, props);
    if group is Some && artifact is Some && version is Some && !range(version->0) {
        Ok(plain_dependency(group->0, artifact->0, version->0))
    } else {
        Err(
            "its plugin dependency "@ + text_or(group, ""@) + ":"@ + text_or(artifact, ""@)
                + " has no exact version jrs can read"@,
        )
    }
}

fn read_plugin_dependency(d: &Element, props: &Vec<(String, String)>) -> (r: Result<
    Dependency,
    String,
>)
    ensures
        outcome(r) == plugin_dependency(d.deep_view(), props.deep_view()),
{
    let group = read_settled(d, "groupId", props);
    let artifact = read_settled(d, "artifactId", props);
    let version = read_settled(d, "version", props);
    if let (Some(g), Some(a), Some(v)) = (&group, &artifact, &version) {
        if !is_range(v.as_str()) {
            return Ok(Dependency::new(g.as_str(), a.as_str(), v.as_str()));
        }
    }
    let g = match &group {
        Some(g) => g.as_str(),
        None => "",
    };
    let a = match &artifact {
        Some(a) => a.as_str(),
        None => "",
    };
    Err(
        cat5("its plugin dependency ", g, ":", a, " has no exact version jrs can read"),
    )
}

/// The dependencies of a plugin from the `i`th on, after those before.
pub open spec fn plugin_dependencies_from(
    list: Seq<ElementModel>,
    i: int,
    props: Properties,
    out: Seq<DependencyModel>,
) -> Result<Seq<DependencyModel>, Seq<char>>
    decreases list.len() - i,
{
    if i < 0 || i >= list.len() {
        Ok(out)
    } else {
        match plugin_dependency(list[i], props) {
            Ok(d) => plugin_dependencies_from(list, i + 1, props, out.push(d)),
            Err(e) => Err(e),
        }
    }
}

/// exec-maven-plugin's own `<dependencies>`.
pub open spec fn plugin_dependencies_of(pom: PomModel, props: Properties) -> Result<
    Seq<DependencyModel>,
    Seq<char>,
> {
    let plugin = match pom.root.grandchild("build"@, "plugins"@) {
        Some(plugins) => plugin_element_from(
            plugins.children_named("plugin"@),
            "exec-maven-plugin"@,
            0,
        ),
        None => None,
    };
    match plugin {
        Some(p) => plugin_dependencies_from(
            p.list("dependencies"@, "dependency"@),
            0,
            props,
            seq![],
        ),
        None => Ok(seq![]),
    }
}

/// exec-maven-plugin's own `<dependencies>`, which `includePluginDependencies`
/// puts on an `exec:java` classpath: a task's dependencies.
pub fn plugin_dependencies(pom: &Pom, props: &Vec<(String, String)>) -> (r: Result<
    Vec<Dependency>,
    String,
>)
    ensures
        outcome(r) == plugin_dependencies_of(pom.deep_view(), props.deep_view()),
{
    let plugin = match pom.root.grandchild("build", "plugins") {
        Some(plugins) => find_plugin_element(&plugins.children_named("plugin"), "exec-maven-plugin"),
        None => None,
    };
    let Some(p) = plugin else {
        return Ok(none_of());
    };
    let list = p.list("dependencies", "dependency");
    let ghost all = list.deep_view();
    let ghost pr = props.deep_view();
    let mut out: Vec<Dependency> = none_of();
    let mut i: usize = 0;
    while i < list.len()
        invariant
            all == list.deep_view(),
            pr == props.deep_view(),
            plugin_dependencies_of(pom.deep_view(), pr) == plugin_dependencies_from(
                all,
                0,
                pr,
                seq![],
            ),
            i <= list@.len(),
            plugin_dependencies_from(all, 0, pr, seq![]) == plugin_dependencies_from(
                all,
                i as int,
                pr,
                out.deep_view(),
            ),
        decreases list@.len() - i,
    {
        assert(all[i as int] == list@[i as int].deep_view());
        match read_plugin_dependency(list[i], props) {
            Ok(d) => {
                put(&mut out, d);
            },
            Err(e) => {
                return Err(e);
            },
        }
        i = i + 1;
    }
    Ok(out)
}

// ---- actions ---------------------------------------------------------------

/// What an execution runs.
pub struct Run {
    pub action: Action,
    pub args: Vec<Template>,
    pub depends_on: Vec<TaskRef>,
    pub dependencies: Vec<Dependency>,
    pub notes: Vec<String>,
}

/// What an execution runs.
pub struct RunModel {
    pub action: ActionModel,
    pub args: Seq<TemplateModel>,
    pub depends_on: Seq<TaskRefModel>,
    pub dependencies: Seq<DependencyModel>,
    pub notes: Seq<Seq<char>>,
}

impl DeepView for Run {
    type V = RunModel;

    open spec fn deep_view(&self) -> RunModel {
        RunModel {
            action: self.action.deep_view(),
            args: self.args.deep_view(),
            depends_on: self.depends_on.deep_view(),
            dependencies: self.dependencies.deep_view(),
            notes: self.notes.deep_view(),
        }
    }
}

/// The `exec` goal: a `run` of its executable.
pub open spec fn exec_goal(
    configs: Seq<ElementModel>,
    arguments: Seq<TemplateModel>,
    props: Properties,
) -> Result<RunModel, Seq<char>> {
    match text_in(configs, "executable"@) {
        None => Err("it names no <executable>"@),
        Some(executable) => match exec_template_of(executable, props) {
            Err(e) => Err(e),
            Ok(t) => if trimmed(t.raw).len() == 0 {
                Err("the program it runs is blank"@)
            } else {
                Ok(
                    RunModel {
                        action: ActionModel::Run(seq![t] + arguments),
                        args: seq![],
                        depends_on: seq![],
                        dependencies: seq![],
                        notes: seq![],
                    },
                )
            },
        },
    }
}

fn read_exec_goal(
    configs: &Vec<&Element>,
    arguments: Vec<Template>,
    props: &Vec<(String, String)>,
) -> (r: Result<Run, String>)
    ensures
        outcome(r) == exec_goal(configs.deep_view(), arguments.deep_view(), props.deep_view()),
{
    let Some(executable) = find_text(configs, "executable") else {
        return Err("it names no <executable>".to_owned());
    };
    let first = match exec_template(executable, props) {
        Ok(t) => t,
        Err(e) => {
            return Err(e);
        },
    };
    if trim(first.raw.as_str()).is_empty() {
        return Err("the program it runs is blank".to_owned());
    }
    let mut argv = one_of(first);
    put_all(&mut argv, arguments);
    Ok(
        Run {
            action: Action::Run(argv),
            args: none_of(),
            depends_on: none_of(),
            dependencies: none_of(),
            notes: none_of(),
        },
    )
}

/// The JVM flags of the system properties from the `i`th on, after those
/// before.
pub open spec fn flags_from(
    list: Seq<ElementModel>,
    i: int,
    props: Properties,
    out: Seq<TemplateModel>,
) -> Result<Seq<TemplateModel>, Seq<char>>
    decreases list.len() - i,
{
    if i < 0 || i >= list.len() {
        Ok(out)
    } else {
        match list[i].text_of("key"@) {
            None => Err("a <systemProperty> has no <key>"@),
            Some(key) => match exec_template_of(
                "-D"@ + key + "="@ + text_or(list[i].text_of("value"@), ""@),
                props,
            ) {
                Ok(t) => flags_from(list, i + 1, props, out.push(t)),
                Err(e) => Err(e),
            },
        }
    }
}

/// The JVM flags of an execution.
pub open spec fn flags_of(configs: Seq<ElementModel>, props: Properties) -> Result<
    Seq<TemplateModel>,
    Seq<char>,
> {
    match get(configs, "systemProperties"@) {
        Some(list) => flags_from(list.children_named("systemProperty"@), 0, props, seq![]),
        None => Ok(seq![]),
    }
}

fn read_flags(configs: &Vec<&Element>, props: &Vec<(String, String)>) -> (r: Result<
    Vec<Template>,
    String,
>)
    ensures
        outcome(r) == flags_of(configs.deep_view(), props.deep_view()),
{
    let Some(element) = find_in(configs, "systemProperties") else {
        return Ok(none_of());
    };
    let list = element.children_named("systemProperty");
    let ghost all = list.deep_view();
    let ghost p = props.deep_view();
    let mut out: Vec<Template> = none_of();
    let mut i: usize = 0;
    while i < list.len()
        invariant
            all == list.deep_view(),
            p == props.deep_view(),
            flags_of(configs.deep_view(), p) == flags_from(all, 0, p, seq![]),
            i <= list@.len(),
            flags_from(all, 0, p, seq![]) == flags_from(all, i as int, p, out.deep_view()),
        decreases list@.len() - i,
    {
        assert(all[i as int] == list@[i as int].deep_view());
        let Some(key) = list[i].text_of("key") else {
            return Err("a <systemProperty> has no <key>".to_owned());
        };
        let value = match list[i].text_of("value") {
            Some(v) => v,
            None => "",
        };
        match exec_template(cat4("-D", key, "=", value).as_str(), props) {
            Ok(t) => {
                put(&mut out, t);
            },
            Err(e) => {
                return Err(e);
            },
        }
        i = i + 1;
    }
    Ok(out)
}

/// A run of a main class on the project's classpath.
pub open spec fn project_run(
    main: Seq<char>,
    flags: Seq<TemplateModel>,
    arguments: Seq<TemplateModel>,
    hooked: bool,
) -> Result<RunModel, Seq<char>> {
    match template_of("@{classpath-argfile}"@) {
        Err(e) => Err(e),
        Ok(argfile) => Ok(
            RunModel {
                action: ActionModel::Run(
                    (seq![literal_template("java"@)] + flags).push(argfile).push(
                        literal_template(main),
                    ) + arguments,
                ),
                args: seq![],
                depends_on: if hooked {
                    seq![]
                } else {
                    seq![TaskRefModel::Builtin(Builtin::Build)]
                },
                dependencies: seq![],
                notes: seq![],
            },
        ),
    }
}

fn make_project_run(
    main: &str,
    flags: Vec<Template>,
    arguments: Vec<Template>,
    hooked: bool,
) -> (r: Result<Run, String>)
    ensures
        outcome(r) == project_run(main@, flags.deep_view(), arguments.deep_view(), hooked),
{
    let argfile = match Template::parse("@{classpath-argfile}") {
        Ok(t) => t,
        Err(e) => {
            return Err(e);
        },
    };
    let mut argv = one_of(Template::literal("java"));
    put_all(&mut argv, flags);
    put(&mut argv, argfile);
    put(&mut argv, Template::literal(main));
    put_all(&mut argv, arguments);
    // Only a `pre-compile` task runs before the classes exist; one run on its
    // own needs them built first.
    let depends_on = if hooked {
        none_of()
    } else {
        one_of(TaskRef::Builtin(Builtin::Build))
    };
    Ok(
        Run {
            action: Action::Run(argv),
            args: none_of(),
            depends_on,
            dependencies: none_of(),
            notes: none_of(),
        },
    )
}

/// The `java` goal: its main class on the project's classpath, or on the
/// plugin's own dependencies as the task's, when the execution asks for
/// those.
pub open spec fn java_goal(
    configs: Seq<ElementModel>,
    arguments: Seq<TemplateModel>,
    hooked: bool,
    pom: PomModel,
    props: Properties,
) -> Result<RunModel, Seq<char>> {
    match text_in(configs, "mainClass"@) {
        None => Err("it names no <mainClass>"@),
        Some(raw) => {
            let main = interpolated(raw, props);
            if within(main, "${"@) {
                Err("its <mainClass> `"@ + main + "` did not interpolate"@)
            } else {
                match flags_of(configs, props) {
                    Err(e) => Err(e),
                    Ok(flags) => {
                        let own = text_in(configs, "includePluginDependencies"@) == Some("true"@);
                        let project = text_in(configs, "includeProjectDependencies"@) != Some(
                            "false"@,
                        );
                        let dependencies: Result<Seq<DependencyModel>, Seq<char>> = if own {
                            plugin_dependencies_of(pom, props)
                        } else {
                            Ok(seq![])
                        };
                        match dependencies {
                            Err(e) => Err(e),
                            Ok(dependencies) => if dependencies.len() > 0 {
                                if flags.len() > 0 {
                                    Err(
                                        "<systemProperties> with the plugin's own dependencies: a `main` task takes no JVM flags"@,
                                    )
                                } else {
                                    Ok(
                                        RunModel {
                                            action: ActionModel::Main(main),
                                            args: arguments,
                                            depends_on: seq![],
                                            dependencies,
                                            notes: if project {
                                                seq![
                                                    "exec:java put the project's classpath on it too; the task runs on the plugin's dependencies alone"@,
                                                ]
                                            } else {
                                                seq![]
                                            },
                                        },
                                    )
                                }
                            } else if project {
                                project_run(main, flags, arguments, hooked)
                            } else {
                                Err(
                                    "it runs with neither the project's dependencies nor the plugin's"@,
                                )
                            },
                        }
                    },
                }
            }
        },
    }
}

fn read_java_goal(
    configs: &Vec<&Element>,
    arguments: Vec<Template>,
    hooked: bool,
    pom: &Pom,
    props: &Vec<(String, String)>,
) -> (r: Result<Run, String>)
    ensures
        outcome(r) == java_goal(
            configs.deep_view(),
            arguments.deep_view(),
            hooked,
            pom.deep_view(),
            props.deep_view(),
        ),
{
    let Some(raw) = find_text(configs, "mainClass") else {
        return Err("it names no <mainClass>".to_owned());
    };
    let main = interpolate(raw, props);
    if contains(main.as_str(), "${") {
        return Err(cat3("its <mainClass> `", main.as_str(), "` did not interpolate"));
    }
    let flags = match read_flags(configs, props) {
        Ok(f) => f,
        Err(e) => {
            return Err(e);
        },
    };
    let own = is_text(find_text(configs, "includePluginDependencies"), "true");
    let project = !is_text(find_text(configs, "includeProjectDependencies"), "false");
    let dependencies = if own {
        match plugin_dependencies(pom, props) {
            Ok(d) => d,
            Err(e) => {
                return Err(e);
            },
        }
    } else {
        none_of()
    };
    assert(dependencies.deep_view().len() == dependencies@.len());
    assert(flags.deep_view().len() == flags@.len());
    if dependencies.len() > 0 {
        if flags.len() > 0 {
            return Err(
                "<systemProperties> with the plugin's own dependencies: a `main` task takes no JVM flags".to_owned(),
            );
        }
        let notes = if project {
            one_of(
                "exec:java put the project's classpath on it too; the task runs on the plugin's dependencies alone".to_owned(),
            )
        } else {
            none_of()
        };
        return Ok(
            Run {
                action: Action::Main(main),
                args: arguments,
                depends_on: none_of(),
                dependencies,
                notes,
            },
        );
    }
    if project {
        make_project_run(main.as_str(), flags, arguments, hooked)
    } else {
        Err("it runs with neither the project's dependencies nor the plugin's".to_owned())
    }
}

// ---- tasks -----------------------------------------------------------------

/// One translated execution.
pub struct ExecTask {
    pub def: TaskDef,
    pub hook: Option<Hook>,
    pub notes: Vec<String>,
}

/// One translated execution.
pub struct ExecTaskModel {
    pub def: TaskModel,
    pub hook: Option<Hook>,
    pub notes: Seq<Seq<char>>,
}

impl DeepView for ExecTask {
    type V = ExecTaskModel;

    open spec fn deep_view(&self) -> ExecTaskModel {
        ExecTaskModel {
            def: self.def.deep_view(),
            hook: self.hook,
            notes: self.notes.deep_view(),
        }
    }
}

/// The task of what an execution runs.
pub open spec fn task_of_run(
    name: Seq<char>,
    run: RunModel,
    env: Seq<(Seq<char>, TemplateModel)>,
    cwd: Option<TemplateModel>,
    hook: Option<Hook>,
) -> ExecTaskModel {
    ExecTaskModel {
        def: TaskModel {
            name,
            description: None,
            action: Some(run.action),
            args: run.args,
            depends_on: run.depends_on,
            env,
            cwd,
            inputs: seq![],
            outputs: seq![],
            source_outputs: seq![],
            resource_outputs: seq![],
            dependencies: run.dependencies,
        },
        hook,
        notes: if hook == Some(Hook::PreCompile) {
            run.notes.push(
                "if it generates sources, list their directory (under target/) in its `source-outputs`, so the build compiles them"@,
            )
        } else {
            run.notes
        },
    }
}

/// What an execution runs for a goal.
pub open spec fn goal_run(
    goal: Seq<char>,
    configs: Seq<ElementModel>,
    arguments: Seq<TemplateModel>,
    hooked: bool,
    pom: PomModel,
    props: Properties,
) -> Result<RunModel, Seq<char>> {
    if goal == "exec"@ {
        exec_goal(configs, arguments, props)
    } else if goal == "java"@ {
        java_goal(configs, arguments, hooked, pom, props)
    } else {
        Err("its goal `"@ + goal + "` is not `exec` or `java`"@)
    }
}

/// The task of an execution, or why it is none.
pub open spec fn exec_task_of(
    id: Seq<char>,
    goal: Seq<char>,
    several: bool,
    execution: ElementModel,
    plugin: PluginModel,
    pom: PomModel,
    props: Properties,
    tasks: Seq<TaskModel>,
) -> Result<ExecTaskModel, Seq<char>> {
    let configs = configs_of(execution, plugin);
    match refusal_of(configs) {
        Some(why) => Err(why),
        None => match execution_hook(execution) {
            Err(e) => Err(e),
            Ok(hook) => match execution_name(id, goal, several, tasks) {
                Err(e) => Err(e),
                Ok(name) => match execution_arguments(configs, goal, props) {
                    Err(e) => Err(e),
                    Ok(arguments) => match execution_environment(configs, props) {
                        Err(e) => Err(e),
                        Ok(env) => match execution_directory(configs, props) {
                            Err(e) => Err(e),
                            Ok(cwd) => match goal_run(
                                goal,
                                configs,
                                arguments,
                                hook is Some,
                                pom,
                                props,
                            ) {
                                Err(e) => Err(e),
                                Ok(run) => Ok(task_of_run(name, run, env, cwd, hook)),
                            },
                        },
                    },
                },
            },
        },
    }
}

fn make_task(
    name: String,
    run: Run,
    env: Vec<(String, Template)>,
    cwd: Option<Template>,
    hook: Option<Hook>,
) -> (r: ExecTask)
    ensures
        r.deep_view() == task_of_run(
            name@,
            run.deep_view(),
            env.deep_view(),
            cwd.deep_view(),
            hook,
        ),
{
    let mut notes = run.notes;
    if hook == Some(Hook::PreCompile) {
        put(
            &mut notes,
            "if it generates sources, list their directory (under target/) in its `source-outputs`, so the build compiles them".to_owned(),
        );
    }
    ExecTask {
        def: TaskDef {
            name,
            description: None,
            action: Some(run.action),
            args: run.args,
            depends_on: run.depends_on,
            env,
            cwd,
            inputs: none_of(),
            outputs: none_of(),
            source_outputs: none_of(),
            resource_outputs: none_of(),
            dependencies: run.dependencies,
        },
        hook,
        notes,
    }
}

/// One execution's task: its own configuration wins over the plugin's, key by
/// key.
pub fn exec_task(
    id: &str,
    goal: &str,
    several_goals: bool,
    execution: &Element,
    plugin: &PluginInfo,
    pom: &Pom,
    effective: &Effective,
    out: &Manifest,
) -> (r: Result<ExecTask, String>)
    ensures
        outcome(r) == exec_task_of(
            id@,
            goal@,
            several_goals,
            execution.deep_view(),
            plugin.deep_view(),
            pom.deep_view(),
            effective.deep_view().properties,
            out.deep_view().tasks,
        ),
{
    let configs = list_configs(execution, plugin);
    let props = &effective.properties;
    if let Some(why) = find_refusal(&configs) {
        return Err(why);
    }
    let hook = match find_execution_hook(execution) {
        Ok(h) => h,
        Err(e) => {
            return Err(e);
        },
    };
    let name = match name_execution(id, goal, several_goals, &out.tasks) {
        Ok(n) => n,
        Err(e) => {
            return Err(e);
        },
    };
    let arguments = match read_arguments(&configs, goal, props) {
        Ok(a) => a,
        Err(e) => {
            return Err(e);
        },
    };
    let env = match read_environment(&configs, props) {
        Ok(v) => v,
        Err(e) => {
            return Err(e);
        },
    };
    let cwd = match read_directory(&configs, props) {
        Ok(d) => d,
        Err(e) => {
            return Err(e);
        },
    };
    let run = if same(goal, "exec") {
        read_exec_goal(&configs, arguments, props)
    } else if same(goal, "java") {
        read_java_goal(&configs, arguments, hook.is_some(), pom, props)
    } else {
        Err(cat3("its goal `", goal, "` is not `exec` or `java`"))
    };
    match run {
        Ok(run) => Ok(make_task(name, run, env, cwd, hook)),
        Err(e) => Err(e),
    }
}

// ---- the plugin ------------------------------------------------------------

/// The goals of the elements from the `i`th on, after those before.
pub open spec fn goals_from(list: Seq<ElementModel>, i: int, out: Seq<Seq<char>>) -> Seq<Seq<char>>
    decreases list.len() - i,
{
    if i < 0 || i >= list.len() {
        out
    } else if trimmed(list[i].text).len() > 0 {
        goals_from(list, i + 1, out.push(trimmed(list[i].text)))
    } else {
        goals_from(list, i + 1, out)
    }
}

fn list_goals(execution: &Element) -> (r: Vec<String>)
    ensures
        r.deep_view() == goals_from(execution.deep_view().list("goals"@, "goal"@), 0, seq![]),
{
    let list = execution.list("goals", "goal");
    let ghost all = list.deep_view();
    let mut out: Vec<String> = none_of();
    let mut i: usize = 0;
    while i < list.len()
        invariant
            all == list.deep_view(),
            i <= list@.len(),
            goals_from(all, 0, seq![]) == goals_from(all, i as int, out.deep_view()),
        decreases list@.len() - i,
    {
        assert(all[i as int] == list@[i as int].deep_view());
        if !list[i].trimmed().is_empty() {
            put(&mut out, list[i].trimmed().to_owned());
        }
        i = i + 1;
    }
    out
}

/// The report of the notes from the `i`th on.
pub open spec fn notes_told(
    name: Seq<char>,
    notes: Seq<Seq<char>>,
    i: int,
    told: ReportModel,
) -> ReportModel
    decreases notes.len() - i,
{
    if i < 0 || i >= notes.len() {
        told
    } else {
        notes_told(
            name,
            notes,
            i + 1,
            told.with_review("[tasks."@ + name + "] — "@ + notes[i]),
        )
    }
}

fn tell_notes(name: &str, notes: &Vec<String>, report: &mut Report)
    ensures
        final(report).deep_view() == notes_told(
            name@,
            notes.deep_view(),
            0,
            old(report).deep_view(),
        ),
{
    let ghost all = notes.deep_view();
    let ghost start = report.deep_view();
    let mut i: usize = 0;
    while i < notes.len()
        invariant
            all == notes.deep_view(),
            i <= notes@.len(),
            notes_told(name@, all, 0, start) == notes_told(
                name@,
                all,
                i as int,
                report.deep_view(),
            ),
        decreases notes@.len() - i,
    {
        assert(all[i as int] == notes@[i as int]@);
        report.review(cat4("[tasks.", name, "] — ", notes[i].as_str()));
        i = i + 1;
    }
}

/// The manifest and the report once one goal of an execution is read.
pub open spec fn with_goal(
    m: ManifestModel,
    told: ReportModel,
    id: Seq<char>,
    goal: Seq<char>,
    several: bool,
    execution: ElementModel,
    plugin: PluginModel,
    pom: PomModel,
    props: Properties,
) -> (ManifestModel, ReportModel) {
    let what = if several {
        "`"@ + id + "` ("@ + goal + ")"@
    } else {
        "`"@ + id + "`"@
    };
    match exec_task_of(id, goal, several, execution, plugin, pom, props, m.tasks) {
        Err(why) => (
            m,
            told.with_skipped("exec-maven-plugin execution "@ + what + " — "@ + why),
        ),
        Ok(task) => (
            ManifestModel {
                tasks: m.tasks.push(task.def),
                hooks: match task.hook {
                    Some(hook) => hooked(m.hooks, hook, task.def.name),
                    None => m.hooks,
                },
                ..m
            },
            notes_told(
                task.def.name,
                task.notes,
                0,
                told.with_migrated(
                    "exec-maven-plugin execution "@ + what + " → [tasks."@ + task.def.name + "]"@
                        + (match task.hook {
                        Some(hook) => ", run by hooks."@ + hook.word(),
                        None => ""@,
                    }),
                ),
            ),
        ),
    }
}

fn read_goal(
    id: &str,
    goal: &str,
    several: bool,
    execution: &Element,
    plugin: &PluginInfo,
    pom: &Pom,
    effective: &Effective,
    out: &mut Manifest,
    report: &mut Report,
)
    ensures
        (final(out).deep_view(), final(report).deep_view()) == with_goal(
            old(out).deep_view(),
            old(report).deep_view(),
            id@,
            goal@,
            several,
            execution.deep_view(),
            plugin.deep_view(),
            pom.deep_view(),
            effective.deep_view().properties,
        ),
{
    let what = if several {
        cat5("`", id, "` (", goal, ")")
    } else {
        cat3("`", id, "`")
    };
    match exec_task(id, goal, several, execution, plugin, pom, effective, out) {
        Ok(task) => {
            let name = task.def.name.clone();
            let by_hook = match task.hook {
                Some(h) => cat2(", run by hooks.", h.name()),
                None => "".to_owned(),
            };
            report.migrated(
                crate::text::cat6(
                    "exec-maven-plugin execution ",
                    what.as_str(),
                    " → [tasks.",
                    name.as_str(),
                    "]",
                    by_hook.as_str(),
                ),
            );
            tell_notes(name.as_str(), &task.notes, report);
            put(&mut out.tasks, task.def);
            if let Some(hook) = task.hook {
                out.hooks.add(hook, name.as_str());
            }
        },
        Err(why) => {
            report.skipped(
                cat4("exec-maven-plugin execution ", what.as_str(), " — ", why.as_str()),
            );
        },
    }
}

/// The manifest and the report once the goals of an execution from the `i`th
/// on are read.
pub open spec fn goals_read(
    goals: Seq<Seq<char>>,
    i: int,
    id: Seq<char>,
    execution: ElementModel,
    plugin: PluginModel,
    pom: PomModel,
    props: Properties,
    m: ManifestModel,
    told: ReportModel,
) -> (ManifestModel, ReportModel)
    decreases goals.len() - i,
{
    if i < 0 || i >= goals.len() {
        (m, told)
    } else {
        let (m, told) = with_goal(
            m,
            told,
            id,
            goals[i],
            goals.len() > 1,
            execution,
            plugin,
            pom,
            props,
        );
        goals_read(goals, i + 1, id, execution, plugin, pom, props, m, told)
    }
}

/// The manifest and the report once an execution is read.
pub open spec fn execution_read(
    execution: ElementModel,
    plugin: PluginModel,
    pom: PomModel,
    props: Properties,
    m: ManifestModel,
    told: ReportModel,
) -> (ManifestModel, ReportModel) {
    let id = text_or(execution.text_of("id"@), "default"@);
    let goals = goals_from(execution.list("goals"@, "goal"@), 0, seq![]);
    if goals.len() == 0 {
        (
            m,
            told.with_skipped(
                "exec-maven-plugin execution `"@ + id + "` — it names no <goal>"@,
            ),
        )
    } else {
        goals_read(goals, 0, id, execution, plugin, pom, props, m, told)
    }
}

fn read_execution(
    execution: &Element,
    plugin: &PluginInfo,
    pom: &Pom,
    effective: &Effective,
    out: &mut Manifest,
    report: &mut Report,
)
    ensures
        (final(out).deep_view(), final(report).deep_view()) == execution_read(
            execution.deep_view(),
            plugin.deep_view(),
            pom.deep_view(),
            effective.deep_view().properties,
            old(out).deep_view(),
            old(report).deep_view(),
        ),
{
    let id = match execution.text_of("id") {
        Some(id) => id,
        None => "default",
    };
    let goals = list_goals(execution);
    let ghost all = goals.deep_view();
    assert(all.len() == goals@.len());
    if goals.len() == 0 {
        report.skipped(
            cat3("exec-maven-plugin execution `", id, "` — it names no <goal>"),
        );
        return ;
    }
    let several = goals.len() > 1;
    let ghost start = (out.deep_view(), report.deep_view());
    let mut i: usize = 0;
    while i < goals.len()
        invariant
            all == goals.deep_view(),
            several == (all.len() > 1),
            i <= goals@.len(),
            goals_read(
                all,
                0,
                id@,
                execution.deep_view(),
                plugin.deep_view(),
                pom.deep_view(),
                effective.deep_view().properties,
                start.0,
                start.1,
            ) == goals_read(
                all,
                i as int,
                id@,
                execution.deep_view(),
                plugin.deep_view(),
                pom.deep_view(),
                effective.deep_view().properties,
                out.deep_view(),
                report.deep_view(),
            ),
        decreases goals@.len() - i,
    {
        assert(all[i as int] == goals@[i as int]@);
        read_goal(
            id,
            goals[i].as_str(),
            several,
            execution,
            plugin,
            pom,
            effective,
            out,
            report,
        );
        i = i + 1;
    }
}

/// The manifest and the report once the executions from the `i`th on are read.
pub open spec fn executions_read(
    executions: Seq<ElementModel>,
    i: int,
    plugin: PluginModel,
    pom: PomModel,
    props: Properties,
    m: ManifestModel,
    told: ReportModel,
) -> (ManifestModel, ReportModel)
    decreases executions.len() - i,
{
    if i < 0 || i >= executions.len() {
        (m, told)
    } else {
        let (m, told) = execution_read(executions[i], plugin, pom, props, m, told);
        executions_read(executions, i + 1, plugin, pom, props, m, told)
    }
}

/// The first plugin of that artifact, from the `i`th on.
pub open spec fn plugin_from(plugins: Seq<PluginModel>, artifact: Seq<char>, i: int) -> Option<
    PluginModel,
>
    decreases plugins.len() - i,
{
    if i < 0 || i >= plugins.len() {
        None
    } else if plugins[i].artifact == artifact {
        Some(plugins[i])
    } else {
        plugin_from(plugins, artifact, i + 1)
    }
}

/// The plugin of that artifact.
pub open spec fn plugin_in(pom: PomModel, artifact: Seq<char>) -> Option<PluginModel> {
    plugin_from(pom.build.plugins, artifact, 0)
}

/// The plugin of that artifact.
pub fn plugin<'a>(pom: &'a Pom, artifact: &str) -> (r: Option<&'a PluginInfo>)
    ensures
        r.deep_view() == plugin_in(pom.deep_view(), artifact@),
{
    let ghost all = pom.build.plugins.deep_view();
    let mut i: usize = 0;
    while i < pom.build.plugins.len()
        invariant
            all == pom.build.plugins.deep_view(),
            i <= pom.build.plugins@.len(),
            plugin_from(all, artifact@, 0) == plugin_from(all, artifact@, i as int),
        decreases pom.build.plugins@.len() - i,
    {
        assert(all[i as int] == pom.build.plugins@[i as int].deep_view());
        if same(pom.build.plugins[i].artifact.as_str(), artifact) {
            return Some(&pom.build.plugins[i]);
        }
        i = i + 1;
    }
    None
}

/// The main class that a plugin without executions runs.
pub open spec fn plugin_main(plugin: PluginModel) -> Option<Seq<char>> {
    match plugin.configuration {
        Some(c) => match c.text_of("mainClass"@) {
            Some(m) => if within(m, "${"@) {
                None
            } else {
                Some(m)
            },
            None => None,
        },
        None => None,
    }
}

fn find_plugin_main(plugin: &PluginInfo) -> (r: Option<&str>)
    ensures
        r.deep_view() == plugin_main(plugin.deep_view()),
{
    match &plugin.configuration {
        Some(c) => match c.text_of("mainClass") {
            Some(m) => if contains(m, "${") {
                None
            } else {
                Some(m)
            },
            None => None,
        },
        None => None,
    }
}

/// The manifest and the report once exec-maven-plugin is read.
pub open spec fn exec_read(pom: PomModel, props: Properties, m: ManifestModel, told: ReportModel) -> (
    ManifestModel,
    ReportModel,
) {
    match plugin_in(pom, "exec-maven-plugin"@) {
        None => (m, told),
        Some(plugin) => if plugin.executions.len() == 0 {
            match plugin_main(plugin) {
                Some(main) => if m.main_class is None {
                    (
                        ManifestModel { main_class: Some(main), ..m },
                        told.with_migrated(
                            "project.main-class = "@ + main
                                + " (from exec-maven-plugin, which `mvn exec:java` runs)"@,
                        ),
                    )
                } else {
                    (m, told)
                },
                None => (
                    m,
                    told.with_skipped(
                        "plugin exec-maven-plugin — no <execution> and no <mainClass>; what `mvn exec:exec` runs from the command line can be a task"@,
                    ),
                ),
            }
        } else {
            executions_read(plugin.executions, 0, plugin, pom, props, m, told)
        },
    }
}

/// `exec-maven-plugin`: each `<execution>` becomes a task, and its `<phase>`
/// the hook that fires it. `exec` is a `run` of its executable; `java` runs
/// its main class on the project's classpath, or on the plugin's own
/// `<dependencies>` as the task's, when the execution asks for those. An
/// execution jrs cannot translate whole is reported, whole: half a task would
/// run and do the wrong thing. A plugin with no execution is what `mvn
/// exec:java` runs: its main class is the program's.
pub fn read_exec(pom: &Pom, effective: &Effective, out: &mut Manifest, report: &mut Report)
    ensures
        (final(out).deep_view(), final(report).deep_view()) == exec_read(
            pom.deep_view(),
            effective.deep_view().properties,
            old(out).deep_view(),
            old(report).deep_view(),
        ),
{
    let Some(plugin) = plugin(pom, "exec-maven-plugin") else {
        return ;
    };
    let ghost all = plugin.executions.deep_view();
    assert(all.len() == plugin.executions@.len());
    if plugin.executions.len() == 0 {
        match find_plugin_main(plugin) {
            Some(main) => {
                if out.main_class.is_none() {
                    out.main_class = Some(main.to_owned());
                    report.migrated(
                        cat3(
                            "project.main-class = ",
                            main,
                            " (from exec-maven-plugin, which `mvn exec:java` runs)",
                        ),
                    );
                }
            },
            None => {
                report.skipped(
                    "plugin exec-maven-plugin — no <execution> and no <mainClass>; what `mvn exec:exec` runs from the command line can be a task".to_owned(),
                );
            },
        }
        return ;
    }
    let ghost start = (out.deep_view(), report.deep_view());
    let mut i: usize = 0;
    while i < plugin.executions.len()
        invariant
            all == plugin.executions.deep_view(),
            i <= plugin.executions@.len(),
            executions_read(
                all,
                0,
                plugin.deep_view(),
                pom.deep_view(),
                effective.deep_view().properties,
                start.0,
                start.1,
            ) == executions_read(
                all,
                i as int,
                plugin.deep_view(),
                pom.deep_view(),
                effective.deep_view().properties,
                out.deep_view(),
                report.deep_view(),
            ),
        decreases plugin.executions@.len() - i,
    {
        assert(all[i as int] == plugin.executions@[i as int].deep_view());
        read_execution(&plugin.executions[i], plugin, pom, effective, out, report);
        i = i + 1;
    }
}

} // verus!
