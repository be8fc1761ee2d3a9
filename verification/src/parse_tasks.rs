//! Reading tasks, hooks and the environments processes get.

use crate::chars::{digit, is_digit, is_lower, lower};
use crate::coord::Ga;
use crate::dependency::{Dependency, DependencyModel};
use crate::error::{Fault, JrsError};
use crate::keys::{
    class_fault, key_warnings, optional_string, optional_text, string_array, subtable, text_list,
    unknown_key_message, validate_class_name, warn_unknown,
};
use crate::parse_dependencies::{dependency_table, parse_dependency_table};
use crate::task::{
    builtin_named, every_hook, in_order, refers, Action, ActionModel, Builtin, Hook, HookLists,
    Hooks, TaskDef, TaskModel, TaskRef, TaskRefModel,
};
use crate::template::{template_of, Placeholder, Template, TemplateModel};
use crate::text::{
    capital, cat2, cat3, cat4, cat5, cat6, cat7, chars, includes, has_char, join, joined, none_of,
    outcome, pieces, put, same, split, starts, starts_with, to_capital, trim, trimmed,
};
use crate::value::{entry, Entries, Table};
use vstd::prelude::*;

verus! {

// ---- names -----------------------------------------------------------------

/// Every `jrs` subcommand. A task may not take one of these names, so that
/// `depends-on` is never ambiguous and a task can never shadow a command.
pub open spec fn reserved(name: Seq<char>) -> bool {
    ||| name == "build"@
    ||| name == "test"@
    ||| name == "run"@
    ||| name == "package"@
    ||| name == "doc"@
    ||| name == "clean"@
    ||| name == "tree"@
    ||| name == "classpath"@
    ||| name == "update"@
    ||| name == "verify"@
    ||| name == "outdated"@
    ||| name == "add"@
    ||| name == "remove"@
    ||| name == "cache"@
    ||| name == "init"@
    ||| name == "migrate"@
    ||| name == "completions"@
    ||| name == "task"@
    ||| name == "help"@
    ||| name == "metadata"@
    ||| name == "fetch"@
}

/// Whether `name` is a `jrs` subcommand's.
pub fn is_reserved(name: &str) -> (r: bool)
    ensures
        r == reserved(name@),
{
    same(name, "build") || same(name, "test") || same(name, "run") || same(name, "package") || same(
        name,
        "doc",
    ) || same(name, "clean") || same(name, "tree") || same(name, "classpath") || same(
        name,
        "update",
    ) || same(name, "verify") || same(name, "outdated") || same(name, "add") || same(
        name,
        "remove",
    ) || same(name, "cache") || same(name, "init") || same(name, "migrate") || same(
        name,
        "completions",
    ) || same(name, "task") || same(name, "help") || same(name, "metadata") || same(name, "fetch")
}

/// Lowercase letters, digits and `-`, starting with a letter.
pub open spec fn task_word(name: Seq<char>) -> bool {
    name.len() > 0 && lower(name[0]) && forall|i: int|
        0 <= i < name.len() ==> lower(#[trigger] name[i]) || digit(name[i]) || name[i] == '-'
}

pub open spec fn task_name_fault(name: Seq<char>) -> Option<Fault> {
    if !task_word(name) {
        Some(
            Fault::Manifest(
                "`tasks."@ + name
                    + "`: a task name is lowercase letters, digits and `-`, starting with a letter"@,
            ),
        )
    } else if reserved(name) {
        Some(
            Fault::Manifest(
                "`tasks."@ + name + "`: `"@ + name
                    + "` is a jrs command, so it cannot be a task name"@,
            ),
        )
    } else {
        None
    }
}

pub fn is_task_word(name: &str) -> (r: bool)
    ensures
        r == task_word(name@),
{
    let cs = chars(name);
    if cs.len() == 0 || !is_lower(cs[0]) {
        return false;
    }
    let mut i: usize = 0;
    while i < cs.len()
        invariant
            cs@ == name@,
            i <= cs@.len(),
            forall|j: int|
                0 <= j < i ==> lower(#[trigger] cs@[j]) || digit(cs@[j]) || cs@[j] == '-',
        decreases cs@.len() - i,
    {
        let c: char = cs[i];
        if !(is_lower(c) || is_digit(c) || c == '-') {
            assert(!lower(name@[i as int]));
            return false;
        }
        i = i + 1;
    }
    true
}

/// What is wrong with a task's name.
pub fn validate_task_name(name: &str) -> (r: Option<JrsError>)
    ensures
        r.deep_view() == task_name_fault(name@),
{
    if !is_task_word(name) {
        return Some(
            JrsError::Manifest(
                cat3(
                    "`tasks.",
                    name,
                    "`: a task name is lowercase letters, digits and `-`, starting with a letter",
                ),
            ),
        );
    }
    if is_reserved(name) {
        return Some(
            JrsError::Manifest(
                cat5(
                    "`tasks.",
                    name,
                    "`: `",
                    name,
                    "` is a jrs command, so it cannot be a task name",
                ),
            ),
        );
    }
    None
}

// ---- templates -------------------------------------------------------------

/// The template that `raw` is; `name` is how a message names it.
pub open spec fn named_template(raw: Seq<char>, name: Seq<char>) -> Result<TemplateModel, Fault> {
    match template_of(raw) {
        Ok(t) => Ok(t),
        Err(e) => Err(Fault::Manifest("`"@ + name + "`: "@ + e)),
    }
}

pub fn parse_template(raw: &str, name: &str) -> (r: Result<Template, JrsError>)
    ensures
        outcome(r) == named_template(raw@, name@),
{
    match Template::parse(raw) {
        Ok(t) => Ok(t),
        Err(e) => Err(JrsError::Manifest(cat4("`", name, "`: ", e.as_str()))),
    }
}

pub open spec fn templates_from(
    raw: Seq<Seq<char>>,
    i: int,
    out: Seq<TemplateModel>,
    name: Seq<char>,
) -> Result<Seq<TemplateModel>, Fault>
    decreases raw.len() - i,
{
    if i < 0 || i >= raw.len() {
        Ok(out)
    } else {
        match named_template(raw[i], name) {
            Err(e) => Err(e),
            Ok(t) => templates_from(raw, i + 1, out.push(t), name),
        }
    }
}

/// What `key` may hold: an array of templates.
pub open spec fn template_list(t: Entries, key: Seq<char>, section: Seq<char>) -> Result<
    Seq<TemplateModel>,
    Fault,
> {
    match text_list(t, key, section) {
        Err(e) => Err(e),
        Ok(raw) => templates_from(raw, 0, seq![], section + "."@ + key),
    }
}

fn template_array(t: &Table, key: &str, section: &str) -> (r: Result<Vec<Template>, JrsError>)
    ensures
        outcome(r) == template_list(t.deep_view(), key@, section@),
{
    let raw = match string_array(t, key, section) {
        Ok(raw) => raw,
        Err(e) => {
            return Err(e);
        },
    };
    let name = cat3(section, ".", key);
    let ghost all = raw.deep_view();
    let mut out: Vec<Template> = none_of();
    let mut i: usize = 0;
    while i < raw.len()
        invariant
            all == raw.deep_view(),
            name@ == section@ + "."@ + key@,
            i <= raw@.len(),
            template_list(t.deep_view(), key@, section@) == templates_from(
                all,
                i as int,
                out.deep_view(),
                name@,
            ),
        decreases raw@.len() - i,
    {
        assert(all[i as int] == raw@[i as int]@);
        match parse_template(raw[i].as_str(), name.as_str()) {
            Ok(template) => {
                put(&mut out, template);
            },
            Err(e) => {
                return Err(e);
            },
        }
        i = i + 1;
    }
    Ok(out)
}

/// What `key` may hold: a template.
pub open spec fn optional_template(t: Entries, key: Seq<char>, section: Seq<char>) -> Result<
    Option<TemplateModel>,
    Fault,
> {
    match optional_text(t, key, section) {
        Err(e) => Err(e),
        Ok(None) => Ok(None),
        Ok(Some(raw)) => match named_template(raw, section + "."@ + key) {
            Err(e) => Err(e),
            Ok(template) => Ok(Some(template)),
        },
    }
}

pub fn read_template_key(t: &Table, key: &str, section: &str) -> (r: Result<
    Option<Template>,
    JrsError,
>)
    ensures
        outcome(r) == optional_template(t.deep_view(), key@, section@),
{
    match optional_string(t, key, section) {
        Err(e) => Err(e),
        Ok(None) => Ok(None),
        Ok(Some(raw)) => match parse_template(raw.as_str(), cat3(section, ".", key).as_str()) {
            Err(e) => Err(e),
            Ok(template) => Ok(Some(template)),
        },
    }
}

/// The first placeholder from `i` on that is a classpath.
pub open spec fn classpath_from(ps: Seq<Placeholder>, i: int) -> Option<Placeholder>
    decreases ps.len() - i,
{
    if i < 0 || i >= ps.len() {
        None
    } else if ps[i].on_classpath() {
        Some(ps[i])
    } else {
        classpath_from(ps, i + 1)
    }
}

/// The first placeholder of a template that is a classpath.
pub fn first_classpath(t: &Template) -> (r: Option<Placeholder>)
    ensures
        r == classpath_from(t.deep_view().placeholders(), 0),
{
    let ps = t.placeholders();
    let mut i: usize = 0;
    while i < ps.len()
        invariant
            ps@ == t.deep_view().placeholders(),
            i <= ps@.len(),
            classpath_from(ps@, 0) == classpath_from(ps@, i as int),
        decreases ps@.len() - i,
    {
        if ps[i].is_classpath() {
            return Some(ps[i]);
        }
        i = i + 1;
    }
    None
}

// ---- environments ----------------------------------------------------------

/// The variables from `i` on of an `env` table, after those before it.
pub open spec fn env_from(
    t: Entries,
    section: Seq<char>,
    tail: Seq<char>,
    i: int,
    out: Seq<(Seq<char>, TemplateModel)>,
) -> Result<Seq<(Seq<char>, TemplateModel)>, Fault>
    decreases t.len() - i,
{
    if i < 0 || i >= t.len() {
        Ok(out)
    } else {
        let (key, value) = t[i];
        match value.text() {
            None => Err(
                Fault::Manifest("`"@ + section + ".env."@ + key + "` must be a string"@),
            ),
            Some(raw) => if key.len() == 0 || includes(key, '=') || includes(key, '\0') {
                Err(
                    Fault::Manifest(
                        "`"@ + section + ".env`: `"@ + key
                            + "` is not an environment variable name"@,
                    ),
                )
            } else if starts(capital(key), "JRS_"@) {
                Err(
                    Fault::Manifest(
                        "`"@ + section + ".env."@ + key
                            + "`: names starting with `JRS_` are jrs's own"@ + tail,
                    ),
                )
            } else {
                match named_template(raw, section + ".env."@ + key) {
                    Err(e) => Err(e),
                    Ok(template) => env_from(t, section, tail, i + 1, out.push((key, template))),
                }
            },
        }
    }
}

/// An `env` table, in order; `tail` finishes the sentence that says whose the
/// `JRS_*` names are.
pub open spec fn env_of(t: Entries, section: Seq<char>, tail: Seq<char>) -> Result<
    Seq<(Seq<char>, TemplateModel)>,
    Fault,
> {
    match entry(t, "env"@) {
        None => Ok(seq![]),
        Some(v) => match v.table() {
            None => Err(
                Fault::Manifest("`"@ + section + ".env` must be a table of strings"@),
            ),
            Some(vars) => env_from(vars, section, tail, 0, seq![]),
        },
    }
}

/// An `env` table, in declaration order: names to templates. `JRS_*` names are
/// jrs's; `tail` finishes the sentence that says so.
pub fn parse_env(t: &Table, section: &str, tail: &str) -> (r: Result<
    Vec<(String, Template)>,
    JrsError,
>)
    ensures
        outcome(r) == env_of(t.deep_view(), section@, tail@),
{
    let Some(value) = t.get("env") else {
        return Ok(none_of());
    };
    let Some(vars) = value.as_table() else {
        return Err(JrsError::Manifest(cat3("`", section, ".env` must be a table of strings")));
    };
    let ghost all = vars.deep_view();
    let mut env: Vec<(String, Template)> = none_of();
    let mut i: usize = 0;
    while i < vars.entries.len()
        invariant
            all == vars.deep_view(),
            i <= vars.entries@.len(),
            env_of(t.deep_view(), section@, tail@) == env_from(
                all,
                section@,
                tail@,
                i as int,
                env.deep_view(),
            ),
        decreases vars.entries@.len() - i,
    {
        let (key, v) = &vars.entries[i];
        assert(all[i as int] == (key@, v.deep_view()));
        let Some(raw) = v.as_str() else {
            return Err(
                JrsError::Manifest(cat5("`", section, ".env.", key.as_str(), "` must be a string")),
            );
        };
        if key.as_str().is_empty() || has_char(key.as_str(), '=') || has_char(key.as_str(), '\0') {
            return Err(
                JrsError::Manifest(
                    cat5(
                        "`",
                        section,
                        ".env`: `",
                        key.as_str(),
                        "` is not an environment variable name",
                    ),
                ),
            );
        }
        if starts_with(to_capital(key.as_str()).as_str(), "JRS_") {
            return Err(
                JrsError::Manifest(
                    cat6(
                        "`",
                        section,
                        ".env.",
                        key.as_str(),
                        "`: names starting with `JRS_` are jrs's own",
                        tail,
                    ),
                ),
            );
        }
        match parse_template(raw, cat3(section, ".env.", key.as_str()).as_str()) {
            Err(e) => {
                return Err(e);
            },
            Ok(template) => {
                put(&mut env, (key.clone(), template));
            },
        }
        i = i + 1;
    }
    Ok(env)
}

pub open spec fn valueless_message(key: Seq<char>, p: Placeholder) -> Seq<char> {
    let why = if p is Jar {
        "`jrs run` and `jrs test` do not package, so there is no jar"@
    } else {
        "the argfile is a task's own; use `{classpath}`, `{runtime-classpath}` or `{test-classpath}`"@
    };
    "`"@ + key + "`: `{"@ + p.word() + "}` has no value here: "@ + why
}

/// What is wrong with the placeholders from `i` on outside a task.
pub open spec fn task_placeholder_from(ps: Seq<Placeholder>, key: Seq<char>, i: int) -> Option<
    Fault,
>
    decreases ps.len() - i,
{
    if i < 0 || i >= ps.len() {
        None
    } else if ps[i] is Jar || ps[i] is ClasspathArgfile {
        Some(Fault::Manifest(valueless_message(key, ps[i])))
    } else {
        task_placeholder_from(ps, key, i + 1)
    }
}

/// What is wrong with a template that only a task has the values for.
pub open spec fn task_placeholder_fault(t: TemplateModel, key: Seq<char>) -> Option<Fault> {
    task_placeholder_from(t.placeholders(), key, 0)
}

/// `{jar}` and `{classpath-argfile}` have a value in a task only: `jrs run`
/// and `jrs test` package nothing, and the argfile is a task's own.
pub fn refuse_task_placeholders(template: &Template, key: &str) -> (r: Option<JrsError>)
    ensures
        r.deep_view() == task_placeholder_fault(template.deep_view(), key@),
{
    let ps = template.placeholders();
    let mut i: usize = 0;
    while i < ps.len()
        invariant
            ps@ == template.deep_view().placeholders(),
            i <= ps@.len(),
            task_placeholder_fault(template.deep_view(), key@) == task_placeholder_from(
                ps@,
                key@,
                i as int,
            ),
        decreases ps@.len() - i,
    {
        let p: Placeholder = ps[i];
        if p == Placeholder::Jar || p == Placeholder::ClasspathArgfile {
            let why: &str = if p == Placeholder::Jar {
                "`jrs run` and `jrs test` do not package, so there is no jar"
            } else {
                "the argfile is a task's own; use `{classpath}`, `{runtime-classpath}` or `{test-classpath}`"
            };
            return Some(
                JrsError::Manifest(cat6("`", key, "`: `{", p.name(), "}` has no value here: ", why)),
            );
        }
        i = i + 1;
    }
    None
}

/// The first fault among the variables from `i` on.
pub open spec fn env_fault_from(
    env: Seq<(Seq<char>, TemplateModel)>,
    section: Seq<char>,
    i: int,
) -> Option<Fault>
    decreases env.len() - i,
{
    if i < 0 || i >= env.len() {
        None
    } else {
        match task_placeholder_fault(env[i].1, section + ".env."@ + env[i].0) {
            Some(e) => Some(e),
            None => env_fault_from(env, section, i + 1),
        }
    }
}

/// `run.env` or `test.env`.
pub open spec fn jvm_env_of(t: Entries, section: Seq<char>) -> Result<
    Seq<(Seq<char>, TemplateModel)>,
    Fault,
> {
    match env_of(t, section, ""@) {
        Err(e) => Err(e),
        Ok(env) => match env_fault_from(env, section, 0) {
            Some(e) => Err(e),
            None => Ok(env),
        },
    }
}

/// `run.env` or `test.env`: the tasks' `env` table, without the placeholders
/// only a task has a value for.
pub fn parse_jvm_env(t: &Table, section: &str) -> (r: Result<Vec<(String, Template)>, JrsError>)
    ensures
        outcome(r) == jvm_env_of(t.deep_view(), section@),
{
    let env = match parse_env(t, section, "") {
        Ok(env) => env,
        Err(e) => {
            return Err(e);
        },
    };
    let ghost all = env.deep_view();
    let mut i: usize = 0;
    while i < env.len()
        invariant
            all == env.deep_view(),
            env_of(t.deep_view(), section@, ""@) == Ok::<Seq<(Seq<char>, TemplateModel)>, Fault>(
                all,
            ),
            i <= env@.len(),
            env_fault_from(all, section@, 0) == env_fault_from(all, section@, i as int),
        decreases env@.len() - i,
    {
        let (key, template) = &env[i];
        assert(all[i as int] == (key@, template.deep_view()));
        if let Some(e) = refuse_task_placeholders(
            template,
            cat3(section, ".env.", key.as_str()).as_str(),
        ) {
            return Err(e);
        }
        i = i + 1;
    }
    Ok(env)
}

/// `run.cwd`.
pub open spec fn jvm_cwd_of(t: Entries, section: Seq<char>) -> Result<Option<TemplateModel>, Fault> {
    match optional_template(t, "cwd"@, section) {
        Err(e) => Err(e),
        Ok(None) => Ok(None),
        Ok(Some(template)) => match task_placeholder_fault(template, section + ".cwd"@) {
            Some(e) => Err(e),
            None => match classpath_from(template.placeholders(), 0) {
                Some(p) => Err(
                    Fault::Manifest(
                        "`"@ + section + ".cwd`: `{"@ + p.word()
                            + "}` is a classpath, not a path; it cannot name a directory"@,
                    ),
                ),
                None => Ok(Some(template)),
            },
        },
    }
}

/// `run.cwd`: a directory, as a task's `cwd` is, relative to the root.
pub fn parse_jvm_cwd(t: &Table, section: &str) -> (r: Result<Option<Template>, JrsError>)
    ensures
        outcome(r) == jvm_cwd_of(t.deep_view(), section@),
{
    let template = match read_template_key(t, "cwd", section) {
        Err(e) => {
            return Err(e);
        },
        Ok(None) => {
            return Ok(None);
        },
        Ok(Some(template)) => template,
    };
    if let Some(e) = refuse_task_placeholders(&template, cat2(section, ".cwd").as_str()) {
        return Err(e);
    }
    if let Some(p) = first_classpath(&template) {
        return Err(
            JrsError::Manifest(
                cat5(
                    "`",
                    section,
                    ".cwd`: `{",
                    p.name(),
                    "}` is a classpath, not a path; it cannot name a directory",
                ),
            ),
        );
    }
    Ok(Some(template))
}

// ---- agents ----------------------------------------------------------------

/// A group or an artifact: not empty, and without white space.
pub open spec fn solid(s: Seq<char>) -> bool {
    s.len() > 0 && forall|i: int| 0 <= i < s.len() ==> !crate::chars::space(#[trigger] s[i])
}

pub fn is_solid(s: &str) -> (r: bool)
    ensures
        r == solid(s@),
{
    let cs = chars(s);
    let mut i: usize = 0;
    while i < cs.len()
        invariant
            cs@ == s@,
            i <= cs@.len(),
            forall|j: int| 0 <= j < i ==> !crate::chars::space(#[trigger] cs@[j]),
        decreases cs@.len() - i,
    {
        if crate::chars::is_space(cs[i]) {
            assert(crate::chars::space(s@[i as int]));
            return false;
        }
        i = i + 1;
    }
    cs.len() > 0
}

/// The `group:artifact` that `raw` is.
pub open spec fn agent_of(raw: Seq<char>) -> Option<(Seq<char>, Seq<char>)> {
    let parts = pieces(raw, ':');
    if parts.len() == 2 && solid(parts[0]) && solid(parts[1]) {
        Some((parts[0], parts[1]))
    } else {
        None
    }
}

fn read_agent(raw: &str) -> (r: Option<Ga>)
    ensures
        r.deep_view() == agent_of(raw@),
{
    let parts = split(raw, ':');
    if parts.len() == 2 {
        assert(parts.deep_view()[0] == parts@[0]@ && parts.deep_view()[1] == parts@[1]@);
        if is_solid(parts[0]) && is_solid(parts[1]) {
            return Some(Ga::new(parts[0], parts[1]));
        }
    }
    None
}

/// Whether `ga` is one of the list.
pub fn has_ga(list: &Vec<Ga>, ga: &Ga) -> (r: bool)
    ensures
        r == list.deep_view().contains(ga.deep_view()),
{
    let ghost all = list.deep_view();
    let mut i: usize = 0;
    while i < list.len()
        invariant
            all == list.deep_view(),
            i <= list@.len(),
            forall|j: int| 0 <= j < i ==> all[j] != ga.deep_view(),
        decreases list@.len() - i,
    {
        assert(all[i as int] == list@[i as int].deep_view());
        if same(list[i].group.as_str(), ga.group.as_str()) && same(
            list[i].artifact.as_str(),
            ga.artifact.as_str(),
        ) {
            return true;
        }
        i = i + 1;
    }
    false
}

pub open spec fn agents_from(
    raw: Seq<Seq<char>>,
    key: Seq<char>,
    i: int,
    out: Seq<(Seq<char>, Seq<char>)>,
) -> Result<Seq<(Seq<char>, Seq<char>)>, Fault>
    decreases raw.len() - i,
{
    if i < 0 || i >= raw.len() {
        Ok(out)
    } else {
        match agent_of(raw[i]) {
            None => Err(
                Fault::Manifest(
                    "`"@ + key + "`: `"@ + raw[i]
                        + "` is not a `group:artifact` coordinate\n\nname the agent's dependency without a version, as in `java-agents = [\"org.mockito:mockito-core\"]`; the version is the one jrs.lock pins"@,
                ),
            ),
            Some(ga) => if out.contains(ga) {
                Err(Fault::Manifest("`"@ + key + "` names `"@ + raw[i] + "` twice"@))
            } else {
                agents_from(raw, key, i + 1, out.push(ga))
            },
        }
    }
}

/// `run.java-agents` or `test.java-agents`.
pub open spec fn agents_of(t: Entries, section: Seq<char>) -> Result<
    Seq<(Seq<char>, Seq<char>)>,
    Fault,
> {
    match text_list(t, "java-agents"@, section) {
        Err(e) => Err(e),
        Ok(raw) => agents_from(raw, section + ".java-agents"@, 0, seq![]),
    }
}

/// `run.java-agents` or `test.java-agents`: `group:artifact` coordinates,
/// without a version, since the version is the one the graph resolved.
pub fn parse_java_agents(t: &Table, section: &str) -> (r: Result<Vec<Ga>, JrsError>)
    ensures
        outcome(r) == agents_of(t.deep_view(), section@),
{
    let key = cat2(section, ".java-agents");
    let raw = match string_array(t, "java-agents", section) {
        Ok(raw) => raw,
        Err(e) => {
            return Err(e);
        },
    };
    let ghost all = raw.deep_view();
    let mut agents: Vec<Ga> = none_of();
    let mut i: usize = 0;
    while i < raw.len()
        invariant
            all == raw.deep_view(),
            key@ == section@ + ".java-agents"@,
            i <= raw@.len(),
            agents_of(t.deep_view(), section@) == agents_from(
                all,
                key@,
                i as int,
                agents.deep_view(),
            ),
        decreases raw@.len() - i,
    {
        assert(all[i as int] == raw@[i as int]@);
        let Some(ga) = read_agent(raw[i].as_str()) else {
            return Err(
                JrsError::Manifest(
                    cat5(
                        "`",
                        key.as_str(),
                        "`: `",
                        raw[i].as_str(),
                        "` is not a `group:artifact` coordinate\n\nname the agent's dependency without a version, as in `java-agents = [\"org.mockito:mockito-core\"]`; the version is the one jrs.lock pins",
                    ),
                ),
            );
        };
        if has_ga(&agents, &ga) {
            return Err(
                JrsError::Manifest(
                    cat5("`", key.as_str(), "` names `", raw[i].as_str(), "` twice"),
                ),
            );
        }
        put(&mut agents, ga);
        i = i + 1;
    }
    Ok(agents)
}

// ---- a task ----------------------------------------------------------------

/// What the entry of `depends-on` names.
pub open spec fn reference_of(name: Seq<char>) -> TaskRefModel {
    match builtin_named(name) {
        Some(b) => TaskRefModel::Builtin(b),
        None => TaskRefModel::Task(name),
    }
}

pub open spec fn references_from(
    raw: Seq<Seq<char>>,
    section: Seq<char>,
    i: int,
    out: Seq<TaskRefModel>,
) -> Result<Seq<TaskRefModel>, Fault>
    decreases raw.len() - i,
{
    if i < 0 || i >= raw.len() {
        Ok(out)
    } else if builtin_named(raw[i]) is None && reserved(raw[i]) {
        Err(
            Fault::Manifest(
                "`"@ + section + ".depends-on`: `"@ + raw[i]
                    + "` is a command a task cannot depend on; the built-ins a task can depend on are `build`, `test`, `package` and `doc`"@,
            ),
        )
    } else {
        let reference = reference_of(raw[i]);
        if out.contains(reference) {
            Err(
                Fault::Manifest(
                    "`"@ + section + ".depends-on` names `"@ + reference.word() + "` twice"@,
                ),
            )
        } else {
            references_from(raw, section, i + 1, out.push(reference))
        }
    }
}

/// `depends-on`.
pub open spec fn references_of(t: Entries, section: Seq<char>) -> Result<Seq<TaskRefModel>, Fault> {
    match text_list(t, "depends-on"@, section) {
        Err(e) => Err(e),
        Ok(raw) => references_from(raw, section, 0, seq![]),
    }
}

/// `depends-on`: task names, and the built-ins a task may depend on.
pub fn parse_depends_on(t: &Table, section: &str) -> (r: Result<Vec<TaskRef>, JrsError>)
    ensures
        outcome(r) == references_of(t.deep_view(), section@),
{
    let raw = match string_array(t, "depends-on", section) {
        Ok(raw) => raw,
        Err(e) => {
            return Err(e);
        },
    };
    let ghost all = raw.deep_view();
    let mut out: Vec<TaskRef> = none_of();
    let mut i: usize = 0;
    while i < raw.len()
        invariant
            all == raw.deep_view(),
            i <= raw@.len(),
            references_of(t.deep_view(), section@) == references_from(
                all,
                section@,
                i as int,
                out.deep_view(),
            ),
        decreases raw@.len() - i,
    {
        let name = raw[i].as_str();
        assert(all[i as int] == name@);
        let reference = match Builtin::parse(name) {
            Some(b) => TaskRef::Builtin(b),
            None => {
                if is_reserved(name) {
                    return Err(
                        JrsError::Manifest(
                            cat5(
                                "`",
                                section,
                                ".depends-on`: `",
                                name,
                                "` is a command a task cannot depend on; the built-ins a task can depend on are `build`, `test`, `package` and `doc`",
                            ),
                        ),
                    );
                }
                TaskRef::Task(name.to_owned())
            },
        };
        if refers(&out, &reference) {
            return Err(
                JrsError::Manifest(
                    cat5(
                        "`",
                        section,
                        ".depends-on` names `",
                        reference.to_text().as_str(),
                        "` twice",
                    ),
                ),
            );
        }
        put(&mut out, reference);
        i = i + 1;
    }
    Ok(out)
}

/// `run`.
pub open spec fn run_action(t: Entries, section: Seq<char>) -> Result<Option<ActionModel>, Fault> {
    if entry(t, "run"@) is None {
        Ok(None)
    } else {
        match template_list(t, "run"@, section) {
            Err(e) => Err(e),
            Ok(argv) => if argv.len() == 0 || trimmed(argv[0].raw).len() == 0 {
                Err(
                    Fault::Manifest(
                        "`"@ + section
                            + ".run` must name a program: `run = [\"program\", \"arg\", ...]`"@,
                    ),
                )
            } else {
                Ok(Some(ActionModel::Run(argv)))
            },
        }
    }
}

/// `shell`.
pub open spec fn shell_action(t: Entries, section: Seq<char>) -> Result<Option<ActionModel>, Fault> {
    match optional_text(t, "shell"@, section) {
        Err(e) => Err(e),
        Ok(None) => Ok(None),
        Ok(Some(s)) => Ok(Some(ActionModel::Shell(s))),
    }
}

/// `script`.
pub open spec fn script_action(t: Entries, section: Seq<char>) -> Result<
    Option<ActionModel>,
    Fault,
> {
    match optional_template(t, "script"@, section) {
        Err(e) => Err(e),
        Ok(None) => Ok(None),
        Ok(Some(file)) => Ok(Some(ActionModel::Script(file))),
    }
}

/// `main`.
pub open spec fn main_action(t: Entries, section: Seq<char>) -> Result<Option<ActionModel>, Fault> {
    match optional_text(t, "main"@, section) {
        Err(e) => Err(e),
        Ok(None) => Ok(None),
        Ok(Some(class)) => match class_fault(class, section + ".main"@) {
            Some(e) => Err(e),
            None => Ok(Some(ActionModel::Main(class))),
        },
    }
}

/// The list, and `key` when there is an action.
pub open spec fn and_key(list: Seq<Seq<char>>, action: Option<ActionModel>, key: Seq<char>) -> Seq<
    Seq<char>,
> {
    if action is Some {
        list.push(key)
    } else {
        list
    }
}

/// The one action that there is.
pub open spec fn only_action(
    run: Option<ActionModel>,
    shell: Option<ActionModel>,
    script: Option<ActionModel>,
    main: Option<ActionModel>,
    section: Seq<char>,
) -> Result<Option<ActionModel>, Fault> {
    let keys = and_key(
        and_key(and_key(and_key(seq![], run, "`run`"@), shell, "`shell`"@), script, "`script`"@),
        main,
        "`main`"@,
    );
    if keys.len() > 1 {
        Err(
            Fault::Manifest(
                "`"@ + section + "` has "@ + joined(keys, " and "@)
                    + "; a task runs exactly one of `run`, `shell`, `script` or `main`"@,
            ),
        )
    } else if main is Some {
        Ok(main)
    } else if script is Some {
        Ok(script)
    } else if shell is Some {
        Ok(shell)
    } else {
        Ok(run)
    }
}

/// What a task runs.
pub open spec fn action_of(t: Entries, section: Seq<char>) -> Result<Option<ActionModel>, Fault> {
    match run_action(t, section) {
        Err(e) => Err(e),
        Ok(run) => match shell_action(t, section) {
            Err(e) => Err(e),
            Ok(shell) => match script_action(t, section) {
                Err(e) => Err(e),
                Ok(script) => match main_action(t, section) {
                    Err(e) => Err(e),
                    Ok(main) => only_action(run, shell, script, main, section),
                },
            },
        },
    }
}

fn read_run(t: &Table, section: &str) -> (r: Result<Option<Action>, JrsError>)
    ensures
        outcome(r) == run_action(t.deep_view(), section@),
{
    if !t.contains_key("run") {
        return Ok(None);
    }
    let argv = match template_array(t, "run", section) {
        Ok(argv) => argv,
        Err(e) => {
            return Err(e);
        },
    };
    let nothing = if argv.len() == 0 {
        true
    } else {
        assert(argv.deep_view()[0] == argv@[0].deep_view());
        trim(argv[0].raw.as_str()).is_empty()
    };
    if nothing {
        return Err(
            JrsError::Manifest(
                cat3(
                    "`",
                    section,
                    ".run` must name a program: `run = [\"program\", \"arg\", ...]`",
                ),
            ),
        );
    }
    Ok(Some(Action::Run(argv)))
}

fn read_main(t: &Table, section: &str) -> (r: Result<Option<Action>, JrsError>)
    ensures
        outcome(r) == main_action(t.deep_view(), section@),
{
    match optional_string(t, "main", section) {
        Err(e) => Err(e),
        Ok(None) => Ok(None),
        Ok(Some(class)) => match validate_class_name(
            class.as_str(),
            cat2(section, ".main").as_str(),
        ) {
            Some(e) => Err(e),
            None => Ok(Some(Action::Main(class))),
        },
    }
}

fn read_action(t: &Table, section: &str) -> (r: Result<Option<Action>, JrsError>)
    ensures
        outcome(r) == action_of(t.deep_view(), section@),
{
    let run = match read_run(t, section) {
        Ok(a) => a,
        Err(e) => {
            return Err(e);
        },
    };
    let shell = match optional_string(t, "shell", section) {
        Ok(a) => a,
        Err(e) => {
            return Err(e);
        },
    };
    let script = match read_template_key(t, "script", section) {
        Ok(a) => a,
        Err(e) => {
            return Err(e);
        },
    };
    let main = match read_main(t, section) {
        Ok(a) => a,
        Err(e) => {
            return Err(e);
        },
    };
    let mut keys: Vec<String> = none_of();
    if run.is_some() {
        put(&mut keys, "`run`".to_owned());
    }
    if shell.is_some() {
        put(&mut keys, "`shell`".to_owned());
    }
    if script.is_some() {
        put(&mut keys, "`script`".to_owned());
    }
    if main.is_some() {
        put(&mut keys, "`main`".to_owned());
    }
    if keys.len() > 1 {
        return Err(
            JrsError::Manifest(
                cat5(
                    "`",
                    section,
                    "` has ",
                    join(&keys, " and ").as_str(),
                    "; a task runs exactly one of `run`, `shell`, `script` or `main`",
                ),
            ),
        );
    }
    if main.is_some() {
        Ok(main)
    } else if let Some(file) = script {
        Ok(Some(Action::Script(file)))
    } else if let Some(s) = shell {
        Ok(Some(Action::Shell(s)))
    } else {
        Ok(run)
    }
}

/// What does not go among a task's dependencies.
pub open spec fn not_a_tool(d: DependencyModel) -> Option<Seq<char>> {
    if d.local() {
        Some("a local jar"@)
    } else if d.compile_only || d.runtime_only {
        Some(
            "`compile-only` and `runtime-only`, which choose a classpath of the project's"@,
        )
    } else if d.managed() {
        Some("a version from [managed], which versions the project's graph"@)
    } else {
        None
    }
}

pub open spec fn tool_fault_from(list: Seq<DependencyModel>, key: Seq<char>, i: int) -> Option<
    Fault,
>
    decreases list.len() - i,
{
    if i < 0 || i >= list.len() {
        None
    } else {
        match not_a_tool(list[i]) {
            Some(what) => Some(
                Fault::Manifest(
                    "`"@ + key + ".\""@ + list[i].key()
                        + "\"`: a task's dependencies are a tool's graph of their own, so "@ + what
                        + " does not go here"@,
                ),
            ),
            None => tool_fault_from(list, key, i + 1),
        }
    }
}

/// `[tasks.<name>.dependencies]`.
pub open spec fn tools_of(t: Entries, section: Seq<char>, action: Option<ActionModel>) -> Result<
    Seq<DependencyModel>,
    Fault,
> {
    let key = section + ".dependencies"@;
    match dependency_table(entry(t, "dependencies"@), key) {
        Err(e) => Err(e),
        Ok(list) => match tool_fault_from(list, key, 0) {
            Some(e) => Err(e),
            None => if action is Some && action->0 is Main && list.len() == 0 {
                Err(
                    Fault::Manifest(
                        "`"@ + section
                            + ".main` runs a class from the task's own dependencies, and it has none\n\nadd them:\n\n    ["@
                            + section + ".dependencies]\n    \"group:artifact\" = \"<version>\""@,
                    ),
                )
            } else if (action is None || action->0 is Run || action->0 is Shell) && list.len()
                > 0 {
                Err(
                    Fault::Manifest(
                        "`"@ + key + "` is the classpath of a `main` or `script` action, and `"@
                            + section + "` has neither"@,
                    ),
                )
            } else {
                Ok(list)
            },
        },
    }
}

fn refuse_tools(list: &Vec<Dependency>, key: &str) -> (r: Option<JrsError>)
    ensures
        r.deep_view() == tool_fault_from(list.deep_view(), key@, 0),
{
    let ghost all = list.deep_view();
    let mut i: usize = 0;
    while i < list.len()
        invariant
            all == list.deep_view(),
            i <= list@.len(),
            tool_fault_from(all, key@, 0) == tool_fault_from(all, key@, i as int),
        decreases list@.len() - i,
    {
        let d = &list[i];
        assert(all[i as int] == d.deep_view());
        let what: &str = if d.is_local() {
            "a local jar"
        } else if d.compile_only || d.runtime_only {
            "`compile-only` and `runtime-only`, which choose a classpath of the project's"
        } else if d.is_managed() {
            "a version from [managed], which versions the project's graph"
        } else {
            ""
        };
        if d.is_local() || d.compile_only || d.runtime_only || d.is_managed() {
            return Some(
                JrsError::Manifest(
                    cat7(
                        "`",
                        key,
                        ".\"",
                        d.key().as_str(),
                        "\"`: a task's dependencies are a tool's graph of their own, so ",
                        what,
                        " does not go here",
                    ),
                ),
            );
        }
        i = i + 1;
    }
    None
}

/// `[tasks.<name>.dependencies]`: the `[dependencies]` value forms, as the
/// classpath of a `main` or `script` action. They are a tool's graph, never
/// the project's, so what only means something there is refused: a local jar,
/// `compile-only` and `runtime-only`, and a version left to `[managed]`.
pub fn parse_task_dependencies(t: &Table, section: &str, action: &Option<Action>) -> (r: Result<
    Vec<Dependency>,
    JrsError,
>)
    ensures
        outcome(r) == tools_of(t.deep_view(), section@, action.deep_view()),
{
    let key = cat2(section, ".dependencies");
    let list = match parse_dependency_table(t.get("dependencies"), key.as_str()) {
        Ok(list) => list,
        Err(e) => {
            return Err(e);
        },
    };
    if let Some(e) = refuse_tools(&list, key.as_str()) {
        return Err(e);
    }
    let (is_main, takes) = match action {
        Some(Action::Main(_)) => (true, true),
        Some(Action::Script(_)) => (false, true),
        _ => (false, false),
    };
    if is_main && list.len() == 0 {
        return Err(
            JrsError::Manifest(
                cat5(
                    "`",
                    section,
                    ".main` runs a class from the task's own dependencies, and it has none\n\nadd them:\n\n    [",
                    section,
                    ".dependencies]\n    \"group:artifact\" = \"<version>\"",
                ),
            ),
        );
    }
    if !takes && list.len() > 0 {
        return Err(
            JrsError::Manifest(
                cat5(
                    "`",
                    key.as_str(),
                    "` is the classpath of a `main` or `script` action, and `",
                    section,
                    "` has neither",
                ),
            ),
        );
    }
    Ok(list)
}

/// What is wrong with the templates from `i` on that name files.
pub open spec fn path_fault_from(
    list: Seq<(Seq<char>, TemplateModel)>,
    section: Seq<char>,
    i: int,
) -> Option<Fault>
    decreases list.len() - i,
{
    if i < 0 || i >= list.len() {
        None
    } else {
        match classpath_from(list[i].1.placeholders(), 0) {
            Some(p) => Some(
                Fault::Manifest(
                    "`"@ + section + "."@ + list[i].0 + "`: `{"@ + p.word()
                        + "}` is a classpath, not a path; it cannot name a file or directory"@,
                ),
            ),
            None => path_fault_from(list, section, i + 1),
        }
    }
}

/// The templates of a task that name files or directories, `cwd` last.
pub open spec fn path_keys(task: TaskModel) -> Seq<(Seq<char>, TemplateModel)> {
    match task.cwd {
        Some(t) => task.path_templates().push(("cwd"@, t)),
        None => task.path_templates(),
    }
}

fn refuse_classpaths(task: &TaskDef, section: &str) -> (r: Option<JrsError>)
    ensures
        r.deep_view() == path_fault_from(path_keys(task.deep_view()), section@, 0),
{
    let mut list = task.path_templates();
    if let Some(t) = &task.cwd {
        put(&mut list, ("cwd", t));
    }
    let ghost all = list.deep_view();
    assert(all =~= path_keys(task.deep_view()));
    let mut i: usize = 0;
    while i < list.len()
        invariant
            all == list.deep_view(),
            all == path_keys(task.deep_view()),
            i <= list@.len(),
            path_fault_from(all, section@, 0) == path_fault_from(all, section@, i as int),
        decreases list@.len() - i,
    {
        let (key, t) = list[i];
        assert(all[i as int] == (key@, t.deep_view()));
        if let Some(p) = first_classpath(t) {
            return Some(
                JrsError::Manifest(
                    cat7(
                        "`",
                        section,
                        ".",
                        key,
                        "`: `{",
                        p.name(),
                        "}` is a classpath, not a path; it cannot name a file or directory",
                    ),
                ),
            );
        }
        i = i + 1;
    }
    None
}

/// What a task says apart from what it runs and needs.
pub open spec fn task_rest(
    name: Seq<char>,
    t: Entries,
    action: Option<ActionModel>,
    depends_on: Seq<TaskRefModel>,
    dependencies: Seq<DependencyModel>,
) -> Result<TaskModel, Fault> {
    let section = "tasks."@ + name;
    match env_of(t, section, ", and are set for every task"@) {
        Err(e) => Err(e),
        Ok(env) => match optional_template(t, "cwd"@, section) {
            Err(e) => Err(e),
            Ok(cwd) => match optional_text(t, "description"@, section) {
                Err(e) => Err(e),
                Ok(description) => match template_list(t, "args"@, section) {
                    Err(e) => Err(e),
                    Ok(args) => match template_list(t, "inputs"@, section) {
                        Err(e) => Err(e),
                        Ok(inputs) => match template_list(t, "outputs"@, section) {
                            Err(e) => Err(e),
                            Ok(outputs) => match template_list(t, "source-outputs"@, section) {
                                Err(e) => Err(e),
                                Ok(source_outputs) => match template_list(
                                    t,
                                    "resource-outputs"@,
                                    section,
                                ) {
                                    Err(e) => Err(e),
                                    Ok(resource_outputs) => {
                                        let task = TaskModel {
                                            name,
                                            description,
                                            action,
                                            args,
                                            depends_on,
                                            env,
                                            cwd,
                                            inputs,
                                            outputs,
                                            source_outputs,
                                            resource_outputs,
                                            dependencies,
                                        };
                                        match path_fault_from(path_keys(task), section, 0) {
                                            Some(e) => Err(e),
                                            None => Ok(task),
                                        }
                                    },
                                },
                            },
                        },
                    },
                },
            },
        },
    }
}

/// The task that `[tasks.<name>]` declares, its name and its table checked.
pub open spec fn task_table(name: Seq<char>, t: Entries) -> Result<TaskModel, Fault> {
    let section = "tasks."@ + name;
    match action_of(t, section) {
        Err(e) => Err(e),
        Ok(action) => match references_of(t, section) {
            Err(e) => Err(e),
            Ok(depends_on) => if action is None && depends_on.len() == 0 {
                Err(
                    Fault::Manifest(
                        "`"@ + section
                            + "` does nothing: give it one of `run`, `shell`, `script` or `main`, or a `depends-on` list to run"@,
                    ),
                )
            } else {
                match tools_of(t, section, action) {
                    Err(e) => Err(e),
                    Ok(dependencies) => task_rest(name, t, action, depends_on, dependencies),
                }
            },
        },
    }
}

fn read_task_rest(
    name: &str,
    t: &Table,
    action: Option<Action>,
    depends_on: Vec<TaskRef>,
    dependencies: Vec<Dependency>,
) -> (r: Result<TaskDef, JrsError>)
    ensures
        outcome(r) == task_rest(
            name@,
            t.deep_view(),
            action.deep_view(),
            depends_on.deep_view(),
            dependencies.deep_view(),
        ),
{
    let section_text = cat2("tasks.", name);
    let section = section_text.as_str();
    let env = match parse_env(t, section, ", and are set for every task") {
        Ok(x) => x,
        Err(e) => {
            return Err(e);
        },
    };
    let cwd = match read_template_key(t, "cwd", section) {
        Ok(x) => x,
        Err(e) => {
            return Err(e);
        },
    };
    let description = match optional_string(t, "description", section) {
        Ok(x) => x,
        Err(e) => {
            return Err(e);
        },
    };
    let args = match template_array(t, "args", section) {
        Ok(x) => x,
        Err(e) => {
            return Err(e);
        },
    };
    let inputs = match template_array(t, "inputs", section) {
        Ok(x) => x,
        Err(e) => {
            return Err(e);
        },
    };
    let outputs = match template_array(t, "outputs", section) {
        Ok(x) => x,
        Err(e) => {
            return Err(e);
        },
    };
    let source_outputs = match template_array(t, "source-outputs", section) {
        Ok(x) => x,
        Err(e) => {
            return Err(e);
        },
    };
    let resource_outputs = match template_array(t, "resource-outputs", section) {
        Ok(x) => x,
        Err(e) => {
            return Err(e);
        },
    };
    let task = TaskDef {
        name: name.to_owned(),
        description,
        action,
        args,
        depends_on,
        env,
        cwd,
        inputs,
        outputs,
        source_outputs,
        resource_outputs,
        dependencies,
    };
    match refuse_classpaths(&task, section) {
        Some(e) => Err(e),
        None => Ok(task),
    }
}

fn read_task(name: &str, t: &Table) -> (r: Result<TaskDef, JrsError>)
    ensures
        outcome(r) == task_table(name@, t.deep_view()),
{
    let section_text = cat2("tasks.", name);
    let section = section_text.as_str();
    let action = match read_action(t, section) {
        Ok(x) => x,
        Err(e) => {
            return Err(e);
        },
    };
    let depends_on = match parse_depends_on(t, section) {
        Ok(x) => x,
        Err(e) => {
            return Err(e);
        },
    };
    if action.is_none() && depends_on.len() == 0 {
        return Err(
            JrsError::Manifest(
                cat3(
                    "`",
                    section,
                    "` does nothing: give it one of `run`, `shell`, `script` or `main`, or a `depends-on` list to run",
                ),
            ),
        );
    }
    let dependencies = match parse_task_dependencies(t, section, &action) {
        Ok(x) => x,
        Err(e) => {
            return Err(e);
        },
    };
    read_task_rest(name, t, action, depends_on, dependencies)
}

// ---- all tasks -------------------------------------------------------------

pub open spec fn task_keys() -> Seq<Seq<char>> {
    seq![
        "description"@,
        "run"@,
        "shell"@,
        "script"@,
        "main"@,
        "dependencies"@,
        "args"@,
        "depends-on"@,
        "env"@,
        "cwd"@,
        "inputs"@,
        "outputs"@,
        "source-outputs"@,
        "resource-outputs"@,
    ]
}

/// The tasks from `i` on and the warnings that reading them gives, after those
/// before.
pub open spec fn tasks_from(
    t: Entries,
    i: int,
    out: Seq<TaskModel>,
    warnings: Seq<Seq<char>>,
) -> Result<(Seq<TaskModel>, Seq<Seq<char>>), Fault>
    decreases t.len() - i,
{
    if i < 0 || i >= t.len() {
        Ok((out, warnings))
    } else {
        let (name, value) = t[i];
        match task_name_fault(name) {
            Some(e) => Err(e),
            None => match value.table() {
                None => Err(Fault::Manifest("`"@ + ("tasks."@ + name) + "` must be a table"@)),
                Some(inner) => match task_table(name, inner) {
                    Err(e) => Err(e),
                    Ok(task) => tasks_from(
                        t,
                        i + 1,
                        out.push(task),
                        warnings + key_warnings(inner, task_keys(), "tasks."@ + name + "."@),
                    ),
                },
            },
        }
    }
}

/// `[tasks]`, and the warnings that reading it gives.
pub open spec fn tasks_of(table: Entries) -> Result<(Seq<TaskModel>, Seq<Seq<char>>), Fault> {
    match entry(table, "tasks"@) {
        None => Ok((seq![], seq![])),
        Some(v) => match v.table() {
            None => Err(
                Fault::Manifest("`tasks` must be a table of `[tasks.<name>]` tables"@),
            ),
            Some(t) => tasks_from(t, 0, seq![], seq![]),
        },
    }
}

fn known_task_keys() -> (r: Vec<&'static str>)
    ensures
        r.deep_view() == task_keys(),
{
    let known: Vec<&'static str> = vec![
        "description",
        "run",
        "shell",
        "script",
        "main",
        "dependencies",
        "args",
        "depends-on",
        "env",
        "cwd",
        "inputs",
        "outputs",
        "source-outputs",
        "resource-outputs",
    ];
    assert(known.deep_view() =~= task_keys());
    known
}

/// `[tasks.*]`, structurally: types, names, actions, environment names; and
/// the warnings about unknown keys.
pub fn parse_tasks(table: &Table) -> (r: Result<(Vec<TaskDef>, Vec<String>), JrsError>)
    ensures
        outcome(r) == tasks_of(table.deep_view()),
{
    let Some(value) = table.get("tasks") else {
        return Ok((none_of(), none_of()));
    };
    let Some(tasks) = value.as_table() else {
        return Err(
            JrsError::Manifest("`tasks` must be a table of `[tasks.<name>]` tables".to_owned()),
        );
    };
    let known = known_task_keys();
    let ghost all = tasks.deep_view();
    let mut out: Vec<TaskDef> = none_of();
    let mut warnings: Vec<String> = none_of();
    let mut i: usize = 0;
    while i < tasks.entries.len()
        invariant
            all == tasks.deep_view(),
            known.deep_view() == task_keys(),
            i <= tasks.entries@.len(),
            tasks_of(table.deep_view()) == tasks_from(
                all,
                i as int,
                out.deep_view(),
                warnings.deep_view(),
            ),
        decreases tasks.entries@.len() - i,
    {
        let (name, v) = &tasks.entries[i];
        assert(all[i as int] == (name@, v.deep_view()));
        if let Some(e) = validate_task_name(name.as_str()) {
            return Err(e);
        }
        let section = cat2("tasks.", name.as_str());
        let Some(t) = v.as_table() else {
            return Err(JrsError::Manifest(cat3("`", section.as_str(), "` must be a table")));
        };
        warn_unknown(t, &known, cat2(section.as_str(), ".").as_str(), &mut warnings);
        match read_task(name.as_str(), t) {
            Ok(task) => {
                put(&mut out, task);
            },
            Err(e) => {
                return Err(e);
            },
        }
        i = i + 1;
    }
    Ok((out, warnings))
}

proof fn lemma_tasks_named(
    t: Entries,
    i: int,
    out: Seq<TaskModel>,
    warnings: Seq<Seq<char>>,
    k: int,
)
    requires
        0 <= i <= t.len(),
        i == out.len(),
        forall|j: int| 0 <= j < i ==> (#[trigger] out[j]).name == t[j].0,
        forall|j: int| 0 <= j < i ==> task_name_fault(#[trigger] out[j].name) is None,
        0 <= k < t.len(),
    ensures
        tasks_from(t, i, out, warnings) matches Ok((tasks, _)) ==> tasks.len() == t.len()
            && tasks[k].name == t[k].0 && task_name_fault(tasks[k].name) is None,
    decreases t.len() - i,
{
    if i < t.len() && task_name_fault(t[i].0) is None && t[i].1.table() is Some {
        let inner = t[i].1.table()->0;
        if let Ok(task) = task_table(t[i].0, inner) {
            lemma_tasks_named(
                t,
                i + 1,
                out.push(task),
                warnings + key_warnings(inner, task_keys(), "tasks."@ + t[i].0 + "."@),
                k,
            );
        }
    }
}

/// The tasks come in the order of their declarations, under names that are no
/// command's.
pub proof fn tasks_keep_their_names(table: Entries, k: int)
    requires
        entry(table, "tasks"@) is Some,
        entry(table, "tasks"@)->0.table() is Some,
        0 <= k < entry(table, "tasks"@)->0.table()->0.len(),
    ensures
        tasks_of(table) matches Ok((tasks, _)) ==> ({
            let t = entry(table, "tasks"@)->0.table()->0;
            tasks.len() == t.len() && tasks[k].name == t[k].0 && task_word(tasks[k].name)
                && !reserved(tasks[k].name)
        }),
{
    let t = entry(table, "tasks"@)->0.table()->0;
    lemma_tasks_named(t, 0, seq![], seq![], k);
}

// ---- hooks -----------------------------------------------------------------

pub open spec fn hook_word(name: Seq<char>) -> bool {
    ||| name == "pre-compile"@
    ||| name == "post-compile"@
    ||| name == "pre-test"@
    ||| name == "post-test"@
    ||| name == "post-package"@
    ||| name == "pre-run"@
}

pub fn is_hook_word(name: &str) -> (r: bool)
    ensures
        r == hook_word(name@),
{
    same(name, "pre-compile") || same(name, "post-compile") || same(name, "pre-test") || same(
        name,
        "post-test",
    ) || same(name, "post-package") || same(name, "pre-run")
}

/// A warning for each of the first `n` keys that is no hook's.
pub open spec fn hook_warnings(t: Entries, n: int) -> Seq<Seq<char>>
    decreases n,
{
    if n <= 0 {
        seq![]
    } else {
        let before = hook_warnings(t, n - 1);
        if hook_word(t[n - 1].0) {
            before
        } else {
            before.push(unknown_key_message("hooks."@, t[n - 1].0))
        }
    }
}

/// The first name from `i` on that stands in the list before it.
pub open spec fn repeated_from(names: Seq<Seq<char>>, i: int) -> Option<Seq<char>>
    decreases names.len() - i,
{
    if i < 0 || i >= names.len() {
        None
    } else if names.take(i).contains(names[i]) {
        Some(names[i])
    } else {
        repeated_from(names, i + 1)
    }
}

fn first_repeated(names: &Vec<String>) -> (r: Option<&str>)
    ensures
        r.deep_view() == repeated_from(names.deep_view(), 0),
{
    let ghost all = names.deep_view();
    let mut i: usize = 0;
    while i < names.len()
        invariant
            all == names.deep_view(),
            i <= names@.len(),
            repeated_from(all, 0) == repeated_from(all, i as int),
        decreases names@.len() - i,
    {
        assert(all[i as int] == names@[i as int]@);
        let mut k: usize = 0;
        while k < i
            invariant
                all == names.deep_view(),
                k <= i < names@.len(),
                repeated_from(all, 0) == repeated_from(all, i as int),
                all[i as int] == names@[i as int]@,
                forall|j: int| 0 <= j < k ==> all[j] != all[i as int],
            decreases i - k,
        {
            assert(all[k as int] == names@[k as int]@);
            if same(names[k].as_str(), names[i].as_str()) {
                assert(all.take(i as int)[k as int] == all[i as int]);
                return Some(names[i].as_str());
            }
            k = k + 1;
        }
        assert(!all.take(i as int).contains(all[i as int]));
        i = i + 1;
    }
    None
}

/// The lists of the hooks from the `i`th on, after those before.
pub open spec fn hooks_from(t: Entries, i: int, out: HookLists) -> Result<HookLists, Fault>
    decreases every_hook().len() - i,
{
    if i < 0 || i >= every_hook().len() {
        Ok(out)
    } else {
        let hook = every_hook()[i];
        match text_list(t, hook.word(), "hooks"@) {
            Err(e) => Err(e),
            Ok(names) => match repeated_from(names, 0) {
                Some(name) => Err(
                    Fault::Manifest("`hooks."@ + hook.word() + "` names `"@ + name + "` twice"@),
                ),
                None => if names.len() == 0 {
                    hooks_from(t, i + 1, out)
                } else {
                    hooks_from(t, i + 1, out.push((hook, names)))
                },
            },
        }
    }
}

/// `[hooks]`.
pub open spec fn hooks_of(table: Entries) -> Result<HookLists, Fault> {
    match subtable(table, "hooks"@) {
        Err(e) => Err(e),
        Ok(None) => Ok(seq![]),
        Ok(Some(t)) => hooks_from(t, 0, seq![]),
    }
}

/// The warnings that reading `[hooks]` gives.
pub open spec fn hooks_warnings(table: Entries) -> Seq<Seq<char>> {
    match subtable(table, "hooks"@) {
        Ok(Some(t)) => hook_warnings(t, t.len() as int),
        _ => seq![],
    }
}

/// `[hooks]`, in the order of the hooks.
pub fn parse_hooks(table: &Table, warnings: &mut Vec<String>) -> (r: Result<Hooks, JrsError>)
    ensures
        outcome(r) == hooks_of(table.deep_view()),
        final(warnings).deep_view() == old(warnings).deep_view() + hooks_warnings(
            table.deep_view(),
        ),
{
    let ghost before = warnings.deep_view();
    assert(before + Seq::<Seq<char>>::empty() =~= before);
    let Some(value) = table.get("hooks") else {
        return Ok(Hooks::default());
    };
    let Some(t) = value.as_table() else {
        return Err(JrsError::Manifest(cat3("`", "hooks", "` must be a table")));
    };
    let ghost all = t.deep_view();
    let mut i: usize = 0;
    while i < t.entries.len()
        invariant
            all == t.deep_view(),
            i <= t.entries@.len(),
            warnings.deep_view() == before + hook_warnings(all, i as int),
        decreases t.entries@.len() - i,
    {
        let key = &t.entries[i].0;
        assert(all[i as int].0 == key@);
        if !is_hook_word(key.as_str()) {
            put(
                warnings,
                cat4("unknown key `", "hooks.", key.as_str(), "` in jrs.toml (ignored)"),
            );
        }
        assert(warnings.deep_view() =~= before + hook_warnings(all, i + 1));
        i = i + 1;
    }
    let hooks = Hook::all();
    let mut out: Vec<(Hook, Vec<String>)> = none_of();
    let mut k: usize = 0;
    while k < hooks.len()
        invariant
            hooks@ == every_hook(),
            k <= hooks@.len(),
            before == old(warnings).deep_view(),
            warnings.deep_view() == before + hooks_warnings(table.deep_view()),
            hooks_of(table.deep_view()) == hooks_from(t.deep_view(), k as int, out.deep_view()),
            in_order(out.deep_view()),
            forall|j: int|
                0 <= j < out@.len() ==> (#[trigger] out.deep_view()[j]).0.place() < k,
        decreases hooks@.len() - k,
    {
        let hook: Hook = hooks[k];
        let names = match string_array(t, hook.name(), "hooks") {
            Ok(names) => names,
            Err(e) => {
                return Err(e);
            },
        };
        if let Some(name) = first_repeated(&names) {
            return Err(
                JrsError::Manifest(cat5("`hooks.", hook.name(), "` names `", name, "` twice")),
            );
        }
        if names.len() > 0 {
            assert(hook.place() == k);
            put(&mut out, (hook, names));
        }
        k = k + 1;
    }
    Ok(Hooks::of(out))
}

} // verus!
