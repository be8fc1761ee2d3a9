//! What the executions of a POM become can be loaded.

use crate::chars::{digit, lower};
use crate::check::{
    circle_fault_from, ends_within, fires_for, hooks_fault_from, leads, names_fault_from,
    needs_fault_from, refs_fault_from, tasks_fault,
};
use crate::element::ElementModel;
use crate::fresh::{fresh_from, fresh_names_are_free, lemma_rival, numbered, rivals};
use crate::gradle_body::literal_templates;
use crate::gradle_decl::{dashed_name, given_names_are_task_names};
use crate::gradle_env::with_variable;
use crate::gradle_loads::{lemma_argfile, lemma_hooked, lemma_literals};
use crate::keys::class_name;
use crate::manifest::ManifestModel;
use crate::maven_exec::{
    arguments_of, configs_of, environment_from, exec_task_of, exec_template_of, execution_arguments,
    execution_hook, execution_name, execution_read, executions_read, flags_from, flags_of, get,
    goal_run, goals_from, goals_read, listed_arguments, task_names, text_in, unnameable, with_goal,
    word_arguments,
};
use crate::maven_text::lemma_exec_template;
use crate::migration_loads::lemma_with_variable;
use crate::parse_tasks::{
    classpath_from, path_fault_from, path_keys, reserved, task_name_fault, task_word,
    tool_fault_from,
};
use crate::pom::{interpolated, text_or, PluginModel, PomModel, Properties};
use crate::report::ReportModel;
use crate::reread_dependencies::good_dependencies;
use crate::reread_settings::{good_env, good_template};
use crate::reread_tasks::{
    good_action, good_hooks, good_references, good_tasks, good_templates, loads, tasks_apart,
};
use crate::task::{
    builtin_names_are_their_own, hook_tasks, hooked, ActionModel, Builtin, Hook, HookLists,
    TaskModel, TaskRefModel,
};
use crate::template::{escaped, literal_template, template_of, TemplateModel};
use crate::text::{
    capital, decimal, digit_char, includes, left, lemma_run_end, lemma_run_start, run_end,
    run_start, starts, trimmed, Class,
};
use crate::writable::env_apart;
use vstd::prelude::*;

verus! {

// ---- names -----------------------------------------------------------------

/// A name with a dash in it is no command's.
proof fn lemma_dashed_is_free(name: Seq<char>)
    requires
        includes(name, '-'),
    ensures
        !reserved(name),
{
    reveal_strlit("build");
    reveal_strlit("test");
    reveal_strlit("run");
    reveal_strlit("package");
    reveal_strlit("doc");
    reveal_strlit("clean");
    reveal_strlit("tree");
    reveal_strlit("classpath");
    reveal_strlit("update");
    reveal_strlit("verify");
    reveal_strlit("outdated");
    reveal_strlit("add");
    reveal_strlit("remove");
    reveal_strlit("cache");
    reveal_strlit("init");
    reveal_strlit("migrate");
    reveal_strlit("completions");
    reveal_strlit("task");
    reveal_strlit("help");
    reveal_strlit("metadata");
    reveal_strlit("fetch");
}

proof fn lemma_longer_name(base: Seq<char>, more: Seq<char>)
    requires
        task_word(base),
        forall|i: int| 0 <= i < more.len() ==> lower(#[trigger] more[i]) || digit(more[i]),
    ensures
        task_name_fault(base + "-"@ + more) is None,
{
    reveal_strlit("-");
    let name = base + "-"@ + more;
    let n = base.len() as int;
    assert(name[n] == '-');
    assert forall|i: int| 0 <= i < name.len() implies lower(#[trigger] name[i]) || digit(name[i])
        || name[i] == '-' by {
        if i < n {
            assert(name[i] == base[i]);
        } else if i > n {
            assert(name[i] == more[i - n - 1]);
        }
    }
    assert(name[0] == base[0]);
    lemma_dashed_is_free(name);
}

proof fn lemma_digits(n: nat)
    ensures
        forall|i: int| 0 <= i < decimal(n).len() ==> digit(#[trigger] decimal(n)[i]),
    decreases n,
{
    assert(digit(digit_char(n % 10)));
    if n >= 10 {
        lemma_digits(n / 10);
        assert forall|i: int| 0 <= i < decimal(n).len() implies digit(#[trigger] decimal(n)[i]) by {
            if i < decimal(n / 10).len() {
                assert(decimal(n)[i] == decimal(n / 10)[i]);
            }
        }
    }
}

proof fn lemma_fresh_from(taken: Seq<Seq<char>>, base: Seq<char>, n: nat)
    requires
        task_word(base),
    ensures
        task_name_fault(fresh_from(taken, base, n)) is None,
    decreases rivals(taken, base, n, 0),
{
    if taken.contains(numbered(base, n)) {
        lemma_rival(taken, base, n);
        lemma_fresh_from(taken, base, n + 1);
    } else {
        lemma_digits(n);
        lemma_longer_name(base, decimal(n));
    }
}

proof fn lemma_execution_name(id: Seq<char>, goal: Seq<char>, several: bool, tasks: Seq<TaskModel>)
    requires
        goal == "exec"@ || goal == "java"@,
    ensures
        execution_name(id, goal, several, tasks) matches Ok(name) ==> task_name_fault(name) is None
            && !task_names(tasks).contains(name),
{
    reveal_strlit("exec");
    reveal_strlit("java");
    if let Ok(name) = execution_name(id, goal, several, tasks) {
        let base = if id == "default"@ || starts(id, "default-"@) {
            "exec"@
        } else {
            dashed_name(id)->Ok_0
        };
        given_names_are_task_names(id);
        assert(task_name_fault("exec"@) is None) by {
            lemma_exec_is_free();
        }
        assert(task_name_fault(base) is None);
        lemma_longer_name(base, goal);
        let full = if several {
            base + "-"@ + goal
        } else {
            base
        };
        fresh_names_are_free(task_names(tasks), full);
        lemma_fresh_from(task_names(tasks), full, 2);
    }
}

proof fn lemma_exec_is_free()
    ensures
        task_name_fault("exec"@) is None,
{
    reveal_strlit("exec");
    reveal_strlit("build");
    reveal_strlit("test");
    reveal_strlit("run");
    reveal_strlit("package");
    reveal_strlit("doc");
    reveal_strlit("clean");
    reveal_strlit("tree");
    reveal_strlit("classpath");
    reveal_strlit("update");
    reveal_strlit("verify");
    reveal_strlit("outdated");
    reveal_strlit("add");
    reveal_strlit("remove");
    reveal_strlit("cache");
    reveal_strlit("init");
    reveal_strlit("migrate");
    reveal_strlit("completions");
    reveal_strlit("task");
    reveal_strlit("help");
    reveal_strlit("metadata");
    reveal_strlit("fetch");
    let e = "exec"@;
    assert(e[0] == 'e' && e[1] == 'x');
    assert("test"@[0] == 't');
    assert("tree"@[0] == 't');
    assert("init"@[0] == 'i');
    assert("task"@[0] == 't');
    assert("help"@[0] == 'h');
}

// ---- one execution ---------------------------------------------------------

proof fn lemma_listed(
    list: Seq<ElementModel>,
    i: int,
    goal: Seq<char>,
    props: Properties,
    out: Seq<TemplateModel>,
)
    requires
        0 <= i,
        good_templates(out),
    ensures
        listed_arguments(list, i, goal, props, out) matches Ok(r) ==> good_templates(r),
    decreases list.len() - i,
{
    if i < list.len() {
        let t: Result<TemplateModel, Seq<char>> = if list[i].name == "argument"@ {
            exec_template_of(list[i].text, props)
        } else if list[i].name == "classpath"@ && goal == "exec"@ {
            template_of("{runtime-classpath}"@)
        } else {
            Err("<"@ + list[i].name + "> in <arguments> is not read"@)
        };
        if let Ok(t) = t {
            lemma_listed(list, i + 1, goal, props, out.push(t));
        }
    }
}

proof fn lemma_words(words: Seq<Seq<char>>, i: int, props: Properties, out: Seq<TemplateModel>)
    requires
        0 <= i,
        good_templates(out),
    ensures
        word_arguments(words, i, props, out) matches Ok(r) ==> good_templates(r),
    decreases words.len() - i,
{
    if i < words.len() {
        if let Ok(t) = exec_template_of(words[i], props) {
            lemma_words(words, i + 1, props, out.push(t));
        }
    }
}

proof fn lemma_arguments(configs: Seq<ElementModel>, goal: Seq<char>, props: Properties)
    ensures
        execution_arguments(configs, goal, props) matches Ok(r) ==> good_templates(r),
{
    let none = Seq::<TemplateModel>::empty();
    if let Some(list) = get(configs, "arguments"@) {
        lemma_listed(list.children, 0, goal, props, none);
    }
    let listed: Result<Seq<TemplateModel>, Seq<char>> = match get(configs, "arguments"@) {
        Some(list) => listed_arguments(list.children, 0, goal, props, seq![]),
        None => Ok(seq![]),
    };
    if let Ok(args) = listed {
        if let Some(line) = text_in(configs, "commandlineArgs"@) {
            lemma_words(arguments_of(line), 0, props, args);
        }
    }
}

proof fn lemma_environment(
    list: Seq<ElementModel>,
    i: int,
    props: Properties,
    out: Seq<(Seq<char>, TemplateModel)>,
)
    requires
        0 <= i,
        good_env(out),
        env_apart(out),
    ensures
        environment_from(list, i, props, out) matches Ok(r) ==> good_env(r) && env_apart(r),
    decreases list.len() - i,
{
    if i < list.len() {
        let name = list[i].name;
        if !starts(capital(name), "JRS_"@) && !unnameable(
            name,
        ) {
            if let Ok(t) = exec_template_of(list[i].text, props) {
                lemma_with_variable(out, name, t);
                lemma_environment(list, i + 1, props, with_variable(out, name, t));
            }
        }
    }
}

proof fn lemma_flags(list: Seq<ElementModel>, i: int, props: Properties, out: Seq<TemplateModel>)
    requires
        0 <= i,
        good_templates(out),
    ensures
        flags_from(list, i, props, out) matches Ok(r) ==> good_templates(r),
    decreases list.len() - i,
{
    if i < list.len() {
        if let Some(key) = list[i].text_of("key"@) {
            if let Ok(t) = exec_template_of(
                "-D"@ + key + "="@ + text_or(list[i].text_of("value"@), ""@),
                props,
            ) {
                lemma_flags(list, i + 1, props, out.push(t));
            }
        }
    }
}

/// A command that runs `java` with flags, a class and arguments can be loaded.
proof fn lemma_java_command(
    main: Seq<char>,
    flags: Seq<TemplateModel>,
    argfile: TemplateModel,
    arguments: Seq<TemplateModel>,
)
    requires
        good_templates(flags),
        good_template(argfile),
        good_templates(arguments),
    ensures
        good_action(
            ActionModel::Run(
                (seq![literal_template("java"@)] + flags).push(argfile).push(literal_template(main))
                    + arguments,
            ),
        ),
{
    let argv = (seq![literal_template("java"@)] + flags).push(argfile).push(literal_template(main))
        + arguments;
    let n = flags.len() as int;
    lemma_literals(seq!["java"@, main]);
    let two = literal_templates(seq!["java"@, main]);
    assert(two[0] == literal_template("java"@) && two[1] == literal_template(main));
    assert forall|i: int| 0 <= i < argv.len() implies template_of((#[trigger] argv[i]).raw) == Ok::<
        TemplateModel,
        Seq<char>,
    >(argv[i]) by {
        if i == 0 {
            assert(argv[i] == two[0]);
        } else if i <= n {
            assert(argv[i] == flags[i - 1]);
        } else if i == n + 1 {
            assert(argv[i] == argfile);
        } else if i == n + 2 {
            assert(argv[i] == two[1]);
        } else {
            assert(argv[i] == arguments[i - n - 3]);
        }
    }
    lemma_java_word();
}

proof fn lemma_java_word()
    ensures
        trimmed(literal_template("java"@).raw).len() > 0,
{
    reveal_strlit("java");
    let j = "java"@;
    reveal_with_fuel(escaped, 6);
    let e = escaped(j);
    assert(j.drop_last().drop_last().drop_last().drop_last().len() == 0);
    assert(e.last() == 'a');
    lemma_run_end(e, Class::Space, 0);
    let l = left(e);
    assert(l.len() > 0 && l.last() == 'a') by {
        if run_end(e, Class::Space, 0) == e.len() {
            assert(Class::Space.has(e[e.len() - 1]));
        }
    }
    lemma_run_start(l, Class::Space, l.len() as int);
    if run_start(l, Class::Space, l.len() as int) < l.len() {
        assert(Class::Space.has(l[l.len() - 1]));
    }
}

// ---- what a task needs -----------------------------------------------------

/// What an execution becomes, but for what its own words decide.
pub open spec fn exec_put(t: TaskModel) -> bool {
    &&& task_name_fault(t.name) is None
    &&& t.depends_on.len() == 0 || t.depends_on == seq![TaskRefModel::Builtin(Builtin::Build)]
    &&& match t.action {
        Some(ActionModel::Run(argv)) => good_action(ActionModel::Run(argv)) && t.dependencies.len()
            == 0,
        Some(ActionModel::Main(_)) => t.dependencies.len() > 0,
        _ => false,
    }
    &&& good_env(t.env)
    &&& env_apart(t.env)
    &&& t.cwd matches Some(x) ==> good_template(x) && classpath_from(x.placeholders(), 0) is None
    &&& good_templates(t.args)
    &&& t.inputs.len() == 0
    &&& t.outputs.len() == 0
    &&& t.source_outputs.len() == 0
    &&& t.resource_outputs.len() == 0
}

/// What the words of an execution decide: the class that it runs, and the
/// tool that the class is of.
pub open spec fn worded_task(t: TaskModel) -> bool {
    &&& t.action matches Some(ActionModel::Main(class)) ==> class_name(class)
    &&& good_dependencies(t.dependencies)
    &&& tool_fault_from(t.dependencies, "tasks."@ + t.name + ".dependencies"@, 0) is None
}

proof fn lemma_run(
    goal: Seq<char>,
    configs: Seq<ElementModel>,
    arguments: Seq<TemplateModel>,
    hooking: bool,
    pom: PomModel,
    props: Properties,
)
    requires
        good_templates(arguments),
    ensures
        goal_run(goal, configs, arguments, hooking, pom, props) matches Ok(r) ==> {
            &&& goal == "exec"@ || goal == "java"@
            &&& good_templates(r.args)
            &&& r.depends_on.len() == 0 || (!hooking && r.depends_on == seq![
                TaskRefModel::Builtin(Builtin::Build),
            ])
            &&& match r.action {
                ActionModel::Run(argv) => good_action(ActionModel::Run(argv))
                    && r.dependencies.len() == 0,
                ActionModel::Main(_) => r.dependencies.len() > 0,
                _ => false,
            }
        },
{
    if goal == "exec"@ {
        if let Some(executable) = text_in(configs, "executable"@) {
            if let Ok(t) = exec_template_of(executable, props) {
                let argv = seq![t] + arguments;
                assert forall|i: int| 0 <= i < argv.len() implies template_of(
                    (#[trigger] argv[i]).raw,
                ) == Ok::<TemplateModel, Seq<char>>(argv[i]) by {
                    if i > 0 {
                        assert(argv[i] == arguments[i - 1]);
                    }
                }
            }
        }
    } else if goal == "java"@ {
        if let Some(raw) = text_in(configs, "mainClass"@) {
            let main = interpolated(raw, props);
            if let Some(list) = get(configs, "systemProperties"@) {
                lemma_flags(list.children_named("systemProperty"@), 0, props, seq![]);
            }
            if let Ok(flags) = flags_of(configs, props) {
                lemma_argfile();
                if let Ok(argfile) = template_of("@{classpath-argfile}"@) {
                    lemma_java_command(main, flags, argfile, arguments);
                }
            }
        }
    }
}

/// What an execution becomes is put together as a task has to be, under a name
/// that no other task has.
proof fn lemma_exec_task(
    id: Seq<char>,
    goal: Seq<char>,
    several: bool,
    execution: ElementModel,
    plugin: PluginModel,
    pom: PomModel,
    props: Properties,
    tasks: Seq<TaskModel>,
)
    ensures
        exec_task_of(id, goal, several, execution, plugin, pom, props, tasks) matches Ok(t) ==> {
            &&& exec_put(t.def)
            &&& !task_names(tasks).contains(t.def.name)
            &&& t.hook is Some ==> t.def.depends_on.len() == 0
        },
{
    let configs = configs_of(execution, plugin);
    lemma_arguments(configs, goal, props);
    if let Some(vars) = get(configs, "environmentVariables"@) {
        lemma_environment(vars.children, 0, props, seq![]);
    }
    if let Some(d) = text_in(configs, "workingDirectory"@) {
        lemma_exec_template(d, props);
    }
    if let Ok(arguments) = execution_arguments(configs, goal, props) {
        if let Ok(hook) = execution_hook(execution) {
            lemma_run(goal, configs, arguments, hook is Some, pom, props);
        }
    }
    if goal == "exec"@ || goal == "java"@ {
        lemma_execution_name(id, goal, several, tasks);
    }
}

// ---- all of them -----------------------------------------------------------

/// A task of that name waits for nothing.
pub open spec fn ready(tasks: Seq<TaskModel>, name: Seq<char>) -> bool {
    exists|j: int|
        0 <= j < tasks.len() && (#[trigger] tasks[j]).name == name && tasks[j].depends_on.len() == 0
}

/// Every task that a hook names waits for nothing.
pub open spec fn all_ready(tasks: Seq<TaskModel>, hooks: HookLists) -> bool {
    forall|h: int, k: int|
        0 <= h < hooks.len() && 0 <= k < hooks[h].1.len() ==> ready(
            tasks,
            #[trigger] hooks[h].1[k],
        )
}

/// What holds of the tasks and the hooks while the executions are read.
pub open spec fn execs_put(tasks: Seq<TaskModel>, hooks: HookLists) -> bool {
    &&& forall|k: int| 0 <= k < tasks.len() ==> exec_put(#[trigger] tasks[k])
    &&& tasks_apart(tasks)
    &&& good_hooks(hooks)
    &&& all_ready(tasks, hooks)
}

proof fn lemma_still_ready(tasks: Seq<TaskModel>, t: TaskModel, hooks: HookLists)
    requires
        all_ready(tasks, hooks),
    ensures
        all_ready(tasks.push(t), hooks),
{
    let more = tasks.push(t);
    assert forall|h: int, k: int| 0 <= h < hooks.len() && 0 <= k < hooks[h].1.len() implies ready(
        more,
        #[trigger] hooks[h].1[k],
    ) by {
        let name = hooks[h].1[k];
        let j = choose|j: int|
            0 <= j < tasks.len() && (#[trigger] tasks[j]).name == name && tasks[j].depends_on.len()
                == 0;
        assert(more[j] == tasks[j]);
    }
}

proof fn lemma_hooked_ready(tasks: Seq<TaskModel>, m: HookLists, hook: Hook, task: Seq<char>)
    requires
        all_ready(tasks, m),
        ready(tasks, task),
    ensures
        all_ready(tasks, hooked(m, hook, task)),
    decreases m.len(),
{
    let r = hooked(m, hook, task);
    let rest = m.skip(1);
    if m.len() > 0 && m[0].0 != hook && hook.place() >= m[0].0.place() {
        assert forall|h: int, k: int| 0 <= h < rest.len() && 0 <= k < rest[h].1.len() implies ready(
            tasks,
            #[trigger] rest[h].1[k],
        ) by {
            assert(rest[h] == m[h + 1]);
            assert(m[h + 1].1[k] == rest[h].1[k]);
        }
        lemma_hooked_ready(tasks, rest, hook, task);
    }
    assert forall|h: int, k: int| 0 <= h < r.len() && 0 <= k < r[h].1.len() implies ready(
        tasks,
        #[trigger] r[h].1[k],
    ) by {
        if m.len() == 0 {
            assert(r[h].1[k] == task);
        } else if m[0].0 == hook {
            if h == 0 {
                if k < m[0].1.len() {
                    assert(r[h].1[k] == m[0].1[k]);
                } else {
                    assert(r[h].1[k] == task);
                }
            } else {
                assert(r[h] == m[h]);
                assert(m[h].1[k] == r[h].1[k]);
            }
        } else if hook.place() < m[0].0.place() {
            if h == 0 {
                assert(r[h].1[k] == task);
            } else {
                assert(r[h] == m[h - 1]);
                assert(m[h - 1].1[k] == r[h].1[k]);
            }
        } else if h == 0 {
            assert(r[h] == m[0]);
            assert(m[0].1[k] == r[h].1[k]);
        } else {
            let inner = hooked(rest, hook, task);
            assert(r[h] == inner[h - 1]);
            assert(inner[h - 1].1[k] == r[h].1[k]);
        }
    }
}

proof fn lemma_one_more(tasks: Seq<TaskModel>, hooks: HookLists, t: TaskModel, hook: Option<Hook>)
    requires
        execs_put(tasks, hooks),
        exec_put(t),
        !task_names(tasks).contains(t.name),
        hook is Some ==> t.depends_on.len() == 0,
    ensures
        execs_put(
            tasks.push(t),
            match hook {
                Some(hook) => hooked(hooks, hook, t.name),
                None => hooks,
            },
        ),
{
    let more = tasks.push(t);
    assert forall|k: int| 0 <= k < more.len() implies exec_put(#[trigger] more[k]) by {
        if k < tasks.len() {
            assert(more[k] == tasks[k]);
        }
    }
    assert forall|i: int, j: int| 0 <= i < j < more.len() implies (#[trigger] more[i]).name != (
    #[trigger] more[j]).name by {
        assert(more[i] == tasks[i]);
        if j < tasks.len() {
            assert(more[j] == tasks[j]);
        } else {
            assert(task_names(tasks)[i] == tasks[i].name);
        }
    }
    lemma_still_ready(tasks, t, hooks);
    if let Some(hook) = hook {
        lemma_hooked(hooks, hook, t.name);
        assert(more[tasks.len() as int] == t);
        lemma_hooked_ready(more, hooks, hook, t.name);
    }
}

proof fn lemma_goals(
    goals: Seq<Seq<char>>,
    i: int,
    id: Seq<char>,
    execution: ElementModel,
    plugin: PluginModel,
    pom: PomModel,
    props: Properties,
    m: ManifestModel,
    told: ReportModel,
)
    requires
        0 <= i,
        execs_put(m.tasks, m.hooks),
    ensures
        ({
            let r = goals_read(goals, i, id, execution, plugin, pom, props, m, told).0;
            execs_put(r.tasks, r.hooks) && r == ManifestModel { tasks: r.tasks, hooks: r.hooks, ..m }
        }),
    decreases goals.len() - i,
{
    if i < goals.len() {
        let several = goals.len() > 1;
        lemma_exec_task(id, goals[i], several, execution, plugin, pom, props, m.tasks);
        if let Ok(t) = exec_task_of(id, goals[i], several, execution, plugin, pom, props, m.tasks) {
            lemma_one_more(m.tasks, m.hooks, t.def, t.hook);
        }
        let (next, more) = with_goal(
            m,
            told,
            id,
            goals[i],
            several,
            execution,
            plugin,
            pom,
            props,
        );
        lemma_goals(goals, i + 1, id, execution, plugin, pom, props, next, more);
    }
}

/// The executions of a plugin leave tasks and hooks that are put together as
/// they have to be, and nothing else changed.
pub proof fn lemma_executions(
    executions: Seq<ElementModel>,
    i: int,
    plugin: PluginModel,
    pom: PomModel,
    props: Properties,
    m: ManifestModel,
    told: ReportModel,
)
    requires
        0 <= i,
        execs_put(m.tasks, m.hooks),
    ensures
        ({
            let r = executions_read(executions, i, plugin, pom, props, m, told).0;
            execs_put(r.tasks, r.hooks) && r == ManifestModel { tasks: r.tasks, hooks: r.hooks, ..m }
        }),
    decreases executions.len() - i,
{
    if i < executions.len() {
        let execution = executions[i];
        let id = text_or(execution.text_of("id"@), "default"@);
        let goals = goals_from(execution.list("goals"@, "goal"@), 0, seq![]);
        lemma_goals(goals, 0, id, execution, plugin, pom, props, m, told);
        let (next, more) = execution_read(execution, plugin, pom, props, m, told);
        lemma_executions(executions, i + 1, plugin, pom, props, next, more);
    }
}

// ---- what they are checked for ---------------------------------------------

proof fn lemma_loads(t: TaskModel)
    requires
        exec_put(t),
        worded_task(t),
    ensures
        loads(t),
{
    assert(good_references(t.depends_on)) by {
        builtin_names_are_their_own(Builtin::Build, Builtin::Build.word());
        if t.depends_on.len() > 0 {
            assert(t.depends_on[0] == TaskRefModel::Builtin(Builtin::Build));
        }
    }
    let list = path_keys(t);
    assert(list.len() <= 1);
    if let Some(x) = t.cwd {
        assert(list[0] == ("cwd"@, x));
        assert(path_fault_from(list, "tasks."@ + t.name, 1) is None);
    }
}

proof fn lemma_no_refs_fault(
    tasks: Seq<TaskModel>,
    name: Seq<char>,
    refs: Seq<TaskRefModel>,
    i: int,
)
    requires
        0 <= i,
        forall|k: int| 0 <= k < refs.len() ==> (#[trigger] refs[k]) is Builtin,
    ensures
        refs_fault_from(tasks, name, refs, i) is None,
    decreases refs.len() - i,
{
    if i < refs.len() {
        assert(refs[i] is Builtin);
        lemma_no_refs_fault(tasks, name, refs, i + 1);
    }
}

proof fn lemma_no_needs_fault(tasks: Seq<TaskModel>, i: int)
    requires
        0 <= i,
        forall|k: int| 0 <= k < tasks.len() ==> exec_put(#[trigger] tasks[k]),
    ensures
        needs_fault_from(tasks, i) is None,
    decreases tasks.len() - i,
{
    if i < tasks.len() {
        assert(exec_put(tasks[i]));
        lemma_no_refs_fault(tasks, tasks[i].name, tasks[i].depends_on, 0);
        lemma_no_needs_fault(tasks, i + 1);
    }
}

proof fn lemma_no_names_fault(
    tasks: Seq<TaskModel>,
    hooks: HookLists,
    h: int,
    i: int,
)
    requires
        0 <= h < hooks.len(),
        0 <= i,
        all_ready(tasks, hooks),
    ensures
        names_fault_from(tasks, hooks[h].0, hooks[h].1, i) is None,
    decreases hooks[h].1.len() - i,
{
    if i < hooks[h].1.len() {
        assert(ready(tasks, hooks[h].1[i]));
        lemma_no_names_fault(tasks, hooks, h, i + 1);
    }
}

proof fn lemma_no_hooks_fault(tasks: Seq<TaskModel>, hooks: HookLists, i: int)
    requires
        0 <= i,
        all_ready(tasks, hooks),
    ensures
        hooks_fault_from(tasks, hooks, i) is None,
    decreases hooks.len() - i,
{
    if i < hooks.len() {
        lemma_no_names_fault(tasks, hooks, i, 0);
        lemma_no_hooks_fault(tasks, hooks, i + 1);
    }
}

proof fn lemma_hook_is_ready(tasks: Seq<TaskModel>, hooks: HookLists, hook: Hook, name: Seq<char>)
    requires
        all_ready(tasks, hooks),
        hook_tasks(hooks, hook).contains(name),
    ensures
        ready(tasks, name),
    decreases hooks.len(),
{
    if hooks.len() > 0 {
        if hooks[0].0 == hook {
            let k = choose|k: int| 0 <= k < hooks[0].1.len() && hooks[0].1[k] == name;
            assert(ready(tasks, hooks[0].1[k]));
        } else {
            let rest = hooks.skip(1);
            assert forall|h: int, k: int|
                0 <= h < rest.len() && 0 <= k < rest[h].1.len() implies ready(
                tasks,
                #[trigger] rest[h].1[k],
            ) by {
                assert(rest[h] == hooks[h + 1]);
                assert(hooks[h + 1].1[k] == rest[h].1[k]);
            }
            lemma_hook_is_ready(tasks, rest, hook, name);
        }
    }
}

/// What a task waits for waits for nothing.
proof fn lemma_short_wait(tasks: Seq<TaskModel>, hooks: HookLists, i: int, j: int)
    requires
        execs_put(tasks, hooks),
        leads(tasks, hooks, i, j),
    ensures
        tasks[j].depends_on.len() == 0,
        tasks[i].depends_on.len() > 0,
{
    let refs = tasks[i].depends_on;
    let name = tasks[j].name;
    assert(exec_put(tasks[i]));
    let k = choose|k: int|
        0 <= k < refs.len() && match #[trigger] refs[k] {
            TaskRefModel::Task(t) => t == name,
            TaskRefModel::Builtin(b) => fires_for(hooks, b.fires(), name),
        };
    assert(refs[k] == TaskRefModel::Builtin(Builtin::Build));
    let fired = Builtin::Build.fires();
    let h = choose|h: int|
        0 <= h < fired.len() && hook_tasks(hooks, #[trigger] fired[h]).contains(name);
    lemma_hook_is_ready(tasks, hooks, fired[h], name);
    let r = choose|r: int|
        0 <= r < tasks.len() && (#[trigger] tasks[r]).name == name && tasks[r].depends_on.len() == 0;
    if r < j {
        assert(tasks[r].name != tasks[j].name);
    } else if j < r {
        assert(tasks[j].name != tasks[r].name);
    }
}

proof fn lemma_no_circle(tasks: Seq<TaskModel>, hooks: HookLists, i: int)
    requires
        0 <= i,
        execs_put(tasks, hooks),
    ensures
        circle_fault_from(tasks, hooks, i) is None,
    decreases tasks.len() - i,
{
    if i < tasks.len() {
        let n = tasks.len();
        assert forall|j: int| #[trigger] leads(tasks, hooks, i, j) implies ends_within(
            tasks,
            hooks,
            j,
            (n - 1) as nat,
        ) by {
            lemma_short_wait(tasks, hooks, i, j);
            assert(i != j);
            assert(n - 1 > 0);
            assert forall|k: int| #[trigger] leads(tasks, hooks, j, k) implies ends_within(
                tasks,
                hooks,
                k,
                (n - 2) as nat,
            ) by {
                lemma_short_wait(tasks, hooks, j, k);
            }
        }
        assert(ends_within(tasks, hooks, i, n));
        lemma_no_circle(tasks, hooks, i + 1);
    }
}

/// The tasks that executions become can be loaded, and pass the check of tasks
/// and hooks, where a task can hold their words.
pub proof fn lemma_execs_load(tasks: Seq<TaskModel>, hooks: HookLists)
    requires
        execs_put(tasks, hooks),
        forall|k: int| 0 <= k < tasks.len() ==> worded_task(#[trigger] tasks[k]),
    ensures
        good_tasks(tasks),
        good_hooks(hooks),
        tasks_fault(tasks, hooks) is None,
{
    assert forall|k: int| 0 <= k < tasks.len() implies loads(#[trigger] tasks[k]) by {
        assert(exec_put(tasks[k]) && worded_task(tasks[k]));
        lemma_loads(tasks[k]);
    }
    lemma_no_needs_fault(tasks, 0);
    lemma_no_hooks_fault(tasks, hooks, 0);
    lemma_no_circle(tasks, hooks, 0);
}

} // verus!
