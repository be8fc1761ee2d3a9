//! What tasks and hooks say when they are read again.

use crate::error::Fault;
use crate::keys::{class_name, key_warnings, optional_text, subtable, text_list};
use crate::parse_tasks::{
    action_of, hooks_from, hooks_of, path_fault_from, path_keys, reference_of, references_from,
    references_of, repeated_from, reserved, task_keys, task_name_fault, task_table, tasks_from,
    tasks_of, template_list, templates_from, tool_fault_from,
};
use crate::render::{raws, reference_words};
use crate::reread::{begins, lemma_slot, lemma_texts, slot_value};
use crate::reread_dependencies::{good_dependencies, lemma_dependencies_again, plain_keyed};
use crate::reread_settings::{
    good_env, good_template, lemma_env_again, lemma_env_is_good, lemma_template_again,
};
use crate::sheet::{block_is, blocks_are, plain_is, scalar_is, Scalar};
use crate::sheet_of::{
    action_value, dependency_block, hook_plain_line, hooks_block, lined, lines_of, list_value,
    task_block, task_slots, tasks_block, tasks_inner,
};
use crate::task::{
    builtin_named, every_hook, hook_tasks, in_order, ActionModel, Hook, HookLists, TaskModel,
    TaskRefModel,
};
use crate::template::{template_of, TemplateModel};
use crate::text::trimmed;
use crate::value::{entry, entry_from, sound, Entries};
use crate::writable::{env_apart, env_unmarked, lemma_env_apart, lemma_sound};
use crate::writable_dependencies::lemma_dependencies_good;
use vstd::prelude::*;

verus! {

// ---- lists of templates ----------------------------------------------------

/// Templates that are what their text says.
pub open spec fn good_templates(list: Seq<TemplateModel>) -> bool {
    forall|i: int|
        0 <= i < list.len() ==> template_of((#[trigger] list[i]).raw) == Ok::<
            TemplateModel,
            Seq<char>,
        >(list[i])
}

proof fn lemma_good_templates(
    raw: Seq<Seq<char>>,
    i: int,
    out: Seq<TemplateModel>,
    name: Seq<char>,
)
    requires
        0 <= i <= raw.len(),
        good_templates(out),
    ensures
        templates_from(raw, i, out, name) matches Ok(list) ==> good_templates(list),
    decreases raw.len() - i,
{
    if i < raw.len() {
        if let Ok(t) = template_of(raw[i]) {
            lemma_good_templates(raw, i + 1, out.push(t), name);
        }
    }
}

proof fn lemma_templates_from(
    list: Seq<TemplateModel>,
    i: int,
    out: Seq<TemplateModel>,
    name: Seq<char>,
)
    requires
        0 <= i <= list.len(),
        good_templates(list),
        out == list.take(i),
    ensures
        templates_from(raws(list), i, out, name) == Ok::<Seq<TemplateModel>, Fault>(list),
    decreases list.len() - i,
{
    if i < list.len() {
        assert(raws(list)[i] == list[i].raw);
        assert(list.take(i + 1) =~= out.push(list[i]));
        lemma_templates_from(list, i + 1, out.push(list[i]), name);
    } else {
        assert(list.take(i) =~= list);
    }
}

/// The templates of a list are.
proof fn lemma_templates_are_good(t: Entries, key: Seq<char>, section: Seq<char>)
    ensures
        template_list(t, key, section) matches Ok(list) ==> good_templates(list),
{
    if let Ok(raw) = text_list(t, key, section) {
        lemma_good_templates(raw, 0, seq![], section + "."@ + key);
    }
}

/// A list of templates is read again as it was.
proof fn lemma_templates_again(
    t: Entries,
    key: Seq<char>,
    section: Seq<char>,
    list: Seq<TemplateModel>,
)
    requires
        good_templates(list),
        match list_value(raws(list)) {
            Some(p) => entry(t, key) is Some && plain_is(entry(t, key)->0, p),
            None => entry(t, key) is None,
        },
    ensures
        template_list(t, key, section) == Ok::<Seq<TemplateModel>, Fault>(list),
{
    lemma_texts(t, key, section, raws(list));
    assert(list.take(0) =~= seq![]);
    lemma_templates_from(list, 0, seq![], section + "."@ + key);
}

// ---- references ------------------------------------------------------------

/// References that a list can name: each once.
pub open spec fn good_references(list: Seq<TaskRefModel>) -> bool {
    &&& forall|i: int|
        0 <= i < list.len() ==> reference_of((#[trigger] list[i]).word()) == list[i] && !(
        builtin_named(list[i].word()) is None && reserved(list[i].word()))
    &&& forall|i: int, j: int| 0 <= i < j < list.len() ==> #[trigger] list[i] != #[trigger] list[j]
}

proof fn lemma_reference(name: Seq<char>)
    ensures
        reference_of(name).word() == name,
{
}

proof fn lemma_good_references(
    raw: Seq<Seq<char>>,
    section: Seq<char>,
    i: int,
    out: Seq<TaskRefModel>,
)
    requires
        0 <= i <= raw.len(),
        good_references(out),
    ensures
        references_from(raw, section, i, out) matches Ok(list) ==> good_references(list),
    decreases raw.len() - i,
{
    if i < raw.len() {
        lemma_reference(raw[i]);
        let r = reference_of(raw[i]);
        if !(builtin_named(raw[i]) is None && reserved(raw[i])) && !out.contains(r) {
            let more = out.push(r);
            assert forall|a: int, b: int| 0 <= a < b < more.len() implies #[trigger] more[a]
                != #[trigger] more[b] by {
                assert(more[a] == out[a]);
                if b < out.len() {
                    assert(more[b] == out[b]);
                } else {
                    assert(out.contains(out[a]));
                }
            }
            lemma_good_references(raw, section, i + 1, more);
        }
    }
}

proof fn lemma_references_from(
    list: Seq<TaskRefModel>,
    section: Seq<char>,
    i: int,
    out: Seq<TaskRefModel>,
)
    requires
        0 <= i <= list.len(),
        good_references(list),
        out == list.take(i),
    ensures
        references_from(reference_words(list), section, i, out) == Ok::<Seq<TaskRefModel>, Fault>(
            list,
        ),
    decreases list.len() - i,
{
    if i < list.len() {
        assert(reference_words(list)[i] == list[i].word());
        assert(list.take(i + 1) =~= out.push(list[i]));
        assert(!out.contains(list[i]));
        lemma_references_from(list, section, i + 1, out.push(list[i]));
    } else {
        assert(list.take(i) =~= list);
    }
}

/// The references of a list are.
proof fn lemma_references_are_good(t: Entries, section: Seq<char>)
    ensures
        references_of(t, section) matches Ok(list) ==> good_references(list),
{
    if let Ok(raw) = text_list(t, "depends-on"@, section) {
        lemma_good_references(raw, section, 0, seq![]);
    }
}

proof fn lemma_references_again(t: Entries, section: Seq<char>, list: Seq<TaskRefModel>)
    requires
        good_references(list),
        match list_value(reference_words(list)) {
            Some(p) => entry(t, "depends-on"@) is Some && plain_is(entry(t, "depends-on"@)->0, p),
            None => entry(t, "depends-on"@) is None,
        },
    ensures
        references_of(t, section) == Ok::<Seq<TaskRefModel>, Fault>(list),
{
    lemma_texts(t, "depends-on"@, section, reference_words(list));
    assert(list.take(0) =~= seq![]);
    lemma_references_from(list, section, 0, seq![]);
}

// ---- actions ---------------------------------------------------------------

/// An action that a key can hold.
pub open spec fn good_action(action: ActionModel) -> bool {
    match action {
        ActionModel::Run(argv) => argv.len() > 0 && trimmed(argv[0].raw).len() > 0
            && good_templates(argv),
        ActionModel::Shell(_) => true,
        ActionModel::Script(file) => template_of(file.raw) == Ok::<TemplateModel, Seq<char>>(file),
        ActionModel::Main(class) => class_name(class),
    }
}

proof fn lemma_good_action(t: Entries, section: Seq<char>)
    ensures
        action_of(t, section) matches Ok(Some(a)) ==> good_action(a),
{
    if let Ok(raw) = text_list(t, "run"@, section) {
        lemma_good_templates(raw, 0, seq![], section + "."@ + "run"@);
    }
}

/// The key of an action, and no other, holds it.
pub open spec fn action_written(t: Entries, action: Option<ActionModel>, key: Seq<char>) -> bool {
    match action_value(action, key) {
        Some(p) => entry(t, key) is Some && plain_is(entry(t, key)->0, p),
        None => entry(t, key) is None,
    }
}

proof fn lemma_action_again(t: Entries, section: Seq<char>, action: Option<ActionModel>)
    requires
        action matches Some(a) ==> good_action(a),
        action_written(t, action, "run"@),
        action_written(t, action, "shell"@),
        action_written(t, action, "script"@),
        action_written(t, action, "main"@),
    ensures
        action_of(t, section) == Ok::<Option<ActionModel>, Fault>(action),
{
    reveal_strlit("run");
    reveal_strlit("shell");
    reveal_strlit("script");
    reveal_strlit("main");
    assert("run"@.len() == 3);
    assert("shell"@.len() == 5);
    assert("script"@.len() == 6);
    assert("main"@.len() == 4);
    match action {
        Some(ActionModel::Run(argv)) => {
            lemma_texts(t, "run"@, section, raws(argv));
            assert(argv.take(0) =~= seq![]);
            lemma_templates_from(argv, 0, seq![], section + "."@ + "run"@);
        },
        Some(ActionModel::Shell(s)) => {
            assert(entry(t, "shell"@)->0.text() == Some(s));
        },
        Some(ActionModel::Script(file)) => {
            assert(entry(t, "script"@)->0.text() == Some(file.raw));
        },
        Some(ActionModel::Main(class)) => {
            assert(entry(t, "main"@)->0.text() == Some(class));
        },
        None => {},
    }
}

// ---- one task --------------------------------------------------------------

proof fn lemma_task_slots(t: TaskModel)
    ensures
        ({
            let slots = task_slots(t);
            &&& slot_value(slots, "description"@, 0) == slots[0].1
            &&& slot_value(slots, "run"@, 0) == slots[1].1
            &&& slot_value(slots, "shell"@, 0) == slots[2].1
            &&& slot_value(slots, "script"@, 0) == slots[3].1
            &&& slot_value(slots, "main"@, 0) == slots[4].1
            &&& slot_value(slots, "args"@, 0) == slots[5].1
            &&& slot_value(slots, "depends-on"@, 0) == slots[6].1
            &&& slot_value(slots, "env"@, 0) == slots[7].1
            &&& slot_value(slots, "cwd"@, 0) == slots[8].1
            &&& slot_value(slots, "inputs"@, 0) == slots[9].1
            &&& slot_value(slots, "outputs"@, 0) == slots[10].1
            &&& slot_value(slots, "source-outputs"@, 0) == slots[11].1
            &&& slot_value(slots, "resource-outputs"@, 0) == slots[12].1
            &&& slot_value(slots, "dependencies"@, 0) is None
        }),
        "description"@ != "dependencies"@,
        "run"@ != "dependencies"@,
        "shell"@ != "dependencies"@,
        "script"@ != "dependencies"@,
        "main"@ != "dependencies"@,
        "args"@ != "dependencies"@,
        "depends-on"@ != "dependencies"@,
        "env"@ != "dependencies"@,
        "cwd"@ != "dependencies"@,
        "inputs"@ != "dependencies"@,
        "outputs"@ != "dependencies"@,
        "source-outputs"@ != "dependencies"@,
        "resource-outputs"@ != "dependencies"@,
{
    reveal_strlit("description");
    reveal_strlit("run");
    reveal_strlit("shell");
    reveal_strlit("script");
    reveal_strlit("main");
    reveal_strlit("args");
    reveal_strlit("depends-on");
    reveal_strlit("env");
    reveal_strlit("cwd");
    reveal_strlit("inputs");
    reveal_strlit("outputs");
    reveal_strlit("source-outputs");
    reveal_strlit("resource-outputs");
    reveal_strlit("dependencies");
    assert("description"@.len() == 11);
    assert("run"@.len() == 3 && "run"@[0] == 'r');
    assert("shell"@.len() == 5);
    assert("script"@.len() == 6 && "script"@[0] == 's');
    assert("main"@.len() == 4 && "main"@[0] == 'm');
    assert("args"@.len() == 4 && "args"@[0] == 'a');
    assert("depends-on"@.len() == 10);
    assert("env"@.len() == 3 && "env"@[0] == 'e');
    assert("cwd"@.len() == 3 && "cwd"@[0] == 'c');
    assert("inputs"@.len() == 6 && "inputs"@[0] == 'i');
    assert("outputs"@.len() == 7);
    assert("source-outputs"@.len() == 14);
    assert("resource-outputs"@.len() == 16);
    assert("dependencies"@.len() == 12);
    reveal_with_fuel(slot_value, 14);
}

/// What a key of a task's table holds.
proof fn lemma_task_entry(t: Entries, task: TaskModel, key: Seq<char>)
    requires
        block_is(t, task_block(task)),
        key != "dependencies"@,
    ensures
        match slot_value(task_slots(task), key, 0) {
            Some(p) => entry(t, key) is Some && plain_is(entry(t, key)->0, p),
            None => entry(t, key) is None,
        },
{
    let b = task_block(task);
    let n = b.lines.len() as int;
    assert(begins(t, lines_of(task_slots(task), 13)));
    lemma_slot(t, task_slots(task), key);
    reveal_with_fuel(entry_from, 2);
    if task.dependencies.len() > 0 {
        assert(t.skip(n)[0] == t[n]);
        assert(b.inner[0].0 == "dependencies"@);
        assert(t[n].0 == "dependencies"@);
    }
}

/// What `dependencies` of a task's table holds.
proof fn lemma_task_tools(t: Entries, task: TaskModel)
    requires
        block_is(t, task_block(task)),
    ensures
        if task.dependencies.len() > 0 {
            entry(t, "dependencies"@) is Some && entry(t, "dependencies"@)->0.kind is Table
                && block_is(
                entry(t, "dependencies"@)->0.kind->Table_0,
                dependency_block(task.dependencies),
            )
        } else {
            entry(t, "dependencies"@) is None
        },
{
    let b = task_block(task);
    let n = b.lines.len() as int;
    lemma_task_slots(task);
    assert(begins(t, lines_of(task_slots(task), 13)));
    lemma_slot(t, task_slots(task), "dependencies"@);
    reveal_with_fuel(entry_from, 2);
    if task.dependencies.len() > 0 {
        assert(t.skip(n)[0] == t[n]);
        assert(b.inner[0] == ("dependencies"@, dependency_block(task.dependencies)));
        assert(t[n].0 == "dependencies"@);
    }
}

/// Every key of a task's table holds what its slot says.
pub open spec fn task_written(t: Entries, task: TaskModel) -> bool {
    let slots = task_slots(task);
    forall|i: int|
        0 <= i < 13 ==> match (#[trigger] slots[i]).1 {
            Some(p) => entry(t, slots[i].0) is Some && plain_is(entry(t, slots[i].0)->0, p),
            None => entry(t, slots[i].0) is None,
        }
}

proof fn lemma_task_written(t: Entries, task: TaskModel)
    requires
        block_is(t, task_block(task)),
    ensures
        task_written(t, task),
{
    lemma_task_slots(task);
    lemma_task_entry(t, task, "description"@);
    lemma_task_entry(t, task, "run"@);
    lemma_task_entry(t, task, "shell"@);
    lemma_task_entry(t, task, "script"@);
    lemma_task_entry(t, task, "main"@);
    lemma_task_entry(t, task, "args"@);
    lemma_task_entry(t, task, "depends-on"@);
    lemma_task_entry(t, task, "env"@);
    lemma_task_entry(t, task, "cwd"@);
    lemma_task_entry(t, task, "inputs"@);
    lemma_task_entry(t, task, "outputs"@);
    lemma_task_entry(t, task, "source-outputs"@);
    lemma_task_entry(t, task, "resource-outputs"@);
}

/// The tools of a task are dependencies that a table can declare, and there
/// just where its action runs from them.
pub open spec fn good_tools(t: TaskModel) -> bool {
    &&& good_dependencies(t.dependencies)
    &&& tool_fault_from(t.dependencies, "tasks."@ + t.name + ".dependencies"@, 0) is None
    &&& t.action is Some && t.action->0 is Main ==> t.dependencies.len() > 0
    &&& t.action is None || t.action->0 is Run || t.action->0 is Shell ==> t.dependencies.len()
        == 0
}

/// A task that a table can declare: under a task's name, with something to do,
/// each variable once, every template what its text says, and no classpath for
/// a path.
pub open spec fn loads(t: TaskModel) -> bool {
    &&& task_name_fault(t.name) is None
    &&& good_references(t.depends_on)
    &&& t.action is None ==> t.depends_on.len() > 0
    &&& t.action matches Some(a) ==> good_action(a)
    &&& good_tools(t)
    &&& good_env(t.env)
    &&& env_apart(t.env)
    &&& t.cwd matches Some(x) ==> good_template(x)
    &&& good_templates(t.args)
    &&& good_templates(t.inputs)
    &&& good_templates(t.outputs)
    &&& good_templates(t.source_outputs)
    &&& good_templates(t.resource_outputs)
    &&& path_fault_from(path_keys(t), "tasks."@ + t.name, 0) is None
}

/// A task that was read is one.
pub proof fn lemma_task_loads(name: Seq<char>, t: Entries, task: TaskModel)
    requires
        sound(t),
        task_name_fault(name) is None,
        task_table(name, t) == Ok::<TaskModel, Fault>(task),
    ensures
        loads(task),
        env_unmarked(task.env),
{
    let section = "tasks."@ + name;
    lemma_good_action(t, section);
    lemma_references_are_good(t, section);
    lemma_sound(t, "dependencies"@);
    lemma_dependencies_good(
        entry(t, "dependencies"@),
        section + ".dependencies"@,
        task.dependencies,
    );
    lemma_env_is_good(t, section, ", and are set for every task"@);
    lemma_env_apart(t, section, ", and are set for every task"@, task.env);
    lemma_templates_are_good(t, "args"@, section);
    lemma_templates_are_good(t, "inputs"@, section);
    lemma_templates_are_good(t, "outputs"@, section);
    lemma_templates_are_good(t, "source-outputs"@, section);
    lemma_templates_are_good(t, "resource-outputs"@, section);
}

/// A task is read again as it was.
pub proof fn lemma_task_again(t: Entries, task: TaskModel)
    requires
        loads(task),
        forall|k: int|
            0 <= k < task.dependencies.len() ==> plain_keyed(#[trigger] task.dependencies[k]),
        block_is(t, task_block(task)),
    ensures
        task_table(task.name, t) == Ok::<TaskModel, Fault>(task),
{
    let section = "tasks."@ + task.name;
    let slots = task_slots(task);
    lemma_task_written(t, task);
    lemma_task_tools(t, task);
    assert(slots[0].0 == "description"@ && slots[1].0 == "run"@ && slots[2].0 == "shell"@);
    assert(slots[3].0 == "script"@ && slots[4].0 == "main"@ && slots[5].0 == "args"@);
    assert(slots[6].0 == "depends-on"@ && slots[7].0 == "env"@ && slots[8].0 == "cwd"@);
    assert(slots[9].0 == "inputs"@ && slots[10].0 == "outputs"@);
    assert(slots[11].0 == "source-outputs"@ && slots[12].0 == "resource-outputs"@);
    lemma_action_again(t, section, task.action);
    lemma_references_again(t, section, task.depends_on);
    lemma_dependencies_again(
        entry(t, "dependencies"@),
        section + ".dependencies"@,
        task.dependencies,
    );
    lemma_env_again(t, section, ", and are set for every task"@, task.env);
    lemma_template_again(t, "cwd"@, section, task.cwd);
    assert(optional_text(t, "description"@, section) == Ok::<Option<Seq<char>>, Fault>(
        task.description,
    ));
    lemma_templates_again(t, "args"@, section, task.args);
    lemma_templates_again(t, "inputs"@, section, task.inputs);
    lemma_templates_again(t, "outputs"@, section, task.outputs);
    lemma_templates_again(t, "source-outputs"@, section, task.source_outputs);
    lemma_templates_again(t, "resource-outputs"@, section, task.resource_outputs);
}

// ---- the tasks -------------------------------------------------------------

/// Names of their own.
pub open spec fn tasks_apart(list: Seq<TaskModel>) -> bool {
    forall|i: int, j: int|
        0 <= i < j < list.len() ==> (#[trigger] list[i]).name != (#[trigger] list[j]).name
}

/// Tasks that a document can declare.
pub open spec fn good_tasks(list: Seq<TaskModel>) -> bool {
    tasks_apart(list) && forall|k: int| 0 <= k < list.len() ==> loads(#[trigger] list[k])
}

proof fn lemma_tasks_read(t: Entries, i: int, out: Seq<TaskModel>, warnings: Seq<Seq<char>>)
    requires
        sound(t),
        0 <= i <= t.len(),
        out.len() == i,
        forall|k: int|
            0 <= k < out.len() ==> loads(#[trigger] out[k]) && env_unmarked(out[k].env)
                && out[k].name == t[k].0,
    ensures
        tasks_from(t, i, out, warnings) matches Ok((list, _)) ==> list.len() == t.len() && forall|
            k: int,
        |
            0 <= k < list.len() ==> loads(#[trigger] list[k]) && env_unmarked(list[k].env)
                && list[k].name == t[k].0,
    decreases t.len() - i,
{
    if i < t.len() && task_name_fault(t[i].0) is None && t[i].1.table() is Some {
        let inner = t[i].1.table()->0;
        if let Ok(task) = task_table(t[i].0, inner) {
            assert(task.name == t[i].0);
            lemma_task_loads(t[i].0, inner, task);
            lemma_tasks_read(
                t,
                i + 1,
                out.push(task),
                warnings + key_warnings(inner, task_keys(), "tasks."@ + t[i].0 + "."@),
            );
        }
    }
}

/// Tasks that were read are such.
pub proof fn lemma_tasks_good(table: Entries, list: Seq<TaskModel>)
    requires
        sound(table),
        tasks_of(table) matches Ok((l, _)) && l == list,
    ensures
        good_tasks(list),
        forall|k: int| 0 <= k < list.len() ==> env_unmarked((#[trigger] list[k]).env),
{
    lemma_sound(table, "tasks"@);
    if let Some(v) = entry(table, "tasks"@) {
        let t = v.kind->Table_0;
        lemma_tasks_read(t, 0, seq![], seq![]);
        assert forall|i: int, j: int| 0 <= i < j < list.len() implies (#[trigger] list[i]).name != (
        #[trigger] list[j]).name by {
            assert(t[i].0 != t[j].0);
        }
    }
}

proof fn lemma_tasks_from(
    t: Entries,
    list: Seq<TaskModel>,
    i: int,
    out: Seq<TaskModel>,
    warnings: Seq<Seq<char>>,
)
    requires
        0 <= i <= list.len(),
        blocks_are(t, tasks_inner(list)),
        out == list.take(i),
        forall|k: int| 0 <= k < list.len() ==> loads(#[trigger] list[k]),
        forall|k: int, d: int|
            0 <= k < list.len() && 0 <= d < list[k].dependencies.len() ==> plain_keyed(
                #[trigger] list[k].dependencies[d],
            ),
    ensures
        tasks_from(t, i, out, warnings) matches Ok((tasks, _)) && tasks == list,
    decreases list.len() - i,
{
    if i < list.len() {
        let inner = tasks_inner(list);
        assert(inner[i] == (list[i].name, task_block(list[i])));
        assert(t[i].0 == list[i].name);
        let table = t[i].1.kind->Table_0;
        lemma_task_again(table, list[i]);
        assert(list.take(i + 1) =~= out.push(list[i]));
        lemma_tasks_from(
            t,
            list,
            i + 1,
            out.push(list[i]),
            warnings + key_warnings(table, task_keys(), "tasks."@ + list[i].name + "."@),
        );
    } else {
        assert(list.take(i) =~= list);
    }
}

/// Tasks are read again as they were.
pub proof fn lemma_tasks_again(table: Entries, list: Seq<TaskModel>)
    requires
        good_tasks(list),
        forall|k: int, d: int|
            0 <= k < list.len() && 0 <= d < list[k].dependencies.len() ==> plain_keyed(
                #[trigger] list[k].dependencies[d],
            ),
        match tasks_block(list) {
            Some(b) => entry(table, "tasks"@) is Some && entry(table, "tasks"@)->0.kind is Table
                && block_is(entry(table, "tasks"@)->0.kind->Table_0, b),
            None => entry(table, "tasks"@) is None,
        },
    ensures
        tasks_of(table) matches Ok((l, _)) && l == list,
{
    if list.len() > 0 {
        let t = entry(table, "tasks"@)->0.kind->Table_0;
        assert(t.skip(0) =~= t);
        assert(list.take(0) =~= seq![]);
        lemma_tasks_from(t, list, 0, seq![], seq![]);
    } else {
        assert(list =~= seq![]);
    }
}

// ---- hooks -----------------------------------------------------------------

pub proof fn lemma_hook_words(a: Hook, b: Hook)
    ensures
        a.word() == b.word() <==> a == b,
{
    reveal_strlit("pre-compile");
    reveal_strlit("post-compile");
    reveal_strlit("pre-test");
    reveal_strlit("post-test");
    reveal_strlit("post-package");
    reveal_strlit("pre-run");
    assert("pre-compile"@.len() == 11);
    assert("post-compile"@.len() == 12 && "post-compile"@[5] == 'c');
    assert("pre-test"@.len() == 8);
    assert("post-test"@.len() == 9);
    assert("post-package"@.len() == 12 && "post-package"@[5] == 'p');
    assert("pre-run"@.len() == 7);
}

/// What the key of a hook holds is what the hook runs.
proof fn lemma_hook_entry(t: Entries, list: HookLists, hook: Hook, i: int)
    requires
        0 <= i <= list.len(),
        t.len() == list.len(),
        forall|k: int|
            0 <= k < t.len() ==> (#[trigger] t[k]).0 == list[k].0.word() && scalar_is(
                t[k].1,
                Scalar::Texts(list[k].1),
            ),
    ensures
        match entry_from(t, hook.word(), i) {
            Some(v) => scalar_is(v, Scalar::Texts(hook_tasks(list.skip(i), hook))),
            None => hook_tasks(list.skip(i), hook) == Seq::<Seq<char>>::empty(),
        },
    decreases list.len() - i,
{
    if i < list.len() {
        lemma_hook_words(list[i].0, hook);
        assert(list.skip(i)[0] == list[i]);
        assert(list.skip(i).skip(1) =~= list.skip(i + 1));
        lemma_hook_entry(t, list, hook, i + 1);
    }
}

proof fn lemma_hook_texts(t: Entries, list: HookLists, hook: Hook)
    requires
        block_is(t, lined(Seq::new(list.len(), |i: int| hook_plain_line(list[i])))),
    ensures
        text_list(t, hook.word(), "hooks"@) == Ok::<Seq<Seq<char>>, Fault>(hook_tasks(list, hook)),
{
    let lines = Seq::new(list.len(), |i: int| hook_plain_line(list[i]));
    assert forall|k: int| 0 <= k < t.len() implies (#[trigger] t[k]).0 == list[k].0.word()
        && scalar_is(t[k].1, Scalar::Texts(list[k].1)) by {
        assert(lined(lines).lines[k] == hook_plain_line(list[k]));
    }
    lemma_hook_entry(t, list, hook, 0);
    assert(list.skip(0) =~= list);
    lemma_texts(t, hook.word(), "hooks"@, hook_tasks(list, hook));
}

proof fn lemma_no_hook(out: HookLists, hook: Hook)
    requires
        forall|k: int| 0 <= k < out.len() ==> (#[trigger] out[k]).0 != hook,
    ensures
        hook_tasks(out, hook) == Seq::<Seq<char>>::empty(),
    decreases out.len(),
{
    if out.len() > 0 {
        assert(out[0].0 != hook);
        assert forall|k: int| 0 <= k < out.skip(1).len() implies (#[trigger] out.skip(1)[k]).0
            != hook by {
            assert(out.skip(1)[k] == out[k + 1]);
        }
        lemma_no_hook(out.skip(1), hook);
    }
}

/// Hooks that a table can name, in their order, each with tasks that it names
/// once.
pub open spec fn good_hooks(list: HookLists) -> bool {
    &&& in_order(list)
    &&& forall|k: int|
        0 <= k < list.len() ==> (#[trigger] list[k]).1.len() > 0 && repeated_from(list[k].1, 0) is None
}

proof fn lemma_hooks_read(t: Entries, i: int, out: HookLists)
    requires
        0 <= i <= every_hook().len(),
        good_hooks(out),
        forall|k: int| 0 <= k < out.len() ==> (#[trigger] out[k]).0.place() < i,
    ensures
        hooks_from(t, i, out) matches Ok(list) ==> good_hooks(list),
    decreases every_hook().len() - i,
{
    if i < every_hook().len() {
        let hook = every_hook()[i];
        assert(hook.place() == i);
        if let Ok(names) = text_list(t, hook.word(), "hooks"@) {
            if repeated_from(names, 0) is None {
                if names.len() == 0 {
                    lemma_hooks_read(t, i + 1, out);
                } else {
                    lemma_hooks_read(t, i + 1, out.push((hook, names)));
                }
            }
        }
    }
}

/// Hooks that were read are such.
pub proof fn lemma_hooks_good(table: Entries, list: HookLists)
    requires
        hooks_of(table) == Ok::<HookLists, Fault>(list),
    ensures
        good_hooks(list),
{
    if let Ok(Some(t)) = subtable(table, "hooks"@) {
        lemma_hooks_read(t, 0, seq![]);
    }
}

/// The first list of a hook is the only one.
proof fn lemma_hook_at(list: HookLists, n: int)
    requires
        in_order(list),
        0 <= n < list.len(),
    ensures
        hook_tasks(list, list[n].0) == list[n].1,
    decreases list.len(),
{
    if n > 0 {
        let rest = list.skip(1);
        assert forall|i: int, j: int| 0 <= i < j < rest.len() implies (#[trigger] rest[i]).0.place()
            < (#[trigger] rest[j]).0.place() by {
            assert(rest[i] == list[i + 1] && rest[j] == list[j + 1]);
        }
        assert(list[0].0.place() < list[n].0.place());
        assert(rest[n - 1] == list[n]);
        lemma_hook_at(rest, n - 1);
    }
}

/// The hooks from the `i`th on are those behind the first `n` of the list.
proof fn lemma_hooks_from(t: Entries, list: HookLists, i: int, n: int)
    requires
        0 <= i <= every_hook().len(),
        0 <= n <= list.len(),
        good_hooks(list),
        block_is(t, lined(Seq::new(list.len(), |k: int| hook_plain_line(list[k])))),
        forall|k: int| 0 <= k < n ==> (#[trigger] list[k]).0.place() < i,
        forall|k: int| n <= k < list.len() ==> (#[trigger] list[k]).0.place() >= i,
    ensures
        hooks_from(t, i, list.take(n)) == Ok::<HookLists, Fault>(list),
    decreases every_hook().len() - i,
{
    if i < every_hook().len() {
        let hook = every_hook()[i];
        assert(hook.place() == i);
        lemma_hook_texts(t, list, hook);
        if n < list.len() && list[n].0.place() == i {
            assert(list[n].0 == hook);
            lemma_hook_at(list, n);
            assert(list.take(n + 1) =~= list.take(n).push(list[n]));
            assert forall|k: int| n + 1 <= k < list.len() implies (#[trigger] list[k]).0.place()
                >= i + 1 by {
                assert(list[n].0.place() < list[k].0.place());
            }
            lemma_hooks_from(t, list, i + 1, n + 1);
            assert(list.take(n).push((hook, list[n].1)) =~= list.take(n + 1));
        } else {
            assert forall|k: int| 0 <= k < list.len() implies (#[trigger] list[k]).0 != hook by {
                if k >= n {
                    assert(list[n].0.place() <= list[k].0.place());
                }
            }
            lemma_no_hook(list, hook);
            assert forall|k: int| n <= k < list.len() implies (#[trigger] list[k]).0.place() >= i
                + 1 by {
                assert(list[k].0 != hook);
            }
            lemma_hooks_from(t, list, i + 1, n);
        }
    } else {
        assert(n == list.len()) by {
            if n < list.len() {
                assert(list[n].0.place() >= i);
            }
        }
        assert(list.take(n) =~= list);
    }
}

/// Hooks are read again as they were.
pub proof fn lemma_hooks_again(table: Entries, list: HookLists)
    requires
        good_hooks(list),
        match hooks_block(list) {
            Some(b) => entry(table, "hooks"@) is Some && entry(table, "hooks"@)->0.kind is Table
                && block_is(entry(table, "hooks"@)->0.kind->Table_0, b),
            None => entry(table, "hooks"@) is None,
        },
    ensures
        hooks_of(table) == Ok::<HookLists, Fault>(list),
{
    if list.len() > 0 {
        let t = entry(table, "hooks"@)->0.kind->Table_0;
        assert(list.take(0) =~= seq![]);
        lemma_hooks_from(t, list, 0, 0);
        assert(subtable(table, "hooks"@) == Ok::<Option<Entries>, Fault>(Some(t)));
    } else {
        assert(list =~= seq![]);
    }
}

} // verus!
