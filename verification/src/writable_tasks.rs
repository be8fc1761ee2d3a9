//! The tasks and hooks of a manifest that was read can be written.

use crate::check::{all_declared, found, names_and_circles_are_refused, tasks_fault};
use crate::reach::declared;
use crate::reread_tasks::{good_hooks, good_tasks, lemma_hook_words, loads};
use crate::sheet::{
    bare, control, plain_block, plain_key, plain_lines, plain_names, plain_value, quotable,
};
use crate::sheet_of::{
    action_value, hook_plain_line, hooks_block, task_block, task_slots, tasks_block, tasks_inner,
};
use crate::task::{ActionModel, HookLists, TaskModel, TaskRefModel};
use crate::writable::{
    bare_on, env_apart, env_unmarked, lemma_bare, lemma_env_plain, lemma_lines_plain, lemma_no_mark,
    lemma_raws, lemma_references, plain_slot, plain_slots, quotable_env, quotable_option,
    quotable_references, quotable_template, quotable_templates,
};
use crate::writable_dependencies::{lemma_dependency_block_plain, quotable_dependencies};
use crate::writable_settings::plain_top;
use vstd::prelude::*;

verus! {

// ---- names -----------------------------------------------------------------

proof fn lemma_bare_quotable(s: Seq<char>)
    requires
        bare(s),
    ensures
        quotable(s),
{
    assert forall|i: int| 0 <= i < s.len() implies !control(#[trigger] s[i]) || s[i] == '\t' || s[i]
        == '\n' by {}
}

/// A task has a name that needs no quotes.
proof fn lemma_task_names(list: Seq<TaskModel>)
    requires
        good_tasks(list),
    ensures
        plain_names(tasks_inner(list)),
        forall|k: int| 0 <= k < list.len() ==> bare((#[trigger] list[k]).name),
{
    let inner = tasks_inner(list);
    assert forall|k: int| 0 <= k < list.len() implies bare((#[trigger] list[k]).name) by {
        assert(loads(list[k]));
    }
    assert forall|k: int| 0 <= k < inner.len() implies bare((#[trigger] inner[k]).0) by {
        assert(bare(list[k].name));
    }
    assert forall|i: int, j: int| 0 <= i < j < inner.len() implies (#[trigger] inner[i]).0 != (
    #[trigger] inner[j]).0 by {
        assert(list[i].name != list[j].name);
    }
}

/// What a `depends-on` that was checked names can be quoted.
proof fn lemma_references_quotable(tasks: Seq<TaskModel>, hooks: HookLists, k: int)
    requires
        all_declared(tasks, hooks),
        forall|k: int| 0 <= k < tasks.len() ==> bare((#[trigger] tasks[k]).name),
        0 <= k < tasks.len(),
    ensures
        quotable_references(tasks[k].depends_on),
{
    let list = tasks[k].depends_on;
    assert(bare("build"@)) by {
        reveal_strlit("build");
        reveal_with_fuel(bare_on, 6);
        lemma_bare("build"@);
    }
    assert(bare("test"@)) by {
        reveal_strlit("test");
        reveal_with_fuel(bare_on, 5);
        lemma_bare("test"@);
    }
    assert(bare("package"@)) by {
        reveal_strlit("package");
        reveal_with_fuel(bare_on, 8);
        lemma_bare("package"@);
    }
    assert(bare("doc"@)) by {
        reveal_strlit("doc");
        reveal_with_fuel(bare_on, 4);
        lemma_bare("doc"@);
    }
    assert forall|i: int| 0 <= i < list.len() implies quotable((#[trigger] list[i]).word()) by {
        assert(found(tasks, tasks[k].depends_on[i]));
        if let TaskRefModel::Task(t) = list[i] {
            let n = choose|n: int| 0 <= n < tasks.len() && (#[trigger] tasks[n]).name == t;
            assert(bare(tasks[n].name));
        }
        lemma_bare_quotable(list[i].word());
    }
}

// ---- tasks -----------------------------------------------------------------

/// The texts of an action can be quoted.
pub open spec fn quotable_action(action: Option<ActionModel>) -> bool {
    match action {
        Some(ActionModel::Run(argv)) => quotable_templates(argv),
        Some(ActionModel::Shell(s)) => quotable(s),
        Some(ActionModel::Script(t)) => quotable(t.raw),
        Some(ActionModel::Main(class)) => quotable(class),
        None => true,
    }
}

/// The texts of a task can be quoted.
pub open spec fn quotable_task(t: TaskModel) -> bool {
    &&& quotable_option(t.description)
    &&& quotable_action(t.action)
    &&& quotable_templates(t.args)
    &&& quotable_env(t.env)
    &&& quotable_template(t.cwd)
    &&& quotable_templates(t.inputs)
    &&& quotable_templates(t.outputs)
    &&& quotable_templates(t.source_outputs)
    &&& quotable_templates(t.resource_outputs)
    &&& quotable_dependencies(t.dependencies)
}

pub open spec fn quotable_tasks(list: Seq<TaskModel>) -> bool {
    forall|i: int| 0 <= i < list.len() ==> quotable_task(#[trigger] list[i])
}

proof fn lemma_action_plain(action: Option<ActionModel>, key: Seq<char>)
    requires
        quotable_action(action),
    ensures
        action_value(action, key) matches Some(v) ==> plain_value(v),
{
    if let Some(ActionModel::Run(argv)) = action {
        lemma_raws(argv);
    }
}

proof fn lemma_task_slots(t: TaskModel)
    requires
        quotable_task(t),
        quotable_references(t.depends_on),
        env_apart(t.env),
        env_unmarked(t.env),
    ensures
        plain_slots(task_slots(t)),
{
    let slots = task_slots(t);
    lemma_action_plain(t.action, "run"@);
    lemma_action_plain(t.action, "shell"@);
    lemma_action_plain(t.action, "script"@);
    lemma_action_plain(t.action, "main"@);
    lemma_raws(t.args);
    lemma_references(t.depends_on);
    lemma_env_plain(t.env);
    lemma_raws(t.inputs);
    lemma_raws(t.outputs);
    lemma_raws(t.source_outputs);
    lemma_raws(t.resource_outputs);
    assert(bare("description"@)) by {
        reveal_strlit("description");
        reveal_with_fuel(bare_on, 12);
        lemma_bare("description"@);
    }
    assert(bare("run"@)) by {
        reveal_strlit("run");
        reveal_with_fuel(bare_on, 4);
        lemma_bare("run"@);
    }
    assert(bare("shell"@)) by {
        reveal_strlit("shell");
        reveal_with_fuel(bare_on, 6);
        lemma_bare("shell"@);
    }
    assert(bare("script"@)) by {
        reveal_strlit("script");
        reveal_with_fuel(bare_on, 7);
        lemma_bare("script"@);
    }
    assert(bare("main"@)) by {
        reveal_strlit("main");
        reveal_with_fuel(bare_on, 5);
        lemma_bare("main"@);
    }
    assert(bare("args"@)) by {
        reveal_strlit("args");
        reveal_with_fuel(bare_on, 5);
        lemma_bare("args"@);
    }
    assert(bare("depends-on"@)) by {
        reveal_strlit("depends-on");
        reveal_with_fuel(bare_on, 11);
        lemma_bare("depends-on"@);
    }
    assert(bare("env"@)) by {
        reveal_strlit("env");
        reveal_with_fuel(bare_on, 4);
        lemma_bare("env"@);
    }
    assert(bare("cwd"@)) by {
        reveal_strlit("cwd");
        reveal_with_fuel(bare_on, 4);
        lemma_bare("cwd"@);
    }
    assert(bare("inputs"@)) by {
        reveal_strlit("inputs");
        reveal_with_fuel(bare_on, 7);
        lemma_bare("inputs"@);
    }
    assert(bare("outputs"@)) by {
        reveal_strlit("outputs");
        reveal_with_fuel(bare_on, 8);
        lemma_bare("outputs"@);
    }
    assert(bare("source-outputs"@)) by {
        reveal_strlit("source-outputs");
        reveal_with_fuel(bare_on, 15);
        lemma_bare("source-outputs"@);
    }
    assert(bare("resource-outputs"@)) by {
        reveal_strlit("resource-outputs");
        reveal_with_fuel(bare_on, 17);
        lemma_bare("resource-outputs"@);
    }
    reveal_strlit("description");
    reveal_strlit("run");
    reveal_strlit("shell");
    reveal_strlit("script");
    reveal_strlit("main");
    reveal_strlit("args");
    reveal_strlit("depends-on");
    reveal_strlit("env");
    reveal_strlit("cwd");
    reveal_strlit("inputs");
    reveal_strlit("outputs");
    reveal_strlit("source-outputs");
    reveal_strlit("resource-outputs");
    assert("description"@.len() == 11);
    assert("run"@.len() == 3 && "run"@[0] == 'r');
    assert("shell"@.len() == 5);
    assert("script"@.len() == 6 && "script"@[0] == 's');
    assert("main"@.len() == 4 && "main"@[0] == 'm');
    assert("args"@.len() == 4 && "args"@[0] == 'a');
    assert("depends-on"@.len() == 10);
    assert("env"@.len() == 3 && "env"@[0] == 'e');
    assert("cwd"@.len() == 3 && "cwd"@[0] == 'c');
    assert("inputs"@.len() == 6 && "inputs"@[0] == 'i');
    assert("outputs"@.len() == 7);
    assert("source-outputs"@.len() == 14);
    assert("resource-outputs"@.len() == 16);
    assert forall|i: int| 0 <= i < 13 implies plain_slot(#[trigger] slots[i]) by {
        if i == 0 {
        } else if i == 1 {
        } else if i == 2 {
        } else if i == 3 {
        } else if i == 4 {
        } else if i == 5 {
        } else if i == 6 {
        } else if i == 7 {
        } else if i == 8 {
        } else if i == 9 {
        } else if i == 10 {
        } else if i == 11 {
        } else if i == 12 {
        }
    }
    assert forall|i: int, j: int| 0 <= i < j < 13 implies (#[trigger] slots[i]).0 != (
    #[trigger] slots[j]).0 by {
        if i == 0 {
        } else if i == 1 {
        } else if i == 2 {
        } else if i == 3 {
        } else if i == 4 {
        } else if i == 5 {
        } else if i == 6 {
        } else if i == 7 {
        } else if i == 8 {
        } else if i == 9 {
        } else if i == 10 {
        } else if i == 11 {
        }
    }
}

/// No key of a task is as long as that of its dependencies.
proof fn lemma_task_lines(t: TaskModel)
    ensures
        forall|i: int| 0 <= i < 13 ==> (#[trigger] task_slots(t)[i]).0 != "dependencies"@,
{
    let slots = task_slots(t);
    reveal_strlit("description");
    reveal_strlit("run");
    reveal_strlit("shell");
    reveal_strlit("script");
    reveal_strlit("main");
    reveal_strlit("args");
    reveal_strlit("depends-on");
    reveal_strlit("env");
    reveal_strlit("cwd");
    reveal_strlit("inputs");
    reveal_strlit("outputs");
    reveal_strlit("source-outputs");
    reveal_strlit("resource-outputs");
    reveal_strlit("dependencies");
    assert("description"@.len() == 11);
    assert("run"@.len() == 3 && "run"@[0] == 'r');
    assert("shell"@.len() == 5);
    assert("script"@.len() == 6 && "script"@[0] == 's');
    assert("main"@.len() == 4 && "main"@[0] == 'm');
    assert("args"@.len() == 4 && "args"@[0] == 'a');
    assert("depends-on"@.len() == 10);
    assert("env"@.len() == 3 && "env"@[0] == 'e');
    assert("cwd"@.len() == 3 && "cwd"@[0] == 'c');
    assert("inputs"@.len() == 6 && "inputs"@[0] == 'i');
    assert("outputs"@.len() == 7);
    assert("source-outputs"@.len() == 14);
    assert("resource-outputs"@.len() == 16);
    assert("dependencies"@.len() == 12);
    assert forall|i: int| 0 <= i < 13 implies (#[trigger] slots[i]).0 != "dependencies"@ by {
        if i == 0 {
        } else if i == 1 {
        } else if i == 2 {
        } else if i == 3 {
        } else if i == 4 {
        } else if i == 5 {
        } else if i == 6 {
        } else if i == 7 {
        } else if i == 8 {
        } else if i == 9 {
        } else if i == 10 {
        } else if i == 11 {
        } else if i == 12 {
        }
    }
}

proof fn lemma_task_plain(t: TaskModel)
    requires
        loads(t),
        quotable_task(t),
        quotable_references(t.depends_on),
        env_unmarked(t.env),
    ensures
        plain_block(task_block(t), 1),
{
    lemma_dependency_block_plain(t.dependencies);
    let slots = task_slots(t);
    lemma_task_slots(t);
    lemma_lines_plain(slots, 13);
    lemma_task_lines(t);
    let b = task_block(t);
    assert(bare("dependencies"@)) by {
        reveal_strlit("dependencies");
        reveal_with_fuel(bare_on, 13);
        lemma_bare("dependencies"@);
    }
    assert forall|i: int, j: int|
        0 <= i < b.lines.len() && 0 <= j < b.inner.len() implies (#[trigger] b.lines[i]).0.name != (
    #[trigger] b.inner[j]).0 by {
        let k = choose|k: int| 0 <= k < 13 && (#[trigger] slots[k]).0 == b.lines[i].0.name;
        assert(slots[k].0 != "dependencies"@);
    }
    assert(plain_lines(b.lines));
    assert(plain_names(b.inner));
    if t.dependencies.len() > 0 {
        assert(b.inner[0].1 == crate::sheet_of::dependency_block(t.dependencies));
    }
}

pub proof fn lemma_tasks_plain(list: Seq<TaskModel>, hooks: HookLists)
    requires
        good_tasks(list),
        tasks_fault(list, hooks) is None,
        quotable_tasks(list),
        forall|k: int| 0 <= k < list.len() ==> env_unmarked((#[trigger] list[k]).env),
    ensures
        plain_top(tasks_block(list)),
{
    names_and_circles_are_refused(list, hooks);
    lemma_task_names(list);
    let inner = tasks_inner(list);
    assert forall|k: int| 0 <= k < inner.len() implies plain_block((#[trigger] inner[k]).1, 1) by {
        assert(loads(list[k]));
        lemma_references_quotable(list, hooks, k);
        lemma_task_plain(list[k]);
    }
}

// ---- hooks -----------------------------------------------------------------

pub proof fn lemma_hooks_plain(tasks: Seq<TaskModel>, list: HookLists)
    requires
        good_tasks(tasks),
        good_hooks(list),
        tasks_fault(tasks, list) is None,
    ensures
        plain_top(hooks_block(list)),
{
    names_and_circles_are_refused(tasks, list);
    lemma_task_names(tasks);
    assert(bare("pre-compile"@)) by {
        reveal_strlit("pre-compile");
        reveal_with_fuel(bare_on, 12);
        lemma_bare("pre-compile"@);
    }
    assert(bare("post-compile"@)) by {
        reveal_strlit("post-compile");
        reveal_with_fuel(bare_on, 13);
        lemma_bare("post-compile"@);
    }
    assert(bare("pre-test"@)) by {
        reveal_strlit("pre-test");
        reveal_with_fuel(bare_on, 9);
        lemma_bare("pre-test"@);
    }
    assert(bare("post-test"@)) by {
        reveal_strlit("post-test");
        reveal_with_fuel(bare_on, 10);
        lemma_bare("post-test"@);
    }
    assert(bare("post-package"@)) by {
        reveal_strlit("post-package");
        reveal_with_fuel(bare_on, 13);
        lemma_bare("post-package"@);
    }
    assert(bare("pre-run"@)) by {
        reveal_strlit("pre-run");
        reveal_with_fuel(bare_on, 8);
        lemma_bare("pre-run"@);
    }
    let lines = Seq::new(list.len(), |i: int| hook_plain_line(list[i]));
    assert forall|i: int| 0 <= i < lines.len() implies plain_key((#[trigger] lines[i]).0)
        && plain_value(lines[i].1) by {
        let names = list[i].1;
        assert forall|k: int| 0 <= k < names.len() implies quotable(#[trigger] names[k]) by {
            assert(declared(tasks, list[i].1[k]));
            let n = choose|n: int| 0 <= n < tasks.len() && (#[trigger] tasks[n]).name == names[k];
            assert(bare(tasks[n].name));
            lemma_bare_quotable(names[k]);
        }
    }
    assert forall|i: int, j: int| 0 <= i < j < lines.len() implies (#[trigger] lines[i]).0.name
        != (#[trigger] lines[j]).0.name by {
        assert(list[i].0.place() < list[j].0.place());
        lemma_hook_words(list[i].0, list[j].0);
    }
    if list.len() > 0 {
        assert(plain_key(lines[0].0));
        lemma_no_mark(lines[0].0.name);
    }
    assert(plain_lines(lines));
}

} // verus!
