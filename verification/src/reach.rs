//! The tasks that a hook reaches, through what they depend on.

use crate::manifest::{Manifest, ManifestModel};
use crate::task::{hook_tasks, once_more, Hook, TaskDef, TaskModel, TaskRef, TaskRefModel};
use crate::text::{listed, put};
use vstd::prelude::*;
use vstd::set_lib::{lemma_int_range, lemma_len_subset, lemma_subset_equality, set_int_range};

verus! {

/// The names, with the tasks among `refs` from the `i`th on.
pub open spec fn with_refs(names: Seq<Seq<char>>, refs: Seq<TaskRefModel>, i: int) -> Seq<Seq<char>>
    decreases refs.len() - i,
{
    if i < 0 || i >= refs.len() {
        names
    } else {
        match refs[i] {
            TaskRefModel::Task(t) => with_refs(once_more(names, t), refs, i + 1),
            TaskRefModel::Builtin(_) => with_refs(names, refs, i + 1),
        }
    }
}

/// The names, with what each named task, from the `i`th on, depends on.
pub open spec fn round_from(tasks: Seq<TaskModel>, i: int, names: Seq<Seq<char>>) -> Seq<Seq<char>>
    decreases tasks.len() - i,
{
    if i < 0 || i >= tasks.len() {
        names
    } else if names.contains(tasks[i].name) {
        round_from(tasks, i + 1, with_refs(names, tasks[i].depends_on, 0))
    } else {
        round_from(tasks, i + 1, names)
    }
}

/// The names, with what they come to depend on in `n` rounds.
pub open spec fn spread(tasks: Seq<TaskModel>, names: Seq<Seq<char>>, n: int) -> Seq<Seq<char>>
    decreases n,
{
    if n <= 0 {
        names
    } else {
        spread(tasks, round_from(tasks, 0, names), n - 1)
    }
}

/// The names of the tasks that `hook` runs, with those they depend on. Each
/// round reaches a task more, until there are no more.
pub open spec fn reached(m: ManifestModel, hook: Hook) -> Seq<Seq<char>> {
    spread(m.tasks, hook_tasks(m.hooks, hook), m.tasks.len() as int)
}

fn add_refs(names: &mut Vec<String>, refs: &Vec<TaskRef>)
    ensures
        final(names).deep_view() == with_refs(old(names).deep_view(), refs.deep_view(), 0),
{
    let ghost all = refs.deep_view();
    let ghost start = names.deep_view();
    let mut i: usize = 0;
    while i < refs.len()
        invariant
            all == refs.deep_view(),
            i <= refs@.len(),
            with_refs(start, all, 0) == with_refs(names.deep_view(), all, i as int),
        decreases refs@.len() - i,
    {
        assert(all[i as int] == refs@[i as int].deep_view());
        if let TaskRef::Task(t) = &refs[i] {
            if !listed(names, t.as_str()) {
                put(names, t.clone());
            }
        }
        i = i + 1;
    }
}

fn add_round(names: &mut Vec<String>, tasks: &Vec<TaskDef>)
    ensures
        final(names).deep_view() == round_from(tasks.deep_view(), 0, old(names).deep_view()),
{
    let ghost all = tasks.deep_view();
    let ghost start = names.deep_view();
    let mut i: usize = 0;
    while i < tasks.len()
        invariant
            all == tasks.deep_view(),
            i <= tasks@.len(),
            round_from(all, 0, start) == round_from(all, i as int, names.deep_view()),
        decreases tasks@.len() - i,
    {
        assert(all[i as int] == tasks@[i as int].deep_view());
        if listed(names, tasks[i].name.as_str()) {
            add_refs(names, &tasks[i].depends_on);
        }
        i = i + 1;
    }
}

/// The names of the tasks that `hook` runs, with those they depend on.
pub fn reached_from(m: &Manifest, hook: Hook) -> (r: Vec<String>)
    ensures
        r.deep_view() == reached(m.deep_view(), hook),
{
    let mut names = m.hooks.tasks(hook);
    let ghost start = names.deep_view();
    let ghost all = m.tasks.deep_view();
    let mut n: usize = m.tasks.len();
    while n > 0
        invariant
            all == m.tasks.deep_view(),
            spread(all, start, all.len() as int) == spread(all, names.deep_view(), n as int),
        decreases n,
    {
        add_round(&mut names, &m.tasks);
        n = n - 1;
    }
    names
}

// ---- what holds of it ------------------------------------------------------

/// There is a task called `name`.
pub open spec fn declared(tasks: Seq<TaskModel>, name: Seq<char>) -> bool {
    exists|i: int| 0 <= i < tasks.len() && (#[trigger] tasks[i]).name == name
}

/// Every task that a named task depends on, where there is one, is named.
pub open spec fn closed(tasks: Seq<TaskModel>, names: Seq<Seq<char>>) -> bool {
    forall|i: int, t: Seq<char>|
        0 <= i < tasks.len() && names.contains(tasks[i].name) && #[trigger] tasks[i].depends_on.contains(
            TaskRefModel::Task(t),
        ) && declared(tasks, t)
            ==> names.contains(t)
}

/// The tasks that are named, by their places.
spec fn named(tasks: Seq<TaskModel>, names: Seq<Seq<char>>) -> Set<int> {
    set_int_range(0, tasks.len() as int).filter(|i: int| names.contains(tasks[i].name))
}

proof fn lemma_once_more(names: Seq<Seq<char>>, t: Seq<char>, x: Seq<char>)
    ensures
        once_more(names, t).contains(x) <==> names.contains(x) || x == t,
{
    if !names.contains(t) {
        let more = names.push(t);
        assert(more[names.len() as int] == t);
        if names.contains(x) {
            let k = choose|k: int| 0 <= k < names.len() && names[k] == x;
            assert(more[k] == x);
        }
        if more.contains(x) && x != t {
            let k = choose|k: int| 0 <= k < more.len() && more[k] == x;
            assert(names[k] == x);
        }
    }
}

proof fn lemma_refs(names: Seq<Seq<char>>, refs: Seq<TaskRefModel>, i: int, x: Seq<char>)
    requires
        0 <= i <= refs.len(),
    ensures
        with_refs(names, refs, i).contains(x) <==> names.contains(x) || exists|j: int|
            i <= j < refs.len() && #[trigger] refs[j] == TaskRefModel::Task(x),
    decreases refs.len() - i,
{
    if i < refs.len() {
        if let TaskRefModel::Task(t) = refs[i] {
            lemma_once_more(names, t, x);
            lemma_refs(once_more(names, t), refs, i + 1, x);
            if x == t {
                assert(refs[i] == TaskRefModel::Task(x));
            }
        } else {
            lemma_refs(names, refs, i + 1, x);
        }
    }
}

/// A round keeps every name.
proof fn lemma_round_keeps(tasks: Seq<TaskModel>, i: int, names: Seq<Seq<char>>, x: Seq<char>)
    requires
        0 <= i <= tasks.len(),
        names.contains(x),
    ensures
        round_from(tasks, i, names).contains(x),
    decreases tasks.len() - i,
{
    if i < tasks.len() {
        if names.contains(tasks[i].name) {
            lemma_refs(names, tasks[i].depends_on, 0, x);
            lemma_round_keeps(tasks, i + 1, with_refs(names, tasks[i].depends_on, 0), x);
        } else {
            lemma_round_keeps(tasks, i + 1, names, x);
        }
    }
}

/// A round brings what a named task depends on.
proof fn lemma_round_brings(
    tasks: Seq<TaskModel>,
    i: int,
    names: Seq<Seq<char>>,
    k: int,
    t: Seq<char>,
)
    requires
        0 <= i <= k < tasks.len(),
        names.contains(tasks[k].name),
        tasks[k].depends_on.contains(TaskRefModel::Task(t)),
    ensures
        round_from(tasks, i, names).contains(t),
    decreases k - i,
{
    let refs = tasks[i].depends_on;
    if i == k {
        lemma_refs(names, refs, 0, t);
        lemma_round_keeps(tasks, i + 1, with_refs(names, refs, 0), t);
    } else if names.contains(tasks[i].name) {
        lemma_refs(names, refs, 0, tasks[k].name);
        lemma_round_brings(tasks, i + 1, with_refs(names, refs, 0), k, t);
    } else {
        lemma_round_brings(tasks, i + 1, names, k, t);
    }
}

/// A round of names that are closed brings no task.
proof fn lemma_round_of_closed(
    tasks: Seq<TaskModel>,
    i: int,
    base: Seq<Seq<char>>,
    names: Seq<Seq<char>>,
    x: Seq<char>,
)
    requires
        0 <= i <= tasks.len(),
        closed(tasks, base),
        forall|y: Seq<char>| declared(tasks, y) && #[trigger] names.contains(y) ==> base.contains(y),
        declared(tasks, x),
        round_from(tasks, i, names).contains(x),
    ensures
        base.contains(x),
    decreases tasks.len() - i,
{
    if i < tasks.len() {
        if names.contains(tasks[i].name) {
            let refs = tasks[i].depends_on;
            let more = with_refs(names, refs, 0);
            assert(declared(tasks, tasks[i].name));
            assert forall|y: Seq<char>|
                declared(tasks, y) && #[trigger] more.contains(y) implies base.contains(y) by {
                lemma_refs(names, refs, 0, y);
                if !names.contains(y) {
                    let j = choose|j: int|
                        0 <= j < refs.len() && #[trigger] refs[j] == TaskRefModel::Task(y);
                    assert(refs.contains(TaskRefModel::Task(y)));
                }
            }
            lemma_round_of_closed(tasks, i + 1, base, more, x);
        } else {
            lemma_round_of_closed(tasks, i + 1, base, names, x);
        }
    }
}

/// A round that brings no task leaves names that are closed.
proof fn lemma_round_closes(tasks: Seq<TaskModel>, names: Seq<Seq<char>>)
    requires
        forall|x: Seq<char>|
            declared(tasks, x) && #[trigger] round_from(tasks, 0, names).contains(x)
                ==> names.contains(x),
    ensures
        closed(tasks, round_from(tasks, 0, names)),
{
    let after = round_from(tasks, 0, names);
    assert forall|i: int, t: Seq<char>|
        0 <= i < tasks.len() && after.contains(tasks[i].name) && #[trigger] tasks[i].depends_on.contains(
            TaskRefModel::Task(t),
        ) && declared(
            tasks,
            t,
        ) implies after.contains(t) by {
        assert(declared(tasks, tasks[i].name));
        lemma_round_brings(tasks, 0, names, i, t);
    }
}

proof fn lemma_spread_keeps(tasks: Seq<TaskModel>, names: Seq<Seq<char>>, n: int, x: Seq<char>)
    requires
        names.contains(x),
    ensures
        spread(tasks, names, n).contains(x),
    decreases n,
{
    if n > 0 {
        lemma_round_keeps(tasks, 0, names, x);
        lemma_spread_keeps(tasks, round_from(tasks, 0, names), n - 1, x);
    }
}

proof fn lemma_spread_of_closed(tasks: Seq<TaskModel>, names: Seq<Seq<char>>, n: int)
    requires
        closed(tasks, names),
    ensures
        closed(tasks, spread(tasks, names, n)),
    decreases n,
{
    if n > 0 {
        let after = round_from(tasks, 0, names);
        assert forall|x: Seq<char>|
            declared(tasks, x) && #[trigger] after.contains(x) implies names.contains(x) by {
            lemma_round_of_closed(tasks, 0, names, names, x);
        }
        lemma_round_closes(tasks, names);
        lemma_spread_of_closed(tasks, after, n - 1);
    }
}

/// Each round brings a task more, or the names are closed.
proof fn lemma_spread(tasks: Seq<TaskModel>, names: Seq<Seq<char>>, n: int)
    requires
        n >= 0,
    ensures
        closed(tasks, spread(tasks, names, n)) || named(tasks, spread(tasks, names, n)).len()
            >= named(tasks, names).len() + n,
    decreases n,
{
    if n > 0 {
        let after = round_from(tasks, 0, names);
        let a = named(tasks, names);
        let b = named(tasks, after);
        lemma_int_range(0, tasks.len() as int);
        lemma_spread(tasks, after, n - 1);
        assert(a.subset_of(b)) by {
            assert forall|i: int| a.contains(i) implies b.contains(i) by {
                lemma_round_keeps(tasks, 0, names, tasks[i].name);
            }
        }
        lemma_len_subset(a, b);
        if a.len() == b.len() {
            lemma_subset_equality(a, b);
            assert forall|x: Seq<char>|
                declared(tasks, x) && #[trigger] after.contains(x) implies names.contains(x) by {
                let i = choose|i: int| 0 <= i < tasks.len() && (#[trigger] tasks[i]).name == x;
                assert(b.contains(i));
                assert(a.contains(i));
            }
            lemma_round_closes(tasks, names);
            lemma_spread_of_closed(tasks, after, n - 1);
        }
    }
}

/// A hook reaches the tasks it runs, and with a task every task that it
/// depends on.
pub proof fn reached_tasks_bring_what_they_need(m: ManifestModel, hook: Hook)
    ensures
        forall|t: Seq<char>| #[trigger]
            hook_tasks(m.hooks, hook).contains(t) ==> reached(m, hook).contains(t),
        closed(m.tasks, reached(m, hook)),
{
    let start = hook_tasks(m.hooks, hook);
    let n = m.tasks.len() as int;
    let all = reached(m, hook);
    assert forall|t: Seq<char>| #[trigger] start.contains(t) implies all.contains(t) by {
        lemma_spread_keeps(m.tasks, start, n, t);
    }
    lemma_spread(m.tasks, start, n);
    if !closed(m.tasks, all) {
        lemma_int_range(0, n);
        let range = set_int_range(0, n);
        let had = named(m.tasks, all);
        assert(had.subset_of(range));
        lemma_len_subset(had, range);
        lemma_subset_equality(had, range);
        assert forall|i: int, t: Seq<char>|
            0 <= i < m.tasks.len() && all.contains(m.tasks[i].name) && #[trigger] m.tasks[i].depends_on.contains(
                TaskRefModel::Task(t),
            ) && declared(
                m.tasks,
                t,
            ) implies all.contains(t) by {
            let k = choose|k: int| 0 <= k < m.tasks.len() && (#[trigger] m.tasks[k]).name == t;
            assert(range.contains(k));
            assert(had.contains(k));
        }
    }
}

} // verus!
