//! What needs all the tasks and hooks at once: whether those they name are
//! there, and whether they wait for each other in a circle.

use crate::error::{Fault, JrsError};
use crate::manifest::Manifest;
use crate::reach::declared;
use crate::task::{
    hook_tasks, Hook, HookLists, Hooks, TaskDef, TaskModel, TaskRef, TaskRefModel,
};
use crate::text::{cat3, cat5, listed, same};
use vstd::prelude::*;
use vstd::set_lib::{lemma_int_range, lemma_len_subset, set_int_range};

verus! {

// ---- names -----------------------------------------------------------------

/// What is wrong with the tasks that `refs`, the `depends-on` of `name`, names
/// from the `i`th on.
pub open spec fn refs_fault_from(
    tasks: Seq<TaskModel>,
    name: Seq<char>,
    refs: Seq<TaskRefModel>,
    i: int,
) -> Option<Fault>
    decreases refs.len() - i,
{
    if i < 0 || i >= refs.len() {
        None
    } else {
        match refs[i] {
            TaskRefModel::Task(t) => if declared(tasks, t) {
                refs_fault_from(tasks, name, refs, i + 1)
            } else {
                Some(
                    Fault::Manifest(
                        "`tasks."@ + name + ".depends-on` names `"@ + t + "`, which is no task"@,
                    ),
                )
            },
            TaskRefModel::Builtin(_) => refs_fault_from(tasks, name, refs, i + 1),
        }
    }
}

/// What is wrong with what the tasks from the `i`th on depend on.
pub open spec fn needs_fault_from(tasks: Seq<TaskModel>, i: int) -> Option<Fault>
    decreases tasks.len() - i,
{
    if i < 0 || i >= tasks.len() {
        None
    } else {
        match refs_fault_from(tasks, tasks[i].name, tasks[i].depends_on, 0) {
            Some(e) => Some(e),
            None => needs_fault_from(tasks, i + 1),
        }
    }
}

/// What is wrong with the tasks that `hook` names from the `i`th on.
pub open spec fn names_fault_from(
    tasks: Seq<TaskModel>,
    hook: Hook,
    names: Seq<Seq<char>>,
    i: int,
) -> Option<Fault>
    decreases names.len() - i,
{
    if i < 0 || i >= names.len() {
        None
    } else if declared(tasks, names[i]) {
        names_fault_from(tasks, hook, names, i + 1)
    } else {
        Some(
            Fault::Manifest(
                "`hooks."@ + hook.word() + "` names `"@ + names[i] + "`, which is no task"@,
            ),
        )
    }
}

/// What is wrong with the tasks that the hooks from the `i`th on name.
pub open spec fn hooks_fault_from(tasks: Seq<TaskModel>, hooks: HookLists, i: int) -> Option<Fault>
    decreases hooks.len() - i,
{
    if i < 0 || i >= hooks.len() {
        None
    } else {
        match names_fault_from(tasks, hooks[i].0, hooks[i].1, 0) {
            Some(e) => Some(e),
            None => hooks_fault_from(tasks, hooks, i + 1),
        }
    }
}

/// What `r` names is there, as every command is.
pub open spec fn found(tasks: Seq<TaskModel>, r: TaskRefModel) -> bool {
    match r {
        TaskRefModel::Task(t) => declared(tasks, t),
        TaskRefModel::Builtin(_) => true,
    }
}

/// Every task that a `depends-on` or a hook names is there.
pub open spec fn all_declared(tasks: Seq<TaskModel>, hooks: HookLists) -> bool {
    &&& forall|i: int, k: int|
        0 <= i < tasks.len() && 0 <= k < tasks[i].depends_on.len() ==> found(
            tasks,
            #[trigger] tasks[i].depends_on[k],
        )
    &&& forall|i: int, k: int|
        0 <= i < hooks.len() && 0 <= k < hooks[i].1.len() ==> declared(
            tasks,
            #[trigger] hooks[i].1[k],
        )
}

// ---- circles ---------------------------------------------------------------

/// A task with the `depends-on` given waits for `name`: it names it, or a
/// command that fires a hook which runs it.
pub open spec fn waits_for(hooks: HookLists, refs: Seq<TaskRefModel>, name: Seq<char>) -> bool {
    exists|k: int|
        0 <= k < refs.len() && match #[trigger] refs[k] {
            TaskRefModel::Task(t) => t == name,
            TaskRefModel::Builtin(b) => fires_for(hooks, b.fires(), name),
        }
}

/// One of the hooks that are fired runs `name`.
pub open spec fn fires_for(hooks: HookLists, fired: Seq<Hook>, name: Seq<char>) -> bool {
    exists|h: int| 0 <= h < fired.len() && hook_tasks(hooks, #[trigger] fired[h]).contains(name)
}

/// The `i`th task waits for the `j`th.
pub open spec fn leads(tasks: Seq<TaskModel>, hooks: HookLists, i: int, j: int) -> bool {
    &&& 0 <= i < tasks.len()
    &&& 0 <= j < tasks.len()
    &&& waits_for(hooks, tasks[i].depends_on, tasks[j].name)
}

/// Each task of the path, but for the last, waits for the next one.
pub open spec fn path_of(tasks: Seq<TaskModel>, hooks: HookLists, path: Seq<int>) -> bool {
    forall|k: int, l: int|
        0 <= k && l == k + 1 && l < path.len() ==> leads(
            tasks,
            hooks,
            #[trigger] path[k],
            #[trigger] path[l],
        )
}

/// A task waits for itself, at once or through others.
pub open spec fn circular(tasks: Seq<TaskModel>, hooks: HookLists) -> bool {
    exists|path: Seq<int>| #[trigger]
        path_of(tasks, hooks, path) && path.len() > 1 && path[0] == path.last()
}

/// The tasks that the `i`th waits for, at once or through others, come to an
/// end within `n` steps.
pub open spec fn ends_within(tasks: Seq<TaskModel>, hooks: HookLists, i: int, n: nat) -> bool
    decreases n,
{
    n > 0 && forall|j: int| #[trigger]
        leads(tasks, hooks, i, j) ==> ends_within(tasks, hooks, j, (n - 1) as nat)
}

/// What is wrong with the first task, from the `i`th on, that waits for ever:
/// what it waits for comes to no end within as many steps as there are tasks.
pub open spec fn circle_fault_from(tasks: Seq<TaskModel>, hooks: HookLists, i: int) -> Option<Fault>
    decreases tasks.len() - i,
{
    if i < 0 || i >= tasks.len() {
        None
    } else if ends_within(tasks, hooks, i, tasks.len()) {
        circle_fault_from(tasks, hooks, i + 1)
    } else {
        Some(
            Fault::Manifest(
                "`tasks."@ + tasks[i].name + "` leads into a circle of tasks that wait for each other"@,
            ),
        )
    }
}

/// What is wrong with the tasks and the hooks as a whole.
pub open spec fn tasks_fault(tasks: Seq<TaskModel>, hooks: HookLists) -> Option<Fault> {
    match needs_fault_from(tasks, 0) {
        Some(e) => Some(e),
        None => match hooks_fault_from(tasks, hooks, 0) {
            Some(e) => Some(e),
            None => circle_fault_from(tasks, hooks, 0),
        },
    }
}

// ---- looking ---------------------------------------------------------------

fn is_declared(tasks: &Vec<TaskDef>, name: &str) -> (r: bool)
    ensures
        r == declared(tasks.deep_view(), name@),
{
    let ghost all = tasks.deep_view();
    let mut i: usize = 0;
    while i < tasks.len()
        invariant
            all == tasks.deep_view(),
            i <= tasks@.len(),
            forall|j: int| 0 <= j < i ==> (#[trigger] all[j]).name != name@,
        decreases tasks@.len() - i,
    {
        assert(all[i as int] == tasks@[i as int].deep_view());
        if same(tasks[i].name.as_str(), name) {
            return true;
        }
        i = i + 1;
    }
    false
}

fn check_refs(tasks: &Vec<TaskDef>, name: &str, refs: &Vec<TaskRef>) -> (r: Option<JrsError>)
    ensures
        r.deep_view() == refs_fault_from(tasks.deep_view(), name@, refs.deep_view(), 0),
{
    let ghost all = refs.deep_view();
    let mut i: usize = 0;
    while i < refs.len()
        invariant
            all == refs.deep_view(),
            i <= refs@.len(),
            refs_fault_from(tasks.deep_view(), name@, all, 0) == refs_fault_from(
                tasks.deep_view(),
                name@,
                all,
                i as int,
            ),
        decreases refs@.len() - i,
    {
        assert(all[i as int] == refs@[i as int].deep_view());
        if let TaskRef::Task(t) = &refs[i] {
            if !is_declared(tasks, t.as_str()) {
                return Some(
                    JrsError::Manifest(
                        cat5(
                            "`tasks.",
                            name,
                            ".depends-on` names `",
                            t.as_str(),
                            "`, which is no task",
                        ),
                    ),
                );
            }
        }
        i = i + 1;
    }
    None
}

fn check_needs(tasks: &Vec<TaskDef>) -> (r: Option<JrsError>)
    ensures
        r.deep_view() == needs_fault_from(tasks.deep_view(), 0),
{
    let ghost all = tasks.deep_view();
    let mut i: usize = 0;
    while i < tasks.len()
        invariant
            all == tasks.deep_view(),
            i <= tasks@.len(),
            needs_fault_from(all, 0) == needs_fault_from(all, i as int),
        decreases tasks@.len() - i,
    {
        assert(all[i as int] == tasks@[i as int].deep_view());
        if let Some(e) = check_refs(tasks, tasks[i].name.as_str(), &tasks[i].depends_on) {
            return Some(e);
        }
        i = i + 1;
    }
    None
}

fn check_names(tasks: &Vec<TaskDef>, hook: Hook, names: &Vec<String>) -> (r: Option<JrsError>)
    ensures
        r.deep_view() == names_fault_from(tasks.deep_view(), hook, names.deep_view(), 0),
{
    let ghost all = names.deep_view();
    let mut i: usize = 0;
    while i < names.len()
        invariant
            all == names.deep_view(),
            i <= names@.len(),
            names_fault_from(tasks.deep_view(), hook, all, 0) == names_fault_from(
                tasks.deep_view(),
                hook,
                all,
                i as int,
            ),
        decreases names@.len() - i,
    {
        assert(all[i as int] == names@[i as int]@);
        if !is_declared(tasks, names[i].as_str()) {
            return Some(
                JrsError::Manifest(
                    cat5(
                        "`hooks.",
                        hook.name(),
                        "` names `",
                        names[i].as_str(),
                        "`, which is no task",
                    ),
                ),
            );
        }
        i = i + 1;
    }
    None
}

fn check_hooks(tasks: &Vec<TaskDef>, hooks: &Hooks) -> (r: Option<JrsError>)
    ensures
        r.deep_view() == hooks_fault_from(tasks.deep_view(), hooks.deep_view(), 0),
{
    let lists = hooks.iter();
    let ghost all = lists.deep_view();
    let mut i: usize = 0;
    while i < lists.len()
        invariant
            all == lists.deep_view(),
            all == hooks.deep_view(),
            i <= lists@.len(),
            hooks_fault_from(tasks.deep_view(), all, 0) == hooks_fault_from(
                tasks.deep_view(),
                all,
                i as int,
            ),
        decreases lists@.len() - i,
    {
        assert(all[i as int] == lists@[i as int].deep_view());
        if let Some(e) = check_names(tasks, lists[i].0, &lists[i].1) {
            return Some(e);
        }
        i = i + 1;
    }
    None
}

fn is_fired(hooks: &Hooks, fired: &Vec<Hook>, name: &str) -> (r: bool)
    ensures
        r == fires_for(hooks.deep_view(), fired@, name@),
{
    let mut h: usize = 0;
    while h < fired.len()
        invariant
            h <= fired@.len(),
            forall|g: int|
                0 <= g < h ==> !hook_tasks(hooks.deep_view(), #[trigger] fired@[g]).contains(name@),
        decreases fired@.len() - h,
    {
        let names = hooks.tasks(fired[h]);
        if listed(&names, name) {
            return true;
        }
        h = h + 1;
    }
    false
}

fn is_awaited(hooks: &Hooks, refs: &Vec<TaskRef>, name: &str) -> (r: bool)
    ensures
        r == waits_for(hooks.deep_view(), refs.deep_view(), name@),
{
    let ghost all = refs.deep_view();
    let mut k: usize = 0;
    while k < refs.len()
        invariant
            all == refs.deep_view(),
            k <= refs@.len(),
            forall|l: int|
                0 <= l < k ==> !(match #[trigger] all[l] {
                    TaskRefModel::Task(t) => t == name@,
                    TaskRefModel::Builtin(b) => fires_for(hooks.deep_view(), b.fires(), name@),
                }),
        decreases refs@.len() - k,
    {
        assert(all[k as int] == refs@[k as int].deep_view());
        let here = match &refs[k] {
            TaskRef::Task(t) => same(t.as_str(), name),
            TaskRef::Builtin(b) => is_fired(hooks, &b.hooks(), name),
        };
        if here {
            return true;
        }
        k = k + 1;
    }
    false
}

/// Whether all that the `i`th task waits for are among the `ended`.
fn is_at_end(tasks: &Vec<TaskDef>, hooks: &Hooks, i: usize, ended: &Vec<bool>) -> (r: bool)
    requires
        i < tasks@.len(),
        ended@.len() == tasks@.len(),
    ensures
        r == (forall|j: int| #[trigger]
            leads(tasks.deep_view(), hooks.deep_view(), i as int, j) ==> ended@[j]),
{
    let ghost all = tasks.deep_view();
    assert(all[i as int] == tasks@[i as int].deep_view());
    let mut k: usize = 0;
    while k < tasks.len()
        invariant
            all == tasks.deep_view(),
            i < tasks@.len(),
            all[i as int] == tasks@[i as int].deep_view(),
            ended@.len() == tasks@.len(),
            k <= tasks@.len(),
            forall|j: int| #[trigger]
                leads(all, hooks.deep_view(), i as int, j) && j < k ==> ended@[j],
        decreases tasks@.len() - k,
    {
        assert(all[k as int] == tasks@[k as int].deep_view());
        if !ended[k] && is_awaited(hooks, &tasks[i].depends_on, tasks[k].name.as_str()) {
            assert(leads(all, hooks.deep_view(), i as int, k as int));
            return false;
        }
        k = k + 1;
    }
    true
}

/// The tasks that come to an end a step later than the `ended`.
fn ended_next(tasks: &Vec<TaskDef>, hooks: &Hooks, ended: &Vec<bool>, n: Ghost<nat>) -> (r: Vec<
    bool,
>)
    requires
        ended@.len() == tasks@.len(),
        forall|i: int|
            0 <= i < ended@.len() ==> #[trigger] ended@[i] == ends_within(
                tasks.deep_view(),
                hooks.deep_view(),
                i,
                n@,
            ),
    ensures
        r@.len() == tasks@.len(),
        forall|i: int|
            0 <= i < r@.len() ==> #[trigger] r@[i] == ends_within(
                tasks.deep_view(),
                hooks.deep_view(),
                i,
                n@ + 1,
            ),
{
    let mut next: Vec<bool> = Vec::new();
    let mut i: usize = 0;
    while i < tasks.len()
        invariant
            ended@.len() == tasks@.len(),
            forall|i: int|
                0 <= i < ended@.len() ==> #[trigger] ended@[i] == ends_within(
                    tasks.deep_view(),
                    hooks.deep_view(),
                    i,
                    n@,
                ),
            i <= tasks@.len(),
            next@.len() == i,
            forall|k: int|
                0 <= k < i ==> #[trigger] next@[k] == ends_within(
                    tasks.deep_view(),
                    hooks.deep_view(),
                    k,
                    n@ + 1,
                ),
        decreases tasks@.len() - i,
    {
        let end = is_at_end(tasks, hooks, i, ended);
        proof {
            let all = tasks.deep_view();
            let h = hooks.deep_view();
            assert(end == ends_within(all, h, i as int, n@ + 1)) by {
                assert((n@ + 1 - 1) as nat == n@);
                assert forall|j: int| #[trigger] leads(all, h, i as int, j) implies ended@[j]
                    == ends_within(all, h, j, n@) by {}
            }
        }
        next.push(end);
        i = i + 1;
    }
    next
}

fn check_circles(tasks: &Vec<TaskDef>, hooks: &Hooks) -> (r: Option<JrsError>)
    ensures
        r.deep_view() == circle_fault_from(tasks.deep_view(), hooks.deep_view(), 0),
{
    let ghost all = tasks.deep_view();
    let mut ended: Vec<bool> = Vec::new();
    let mut k: usize = 0;
    while k < tasks.len()
        invariant
            k <= tasks@.len(),
            ended@.len() == k,
            forall|i: int| 0 <= i < k ==> !#[trigger] ended@[i],
        decreases tasks@.len() - k,
    {
        ended.push(false);
        k = k + 1;
    }
    let mut n: usize = 0;
    while n < tasks.len()
        invariant
            n <= tasks@.len(),
            ended@.len() == tasks@.len(),
            forall|i: int|
                0 <= i < ended@.len() ==> #[trigger] ended@[i] == ends_within(
                    tasks.deep_view(),
                    hooks.deep_view(),
                    i,
                    n as nat,
                ),
        decreases tasks@.len() - n,
    {
        ended = ended_next(tasks, hooks, &ended, Ghost(n as nat));
        n = n + 1;
    }
    let mut i: usize = 0;
    while i < tasks.len()
        invariant
            all == tasks.deep_view(),
            ended@.len() == tasks@.len(),
            forall|i: int|
                0 <= i < ended@.len() ==> #[trigger] ended@[i] == ends_within(
                    all,
                    hooks.deep_view(),
                    i,
                    all.len(),
                ),
            i <= tasks@.len(),
            circle_fault_from(all, hooks.deep_view(), 0) == circle_fault_from(
                all,
                hooks.deep_view(),
                i as int,
            ),
        decreases tasks@.len() - i,
    {
        assert(all[i as int] == tasks@[i as int].deep_view());
        if !ended[i] {
            return Some(
                JrsError::Manifest(
                    cat3(
                        "`tasks.",
                        tasks[i].name.as_str(),
                        "` leads into a circle of tasks that wait for each other",
                    ),
                ),
            );
        }
        i = i + 1;
    }
    None
}

/// Check the tasks and the hooks as a whole: every task that a `depends-on` or
/// a hook names is there, and none waits for itself, whether through tasks or
/// through a command that fires a hook. Whether a placeholder has a value where
/// its task runs is not looked at.
pub fn check_tasks(m: &Manifest) -> (r: Result<(), JrsError>)
    ensures
        r is Ok <==> all_declared(m.deep_view().tasks, m.deep_view().hooks) && !circular(
            m.deep_view().tasks,
            m.deep_view().hooks,
        ),
        (match r {
            Ok(_) => None,
            Err(e) => Some(e.deep_view()),
        }) == tasks_fault(m.deep_view().tasks, m.deep_view().hooks),
{
    proof {
        names_and_circles_are_refused(m.deep_view().tasks, m.deep_view().hooks);
    }
    if let Some(e) = check_needs(&m.tasks) {
        return Err(e);
    }
    if let Some(e) = check_hooks(&m.tasks, &m.hooks) {
        return Err(e);
    }
    match check_circles(&m.tasks, &m.hooks) {
        Some(e) => Err(e),
        None => Ok(()),
    }
}

// ---- what holds of it ------------------------------------------------------

proof fn lemma_refs_fault(tasks: Seq<TaskModel>, name: Seq<char>, refs: Seq<TaskRefModel>, i: int)
    requires
        0 <= i <= refs.len(),
    ensures
        refs_fault_from(tasks, name, refs, i) is None <==> forall|k: int|
            i <= k < refs.len() ==> found(tasks, #[trigger] refs[k]),
    decreases refs.len() - i,
{
    if i < refs.len() {
        lemma_refs_fault(tasks, name, refs, i + 1);
    }
}

proof fn lemma_needs_fault(tasks: Seq<TaskModel>, i: int)
    requires
        0 <= i <= tasks.len(),
    ensures
        needs_fault_from(tasks, i) is None <==> forall|j: int, k: int|
            i <= j < tasks.len() && 0 <= k < tasks[j].depends_on.len() ==> found(
                tasks,
                #[trigger] tasks[j].depends_on[k],
            ),
    decreases tasks.len() - i,
{
    if i < tasks.len() {
        lemma_needs_fault(tasks, i + 1);
        let refs = tasks[i].depends_on;
        lemma_refs_fault(tasks, tasks[i].name, refs, 0);
        if refs_fault_from(tasks, tasks[i].name, refs, 0) is Some {
            let k = choose|k: int| 0 <= k < refs.len() && !found(tasks, #[trigger] refs[k]);
            assert(!found(tasks, tasks[i].depends_on[k]));
        }
    }
}

proof fn lemma_names_fault(tasks: Seq<TaskModel>, hook: Hook, names: Seq<Seq<char>>, i: int)
    requires
        0 <= i <= names.len(),
    ensures
        names_fault_from(tasks, hook, names, i) is None <==> forall|k: int|
            i <= k < names.len() ==> declared(tasks, #[trigger] names[k]),
    decreases names.len() - i,
{
    if i < names.len() {
        lemma_names_fault(tasks, hook, names, i + 1);
    }
}

proof fn lemma_hooks_fault(tasks: Seq<TaskModel>, hooks: HookLists, i: int)
    requires
        0 <= i <= hooks.len(),
    ensures
        hooks_fault_from(tasks, hooks, i) is None <==> forall|j: int, k: int|
            i <= j < hooks.len() && 0 <= k < hooks[j].1.len() ==> declared(
                tasks,
                #[trigger] hooks[j].1[k],
            ),
    decreases hooks.len() - i,
{
    if i < hooks.len() {
        lemma_hooks_fault(tasks, hooks, i + 1);
        let names = hooks[i].1;
        lemma_names_fault(tasks, hooks[i].0, names, 0);
        if names_fault_from(tasks, hooks[i].0, names, 0) is Some {
            let k = choose|k: int| 0 <= k < names.len() && !declared(tasks, #[trigger] names[k]);
            assert(!declared(tasks, hooks[i].1[k]));
        }
    }
}

/// Places that are all different are no more than there are.
proof fn lemma_places(places: Seq<int>, n: int)
    requires
        n >= 0,
        forall|k: int| 0 <= k < places.len() ==> 0 <= #[trigger] places[k] < n,
        places.no_duplicates(),
    ensures
        places.len() <= n,
{
    places.unique_seq_to_set();
    lemma_int_range(0, n);
    assert(places.to_set().subset_of(set_int_range(0, n)));
    lemma_len_subset(places.to_set(), set_int_range(0, n));
}

/// From a task that does not end within `n` steps a path of `n` steps goes.
proof fn lemma_path(tasks: Seq<TaskModel>, hooks: HookLists, i: int, n: nat) -> (path: Seq<int>)
    requires
        0 <= i < tasks.len(),
        !ends_within(tasks, hooks, i, n),
    ensures
        path.len() == n + 1,
        path[0] == i,
        path_of(tasks, hooks, path),
        forall|k: int| 0 <= k < path.len() ==> 0 <= #[trigger] path[k] < tasks.len(),
    decreases n,
{
    if n == 0 {
        seq![i]
    } else {
        let j = choose|j: int| #[trigger]
            leads(tasks, hooks, i, j) && !ends_within(tasks, hooks, j, (n - 1) as nat);
        let rest = lemma_path(tasks, hooks, j, (n - 1) as nat);
        let path = seq![i] + rest;
        assert forall|k: int, l: int| 0 <= k && l == k + 1 && l < path.len() implies leads(
            tasks,
            hooks,
            #[trigger] path[k],
            #[trigger] path[l],
        ) by {
            if k > 0 {
                assert(path[k] == rest[k - 1] && path[l] == rest[l - 1]);
            }
        }
        path
    }
}

/// The tasks of a circle come to no end.
proof fn lemma_round(tasks: Seq<TaskModel>, hooks: HookLists, circle: Seq<int>, q: int, n: nat)
    requires
        path_of(tasks, hooks, circle),
        circle.len() > 1,
        circle[0] == circle.last(),
        0 <= q < circle.len() - 1,
    ensures
        !ends_within(tasks, hooks, circle[q], n),
    decreases n,
{
    if n > 0 {
        let l = q + 1;
        assert(leads(tasks, hooks, circle[q], circle[l]));
        if l == circle.len() - 1 {
            lemma_round(tasks, hooks, circle, 0, (n - 1) as nat);
        } else {
            lemma_round(tasks, hooks, circle, l, (n - 1) as nat);
        }
    }
}

proof fn lemma_circle_fault(tasks: Seq<TaskModel>, hooks: HookLists, i: int)
    requires
        0 <= i <= tasks.len(),
    ensures
        circle_fault_from(tasks, hooks, i) is None <==> forall|k: int|
            i <= k < tasks.len() ==> #[trigger] ends_within(tasks, hooks, k, tasks.len()),
    decreases tasks.len() - i,
{
    if i < tasks.len() {
        lemma_circle_fault(tasks, hooks, i + 1);
    }
}

/// A task waits for ever just where there is a circle.
proof fn lemma_circular(tasks: Seq<TaskModel>, hooks: HookLists)
    ensures
        circle_fault_from(tasks, hooks, 0) is None <==> !circular(tasks, hooks),
{
    let n = tasks.len();
    lemma_circle_fault(tasks, hooks, 0);
    if circular(tasks, hooks) {
        let circle = choose|path: Seq<int>| #[trigger]
            path_of(tasks, hooks, path) && path.len() > 1 && path[0] == path.last();
        lemma_round(tasks, hooks, circle, 0, n);
        assert(leads(tasks, hooks, circle[0], circle[1]));
    }
    if circle_fault_from(tasks, hooks, 0) is Some {
        let i = choose|i: int|
            0 <= i < tasks.len() && !#[trigger] ends_within(tasks, hooks, i, tasks.len());
        let path = lemma_path(tasks, hooks, i, n);
        if path.no_duplicates() {
            lemma_places(path, n as int);
        }
        let (a, b) = choose|a: int, b: int|
            0 <= a < path.len() && 0 <= b < path.len() && a != b && #[trigger] path[a]
                == #[trigger] path[b];
        let (a, b) = if a < b {
            (a, b)
        } else {
            (b, a)
        };
        let circle = path.subrange(a, b + 1);
        assert(circle[0] == path[a] && circle.last() == path[b]);
        assert forall|k: int, l: int| 0 <= k && l == k + 1 && l < circle.len() implies leads(
            tasks,
            hooks,
            #[trigger] circle[k],
            #[trigger] circle[l],
        ) by {
            assert(circle[k] == path[a + k] && circle[l] == path[a + l]);
        }
        assert(path_of(tasks, hooks, circle));
    }
}

/// Tasks and hooks are refused just where they name a task that is not there
/// or a task waits for itself.
pub proof fn names_and_circles_are_refused(tasks: Seq<TaskModel>, hooks: HookLists)
    ensures
        tasks_fault(tasks, hooks) is None <==> all_declared(tasks, hooks) && !circular(
            tasks,
            hooks,
        ),
{
    lemma_needs_fault(tasks, 0);
    lemma_hooks_fault(tasks, hooks, 0);
    lemma_circular(tasks, hooks);
}

} // verus!
