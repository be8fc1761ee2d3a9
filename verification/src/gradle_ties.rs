//! Where the ties between the tasks of a Gradle build make `jrs` run them.

use crate::gradle_body::DeclaredModel;
use crate::gradle_lex::statements_of;
use crate::gradle_tasks::{
    builtins_of, declarations_from, failures_reported, hook_of, hook_refs, hooking_from, kept_refs,
    linked_from, own_names, place_of, reconfigured_from, settled, tasks_read, tied_from, ties_from,
    with_builtins, with_hooked, with_hooked_task, with_ref, with_resolved, with_tied, HookedModel,
    HookingModel, TieModel, TiedModel, TiesModel,
};
use crate::report::ReportModel;
use crate::task::{hook_tasks, hooked, once_more, Builtin, Hook, HookLists, TaskRefModel};
use crate::vocabulary::ties_keep_their_order;
use vstd::prelude::*;

verus! {

/// A task of Gradle's that compiles, or brings what is compiled together.
pub open spec fn compiles(target: Seq<char>) -> bool {
    target == "compileJava"@ || target == "compileKotlin"@ || target == "compileScala"@ || target
        == "compileGroovy"@ || target == "processResources"@ || target == "classes"@
}

/// The tie asks for the hook: what something depends on runs before it, and what
/// finalizes it after it.
pub open spec fn asks_for(tie: TieModel, hook: Hook) -> bool {
    match hook {
        Hook::PreCompile => tie.relation is DependsOn && compiles(tie.target),
        Hook::PreTest => tie.relation is DependsOn && tie.target == "test"@,
        Hook::PreRun => tie.relation is DependsOn && tie.target == "run"@,
        Hook::PostCompile => tie.relation is FinalizedBy && compiles(tie.target),
        Hook::PostTest => tie.relation is FinalizedBy && tie.target == "test"@,
        Hook::PostPackage => tie.relation is FinalizedBy && (tie.target == "jar"@ || tie.target
            == "assemble"@),
    }
}

/// One of the ties asks for the hook, and names the task.
pub open spec fn asked_by(ties: Seq<TieModel>, hook: Hook, name: Seq<char>) -> bool {
    exists|k: int|
        0 <= k < ties.len() && asks_for(#[trigger] ties[k], hook) && ties[k].refs.contains(name)
}

/// One of the ties asks for the hook.
pub open spec fn asked(ties: Seq<TieModel>, hook: Hook) -> bool {
    exists|k: int| 0 <= k < ties.len() && asks_for(#[trigger] ties[k], hook)
}

/// Every hook that is to run a task was asked for by a tie that names the task.
pub open spec fn all_asked(ties: Seq<TieModel>, list: HookedModel) -> bool {
    forall|i: int| 0 <= i < list.len() ==> asked_by(ties, (#[trigger] list[i]).0, list[i].1)
}

proof fn lemma_refs(
    ties: Seq<TieModel>,
    t: int,
    list: HookedModel,
    hook: Hook,
    i: int,
)
    requires
        0 <= t < ties.len(),
        0 <= i,
        asks_for(ties[t], hook),
        all_asked(ties, list),
    ensures
        all_asked(ties, hook_refs(list, hook, ties[t].refs, ties[t].text, i)),
        forall|k: int|
            0 <= k < list.len() ==> hook_refs(list, hook, ties[t].refs, ties[t].text, i).contains(
                #[trigger] list[k],
            ),
        forall|k: int|
            i <= k < ties[t].refs.len()
                ==> hook_refs(list, hook, ties[t].refs, ties[t].text, i).contains(
                (hook, #[trigger] ties[t].refs[k], ties[t].text),
            ),
    decreases ties[t].refs.len() - i,
{
    let refs = ties[t].refs;
    let all = hook_refs(list, hook, refs, ties[t].text, i);
    if i < refs.len() {
        let item = (hook, refs[i], ties[t].text);
        let more = list.push(item);
        assert(ties[t].refs.contains(refs[i]));
        assert forall|k: int| 0 <= k < more.len() implies asked_by(
            ties,
            (#[trigger] more[k]).0,
            more[k].1,
        ) by {
            if k < list.len() {
                assert(more[k] == list[k]);
            } else {
                assert(asks_for(ties[t], hook) && ties[t].refs.contains(more[k].1));
            }
        }
        lemma_refs(ties, t, more, hook, i + 1);
        assert(more[list.len() as int] == item);
        assert forall|k: int| 0 <= k < list.len() implies all.contains(#[trigger] list[k]) by {
            assert(more[k] == list[k]);
        }
    } else {
        assert forall|k: int| 0 <= k < list.len() implies all.contains(#[trigger] list[k]) by {
            assert(all[k] == list[k]);
        }
    }
}

proof fn lemma_asks(tie: TieModel)
    ensures
        hook_of(tie.target, tie.relation) matches Some(h) ==> asks_for(tie, h),
        tie.relation is DependsOn && tie.target == "test"@ ==> hook_of(tie.target, tie.relation)
            == Some(Hook::PreTest),
        forall|h: Hook| #[trigger] asks_for(tie, h)
            ==> hook_of(tie.target, tie.relation) == Some(h),
{
    ties_keep_their_order(tie.target);
}

/// The ties that are read hook what they name where they ask for it, and nothing
/// else.
proof fn lemma_tied(ties: Seq<TieModel>, custom: Seq<Seq<char>>, i: int, state: TiedModel)
    requires
        0 <= i <= ties.len(),
        all_asked(ties, state.hooked),
    ensures
        all_asked(ties, tied_from(ties, custom, i, state).hooked),
        forall|k: int|
            0 <= k < state.hooked.len() ==> tied_from(ties, custom, i, state).hooked.contains(
                #[trigger] state.hooked[k],
            ),
        forall|t: int, r: int, h: Hook|
            i <= t < ties.len() && 0 <= r < ties[t].refs.len() && !custom.contains(ties[t].target)
                && #[trigger] asks_for(ties[t], h)
                    ==> tied_from(ties, custom, i, state).hooked.contains(
                (h, #[trigger] ties[t].refs[r], ties[t].text),
            ),
    decreases ties.len() - i,
{
    let all = tied_from(ties, custom, i, state).hooked;
    if i < ties.len() {
        let next = with_tied(state, ties[i], custom);
        lemma_asks(ties[i]);
        if !custom.contains(ties[i].target) && !(ties[i].relation is RunsAfter) {
            if let Some(h) = hook_of(ties[i].target, ties[i].relation) {
                lemma_refs(ties, i, state.hooked, h, 0);
            }
        }
        lemma_tied(ties, custom, i + 1, next);
        assert forall|k: int| 0 <= k < state.hooked.len() implies all.contains(
            #[trigger] state.hooked[k],
        ) by {
            if next.hooked != state.hooked {
                assert(next.hooked.contains(state.hooked[k]));
                let j = choose|j: int| 0 <= j < next.hooked.len()
                    && next.hooked[j] == state.hooked[k];
                assert(all.contains(next.hooked[j]));
            } else {
                assert(all.contains(next.hooked[k]));
            }
        }
        assert forall|t: int, r: int, h: Hook|
            i <= t < ties.len() && 0 <= r < ties[t].refs.len() && !custom.contains(ties[t].target)
                && #[trigger] asks_for(ties[t], h) implies all.contains(
            (h, #[trigger] ties[t].refs[r], ties[t].text),
        ) by {
            if t == i {
                let item = (h, ties[t].refs[r], ties[t].text);
                assert(next.hooked.contains(item));
                let j = choose|j: int| 0 <= j < next.hooked.len() && next.hooked[j] == item;
                assert(all.contains(next.hooked[j]));
            }
        }
    } else {
        assert forall|k: int| 0 <= k < state.hooked.len() implies all.contains(
            #[trigger] state.hooked[k],
        ) by {
            assert(all[k] == state.hooked[k]);
        }
    }
}

// ---- the hooks -------------------------------------------------------------

/// Every hook of the list was asked for.
pub open spec fn hooks_asked(ties: Seq<TieModel>, hooks: HookLists) -> bool {
    forall|h: int| 0 <= h < hooks.len() ==> asked(ties, (#[trigger] hooks[h]).0)
}

proof fn lemma_hooked(ties: Seq<TieModel>, m: HookLists, hook: Hook, task: Seq<char>)
    requires
        hooks_asked(ties, m),
        asked(ties, hook),
    ensures
        hooks_asked(ties, hooked(m, hook, task)),
        hook_tasks(hooked(m, hook, task), hook).contains(task),
    decreases m.len(),
{
    let r = hooked(m, hook, task);
    let rest = m.skip(1);
    if m.len() == 0 {
        assert(seq![task][0] == task);
    } else if m[0].0 == hook {
        let more = once_more(m[0].1, task);
        if !m[0].1.contains(task) {
            assert(more[m[0].1.len() as int] == task);
        }
        assert forall|h: int| 0 <= h < r.len() implies asked(ties, (#[trigger] r[h]).0) by {
            if h > 0 {
                assert(r[h] == m[h]);
            }
        }
    } else if hook.place() < m[0].0.place() {
        assert(seq![task][0] == task);
        assert forall|h: int| 0 <= h < r.len() implies asked(ties, (#[trigger] r[h]).0) by {
            if h > 0 {
                assert(r[h] == m[h - 1]);
            }
        }
    } else {
        assert forall|h: int| 0 <= h < rest.len() implies asked(ties, (#[trigger] rest[h]).0) by {
            assert(rest[h] == m[h + 1]);
        }
        lemma_hooked(ties, rest, hook, task);
        let inner = hooked(rest, hook, task);
        assert forall|h: int| 0 <= h < r.len() implies asked(ties, (#[trigger] r[h]).0) by {
            if h > 0 {
                assert(r[h] == inner[h - 1]);
            } else {
                assert(r[h] == m[0]);
            }
        }
        assert(r.skip(1) =~= inner);
    }
}

proof fn lemma_hooking(
    ties: Seq<TieModel>,
    list: HookedModel,
    custom: Seq<Seq<char>>,
    i: int,
    state: HookingModel,
)
    requires
        0 <= i,
        all_asked(ties, list),
        hooks_asked(ties, state.hooks),
    ensures
        hooks_asked(ties, hooking_from(list, custom, i, state).hooks),
    decreases list.len() - i,
{
    if i < list.len() {
        let (hook, gradle, text) = list[i];
        assert(asked_by(ties, list[i].0, list[i].1));
        let k = choose|k: int|
            0 <= k < ties.len() && asks_for(#[trigger] ties[k], hook)
                && ties[k].refs.contains(gradle);
        assert(asked(ties, hook));
        if let Some(p) = place_of(state.declared, gradle, 0) {
            lemma_hooked(ties, state.hooks, hook, state.declared[p].def.name);
        }
        lemma_hooking(ties, list, custom, i + 1, with_hooked(state, list[i], custom));
    }
}

/// The ties of a script.
pub open spec fn ties_in(script: Seq<char>, report: ReportModel) -> Seq<TieModel> {
    let top = statements_of(script);
    ties_from(
        top,
        own_names(declarations_from(top, 0, (seq![], seq![]))),
        0,
        (TiesModel { ties: seq![], reconfigured: seq![] }, report),
    ).0.ties
}

/// A hook of the migrated build is there because the script ties a task to the
/// work that the hook stands before, with `dependsOn`, or after, with
/// `finalizedBy`. No other hook is.
pub proof fn hooks_stand_where_the_script_ties(script: Seq<char>, report: ReportModel, h: int)
    ensures
        ({
            let hooks = tasks_read(script, seq![], report).1;
            0 <= h < hooks.len() ==> asked(ties_in(script, report), hooks[h].0)
        }),
{
    let top = statements_of(script);
    let fates = declarations_from(top, 0, (seq![], seq![]));
    let custom = own_names(fates);
    let (ties, told) = ties_from(
        top,
        custom,
        0,
        (TiesModel { ties: seq![], reconfigured: seq![] }, report),
    );
    let start = TiedModel {
        fates: reconfigured_from(ties.reconfigured, 0, fates),
        hooked: seq![],
        report: told,
    };
    lemma_tied(ties.ties, custom, 0, start);
    let tied = tied_from(ties.ties, custom, 0, start);
    let done_fates = settled(tied.fates, custom);
    let failed = failures_reported(
        done_fates.1,
        done_fates.1.len() as int,
        tied.report,
    );
    let (declared, more) = linked_from(done_fates.0, 0, seq![], failed);
    let state = HookingModel { declared, hooks: seq![], report: more };
    lemma_hooking(ties.ties, tied.hooked, custom, 0, state);
    let hooks = tasks_read(script, seq![], report).1;
    let done = hooking_from(tied.hooked, custom, 0, state);
    assert(hooks == done.hooks || hooks.len() == 0);
    if 0 <= h < hooks.len() {
        assert(asked(ties.ties, done.hooks[h].0));
    }
}

/// Of the ties that are read, each hooks every task that it names, where it asks
/// for it: what `test` depends on before the tests, what finalizes `test` after
/// them, and so on.
pub proof fn ties_hook_what_they_name(
    ties: Seq<TieModel>,
    custom: Seq<Seq<char>>,
    state: TiedModel,
    t: int,
    r: int,
    hook: Hook,
)
    requires
        all_asked(ties, state.hooked),
        0 <= t < ties.len(),
        0 <= r < ties[t].refs.len(),
        !custom.contains(ties[t].target),
        asks_for(ties[t], hook),
    ensures
        tied_from(ties, custom, 0, state).hooked.contains((hook, ties[t].refs[r], ties[t].text)),
        all_asked(ties, tied_from(ties, custom, 0, state).hooked),
{
    lemma_tied(ties, custom, 0, state);
}

/// A task that is hooked is run by that hook, unless all that it does is to wait
/// for the command that fires the hook.
pub proof fn hooked_tasks_are_run(state: HookingModel, i: int, hook: Hook, text: Seq<char>)
    requires
        0 <= i < state.declared.len(),
        state.declared[i].def.action is Some,
    ensures
        hook_tasks(with_hooked_task(state, i, hook, text).hooks, hook).contains(
            state.declared[i].def.name,
        ),
{
    lemma_run(state.hooks, hook, state.declared[i].def.name);
}

proof fn lemma_run(m: HookLists, hook: Hook, task: Seq<char>)
    ensures
        hook_tasks(hooked(m, hook, task), hook).contains(task),
    decreases m.len(),
{
    let r = hooked(m, hook, task);
    let rest = m.skip(1);
    if m.len() == 0 {
        assert(seq![task][0] == task);
    } else if m[0].0 == hook {
        let more = once_more(m[0].1, task);
        if !m[0].1.contains(task) {
            assert(more[m[0].1.len() as int] == task);
        }
    } else if hook.place() < m[0].0.place() {
        assert(seq![task][0] == task);
    } else {
        lemma_run(rest, hook, task);
        assert(r.skip(1) =~= hooked(rest, hook, task));
    }
}

proof fn lemma_builtins(refs: Seq<TaskRefModel>, list: Seq<Builtin>, i: int)
    requires
        0 <= i,
    ensures
        forall|k: int|
            0 <= k < refs.len() ==> with_builtins(refs, list, i).contains(#[trigger] refs[k]),
        forall|k: int|
            i <= k < list.len() ==> with_builtins(refs, list, i).contains(
                TaskRefModel::Builtin(#[trigger] list[k]),
            ),
    decreases list.len() - i,
{
    let all = with_builtins(refs, list, i);
    if i < list.len() {
        let one = TaskRefModel::Builtin(list[i]);
        let next = with_ref(refs, one);
        lemma_builtins(next, list, i + 1);
        assert forall|k: int| 0 <= k < refs.len() implies all.contains(#[trigger] refs[k]) by {
            assert(next[k] == refs[k]);
        }
        if refs.contains(one) {
            let j = choose|j: int| 0 <= j < refs.len() && refs[j] == one;
            assert(next[j] == one);
        } else {
            assert(next[refs.len() as int] == one);
        }
    } else {
        assert forall|k: int| 0 <= k < refs.len() implies all.contains(#[trigger] refs[k]) by {
            assert(all[k] == refs[k]);
        }
    }
}

/// What a task depends on is the task of the manifest that stands for it, or the
/// commands that do what Gradle's own task does.
pub proof fn references_are_resolved(
    refs: Seq<TaskRefModel>,
    declared: Seq<DeclaredModel>,
    r: Seq<char>,
    k: int,
)
    ensures
        place_of(declared, r, 0) matches Some(i) ==> with_resolved(refs, declared, r).contains(
            TaskRefModel::Task(declared[i].def.name),
        ),
        place_of(declared, r, 0) is None ==> (builtins_of(r) matches Some(list) ==> (0 <= k < list.len()
            ==> with_resolved(refs, declared, r).contains(TaskRefModel::Builtin(list[k])))),
        place_of(declared, r, 0) is None && builtins_of(r) is None ==> with_resolved(refs, declared, r)
            == refs,
{
    match place_of(declared, r, 0) {
        Some(i) => {
            let one = TaskRefModel::Task(declared[i].def.name);
            if !refs.contains(one) {
                assert(with_ref(refs, one)[refs.len() as int] == one);
            }
        },
        None => {
            if let Some(list) = builtins_of(r) {
                lemma_builtins(refs, list, 0);
                if 0 <= k < list.len() {
                    assert(with_builtins(refs, list, 0).contains(TaskRefModel::Builtin(list[k])));
                }
            }
        },
    }
}

/// A task that a hook runs no longer waits for a command that fires the hook, and
/// waits for everything else.
pub proof fn hooked_tasks_do_not_wait_for_the_hook(
    refs: Seq<TaskRefModel>,
    hook: Hook,
    n: int,
)
    requires
        0 <= n <= refs.len(),
    ensures
        forall|k: int|
            0 <= k < kept_refs(refs, hook, n).len() ==> !((#[trigger] kept_refs(refs, hook, n)[k])
                matches TaskRefModel::Builtin(b) && b.fires().contains(hook)),
        forall|k: int|
            0 <= k < n && !((#[trigger] refs[k]) matches TaskRefModel::Builtin(b) && b.fires().contains(
                hook,
            )) ==> kept_refs(refs, hook, n).contains(refs[k]),
    decreases n,
{
    if n > 0 {
        hooked_tasks_do_not_wait_for_the_hook(refs, hook, n - 1);
        let before = kept_refs(refs, hook, n - 1);
        let all = kept_refs(refs, hook, n);
        assert forall|k: int| 0 <= k < all.len() implies !((#[trigger] all[k])
            matches TaskRefModel::Builtin(b) && b.fires().contains(hook)) by {
            if k < before.len() {
                assert(all[k] == before[k]);
            }
        }
        assert forall|k: int|
            0 <= k < n && !((#[trigger] refs[k]) matches TaskRefModel::Builtin(b) && b.fires().contains(
                hook,
            )) implies all.contains(refs[k]) by {
            if k < n - 1 {
                let j = choose|j: int| 0 <= j < before.len() && before[j] == refs[k];
                assert(all[j] == refs[k]);
            } else {
                assert(all[before.len() as int] == refs[k]);
            }
        }
    }
}

} // verus!
