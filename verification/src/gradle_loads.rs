//! What the tasks of a Gradle script become can be loaded.

use crate::check::tasks_fault;
use crate::gradle_body::{
    argfile_template, command_of, declared_body, exec_argv, java_argv, literal_env,
    literal_templates, other_pairs, refused_variable_from, translated, with_pair, with_statement,
    with_statements, BodyModel, DeclaredModel,
};
use crate::gradle_decl::{
    declaration_of, given_names_are_task_names, relation_of, strings_of, HeaderModel,
};
use crate::gradle_lex::{statements_of, StmtModel};
use crate::gradle_tasks::{
    builtin_refs, builtins_of, declarations_from, definitions, depending, failing,
    failures_reported, hooking_from, kept_refs, lemma_orphan, linked_from, links,
    migration_reported, missing_from, name_taken, orphan_from, orphan_reason, own_names, place_of,
    reconfigured_from, settled, tasks_read, tied_from, ties_from, what_is_kept_passes_the_check,
    with_all_resolved, with_builtins, with_declaration, with_hooked, with_hooked_task, with_ref,
    with_resolved, with_tied, FatesModel, HookedModel, HookingModel, TieModel, TiedModel, TiesModel,
};
use crate::parse_tasks::{
    path_fault_from, path_keys, reference_of, repeated_from, reserved, task_name_fault,
};
use crate::report::ReportModel;
use crate::reread_settings::{good_env, good_template};
use crate::reread_tasks::{
    good_action, good_hooks, good_references, good_tasks, good_templates, loads,
};
use crate::task::{
    builtin_named, builtin_names_are_their_own, hooked, lemma_hooked_in_order, once_more, Builtin,
    Hook, HookLists, TaskModel, TaskRefModel,
};
use crate::template::{
    literal_template, literals_read_back, placeholder_names_are_their_own, read_template,
    template_of, with_text, Placeholder, SegmentModel, TemplateModel,
};
use crate::text::{capital, includes, lemma_run_end, run_end, sans_head, starts, Class};
use crate::writable::env_apart;
use vstd::prelude::*;

verus! {

// ---- templates -------------------------------------------------------------

/// A template that is all text.
pub open spec fn all_text(t: TemplateModel) -> bool {
    good_template(t) && t.placeholders().len() == 0
}

/// Templates that are all text.
pub open spec fn all_texts(list: Seq<TemplateModel>) -> bool {
    forall|i: int| 0 <= i < list.len() ==> all_text(#[trigger] list[i])
}

pub proof fn lemma_literals(values: Seq<Seq<char>>)
    ensures
        all_texts(literal_templates(values)),
        good_templates(literal_templates(values)),
{
    let list = literal_templates(values);
    assert forall|i: int| 0 <= i < list.len() implies all_text(#[trigger] list[i]) by {
        literals_read_back(values[i]);
    }
    assert forall|i: int| 0 <= i < list.len() implies template_of((#[trigger] list[i]).raw) == Ok::<
        TemplateModel,
        Seq<char>,
    >(list[i]) by {
        assert(all_text(list[i]));
    }
}

/// The classpath's argument file is read as what it is written for.
pub proof fn lemma_argfile()
    ensures
        good_template(argfile_template()),
{
    let raw = "@{classpath-argfile}"@;
    let name = "classpath-argfile"@;
    reveal_strlit("@{classpath-argfile}");
    reveal_strlit("classpath-argfile");
    reveal_strlit("@");
    assert(raw.len() == 20 && name.len() == 17);
    assert(raw[0] == '@' && raw[1] == '{' && raw[2] == 'c' && raw[19] == '}');
    lemma_run_end(raw, Class::Not('}'), 2);
    let end = run_end(raw, Class::Not('}'), 2);
    assert(raw.subrange(2, 19) =~= name);
    if end < 19 {
        assert(raw[end] == '}');
        assert(raw[end] == name[end - 2]);
        assert(name[end - 2] != '}') by {
            lemma_no_brace(name);
        }
    }
    if end > 19 {
        assert(Class::Not('}').has(raw[19]));
    }
    placeholder_names_are_their_own(Placeholder::ClasspathArgfile, name);
    let none = Seq::<SegmentModel>::empty();
    let at = seq![].push('@');
    assert(at =~= "@"@);
    let first = with_text(none, at).push(
        SegmentModel::Placeholder(Placeholder::ClasspathArgfile),
    );
    assert(first =~= argfile_template().segments);
    assert(read_template(raw, 20, first, seq![]) == Ok::<Seq<SegmentModel>, Seq<char>>(first));
    assert(read_template(raw, 1, none, at) == read_template(raw, 20, first, seq![]));
    assert(read_template(raw, 0, none, seq![]) == read_template(raw, 1, none, at));
}

spec fn braceless(s: Seq<char>, i: int) -> bool
    decreases s.len() - i,
{
    i < 0 || i >= s.len() || (s[i] != '}' && braceless(s, i + 1))
}

proof fn lemma_braceless(s: Seq<char>, i: int)
    requires
        0 <= i,
        braceless(s, i),
    ensures
        forall|k: int| i <= k < s.len() ==> #[trigger] s[k] != '}',
    decreases s.len() - i,
{
    if i < s.len() {
        lemma_braceless(s, i + 1);
    }
}

proof fn lemma_no_brace(name: Seq<char>)
    requires
        name == "classpath-argfile"@,
    ensures
        forall|k: int| 0 <= k < name.len() ==> #[trigger] name[k] != '}',
{
    reveal_strlit("classpath-argfile");
    reveal_with_fuel(braceless, 18);
    assert(braceless(name, 0));
    lemma_braceless(name, 0);
}

/// Paths that are all text hold no classpath.
pub proof fn lemma_plain_paths(
    list: Seq<(Seq<char>, TemplateModel)>,
    section: Seq<char>,
    i: int,
)
    requires
        0 <= i <= list.len(),
        forall|k: int| 0 <= k < list.len() ==> (#[trigger] list[k]).1.placeholders().len() == 0,
    ensures
        path_fault_from(list, section, i) is None,
    decreases list.len() - i,
{
    if i < list.len() {
        assert(list[i].1.placeholders().len() == 0);
        lemma_plain_paths(list, section, i + 1);
    }
}

/// A task without a placeholder in its paths has none of a classpath in them.
pub proof fn lemma_task_paths(t: TaskModel)
    requires
        t.cwd matches Some(x) ==> x.placeholders().len() == 0,
        all_texts(t.inputs),
        all_texts(t.outputs),
        t.source_outputs.len() == 0,
        t.resource_outputs.len() == 0,
    ensures
        path_fault_from(path_keys(t), "tasks."@ + t.name, 0) is None,
{
    let list = path_keys(t);
    let n = t.inputs.len() as int;
    let o = t.outputs.len() as int;
    assert forall|k: int| 0 <= k < list.len() implies (#[trigger] list[k]).1.placeholders().len()
        == 0 by {
        if k < n {
            assert(list[k].1 == t.inputs[k]);
        } else if k < n + o {
            assert(list[k].1 == t.outputs[k - n]);
        } else {
            assert(list[k].1 == t.cwd->0);
        }
    }
    lemma_plain_paths(list, "tasks."@ + t.name, 0);
}

// ---- variables -------------------------------------------------------------

/// Variables under names of their own.
pub open spec fn pairs_apart(env: Seq<(Seq<char>, Seq<char>)>) -> bool {
    forall|i: int, j: int|
        0 <= i < j < env.len() ==> (#[trigger] env[i]).0 != (#[trigger] env[j]).0
}

proof fn lemma_other_pairs(env: Seq<(Seq<char>, Seq<char>)>, name: Seq<char>, n: int)
    requires
        pairs_apart(env),
        0 <= n <= env.len(),
    ensures
        pairs_apart(other_pairs(env, name, n)),
        forall|k: int|
            0 <= k < other_pairs(env, name, n).len() ==> (#[trigger] other_pairs(env, name, n)[k]).0
                != name && exists|j: int| 0 <= j < n && #[trigger] env[j] == other_pairs(env, name, n)[k],
    decreases n,
{
    if n > 0 {
        lemma_other_pairs(env, name, n - 1);
        let before = other_pairs(env, name, n - 1);
        let list = other_pairs(env, name, n);
        assert forall|k: int| 0 <= k < list.len() implies (#[trigger] list[k]).0 != name && exists|
            j: int,
        |
            0 <= j < n && #[trigger] env[j] == list[k] by {
            if k < before.len() {
                assert(list[k] == before[k]);
                let j = choose|j: int| 0 <= j < n - 1 && #[trigger] env[j] == before[k];
                assert(env[j] == list[k]);
            } else {
                assert(env[n - 1] == list[k]);
            }
        }
        assert forall|i: int, j: int| 0 <= i < j < list.len() implies (#[trigger] list[i]).0 != (
        #[trigger] list[j]).0 by {
            assert(list[i] == before[i]);
            if j < before.len() {
                assert(list[j] == before[j]);
            } else {
                let k = choose|k: int| 0 <= k < n - 1 && #[trigger] env[k] == before[i];
                assert(env[k].0 != env[n - 1].0);
            }
        }
    }
}

/// A variable that is set leaves each under a name of its own.
pub proof fn lemma_with_pair(env: Seq<(Seq<char>, Seq<char>)>, name: Seq<char>, value: Seq<char>)
    requires
        pairs_apart(env),
    ensures
        pairs_apart(with_pair(env, name, value)),
{
    lemma_other_pairs(env, name, env.len() as int);
    let before = other_pairs(env, name, env.len() as int);
    let list = with_pair(env, name, value);
    assert forall|i: int, j: int| 0 <= i < j < list.len() implies (#[trigger] list[i]).0 != (
    #[trigger] list[j]).0 by {
        assert(list[i] == before[i]);
        if j < before.len() {
            assert(list[j] == before[j]);
        }
    }
}

proof fn lemma_statement(b: BodyModel, stmt: StmtModel)
    requires
        pairs_apart(b.env),
    ensures
        with_statement(b, stmt) matches Ok(next) ==> pairs_apart(next.env),
{
    if stmt.block is None && relation_of(stmt.head) is None {
        let rest = sans_head(stmt.head, Class::Dotted);
        if let Ok(all) = strings_of(rest) {
            if all.len() == 2 {
                lemma_with_pair(b.env, all[0], all[1]);
            }
        }
    }
}

proof fn lemma_statements(stmts: Seq<StmtModel>, i: int, b: BodyModel)
    requires
        0 <= i <= stmts.len(),
        pairs_apart(b.env),
    ensures
        with_statements(stmts, i, b) matches Ok(next) ==> pairs_apart(next.env),
    decreases stmts.len() - i,
{
    if i < stmts.len() {
        lemma_statement(b, stmts[i]);
        if let Ok(next) = with_statement(b, stmts[i]) {
            lemma_statements(stmts, i + 1, next);
        }
    }
}

proof fn lemma_not_refused(env: Seq<(Seq<char>, Seq<char>)>, i: int)
    requires
        0 <= i <= env.len(),
        refused_variable_from(env, i) is None,
    ensures
        forall|k: int|
            i <= k < env.len() ==> (#[trigger] env[k]).0.len() > 0 && !includes(env[k].0, '=')
                && !includes(env[k].0, '\0') && !starts(
                capital(env[k].0),
                "JRS_"@,
            ),
    decreases env.len() - i,
{
    if i < env.len() {
        lemma_not_refused(env, i + 1);
    }
}

/// Variables that are not refused, under names of their own, can be loaded.
pub proof fn lemma_literal_env(env: Seq<(Seq<char>, Seq<char>)>)
    requires
        refused_variable_from(env, 0) is None,
        pairs_apart(env),
    ensures
        good_env(literal_env(env)),
        env_apart(literal_env(env)),
{
    lemma_not_refused(env, 0);
    let list = literal_env(env);
    assert forall|i: int| 0 <= i < list.len() implies ({
        let (key, t) = #[trigger] list[i];
        &&& key.len() > 0
        &&& !includes(key, '=')
        &&& !includes(key, '\0')
        &&& !starts(capital(key), "JRS_"@)
        &&& template_of(t.raw) == Ok::<TemplateModel, Seq<char>>(t)
    }) by {
        assert(env[i].0.len() > 0);
        literals_read_back(env[i].1);
    }
    assert forall|i: int, j: int| 0 <= i < j < list.len() implies (#[trigger] list[i]).0 != (
    #[trigger] list[j]).0 by {
        assert(env[i].0 != env[j].0);
    }
}

// ---- one declaration -------------------------------------------------------

/// A declaration whose task can be loaded once it is linked.
pub open spec fn linkable(d: DeclaredModel) -> bool {
    let t = d.def;
    &&& task_name_fault(t.name) is None
    &&& t.action is None ==> d.depends_on.len() > 0
    &&& t.action matches Some(a) ==> a is Run && good_action(a)
    &&& good_env(t.env)
    &&& env_apart(t.env)
    &&& t.cwd matches Some(x) ==> all_text(x)
    &&& t.args.len() == 0
    &&& all_texts(t.inputs)
    &&& all_texts(t.outputs)
    &&& t.source_outputs.len() == 0
    &&& t.resource_outputs.len() == 0
    &&& t.dependencies.len() == 0
    &&& d.implied.len() <= 1
}

proof fn lemma_java_argv(b: BodyModel, main: Seq<char>)
    ensures
        good_templates(java_argv(b, main)),
{
    let list = java_argv(b, main);
    let a = literal_templates(b.jvm_args);
    let c = literal_templates(b.args);
    lemma_literals(b.jvm_args);
    lemma_literals(b.args);
    lemma_argfile();
    literals_read_back("java"@);
    literals_read_back(main);
    let n = a.len() as int;
    assert forall|i: int| 0 <= i < list.len() implies template_of((#[trigger] list[i]).raw) == Ok::<
        TemplateModel,
        Seq<char>,
    >(list[i]) by {
        if i == 0 {
            assert(list[i] == literal_template("java"@));
        } else if i < 1 + n {
            assert(list[i] == a[i - 1]);
        } else if i == 1 + n {
            assert(list[i] == argfile_template());
        } else if i == 2 + n {
            assert(list[i] == literal_template(main));
        } else {
            assert(list[i] == c[i - 3 - n]);
        }
    }
}

proof fn lemma_command(kind: Seq<char>, b: BodyModel)
    ensures
        command_of(kind, b) matches Ok((argv, implied)) ==> {
            &&& argv matches Some(a) ==> good_templates(a)
            &&& argv is None ==> b.depends_on.len() > 0
            &&& implied.len() <= 1
        },
{
    if let Ok(argv) = exec_argv(b) {
        lemma_literals(argv);
    }
    if let Some(main) = b.main_class {
        lemma_java_argv(b, main);
    }
}

/// A declaration that is translated can be loaded once it is linked.
proof fn lemma_translated(gradle: Seq<char>, header: HeaderModel, block: Option<Seq<char>>)
    ensures
        translated(gradle, header, block) matches Ok(d) ==> linkable(d),
{
    given_names_are_task_names(gradle);
    if let Ok(d) = translated(gradle, header, block) {
        let start = declared_body(header);
        let b = match block {
            Some(text) => with_statements(statements_of(text), 0, start)->Ok_0,
            None => start,
        };
        if let Some(text) = block {
            lemma_statements(statements_of(text), 0, start);
        }
        let kind = match header.kind {
            Some(k) => k,
            None => "DefaultTask"@,
        };
        lemma_command(kind, b);
        lemma_literal_env(b.env);
        lemma_literals(b.inputs);
        lemma_literals(b.outputs);
        if let Some(dir) = b.working_dir {
            literals_read_back(dir);
        }
    }
}

// ---- the declarations ------------------------------------------------------

/// Declarations whose tasks can be loaded once they are linked, under names of
/// their own.
pub open spec fn all_linkable(list: Seq<DeclaredModel>) -> bool {
    &&& forall|k: int| 0 <= k < list.len() ==> linkable(#[trigger] list[k])
    &&& forall|i: int, j: int|
        0 <= i < j < list.len() ==> (#[trigger] list[i]).def.name != (#[trigger] list[j]).def.name
}

proof fn lemma_declarations(top: Seq<StmtModel>, i: int, fates: FatesModel)
    requires
        0 <= i <= top.len(),
        all_linkable(fates.0),
    ensures
        all_linkable(declarations_from(top, i, fates).0),
    decreases top.len() - i,
{
    if i < top.len() {
        let next = with_declaration(fates, top[i]);
        if let Some((gradle, header)) = declaration_of(top[i].head) {
            if let Ok(h) = header {
                lemma_translated(gradle, h, top[i].block);
                if let Ok(d) = translated(gradle, h, top[i].block) {
                    if !name_taken(fates.0, d.def.name) {
                        lemma_pushed(fates.0, d);
                    }
                }
            }
        }
        lemma_declarations(top, i + 1, next);
    }
}

proof fn lemma_pushed(list: Seq<DeclaredModel>, d: DeclaredModel)
    requires
        all_linkable(list),
        linkable(d),
        !name_taken(list, d.def.name),
    ensures
        all_linkable(list.push(d)),
{
    let more = list.push(d);
    assert forall|k: int| 0 <= k < more.len() implies linkable(#[trigger] more[k]) by {
        if k < list.len() {
            assert(more[k] == list[k]);
        }
    }
    assert forall|i: int, j: int| 0 <= i < j < more.len() implies (#[trigger] more[i]).def.name != (
    #[trigger] more[j]).def.name by {
        assert(more[i] == list[i]);
        if j < list.len() {
            assert(more[j] == list[j]);
        }
    }
}

proof fn lemma_place(list: Seq<DeclaredModel>, gradle: Seq<char>, i: int)
    requires
        0 <= i,
    ensures
        place_of(list, gradle, i) matches Some(k) ==> i <= k < list.len(),
    decreases list.len() - i,
{
    if i < list.len() && list[i].gradle != gradle {
        lemma_place(list, gradle, i + 1);
    }
}

proof fn lemma_failing(fates: FatesModel, gradle: Seq<char>, why: Seq<char>)
    requires
        all_linkable(fates.0),
    ensures
        all_linkable(failing(fates, gradle, why).0),
{
    lemma_place(fates.0, gradle, 0);
    if let Some(n) = place_of(fates.0, gradle, 0) {
        let list = fates.0;
        let less = list.remove(n);
        assert forall|k: int| 0 <= k < less.len() implies linkable(#[trigger] less[k]) by {
            assert(less[k] == list[if k < n { k } else { k + 1 }]);
        }
        assert forall|i: int, j: int| 0 <= i < j < less.len() implies (
        #[trigger] less[i]).def.name != (#[trigger] less[j]).def.name by {
            assert(less[i] == list[if i < n { i } else { i + 1 }]);
            assert(less[j] == list[if j < n { j } else { j + 1 }]);
        }
    }
}

proof fn lemma_reconfigured(list: Seq<(Seq<char>, Seq<char>)>, i: int, fates: FatesModel)
    requires
        0 <= i <= list.len(),
        all_linkable(fates.0),
    ensures
        all_linkable(reconfigured_from(list, i, fates).0),
    decreases list.len() - i,
{
    if i < list.len() {
        let why = "it is configured again at `"@ + list[i].1 + "`, which jrs does not merge"@;
        lemma_failing(fates, list[i].0, why);
        lemma_reconfigured(list, i + 1, failing(fates, list[i].0, why));
    }
}

proof fn lemma_depending(fates: FatesModel, gradle: Seq<char>, refs: Seq<Seq<char>>)
    requires
        all_linkable(fates.0),
    ensures
        all_linkable(depending(fates, gradle, refs).0),
{
    lemma_place(fates.0, gradle, 0);
    if let Some(n) = place_of(fates.0, gradle, 0) {
        let list = fates.0;
        let next = depending(fates, gradle, refs).0;
        assert(linkable(list[n]));
        assert forall|k: int| 0 <= k < next.len() implies linkable(#[trigger] next[k]) by {
            if k != n {
                assert(next[k] == list[k]);
            }
        }
        assert forall|i: int, j: int| 0 <= i < j < next.len() implies (
        #[trigger] next[i]).def.name != (#[trigger] next[j]).def.name by {
            assert(next[i].def == list[i].def && next[j].def == list[j].def);
        }
    }
}

proof fn lemma_tied(ties: Seq<TieModel>, custom: Seq<Seq<char>>, i: int, state: TiedModel)
    requires
        0 <= i <= ties.len(),
        all_linkable(state.fates.0),
    ensures
        all_linkable(tied_from(ties, custom, i, state).fates.0),
    decreases ties.len() - i,
{
    if i < ties.len() {
        let tie = ties[i];
        lemma_depending(state.fates, tie.target, tie.refs);
        lemma_failing(state.fates, tie.target, "`"@ + tie.text + "` has no equivalent in jrs"@);
        lemma_tied(ties, custom, i + 1, with_tied(state, tie, custom));
    }
}

proof fn lemma_settled(fates: FatesModel, custom: Seq<Seq<char>>)
    requires
        all_linkable(fates.0),
    ensures
        all_linkable(settled(fates, custom).0),
        orphan_from(settled(fates, custom).0, 0) is None,
    decreases fates.0.len(),
{
    if let Some((gradle, missing)) = orphan_from(fates.0, 0) {
        let why = orphan_reason(missing, custom);
        lemma_orphan(fates.0, 0);
        lemma_place(fates.0, gradle, 0);
        lemma_failing(fates, gradle, why);
        lemma_settled(failing(fates, gradle, why), custom);
    }
}

// ---- links -----------------------------------------------------------------

proof fn lemma_with_ref(refs: Seq<TaskRefModel>, r: TaskRefModel)
    requires
        good_references(refs),
        r matches TaskRefModel::Task(t) ==> task_name_fault(t) is None,
    ensures
        good_references(with_ref(refs, r)),
        with_ref(refs, r).len() > 0,
        with_ref(refs, r).len() >= refs.len(),
{
    match r {
        TaskRefModel::Builtin(b) => {
            builtin_names_are_their_own(b, b.word());
        },
        TaskRefModel::Task(t) => {
            assert(!reserved(t));
        },
    }
    if !refs.contains(r) {
        let more = refs.push(r);
        assert forall|i: int| 0 <= i < more.len() implies reference_of((#[trigger] more[i]).word())
            == more[i] && !(builtin_named(more[i].word()) is None && reserved(more[i].word())) by {
            if i < refs.len() {
                assert(more[i] == refs[i]);
            }
        }
        assert forall|a: int, b: int| 0 <= a < b < more.len() implies #[trigger] more[a]
            != #[trigger] more[b] by {
            assert(more[a] == refs[a]);
            assert(refs.contains(refs[a]));
            if b < refs.len() {
                assert(more[b] == refs[b]);
            }
        }
    }
}

proof fn lemma_with_builtins(refs: Seq<TaskRefModel>, list: Seq<Builtin>, i: int)
    requires
        good_references(refs),
        0 <= i <= list.len(),
    ensures
        good_references(with_builtins(refs, list, i)),
        with_builtins(refs, list, i).len() >= refs.len(),
        i < list.len() ==> with_builtins(refs, list, i).len() > 0,
    decreases list.len() - i,
{
    if i < list.len() {
        lemma_with_ref(refs, TaskRefModel::Builtin(list[i]));
        lemma_with_builtins(with_ref(refs, TaskRefModel::Builtin(list[i])), list, i + 1);
    }
}

proof fn lemma_with_all_resolved(
    refs: Seq<TaskRefModel>,
    declared: Seq<DeclaredModel>,
    names: Seq<Seq<char>>,
    i: int,
)
    requires
        good_references(refs),
        all_linkable(declared),
        0 <= i <= names.len(),
        missing_from(names, declared, i) is None,
    ensures
        good_references(with_all_resolved(refs, declared, names, i)),
        with_all_resolved(refs, declared, names, i).len() >= refs.len(),
        i < names.len() ==> with_all_resolved(refs, declared, names, i).len() > 0,
    decreases names.len() - i,
{
    if i < names.len() {
        let r = names[i];
        lemma_place(declared, r, 0);
        if let Some(k) = place_of(declared, r, 0) {
            assert(linkable(declared[k]));
            lemma_with_ref(refs, TaskRefModel::Task(declared[k].def.name));
        } else if let Some(list) = builtins_of(r) {
            lemma_with_builtins(refs, list, 0);
        }
        lemma_with_all_resolved(with_resolved(refs, declared, r), declared, names, i + 1);
    }
}

proof fn lemma_orphans(declared: Seq<DeclaredModel>, i: int, k: int)
    requires
        0 <= i <= k < declared.len(),
        orphan_from(declared, i) is None,
    ensures
        missing_from(declared[k].depends_on, declared, 0) is None,
    decreases k - i,
{
    if i < k {
        lemma_orphans(declared, i + 1, k);
    }
}

/// A task that is linked can be loaded.
proof fn lemma_linked_task(declared: Seq<DeclaredModel>, k: int)
    requires
        all_linkable(declared),
        orphan_from(declared, 0) is None,
        0 <= k < declared.len(),
    ensures
        loads(TaskModel { depends_on: links(declared, declared[k]), ..declared[k].def }),
{
    let d = declared[k];
    let t = TaskModel { depends_on: links(declared, d), ..d.def };
    assert(linkable(d));
    lemma_orphans(declared, 0, k);
    let start = builtin_refs(d.implied);
    assert(good_references(start)) by {
        assert forall|i: int| 0 <= i < start.len() implies reference_of(
            (#[trigger] start[i]).word(),
        ) == start[i] && !(builtin_named(start[i].word()) is None && reserved(start[i].word())) by {
            builtin_names_are_their_own(d.implied[i], d.implied[i].word());
        }
    }
    lemma_with_all_resolved(start, declared, d.depends_on, 0);
    lemma_task_paths(t);
    assert(t.dependencies =~= seq![]);
    lemma_all_good(t.inputs);
    lemma_all_good(t.outputs);
}

pub proof fn lemma_all_good(list: Seq<TemplateModel>)
    requires
        all_texts(list),
    ensures
        good_templates(list),
{
    assert forall|i: int| 0 <= i < list.len() implies template_of((#[trigger] list[i]).raw) == Ok::<
        TemplateModel,
        Seq<char>,
    >(list[i]) by {
        assert(all_text(list[i]));
    }
}

/// Declarations whose tasks can be loaded, under names of their own.
pub open spec fn all_load(list: Seq<DeclaredModel>) -> bool {
    &&& forall|k: int| 0 <= k < list.len() ==> loads((#[trigger] list[k]).def)
    &&& forall|i: int, j: int|
        0 <= i < j < list.len() ==> (#[trigger] list[i]).def.name != (#[trigger] list[j]).def.name
}

proof fn lemma_linked(
    declared: Seq<DeclaredModel>,
    i: int,
    out: Seq<DeclaredModel>,
    report: ReportModel,
)
    requires
        all_linkable(declared),
        orphan_from(declared, 0) is None,
        0 <= i <= declared.len(),
        out.len() == i,
        forall|k: int|
            0 <= k < i ==> loads((#[trigger] out[k]).def) && out[k].def.name
                == declared[k].def.name,
    ensures
        ({
            let list = linked_from(declared, i, out, report).0;
            &&& list.len() == declared.len()
            &&& forall|k: int|
                0 <= k < list.len() ==> loads((#[trigger] list[k]).def) && list[k].def.name
                    == declared[k].def.name
        }),
    decreases declared.len() - i,
{
    if i < declared.len() {
        let d = declared[i];
        lemma_linked_task(declared, i);
        lemma_linked(
            declared,
            i + 1,
            out.push(
                DeclaredModel {
                    def: TaskModel { depends_on: links(declared, d), ..d.def },
                    ..d
                },
            ),
            migration_reported(d, report),
        );
    }
}

// ---- hooks -----------------------------------------------------------------

proof fn lemma_kept_refs(refs: Seq<TaskRefModel>, hook: Hook, n: int)
    requires
        good_references(refs),
        0 <= n <= refs.len(),
    ensures
        good_references(kept_refs(refs, hook, n)),
        kept_refs(refs, hook, n).len() <= n,
        forall|k: int|
            0 <= k < kept_refs(refs, hook, n).len() ==> exists|j: int|
                0 <= j < n && #[trigger] refs[j] == #[trigger] kept_refs(refs, hook, n)[k],
    decreases n,
{
    if n > 0 {
        lemma_kept_refs(refs, hook, n - 1);
        let before = kept_refs(refs, hook, n - 1);
        let list = kept_refs(refs, hook, n);
        assert forall|k: int| 0 <= k < list.len() implies exists|j: int|
            0 <= j < n && #[trigger] refs[j] == #[trigger] list[k] by {
            if k < before.len() {
                assert(list[k] == before[k]);
                let j = choose|j: int| 0 <= j < n - 1 && #[trigger] refs[j] == before[k];
                assert(refs[j] == list[k]);
            } else {
                assert(refs[n - 1] == list[k]);
            }
        }
        assert forall|i: int| 0 <= i < list.len() implies reference_of((#[trigger] list[i]).word())
            == list[i] && !(builtin_named(list[i].word()) is None && reserved(list[i].word())) by {
            let j = choose|j: int| 0 <= j < n && #[trigger] refs[j] == list[i];
            assert(refs[j] == list[i]);
        }
        assert forall|a: int, b: int| 0 <= a < b < list.len() implies #[trigger] list[a]
            != #[trigger] list[b] by {
            assert(list[a] == before[a]);
            if b < before.len() {
                assert(list[b] == before[b]);
            } else {
                let j = choose|j: int| 0 <= j < n - 1 && #[trigger] refs[j] == before[a];
                assert(refs[j] != refs[n - 1]);
            }
        }
    }
}

proof fn lemma_not_repeated(names: Seq<Seq<char>>, i: int)
    requires
        0 <= i <= names.len(),
        forall|a: int, b: int| 0 <= a < b < names.len() ==> #[trigger] names[a] != #[trigger] names[b],
    ensures
        repeated_from(names, i) is None,
    decreases names.len() - i,
{
    if i < names.len() {
        assert(!names.take(i).contains(names[i]));
        lemma_not_repeated(names, i + 1);
    }
}

proof fn lemma_repeated(names: Seq<Seq<char>>, i: int)
    requires
        0 <= i <= names.len(),
        repeated_from(names, i) is None,
    ensures
        forall|a: int, b: int|
            0 <= a < b < names.len() && i <= b ==> #[trigger] names[a] != #[trigger] names[b],
    decreases names.len() - i,
{
    if i < names.len() {
        lemma_repeated(names, i + 1);
        assert forall|a: int, b: int|
            0 <= a < b < names.len() && i <= b implies #[trigger] names[a] != #[trigger] names[b] by {
            if b == i {
                assert(names.take(i)[a] == names[a]);
            }
        }
    }
}

proof fn lemma_once_more(names: Seq<Seq<char>>, name: Seq<char>)
    requires
        repeated_from(names, 0) is None,
    ensures
        repeated_from(once_more(names, name), 0) is None,
        once_more(names, name).len() > 0,
{
    lemma_repeated(names, 0);
    if !names.contains(name) {
        let more = names.push(name);
        assert forall|a: int, b: int| 0 <= a < b < more.len() implies #[trigger] more[a]
            != #[trigger] more[b] by {
            assert(more[a] == names[a]);
            assert(names.contains(names[a]));
            if b < names.len() {
                assert(more[b] == names[b]);
            }
        }
        lemma_not_repeated(more, 0);
    }
}

/// Hooks that a table can name are such with one task more.
pub proof fn lemma_hooked(m: HookLists, hook: Hook, task: Seq<char>)
    requires
        good_hooks(m),
    ensures
        good_hooks(hooked(m, hook, task)),
    decreases m.len(),
{
    lemma_hooked_in_order(m, hook, task);
    let r = hooked(m, hook, task);
    lemma_not_repeated(seq![task], 0);
    if m.len() == 0 {
    } else if m[0].0 == hook {
        lemma_once_more(m[0].1, task);
        assert forall|k: int| 0 <= k < r.len() implies (#[trigger] r[k]).1.len() > 0
            && repeated_from(r[k].1, 0) is None by {
            if k > 0 {
                assert(r[k] == m[k]);
            }
        }
    } else if hook.place() < m[0].0.place() {
        assert forall|k: int| 0 <= k < r.len() implies (#[trigger] r[k]).1.len() > 0
            && repeated_from(r[k].1, 0) is None by {
            if k > 0 {
                assert(r[k] == m[k - 1]);
            }
        }
    } else {
        let rest = m.skip(1);
        assert forall|i: int, j: int| 0 <= i < j < rest.len() implies (#[trigger] rest[i]).0.place()
            < (#[trigger] rest[j]).0.place() by {
            assert(rest[i] == m[i + 1] && rest[j] == m[j + 1]);
        }
        assert forall|k: int| 0 <= k < rest.len() implies (#[trigger] rest[k]).1.len() > 0
            && repeated_from(rest[k].1, 0) is None by {
            assert(rest[k] == m[k + 1]);
        }
        lemma_hooked(rest, hook, task);
        let tail = hooked(rest, hook, task);
        assert forall|k: int| 0 <= k < r.len() implies (#[trigger] r[k]).1.len() > 0
            && repeated_from(r[k].1, 0) is None by {
            if k > 0 {
                assert(r[k] == tail[k - 1]);
            } else {
                assert(r[k] == m[0]);
            }
        }
    }
}

proof fn lemma_hooked_task(state: HookingModel, i: int, hook: Hook, text: Seq<char>)
    requires
        all_load(state.declared),
        0 <= i < state.declared.len(),
    ensures
        all_load(with_hooked_task(state, i, hook, text).declared),
        good_hooks(state.hooks) ==> good_hooks(with_hooked_task(state, i, hook, text).hooks),
{
    let list = state.declared;
    let d = list[i];
    let refs = d.def.depends_on;
    let next = with_hooked_task(state, i, hook, text).declared;
    assert(loads(d.def));
    lemma_kept_refs(refs, hook, refs.len() as int);
    if good_hooks(state.hooks) {
        lemma_hooked(state.hooks, hook, d.def.name);
    }
    let kept = TaskModel {
        depends_on: kept_refs(refs, hook, refs.len() as int),
        ..d.def
    };
    assert(path_keys(kept) =~= path_keys(d.def));
    assert forall|k: int| 0 <= k < next.len() implies loads((#[trigger] next[k]).def) by {
        if k != i || next == list {
            assert(next[k] == list[k]);
        } else {
            assert(next[k].def == kept);
        }
    }
    assert forall|a: int, b: int| 0 <= a < b < next.len() implies (#[trigger] next[a]).def.name != (
    #[trigger] next[b]).def.name by {
        assert(next[a].def.name == list[a].def.name && next[b].def.name == list[b].def.name);
    }
}

proof fn lemma_hooking(list: HookedModel, custom: Seq<Seq<char>>, i: int, state: HookingModel)
    requires
        0 <= i <= list.len(),
        all_load(state.declared),
    ensures
        all_load(hooking_from(list, custom, i, state).declared),
        good_hooks(state.hooks) ==> good_hooks(hooking_from(list, custom, i, state).hooks),
    decreases list.len() - i,
{
    if i < list.len() {
        let (hook, gradle, text) = list[i];
        lemma_place(state.declared, gradle, 0);
        if let Some(k) = place_of(state.declared, gradle, 0) {
            lemma_hooked_task(state, k, hook, text);
        }
        lemma_hooking(list, custom, i + 1, with_hooked(state, list[i], custom));
    }
}

// ---- the script ------------------------------------------------------------

/// Every task that a Gradle script becomes can be loaded, and so can its hooks.
pub proof fn migrated_tasks_load(
    script: Seq<char>,
    hooks: HookLists,
    report: ReportModel,
)
    ensures
        ({
            let (tasks, left, _) = tasks_read(script, hooks, report);
            &&& good_tasks(tasks)
            &&& good_hooks(hooks) ==> good_hooks(left)
            &&& tasks_fault(tasks, left) is None
        }),
{
    let top = statements_of(script);
    let none: FatesModel = (seq![], seq![]);
    let fates = declarations_from(top, 0, none);
    lemma_declarations(top, 0, none);
    let custom = own_names(fates);
    let (ties, report) = ties_from(
        top,
        custom,
        0,
        (TiesModel { ties: seq![], reconfigured: seq![] }, report),
    );
    let after = reconfigured_from(ties.reconfigured, 0, fates);
    lemma_reconfigured(ties.reconfigured, 0, fates);
    let start = TiedModel { fates: after, hooked: seq![], report };
    lemma_tied(ties.ties, custom, 0, start);
    let tied = tied_from(ties.ties, custom, 0, start);
    lemma_settled(tied.fates, custom);
    let fates = settled(tied.fates, custom);
    let report = failures_reported(fates.1, fates.1.len() as int, tied.report);
    lemma_linked(fates.0, 0, seq![], report);
    let (declared, report) = linked_from(fates.0, 0, seq![], report);
    assert forall|i: int, j: int| 0 <= i < j < declared.len() implies (
    #[trigger] declared[i]).def.name != (#[trigger] declared[j]).def.name by {
        assert(fates.0[i].def.name != fates.0[j].def.name);
    }
    let begun = HookingModel { declared, hooks, report };
    lemma_hooking(tied.hooked, custom, 0, begun);
    let done = hooking_from(tied.hooked, custom, 0, begun);
    let tasks = definitions(done.declared);
    assert forall|k: int| 0 <= k < tasks.len() implies loads(#[trigger] tasks[k]) by {
        assert(loads(done.declared[k].def));
    }
    assert forall|i: int, j: int| 0 <= i < j < tasks.len() implies (#[trigger] tasks[i]).name != (
    #[trigger] tasks[j]).name by {
        assert(done.declared[i].def.name != done.declared[j].def.name);
    }
    what_is_kept_passes_the_check(tasks, done.hooks, done.report);
}

} // verus!
