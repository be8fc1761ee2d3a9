//! Gradle tasks → `[tasks]` and `[hooks]`.
//!
//! A Gradle task is a program, and most cannot be translated without running
//! Gradle. Three kinds say everything they do in literals, and those are
//! translated: an `Exec` task (a command line), a `JavaExec` task over the main
//! runtime classpath (`java` over the project's classpath), and a task with no
//! action that only depends on others. `dependsOn` on `compileJava`, `test` or
//! `run`, and `finalizedBy` on `compileJava`, `test` or `jar`, become hooks.
//!
//! Anything else in a task (a `doLast { }` closure, a `Copy` spec, a value
//! built from a variable) keeps the whole task out of the manifest, with the
//! reason in the report, and so does a dependency on a task that was left out.
//! Half a task would be worse than none: it would run, and do the wrong thing.

use crate::check::{check_tasks, tasks_fault};
use crate::gradle_body::{translate, translated, Declared, DeclaredModel};
use crate::gradle_decl::{
    configured, configured_of, declaration, declaration_of, references_of, relation, relation_of,
    task_refs, Relation,
};
use crate::gradle_lex::{statements, statements_of, Stmt, StmtModel};
use crate::gradle_loads::migrated_tasks_load;
use crate::manifest::{Manifest, ManifestModel};
use crate::report::{Report, ReportModel};
use crate::reread_tasks::{good_hooks, loads, tasks_apart};
use crate::task::{
    hooked, refers, Builtin, Hook, HookLists, Hooks, TaskDef, TaskModel, TaskRef, TaskRefModel,
};
use crate::text::{
    cat3, cat4, cat5, cat7, head, listed, none_of, one_of, put, put_all, same, Duplicate,
};
use vstd::prelude::*;

verus! {

// ---- Gradle's own tasks ----------------------------------------------------

/// Gradle's own tasks a jrs task can depend on, as the built-ins doing the
/// same work.
pub open spec fn builtins_of(gradle: Seq<char>) -> Option<Seq<Builtin>> {
    if gradle == "classes"@ || gradle == "compileJava"@ || gradle == "compileKotlin"@ || gradle
        == "compileScala"@ || gradle == "compileGroovy"@ || gradle == "processResources"@ {
        Some(seq![Builtin::Build])
    } else if gradle == "jar"@ || gradle == "assemble"@ {
        Some(seq![Builtin::Package])
    } else if gradle == "test"@ || gradle == "check"@ {
        Some(seq![Builtin::Test])
    } else if gradle == "javadoc"@ {
        Some(seq![Builtin::Doc])
    } else if gradle == "build"@ {
        Some(seq![Builtin::Test, Builtin::Package])
    } else {
        None
    }
}

/// Gradle's own tasks a jrs task can depend on, as the built-ins doing the
/// same work.
pub fn builtins_for(gradle: &str) -> (r: Option<Vec<Builtin>>)
    ensures
        r.deep_view() == builtins_of(gradle@),
{
    if same(gradle, "classes") || same(gradle, "compileJava") || same(gradle, "compileKotlin")
        || same(gradle, "compileScala") || same(gradle, "compileGroovy") || same(
        gradle,
        "processResources",
    ) {
        Some(one_of(Builtin::Build))
    } else if same(gradle, "jar") || same(gradle, "assemble") {
        Some(one_of(Builtin::Package))
    } else if same(gradle, "test") || same(gradle, "check") {
        Some(one_of(Builtin::Test))
    } else if same(gradle, "javadoc") {
        Some(one_of(Builtin::Doc))
    } else if same(gradle, "build") {
        let mut both: Vec<Builtin> = one_of(Builtin::Test);
        put(&mut both, Builtin::Package);
        assert(both.deep_view() =~= seq![Builtin::Test, Builtin::Package]);
        Some(both)
    } else {
        None
    }
}

/// The tasks that compile the main sources; a hook beside one is a hook
/// beside all of them.
pub open spec fn compile_task(target: Seq<char>) -> bool {
    target == "compileJava"@ || target == "compileKotlin"@ || target == "compileScala"@ || target
        == "compileGroovy"@ || target == "processResources"@ || target == "classes"@
}

pub fn is_compile_task(target: &str) -> (r: bool)
    ensures
        r == compile_task(target@),
{
    same(target, "compileJava") || same(target, "compileKotlin") || same(target, "compileScala")
        || same(target, "compileGroovy") || same(target, "processResources") || same(
        target,
        "classes",
    )
}

/// Gradle's own tasks. A `dependsOn` on one jrs has no hook beside is
/// reported, not passed over.
pub open spec fn gradle_task(target: Seq<char>) -> bool {
    ||| compile_task(target)
    ||| target == "compileTestJava"@
    ||| target == "processTestResources"@
    ||| target == "testClasses"@
    ||| target == "test"@
    ||| target == "check"@
    ||| target == "jar"@
    ||| target == "assemble"@
    ||| target == "build"@
    ||| target == "javadoc"@
    ||| target == "run"@
    ||| target == "clean"@
    ||| target == "distZip"@
    ||| target == "installDist"@
    ||| target == "shadowJar"@
    ||| target == "bootJar"@
    ||| target == "bootRun"@
}

pub fn is_gradle_task(target: &str) -> (r: bool)
    ensures
        r == gradle_task(target@),
{
    is_compile_task(target) || same(target, "compileTestJava") || same(
        target,
        "processTestResources",
    ) || same(target, "testClasses") || same(target, "test") || same(target, "check") || same(
        target,
        "jar",
    ) || same(target, "assemble") || same(target, "build") || same(target, "javadoc") || same(
        target,
        "run",
    ) || same(target, "clean") || same(target, "distZip") || same(target, "installDist") || same(
        target,
        "shadowJar",
    ) || same(target, "bootJar") || same(target, "bootRun")
}

/// The hook that runs where `relation` on Gradle's `target` would.
pub open spec fn hook_of(target: Seq<char>, relation: Relation) -> Option<Hook> {
    match relation {
        Relation::DependsOn => if compile_task(target) {
            Some(Hook::PreCompile)
        } else if target == "test"@ {
            Some(Hook::PreTest)
        } else if target == "run"@ {
            Some(Hook::PreRun)
        } else {
            None
        },
        Relation::FinalizedBy => if compile_task(target) {
            Some(Hook::PostCompile)
        } else if target == "test"@ {
            Some(Hook::PostTest)
        } else if target == "jar"@ || target == "assemble"@ {
            Some(Hook::PostPackage)
        } else {
            None
        },
        Relation::RunsAfter => None,
    }
}

/// The hook that runs where `relation` on Gradle's `target` would.
pub fn hook_for(target: &str, relation: Relation) -> (r: Option<Hook>)
    ensures
        r == hook_of(target@, relation),
{
    match relation {
        Relation::DependsOn => if is_compile_task(target) {
            Some(Hook::PreCompile)
        } else if same(target, "test") {
            Some(Hook::PreTest)
        } else if same(target, "run") {
            Some(Hook::PreRun)
        } else {
            None
        },
        Relation::FinalizedBy => if is_compile_task(target) {
            Some(Hook::PostCompile)
        } else if same(target, "test") {
            Some(Hook::PostTest)
        } else if same(target, "jar") || same(target, "assemble") {
            Some(Hook::PostPackage)
        } else {
            None
        },
        Relation::RunsAfter => None,
    }
}

// ---- declarations ----------------------------------------------------------

/// Some task of the list has the name.
pub open spec fn name_taken(list: Seq<DeclaredModel>, name: Seq<char>) -> bool {
    exists|i: int| 0 <= i < list.len() && (#[trigger] list[i]).def.name == name
}

fn is_name_taken(list: &Vec<Declared>, name: &str) -> (r: bool)
    ensures
        r == name_taken(list.deep_view(), name@),
{
    let ghost all = list.deep_view();
    let mut i: usize = 0;
    while i < list.len()
        invariant
            all == list.deep_view(),
            i <= list@.len(),
            forall|j: int| 0 <= j < i ==> (#[trigger] all[j]).def.name != name@,
        decreases list@.len() - i,
    {
        assert(all[i as int] == list@[i as int].deep_view());
        if same(list[i].def.name.as_str(), name) {
            return true;
        }
        i = i + 1;
    }
    false
}

/// The tasks that were translated, and those that were not, with why.
pub type FatesModel = (Seq<DeclaredModel>, Seq<(Seq<char>, Seq<char>)>);

/// The fates with that of the statement's task, where it declares one.
pub open spec fn with_declaration(fates: FatesModel, stmt: StmtModel) -> FatesModel {
    match declaration_of(stmt.head) {
        None => fates,
        Some((gradle, header)) => {
            let made = match header {
                Ok(h) => translated(gradle, h, stmt.block),
                Err(e) => Err(e),
            };
            match made {
                Ok(d) => if name_taken(fates.0, d.def.name) {
                    (
                        fates.0,
                        fates.1.push(
                            (
                                gradle,
                                "its name would be `"@ + d.def.name + "`, which another task has"@,
                            ),
                        ),
                    )
                } else {
                    (fates.0.push(d), fates.1)
                },
                Err(why) => (fates.0, fates.1.push((gradle, why))),
            }
        },
    }
}

pub open spec fn declarations_from(top: Seq<StmtModel>, i: int, fates: FatesModel) -> FatesModel
    decreases top.len() - i,
{
    if i < 0 || i >= top.len() {
        fates
    } else {
        declarations_from(top, i + 1, with_declaration(fates, top[i]))
    }
}

/// The script's task declarations, translated, and those that could not be,
/// with why.
pub fn read_declarations(top: &Vec<Stmt>) -> (r: (Vec<Declared>, Vec<(String, String)>))
    ensures
        r.deep_view() == declarations_from(top.deep_view(), 0, (seq![], seq![])),
{
    let ghost all = top.deep_view();
    let mut declared: Vec<Declared> = none_of();
    let mut failed: Vec<(String, String)> = none_of();
    let mut i: usize = 0;
    while i < top.len()
        invariant
            all == top.deep_view(),
            i <= top@.len(),
            declarations_from(all, 0, (seq![], seq![])) == declarations_from(
                all,
                i as int,
                (declared.deep_view(), failed.deep_view()),
            ),
        decreases top@.len() - i,
    {
        assert(all[i as int] == top@[i as int].deep_view());
        if let Some(d) = declaration(top[i].head.as_str()) {
            let made = match d.header {
                Ok(h) => translate(d.gradle.as_str(), h, &top[i].block),
                Err(e) => Err(e),
            };
            match made {
                Ok(t) => {
                    if is_name_taken(&declared, t.def.name.as_str()) {
                        put(
                            &mut failed,
                            (
                                d.gradle,
                                cat3(
                                    "its name would be `",
                                    t.def.name.as_str(),
                                    "`, which another task has",
                                ),
                            ),
                        );
                    } else {
                        put(&mut declared, t);
                    }
                },
                Err(why) => {
                    put(&mut failed, (d.gradle, why));
                },
            }
        }
        i = i + 1;
    }
    (declared, failed)
}

// ---- ties ------------------------------------------------------------------

/// A `dependsOn` or `finalizedBy` written apart from a declaration.
pub struct Tie {
    pub target: String,
    pub relation: Relation,
    pub refs: Vec<String>,
    pub text: String,
}

/// What a tie says.
pub struct TieModel {
    pub target: Seq<char>,
    pub relation: Relation,
    pub refs: Seq<Seq<char>>,
    pub text: Seq<char>,
}

impl DeepView for Tie {
    type V = TieModel;

    open spec fn deep_view(&self) -> TieModel {
        TieModel {
            target: self.target@,
            relation: self.relation,
            refs: self.refs.deep_view(),
            text: self.text@,
        }
    }
}

/// What the ties of a script are read into.
pub struct Ties {
    pub ties: Vec<Tie>,
    /// The tasks configured again, with the statement that does it.
    pub reconfigured: Vec<(String, String)>,
}

/// What the ties of a script are read into.
pub struct TiesModel {
    pub ties: Seq<TieModel>,
    pub reconfigured: Seq<(Seq<char>, Seq<char>)>,
}

impl DeepView for Ties {
    type V = TiesModel;

    open spec fn deep_view(&self) -> TiesModel {
        TiesModel { ties: self.ties.deep_view(), reconfigured: self.reconfigured.deep_view() }
    }
}

/// The ties and the report with the tie that `text` is.
pub open spec fn with_tie(
    state: (TiesModel, ReportModel),
    target: Seq<char>,
    relation: Relation,
    arg: Seq<char>,
    text: Seq<char>,
) -> (TiesModel, ReportModel) {
    match references_of(arg) {
        Ok(refs) => (
            TiesModel {
                ties: state.0.ties.push(TieModel { target, relation, refs, text }),
                ..state.0
            },
            state.1,
        ),
        Err(why) => (state.0, state.1.with_skipped("`"@ + text + "` — "@ + why)),
    }
}

/// The ties and the report with what the statements of a block say, from the
/// `i`th on.
pub open spec fn inner_ties(
    state: (TiesModel, ReportModel),
    target: Seq<char>,
    custom: bool,
    head: Seq<char>,
    inner: Seq<StmtModel>,
    i: int,
) -> (TiesModel, ReportModel)
    decreases inner.len() - i,
{
    if i < 0 || i >= inner.len() {
        state
    } else {
        let next = if relation_of(inner[i].head) is Some && inner[i].block is None {
            let (relation, arg) = relation_of(inner[i].head)->0;
            with_tie(state, target, relation, arg, head + " { "@ + inner[i].head + " }"@)
        } else if custom {
            (
                TiesModel { reconfigured: state.0.reconfigured.push((target, head)), ..state.0 },
                state.1,
            )
        } else {
            state
        };
        inner_ties(next, target, custom, head, inner, i + 1)
    }
}

/// The ties and the report with what a statement that declares no task says.
pub open spec fn statement_ties(
    state: (TiesModel, ReportModel),
    stmt: StmtModel,
    custom: Seq<Seq<char>>,
) -> (TiesModel, ReportModel) {
    if declaration_of(stmt.head) is Some {
        state
    } else {
        match configured_of(stmt.head) {
            None => state,
            Some((target, rest)) => {
                let own = custom.contains(target);
                if !own && !gradle_task(target) {
                    state
                } else {
                    let first = match relation_of(rest) {
                        Some((relation, arg)) => with_tie(state, target, relation, arg, stmt.head),
                        None => if own && rest.len() > 0 {
                            (
                                TiesModel {
                                    reconfigured: state.0.reconfigured.push((target, stmt.head)),
                                    ..state.0
                                },
                                state.1,
                            )
                        } else {
                            state
                        },
                    };
                    let inner = match stmt.block {
                        Some(block) => statements_of(block),
                        None => seq![],
                    };
                    inner_ties(first, target, own, stmt.head, inner, 0)
                }
            },
        }
    }
}

pub open spec fn ties_from(
    top: Seq<StmtModel>,
    custom: Seq<Seq<char>>,
    i: int,
    state: (TiesModel, ReportModel),
) -> (TiesModel, ReportModel)
    decreases top.len() - i,
{
    if i < 0 || i >= top.len() {
        state
    } else {
        ties_from(top, custom, i + 1, statement_ties(state, top[i], custom))
    }
}

fn add_tie(
    ties: &mut Ties,
    report: &mut Report,
    target: &str,
    relation: Relation,
    arg: &str,
    text: String,
)
    ensures
        (final(ties).deep_view(), final(report).deep_view()) == with_tie(
            (old(ties).deep_view(), old(report).deep_view()),
            target@,
            relation,
            arg@,
            text@,
        ),
{
    match task_refs(arg) {
        Ok(refs) => {
            put(&mut ties.ties, Tie { target: target.to_owned(), relation, refs, text });
        },
        Err(why) => {
            report.skipped(cat4("`", text.as_str(), "` — ", why.as_str()));
        },
    }
}

fn add_inner_ties(
    ties: &mut Ties,
    report: &mut Report,
    target: &str,
    custom: bool,
    head: &str,
    inner: &Vec<Stmt>,
)
    ensures
        (final(ties).deep_view(), final(report).deep_view()) == inner_ties(
            (old(ties).deep_view(), old(report).deep_view()),
            target@,
            custom,
            head@,
            inner.deep_view(),
            0,
        ),
{
    let ghost all = inner.deep_view();
    let ghost start = (ties.deep_view(), report.deep_view());
    let mut i: usize = 0;
    while i < inner.len()
        invariant
            all == inner.deep_view(),
            i <= inner@.len(),
            inner_ties(start, target@, custom, head@, all, 0) == inner_ties(
                (ties.deep_view(), report.deep_view()),
                target@,
                custom,
                head@,
                all,
                i as int,
            ),
        decreases inner@.len() - i,
    {
        assert(all[i as int] == inner@[i as int].deep_view());
        let mut tied = false;
        if inner[i].block.is_none() {
            if let Some((relation, arg)) = relation(inner[i].head.as_str()) {
                tied = true;
                let text = cat4(head, " { ", inner[i].head.as_str(), " }");
                add_tie(ties, report, target, relation, arg, text);
            }
        }
        if !tied && custom {
            put(&mut ties.reconfigured, (target.to_owned(), head.to_owned()));
        }
        i = i + 1;
    }
}

fn add_statement_ties(ties: &mut Ties, report: &mut Report, stmt: &Stmt, custom: &Vec<String>)
    ensures
        (final(ties).deep_view(), final(report).deep_view()) == statement_ties(
            (old(ties).deep_view(), old(report).deep_view()),
            stmt.deep_view(),
            custom.deep_view(),
        ),
{
    if declaration(stmt.head.as_str()).is_some() {
        return ;
    }
    let Some((target, rest)) = configured(stmt.head.as_str()) else {
        return ;
    };
    let own = listed(custom, target.as_str());
    if !own && !is_gradle_task(target.as_str()) {
        return ;
    }
    if let Some((relation, arg)) = relation(rest) {
        add_tie(ties, report, target.as_str(), relation, arg, stmt.head.clone());
    } else if own && !rest.is_empty() {
        put(&mut ties.reconfigured, (target.clone(), stmt.head.clone()));
    }
    let inner: Vec<Stmt> = match &stmt.block {
        Some(block) => statements(block.as_str()),
        None => none_of(),
    };
    add_inner_ties(ties, report, target.as_str(), own, stmt.head.as_str(), &inner);
}

/// The ties written apart from the declarations, and the `custom` tasks
/// configured again after theirs, with the statement that does it.
pub fn read_ties(top: &Vec<Stmt>, custom: &Vec<String>, report: &mut Report) -> (r: Ties)
    ensures
        (r.deep_view(), final(report).deep_view()) == ties_from(
            top.deep_view(),
            custom.deep_view(),
            0,
            (TiesModel { ties: seq![], reconfigured: seq![] }, old(report).deep_view()),
        ),
{
    let ghost all = top.deep_view();
    let mut ties = Ties { ties: none_of(), reconfigured: none_of() };
    let ghost start = (ties.deep_view(), report.deep_view());
    let mut i: usize = 0;
    while i < top.len()
        invariant
            all == top.deep_view(),
            i <= top@.len(),
            ties_from(all, custom.deep_view(), 0, start) == ties_from(
                all,
                custom.deep_view(),
                i as int,
                (ties.deep_view(), report.deep_view()),
            ),
        decreases top@.len() - i,
    {
        assert(all[i as int] == top@[i as int].deep_view());
        add_statement_ties(&mut ties, report, &top[i], custom);
        i = i + 1;
    }
    ties
}

// ---- fates -----------------------------------------------------------------

/// Where in the list, from `i` on, the task called `gradle` is.
pub open spec fn place_of(list: Seq<DeclaredModel>, gradle: Seq<char>, i: int) -> Option<int>
    decreases list.len() - i,
{
    if i < 0 || i >= list.len() {
        None
    } else if list[i].gradle == gradle {
        Some(i)
    } else {
        place_of(list, gradle, i + 1)
    }
}

proof fn lemma_place(list: Seq<DeclaredModel>, gradle: Seq<char>, i: int)
    requires
        0 <= i,
    ensures
        place_of(list, gradle, i) matches Some(k) ==> i <= k < list.len() && list[k].gradle
            == gradle,
        place_of(list, gradle, i) is None ==> forall|k: int|
            i <= k < list.len() ==> (#[trigger] list[k]).gradle != gradle,
    decreases list.len() - i,
{
    if i < list.len() && list[i].gradle != gradle {
        lemma_place(list, gradle, i + 1);
    }
}

fn find_declared(list: &Vec<Declared>, gradle: &str) -> (r: Option<usize>)
    ensures
        r is Some <==> place_of(list.deep_view(), gradle@, 0) is Some,
        r matches Some(k) ==> place_of(list.deep_view(), gradle@, 0) == Some(k as int) && k
            < list@.len(),
{
    let ghost all = list.deep_view();
    let mut i: usize = 0;
    while i < list.len()
        invariant
            all == list.deep_view(),
            i <= list@.len(),
            place_of(all, gradle@, 0) == place_of(all, gradle@, i as int),
        decreases list@.len() - i,
    {
        assert(all[i as int] == list@[i as int].deep_view());
        if same(list[i].gradle.as_str(), gradle) {
            return Some(i);
        }
        i = i + 1;
    }
    None
}

/// The fates where the task called `gradle`, if it was translated, is not.
pub open spec fn failing(fates: FatesModel, gradle: Seq<char>, why: Seq<char>) -> FatesModel {
    match place_of(fates.0, gradle, 0) {
        Some(i) => (fates.0.remove(i), fates.1.push((gradle, why))),
        None => fates,
    }
}

fn fail(
    declared: &mut Vec<Declared>,
    failed: &mut Vec<(String, String)>,
    gradle: &str,
    why: String,
)
    ensures
        (final(declared).deep_view(), final(failed).deep_view()) == failing(
            (old(declared).deep_view(), old(failed).deep_view()),
            gradle@,
            why@,
        ),
{
    let ghost before = declared.deep_view();
    if let Some(i) = find_declared(declared, gradle) {
        declared.remove(i);
        assert(declared.deep_view() =~= before.remove(i as int));
        put(failed, (gradle.to_owned(), why));
    }
}

/// The fates where the tasks from `i` on that are configured again are not
/// translated.
pub open spec fn reconfigured_from(
    list: Seq<(Seq<char>, Seq<char>)>,
    i: int,
    fates: FatesModel,
) -> FatesModel
    decreases list.len() - i,
{
    if i < 0 || i >= list.len() {
        fates
    } else {
        reconfigured_from(
            list,
            i + 1,
            failing(
                fates,
                list[i].0,
                "it is configured again at `"@ + list[i].1 + "`, which jrs does not merge"@,
            ),
        )
    }
}

fn fail_reconfigured(
    list: &Vec<(String, String)>,
    declared: &mut Vec<Declared>,
    failed: &mut Vec<(String, String)>,
)
    ensures
        (final(declared).deep_view(), final(failed).deep_view()) == reconfigured_from(
            list.deep_view(),
            0,
            (old(declared).deep_view(), old(failed).deep_view()),
        ),
{
    let ghost all = list.deep_view();
    let ghost start = (declared.deep_view(), failed.deep_view());
    let mut i: usize = 0;
    while i < list.len()
        invariant
            all == list.deep_view(),
            i <= list@.len(),
            reconfigured_from(all, 0, start) == reconfigured_from(
                all,
                i as int,
                (declared.deep_view(), failed.deep_view()),
            ),
        decreases list@.len() - i,
    {
        assert(all[i as int] == (list@[i as int].0@, list@[i as int].1@));
        let why = cat3(
            "it is configured again at `",
            list[i].1.as_str(),
            "`, which jrs does not merge",
        );
        fail(declared, failed, list[i].0.as_str(), why);
        i = i + 1;
    }
}

/// A task to hook: where, which, and what says so.
pub type HookedModel = Seq<(Hook, Seq<char>, Seq<char>)>;

/// What the ties change: the fates, the tasks to hook, and the report.
pub struct TiedModel {
    pub fates: FatesModel,
    pub hooked: HookedModel,
    pub report: ReportModel,
}

/// The tasks to hook with those of `refs` from `i` on.
pub open spec fn hook_refs(
    list: HookedModel,
    hook: Hook,
    refs: Seq<Seq<char>>,
    text: Seq<char>,
    i: int,
) -> HookedModel
    decreases refs.len() - i,
{
    if i < 0 || i >= refs.len() {
        list
    } else {
        hook_refs(list.push((hook, refs[i], text)), hook, refs, text, i + 1)
    }
}

/// The fates where the task called `gradle` depends on `refs` too.
pub open spec fn depending(fates: FatesModel, gradle: Seq<char>, refs: Seq<Seq<char>>) -> FatesModel {
    match place_of(fates.0, gradle, 0) {
        Some(i) => (
            fates.0.update(
                i,
                DeclaredModel { depends_on: fates.0[i].depends_on + refs, ..fates.0[i] },
            ),
            fates.1,
        ),
        None => fates,
    }
}

/// What one tie changes.
pub open spec fn with_tied(state: TiedModel, tie: TieModel, custom: Seq<Seq<char>>) -> TiedModel {
    if custom.contains(tie.target) {
        match tie.relation {
            Relation::DependsOn => TiedModel {
                fates: depending(state.fates, tie.target, tie.refs),
                ..state
            },
            Relation::RunsAfter => state,
            Relation::FinalizedBy => TiedModel {
                fates: failing(
                    state.fates,
                    tie.target,
                    "`"@ + tie.text + "` has no equivalent in jrs"@,
                ),
                ..state
            },
        }
    } else if tie.relation is RunsAfter {
        state
    } else {
        match hook_of(tie.target, tie.relation) {
            Some(hook) => TiedModel {
                hooked: hook_refs(state.hooked, hook, tie.refs, tie.text, 0),
                ..state
            },
            None => TiedModel {
                report: state.report.with_skipped(
                    "`"@ + tie.text + "` — jrs has no hook that runs where Gradle's `"@ + tie.target
                        + "` does; run the task with `jrs task`, or hook it by hand"@,
                ),
                ..state
            },
        }
    }
}

pub open spec fn tied_from(
    ties: Seq<TieModel>,
    custom: Seq<Seq<char>>,
    i: int,
    state: TiedModel,
) -> TiedModel
    decreases ties.len() - i,
{
    if i < 0 || i >= ties.len() {
        state
    } else {
        tied_from(ties, custom, i + 1, with_tied(state, ties[i], custom))
    }
}

fn add_dependencies(declared: &mut Vec<Declared>, gradle: &str, refs: Vec<String>)
    ensures
        forall|failed: Seq<(Seq<char>, Seq<char>)>|
            (final(declared).deep_view(), failed) == #[trigger] depending(
                (old(declared).deep_view(), failed),
                gradle@,
                refs.deep_view(),
            ),
{
    let ghost before = declared.deep_view();
    if let Some(i) = find_declared(declared, gradle) {
        let mut d = declared.remove(i);
        assert(d.deep_view() == before[i as int]);
        put_all(&mut d.depends_on, refs);
        let ghost changed = d.deep_view();
        declared.insert(i, d);
        assert(declared.deep_view() =~= before.update(i as int, changed));
    }
}

fn apply_tie(
    tie: &Tie,
    custom: &Vec<String>,
    declared: &mut Vec<Declared>,
    failed: &mut Vec<(String, String)>,
    hooked: &mut Vec<(Hook, String, String)>,
    report: &mut Report,
)
    ensures
        (TiedModel {
            fates: (final(declared).deep_view(), final(failed).deep_view()),
            hooked: final(hooked).deep_view(),
            report: final(report).deep_view(),
        }) == with_tied(
            TiedModel {
                fates: (old(declared).deep_view(), old(failed).deep_view()),
                hooked: old(hooked).deep_view(),
                report: old(report).deep_view(),
            },
            tie.deep_view(),
            custom.deep_view(),
        ),
{
    let target = tie.target.as_str();
    if listed(custom, target) {
        match tie.relation {
            Relation::DependsOn => {
                let ghost f = failed.deep_view();
                let ghost d = declared.deep_view();
                let ghost refs = tie.refs.deep_view();
                add_dependencies(declared, target, tie.refs.duplicate());
                assert((declared.deep_view(), f) == depending((d, f), target@, refs));
            },
            Relation::RunsAfter => {},
            Relation::FinalizedBy => {
                fail(
                    declared,
                    failed,
                    target,
                    cat3("`", tie.text.as_str(), "` has no equivalent in jrs"),
                );
            },
        }
        return ;
    }
    if tie.relation == Relation::RunsAfter {
        return ;
    }
    match hook_for(target, tie.relation) {
        Some(hook) => {
            let ghost all = tie.refs.deep_view();
            let ghost start = hooked.deep_view();
            let mut i: usize = 0;
            while i < tie.refs.len()
                invariant
                    all == tie.refs.deep_view(),
                    i <= tie.refs@.len(),
                    hook_refs(start, hook, all, tie.text@, 0) == hook_refs(
                        hooked.deep_view(),
                        hook,
                        all,
                        tie.text@,
                        i as int,
                    ),
                decreases tie.refs@.len() - i,
            {
                assert(all[i as int] == tie.refs@[i as int]@);
                put(hooked, (hook, tie.refs[i].clone(), tie.text.clone()));
                i = i + 1;
            }
        },
        None => {
            report.skipped(
                cat5(
                    "`",
                    tie.text.as_str(),
                    "` — jrs has no hook that runs where Gradle's `",
                    target,
                    "` does; run the task with `jrs task`, or hook it by hand",
                ),
            );
        },
    }
}

/// The first name from `i` on that is neither a built-in's nor a translated
/// task's.
pub open spec fn missing_from(
    refs: Seq<Seq<char>>,
    declared: Seq<DeclaredModel>,
    i: int,
) -> Option<Seq<char>>
    decreases refs.len() - i,
{
    if i < 0 || i >= refs.len() {
        None
    } else if builtins_of(refs[i]) is None && place_of(declared, refs[i], 0) is None {
        Some(refs[i])
    } else {
        missing_from(refs, declared, i + 1)
    }
}

fn find_missing(refs: &Vec<String>, declared: &Vec<Declared>) -> (r: Option<String>)
    ensures
        r.deep_view() == missing_from(refs.deep_view(), declared.deep_view(), 0),
{
    let ghost all = refs.deep_view();
    let mut i: usize = 0;
    while i < refs.len()
        invariant
            all == refs.deep_view(),
            i <= refs@.len(),
            missing_from(all, declared.deep_view(), 0) == missing_from(
                all,
                declared.deep_view(),
                i as int,
            ),
        decreases refs@.len() - i,
    {
        assert(all[i as int] == refs@[i as int]@);
        if builtins_for(refs[i].as_str()).is_none() && find_declared(
            declared,
            refs[i].as_str(),
        ).is_none() {
            return Some(refs[i].clone());
        }
        i = i + 1;
    }
    None
}

/// The first task from `i` on that depends on one left out, and which.
pub open spec fn orphan_from(declared: Seq<DeclaredModel>, i: int) -> Option<(Seq<char>, Seq<char>)>
    decreases declared.len() - i,
{
    if i < 0 || i >= declared.len() {
        None
    } else {
        match missing_from(declared[i].depends_on, declared, 0) {
            Some(r) => Some((declared[i].gradle, r)),
            None => orphan_from(declared, i + 1),
        }
    }
}

fn find_orphan(declared: &Vec<Declared>) -> (r: Option<(String, String)>)
    ensures
        r.deep_view() == orphan_from(declared.deep_view(), 0),
{
    let ghost all = declared.deep_view();
    let mut i: usize = 0;
    while i < declared.len()
        invariant
            all == declared.deep_view(),
            i <= declared@.len(),
            orphan_from(all, 0) == orphan_from(all, i as int),
        decreases declared@.len() - i,
    {
        assert(all[i as int] == declared@[i as int].deep_view());
        if let Some(r) = find_missing(&declared[i].depends_on, declared) {
            return Some((declared[i].gradle.clone(), r));
        }
        i = i + 1;
    }
    None
}

pub open spec fn orphan_reason(missing: Seq<char>, custom: Seq<Seq<char>>) -> Seq<char> {
    if custom.contains(missing) {
        "it depends on `"@ + missing + "`, which was not migrated"@
    } else {
        "it depends on `"@ + missing + "`, Gradle's own task, which jrs has no equivalent of"@
    }
}

pub proof fn lemma_orphan(declared: Seq<DeclaredModel>, i: int)
    requires
        0 <= i,
    ensures
        orphan_from(declared, i) matches Some((gradle, _)) ==> place_of(declared, gradle, 0)
            is Some && 0 <= place_of(declared, gradle, 0)->0 < declared.len(),
    decreases declared.len() - i,
{
    if i < declared.len() {
        if missing_from(declared[i].depends_on, declared, 0) is Some {
            lemma_place(declared, declared[i].gradle, 0);
        } else {
            lemma_orphan(declared, i + 1);
        }
    }
}

/// The fates once a task that depends on one left out is left out too, and so
/// on up.
pub open spec fn settled(fates: FatesModel, custom: Seq<Seq<char>>) -> FatesModel
    decreases fates.0.len(),
{
    match orphan_from(fates.0, 0) {
        None => fates,
        Some((gradle, missing)) => {
            proof {
                lemma_orphan(fates.0, 0);
            }
            settled(failing(fates, gradle, orphan_reason(missing, custom)), custom)
        },
    }
}

fn settle(
    declared: &mut Vec<Declared>,
    failed: &mut Vec<(String, String)>,
    custom: &Vec<String>,
)
    ensures
        (final(declared).deep_view(), final(failed).deep_view()) == settled(
            (old(declared).deep_view(), old(failed).deep_view()),
            custom.deep_view(),
        ),
{
    let ghost start = (declared.deep_view(), failed.deep_view());
    loop
        invariant
            settled(start, custom.deep_view()) == settled(
                (declared.deep_view(), failed.deep_view()),
                custom.deep_view(),
            ),
            start == (old(declared).deep_view(), old(failed).deep_view()),
        decreases declared@.len(),
    {
        proof {
            lemma_orphan(declared.deep_view(), 0);
        }
        let ghost before = declared.deep_view();
        match find_orphan(declared) {
            None => {
                return ;
            },
            Some((gradle, missing)) => {
                let why = if listed(custom, missing.as_str()) {
                    cat3("it depends on `", missing.as_str(), "`, which was not migrated")
                } else {
                    cat3(
                        "it depends on `",
                        missing.as_str(),
                        "`, Gradle's own task, which jrs has no equivalent of",
                    )
                };
                fail(declared, failed, gradle.as_str(), why);
                assert(declared.deep_view().len() < before.len());
            },
        }
    }
}

proof fn lemma_orphan_none(declared: Seq<DeclaredModel>, i: int, k: int)
    requires
        0 <= i <= k < declared.len(),
        orphan_from(declared, i) is None,
    ensures
        missing_from(declared[k].depends_on, declared, 0) is None,
    decreases k - i,
{
    if i < k {
        lemma_orphan_none(declared, i + 1, k);
    }
}

proof fn lemma_missing_none(
    refs: Seq<Seq<char>>,
    declared: Seq<DeclaredModel>,
    i: int,
    k: int,
)
    requires
        0 <= i <= k < refs.len(),
        missing_from(refs, declared, i) is None,
    ensures
        builtins_of(refs[k]) is Some || place_of(declared, refs[k], 0) is Some,
    decreases k - i,
{
    if i < k {
        lemma_missing_none(refs, declared, i + 1, k);
    }
}

/// A task that is kept depends only on tasks that are kept and on the
/// built-ins: no task outlives one that it needs.
pub proof fn kept_tasks_have_what_they_need(
    fates: FatesModel,
    custom: Seq<Seq<char>>,
    i: int,
    k: int,
)
    requires
        0 <= i < settled(fates, custom).0.len(),
        0 <= k < settled(fates, custom).0[i].depends_on.len(),
    ensures
        ({
            let kept = settled(fates, custom).0;
            let needed = kept[i].depends_on[k];
            builtins_of(needed) is Some || exists|j: int|
                0 <= j < kept.len() && (#[trigger] kept[j]).gradle == needed
        }),
    decreases fates.0.len(),
{
    match orphan_from(fates.0, 0) {
        None => {
            lemma_orphan_none(fates.0, 0, i);
            lemma_missing_none(fates.0[i].depends_on, fates.0, 0, k);
            lemma_place(fates.0, fates.0[i].depends_on[k], 0);
        },
        Some((gradle, missing)) => {
            lemma_orphan(fates.0, 0);
            kept_tasks_have_what_they_need(
                failing(fates, gradle, orphan_reason(missing, custom)),
                custom,
                i,
                k,
            );
        },
    }
}

/// The report with the reason for each of the first `n` tasks left out.
pub open spec fn failures_reported(
    failed: Seq<(Seq<char>, Seq<char>)>,
    n: int,
    report: ReportModel,
) -> ReportModel
    decreases n,
{
    if n <= 0 {
        report
    } else {
        failures_reported(failed, n - 1, report).with_skipped(
            "task `"@ + failed[n - 1].0 + "` — "@ + failed[n - 1].1,
        )
    }
}

fn report_failures(failed: &Vec<(String, String)>, report: &mut Report)
    ensures
        final(report).deep_view() == failures_reported(
            failed.deep_view(),
            failed@.len() as int,
            old(report).deep_view(),
        ),
{
    let ghost all = failed.deep_view();
    let ghost start = report.deep_view();
    let mut i: usize = 0;
    while i < failed.len()
        invariant
            all == failed.deep_view(),
            start == old(report).deep_view(),
            i <= failed@.len(),
            report.deep_view() == failures_reported(all, i as int, start),
        decreases failed@.len() - i,
    {
        assert(all[i as int] == (failed@[i as int].0@, failed@[i as int].1@));
        report.skipped(cat4("task `", failed[i].0.as_str(), "` — ", failed[i].1.as_str()));
        i = i + 1;
    }
}

// ---- links -----------------------------------------------------------------

/// The references with one more, unless it is there already.
pub open spec fn with_ref(refs: Seq<TaskRefModel>, r: TaskRefModel) -> Seq<TaskRefModel> {
    if refs.contains(r) {
        refs
    } else {
        refs.push(r)
    }
}

pub open spec fn with_builtins(refs: Seq<TaskRefModel>, list: Seq<Builtin>, i: int) -> Seq<
    TaskRefModel,
>
    decreases list.len() - i,
{
    if i < 0 || i >= list.len() {
        refs
    } else {
        with_builtins(with_ref(refs, TaskRefModel::Builtin(list[i])), list, i + 1)
    }
}

/// The references with what the Gradle name `r` becomes.
pub open spec fn with_resolved(
    refs: Seq<TaskRefModel>,
    declared: Seq<DeclaredModel>,
    r: Seq<char>,
) -> Seq<TaskRefModel> {
    match place_of(declared, r, 0) {
        Some(i) => with_ref(refs, TaskRefModel::Task(declared[i].def.name)),
        None => match builtins_of(r) {
            Some(list) => with_builtins(refs, list, 0),
            None => refs,
        },
    }
}

pub open spec fn with_all_resolved(
    refs: Seq<TaskRefModel>,
    declared: Seq<DeclaredModel>,
    names: Seq<Seq<char>>,
    i: int,
) -> Seq<TaskRefModel>
    decreases names.len() - i,
{
    if i < 0 || i >= names.len() {
        refs
    } else {
        with_all_resolved(with_resolved(refs, declared, names[i]), declared, names, i + 1)
    }
}

/// The built-ins as references.
pub open spec fn builtin_refs(list: Seq<Builtin>) -> Seq<TaskRefModel> {
    Seq::new(list.len(), |i: int| TaskRefModel::Builtin(list[i]))
}

/// What the task depends on, as jrs names it.
pub open spec fn links(declared: Seq<DeclaredModel>, d: DeclaredModel) -> Seq<TaskRefModel> {
    with_all_resolved(builtin_refs(d.implied), declared, d.depends_on, 0)
}

fn add_ref(refs: &mut Vec<TaskRef>, r: TaskRef)
    ensures
        final(refs).deep_view() == with_ref(old(refs).deep_view(), r.deep_view()),
{
    if !refers(refs, &r) {
        put(refs, r);
    }
}

fn add_resolved(refs: &mut Vec<TaskRef>, declared: &Vec<Declared>, r: &str)
    ensures
        final(refs).deep_view() == with_resolved(old(refs).deep_view(), declared.deep_view(), r@),
{
    if let Some(i) = find_declared(declared, r) {
        assert(declared.deep_view()[i as int] == declared@[i as int].deep_view());
        add_ref(refs, TaskRef::Task(declared[i].def.name.clone()));
        return ;
    }
    if let Some(list) = builtins_for(r) {
        let ghost all = list.deep_view();
        let ghost start = refs.deep_view();
        let mut i: usize = 0;
        while i < list.len()
            invariant
                all == list.deep_view(),
                i <= list@.len(),
                with_builtins(start, all, 0) == with_builtins(refs.deep_view(), all, i as int),
            decreases list@.len() - i,
        {
            assert(all[i as int] == list@[i as int]);
            add_ref(refs, TaskRef::Builtin(list[i]));
            i = i + 1;
        }
    }
}

fn link(declared: &Vec<Declared>, d: &Declared) -> (r: Vec<TaskRef>)
    ensures
        r.deep_view() == links(declared.deep_view(), d.deep_view()),
{
    let ghost implied = d.implied.deep_view();
    let mut refs: Vec<TaskRef> = none_of();
    let mut i: usize = 0;
    while i < d.implied.len()
        invariant
            implied == d.implied.deep_view(),
            i <= d.implied@.len(),
            refs.deep_view() =~= builtin_refs(implied).take(i as int),
        decreases d.implied@.len() - i,
    {
        assert(implied[i as int] == d.implied@[i as int]);
        put(&mut refs, TaskRef::Builtin(d.implied[i]));
        i = i + 1;
    }
    assert(builtin_refs(implied).take(i as int) =~= builtin_refs(implied));
    let ghost names = d.depends_on.deep_view();
    let ghost start = refs.deep_view();
    let mut k: usize = 0;
    while k < d.depends_on.len()
        invariant
            names == d.depends_on.deep_view(),
            k <= d.depends_on@.len(),
            with_all_resolved(start, declared.deep_view(), names, 0) == with_all_resolved(
                refs.deep_view(),
                declared.deep_view(),
                names,
                k as int,
            ),
        decreases d.depends_on@.len() - k,
    {
        assert(names[k as int] == d.depends_on@[k as int]@);
        add_resolved(&mut refs, declared, d.depends_on[k].as_str());
        k = k + 1;
    }
    refs
}

/// The report with the first `n` notes to look at.
pub open spec fn notes_reported(notes: Seq<Seq<char>>, n: int, report: ReportModel) -> ReportModel
    decreases n,
{
    if n <= 0 {
        report
    } else {
        notes_reported(notes, n - 1, report).with_review(notes[n - 1])
    }
}

fn report_notes(notes: &Vec<String>, report: &mut Report)
    ensures
        final(report).deep_view() == notes_reported(
            notes.deep_view(),
            notes@.len() as int,
            old(report).deep_view(),
        ),
{
    let ghost all = notes.deep_view();
    let ghost start = report.deep_view();
    let mut i: usize = 0;
    while i < notes.len()
        invariant
            all == notes.deep_view(),
            start == old(report).deep_view(),
            i <= notes@.len(),
            report.deep_view() == notes_reported(all, i as int, start),
        decreases notes@.len() - i,
    {
        assert(all[i as int] == notes@[i as int]@);
        report.review(notes[i].clone());
        i = i + 1;
    }
}

/// The report with the task's migration.
pub open spec fn migration_reported(d: DeclaredModel, report: ReportModel) -> ReportModel {
    notes_reported(
        d.review,
        d.review.len() as int,
        report.with_migrated(
            "task `"@ + d.gradle + "` → [tasks."@ + d.def.name + "] ("@ + d.kind + ")"@,
        ),
    )
}

/// The tasks from `i` on with what they depend on, and the report of their
/// migration, after those before.
pub open spec fn linked_from(
    declared: Seq<DeclaredModel>,
    i: int,
    out: Seq<DeclaredModel>,
    report: ReportModel,
) -> (Seq<DeclaredModel>, ReportModel)
    decreases declared.len() - i,
{
    if i < 0 || i >= declared.len() {
        (out, report)
    } else {
        let d = declared[i];
        linked_from(
            declared,
            i + 1,
            out.push(
                DeclaredModel {
                    def: TaskModel { depends_on: links(declared, d), ..d.def },
                    ..d
                },
            ),
            migration_reported(d, report),
        )
    }
}

/// Turn each task's Gradle `dependsOn` names into jrs references, now that
/// every task's fate is known, and report it migrated.
pub fn link_depends_on(declared: &mut Vec<Declared>, report: &mut Report)
    ensures
        (final(declared).deep_view(), final(report).deep_view()) == linked_from(
            old(declared).deep_view(),
            0,
            seq![],
            old(report).deep_view(),
        ),
{
    let ghost all = declared.deep_view();
    let ghost start = report.deep_view();
    let mut refs: Vec<Vec<TaskRef>> = Vec::new();
    let mut k: usize = 0;
    while k < declared.len()
        invariant
            all == declared.deep_view(),
            k <= declared@.len(),
            refs@.len() == k,
            forall|j: int|
                0 <= j < k ==> (#[trigger] refs@[j]).deep_view() == links(all, all[j]),
        decreases declared@.len() - k,
    {
        assert(all[k as int] == declared@[k as int].deep_view());
        let r = link(declared, &declared[k]);
        refs.push(r);
        k = k + 1;
    }
    let mut out: Vec<Declared> = none_of();
    let mut i: usize = 0;
    let n: usize = declared.len();
    assert(all.skip(0) =~= all);
    while i < n
        invariant
            n == all.len(),
            i <= n,
            refs@.len() == n - i,
            declared.deep_view() == all.skip(i as int),
            forall|j: int|
                0 <= j < refs@.len() ==> (#[trigger] refs@[j]).deep_view() == links(
                    all,
                    all[i + j],
                ),
            linked_from(all, 0, seq![], start) == linked_from(
                all,
                i as int,
                out.deep_view(),
                report.deep_view(),
            ),
        decreases n - i,
    {
        assert(declared.deep_view().len() == n - i);
        assert(declared.deep_view()[0] == declared@[0].deep_view());
        let ghost rest = declared.deep_view();
        let mut d = declared.remove(0);
        assert(declared.deep_view() =~= rest.skip(1));
        assert(rest.skip(1) =~= all.skip(i + 1));
        assert(d.deep_view() == all[i as int]);
        let ghost head = refs@[0].deep_view();
        let ghost before = refs@;
        let r = refs.remove(0);
        assert forall|j: int| 0 <= j < refs@.len() implies (#[trigger] refs@[j]).deep_view()
            == links(all, all[i + 1 + j]) by {
            assert(refs@[j] == before[j + 1]);
        }
        report.migrated(
            cat7(
                "task `",
                d.gradle.as_str(),
                "` → [tasks.",
                d.def.name.as_str(),
                "] (",
                d.kind.as_str(),
                ")",
            ),
        );
        report_notes(&d.review, report);
        d.def.depends_on = r;
        put(&mut out, d);
        i = i + 1;
    }
    *declared = out;
}

// ---- hooks -----------------------------------------------------------------

/// The first `n` references without the commands that fire `hook`.
pub open spec fn kept_refs(refs: Seq<TaskRefModel>, hook: Hook, n: int) -> Seq<TaskRefModel>
    decreases n,
{
    if n <= 0 {
        seq![]
    } else {
        let before = kept_refs(refs, hook, n - 1);
        match refs[n - 1] {
            TaskRefModel::Builtin(b) => if b.fires().contains(hook) {
                before
            } else {
                before.push(refs[n - 1])
            },
            TaskRefModel::Task(_) => before.push(refs[n - 1]),
        }
    }
}

fn keep_refs(refs: &Vec<TaskRef>, hook: Hook) -> (r: Vec<TaskRef>)
    ensures
        r.deep_view() == kept_refs(refs.deep_view(), hook, refs@.len() as int),
{
    let ghost all = refs.deep_view();
    let mut out: Vec<TaskRef> = none_of();
    let mut i: usize = 0;
    while i < refs.len()
        invariant
            all == refs.deep_view(),
            i <= refs@.len(),
            out.deep_view() == kept_refs(all, hook, i as int),
        decreases refs@.len() - i,
    {
        assert(all[i as int] == refs@[i as int].deep_view());
        let keep = match &refs[i] {
            TaskRef::Builtin(b) => !b.reaches(hook),
            TaskRef::Task(_) => true,
        };
        if keep {
            put(&mut out, refs[i].duplicate());
        }
        i = i + 1;
    }
    out
}

/// What hooking changes: the tasks, the hooks and the report.
pub struct HookingModel {
    pub declared: Seq<DeclaredModel>,
    pub hooks: HookLists,
    pub report: ReportModel,
}

/// What hooking the task `d`, the `i`th, changes.
///
/// `jar.finalizedBy checksum`, with `checksum.dependsOn jar`: the hook already
/// runs it after the jar, and keeping the dependency too would be a cycle
/// through `package`.
pub open spec fn with_hooked_task(state: HookingModel, i: int, hook: Hook, text: Seq<char>) -> HookingModel {
    let d = state.declared[i];
    let name = d.def.name;
    let kept = kept_refs(d.def.depends_on, hook, d.def.depends_on.len() as int);
    let shorter = kept.len() != d.def.depends_on.len();
    if shorter && d.def.action is None && kept.len() == 0 {
        HookingModel {
            report: state.report.with_skipped(
                "`"@ + text + "` — [tasks."@ + name
                    + "] only depends on the command that fires hooks."@ + hook.word()
                    + ", so hooking it there would do nothing"@,
            ),
            ..state
        }
    } else {
        let declared = if shorter {
            state.declared.update(
                i,
                DeclaredModel { def: TaskModel { depends_on: kept, ..d.def }, ..d },
            )
        } else {
            state.declared
        };
        let report = if shorter {
            state.report.with_review(
                "[tasks."@ + name + "] — no longer depends on the command hooks."@ + hook.word()
                    + " follows; the hook runs it after that command, but `jrs task "@ + name
                    + "` alone does not run the command first"@,
            )
        } else {
            state.report
        };
        let report = if hook is PostTest {
            report.with_review(
                "hooks.post-test runs [tasks."@ + name
                    + "] only when the tests pass; Gradle's `finalizedBy` runs it either way"@,
            )
        } else {
            report
        };
        HookingModel {
            declared,
            hooks: hooked(state.hooks, hook, name),
            report: report.with_migrated(
                "`"@ + text + "` → hooks."@ + hook.word() + " = [\""@ + name + "\"]"@,
            ),
        }
    }
}

/// What one task to hook changes.
pub open spec fn with_hooked(
    state: HookingModel,
    item: (Hook, Seq<char>, Seq<char>),
    custom: Seq<Seq<char>>,
) -> HookingModel {
    let (hook, gradle, text) = item;
    match place_of(state.declared, gradle, 0) {
        None => {
            let why = if custom.contains(gradle) {
                "`"@ + gradle + "` was not migrated"@
            } else {
                "`"@ + gradle + "` is Gradle's own task, and a jrs hook runs only tasks"@
            };
            HookingModel {
                report: state.report.with_skipped("`"@ + text + "` — "@ + why),
                ..state
            }
        },
        Some(i) => with_hooked_task(state, i, hook, text),
    }
}

pub open spec fn hooking_from(
    list: HookedModel,
    custom: Seq<Seq<char>>,
    i: int,
    state: HookingModel,
) -> HookingModel
    decreases list.len() - i,
{
    if i < 0 || i >= list.len() {
        state
    } else {
        hooking_from(list, custom, i + 1, with_hooked(state, list[i], custom))
    }
}

fn hook_task(
    declared: &mut Vec<Declared>,
    i: usize,
    hook: Hook,
    text: &str,
    hooks: &mut Hooks,
    report: &mut Report,
)
    requires
        i < old(declared)@.len(),
    ensures
        (HookingModel {
            declared: final(declared).deep_view(),
            hooks: final(hooks).deep_view(),
            report: final(report).deep_view(),
        }) == with_hooked_task(
            HookingModel {
                declared: old(declared).deep_view(),
                hooks: old(hooks).deep_view(),
                report: old(report).deep_view(),
            },
            i as int,
            hook,
            text@,
        ),
{
    let ghost all = declared.deep_view();
    assert(all[i as int] == declared@[i as int].deep_view());
    let name = declared[i].def.name.clone();
    let kept = keep_refs(&declared[i].def.depends_on, hook);
    let shorter = kept.len() != declared[i].def.depends_on.len();
    if shorter {
        if declared[i].def.action.is_none() && kept.len() == 0 {
            report.skipped(
                cat7(
                    "`",
                    text,
                    "` — [tasks.",
                    name.as_str(),
                    "] only depends on the command that fires hooks.",
                    hook.name(),
                    ", so hooking it there would do nothing",
                ),
            );
            return ;
        }
        let mut d = declared.remove(i);
        d.def.depends_on = kept;
        let ghost changed = d.deep_view();
        declared.insert(i, d);
        assert(declared.deep_view() =~= all.update(i as int, changed));
        report.review(
            cat7(
                "[tasks.",
                name.as_str(),
                "] — no longer depends on the command hooks.",
                hook.name(),
                " follows; the hook runs it after that command, but `jrs task ",
                name.as_str(),
                "` alone does not run the command first",
            ),
        );
    }
    if hook == Hook::PostTest {
        report.review(
            cat3(
                "hooks.post-test runs [tasks.",
                name.as_str(),
                "] only when the tests pass; Gradle's `finalizedBy` runs it either way",
            ),
        );
    }
    hooks.add(hook, name.as_str());
    report.migrated(
        cat7("`", text, "` → hooks.", hook.name(), " = [\"", name.as_str(), "\"]"),
    );
}

/// Add the `hooked` tasks to the hooks, reporting those that were not
/// migrated or would do nothing there.
pub fn apply_hooks(
    declared: &mut Vec<Declared>,
    list: &Vec<(Hook, String, String)>,
    custom: &Vec<String>,
    hooks: &mut Hooks,
    report: &mut Report,
)
    ensures
        (HookingModel {
            declared: final(declared).deep_view(),
            hooks: final(hooks).deep_view(),
            report: final(report).deep_view(),
        }) == hooking_from(
            list.deep_view(),
            custom.deep_view(),
            0,
            HookingModel {
                declared: old(declared).deep_view(),
                hooks: old(hooks).deep_view(),
                report: old(report).deep_view(),
            },
        ),
{
    let ghost all = list.deep_view();
    let ghost start = HookingModel {
        declared: declared.deep_view(),
        hooks: hooks.deep_view(),
        report: report.deep_view(),
    };
    let mut i: usize = 0;
    while i < list.len()
        invariant
            all == list.deep_view(),
            i <= list@.len(),
            hooking_from(all, custom.deep_view(), 0, start) == hooking_from(
                all,
                custom.deep_view(),
                i as int,
                HookingModel {
                    declared: declared.deep_view(),
                    hooks: hooks.deep_view(),
                    report: report.deep_view(),
                },
            ),
        decreases list@.len() - i,
    {
        let (hook, gradle, text) = &list[i];
        assert(all[i as int] == (*hook, gradle@, text@));
        match find_declared(declared, gradle.as_str()) {
            None => {
                let why = if listed(custom, gradle.as_str()) {
                    cat3("`", gradle.as_str(), "` was not migrated")
                } else {
                    cat3(
                        "`",
                        gradle.as_str(),
                        "` is Gradle's own task, and a jrs hook runs only tasks",
                    )
                };
                report.skipped(cat4("`", text.as_str(), "` — ", why.as_str()));
            },
            Some(k) => {
                hook_task(declared, k, *hook, text.as_str(), hooks, report);
            },
        }
        i = i + 1;
    }
}

// ---- tying it together -----------------------------------------------------

/// The Gradle names of the tasks that the script declares.
pub open spec fn own_names(fates: FatesModel) -> Seq<Seq<char>> {
    Seq::new(fates.0.len(), |i: int| fates.0[i].gradle) + Seq::new(
        fates.1.len(),
        |i: int| fates.1[i].0,
    )
}

fn list_own_names(declared: &Vec<Declared>, failed: &Vec<(String, String)>) -> (r: Vec<String>)
    ensures
        r.deep_view() == own_names((declared.deep_view(), failed.deep_view())),
{
    let ghost a = Seq::new(declared@.len(), |i: int| declared.deep_view()[i].gradle);
    let ghost b = Seq::new(failed@.len(), |i: int| failed.deep_view()[i].0);
    let mut out: Vec<String> = none_of();
    let mut i: usize = 0;
    while i < declared.len()
        invariant
            a == Seq::new(declared@.len(), |i: int| declared.deep_view()[i].gradle),
            i <= declared@.len(),
            out.deep_view() =~= a.take(i as int),
        decreases declared@.len() - i,
    {
        assert(declared.deep_view()[i as int] == declared@[i as int].deep_view());
        put(&mut out, declared[i].gradle.clone());
        i = i + 1;
    }
    assert(a.take(i as int) =~= a);
    let mut k: usize = 0;
    while k < failed.len()
        invariant
            b == Seq::new(failed@.len(), |i: int| failed.deep_view()[i].0),
            k <= failed@.len(),
            out.deep_view() =~= a + b.take(k as int),
        decreases failed@.len() - k,
    {
        assert(failed.deep_view()[k as int].0 == failed@[k as int].0@);
        put(&mut out, failed[k].0.clone());
        k = k + 1;
    }
    assert(b.take(k as int) =~= b);
    assert(out.deep_view() =~= own_names((declared.deep_view(), failed.deep_view())));
    out
}

/// The definitions of the tasks.
pub open spec fn definitions(declared: Seq<DeclaredModel>) -> Seq<TaskModel> {
    Seq::new(declared.len(), |i: int| declared[i].def)
}

fn take_definitions(declared: Vec<Declared>) -> (r: Vec<TaskDef>)
    ensures
        r.deep_view() == definitions(declared.deep_view()),
{
    let ghost all = declared.deep_view();
    let mut out: Vec<TaskDef> = none_of();
    for d in it: declared
        invariant
            it.seq() == declared@,
            all == declared.deep_view(),
            out.deep_view() =~= definitions(all).take(it.index() as int),
    {
        assert(all[it.index() as int] == d.deep_view());
        put(&mut out, d.def);
    }
    assert(definitions(all).take(declared@.len() as int) =~= definitions(all));
    out
}

/// The tasks, the hooks and the report without what a check of them refuses:
/// the hooks, where they are refused, then the tasks.
pub open spec fn kept_loadable(tasks: Seq<TaskModel>, hooks: HookLists, told: ReportModel) -> (
    Seq<TaskModel>,
    HookLists,
    ReportModel,
) {
    match tasks_fault(tasks, hooks) {
        None => (tasks, hooks, told),
        Some(e) => {
            let told = told.with_skipped(
                "[hooks] — "@ + e.text() + "; left out, so hook the tasks by hand"@,
            );
            match tasks_fault(tasks, seq![]) {
                None => (tasks, seq![], told),
                Some(e) => (
                    seq![],
                    seq![],
                    told.with_skipped("[tasks] — "@ + e.text() + "; left out"@),
                ),
            }
        },
    }
}

/// Leave out what a check of the manifest's tasks and hooks as a whole refuses:
/// the hooks, and where that is not enough the tasks.
pub fn keep_loadable(out: &mut Manifest, report: &mut Report)
    ensures
        ({
            let (tasks, hooks, told) = kept_loadable(
                old(out).deep_view().tasks,
                old(out).deep_view().hooks,
                old(report).deep_view(),
            );
            &&& final(out).deep_view() == (ManifestModel { tasks, hooks, ..old(out).deep_view() })
            &&& final(report).deep_view() == told
            &&& tasks_fault(final(out).deep_view().tasks, final(out).deep_view().hooks) is None
        }),
{
    proof {
        what_is_kept_passes_the_check(
            out.deep_view().tasks,
            out.deep_view().hooks,
            report.deep_view(),
        );
    }
    if let Err(e) = check_tasks(out) {
        report.skipped(
            cat3("[hooks] — ", e.to_text().as_str(), "; left out, so hook the tasks by hand"),
        );
        out.hooks = Hooks::default();
        if let Err(e) = check_tasks(out) {
            report.skipped(cat3("[tasks] — ", e.to_text().as_str(), "; left out"));
            out.tasks = none_of();
        }
    }
}

/// The tasks and hooks that are kept name no task that is not there, and none
/// of the tasks waits for itself.
pub proof fn what_is_kept_passes_the_check(tasks: Seq<TaskModel>, hooks: HookLists, told: ReportModel)
    ensures
        ({
            let (kept, left, _) = kept_loadable(tasks, hooks, told);
            tasks_fault(kept, left) is None
        }),
{
    assert(tasks_fault(seq![], seq![]) is None);
}

/// The tasks and the hooks that a script becomes, and the report of it.
pub open spec fn tasks_read(script: Seq<char>, hooks: HookLists, report: ReportModel) -> (
    Seq<TaskModel>,
    HookLists,
    ReportModel,
) {
    let top = statements_of(script);
    let fates = declarations_from(top, 0, (seq![], seq![]));
    let custom = own_names(fates);
    let (ties, report) = ties_from(
        top,
        custom,
        0,
        (TiesModel { ties: seq![], reconfigured: seq![] }, report),
    );
    let tied = tied_from(
        ties.ties,
        custom,
        0,
        TiedModel {
            fates: reconfigured_from(ties.reconfigured, 0, fates),
            hooked: seq![],
            report,
        },
    );
    let fates = settled(tied.fates, custom);
    let report = failures_reported(fates.1, fates.1.len() as int, tied.report);
    let (declared, report) = linked_from(fates.0, 0, seq![], report);
    let done = hooking_from(tied.hooked, custom, 0, HookingModel { declared, hooks, report });
    kept_loadable(definitions(done.declared), done.hooks, done.report)
}

/// Translate the script's tasks into `out.tasks` and `out.hooks`, reporting
/// every task and every tie that could not be. Every task is one that a
/// manifest can declare.
pub fn read(script: &str, out: &mut Manifest, report: &mut Report)
    ensures
        ({
            let (tasks, hooks, told) = tasks_read(
                script@,
                old(out).deep_view().hooks,
                old(report).deep_view(),
            );
            &&& final(out).deep_view() == (ManifestModel { tasks, hooks, ..old(out).deep_view() })
            &&& final(report).deep_view() == told
            &&& tasks_fault(tasks, hooks) is None
            &&& tasks_apart(tasks)
            &&& forall|i: int| 0 <= i < tasks.len() ==> loads(#[trigger] tasks[i])
            &&& good_hooks(old(out).deep_view().hooks) ==> good_hooks(hooks)
        }),
{
    proof {
        migrated_tasks_load(script@, out.deep_view().hooks, report.deep_view());
    }
    let top = statements(script);
    let (mut declared, mut failed) = read_declarations(&top);
    let custom = list_own_names(&declared, &failed);
    let ties = read_ties(&top, &custom, report);
    fail_reconfigured(&ties.reconfigured, &mut declared, &mut failed);
    let mut hooked: Vec<(Hook, String, String)> = none_of();
    let ghost all = ties.ties.deep_view();
    let ghost start = TiedModel {
        fates: (declared.deep_view(), failed.deep_view()),
        hooked: hooked.deep_view(),
        report: report.deep_view(),
    };
    let mut i: usize = 0;
    while i < ties.ties.len()
        invariant
            all == ties.ties.deep_view(),
            i <= ties.ties@.len(),
            tied_from(all, custom.deep_view(), 0, start) == tied_from(
                all,
                custom.deep_view(),
                i as int,
                TiedModel {
                    fates: (declared.deep_view(), failed.deep_view()),
                    hooked: hooked.deep_view(),
                    report: report.deep_view(),
                },
            ),
        decreases ties.ties@.len() - i,
    {
        assert(all[i as int] == ties.ties@[i as int].deep_view());
        apply_tie(&ties.ties[i], &custom, &mut declared, &mut failed, &mut hooked, report);
        i = i + 1;
    }
    settle(&mut declared, &mut failed, &custom);
    report_failures(&failed, report);
    link_depends_on(&mut declared, report);
    apply_hooks(&mut declared, &hooked, &custom, &mut out.hooks, report);
    out.tasks = take_definitions(declared);
    keep_loadable(out, report);
}

} // verus!
