//! Generated code in a Gradle build: where it goes, what makes it, and the
//! Gradle tasks jrs hands back to Gradle.
//!
//! A build that generates code says so in three places: a task that writes it
//! (a plugin's, such as the `OpenAPI` Generator's `openApiGenerate`, or one of
//! the build's own), a `dependsOn` from the compile task on that task, and a
//! `sourceSets { main { kotlin { srcDir(...) } } }` entry that compiles what it
//! wrote. The first becomes a `pre-compile` task, the second its hook, and the
//! third its `source-outputs` or `resource-outputs`.
//!
//! A task of the build's own that is Gradle code (`doLast { }`) cannot be
//! translated at all; when the build has the Gradle wrapper, the tasks the
//! compile needs are run by it instead, all in one `./gradlew` call, so the
//! build still works while they wait to be rewritten.

use crate::reach::{reached, reached_from};
use crate::debug::{debug, debug_form};
use crate::gradle_lex::{
    bracket, bracketed, split_top, statements, statements_of, top_parts, Stmt, StmtModel,
};
use crate::gradle_paths::{
    below_build, compact, compacted, joined_lines, joined_statements, path_at, path_template,
    template, under_build, vals_of, Paths,
};
use crate::manifest::{Manifest, ManifestModel};
use crate::report::{Report, ReportModel};
use crate::task::{once_more, Action, ActionModel, Hook, TaskDef, TaskModel};
use crate::template::{literal_template, Template, TemplateModel};
use crate::text::{
    after_prefix, before_suffix, cat2, cat3, cat5, cat7, drop_run, join, joined, left, listed,
    none_of, put, same, sans_tail, starts, starts_with, strip_prefix, strip_suffix, trim,
    trim_start, trimmed, Class, Duplicate,
};
use vstd::prelude::*;

verus! {

// ---- tasks left to Gradle --------------------------------------------------

/// The name of the task that runs Gradle.
pub open spec fn bridge_name(taken: Seq<Seq<char>>) -> Seq<char> {
    if !taken.contains("gradle"@) {
        "gradle"@
    } else if !taken.contains("gradle-tasks"@) {
        "gradle-tasks"@
    } else if !taken.contains("run-gradle"@) {
        "run-gradle"@
    } else {
        "gradle-bridge"@
    }
}

/// The name of the task that runs Gradle, unless the build has a task of that
/// name already.
pub fn delegate_name(taken: &Vec<String>) -> (r: String)
    ensures
        r@ == bridge_name(taken.deep_view()),
{
    if !listed(taken, "gradle") {
        "gradle".to_owned()
    } else if !listed(taken, "gradle-tasks") {
        "gradle-tasks".to_owned()
    } else if !listed(taken, "run-gradle") {
        "run-gradle".to_owned()
    } else {
        "gradle-bridge".to_owned()
    }
}

/// The arguments of a call.
pub open spec fn call_args(e: Seq<char>, prefix: Seq<char>) -> Option<Seq<char>> {
    match after_prefix(e, prefix) {
        Some(rest) => before_suffix(rest, ")"@),
        None => None,
    }
}

/// The paths that the arguments from `i` on name, after those before.
pub open spec fn paths_from(
    args: Seq<Seq<char>>,
    i: int,
    vals: Seq<(Seq<char>, Seq<char>)>,
    out: Seq<Seq<char>>,
) -> Seq<Seq<char>>
    decreases args.len() - i,
{
    if i < 0 || i >= args.len() {
        out
    } else {
        match path_at(vals, args[i], 0) {
            Some(p) => paths_from(args, i + 1, vals, out.push(p)),
            None => paths_from(args, i + 1, vals, out),
        }
    }
}

/// The paths, with those that `e` names where it is a call of `prefix`.
pub open spec fn with_call(
    out: Seq<Seq<char>>,
    e: Seq<char>,
    prefix: Seq<char>,
    vals: Seq<(Seq<char>, Seq<char>)>,
) -> Seq<Seq<char>> {
    match call_args(e, prefix) {
        Some(args) => paths_from(top_parts(args, ','), 0, vals, out),
        None => out,
    }
}

fn add_call(out: &mut Vec<String>, e: &str, prefix: &str, paths: &Paths)
    ensures
        final(out).deep_view() == with_call(old(out).deep_view(), e@, prefix@, paths.deep_view()),
{
    let Some(rest) = strip_prefix(e, prefix) else {
        return ;
    };
    let Some(args) = strip_suffix(rest, ")") else {
        return ;
    };
    let parts = split_top(args, ',');
    let ghost all = parts.deep_view();
    let ghost start = out.deep_view();
    let mut i: usize = 0;
    while i < parts.len()
        invariant
            all == parts.deep_view(),
            i <= parts@.len(),
            paths_from(all, 0, paths.deep_view(), start) == paths_from(
                all,
                i as int,
                paths.deep_view(),
                out.deep_view(),
            ),
        decreases parts@.len() - i,
    {
        assert(all[i as int] == parts@[i as int]@);
        if let Some(p) = paths.path(parts[i]) {
            put(out, p);
        }
        i = i + 1;
    }
}

/// What the statements from `i` on say a task takes in and writes, after what
/// those before say.
pub open spec fn files_from(
    statements: Seq<Seq<char>>,
    i: int,
    vals: Seq<(Seq<char>, Seq<char>)>,
    inputs: Seq<Seq<char>>,
    outputs: Seq<Seq<char>>,
) -> (Seq<Seq<char>>, Seq<Seq<char>>)
    decreases statements.len() - i,
{
    if i < 0 || i >= statements.len() {
        (inputs, outputs)
    } else {
        let e = compacted(statements[i]);
        files_from(
            statements,
            i + 1,
            vals,
            with_call(
                with_call(with_call(inputs, e, "inputs.file("@, vals), e, "inputs.dir("@, vals),
                e,
                "inputs.files("@,
                vals,
            ),
            with_call(
                with_call(with_call(outputs, e, "outputs.file("@, vals), e, "outputs.dir("@, vals),
                e,
                "outputs.files("@,
                vals,
            ),
        )
    }
}

/// `inputs.file(...)`, `inputs.dir(...)`, `outputs.file(...)` and
/// `outputs.dir(...)` in a task's body, as paths — the ones jrs can work out.
pub fn declared_files(block: &str, paths: &Paths) -> (r: (Vec<String>, Vec<String>))
    ensures
        r.deep_view() == files_from(joined_lines(block@), 0, paths.deep_view(), seq![], seq![]),
{
    let statements = joined_statements(block);
    let ghost all = statements.deep_view();
    let mut inputs: Vec<String> = none_of();
    let mut outputs: Vec<String> = none_of();
    let mut i: usize = 0;
    while i < statements.len()
        invariant
            all == statements.deep_view(),
            i <= statements@.len(),
            files_from(all, 0, paths.deep_view(), seq![], seq![]) == files_from(
                all,
                i as int,
                paths.deep_view(),
                inputs.deep_view(),
                outputs.deep_view(),
            ),
        decreases statements@.len() - i,
    {
        assert(all[i as int] == statements@[i as int]@);
        let text = compact(statements[i].as_str());
        let e = text.as_str();
        add_call(&mut inputs, e, "inputs.file(", paths);
        add_call(&mut inputs, e, "inputs.dir(", paths);
        add_call(&mut inputs, e, "inputs.files(", paths);
        add_call(&mut outputs, e, "outputs.file(", paths);
        add_call(&mut outputs, e, "outputs.dir(", paths);
        add_call(&mut outputs, e, "outputs.files(", paths);
        i = i + 1;
    }
    (inputs, outputs)
}

/// The list, with each of `more` from the `i`th on that is not there yet.
pub open spec fn with_each(list: Seq<Seq<char>>, more: Seq<Seq<char>>, i: int) -> Seq<Seq<char>>
    decreases more.len() - i,
{
    if i < 0 || i >= more.len() {
        list
    } else {
        with_each(once_more(list, more[i]), more, i + 1)
    }
}

pub fn add_each(list: &mut Vec<String>, more: &Vec<String>)
    ensures
        final(list).deep_view() == with_each(old(list).deep_view(), more.deep_view(), 0),
{
    let ghost all = more.deep_view();
    let ghost start = list.deep_view();
    let mut i: usize = 0;
    while i < more.len()
        invariant
            all == more.deep_view(),
            i <= more@.len(),
            with_each(start, all, 0) == with_each(list.deep_view(), all, i as int),
        decreases more@.len() - i,
    {
        assert(all[i as int] == more@[i as int]@);
        if !listed(list, more[i].as_str()) {
            put(list, more[i].clone());
        }
        i = i + 1;
    }
}

/// What the tasks to run take in and write, and whether each of them says so.
pub struct TouchedModel {
    pub inputs: Seq<Seq<char>>,
    pub outputs: Seq<Seq<char>>,
    pub every_task_says: bool,
}

/// What the blocks from `i` on say, after what those before say.
pub open spec fn touched_from(
    blocks: Seq<Option<Seq<char>>>,
    i: int,
    vals: Seq<(Seq<char>, Seq<char>)>,
    t: TouchedModel,
) -> TouchedModel
    decreases blocks.len() - i,
{
    if i < 0 || i >= blocks.len() {
        t
    } else {
        let (ins, outs) = match blocks[i] {
            Some(b) => files_from(joined_lines(b), 0, vals_of(b) + vals, seq![], seq![]),
            None => (seq![], seq![]),
        };
        touched_from(
            blocks,
            i + 1,
            vals,
            TouchedModel {
                inputs: with_each(t.inputs, ins, 0),
                outputs: with_each(t.outputs, outs, 0),
                every_task_says: t.every_task_says && ins.len() > 0 && outs.len() > 0,
            },
        )
    }
}

pub open spec fn path_templates(paths: Seq<Seq<char>>) -> Seq<TemplateModel> {
    Seq::new(paths.len(), |i: int| path_template(paths[i]))
}

fn templates(paths: &Vec<String>) -> (r: Vec<Template>)
    ensures
        r.deep_view() == path_templates(paths.deep_view()),
{
    let ghost all = paths.deep_view();
    let mut out: Vec<Template> = none_of();
    let mut i: usize = 0;
    while i < paths.len()
        invariant
            all == paths.deep_view(),
            i <= paths@.len(),
            out.deep_view() =~= path_templates(all).take(i as int),
        decreases paths@.len() - i,
    {
        put(&mut out, template(paths[i].as_str()));
        i = i + 1;
    }
    assert(path_templates(all).take(i as int) =~= path_templates(all));
    out
}

/// The names as they are.
pub open spec fn literal_templates(names: Seq<Seq<char>>) -> Seq<TemplateModel> {
    Seq::new(names.len(), |i: int| literal_template(names[i]))
}

/// The call of the Gradle wrapper that runs `gradle` tasks.
pub open spec fn gradle_call(gradle: Seq<Seq<char>>) -> Seq<TemplateModel> {
    seq![literal_template("./gradlew"@), literal_template("--quiet"@)] + literal_templates(gradle)
}

fn call_gradle(gradle: &Vec<String>) -> (r: Vec<Template>)
    ensures
        r.deep_view() == gradle_call(gradle.deep_view()),
{
    let ghost all = gradle.deep_view();
    let ghost first = seq![literal_template("./gradlew"@), literal_template("--quiet"@)];
    let mut argv: Vec<Template> = none_of();
    put(&mut argv, Template::literal("./gradlew"));
    put(&mut argv, Template::literal("--quiet"));
    assert(argv.deep_view() =~= first + literal_templates(all).take(0));
    let mut i: usize = 0;
    while i < gradle.len()
        invariant
            all == gradle.deep_view(),
            i <= gradle@.len(),
            argv.deep_view() =~= first + literal_templates(all).take(i as int),
        decreases gradle@.len() - i,
    {
        put(&mut argv, Template::literal(gradle[i].as_str()));
        i = i + 1;
    }
    assert(literal_templates(all).take(i as int) =~= literal_templates(all));
    argv
}

/// A task that runs `gradle` tasks with the project's Gradle wrapper.
pub open spec fn delegated(
    name: Seq<char>,
    gradle: Seq<Seq<char>>,
    blocks: Seq<Option<Seq<char>>>,
    vals: Seq<(Seq<char>, Seq<char>)>,
    build_files: Seq<Seq<char>>,
) -> TaskModel {
    let t = touched_from(
        blocks,
        0,
        vals,
        TouchedModel { inputs: build_files, outputs: seq![], every_task_says: true },
    );
    TaskModel {
        name,
        description: Some(
            "Run the Gradle tasks jrs cannot translate: "@ + joined(gradle, ", "@),
        ),
        action: Some(ActionModel::Run(gradle_call(gradle))),
        args: seq![],
        depends_on: seq![],
        env: seq![],
        cwd: None,
        inputs: if t.every_task_says {
            path_templates(t.inputs)
        } else {
            seq![]
        },
        outputs: if t.every_task_says {
            path_templates(t.outputs)
        } else {
            seq![]
        },
        source_outputs: seq![],
        resource_outputs: seq![],
        dependencies: seq![],
    }
}

/// A task that runs `gradle` tasks with the project's Gradle wrapper, in one
/// call. `blocks` are their bodies, read for what they take in and write,
/// so the task is fresh while neither changed; the build files are inputs
/// too, since they are the tasks' code.
pub fn delegate(
    name: &str,
    gradle: &Vec<String>,
    blocks: &Vec<Option<String>>,
    paths: &Paths,
    build_files: &Vec<String>,
) -> (r: TaskDef)
    ensures
        r.deep_view() == delegated(
            name@,
            gradle.deep_view(),
            blocks.deep_view(),
            paths.deep_view(),
            build_files.deep_view(),
        ),
{
    let mut inputs: Vec<String> = build_files.duplicate();
    let mut outputs: Vec<String> = none_of();
    let mut every_task_says = true;
    let ghost all = blocks.deep_view();
    let ghost start = TouchedModel {
        inputs: build_files.deep_view(),
        outputs: seq![],
        every_task_says: true,
    };
    let mut i: usize = 0;
    while i < blocks.len()
        invariant
            all == blocks.deep_view(),
            i <= blocks@.len(),
            touched_from(all, 0, paths.deep_view(), start) == touched_from(
                all,
                i as int,
                paths.deep_view(),
                TouchedModel {
                    inputs: inputs.deep_view(),
                    outputs: outputs.deep_view(),
                    every_task_says,
                },
            ),
        decreases blocks@.len() - i,
    {
        assert(all[i as int] == blocks@[i as int].deep_view());
        let (task_inputs, task_outputs) = match &blocks[i] {
            Some(b) => declared_files(b.as_str(), &paths.within(b.as_str())),
            None => (none_of(), none_of()),
        };
        every_task_says = every_task_says && task_inputs.len() > 0 && task_outputs.len() > 0;
        add_each(&mut inputs, &task_inputs);
        add_each(&mut outputs, &task_outputs);
        i = i + 1;
    }
    // One task that does not say what it reads or writes runs every time in
    // Gradle too; so does the whole call here.
    let (inputs, outputs) = if every_task_says {
        (templates(&inputs), templates(&outputs))
    } else {
        (none_of(), none_of())
    };
    TaskDef {
        name: name.to_owned(),
        description: Some(
            cat2("Run the Gradle tasks jrs cannot translate: ", join(gradle, ", ").as_str()),
        ),
        action: Some(Action::Run(call_gradle(gradle))),
        args: none_of(),
        depends_on: none_of(),
        env: none_of(),
        cwd: None,
        inputs,
        outputs,
        source_outputs: none_of(),
        resource_outputs: none_of(),
        dependencies: none_of(),
    }
}

/// The task runs Gradle.
pub open spec fn calls_gradle(t: TaskModel) -> bool {
    t.action matches Some(ActionModel::Run(argv)) && argv.len() > 0 && argv[0].raw == "./gradlew"@
}

/// Whether a task runs Gradle: the one [`delegate`] writes.
pub fn runs_gradle(task: &TaskDef) -> (r: bool)
    ensures
        r == calls_gradle(task.deep_view()),
{
    match &task.action {
        Some(Action::Run(argv)) => if argv.len() > 0 {
            assert(argv.deep_view()[0] == argv@[0].deep_view());
            same(argv[0].raw.as_str(), "./gradlew")
        } else {
            false
        },
        _ => false,
    }
}

/// A task that hands tasks back to Gradle is one that runs Gradle.
pub proof fn delegated_tasks_run_gradle(
    name: Seq<char>,
    gradle: Seq<Seq<char>>,
    blocks: Seq<Option<Seq<char>>>,
    vals: Seq<(Seq<char>, Seq<char>)>,
    build_files: Seq<Seq<char>>,
)
    ensures
        calls_gradle(delegated(name, gradle, blocks, vals, build_files)),
{
    reveal_strlit("./gradlew");
    crate::template::plain_text_is_not_escaped("./gradlew"@);
}

// ---- source sets -----------------------------------------------------------

/// One of two directories holds the other, or they are the same.
pub open spec fn meets(o: Seq<char>, d: Seq<char>) -> bool {
    let a = sans_tail(o, Class::One('/'));
    let b = sans_tail(d, Class::One('/'));
    b == a || starts(b, a + "/"@) || starts(a, b + "/"@)
}

fn do_meet(o: &str, d: &str) -> (r: bool)
    ensures
        r == meets(o@, d@),
{
    let a = drop_run(o, Class::One('/'));
    let b = drop_run(d, Class::One('/'));
    same(b, a) || starts_with(b, cat2(a, "/").as_str()) || starts_with(a, cat2(b, "/").as_str())
}

/// The task says that it writes into the directory.
pub open spec fn writes(t: TaskModel, dir: Seq<char>) -> bool {
    exists|i: int| 0 <= i < t.outputs.len() && meets((#[trigger] t.outputs[i]).raw, dir)
}

fn does_write(t: &TaskDef, dir: &str) -> (r: bool)
    ensures
        r == writes(t.deep_view(), dir@),
{
    let ghost all = t.deep_view().outputs;
    let mut i: usize = 0;
    while i < t.outputs.len()
        invariant
            all == t.outputs.deep_view(),
            i <= t.outputs@.len(),
            forall|j: int| 0 <= j < i ==> !meets((#[trigger] all[j]).raw, dir@),
        decreases t.outputs@.len() - i,
    {
        assert(all[i as int] == t.outputs@[i as int].deep_view());
        if do_meet(t.outputs[i].raw.as_str(), dir) {
            assert(meets(t.deep_view().outputs[i as int].raw, dir@));
            return true;
        }
        i = i + 1;
    }
    false
}

/// The place of the first of the named tasks, from the `i`th on, that says
/// that it writes into the directory.
pub open spec fn writer_from(
    tasks: Seq<TaskModel>,
    names: Seq<Seq<char>>,
    dir: Seq<char>,
    i: int,
) -> Option<int>
    decreases tasks.len() - i,
{
    if i < 0 || i >= tasks.len() {
        None
    } else if names.contains(tasks[i].name) && writes(tasks[i], dir) {
        Some(i)
    } else {
        writer_from(tasks, names, dir, i + 1)
    }
}

/// The place of the first of the named tasks, from the `i`th on, that runs
/// Gradle and says nothing of its outputs.
pub open spec fn silent_from(tasks: Seq<TaskModel>, names: Seq<Seq<char>>, i: int) -> Option<int>
    decreases tasks.len() - i,
{
    if i < 0 || i >= tasks.len() {
        None
    } else if names.contains(tasks[i].name) && tasks[i].outputs.len() == 0 && calls_gradle(
        tasks[i],
    ) {
        Some(i)
    } else {
        silent_from(tasks, names, i + 1)
    }
}

/// The place of the task that writes the directory before the compile.
pub open spec fn owner_of(tasks: Seq<TaskModel>, names: Seq<Seq<char>>, dir: Seq<char>) -> Option<
    int,
> {
    match writer_from(tasks, names, dir, 0) {
        Some(i) => Some(i),
        None => silent_from(tasks, names, 0),
    }
}

fn find_owner(tasks: &Vec<TaskDef>, names: &Vec<String>, dir: &str) -> (r: Option<usize>)
    ensures
        r is Some <==> owner_of(tasks.deep_view(), names.deep_view(), dir@) is Some,
        r matches Some(i) ==> i < tasks@.len() && owner_of(
            tasks.deep_view(),
            names.deep_view(),
            dir@,
        ) == Some(i as int),
{
    let ghost all = tasks.deep_view();
    let mut i: usize = 0;
    while i < tasks.len()
        invariant
            all == tasks.deep_view(),
            i <= tasks@.len(),
            writer_from(all, names.deep_view(), dir@, 0) == writer_from(
                all,
                names.deep_view(),
                dir@,
                i as int,
            ),
        decreases tasks@.len() - i,
    {
        assert(all[i as int] == tasks@[i as int].deep_view());
        if listed(names, tasks[i].name.as_str()) && does_write(&tasks[i], dir) {
            return Some(i);
        }
        i = i + 1;
    }
    // A task that says nothing of its outputs, run by Gradle: what it writes
    // is Gradle's to know.
    let mut k: usize = 0;
    while k < tasks.len()
        invariant
            all == tasks.deep_view(),
            k <= tasks@.len(),
            writer_from(all, names.deep_view(), dir@, 0) is None,
            silent_from(all, names.deep_view(), 0) == silent_from(
                all,
                names.deep_view(),
                k as int,
            ),
        decreases tasks@.len() - k,
    {
        assert(all[k as int] == tasks@[k as int].deep_view());
        if listed(names, tasks[k].name.as_str()) && tasks[k].outputs.len() == 0 && runs_gradle(
            &tasks[k],
        ) {
            return Some(k);
        }
        k = k + 1;
    }
    None
}

/// The list with the directory, which is not in it twice.
pub open spec fn with_dir(list: Seq<TemplateModel>, dir: TemplateModel) -> Seq<TemplateModel> {
    if list.contains(dir) {
        list
    } else {
        list.push(dir)
    }
}

fn add_dir(list: &mut Vec<Template>, dir: &Template)
    ensures
        final(list).deep_view() == with_dir(old(list).deep_view(), dir.deep_view()),
{
    let ghost all = list.deep_view();
    let mut i: usize = 0;
    while i < list.len()
        invariant
            list == old(list),
            all == list.deep_view(),
            i <= list@.len(),
            forall|j: int| 0 <= j < i ==> all[j] != dir.deep_view(),
        decreases list@.len() - i,
    {
        assert(all[i as int] == list@[i as int].deep_view());
        if list[i].is(dir) {
            assert(all.contains(dir.deep_view()));
            return ;
        }
        i = i + 1;
    }
    put(list, dir.duplicate());
}

/// A directory of sources that a project has anyway.
pub open spec fn own_sources(path: Seq<char>) -> bool {
    path == "src/main/java"@ || path == "src/main/kotlin"@ || path == "src/main/resources"@ || path
        == "src/main/groovy"@ || path == "src/main/scala"@
}

/// The key of a task's generated directories.
pub open spec fn outputs_key(resources: bool) -> Seq<char> {
    if resources {
        "resource-outputs"@
    } else {
        "source-outputs"@
    }
}

/// The task with the directory among those it generates.
pub open spec fn generating(t: TaskModel, resources: bool, dir: TemplateModel) -> TaskModel {
    if resources {
        TaskModel { resource_outputs: with_dir(t.resource_outputs, dir), ..t }
    } else {
        TaskModel { source_outputs: with_dir(t.source_outputs, dir), ..t }
    }
}

/// The tasks and the report once one `srcDir(...)` is read, and whether it was
/// accounted for.
pub open spec fn source_dir_of(
    arg: Seq<char>,
    resources: bool,
    vals: Seq<(Seq<char>, Seq<char>)>,
    m: ManifestModel,
    told: ReportModel,
) -> (ManifestModel, ReportModel, bool) {
    match path_at(vals, arg, 0) {
        None => (
            m,
            told.with_skipped(
                "`sourceSets.main { srcDir("@ + arg
                    + ") }` — not a path jrs can work out without running Gradle"@,
            ),
            false,
        ),
        Some(path) => if !below_build(path) {
            if own_sources(path) {
                (m, told, true)
            } else {
                (
                    m,
                    told.with_skipped(
                        "`sourceSets.main { srcDir("@ + arg + ") }` — "@ + path
                            + " is a second source root, which jrs does not have; move its files, or point project.source-dir at it"@,
                    ),
                    false,
                )
            }
        } else {
            let dir = path_template(path);
            match owner_of(m.tasks, reached(m, Hook::PreCompile), dir.raw) {
                None => (
                    m,
                    told.with_skipped(
                        "`sourceSets.main { srcDir("@ + arg
                            + ") }` — nothing the build runs before the compile writes "@ + path,
                    ),
                    false,
                ),
                Some(i) => (
                    ManifestModel {
                        tasks: m.tasks.update(i, generating(m.tasks[i], resources, dir)),
                        ..m
                    },
                    told.with_migrated(
                        "`sourceSets.main { srcDir("@ + arg + ") }` → [tasks."@ + m.tasks[i].name
                            + "] "@ + outputs_key(resources) + (" = "@ + debug_form(dir.raw)),
                    ),
                    true,
                ),
            }
        },
    }
}

/// One `srcDir(...)` of the main source set: a generated one goes to the
/// task that writes it. Returns whether it was accounted for.
fn source_dir(
    arg: &str,
    resources: bool,
    paths: &Paths,
    out: &mut Manifest,
    report: &mut Report,
) -> (r: bool)
    ensures
        (final(out).deep_view(), final(report).deep_view(), r) == source_dir_of(
            arg@,
            resources,
            paths.deep_view(),
            old(out).deep_view(),
            old(report).deep_view(),
        ),
{
    let Some(path) = paths.path(arg) else {
        report.skipped(
            cat3(
                "`sourceSets.main { srcDir(",
                arg,
                ") }` — not a path jrs can work out without running Gradle",
            ),
        );
        return false;
    };
    let p = path.as_str();
    if !under_build(p) {
        if same(p, "src/main/java") || same(p, "src/main/kotlin") || same(p, "src/main/resources")
            || same(p, "src/main/groovy") || same(p, "src/main/scala") {
            return true;
        }
        report.skipped(
            cat5(
                "`sourceSets.main { srcDir(",
                arg,
                ") }` — ",
                p,
                " is a second source root, which jrs does not have; move its files, or point project.source-dir at it",
            ),
        );
        return false;
    }
    let dir = template(p);
    let generators = reached_from(out, Hook::PreCompile);
    let Some(owner) = find_owner(&out.tasks, &generators, dir.raw.as_str()) else {
        report.skipped(
            crate::text::cat4(
                "`sourceSets.main { srcDir(",
                arg,
                ") }` — nothing the build runs before the compile writes ",
                p,
            ),
        );
        return false;
    };
    let ghost before = out.tasks.deep_view();
    let mut task = out.tasks.remove(owner);
    assert(task.deep_view() == before[owner as int]);
    let key = if resources {
        add_dir(&mut task.resource_outputs, &dir);
        "resource-outputs"
    } else {
        add_dir(&mut task.source_outputs, &dir);
        "source-outputs"
    };
    report.migrated(
        cat7(
            "`sourceSets.main { srcDir(",
            arg,
            ") }` → [tasks.",
            task.name.as_str(),
            "] ",
            key,
            cat2(" = ", debug(dir.raw.as_str()).as_str()).as_str(),
        ),
    );
    let ghost changed = task.deep_view();
    out.tasks.insert(owner, task);
    assert(out.tasks.deep_view() =~= before.update(owner as int, changed));
    true
}

/// What reading the source sets has come to.
pub struct SetsModel {
    pub m: ManifestModel,
    pub told: ReportModel,
    pub all_read: bool,
    pub any: bool,
}

impl SetsModel {
    /// With something that is not read.
    pub open spec fn unread(self) -> SetsModel {
        SetsModel { all_read: false, ..self }
    }
}

/// The block's text, where there is one.
pub open spec fn block_text(s: StmtModel) -> Seq<char> {
    match s.block {
        Some(b) => b,
        None => ""@,
    }
}

fn text_of(s: &Stmt) -> (r: &str)
    ensures
        r@ == block_text(s.deep_view()),
{
    match &s.block {
        Some(b) => b.as_str(),
        None => "",
    }
}

/// Once the arguments from `i` on are read.
pub open spec fn args_from(
    args: Seq<Seq<char>>,
    i: int,
    resources: bool,
    vals: Seq<(Seq<char>, Seq<char>)>,
    s: SetsModel,
) -> SetsModel
    decreases args.len() - i,
{
    if i < 0 || i >= args.len() {
        s
    } else {
        let (m, told, ok) = source_dir_of(trimmed(args[i]), resources, vals, s.m, s.told);
        args_from(
            args,
            i + 1,
            resources,
            vals,
            SetsModel { m, told, all_read: s.all_read && ok, any: true },
        )
    }
}

/// The arguments of `srcDir(...)` or `srcDirs(...)`.
pub open spec fn src_dir_args(head: Seq<char>) -> Option<Seq<char>> {
    let rest = match after_prefix(head, "srcDirs"@) {
        Some(r) => Some(r),
        None => after_prefix(head, "srcDir"@),
    };
    match rest {
        None => None,
        Some(r) => match bracket(left(r)) {
            Some((inner, _)) => Some(inner),
            None => None,
        },
    }
}

fn find_src_dir_args(head: &str) -> (r: Option<&str>)
    ensures
        r.deep_view() == src_dir_args(head@),
{
    let rest = match strip_prefix(head, "srcDirs") {
        Some(r) => Some(r),
        None => strip_prefix(head, "srcDir"),
    };
    match rest {
        None => None,
        Some(r) => match bracketed(trim_start(r)) {
            Some((inner, _)) => Some(inner),
            None => None,
        },
    }
}

/// Once the directories from `i` on are read.
pub open spec fn dirs_from(
    dirs: Seq<Seq<char>>,
    i: int,
    resources: bool,
    vals: Seq<(Seq<char>, Seq<char>)>,
    s: SetsModel,
) -> SetsModel
    decreases dirs.len() - i,
{
    if i < 0 || i >= dirs.len() {
        s
    } else {
        let next = match src_dir_args(trimmed(dirs[i])) {
            None => s.unread(),
            Some(args) => args_from(top_parts(args, ','), 0, resources, vals, s),
        };
        dirs_from(dirs, i + 1, resources, vals, next)
    }
}

/// Once the parts of the main source set from `i` on are read.
pub open spec fn parts_from(
    parts: Seq<StmtModel>,
    i: int,
    vals: Seq<(Seq<char>, Seq<char>)>,
    s: SetsModel,
) -> SetsModel
    decreases parts.len() - i,
{
    if i < 0 || i >= parts.len() {
        s
    } else {
        let head = trimmed(parts[i].head);
        let dirs = joined_lines(block_text(parts[i]));
        let next = if head == "java"@ || head == "kotlin"@ {
            dirs_from(dirs, 0, false, vals, s)
        } else if head == "resources"@ {
            dirs_from(dirs, 0, true, vals, s)
        } else {
            s.unread()
        };
        parts_from(parts, i + 1, vals, next)
    }
}

/// Once the source sets from `i` on are read.
pub open spec fn sets_from(
    sets: Seq<StmtModel>,
    i: int,
    vals: Seq<(Seq<char>, Seq<char>)>,
    s: SetsModel,
) -> SetsModel
    decreases sets.len() - i,
{
    if i < 0 || i >= sets.len() {
        s
    } else {
        let head = trimmed(sets[i].head);
        let next = if head == "main"@ {
            parts_from(statements_of(block_text(sets[i])), 0, vals, s)
        } else if head == "test"@ && sets[i].block is None {
            s
        } else {
            s.unread()
        };
        sets_from(sets, i + 1, vals, next)
    }
}

/// Once the statements of the script from `i` on are read.
pub open spec fn source_sets_from(
    top: Seq<StmtModel>,
    i: int,
    vals: Seq<(Seq<char>, Seq<char>)>,
    s: SetsModel,
) -> SetsModel
    decreases top.len() - i,
{
    if i < 0 || i >= top.len() {
        s
    } else if trimmed(top[i].head) == "sourceSets"@ {
        source_sets_from(
            top,
            i + 1,
            vals,
            sets_from(statements_of(block_text(top[i])), 0, vals, s),
        )
    } else {
        source_sets_from(top, i + 1, vals, s)
    }
}

/// What the source sets of a script come to.
pub open spec fn source_sets(
    script: Seq<char>,
    vals: Seq<(Seq<char>, Seq<char>)>,
    m: ManifestModel,
    told: ReportModel,
) -> SetsModel {
    source_sets_from(
        statements_of(script),
        0,
        vals,
        SetsModel { m, told, all_read: true, any: false },
    )
}

/// What was read, and whether all of it could be.
struct Progress {
    all_read: bool,
    any: bool,
}

spec fn at_now(p: Progress, m: ManifestModel, told: ReportModel) -> SetsModel {
    SetsModel { m, told, all_read: p.all_read, any: p.any }
}

fn read_args(
    args: &str,
    resources: bool,
    paths: &Paths,
    out: &mut Manifest,
    report: &mut Report,
    p: &mut Progress,
)
    ensures
        at_now(*final(p), final(out).deep_view(), final(report).deep_view()) == args_from(
            top_parts(args@, ','),
            0,
            resources,
            paths.deep_view(),
            at_now(*old(p), old(out).deep_view(), old(report).deep_view()),
        ),
{
    let list = split_top(args, ',');
    let ghost all = list.deep_view();
    let ghost vals = paths.deep_view();
    let ghost start = at_now(*p, out.deep_view(), report.deep_view());
    let mut i: usize = 0;
    while i < list.len()
        invariant
            all == list.deep_view(),
            vals == paths.deep_view(),
            i <= list@.len(),
            args_from(all, 0, resources, vals, start) == args_from(
                all,
                i as int,
                resources,
                vals,
                at_now(*p, out.deep_view(), report.deep_view()),
            ),
        decreases list@.len() - i,
    {
        assert(all[i as int] == list@[i as int]@);
        let ok = source_dir(trim(list[i]), resources, paths, out, report);
        p.any = true;
        p.all_read = p.all_read && ok;
        i = i + 1;
    }
}

fn read_dirs(
    block: &str,
    resources: bool,
    paths: &Paths,
    out: &mut Manifest,
    report: &mut Report,
    p: &mut Progress,
)
    ensures
        at_now(*final(p), final(out).deep_view(), final(report).deep_view()) == dirs_from(
            joined_lines(block@),
            0,
            resources,
            paths.deep_view(),
            at_now(*old(p), old(out).deep_view(), old(report).deep_view()),
        ),
{
    let list = joined_statements(block);
    let ghost all = list.deep_view();
    let ghost vals = paths.deep_view();
    let ghost start = at_now(*p, out.deep_view(), report.deep_view());
    let mut i: usize = 0;
    while i < list.len()
        invariant
            all == list.deep_view(),
            vals == paths.deep_view(),
            i <= list@.len(),
            dirs_from(all, 0, resources, vals, start) == dirs_from(
                all,
                i as int,
                resources,
                vals,
                at_now(*p, out.deep_view(), report.deep_view()),
            ),
        decreases list@.len() - i,
    {
        assert(all[i as int] == list@[i as int]@);
        match find_src_dir_args(trim(list[i].as_str())) {
            None => {
                p.all_read = false;
            },
            Some(args) => {
                read_args(args, resources, paths, out, report, p);
            },
        }
        i = i + 1;
    }
}

fn read_parts(
    block: &str,
    paths: &Paths,
    out: &mut Manifest,
    report: &mut Report,
    p: &mut Progress,
)
    ensures
        at_now(*final(p), final(out).deep_view(), final(report).deep_view()) == parts_from(
            statements_of(block@),
            0,
            paths.deep_view(),
            at_now(*old(p), old(out).deep_view(), old(report).deep_view()),
        ),
{
    let list = statements(block);
    let ghost all = list.deep_view();
    let ghost vals = paths.deep_view();
    let ghost start = at_now(*p, out.deep_view(), report.deep_view());
    let mut i: usize = 0;
    while i < list.len()
        invariant
            all == list.deep_view(),
            vals == paths.deep_view(),
            i <= list@.len(),
            parts_from(all, 0, vals, start) == parts_from(
                all,
                i as int,
                vals,
                at_now(*p, out.deep_view(), report.deep_view()),
            ),
        decreases list@.len() - i,
    {
        assert(all[i as int] == list@[i as int].deep_view());
        let head = trim(list[i].head.as_str());
        if same(head, "java") || same(head, "kotlin") {
            read_dirs(text_of(&list[i]), false, paths, out, report, p);
        } else if same(head, "resources") {
            read_dirs(text_of(&list[i]), true, paths, out, report, p);
        } else {
            p.all_read = false;
        }
        i = i + 1;
    }
}

fn read_sets(
    block: &str,
    paths: &Paths,
    out: &mut Manifest,
    report: &mut Report,
    p: &mut Progress,
)
    ensures
        at_now(*final(p), final(out).deep_view(), final(report).deep_view()) == sets_from(
            statements_of(block@),
            0,
            paths.deep_view(),
            at_now(*old(p), old(out).deep_view(), old(report).deep_view()),
        ),
{
    let list = statements(block);
    let ghost all = list.deep_view();
    let ghost vals = paths.deep_view();
    let ghost start = at_now(*p, out.deep_view(), report.deep_view());
    let mut i: usize = 0;
    while i < list.len()
        invariant
            all == list.deep_view(),
            vals == paths.deep_view(),
            i <= list@.len(),
            sets_from(all, 0, vals, start) == sets_from(
                all,
                i as int,
                vals,
                at_now(*p, out.deep_view(), report.deep_view()),
            ),
        decreases list@.len() - i,
    {
        assert(all[i as int] == list@[i as int].deep_view());
        let head = trim(list[i].head.as_str());
        if same(head, "main") {
            read_parts(text_of(&list[i]), paths, out, report, p);
        } else if !(same(head, "test") && list[i].block.is_none()) {
            // Another source set is a test suite's, or jrs has no place for
            // it.
            p.all_read = false;
        }
        i = i + 1;
    }
}

/// `sourceSets { main { java/kotlin/resources { srcDir(...) } } }`: the
/// generated directories each compiles, handed to the task that writes them
/// as its `source-outputs` or `resource-outputs`. Returns whether every
/// directory there was accounted for, so that `sourceSets { }` need not be
/// reported.
pub fn read_source_sets(script: &str, paths: &Paths, out: &mut Manifest, report: &mut Report) -> (r:
    bool)
    ensures
        ({
            let s = source_sets(
                script@,
                paths.deep_view(),
                old(out).deep_view(),
                old(report).deep_view(),
            );
            &&& final(out).deep_view() == s.m
            &&& final(report).deep_view() == s.told
            &&& r == (s.any && s.all_read)
        }),
{
    let list = statements(script);
    let mut p = Progress { all_read: true, any: false };
    let ghost all = list.deep_view();
    let ghost vals = paths.deep_view();
    let ghost start = at_now(p, out.deep_view(), report.deep_view());
    let mut i: usize = 0;
    while i < list.len()
        invariant
            all == list.deep_view(),
            vals == paths.deep_view(),
            i <= list@.len(),
            source_sets_from(all, 0, vals, start) == source_sets_from(
                all,
                i as int,
                vals,
                at_now(p, out.deep_view(), report.deep_view()),
            ),
        decreases list@.len() - i,
    {
        assert(all[i as int] == list@[i as int].deep_view());
        if same(trim(list[i].head.as_str()), "sourceSets") {
            read_sets(text_of(&list[i]), paths, out, report, &mut p);
        }
        i = i + 1;
    }
    p.any && p.all_read
}

} // verus!
