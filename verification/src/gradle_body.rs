//! The bodies of Gradle tasks, and the commands they become.

use crate::gradle_decl::{
    dashed_name, is_main_runtime_classpath, main_runtime_classpath, references_of, relation,
    relation_of, string, string_of_rest, strings, strings_of, task_name, task_refs, Header,
    HeaderModel, Relation,
};
use crate::gradle_lex::{
    argument, argument_of, bare, identifier, statements, statements_of, unwrap, word, Stmt,
    StmtModel,
};
use crate::task::{Action, ActionModel, Builtin, TaskDef, TaskModel};
use crate::template::{
    literal_template, Placeholder, Segment, SegmentModel, Template, TemplateModel,
};
use crate::text::{
    capital, cat3, cat5, contains, has_char, head, includes, none_of, one_of, outcome, put, put_all,
    same, sans_head, sans_suffix, skip_run, starts, starts_with, take_run, to_capital, trim,
    trimmed, within, without_suffix, Class, Duplicate,
};
use vstd::prelude::*;

verus! {

/// What a task's block sets, before its type decides what that means.
pub struct Body {
    pub description: Option<String>,
    pub depends_on: Vec<String>,
    pub command_line: Vec<String>,
    pub executable: Option<String>,
    pub args: Vec<String>,
    pub jvm_args: Vec<String>,
    pub main_class: Option<String>,
    /// `classpath = sourceSets.main.runtimeClasspath`.
    pub main_classpath: bool,
    pub working_dir: Option<String>,
    pub env: Vec<(String, String)>,
    pub inputs: Vec<String>,
    pub outputs: Vec<String>,
    /// `inputs` / `outputs` lines jrs could not read.
    pub unread_io: Vec<String>,
}

/// What a task's block sets.
pub struct BodyModel {
    pub description: Option<Seq<char>>,
    pub depends_on: Seq<Seq<char>>,
    pub command_line: Seq<Seq<char>>,
    pub executable: Option<Seq<char>>,
    pub args: Seq<Seq<char>>,
    pub jvm_args: Seq<Seq<char>>,
    pub main_class: Option<Seq<char>>,
    pub main_classpath: bool,
    pub working_dir: Option<Seq<char>>,
    pub env: Seq<(Seq<char>, Seq<char>)>,
    pub inputs: Seq<Seq<char>>,
    pub outputs: Seq<Seq<char>>,
    pub unread_io: Seq<Seq<char>>,
}

impl DeepView for Body {
    type V = BodyModel;

    open spec fn deep_view(&self) -> BodyModel {
        BodyModel {
            description: self.description.deep_view(),
            depends_on: self.depends_on.deep_view(),
            command_line: self.command_line.deep_view(),
            executable: self.executable.deep_view(),
            args: self.args.deep_view(),
            jvm_args: self.jvm_args.deep_view(),
            main_class: self.main_class.deep_view(),
            main_classpath: self.main_classpath,
            working_dir: self.working_dir.deep_view(),
            env: self.env.deep_view(),
            inputs: self.inputs.deep_view(),
            outputs: self.outputs.deep_view(),
            unread_io: self.unread_io.deep_view(),
        }
    }
}

/// What a task's declaration sets before its block.
pub open spec fn declared_body(header: HeaderModel) -> BodyModel {
    BodyModel {
        description: header.description,
        depends_on: header.depends_on,
        command_line: seq![],
        executable: None,
        args: seq![],
        jvm_args: seq![],
        main_class: None,
        main_classpath: false,
        working_dir: None,
        env: seq![],
        inputs: seq![],
        outputs: seq![],
        unread_io: seq![],
    }
}

// ---- reading a body --------------------------------------------------------

/// The directory that a Gradle task runs in unless it says otherwise.
pub open spec fn project_dir(dir: Seq<char>) -> bool {
    dir == "projectDir"@ || dir == "rootDir"@ || dir == "project.projectDir"@ || dir
        == "project.rootDir"@
}

pub fn is_project_dir(dir: &str) -> (r: bool)
    ensures
        r == project_dir(dir@),
{
    same(dir, "projectDir") || same(dir, "rootDir") || same(dir, "project.projectDir") || same(
        dir,
        "project.rootDir",
    )
}

/// The first `n` variables that are not called `name`.
pub open spec fn other_pairs(env: Seq<(Seq<char>, Seq<char>)>, name: Seq<char>, n: int) -> Seq<
    (Seq<char>, Seq<char>),
>
    decreases n,
{
    if n <= 0 {
        seq![]
    } else {
        let before = other_pairs(env, name, n - 1);
        if env[n - 1].0 == name {
            before
        } else {
            before.push(env[n - 1])
        }
    }
}

/// The variables with `name` set: one set twice keeps its last value.
pub open spec fn with_pair(
    env: Seq<(Seq<char>, Seq<char>)>,
    name: Seq<char>,
    value: Seq<char>,
) -> Seq<(Seq<char>, Seq<char>)> {
    other_pairs(env, name, env.len() as int).push((name, value))
}

/// The variables with `name` set: one set twice keeps its last value.
pub fn set_pair(env: &Vec<(String, String)>, name: &str, value: &str) -> (r: Vec<(String, String)>)
    ensures
        r.deep_view() == with_pair(env.deep_view(), name@, value@),
{
    let ghost all = env.deep_view();
    let mut out: Vec<(String, String)> = none_of();
    let mut i: usize = 0;
    while i < env.len()
        invariant
            all == env.deep_view(),
            i <= env@.len(),
            out.deep_view() == other_pairs(all, name@, i as int),
        decreases env@.len() - i,
    {
        assert(all[i as int] == (env@[i as int].0@, env@[i as int].1@));
        if !same(env[i].0.as_str(), name) {
            put(&mut out, (env[i].0.clone(), env[i].1.clone()));
        }
        i = i + 1;
    }
    put(&mut out, (name.to_owned(), value.to_owned()));
    out
}

/// The body with what the property `key` is set to.
pub open spec fn with_property(b: BodyModel, key: Seq<char>, rest: Seq<char>, text: Seq<char>) -> Result<
    BodyModel,
    Seq<char>,
> {
    if key == "description"@ {
        match string_of_rest(rest) {
            Ok(s) => Ok(BodyModel { description: Some(s), ..b }),
            Err(e) => Err(e),
        }
    } else if key == "group"@ || key == "standardInput"@ {
        Ok(b)
    } else if key == "commandLine"@ || key == "setCommandLine"@ {
        match strings_of(rest) {
            Ok(all) => Ok(BodyModel { command_line: all, ..b }),
            Err(e) => Err(e),
        }
    } else if key == "executable"@ {
        match string_of_rest(rest) {
            Ok(s) => Ok(BodyModel { executable: Some(s), ..b }),
            Err(e) => Err(e),
        }
    } else if key == "args"@ || key == "setArgs"@ {
        match strings_of(rest) {
            Ok(all) => Ok(BodyModel { args: b.args + all, ..b }),
            Err(e) => Err(e),
        }
    } else if key == "jvmArgs"@ {
        match strings_of(rest) {
            Ok(all) => Ok(BodyModel { jvm_args: b.jvm_args + all, ..b }),
            Err(e) => Err(e),
        }
    } else if key == "mainClass"@ || key == "main"@ {
        match string_of_rest(rest) {
            Ok(s) => Ok(BodyModel { main_class: Some(s), ..b }),
            Err(e) => Err(e),
        }
    } else if key == "classpath"@ {
        if main_runtime_classpath(rest) {
            Ok(BodyModel { main_classpath: true, ..b })
        } else {
            Err(
                "its classpath `"@ + argument_of(rest)
                    + "` is not `sourceSets.main.runtimeClasspath`, the only one jrs can give it"@,
            )
        }
    } else if key == "workingDir"@ {
        if project_dir(bare(argument_of(rest))) {
            Ok(BodyModel { working_dir: None, ..b })
        } else {
            match string_of_rest(rest) {
                Ok(s) => Ok(BodyModel { working_dir: Some(s), ..b }),
                Err(e) => Err(e),
            }
        }
    } else if key == "environment"@ {
        match strings_of(rest) {
            Ok(all) => if all.len() == 2 {
                Ok(BodyModel { env: with_pair(b.env, all[0], all[1]), ..b })
            } else {
                Err("`"@ + text + "` is not one name and one value"@)
            },
            Err(e) => Err(e),
        }
    } else if key == "inputs.file"@ || key == "inputs.files"@ || key == "inputs.dir"@ {
        match strings_of(rest) {
            Ok(paths) => Ok(BodyModel { inputs: b.inputs + paths, ..b }),
            Err(_) => Ok(BodyModel { unread_io: b.unread_io.push(text), ..b }),
        }
    } else if key == "outputs.file"@ || key == "outputs.files"@ || key == "outputs.dir"@ {
        match strings_of(rest) {
            Ok(paths) => Ok(BodyModel { outputs: b.outputs + paths, ..b }),
            Err(_) => Ok(BodyModel { unread_io: b.unread_io.push(text), ..b }),
        }
    } else if key == "ignoreExitValue"@ || key == "isIgnoreExitValue"@ {
        Err("it ignores the exit code, and jrs stops the build on a failing task"@)
    } else {
        Err("`"@ + text + "` is not something jrs can translate"@)
    }
}

/// The body with what the statement says, or why it cannot be read.
pub open spec fn with_statement(b: BodyModel, stmt: StmtModel) -> Result<BodyModel, Seq<char>> {
    let text = stmt.head;
    if stmt.block is Some {
        let what = match word(text) {
            Some(w) => w,
            None => text,
        };
        Err("`"@ + what + " { }` is Gradle code, which jrs cannot run"@)
    } else {
        match relation_of(text) {
            Some((Relation::DependsOn, rest)) => match references_of(rest) {
                Ok(refs) => Ok(BodyModel { depends_on: b.depends_on + refs, ..b }),
                Err(e) => Err(e),
            },
            Some((Relation::RunsAfter, _)) => Ok(b),
            Some((Relation::FinalizedBy, _)) => Err(
                "`finalizedBy` has no equivalent inside a jrs task"@,
            ),
            None => with_property(
                b,
                sans_suffix(head(text, Class::Dotted), ".set"@),
                sans_head(text, Class::Dotted),
                text,
            ),
        }
    }
}

pub open spec fn with_statements(stmts: Seq<StmtModel>, i: int, b: BodyModel) -> Result<
    BodyModel,
    Seq<char>,
>
    decreases stmts.len() - i,
{
    if i < 0 || i >= stmts.len() {
        Ok(b)
    } else {
        match with_statement(b, stmts[i]) {
            Err(e) => Err(e),
            Ok(next) => with_statements(stmts, i + 1, next),
        }
    }
}

fn set_property(body: Body, key: &str, rest: &str, text: &str) -> (r: Result<Body, String>)
    ensures
        outcome(r) == with_property(body.deep_view(), key@, rest@, text@),
{
    let mut b = body;
    if same(key, "description") {
        match string(rest) {
            Ok(s) => {
                b.description = Some(s);
            },
            Err(e) => {
                return Err(e);
            },
        }
    } else if same(key, "group") || same(key, "standardInput") {
    } else if same(key, "commandLine") || same(key, "setCommandLine") {
        match strings(rest) {
            Ok(all) => {
                b.command_line = all;
            },
            Err(e) => {
                return Err(e);
            },
        }
    } else if same(key, "executable") {
        match string(rest) {
            Ok(s) => {
                b.executable = Some(s);
            },
            Err(e) => {
                return Err(e);
            },
        }
    } else if same(key, "args") || same(key, "setArgs") {
        match strings(rest) {
            Ok(all) => {
                put_all(&mut b.args, all);
            },
            Err(e) => {
                return Err(e);
            },
        }
    } else if same(key, "jvmArgs") {
        match strings(rest) {
            Ok(all) => {
                put_all(&mut b.jvm_args, all);
            },
            Err(e) => {
                return Err(e);
            },
        }
    } else if same(key, "mainClass") || same(key, "main") {
        match string(rest) {
            Ok(s) => {
                b.main_class = Some(s);
            },
            Err(e) => {
                return Err(e);
            },
        }
    } else if same(key, "classpath") {
        if is_main_runtime_classpath(rest) {
            b.main_classpath = true;
        } else {
            return Err(
                cat3(
                    "its classpath `",
                    argument(rest),
                    "` is not `sourceSets.main.runtimeClasspath`, the only one jrs can give it",
                ),
            );
        }
    } else if same(key, "workingDir") {
        if is_project_dir(unwrap(argument(rest))) {
            b.working_dir = None;
        } else {
            match string(rest) {
                Ok(s) => {
                    b.working_dir = Some(s);
                },
                Err(e) => {
                    return Err(e);
                },
            }
        }
    } else if same(key, "environment") {
        match strings(rest) {
            Ok(all) => {
                if all.len() == 2 {
                    assert(all.deep_view()[0] == all@[0]@ && all.deep_view()[1] == all@[1]@);
                    let env = set_pair(&b.env, all[0].as_str(), all[1].as_str());
                    b.env = env;
                } else {
                    return Err(cat3("`", text, "` is not one name and one value"));
                }
            },
            Err(e) => {
                return Err(e);
            },
        }
    } else if same(key, "inputs.file") || same(key, "inputs.files") || same(key, "inputs.dir") {
        match strings(rest) {
            Ok(paths) => {
                put_all(&mut b.inputs, paths);
            },
            Err(_) => {
                put(&mut b.unread_io, text.to_owned());
            },
        }
    } else if same(key, "outputs.file") || same(key, "outputs.files") || same(key, "outputs.dir") {
        match strings(rest) {
            Ok(paths) => {
                put_all(&mut b.outputs, paths);
            },
            Err(_) => {
                put(&mut b.unread_io, text.to_owned());
            },
        }
    } else if same(key, "ignoreExitValue") || same(key, "isIgnoreExitValue") {
        return Err(
            "it ignores the exit code, and jrs stops the build on a failing task".to_owned(),
        );
    } else {
        return Err(cat3("`", text, "` is not something jrs can translate"));
    }
    Ok(b)
}

fn read_statement(body: Body, stmt: &Stmt) -> (r: Result<Body, String>)
    ensures
        outcome(r) == with_statement(body.deep_view(), stmt.deep_view()),
{
    let text = stmt.head.as_str();
    if stmt.block.is_some() {
        let what = match identifier(text) {
            Some(w) => w,
            None => text,
        };
        return Err(cat3("`", what, " { }` is Gradle code, which jrs cannot run"));
    }
    if let Some((relation, rest)) = relation(text) {
        return match relation {
            Relation::DependsOn => match task_refs(rest) {
                Ok(refs) => {
                    let mut b = body;
                    put_all(&mut b.depends_on, refs);
                    Ok(b)
                },
                Err(e) => Err(e),
            },
            Relation::RunsAfter => Ok(body),
            Relation::FinalizedBy => Err(
                "`finalizedBy` has no equivalent inside a jrs task".to_owned(),
            ),
        };
    }
    let key = without_suffix(take_run(text, Class::Dotted), ".set");
    set_property(body, key, skip_run(text, Class::Dotted), text)
}

/// The body with what the block says, or why it cannot be read.
pub fn read_body(block: &str, body: Body) -> (r: Result<Body, String>)
    ensures
        outcome(r) == with_statements(statements_of(block@), 0, body.deep_view()),
{
    let stmts = statements(block);
    let ghost all = stmts.deep_view();
    let ghost want = with_statements(all, 0, body.deep_view());
    let mut b = body;
    let mut i: usize = 0;
    while i < stmts.len()
        invariant
            all == stmts.deep_view(),
            i <= stmts@.len(),
            want == with_statements(statements_of(block@), 0, body.deep_view()),
            want == with_statements(all, i as int, b.deep_view()),
        decreases stmts@.len() - i,
    {
        assert(all[i as int] == stmts@[i as int].deep_view());
        match read_statement(b, &stmts[i]) {
            Ok(next) => {
                b = next;
            },
            Err(e) => {
                return Err(e);
            },
        }
        i = i + 1;
    }
    Ok(b)
}

// ---- commands --------------------------------------------------------------

/// `@{classpath-argfile}`: `-cp` and the classpath, from a file.
pub open spec fn argfile_template() -> TemplateModel {
    TemplateModel {
        raw: "@{classpath-argfile}"@,
        segments: seq![
            SegmentModel::Text("@"@),
            SegmentModel::Placeholder(Placeholder::ClasspathArgfile),
        ],
    }
}

/// `@{classpath-argfile}`: `-cp` and the classpath, from a file.
pub fn classpath_argfile() -> (r: Template)
    ensures
        r.deep_view() == argfile_template(),
{
    let mut segments: Vec<Segment> = one_of(Segment::Text("@".to_owned()));
    put(&mut segments, Segment::Placeholder(Placeholder::ClasspathArgfile));
    assert(segments.deep_view() =~= argfile_template().segments);
    Template { raw: "@{classpath-argfile}".to_owned(), segments }
}

/// Each value as a template that is all text.
pub open spec fn literal_templates(values: Seq<Seq<char>>) -> Seq<TemplateModel> {
    Seq::new(values.len(), |i: int| literal_template(values[i]))
}

/// Each value as a template that is all text.
pub fn literals(values: &Vec<String>) -> (r: Vec<Template>)
    ensures
        r.deep_view() == literal_templates(values.deep_view()),
{
    let ghost all = values.deep_view();
    let mut out: Vec<Template> = none_of();
    let mut i: usize = 0;
    while i < values.len()
        invariant
            all == values.deep_view(),
            i <= values@.len(),
            out.deep_view() =~= literal_templates(all).take(i as int),
        decreases values@.len() - i,
    {
        put(&mut out, Template::literal(values[i].as_str()));
        i = i + 1;
    }
    assert(literal_templates(all).take(i as int) =~= literal_templates(all));
    out
}

impl BodyModel {
    pub open spec fn java_exec(self) -> bool {
        self.main_class is Some || self.main_classpath || self.jvm_args.len() > 0
    }

    pub open spec fn exec(self) -> bool {
        self.command_line.len() > 0 || self.executable is Some
    }
}

/// The argument vector of an `Exec` task.
pub open spec fn exec_argv(b: BodyModel) -> Result<Seq<Seq<char>>, Seq<char>> {
    match b.executable {
        None => if b.command_line.len() == 0 {
            Err("it names no `commandLine` or `executable`"@)
        } else if b.args.len() == 0 {
            Ok(b.command_line)
        } else {
            Err(
                "it sets `commandLine` together with `executable` or `args`, which Gradle combines in an order jrs does not guess at"@,
            )
        },
        Some(exe) => if b.command_line.len() == 0 {
            Ok(seq![exe] + b.args)
        } else {
            Err(
                "it sets `commandLine` together with `executable` or `args`, which Gradle combines in an order jrs does not guess at"@,
            )
        },
    }
}

/// The argument vector of a `JavaExec` task that runs `main`.
pub open spec fn java_argv(b: BodyModel, main: Seq<char>) -> Seq<TemplateModel> {
    seq![literal_template("java"@)] + literal_templates(b.jvm_args) + seq![argfile_template()]
        + seq![literal_template(main)] + literal_templates(b.args)
}

pub open spec fn no_equivalent(kind: Seq<char>) -> Seq<char> {
    "its type `"@ + kind
        + "` has no equivalent in jrs; rewrite it as a task that runs a command or a script"@
}

/// The command a task of type `kind` runs, if it runs one, and the built-in
/// phases it needs whatever it declares.
pub open spec fn command_of(kind: Seq<char>, b: BodyModel) -> Result<
    (Option<Seq<TemplateModel>>, Seq<Builtin>),
    Seq<char>,
> {
    if kind == "Exec"@ {
        if b.java_exec() {
            Err("it sets `JavaExec` properties on an `Exec` task"@)
        } else {
            match exec_argv(b) {
                Err(e) => Err(e),
                Ok(argv) => Ok((Some(literal_templates(argv)), seq![])),
            }
        }
    } else if kind == "JavaExec"@ {
        if b.exec() {
            Err("it sets `commandLine` or `executable` on a `JavaExec` task"@)
        } else {
            match b.main_class {
                None => Err("it names no `mainClass`"@),
                Some(main) => if !b.main_classpath {
                    Err(
                        "its classpath is not `sourceSets.main.runtimeClasspath`, the only one jrs can give it"@,
                    )
                } else {
                    Ok((Some(java_argv(b, main)), seq![Builtin::Build]))
                },
            }
        }
    } else if kind == "DefaultTask"@ {
        if b.exec() || b.java_exec() || b.args.len() > 0 {
            Err("it sets a command on a task that has no type to run one"@)
        } else if b.depends_on.len() == 0 {
            Err("it does nothing jrs can see: no action, and no `dependsOn`"@)
        } else {
            Ok((None, seq![]))
        }
    } else {
        Err(no_equivalent(kind))
    }
}

fn exec_command(body: &Body) -> (r: Result<Vec<String>, String>)
    ensures
        outcome(r) == exec_argv(body.deep_view()),
{
    match &body.executable {
        None => {
            if body.command_line.len() == 0 {
                return Err("it names no `commandLine` or `executable`".to_owned());
            }
            if body.args.len() == 0 {
                return Ok(body.command_line.duplicate());
            }
        },
        Some(exe) => {
            if body.command_line.len() == 0 {
                let mut argv: Vec<String> = one_of(exe.clone());
                put_all(&mut argv, body.args.duplicate());
                return Ok(argv);
            }
        },
    }
    Err(
        "it sets `commandLine` together with `executable` or `args`, which Gradle combines in an order jrs does not guess at".to_owned(),
    )
}

/// The command a task of type `kind` runs, if it runs one, and the built-in
/// phases it needs whatever it declares.
pub fn command(kind: &str, body: &Body) -> (r: Result<
    (Option<Vec<Template>>, Vec<Builtin>),
    String,
>)
    ensures
        outcome(r) == command_of(kind@, body.deep_view()),
{
    let java_exec = body.main_class.is_some() || body.main_classpath || body.jvm_args.len() > 0;
    let exec = body.command_line.len() > 0 || body.executable.is_some();
    if same(kind, "Exec") {
        if java_exec {
            return Err("it sets `JavaExec` properties on an `Exec` task".to_owned());
        }
        return match exec_command(body) {
            Err(e) => Err(e),
            Ok(argv) => Ok((Some(literals(&argv)), none_of())),
        };
    }
    if same(kind, "JavaExec") {
        if exec {
            return Err("it sets `commandLine` or `executable` on a `JavaExec` task".to_owned());
        }
        let Some(main) = &body.main_class else {
            return Err("it names no `mainClass`".to_owned());
        };
        if !body.main_classpath {
            return Err(
                "its classpath is not `sourceSets.main.runtimeClasspath`, the only one jrs can give it".to_owned(),
            );
        }
        let mut argv: Vec<Template> = one_of(Template::literal("java"));
        put_all(&mut argv, literals(&body.jvm_args));
        put(&mut argv, classpath_argfile());
        put(&mut argv, Template::literal(main.as_str()));
        put_all(&mut argv, literals(&body.args));
        assert(argv.deep_view() =~= java_argv(body.deep_view(), main@));
        return Ok((Some(argv), one_of(Builtin::Build)));
    }
    if same(kind, "DefaultTask") {
        if exec || java_exec || body.args.len() > 0 {
            return Err("it sets a command on a task that has no type to run one".to_owned());
        }
        if body.depends_on.len() == 0 {
            return Err("it does nothing jrs can see: no action, and no `dependsOn`".to_owned());
        }
        return Ok((None, none_of()));
    }
    Err(
        cat3(
            "its type `",
            kind,
            "` has no equivalent in jrs; rewrite it as a task that runs a command or a script",
        ),
    )
}

// ---- what to check by hand -------------------------------------------------

/// A path in Gradle's output directory.
pub open spec fn in_build(v: Seq<char>) -> bool {
    v == "build"@ || starts(v, "build/"@) || within(v, "/build/"@)
}

pub fn is_in_build(v: &str) -> (r: bool)
    ensures
        r == in_build(v@),
{
    same(v, "build") || starts_with(v, "build/") || contains(v, "/build/")
}

/// Some text of the list is in Gradle's output directory.
pub open spec fn any_in_build(list: Seq<Seq<char>>) -> bool {
    exists|i: int| 0 <= i < list.len() && in_build(#[trigger] list[i])
}

fn has_build(list: &Vec<String>) -> (r: bool)
    ensures
        r == any_in_build(list.deep_view()),
{
    let ghost all = list.deep_view();
    let mut i: usize = 0;
    while i < list.len()
        invariant
            all == list.deep_view(),
            i <= list@.len(),
            forall|j: int| 0 <= j < i ==> !in_build(#[trigger] all[j]),
        decreases list@.len() - i,
    {
        assert(all[i as int] == list@[i as int]@);
        if is_in_build(list[i].as_str()) {
            return true;
        }
        i = i + 1;
    }
    false
}

/// A note for each of the first `n` lines that could not be read.
pub open spec fn unread_notes(name: Seq<char>, lines: Seq<Seq<char>>, n: int) -> Seq<Seq<char>>
    decreases n,
{
    if n <= 0 {
        seq![]
    } else {
        unread_notes(name, lines, n - 1).push(
            "[tasks."@ + name + "] — `"@ + lines[n - 1]
                + "` could not be read, so the task has no up-to-date check and always runs"@,
        )
    }
}

/// The body names Gradle's output directory.
pub open spec fn names_build(b: BodyModel) -> bool {
    any_in_build(b.command_line) || (b.executable is Some && in_build(b.executable->0))
        || any_in_build(b.args) || (b.working_dir is Some && in_build(b.working_dir->0))
        || any_in_build(b.inputs) || any_in_build(b.outputs)
}

/// What the user should check by hand once the task is migrated.
pub open spec fn notes_of(name: Seq<char>, b: BodyModel) -> Seq<Seq<char>> {
    let notes = unread_notes(name, b.unread_io, b.unread_io.len() as int);
    if names_build(b) {
        notes.push(
            "[tasks."@ + name
                + "] — names `build/`, Gradle's output directory; jrs writes to target/ (`{target}` in a task, `{jar}` for the jar)"@,
        )
    } else {
        notes
    }
}

/// What the user should check by hand once the task is migrated.
pub fn review_notes(name: &str, body: &Body) -> (r: Vec<String>)
    ensures
        r.deep_view() == notes_of(name@, body.deep_view()),
{
    let ghost all = body.unread_io.deep_view();
    let mut review: Vec<String> = none_of();
    let mut i: usize = 0;
    while i < body.unread_io.len()
        invariant
            all == body.unread_io.deep_view(),
            i <= body.unread_io@.len(),
            review.deep_view() == unread_notes(name@, all, i as int),
        decreases body.unread_io@.len() - i,
    {
        assert(all[i as int] == body.unread_io@[i as int]@);
        put(
            &mut review,
            cat5(
                "[tasks.",
                name,
                "] — `",
                body.unread_io[i].as_str(),
                "` could not be read, so the task has no up-to-date check and always runs",
            ),
        );
        i = i + 1;
    }
    let exe = match &body.executable {
        Some(v) => is_in_build(v.as_str()),
        None => false,
    };
    let dir = match &body.working_dir {
        Some(v) => is_in_build(v.as_str()),
        None => false,
    };
    if has_build(&body.command_line) || exe || has_build(&body.args) || dir || has_build(
        &body.inputs,
    ) || has_build(&body.outputs) {
        put(
            &mut review,
            cat3(
                "[tasks.",
                name,
                "] — names `build/`, Gradle's output directory; jrs writes to target/ (`{target}` in a task, `{jar}` for the jar)",
            ),
        );
    }
    review
}

// ---- translation -----------------------------------------------------------

/// A task the build script declares, translated but for its `depends-on`,
/// which waits until every task's fate is known.
pub struct Declared {
    pub gradle: String,
    pub kind: String,
    pub def: TaskDef,
    /// Gradle task names.
    pub depends_on: Vec<String>,
    /// What the task needs whatever it declares: a `JavaExec` needs classes.
    pub implied: Vec<Builtin>,
    pub review: Vec<String>,
}

/// What a translated declaration says.
pub struct DeclaredModel {
    pub gradle: Seq<char>,
    pub kind: Seq<char>,
    pub def: TaskModel,
    pub depends_on: Seq<Seq<char>>,
    pub implied: Seq<Builtin>,
    pub review: Seq<Seq<char>>,
}

impl DeepView for Declared {
    type V = DeclaredModel;

    open spec fn deep_view(&self) -> DeclaredModel {
        DeclaredModel {
            gradle: self.gradle@,
            kind: self.kind@,
            def: self.def.deep_view(),
            depends_on: self.depends_on.deep_view(),
            implied: self.implied.deep_view(),
            review: self.review.deep_view(),
        }
    }
}

/// The first variable from `i` on that a task may not set.
pub open spec fn refused_variable_from(env: Seq<(Seq<char>, Seq<char>)>, i: int) -> Option<Seq<char>>
    decreases env.len() - i,
{
    if i < 0 || i >= env.len() {
        None
    } else if env[i].0.len() == 0 || includes(env[i].0, '=') || includes(env[i].0, '\0') || starts(
        capital(env[i].0),
        "JRS_"@,
    ) {
        Some(env[i].0)
    } else {
        refused_variable_from(env, i + 1)
    }
}

fn refused_variable(env: &Vec<(String, String)>) -> (r: Option<&str>)
    ensures
        r.deep_view() == refused_variable_from(env.deep_view(), 0),
{
    let ghost all = env.deep_view();
    let mut i: usize = 0;
    while i < env.len()
        invariant
            all == env.deep_view(),
            i <= env@.len(),
            refused_variable_from(all, 0) == refused_variable_from(all, i as int),
        decreases env@.len() - i,
    {
        assert(all[i as int].0 == env@[i as int].0@);
        let name = env[i].0.as_str();
        if name.is_empty() || has_char(name, '=') || has_char(name, '\0') || starts_with(
            to_capital(name).as_str(),
            "JRS_",
        ) {
            return Some(name);
        }
        i = i + 1;
    }
    None
}

/// The variables as templates that are all text.
pub open spec fn literal_env(env: Seq<(Seq<char>, Seq<char>)>) -> Seq<(Seq<char>, TemplateModel)> {
    Seq::new(env.len(), |i: int| (env[i].0, literal_template(env[i].1)))
}

fn env_literals(env: &Vec<(String, String)>) -> (r: Vec<(String, Template)>)
    ensures
        r.deep_view() == literal_env(env.deep_view()),
{
    let ghost all = env.deep_view();
    let mut out: Vec<(String, Template)> = none_of();
    let mut i: usize = 0;
    while i < env.len()
        invariant
            all == env.deep_view(),
            i <= env@.len(),
            out.deep_view() =~= literal_env(all).take(i as int),
        decreases env@.len() - i,
    {
        assert(all[i as int] == (env@[i as int].0@, env@[i as int].1@));
        put(&mut out, (env[i].0.clone(), Template::literal(env[i].1.as_str())));
        i = i + 1;
    }
    assert(literal_env(all).take(i as int) =~= literal_env(all));
    out
}

/// A type that jrs has a task for.
pub open spec fn known_kind(kind: Seq<char>) -> bool {
    kind == "Exec"@ || kind == "JavaExec"@ || kind == "DefaultTask"@
}

/// The task that a body becomes.
pub open spec fn task_of_body(
    gradle: Seq<char>,
    name: Seq<char>,
    kind: Seq<char>,
    b: BodyModel,
    argv: Option<Seq<TemplateModel>>,
    implied: Seq<Builtin>,
) -> DeclaredModel {
    DeclaredModel {
        gradle,
        kind,
        def: TaskModel {
            name,
            description: b.description,
            action: match argv {
                Some(a) => Some(ActionModel::Run(a)),
                None => None,
            },
            args: seq![],
            depends_on: seq![],
            env: literal_env(b.env),
            cwd: match b.working_dir {
                Some(d) => Some(literal_template(d)),
                None => None,
            },
            inputs: literal_templates(b.inputs),
            outputs: literal_templates(b.outputs),
            source_outputs: seq![],
            resource_outputs: seq![],
            dependencies: seq![],
        },
        depends_on: b.depends_on,
        implied,
        review: notes_of(name, b),
    }
}

/// A command whose program is blank.
pub open spec fn blank_command(argv: Option<Seq<TemplateModel>>) -> bool {
    argv matches Some(a) && (a.len() == 0 || trimmed(a[0].raw).len() == 0)
}

fn is_blank_command(argv: &Option<Vec<Template>>) -> (r: bool)
    ensures
        r == blank_command(argv.deep_view()),
{
    match argv {
        Some(a) => {
            if a.len() == 0 {
                return true;
            }
            assert(a.deep_view()[0] == a@[0].deep_view());
            trim(a[0].raw.as_str()).is_empty()
        },
        None => false,
    }
}

/// The task that a declaration becomes, or why it becomes none.
pub open spec fn translated(gradle: Seq<char>, header: HeaderModel, block: Option<Seq<char>>) -> Result<
    DeclaredModel,
    Seq<char>,
> {
    match dashed_name(gradle) {
        Err(e) => Err(e),
        Ok(name) => if header.kind is Some && !known_kind(header.kind->0) {
            Err(no_equivalent(header.kind->0))
        } else {
            let read = match block {
                Some(text) => with_statements(statements_of(text), 0, declared_body(header)),
                None => Ok(declared_body(header)),
            };
            match read {
                Err(e) => Err(e),
                Ok(b) => {
                    let kind = match header.kind {
                        Some(k) => k,
                        None => "DefaultTask"@,
                    };
                    match command_of(kind, b) {
                        Err(e) => Err(e),
                        Ok((argv, implied)) => if blank_command(argv) {
                            Err("the program it runs is blank"@)
                        } else {
                            match refused_variable_from(b.env, 0) {
                                Some(var) => Err(
                                    "`"@ + var
                                        + "` is not an environment variable jrs lets a task set"@,
                                ),
                                None => Ok(task_of_body(gradle, name, kind, b, argv, implied)),
                            }
                        },
                    }
                },
            }
        },
    }
}

fn build_task(
    gradle: &str,
    name: String,
    kind: String,
    body: Body,
    argv: Option<Vec<Template>>,
    implied: Vec<Builtin>,
) -> (r: Declared)
    ensures
        r.deep_view() == task_of_body(
            gradle@,
            name@,
            kind@,
            body.deep_view(),
            argv.deep_view(),
            implied.deep_view(),
        ),
{
    let review = review_notes(name.as_str(), &body);
    let action = match argv {
        Some(argv) => Some(Action::Run(argv)),
        None => None,
    };
    let cwd = match &body.working_dir {
        Some(d) => Some(Template::literal(d.as_str())),
        None => None,
    };
    let def = TaskDef {
        name,
        description: body.description,
        action,
        args: none_of(),
        depends_on: none_of(),
        env: env_literals(&body.env),
        cwd,
        inputs: literals(&body.inputs),
        outputs: literals(&body.outputs),
        source_outputs: none_of(),
        resource_outputs: none_of(),
        dependencies: none_of(),
    };
    Declared {
        gradle: gradle.to_owned(),
        kind,
        def,
        depends_on: body.depends_on,
        implied,
        review,
    }
}

/// The task that a declaration becomes, or why it becomes none.
pub fn translate(gradle: &str, header: Header, block: &Option<String>) -> (r: Result<
    Declared,
    String,
>)
    ensures
        outcome(r) == translated(gradle@, header.deep_view(), block.deep_view()),
{
    let name = match task_name(gradle) {
        Ok(name) => name,
        Err(e) => {
            return Err(e);
        },
    };
    if let Some(k) = &header.kind {
        if !(same(k.as_str(), "Exec") || same(k.as_str(), "JavaExec") || same(
            k.as_str(),
            "DefaultTask",
        )) {
            return Err(
                cat3(
                    "its type `",
                    k.as_str(),
                    "` has no equivalent in jrs; rewrite it as a task that runs a command or a script",
                ),
            );
        }
    }
    let ghost h = header.deep_view();
    let kind = match header.kind {
        Some(k) => k,
        None => "DefaultTask".to_owned(),
    };
    let mut body = Body {
        description: header.description,
        depends_on: header.depends_on,
        command_line: none_of(),
        executable: None,
        args: none_of(),
        jvm_args: none_of(),
        main_class: None,
        main_classpath: false,
        working_dir: None,
        env: none_of(),
        inputs: none_of(),
        outputs: none_of(),
        unread_io: none_of(),
    };
    assert(body.deep_view() == declared_body(h));
    if let Some(block) = block {
        match read_body(block.as_str(), body) {
            Ok(b) => {
                body = b;
            },
            Err(e) => {
                return Err(e);
            },
        }
    }
    let (argv, implied) = match command(kind.as_str(), &body) {
        Ok(x) => x,
        Err(e) => {
            return Err(e);
        },
    };
    if is_blank_command(&argv) {
        return Err("the program it runs is blank".to_owned());
    }
    if let Some(var) = refused_variable(&body.env) {
        return Err(cat3("`", var, "` is not an environment variable jrs lets a task set"));
    }
    Ok(build_task(gradle, name, kind, body, argv, implied))
}

} // verus!
