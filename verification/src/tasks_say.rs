//! What the body of a Gradle task comes to in the task of the manifest.

use crate::gradle_body::{
    command_of, exec_argv, java_argv, literal_templates, project_dir, task_of_body, with_pair,
    with_property, with_statement, BodyModel,
};
use crate::gradle_decl::{
    main_runtime_classpath, references_of, relation_of, string_of_rest, strings_of, Relation,
};
use crate::gradle_lex::{argument_of, bare, StmtModel};
use crate::task::{ActionModel, Builtin};
use crate::template::{literal_template, TemplateModel};
use crate::text::head;
use vstd::prelude::*;

verus! {

/// What is read of a text, where something is.
pub open spec fn read_as<A>(r: Result<A, Seq<char>>, a: A) -> bool {
    r == Ok::<A, Seq<char>>(a)
}

/// Each property of a task is kept as what it is: its command, its program and
/// arguments, those of the JVM, its class, its directory, its variables, and what
/// it reads and writes. One that makes a failure pass, or that jrs does not know,
/// leaves the task out.
pub proof fn properties_of_tasks_are_kept(
    b: BodyModel,
    key: Seq<char>,
    rest: Seq<char>,
    text: Seq<char>,
)
    ensures
        ({
            let r = with_property(b, key, rest, text);
            let all = strings_of(rest);
            let one = string_of_rest(rest);
            &&& key == "description"@ && one is Ok ==> read_as(
                r,
                BodyModel { description: Some(one->Ok_0), ..b },
            )
            &&& key == "group"@ || key == "standardInput"@ ==> read_as(r, b)
            &&& (key == "commandLine"@ || key == "setCommandLine"@) && all is Ok ==> read_as(
                r,
                BodyModel { command_line: all->Ok_0, ..b },
            )
            &&& key == "executable"@ && one is Ok ==> read_as(
                r,
                BodyModel { executable: Some(one->Ok_0), ..b },
            )
            &&& (key == "args"@ || key == "setArgs"@) && all is Ok ==> read_as(
                r,
                BodyModel { args: b.args + all->Ok_0, ..b },
            )
            &&& key == "jvmArgs"@ && all is Ok ==> read_as(
                r,
                BodyModel { jvm_args: b.jvm_args + all->Ok_0, ..b },
            )
            &&& (key == "mainClass"@ || key == "main"@) && one is Ok ==> read_as(
                r,
                BodyModel { main_class: Some(one->Ok_0), ..b },
            )
            &&& key == "classpath"@ ==> (r is Ok <==> main_runtime_classpath(rest))
            &&& key == "workingDir"@ && !project_dir(
                bare(argument_of(rest)),
            ) && one is Ok ==> read_as(r, BodyModel { working_dir: Some(one->Ok_0), ..b })
            &&& key == "environment"@ && all is Ok && all->Ok_0.len() == 2 ==> read_as(
                r,
                BodyModel { env: with_pair(b.env, all->Ok_0[0], all->Ok_0[1]), ..b },
            )
            &&& (key == "inputs.file"@ || key == "inputs.files"@ || key == "inputs.dir"@)
                && all is Ok
                ==> read_as(r, BodyModel { inputs: b.inputs + all->Ok_0, ..b })
            &&& (key == "outputs.file"@ || key == "outputs.files"@ || key == "outputs.dir"@)
                && all is Ok ==> read_as(r, BodyModel { outputs: b.outputs + all->Ok_0, ..b })
            &&& key == "ignoreExitValue"@ || key == "isIgnoreExitValue"@ ==> r is Err
        }),
{
    lemma_keys_are_apart();
}

proof fn lemma_keys_are_apart()
    ensures
        "description"@ != "group"@ && "description"@ != "standardInput"@
            && "description"@ != "commandLine"@ && "description"@ != "setCommandLine"@
            && "description"@ != "executable"@ && "description"@ != "args"@
            && "description"@ != "setArgs"@ && "description"@ != "jvmArgs"@
            && "description"@ != "mainClass"@ && "description"@ != "main"@
            && "description"@ != "classpath"@ && "description"@ != "workingDir"@
            && "description"@ != "environment"@ && "description"@ != "inputs.file"@
            && "description"@ != "inputs.files"@ && "description"@ != "inputs.dir"@
            && "description"@ != "outputs.file"@ && "description"@ != "outputs.files"@
            && "description"@ != "outputs.dir"@ && "description"@ != "ignoreExitValue"@
            && "description"@ != "isIgnoreExitValue"@,
        "group"@ != "standardInput"@ && "group"@ != "commandLine"@
            && "group"@ != "setCommandLine"@ && "group"@ != "executable"@ && "group"@ != "args"@
            && "group"@ != "setArgs"@ && "group"@ != "jvmArgs"@ && "group"@ != "mainClass"@
            && "group"@ != "main"@ && "group"@ != "classpath"@ && "group"@ != "workingDir"@
            && "group"@ != "environment"@ && "group"@ != "inputs.file"@
            && "group"@ != "inputs.files"@ && "group"@ != "inputs.dir"@
            && "group"@ != "outputs.file"@ && "group"@ != "outputs.files"@
            && "group"@ != "outputs.dir"@ && "group"@ != "ignoreExitValue"@
            && "group"@ != "isIgnoreExitValue"@,
        "standardInput"@ != "commandLine"@ && "standardInput"@ != "setCommandLine"@
            && "standardInput"@ != "executable"@ && "standardInput"@ != "args"@
            && "standardInput"@ != "setArgs"@ && "standardInput"@ != "jvmArgs"@
            && "standardInput"@ != "mainClass"@ && "standardInput"@ != "main"@
            && "standardInput"@ != "classpath"@ && "standardInput"@ != "workingDir"@
            && "standardInput"@ != "environment"@ && "standardInput"@ != "inputs.file"@
            && "standardInput"@ != "inputs.files"@ && "standardInput"@ != "inputs.dir"@
            && "standardInput"@ != "outputs.file"@ && "standardInput"@ != "outputs.files"@
            && "standardInput"@ != "outputs.dir"@ && "standardInput"@ != "ignoreExitValue"@
            && "standardInput"@ != "isIgnoreExitValue"@,
        "commandLine"@ != "setCommandLine"@ && "commandLine"@ != "executable"@
            && "commandLine"@ != "args"@ && "commandLine"@ != "setArgs"@
            && "commandLine"@ != "jvmArgs"@ && "commandLine"@ != "mainClass"@
            && "commandLine"@ != "main"@ && "commandLine"@ != "classpath"@
            && "commandLine"@ != "workingDir"@ && "commandLine"@ != "environment"@
            && "commandLine"@ != "inputs.file"@ && "commandLine"@ != "inputs.files"@
            && "commandLine"@ != "inputs.dir"@ && "commandLine"@ != "outputs.file"@
            && "commandLine"@ != "outputs.files"@ && "commandLine"@ != "outputs.dir"@
            && "commandLine"@ != "ignoreExitValue"@ && "commandLine"@ != "isIgnoreExitValue"@,
        "setCommandLine"@ != "executable"@ && "setCommandLine"@ != "args"@
            && "setCommandLine"@ != "setArgs"@ && "setCommandLine"@ != "jvmArgs"@
            && "setCommandLine"@ != "mainClass"@ && "setCommandLine"@ != "main"@
            && "setCommandLine"@ != "classpath"@ && "setCommandLine"@ != "workingDir"@
            && "setCommandLine"@ != "environment"@ && "setCommandLine"@ != "inputs.file"@
            && "setCommandLine"@ != "inputs.files"@ && "setCommandLine"@ != "inputs.dir"@
            && "setCommandLine"@ != "outputs.file"@ && "setCommandLine"@ != "outputs.files"@
            && "setCommandLine"@ != "outputs.dir"@ && "setCommandLine"@ != "ignoreExitValue"@
            && "setCommandLine"@ != "isIgnoreExitValue"@,
        "executable"@ != "args"@ && "executable"@ != "setArgs"@ && "executable"@ != "jvmArgs"@
            && "executable"@ != "mainClass"@ && "executable"@ != "main"@
            && "executable"@ != "classpath"@ && "executable"@ != "workingDir"@
            && "executable"@ != "environment"@ && "executable"@ != "inputs.file"@
            && "executable"@ != "inputs.files"@ && "executable"@ != "inputs.dir"@
            && "executable"@ != "outputs.file"@ && "executable"@ != "outputs.files"@
            && "executable"@ != "outputs.dir"@ && "executable"@ != "ignoreExitValue"@
            && "executable"@ != "isIgnoreExitValue"@,
        "args"@ != "setArgs"@ && "args"@ != "jvmArgs"@ && "args"@ != "mainClass"@
            && "args"@ != "main"@ && "args"@ != "classpath"@ && "args"@ != "workingDir"@
            && "args"@ != "environment"@ && "args"@ != "inputs.file"@
            && "args"@ != "inputs.files"@ && "args"@ != "inputs.dir"@
            && "args"@ != "outputs.file"@ && "args"@ != "outputs.files"@
            && "args"@ != "outputs.dir"@ && "args"@ != "ignoreExitValue"@
            && "args"@ != "isIgnoreExitValue"@,
        "setArgs"@ != "jvmArgs"@ && "setArgs"@ != "mainClass"@ && "setArgs"@ != "main"@
            && "setArgs"@ != "classpath"@ && "setArgs"@ != "workingDir"@
            && "setArgs"@ != "environment"@ && "setArgs"@ != "inputs.file"@
            && "setArgs"@ != "inputs.files"@ && "setArgs"@ != "inputs.dir"@
            && "setArgs"@ != "outputs.file"@ && "setArgs"@ != "outputs.files"@
            && "setArgs"@ != "outputs.dir"@ && "setArgs"@ != "ignoreExitValue"@
            && "setArgs"@ != "isIgnoreExitValue"@,
        "jvmArgs"@ != "mainClass"@ && "jvmArgs"@ != "main"@ && "jvmArgs"@ != "classpath"@
            && "jvmArgs"@ != "workingDir"@ && "jvmArgs"@ != "environment"@
            && "jvmArgs"@ != "inputs.file"@ && "jvmArgs"@ != "inputs.files"@
            && "jvmArgs"@ != "inputs.dir"@ && "jvmArgs"@ != "outputs.file"@
            && "jvmArgs"@ != "outputs.files"@ && "jvmArgs"@ != "outputs.dir"@
            && "jvmArgs"@ != "ignoreExitValue"@ && "jvmArgs"@ != "isIgnoreExitValue"@,
        "mainClass"@ != "main"@ && "mainClass"@ != "classpath"@ && "mainClass"@ != "workingDir"@
            && "mainClass"@ != "environment"@ && "mainClass"@ != "inputs.file"@
            && "mainClass"@ != "inputs.files"@ && "mainClass"@ != "inputs.dir"@
            && "mainClass"@ != "outputs.file"@ && "mainClass"@ != "outputs.files"@
            && "mainClass"@ != "outputs.dir"@ && "mainClass"@ != "ignoreExitValue"@
            && "mainClass"@ != "isIgnoreExitValue"@,
        "main"@ != "classpath"@ && "main"@ != "workingDir"@ && "main"@ != "environment"@
            && "main"@ != "inputs.file"@ && "main"@ != "inputs.files"@
            && "main"@ != "inputs.dir"@ && "main"@ != "outputs.file"@
            && "main"@ != "outputs.files"@ && "main"@ != "outputs.dir"@
            && "main"@ != "ignoreExitValue"@ && "main"@ != "isIgnoreExitValue"@,
        "classpath"@ != "workingDir"@ && "classpath"@ != "environment"@
            && "classpath"@ != "inputs.file"@ && "classpath"@ != "inputs.files"@
            && "classpath"@ != "inputs.dir"@ && "classpath"@ != "outputs.file"@
            && "classpath"@ != "outputs.files"@ && "classpath"@ != "outputs.dir"@
            && "classpath"@ != "ignoreExitValue"@ && "classpath"@ != "isIgnoreExitValue"@,
        "workingDir"@ != "environment"@ && "workingDir"@ != "inputs.file"@
            && "workingDir"@ != "inputs.files"@ && "workingDir"@ != "inputs.dir"@
            && "workingDir"@ != "outputs.file"@ && "workingDir"@ != "outputs.files"@
            && "workingDir"@ != "outputs.dir"@ && "workingDir"@ != "ignoreExitValue"@
            && "workingDir"@ != "isIgnoreExitValue"@,
        "environment"@ != "inputs.file"@ && "environment"@ != "inputs.files"@
            && "environment"@ != "inputs.dir"@ && "environment"@ != "outputs.file"@
            && "environment"@ != "outputs.files"@ && "environment"@ != "outputs.dir"@
            && "environment"@ != "ignoreExitValue"@ && "environment"@ != "isIgnoreExitValue"@,
        "inputs.file"@ != "inputs.files"@ && "inputs.file"@ != "inputs.dir"@
            && "inputs.file"@ != "outputs.file"@ && "inputs.file"@ != "outputs.files"@
            && "inputs.file"@ != "outputs.dir"@ && "inputs.file"@ != "ignoreExitValue"@
            && "inputs.file"@ != "isIgnoreExitValue"@,
        "inputs.files"@ != "inputs.dir"@ && "inputs.files"@ != "outputs.file"@
            && "inputs.files"@ != "outputs.files"@ && "inputs.files"@ != "outputs.dir"@
            && "inputs.files"@ != "ignoreExitValue"@ && "inputs.files"@ != "isIgnoreExitValue"@,
        "inputs.dir"@ != "outputs.file"@ && "inputs.dir"@ != "outputs.files"@
            && "inputs.dir"@ != "outputs.dir"@ && "inputs.dir"@ != "ignoreExitValue"@
            && "inputs.dir"@ != "isIgnoreExitValue"@,
        "outputs.file"@ != "outputs.files"@ && "outputs.file"@ != "outputs.dir"@
            && "outputs.file"@ != "ignoreExitValue"@ && "outputs.file"@ != "isIgnoreExitValue"@,
        "outputs.files"@ != "outputs.dir"@ && "outputs.files"@ != "ignoreExitValue"@
            && "outputs.files"@ != "isIgnoreExitValue"@,
        "outputs.dir"@ != "ignoreExitValue"@ && "outputs.dir"@ != "isIgnoreExitValue"@,
        "ignoreExitValue"@ != "isIgnoreExitValue"@,
{
    reveal_strlit("description");
    reveal_strlit("group");
    reveal_strlit("standardInput");
    reveal_strlit("commandLine");
    reveal_strlit("setCommandLine");
    reveal_strlit("executable");
    reveal_strlit("args");
    reveal_strlit("setArgs");
    reveal_strlit("jvmArgs");
    reveal_strlit("mainClass");
    reveal_strlit("main");
    reveal_strlit("classpath");
    reveal_strlit("workingDir");
    reveal_strlit("environment");
    reveal_strlit("inputs.file");
    reveal_strlit("inputs.files");
    reveal_strlit("inputs.dir");
    reveal_strlit("outputs.file");
    reveal_strlit("outputs.files");
    reveal_strlit("outputs.dir");
    reveal_strlit("ignoreExitValue");
    reveal_strlit("isIgnoreExitValue");
    assert("description"@.len() == 11 && "description"@[0] == 'd');
    assert("group"@.len() == 5);
    assert("standardInput"@.len() == 13 && "standardInput"@[0] == 's');
    assert("commandLine"@.len() == 11 && "commandLine"@[0] == 'c');
    assert("setCommandLine"@.len() == 14);
    assert("executable"@.len() == 10 && "executable"@[0] == 'e');
    assert("args"@.len() == 4 && "args"@[0] == 'a');
    assert("setArgs"@.len() == 7 && "setArgs"@[0] == 's');
    assert("jvmArgs"@.len() == 7 && "jvmArgs"@[0] == 'j');
    assert("mainClass"@.len() == 9 && "mainClass"@[0] == 'm');
    assert("main"@.len() == 4 && "main"@[0] == 'm');
    assert("classpath"@.len() == 9 && "classpath"@[0] == 'c');
    assert("workingDir"@.len() == 10 && "workingDir"@[0] == 'w');
    assert("environment"@.len() == 11 && "environment"@[0] == 'e');
    assert("inputs.file"@.len() == 11 && "inputs.file"@[0] == 'i');
    assert("inputs.files"@.len() == 12 && "inputs.files"@[0] == 'i');
    assert("inputs.dir"@.len() == 10 && "inputs.dir"@[0] == 'i');
    assert("outputs.file"@.len() == 12 && "outputs.file"@[0] == 'o');
    assert("outputs.files"@.len() == 13 && "outputs.files"@[0] == 'o');
    assert("outputs.dir"@.len() == 11 && "outputs.dir"@[0] == 'o');
    assert("ignoreExitValue"@.len() == 15);
    assert("isIgnoreExitValue"@.len() == 17);
}

/// What a task says in its body: what it depends on is kept, what it merely runs
/// after is not, and what finalizes it, or code of its own, leaves it out.
pub proof fn statements_of_tasks_are_kept(b: BodyModel, stmt: StmtModel)
    ensures
        stmt.block is Some ==> with_statement(b, stmt) is Err,
        stmt.block is None ==> match relation_of(stmt.head) {
            Some((Relation::DependsOn, rest)) => match references_of(rest) {
                Ok(refs) => read_as(
                    with_statement(b, stmt),
                    BodyModel { depends_on: b.depends_on + refs, ..b },
                ),
                Err(_) => with_statement(b, stmt) is Err,
            },
            Some((Relation::RunsAfter, _)) => read_as(with_statement(b, stmt), b),
            Some((Relation::FinalizedBy, _)) => with_statement(b, stmt) is Err,
            None => true,
        },
{
}

/// An `Exec` runs its command and needs nothing built, a `JavaExec` runs its
/// class on the project's classpath and so after a build, and a task of no type
/// runs nothing.
pub proof fn kinds_of_tasks_run_so(b: BodyModel)
    ensures
        command_of("Exec"@, b) matches Ok((argv, implied)) ==> {
            &&& implied.len() == 0
            &&& exec_argv(b) is Ok
            &&& argv == Some(literal_templates(exec_argv(b)->Ok_0))
        },
        command_of("JavaExec"@, b) matches Ok((argv, implied)) ==> {
            &&& implied == seq![Builtin::Build]
            &&& b.main_class is Some
            &&& argv == Some(java_argv(b, b.main_class->0))
        },
        command_of("DefaultTask"@, b) matches Ok((argv, implied)) ==> argv is None
            && implied.len() == 0
            && b.depends_on.len() > 0,
{
    reveal_strlit("Exec");
    reveal_strlit("JavaExec");
    reveal_strlit("DefaultTask");
    assert("Exec"@.len() == 4 && "JavaExec"@.len() == 8 && "DefaultTask"@.len() == 11);
}

/// The task of the manifest has the body's description, command, variables and
/// directory, and reads and writes what the body does.
pub proof fn tasks_are_their_bodies(
    gradle: Seq<char>,
    name: Seq<char>,
    kind: Seq<char>,
    b: BodyModel,
    argv: Option<Seq<TemplateModel>>,
    implied: Seq<Builtin>,
)
    ensures
        ({
            let d = task_of_body(gradle, name, kind, b, argv, implied);
            &&& d.gradle == gradle
            &&& d.def.name == name
            &&& d.def.description == b.description
            &&& argv matches Some(a) ==> d.def.action == Some(ActionModel::Run(a))
            &&& argv is None ==> d.def.action is None
            &&& d.def.env.len() == b.env.len()
            &&& forall|k: int|
                0 <= k < b.env.len() ==> #[trigger] d.def.env[k] == (
                    b.env[k].0,
                    literal_template(b.env[k].1),
                )
            &&& b.working_dir matches Some(w) ==> d.def.cwd == Some(literal_template(w))
            &&& b.working_dir is None ==> d.def.cwd is None
            &&& d.def.inputs.len() == b.inputs.len()
            &&& forall|k: int|
                0 <= k < b.inputs.len()
                    ==> #[trigger] d.def.inputs[k] == literal_template(b.inputs[k])
            &&& d.def.outputs.len() == b.outputs.len()
            &&& forall|k: int|
                0 <= k < b.outputs.len() ==> #[trigger] d.def.outputs[k] == literal_template(
                    b.outputs[k],
                )
            &&& d.depends_on == b.depends_on
            &&& d.implied == implied
        }),
{
}

/// A command is the words of `commandLine`, or the executable and its arguments;
/// the two together, or neither, are none.
pub proof fn commands_are_their_words(b: BodyModel)
    ensures
        b.executable is None && b.command_line.len() > 0 && b.args.len() == 0 ==> read_as(
            exec_argv(b),
            b.command_line,
        ),
        b.executable matches Some(exe) ==> (b.command_line.len() == 0 ==> (exec_argv(b)
            matches Ok(argv) && argv.len() == b.args.len() + 1 && argv[0] == exe && forall|k: int|
            0 <= k < b.args.len() ==> #[trigger] argv[k + 1] == b.args[k])),
        b.executable is Some && b.command_line.len() > 0 ==> exec_argv(b) is Err,
        b.executable is None && b.command_line.len() == 0 ==> exec_argv(b) is Err,
{
}

/// A class is started by `java` with the arguments of its JVM, the project's
/// classpath, its name and its own arguments, in this order.
pub proof fn classes_are_started_so(b: BodyModel, main: Seq<char>)
    ensures
        ({
            let argv = java_argv(b, main);
            let n = b.jvm_args.len() as int;
            &&& argv.len() == n + 3 + b.args.len()
            &&& argv[0] == literal_template("java"@)
            &&& forall|k: int| 0 <= k < n ==> #[trigger] argv[k + 1] == literal_template(b.jvm_args[k])
            &&& argv[n + 1].raw == "@{classpath-argfile}"@
            &&& argv[n + 2] == literal_template(main)
            &&& forall|k: int|
                0 <= k < b.args.len() ==> #[trigger] argv[k + n + 3] == literal_template(b.args[k])
        }),
{
}

} // verus!
