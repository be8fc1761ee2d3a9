//! The environment of Gradle's `run` and `test` tasks.

use crate::debug::{debug, debug_form};
use crate::gradle_decl::{
    configured, configured_of, declaration, declaration_of, string, string_of_rest, strings,
    strings_of,
};
use crate::gradle_lex::{
    argument, argument_of, bare, statements, statements_of, unwrap, Stmt, StmtModel,
};
use crate::manifest::{Manifest, ManifestModel, RunModel, TestModel};
use crate::report::{Report, ReportModel};
use crate::template::{literal_template, Template, TemplateModel};
use crate::text::{
    capital, cat3, cat4, cat5, cat6, has_char, head, includes, none_of, put, same, sans_head,
    sans_suffix, skip_run, starts, starts_with, take_run, to_capital, without_suffix, Class,
    outcome, Duplicate,
};
use vstd::prelude::*;

verus! {

/// The name and the value that `environment` is given, or why they are none.
pub open spec fn variable_of(rest: Seq<char>) -> Result<(Seq<char>, Seq<char>), Seq<char>> {
    match strings_of(rest) {
        Err(e) => Err(e),
        Ok(values) => if values.len() != 2 {
            Err("it is not one name and one value"@)
        } else if values[0].len() == 0 || includes(values[0], '=') || includes(values[0], '\0') {
            Err("`"@ + values[0] + "` is not an environment variable name"@)
        } else if starts(capital(values[0]), "JRS_"@) {
            Err("`"@ + values[0] + "` starts with `JRS_`, which jrs keeps for itself"@)
        } else {
            Ok((values[0], values[1]))
        },
    }
}

fn read_variable(rest: &str) -> (r: Result<(String, String), String>)
    ensures
        outcome(r) == variable_of(rest@),
{
    let values = match strings(rest) {
        Ok(values) => values,
        Err(e) => {
            return Err(e);
        },
    };
    if values.len() != 2 {
        return Err("it is not one name and one value".to_owned());
    }
    assert(values.deep_view()[0] == values@[0]@ && values.deep_view()[1] == values@[1]@);
    let name = values[0].as_str();
    if name.is_empty() || has_char(name, '=') || has_char(name, '\0') {
        return Err(cat3("`", name, "` is not an environment variable name"));
    }
    if starts_with(to_capital(name).as_str(), "JRS_") {
        return Err(cat3("`", name, "` starts with `JRS_`, which jrs keeps for itself"));
    }
    Ok((values[0].clone(), values[1].clone()))
}

/// The first `n` variables that are not called `name`.
pub open spec fn others(env: Seq<(Seq<char>, TemplateModel)>, name: Seq<char>, n: int) -> Seq<
    (Seq<char>, TemplateModel),
>
    decreases n,
{
    if n <= 0 {
        seq![]
    } else {
        let before = others(env, name, n - 1);
        if env[n - 1].0 == name {
            before
        } else {
            before.push(env[n - 1])
        }
    }
}

/// The environment with `name` set to `value`, which it keeps alone.
pub open spec fn with_variable(
    env: Seq<(Seq<char>, TemplateModel)>,
    name: Seq<char>,
    value: TemplateModel,
) -> Seq<(Seq<char>, TemplateModel)> {
    others(env, name, env.len() as int).push((name, value))
}

/// The environment with `name` set to `value`, and to nothing else.
pub fn set_variable(env: &Vec<(String, Template)>, name: &str, value: Template) -> (r: Vec<
    (String, Template),
>)
    ensures
        r.deep_view() == with_variable(env.deep_view(), name@, value.deep_view()),
{
    let ghost all = env.deep_view();
    let mut out: Vec<(String, Template)> = none_of();
    let mut i: usize = 0;
    while i < env.len()
        invariant
            all == env.deep_view(),
            i <= env@.len(),
            out.deep_view() == others(all, name@, i as int),
        decreases env@.len() - i,
    {
        assert(all[i as int] == (env@[i as int].0@, env@[i as int].1.deep_view()));
        if !same(env[i].0.as_str(), name) {
            put(&mut out, env[i].duplicate());
        }
        i = i + 1;
    }
    put(&mut out, (name.to_owned(), value));
    out
}

/// The manifest and the report of a migration.
pub type StateModel = (ManifestModel, ReportModel);

/// `environment 'NAME', 'value'` in the block of `run` or of `test`.
pub open spec fn environment_read(state: StateModel, run: bool, text: Seq<char>, rest: Seq<char>) -> StateModel {
    let section = if run {
        "run"@
    } else {
        "test"@
    };
    let (m, report) = state;
    match variable_of(rest) {
        Ok((name, value)) => (
            if run {
                ManifestModel {
                    run: RunModel { env: with_variable(m.run.env, name, literal_template(value)), ..m.run },
                    ..m
                }
            } else {
                ManifestModel {
                    test: TestModel { env: with_variable(m.test.env, name, literal_template(value)), ..m.test },
                    ..m
                }
            },
            report.with_migrated(section + ".env."@ + name + " = "@ + debug_form(value)),
        ),
        Err(why) => (
            m,
            report.with_skipped("`"@ + text + "` in the `"@ + section + "` task — "@ + why),
        ),
    }
}

/// `environment 'NAME', 'value'` into `run.env` or `test.env`; a name set
/// twice keeps its last value, as in Gradle.
fn read_environment(run: bool, text: &str, rest: &str, out: &mut Manifest, report: &mut Report)
    ensures
        (final(out).deep_view(), final(report).deep_view()) == environment_read(
            (old(out).deep_view(), old(report).deep_view()),
            run,
            text@,
            rest@,
        ),
{
    let section: &str = if run {
        "run"
    } else {
        "test"
    };
    match read_variable(rest) {
        Ok((name, value)) => {
            if run {
                out.run.env = set_variable(
                    &out.run.env,
                    name.as_str(),
                    Template::literal(value.as_str()),
                );
            } else {
                out.test.env = set_variable(
                    &out.test.env,
                    name.as_str(),
                    Template::literal(value.as_str()),
                );
            }
            report.migrated(
                cat5(section, ".env.", name.as_str(), " = ", debug(value.as_str()).as_str()),
            );
        },
        Err(why) => {
            report.skipped(cat6("`", text, "` in the `", section, "` task — ", why.as_str()));
        },
    }
}

/// A spelling of the project's directory.
pub open spec fn project_root(dir: Seq<char>) -> bool {
    dir == "projectDir"@ || dir == "rootDir"@ || dir == "project.projectDir"@ || dir
        == "project.rootDir"@ || dir == "layout.projectDirectory"@
}

/// The directory that `workingDir` is set to.
pub open spec fn working_dir_of(rest: Seq<char>) -> Result<Seq<char>, Seq<char>> {
    if project_root(bare(argument_of(rest))) {
        Ok("."@)
    } else {
        string_of_rest(rest)
    }
}

/// What to say of a directory that means little elsewhere.
pub open spec fn directory_note(dir: Seq<char>) -> Option<Seq<char>> {
    if dir == "build"@ || starts(dir, "build/"@) {
        Some(
            "run.cwd — `"@ + dir
                + "` is under `build/`, Gradle's output directory; jrs writes to target/ (`{target}` in `run.cwd`)"@,
        )
    } else if starts(dir, "/"@) {
        Some(
            "run.cwd — `"@ + dir
                + "` is an absolute path, which only means something on one machine"@,
        )
    } else {
        None
    }
}

/// `workingDir` in the block of `run`.
pub open spec fn working_dir_read(state: StateModel, text: Seq<char>, rest: Seq<char>) -> StateModel {
    let (m, report) = state;
    match working_dir_of(rest) {
        Err(why) => (m, report.with_skipped("`"@ + text + "` in the `run` task — "@ + why)),
        Ok(dir) => {
            let noted = match directory_note(dir) {
                Some(note) => report.with_review(note),
                None => report,
            };
            (
                ManifestModel {
                    run: RunModel { cwd: Some(literal_template(dir)), ..m.run },
                    ..m
                },
                noted.with_migrated("run.cwd = "@ + debug_form(dir)),
            )
        },
    }
}

/// `workingDir` of Gradle's `run` into `run.cwd`. Gradle's default, the
/// project directory, is `.`.
fn read_working_dir(text: &str, rest: &str, out: &mut Manifest, report: &mut Report)
    ensures
        (final(out).deep_view(), final(report).deep_view()) == working_dir_read(
            (old(out).deep_view(), old(report).deep_view()),
            text@,
            rest@,
        ),
{
    let given = unwrap(argument(rest));
    let dir = if same(given, "projectDir") || same(given, "rootDir") || same(
        given,
        "project.projectDir",
    ) || same(given, "project.rootDir") || same(given, "layout.projectDirectory") {
        ".".to_owned()
    } else {
        match string(rest) {
            Ok(dir) => dir,
            Err(why) => {
                report.skipped(cat4("`", text, "` in the `run` task — ", why.as_str()));
                return ;
            },
        }
    };
    if same(dir.as_str(), "build") || starts_with(dir.as_str(), "build/") {
        report.review(
            cat3(
                "run.cwd — `",
                dir.as_str(),
                "` is under `build/`, Gradle's output directory; jrs writes to target/ (`{target}` in `run.cwd`)",
            ),
        );
    } else if starts_with(dir.as_str(), "/") {
        report.review(
            cat3(
                "run.cwd — `",
                dir.as_str(),
                "` is an absolute path, which only means something on one machine",
            ),
        );
    }
    report.migrated(crate::text::cat2("run.cwd = ", debug(dir.as_str()).as_str()));
    out.run.cwd = Some(Template::literal(dir.as_str()));
}

/// A statement in the block of `run` or of `test`.
pub open spec fn setting_read(state: StateModel, run: bool, stmt: StmtModel) -> StateModel {
    let text = stmt.head;
    let key = sans_suffix(head(text, Class::Dotted), ".set"@);
    let rest = sans_head(text, Class::Dotted);
    if stmt.block is Some {
        state
    } else if key == "environment"@ {
        environment_read(state, run, text, rest)
    } else if key == "workingDir"@ {
        if run {
            working_dir_read(state, text, rest)
        } else {
            (
                state.0,
                state.1.with_skipped(
                    "`"@ + text
                        + "` in the `test` task — jrs starts the test JVM where jrs itself runs, and has no `test.cwd`"@,
                ),
            )
        }
    } else {
        state
    }
}

pub open spec fn settings_read(state: StateModel, run: bool, stmts: Seq<StmtModel>, i: int) -> StateModel
    decreases stmts.len() - i,
{
    if i < 0 || i >= stmts.len() {
        state
    } else {
        settings_read(setting_read(state, run, stmts[i]), run, stmts, i + 1)
    }
}

/// Whether the statement opens the block of `run` (true) or of `test` (false).
pub open spec fn jvm_block(stmt: StmtModel) -> Option<bool> {
    if stmt.block is None || declaration_of(stmt.head) is Some {
        None
    } else {
        match configured_of(stmt.head) {
            Some((target, rest)) => if rest.len() > 0 {
                None
            } else if target == "run"@ {
                Some(true)
            } else if target == "test"@ {
                Some(false)
            } else {
                None
            },
            None => None,
        }
    }
}

/// The blocks of `run` and of `test` from the `i`th statement on.
pub open spec fn blocks_read(state: StateModel, stmts: Seq<StmtModel>, i: int) -> StateModel
    decreases stmts.len() - i,
{
    if i < 0 || i >= stmts.len() {
        state
    } else {
        let next = match jvm_block(stmts[i]) {
            Some(run) => settings_read(state, run, statements_of(stmts[i].block->0), 0),
            None => state,
        };
        blocks_read(next, stmts, i + 1)
    }
}

fn read_setting(run: bool, stmt: &Stmt, out: &mut Manifest, report: &mut Report)
    ensures
        (final(out).deep_view(), final(report).deep_view()) == setting_read(
            (old(out).deep_view(), old(report).deep_view()),
            run,
            stmt.deep_view(),
        ),
{
    if stmt.block.is_some() {
        return ;
    }
    let text = stmt.head.as_str();
    let key = without_suffix(take_run(text, Class::Dotted), ".set");
    let rest = skip_run(text, Class::Dotted);
    if same(key, "environment") {
        read_environment(run, text, rest, out, report);
    } else if same(key, "workingDir") {
        if run {
            read_working_dir(text, rest, out, report);
        } else {
            report.skipped(
                cat3(
                    "`",
                    text,
                    "` in the `test` task — jrs starts the test JVM where jrs itself runs, and has no `test.cwd`",
                ),
            );
        }
    }
}

fn read_settings(run: bool, block: &str, out: &mut Manifest, report: &mut Report)
    ensures
        (final(out).deep_view(), final(report).deep_view()) == settings_read(
            (old(out).deep_view(), old(report).deep_view()),
            run,
            statements_of(block@),
            0,
        ),
{
    let stmts = statements(block);
    let ghost all = stmts.deep_view();
    let ghost start = (out.deep_view(), report.deep_view());
    let mut i: usize = 0;
    while i < stmts.len()
        invariant
            all == stmts.deep_view(),
            i <= stmts@.len(),
            settings_read(start, run, all, 0) == settings_read(
                (out.deep_view(), report.deep_view()),
                run,
                all,
                i as int,
            ),
        decreases stmts@.len() - i,
    {
        assert(all[i as int] == stmts@[i as int].deep_view());
        read_setting(run, &stmts[i], out, report);
        i = i + 1;
    }
}

fn find_jvm_block(stmt: &Stmt) -> (r: Option<bool>)
    ensures
        r == jvm_block(stmt.deep_view()),
{
    if stmt.block.is_none() || declaration(stmt.head.as_str()).is_some() {
        return None;
    }
    match configured(stmt.head.as_str()) {
        Some((target, rest)) => if !rest.is_empty() {
            None
        } else if same(target.as_str(), "run") {
            Some(true)
        } else if same(target.as_str(), "test") {
            Some(false)
        } else {
            None
        },
        None => None,
    }
}

/// `environment` and `workingDir` in the blocks that configure Gradle's own
/// `run` and `test` tasks, as `run.env`, `run.cwd` and `test.env`. Literals
/// translate; anything else is reported, as in a task.
pub fn read_jvm_environment(script: &str, out: &mut Manifest, report: &mut Report)
    ensures
        (final(out).deep_view(), final(report).deep_view()) == blocks_read(
            (old(out).deep_view(), old(report).deep_view()),
            statements_of(script@),
            0,
        ),
{
    let stmts = statements(script);
    let ghost all = stmts.deep_view();
    let ghost start = (out.deep_view(), report.deep_view());
    let mut i: usize = 0;
    while i < stmts.len()
        invariant
            all == stmts.deep_view(),
            i <= stmts@.len(),
            blocks_read(start, all, 0) == blocks_read(
                (out.deep_view(), report.deep_view()),
                all,
                i as int,
            ),
        decreases stmts@.len() - i,
    {
        assert(all[i as int] == stmts@[i as int].deep_view());
        if let Some(run) = find_jvm_block(&stmts[i]) {
            if let Some(block) = &stmts[i].block {
                read_settings(run, block.as_str(), out, report);
            }
        }
        i = i + 1;
    }
}

} // verus!
