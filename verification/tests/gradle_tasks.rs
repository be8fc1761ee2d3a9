use jrs::gradle_decl::task_name;
use jrs::gradle_lex::literal;
use jrs::gradle_tasks::{keep_loadable, read};
use jrs::manifest::{blank, Manifest};
use jrs::report::Report;
use jrs::task::{Action, Hook};

/// The tasks and hooks `script` becomes, rendered, and the report.
fn migrate(script: &str) -> (Manifest, Report) {
    let mut out = blank("app", "1.0.0", "/p");
    let mut report = Report::default();
    read(script, &mut out, &mut report);
    // Whatever comes out must be a manifest jrs loads.
    Manifest::parse(&out.render(None), "/p/jrs.toml", "/p").unwrap();
    (out, report)
}

fn run(m: &Manifest, name: &str) -> Vec<String> {
    match &m.task(name).unwrap().action {
        Some(Action::Run(argv)) => argv.iter().map(|t| t.raw.clone()).collect(),
        other => panic!("{name}: {other:?}"),
    }
}

fn depends_on(m: &Manifest, name: &str) -> Vec<String> {
    m.task(name)
        .unwrap()
        .depends_on
        .iter()
        .map(|d| d.to_text())
        .collect()
}

#[test]
fn the_kotlin_dsl_spellings_are_read() {
    let (m, report) = migrate(
        r#"
val generateSources by tasks.registering(Exec::class) {
    commandLine("protoc", "--java_out=target/gen", "src/main/proto/a.proto")
    workingDir = file("tools")
}
tasks.register<JavaExec>("runTool") {
    classpath = sourceSets["main"].runtimeClasspath
    mainClass.set("com.example.Tool")
    args("--verbose")
}
tasks.register("all") { dependsOn(generateSources, tasks.named("runTool")) }
tasks.named("compileJava") { dependsOn(generateSources) }
tasks.test { finalizedBy("runTool") }
"#,
    );
    assert_eq!(
        run(&m, "generate-sources"),
        ["protoc", "--java_out=target/gen", "src/main/proto/a.proto"]
    );
    assert_eq!(
        m.task("generate-sources")
            .unwrap()
            .cwd
            .as_ref()
            .unwrap()
            .raw,
        "tools"
    );
    assert_eq!(
        run(&m, "run-tool"),
        [
            "java",
            "@{classpath-argfile}",
            "com.example.Tool",
            "--verbose"
        ]
    );
    assert_eq!(depends_on(&m, "run-tool"), ["build"]);
    assert_eq!(depends_on(&m, "all"), ["generate-sources", "run-tool"]);
    assert_eq!(m.hooks.tasks(Hook::PreCompile), ["generate-sources"]);
    assert_eq!(m.hooks.tasks(Hook::PostTest), ["run-tool"]);
    let review = report.needs_review.join("\n");
    assert!(review.contains("only when the tests pass"), "{review}");
    assert!(report.not_migrated.is_empty(), "{:?}", report.not_migrated);
}

#[test]
fn one_line_blocks_and_groovy_declarations_are_read() {
    let (m, _) = migrate(
        "task lint(type: Exec, dependsOn: ['classes'], description: 'Lint') { \
         executable 'checkstyle'; args '-c', 'rules.xml' }\n\
         task('fmt', type: Exec) { commandLine 'gjf', '--replace' }\n",
    );
    assert_eq!(run(&m, "lint"), ["checkstyle", "-c", "rules.xml"]);
    assert_eq!(depends_on(&m, "lint"), ["build"]);
    assert_eq!(m.task("lint").unwrap().description.as_deref(), Some("Lint"));
    assert_eq!(run(&m, "fmt"), ["gjf", "--replace"]);
}

#[test]
fn a_task_jrs_cannot_read_whole_is_left_out_with_the_reason() {
    let (m, report) = migrate(
        "tasks.register('stamp', Exec) { commandLine 'echo', \"v$version\" }\n\
         tasks.register('lenient', Exec) { commandLine 'true'; ignoreExitValue = true }\n\
         tasks.register('wrap', Exec) { commandLine 'x'; standardOutput = new FileOutputStream('o') }\n\
         tasks.register('after') { dependsOn 'stamp' }\n\
         tasks.register('clean2') { dependsOn 'clean' }\n",
    );
    assert!(m.tasks.is_empty(), "{:?}", m.tasks);
    let skipped = report.not_migrated.join("\n");
    assert!(
        skipped.contains("task `stamp` — `\"v$version\"` is interpolated"),
        "{skipped}"
    );
    assert!(
        skipped.contains("task `lenient` — it ignores the exit code"),
        "{skipped}"
    );
    assert!(
        skipped.contains("task `wrap` — `standardOutput"),
        "{skipped}"
    );
    assert!(
        skipped.contains("task `after` — it depends on `stamp`"),
        "{skipped}"
    );
    assert!(
        skipped.contains("task `clean2` — it depends on `clean`, Gradle's own"),
        "{skipped}"
    );
}

#[test]
fn braces_in_a_command_stay_literal() {
    let (m, _) = migrate("tasks.register('tpl', Exec) { commandLine 'echo', '{root}' }\n");
    assert_eq!(run(&m, "tpl"), ["echo", "{{root}}"]);
    assert!(
        m.task("tpl")
            .unwrap()
            .templates()
            .iter()
            .all(|(_, t)| t.placeholders().is_empty())
    );
}

#[test]
fn a_hook_names_tasks_not_gradles_own() {
    let (m, report) = migrate("test.dependsOn 'jar'\nclasses.dependsOn missing\n");
    assert!(m.hooks.is_empty());
    let skipped = report.not_migrated.join("\n");
    assert!(skipped.contains("`jar` is Gradle's own task"), "{skipped}");
    assert!(
        skipped.contains("`missing` is Gradle's own task"),
        "{skipped}"
    );
}

#[test]
fn a_task_configured_twice_is_left_out() {
    let (m, report) = migrate(
        "tasks.register('gen', Exec) { commandLine 'gen' }\n\
         tasks.named('gen') { environment 'A', 'b' }\n",
    );
    assert!(m.tasks.is_empty());
    let skipped = report.not_migrated.join("\n");
    assert!(skipped.contains("configured again"), "{skipped}");
}

#[test]
fn gradle_names_become_jrs_names() {
    assert_eq!(
        task_name("generateBuildInfo").unwrap(),
        "generate-build-info"
    );
    assert_eq!(task_name("HTMLReport").unwrap(), "html-report");
    assert_eq!(task_name("copy_jars2").unwrap(), "copy-jars2");
    assert_eq!(task_name("lint").unwrap(), "lint");
    assert!(task_name("run").unwrap_err().contains("jrs command"));
    assert!(task_name("2fast").is_err());
}

#[test]
fn literals_decode_escapes_and_spot_templates() {
    let l = literal(r#""a\"b""#).unwrap();
    assert_eq!(l.text, "a\"b");
    assert!(!l.interpolated);
    assert!(literal("\"${x}\"").unwrap().interpolated);
    assert!(
        !literal("'$x'").unwrap().interpolated,
        "single quotes do not interpolate"
    );
    assert!(literal("'a' + 'b'").is_none());
    assert!(literal("name").is_none());
}

#[test]
fn a_manifest_that_would_be_refused_is_not_written() {
    let script = "tasks.register('gen', Exec) {\n  commandLine 'x'\n}\ncompileJava.dependsOn 'gen'\n";
    let (mut out, mut report) = migrate(script);
    assert_eq!(out.hooks.tasks(Hook::PreCompile), ["gen"]);
    let told = report.not_migrated.len();
    out.hooks.add(Hook::PreRun, "missing");
    keep_loadable(&mut out, &mut report);
    assert!(out.hooks.is_empty());
    assert_eq!(out.tasks.len(), 1);
    assert_eq!(
        report.not_migrated[told..],
        ["[hooks] — `hooks.pre-run` names `missing`, which is no task; left out, so hook the tasks by hand"]
    );
    keep_loadable(&mut out, &mut report);
    assert_eq!(report.not_migrated.len(), told + 1);
}

#[test]
fn a_circle_of_tasks_is_left_out() {
    let (m, report) = migrate(
        "tasks.register('a') { dependsOn 'b' }\ntasks.register('b') { dependsOn 'a' }\n",
    );
    assert!(m.tasks.is_empty(), "{:?}", m.tasks);
    assert_eq!(
        report.not_migrated[report.not_migrated.len() - 2..],
        [
            "[hooks] — `tasks.a` leads into a circle of tasks that wait for each other; left out, so hook the tasks by hand",
            "[tasks] — `tasks.a` leads into a circle of tasks that wait for each other; left out"
        ]
    );
}

#[test]
fn a_circle_through_a_hook_costs_the_hooks() {
    let (m, report) = migrate(
        "tasks.register('tool', Exec) { commandLine 'x'; dependsOn 'jar' }\n\
         tasks.register('gen', Exec) { commandLine 'y'; dependsOn 'tool' }\n\
         compileJava.dependsOn 'gen'\n",
    );
    assert!(m.hooks.is_empty());
    assert_eq!(m.tasks.len(), 2);
    assert!(report.not_migrated[report.not_migrated.len() - 1].starts_with("[hooks] — "));
}

#[test]
fn a_variable_set_twice_keeps_its_last_value() {
    let (m, _) = migrate(
        "tasks.register('gen', Exec) {\n\
         commandLine 'x'\n\
         environment 'A', '1'\n\
         environment 'B', 'x'\n\
         environment 'A', '2'\n\
         }\n",
    );
    let env: Vec<(&str, &str)> = m
        .task("gen")
        .unwrap()
        .env
        .iter()
        .map(|(name, t)| (name.as_str(), t.raw.as_str()))
        .collect();
    assert_eq!(env, [("B", "x"), ("A", "2")]);
}

#[test]
fn a_task_that_could_not_be_loaded_is_left_out_with_the_reason() {
    let (m, report) = migrate(
        "tasks.register('blank', Exec) { commandLine ' ', 'x' }\n\
         tasks.register('unnamed', Exec) { commandLine 'x'; environment '', '1' }\n\
         tasks.register('equals', Exec) { commandLine 'x'; environment 'A=B', '1' }\n\
         tasks.register('own', Exec) { commandLine 'x'; environment 'jrs_x', '1' }\n",
    );
    assert!(m.tasks.is_empty(), "{:?}", m.tasks);
    let skipped = report.not_migrated.join("\n");
    assert!(
        skipped.contains("task `blank` — the program it runs is blank"),
        "{skipped}"
    );
    for (task, name) in [("unnamed", ""), ("equals", "A=B"), ("own", "jrs_x")] {
        assert!(
            skipped.contains(&format!(
                "task `{task}` — `{name}` is not an environment variable jrs lets a task set"
            )),
            "{skipped}"
        );
    }
}
