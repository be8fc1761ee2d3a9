use jrs::gradle_generated::{delegate, runs_gradle};
use jrs::gradle_lex::statements;
use jrs::gradle_openapi::{openapi, OPENAPI_MAIN};
use jrs::gradle_paths::{template, Paths};
use jrs::report::Report;
use jrs::task::Action;
use jrs::template::Template;

const SCRIPT: &str = r#"
val jsTomlFile = rootProject.file("gradle/libs.versions.js.toml")
val openApiOutputDir = layout.buildDirectory.dir("generated/sources/openapi")

val generateJsUrls =
  tasks.register("generateJsUrls") {
    val outputDir = layout.buildDirectory.dir("generated/sources/jsUrls/kotlin/pl/app")
    inputs.file(jsTomlFile)
    outputs.dir(outputDir)
    doLast { println("hi") }
  }

openApiGenerate {
  generatorName.set("kotlin")
  inputSpec.set("$rootDir/src/main/resources/api-spec/spec.yml")
  outputDir.set(openApiOutputDir.map { it.asFile.absolutePath })
  modelPackage.set("pl.app.generated")
  modelNameSuffix = "Dto"
  globalProperties.set(
    mapOf(
      "models" to "", // every model
      "apis" to "false", // no // API classes
    ),
  )
  typeMappings.set(mapOf("java.math.BigDecimal" to "Double"))
}
"#;

#[test]
fn paths_are_worked_out_through_variables_providers_and_scopes() {
    let paths = Paths::read(SCRIPT);
    assert_eq!(
        paths
            .path("openApiOutputDir.map { it.asFile.absolutePath }")
            .as_deref(),
        Some("build/generated/sources/openapi")
    );
    assert_eq!(
        paths
            .path("openApiOutputDir.map { it.dir(\"src/main/kotlin\") }")
            .as_deref(),
        Some("build/generated/sources/openapi/src/main/kotlin")
    );
    assert_eq!(
        paths.path("jsTomlFile").as_deref(),
        Some("gradle/libs.versions.js.toml")
    );
    assert_eq!(
        paths
            .path("layout.projectDirectory.dir(\"src\")")
            .as_deref(),
        Some("src")
    );
    assert_eq!(
        paths.path("\"${rootDir}/a/b.yml\"").as_deref(),
        Some("a/b.yml")
    );
    assert_eq!(paths.path("System.getenv(\"X\")"), None);
    assert_eq!(paths.path("\"/abs/path\""), None);
    assert_eq!(paths.path("\"$other/x\""), None);

    let block = "val outputDir = layout.buildDirectory.dir(\"mine\")\n";
    assert_eq!(
        paths.within(block).path("outputDir").as_deref(),
        Some("build/mine"),
        "a task's own val first"
    );
}

#[test]
fn a_build_path_is_the_target_directorys() {
    assert_eq!(template("build/generated/x").raw, "{target}/generated/x");
    assert_eq!(template("build").raw, "{target}");
    assert_eq!(template("src/main").raw, "src/main");
}

#[test]
fn open_api_generate_becomes_the_generators_cli() {
    let mut report = Report::default();
    let def = openapi(SCRIPT, Some("7.21.0"), &Paths::read(SCRIPT), &mut report)
        .unwrap_or_else(|| panic!("{:?}", report.not_migrated));
    let args: Vec<&str> = def.args.iter().map(|t| t.raw.as_str()).collect();
    assert_eq!(
        args,
        [
            "generate",
            "-g",
            "kotlin",
            "-i",
            "{root}/src/main/resources/api-spec/spec.yml",
            "-o",
            "{target}/generated/sources/openapi",
            "--model-package",
            "pl.app.generated",
            "--model-name-suffix",
            "Dto",
            "--global-property",
            "models=,apis=false",
            "--type-mappings",
            "java.math.BigDecimal=Double",
        ]
    );
    assert_eq!(def.action, Some(Action::Main(OPENAPI_MAIN.to_string())));
    assert_eq!(
        def.dependencies[0].to_text(),
        "org.openapitools:openapi-generator-cli:7.21.0"
    );
    assert_eq!(def.outputs[0].raw, "{target}/generated/sources/openapi");
    assert_eq!(def.inputs[0].raw, "src/main/resources/api-spec/spec.yml");
    assert!(report.not_migrated.is_empty(), "{:?}", report.not_migrated);
    assert!(openapi("x = 1\n", Some("7.21.0"), &Paths::empty(), &mut report).is_none());
}

#[test]
fn a_delegated_task_is_fresh_only_when_every_task_says_what_it_touches() {
    let top = statements(SCRIPT);
    let block = top
        .iter()
        .find(|s| s.head.contains("generateJsUrls") && s.block.is_some())
        .and_then(|s| s.block.clone());
    let def = delegate(
        "gradle",
        &vec!["generateJsUrls".to_string()],
        &vec![block],
        &Paths::read(SCRIPT),
        &vec!["build.gradle.kts".to_string()],
    );
    let raw = |ts: &[Template]| ts.iter().map(|t| t.raw.clone()).collect::<Vec<_>>();
    assert_eq!(
        raw(&def.inputs),
        ["build.gradle.kts", "gradle/libs.versions.js.toml"]
    );
    assert_eq!(
        raw(&def.outputs),
        ["{target}/generated/sources/jsUrls/kotlin/pl/app"]
    );
    assert!(runs_gradle(&def));

    let silent = delegate(
        "gradle",
        &vec!["x".to_string()],
        &vec![None],
        &Paths::empty(),
        &vec![],
    );
    assert!(silent.inputs.is_empty() && silent.outputs.is_empty());
}
