use jrs::coord::Ga;
use jrs::dependency::CENTRAL_URL;
use jrs::gradle::{migrate, Build};
use jrs::gradle_files::Files;
use jrs::gradle_jar::jar_attribute_pairs;
use jrs::gradle_plugins::read_plugin;
use jrs::gradle_text::{block_lines, build_file_names, java_version, parse_gav, quoted};
use jrs::language::Language;
use jrs::manifest::Manifest;
use jrs::migration::{application_class, Migration};
use jrs::template::Template;
use std::cell::RefCell;

/// A project's files, in memory.
struct Dir {
    files: RefCell<Vec<(String, String)>>,
}

impl Dir {
    fn new(_name: &str) -> Dir {
        Dir {
            files: RefCell::new(Vec::new()),
        }
    }

    fn write(&self, name: &str, contents: &str) -> String {
        self.files
            .borrow_mut()
            .push((name.to_string(), contents.to_string()));
        name.to_string()
    }

    fn read(&self, name: &str) -> Option<String> {
        let files = self.files.borrow();
        let found = files.iter().rev().find(|(n, _)| n == name);
        found.map(|(_, text)| text.clone())
    }

    fn migrate_file(&self, file: &str) -> Migration {
        let files = self.files.borrow();
        let application = files
            .iter()
            .find_map(|(path, text)| application_class(path, text));
        migrate(&Build {
            file: file.to_string(),
            script: self.read(file).unwrap(),
            root: "/p".to_string(),
            directory: Some("p".to_string()),
            settings: self.read("settings.gradle"),
            settings_kotlin: self.read("settings.gradle.kts"),
            catalog: self.read("gradle/libs.versions.toml"),
            files: Files {
                dirs: Vec::new(),
                files: files.iter().map(|(n, _)| n.clone()).collect(),
            },
            application,
        })
    }

    fn migrate(&self, script: &str) -> Migration {
        let file = self.write("build.gradle", script);
        self.migrate_file(&file)
    }
}

const GROOVY: &str = r#"
plugins {
    id 'java'
    id 'application'
    id 'com.github.johnrengelman.shadow' version '8.1.1'
}

group = 'com.example'
version = '1.0.0'
sourceCompatibility = JavaVersion.VERSION_21

repositories {
    mavenCentral()
    maven { url 'https://nexus.example.com/repository/maven-public/' }
}

dependencies {
    implementation 'com.google.guava:guava:33.0.0-jre'
    api group: 'org.apache.commons', name: 'commons-lang3', version: '3.14.0'
    compileOnly 'org.projectlombok:lombok:1.18.30'
    annotationProcessor 'org.projectlombok:lombok:1.18.30'
    testImplementation 'org.junit.jupiter:junit-jupiter:5.10.2'
    implementation someVariable
}

application {
    mainClass = 'com.example.Main'
}
"#;

#[test]
fn the_declarative_subset_is_translated() {
    let dir = Dir::new("groovy");
    let m = dir.migrate(GROOVY).manifest;
    assert_eq!(m.version, "1.0.0");
    assert_eq!(m.java.source, Some(21));
    assert_eq!(m.main_class.as_deref(), Some("com.example.Main"));

    let deps: Vec<String> = m.dependencies.iter().map(|d| d.to_text()).collect();
    assert_eq!(
        deps,
        vec![
            "com.google.guava:guava:33.0.0-jre",
            "org.apache.commons:commons-lang3:3.14.0",
            "org.projectlombok:lombok:1.18.30",
        ]
    );
    assert_eq!(
        m.dev_dependencies[0].to_text(),
        "org.junit.jupiter:junit-jupiter:5.10.2"
    );
}

#[test]
fn the_report_opens_by_saying_it_is_approximate() {
    let dir = Dir::new("preamble");
    let migration = dir.migrate(GROOVY);
    let preamble = migration.report.preamble.unwrap();
    assert!(preamble.contains("approximate"), "{preamble}");
    assert!(preamble.contains("review"), "{preamble}");
}

#[test]
fn dependencies_built_from_variables_are_reported_not_guessed() {
    let dir = Dir::new("variables");
    let skipped = dir.migrate(GROOVY).report.not_migrated.join("\n");
    assert!(skipped.contains("someVariable"), "{skipped}");
    assert!(skipped.contains("without running Gradle"), "{skipped}");
}

#[test]
fn unknown_plugins_are_reported() {
    let dir = Dir::new("unsupported");
    let skipped = dir.migrate(GROOVY).report.not_migrated.join("\n");
    assert!(skipped.contains("shadow"), "{skipped}");
    assert!(!skipped.contains("id 'java'"), "{skipped}");
}

#[test]
fn compile_only_and_annotation_processors_become_one_compile_only_entry() {
    let dir = Dir::new("processors");
    let migration = dir.migrate(GROOVY);
    let lombok = migration
        .manifest
        .dependencies
        .iter()
        .find(|d| d.artifact == "lombok")
        .unwrap();
    assert!(lombok.compile_only);
    assert_eq!(
        migration
            .manifest
            .dependencies
            .iter()
            .filter(|d| d.artifact == "lombok")
            .count(),
        1
    );
    assert_eq!(migration.manifest.java.javac_args, vec!["-proc:full"]);
    let review = migration.report.needs_review.join("\n");
    assert!(review.contains("annotation processors"), "{review}");
}

#[test]
fn runtime_only_configurations_become_runtime_only() {
    let dir = Dir::new("runtime-only");
    let m = dir
        .migrate(
            "dependencies {\n    runtimeOnly 'org.postgresql:postgresql:42.7.3'\n    \
             runtime 'ch.qos.logback:logback-classic:1.5.6'\n    \
             compileOnly 'org.slf4j:slf4j-api:2.0.12'\n    \
             runtimeOnly 'org.slf4j:slf4j-api:2.0.12'\n    \
             testRuntimeOnly 'org.junit.platform:junit-platform-launcher:1.10.2'\n}\n",
        )
        .manifest;
    let d = &m.dependencies;
    assert_eq!(d.len(), 3);
    assert!(d[0].runtime_only && d[1].runtime_only);
    assert!(
        !d[2].compile_only && !d[2].runtime_only,
        "compileOnly plus runtimeOnly is a plain dependency"
    );
    assert!(!m.dev_dependencies[0].runtime_only);
}

#[test]
fn classifiers_and_exclusions_are_read() {
    let dir = Dir::new("extras");
    let m = dir
        .migrate(
            "dependencies {\n\
             \x20 implementation 'org.lwjgl:lwjgl:3.3.3:natives-linux'\n\
             \x20 implementation group: 'io.netty', name: 'netty-transport-native-epoll', \
             version: '4.1.100.Final', classifier: 'linux-x86_64'\n\
             \x20 implementation('com.google.guava:guava:33.0.0-jre') {\n\
             \x20   exclude group: 'com.google.code.findbugs', module: 'jsr305'\n\
             \x20   exclude module: 'checker-qual'\n\
             \x20 }\n\
             \x20 implementation('g:solo:1.0') { transitive = false }\n\
             \x20 implementation 'g:after:1.0'\n\
             }\n",
        )
        .manifest;
    let keys: Vec<String> = m.dependencies.iter().map(|d| d.key()).collect();
    assert_eq!(
        keys,
        vec![
            "org.lwjgl:lwjgl:natives-linux",
            "io.netty:netty-transport-native-epoll:linux-x86_64",
            "com.google.guava:guava",
            "g:solo",
            "g:after",
        ]
    );
    let exclusions: Vec<String> = m.dependencies[2]
        .exclusions
        .iter()
        .map(|e| e.to_text())
        .collect();
    assert_eq!(
        exclusions,
        vec!["com.google.code.findbugs:jsr305", "*:checker-qual"]
    );
    assert_eq!(m.dependencies[3].exclusions[0].to_text(), "*:*");
    assert!(m.dependencies[4].exclusions.is_empty());
}

#[test]
fn jvm_arguments_are_read_for_run_and_test() {
    let dir = Dir::new("jvm-args");
    let migration = dir.migrate(
        "application {\n  mainClass = 'x.Y'\n  applicationDefaultJvmArgs = ['-Xmx1g', '-Dmode=prod']\n}\n\
         tasks.test {\n  useJUnitPlatform()\n  jvmArgs '-Xmx256m'\n  \
         systemProperty 'env', 'test'\n}\n",
    );
    let m = &migration.manifest;
    assert_eq!(m.run.jvm_args, vec!["-Xmx1g", "-Dmode=prod"]);
    assert_eq!(m.test.jvm_args, vec!["-Xmx256m", "-Denv=test"]);

    let testng = dir.migrate("test {\n  useTestNG()\n}\n");
    assert!(
        testng
            .report
            .not_migrated
            .iter()
            .any(|s| s.contains("TestNG"))
    );
}

#[test]
fn free_compiler_args_become_kotlinc_args_when_they_are_literals() {
    let dir = Dir::new("kotlinc-args");
    let plugin = "plugins {\n  kotlin(\"jvm\") version \"2.2.21\"\n}\n";
    for (body, expected) in [
        (
            "kotlin {\n  compilerOptions {\n    freeCompilerArgs.addAll(\"-Xjsr305=strict\", \
             \"-Xcontext-parameters\")\n  }\n}\n",
            &["-Xjsr305=strict", "-Xcontext-parameters"][..],
        ),
        (
            "kotlin {\n  compilerOptions {\n    freeCompilerArgs.addAll(\n      \
             \"-Xjsr305=strict\",\n      \"-Xcontext-parameters\"\n    )\n  }\n}\n",
            &["-Xjsr305=strict", "-Xcontext-parameters"][..],
        ),
        (
            "tasks.withType<KotlinCompile> {\n  kotlinOptions {\n    \
             freeCompilerArgs += \"-Xjsr305=strict\"\n    jvmTarget = \"17\"\n  }\n}\n",
            &["-Xjsr305=strict"][..],
        ),
        (
            "tasks.withType<KotlinCompile> {\n  kotlinOptions {\n    \
             freeCompilerArgs = freeCompilerArgs + listOf(\"-Xjsr305=strict\")\n  }\n}\n",
            &["-Xjsr305=strict"][..],
        ),
    ] {
        let migration = dir.migrate(&format!("{plugin}{body}"));
        let kotlin = &migration.manifest.languages[0];
        assert_eq!(kotlin.compiler_args, expected, "{body}");
        assert!(migration.report.not_migrated.is_empty(), "{body}");
    }

    let computed = dir.migrate(&format!(
        "{plugin}kotlin {{\n  compilerOptions {{\n    freeCompilerArgs.addAll(strictArgs)\n    \
         freeCompilerArgs.add(\"-Xopt-in=${{optIn}}\")\n  }}\n}}\n"
    ));
    assert!(computed.manifest.languages[0].compiler_args.is_empty());
    let skipped = computed.report.not_migrated.join("\n");
    assert_eq!(
        skipped.matches("not every argument is a literal").count(),
        2,
        "{skipped}"
    );
}

#[test]
fn max_parallel_forks_becomes_test_forks_unless_it_is_computed() {
    let dir = Dir::new("forks");
    for script in [
        "test {\n  maxParallelForks = 3\n}\n",
        "test {\n  maxParallelForks 3\n}\n",
        "tasks.withType<Test> {\n  maxParallelForks = 3\n}\n",
    ] {
        let migration = dir.migrate(script);
        assert_eq!(migration.manifest.test.forks, 3, "{script}");
        assert!(
            migration
                .report
                .migrated
                .iter()
                .any(|s| s == "test.forks = 3 (from maxParallelForks)"),
            "{script}"
        );
    }

    let computed = dir.migrate(
        "test {\n  maxParallelForks = Runtime.runtime.availableProcessors().intdiv(2) ?: 1\n  \
         forkEvery 100\n  maxParallelForksExtra = 2\n}\n",
    );
    assert_eq!(computed.manifest.test.forks, 0);
    let skipped = computed.report.not_migrated.join("\n");
    assert!(skipped.contains("its value is computed"), "{skipped}");
    assert!(
        skipped.contains("`forkEvery 100` — Gradle restarts a test JVM"),
        "{skipped}"
    );
    assert!(!skipped.contains("Extra"), "another setting: {skipped}");

    let default = dir.migrate("test {\n  maxParallelForks = 1\n}\n");
    assert_eq!(default.manifest.test.forks, 0, "one JVM is the default");
}

#[test]
fn the_environment_and_working_directory_of_run_and_test_are_read() {
    let dir = Dir::new("jvm-env");
    let migration = dir.migrate(
        "dependencies {\n  testImplementation 'org.mockito:mockito-core:5.14.2'\n}\n\
         run {\n  workingDir = file('work')\n  environment 'APP_MODE', 'dev'\n  \
         environment 'APP_MODE', 'prod'\n  environment 'BRACES', '{x}'\n}\n\
         test {\n  jvmArgs \"-javaagent:${configurations.mockitoAgent.asPath}\", '-Xmx256m'\n  \
         environment 'TZ', 'UTC'\n  environment 'HOME_DIR', System.getProperty('user.home')\n  \
         environment 'JRS_MODE', 'x'\n  workingDir 'build/tmp'\n}\n",
    );
    let m = &migration.manifest;
    let env = |vars: &[(String, Template)]| -> Vec<(String, String)> {
        vars.iter()
            .map(|(k, v)| (k.clone(), v.raw.clone()))
            .collect()
    };
    assert_eq!(
        env(&m.run.env),
        [
            ("APP_MODE".to_string(), "prod".to_string()),
            ("BRACES".to_string(), "{{x}}".to_string()),
        ],
        "the last value wins, and braces stay literal"
    );
    assert_eq!(m.run.cwd.as_ref().unwrap().raw, "work");
    assert_eq!(env(&m.test.env), [("TZ".to_string(), "UTC".to_string())]);
    assert_eq!(
        m.test.java_agents,
        vec![Ga::new("org.mockito", "mockito-core")]
    );
    assert_eq!(
        m.test.jvm_args,
        vec!["-Xmx256m"],
        "no path into Gradle's cache"
    );

    let skipped = migration.report.not_migrated.join("\n");
    assert!(skipped.contains("HOME_DIR"), "{skipped}");
    assert!(skipped.contains("JRS_MODE"), "{skipped}");
    assert!(skipped.contains("no `test.cwd`"), "{skipped}");

    // The manifest this writes is one jrs reads back the same.
    let again =
        Manifest::parse(&m.render(None), "/p/jrs.toml", "/p").unwrap();
    assert_eq!(again.run, m.run);
    assert_eq!(again.test, m.test);
}

#[test]
fn the_kotlin_dsl_names_the_run_task_and_an_unknown_agent_is_reported() {
    let dir = Dir::new("jvm-env-kts");
    let migration = dir.migrate(
        "application {\n  applicationDefaultJvmArgs = listOf(\"-javaagent:/opt/otel.jar\", \"-Xmx1g\")\n}\n\
         tasks.named<JavaExec>(\"run\") {\n  workingDir = projectDir\n  environment(\"A\", \"b\")\n}\n\
         tasks.withType<Test> {\n  environment(mapOf(\"C\" to \"d\"))\n  jvmArgs(\"-javaagent:/opt/x.jar\")\n}\n",
    );
    let m = &migration.manifest;
    assert_eq!(m.run.cwd.as_ref().unwrap().raw, ".", "Gradle's default");
    assert_eq!(m.run.env.len(), 1);
    assert_eq!(m.run.jvm_args, vec!["-Xmx1g"]);
    assert!(m.run.java_agents.is_empty() && m.test.java_agents.is_empty());
    assert!(m.test.env.is_empty());
    let skipped = migration.report.not_migrated.join("\n");
    assert!(skipped.contains("-javaagent:/opt/otel.jar"), "{skipped}");
    assert!(skipped.contains("run.java-agents"), "{skipped}");
    assert!(skipped.contains("test.java-agents"), "{skipped}");
    assert!(skipped.contains("mapOf"), "{skipped}");
}

#[test]
fn repositories_are_read_with_central_left_implicit() {
    let dir = Dir::new("repos");
    let m = dir.migrate(GROOVY).manifest;
    assert_eq!(m.repositories.len(), 2);
    assert_eq!(
        m.repositories[0].url,
        "https://nexus.example.com/repository/maven-public"
    );
    assert_eq!(m.repositories[0].name, "nexus");
    assert_eq!(m.repositories[1].url, CENTRAL_URL);
}

#[test]
fn jar_attributes_are_read_in_the_kotlin_dsl() {
    let dir = Dir::new("jar-kts");
    let migration = dir.migrate(
        "version = \"1.0\"\n\ntasks.jar {\n    manifest {\n        \
         attributes(mapOf(\"Implementation-Title\" to \"kts\", \
         \"Implementation-Version\" to project.version))\n        \
         attributes[\"Automatic-Module-Name\"] = \"com.example.kts\"\n        \
         attributes(\"X-Commit\" to \"${gitCommit}\", \"X-Brace\" to \"a{b}\")\n    \
         }\n}\n",
    );
    let attributes: Vec<(&str, &str)> = migration
        .manifest
        .package
        .manifest
        .iter()
        .map(|(n, t)| (n.as_str(), t.raw.as_str()))
        .collect();
    assert_eq!(
        attributes,
        [
            ("Implementation-Title", "kts"),
            ("Implementation-Version", "{project.version}"),
            ("Automatic-Module-Name", "com.example.kts"),
            ("X-Brace", "a{{b}}"),
        ]
    );
    let skipped = migration.report.not_migrated.join("\n");
    assert!(
        skipped.contains("`X-Commit` — its value is computed"),
        "{skipped}"
    );
}

#[test]
fn the_word_attributes_inside_a_string_is_not_a_call() {
    assert!(jar_attribute_pairs("description = 'no attributes(here)'\n").is_empty());
    assert_eq!(
        jar_attribute_pairs("attributes('A': 'x', 'B': version)"),
        [
            ("A".to_string(), "'x'".to_string()),
            ("B".to_string(), "version".to_string())
        ]
    );
}

#[test]
fn the_kotlin_dsl_reads_the_same() {
    let dir = Dir::new("kts");
    let file = dir.write(
        "build.gradle.kts",
        r#"
version = "2.0.0"
java {
    toolchain {
        languageVersion.set(JavaLanguageVersion.of(17))
    }
}
dependencies {
    implementation("com.google.guava:guava:33.0.0-jre")
    testImplementation("org.junit.jupiter:junit-jupiter:5.10.2")
}
application {
    mainClass.set("com.example.Boot")
}
"#,
    );
    let m = dir.migrate_file(&file).manifest;
    assert_eq!(m.version, "2.0.0");
    assert_eq!(m.java.source, Some(17));
    assert_eq!(m.main_class.as_deref(), Some("com.example.Boot"));
    assert_eq!(m.dependencies.len(), 1);
    assert_eq!(m.dev_dependencies.len(), 1);
}

#[test]
fn the_project_name_comes_from_settings_gradle() {
    let dir = Dir::new("settings");
    dir.write("settings.gradle", "rootProject.name = 'my-app'\n");
    assert_eq!(dir.migrate("version = '1.0'").manifest.name, "my-app");
}

#[test]
fn multi_project_includes_are_listed() {
    let dir = Dir::new("includes");
    dir.write(
        "settings.gradle",
        "rootProject.name = 'root'\ninclude 'core', 'web'\n",
    );
    let skipped = dir.migrate("").report.not_migrated.join("\n");
    assert!(skipped.contains("core, web"), "{skipped}");
}

#[test]
fn version_catalog_references_resolve() {
    let dir = Dir::new("catalog");
    dir.write(
        "gradle/libs.versions.toml",
        r#"
[versions]
guava = "33.0.0-jre"

[libraries]
guava = { module = "com.google.guava:guava", version.ref = "guava" }
commons-lang3 = { group = "org.apache.commons", name = "commons-lang3", version = "3.14.0" }
junit = "org.junit.jupiter:junit-jupiter:5.10.2"
"#,
    );
    let migration = dir.migrate(
        "dependencies {\n  implementation(libs.guava)\n  \
         implementation libs.commons.lang3\n  \
         testImplementation(libs.junit)\n  \
         implementation(libs.missing.alias)\n}\n",
    );
    let deps: Vec<String> = migration
        .manifest
        .dependencies
        .iter()
        .map(|d| d.to_text())
        .collect();
    assert_eq!(
        deps,
        vec![
            "com.google.guava:guava:33.0.0-jre",
            "org.apache.commons:commons-lang3:3.14.0",
        ]
    );
    assert_eq!(migration.manifest.dev_dependencies.len(), 1);

    let skipped = migration.report.not_migrated.join("\n");
    assert!(skipped.contains("missing.alias"), "{skipped}");
}

#[test]
fn comments_do_not_become_dependencies() {
    let dir = Dir::new("comments");
    let m = dir
        .migrate(
            "dependencies {\n  // implementation 'commented:out:1.0'\n  \
             /* implementation 'also:out:1.0' */\n  \
             implementation 'real:dep:1.0'\n}\n",
        )
        .manifest;
    assert_eq!(m.dependencies.len(), 1);
    assert_eq!(m.dependencies[0].to_text(), "real:dep:1.0");
}

#[test]
fn a_url_inside_a_comment_is_not_a_repository() {
    let dir = Dir::new("comment-url");
    let m = dir
        .migrate("repositories {\n  // maven { url 'https://old.example.com' }\n  mavenCentral()\n}\n")
        .manifest;
    assert_eq!(m.repositories.len(), 1);
    assert_eq!(m.repositories[0].url, CENTRAL_URL);
}

#[test]
fn a_missing_version_defaults_and_says_so() {
    let dir = Dir::new("no-version");
    let migration = dir.migrate("dependencies {\n}\n");
    assert_eq!(migration.manifest.version, "0.1.0");
    assert!(
        migration
            .report
            .needs_review
            .iter()
            .any(|r| r.contains("0.1.0")),
        "{:?}",
        migration.report.needs_review
    );
}

#[test]
fn an_interpolated_coordinate_is_refused_rather_than_written_out() {
    assert_eq!(parse_gav("com.example:thing:1.0").unwrap().version, "1.0");
    assert_eq!(
        parse_gav("com.example:thing:1.0:tests")
            .unwrap()
            .classifier
            .as_deref(),
        Some("tests")
    );
    assert!(parse_gav("com.example:thing:1.0@jar").is_some());
    assert!(parse_gav("com.example:thing:1.0@aar").is_none());
    assert!(parse_gav("com.example:thing:$version").is_none());
    assert!(parse_gav("com.example:thing:${version}").is_none());

    let dir = Dir::new("interpolated");
    let migration =
        dir.migrate("def v = '1.0'\ndependencies {\n  implementation \"g:a:$v\"\n}\n");
    assert!(migration.manifest.dependencies.is_empty());
    let skipped = migration.report.not_migrated.join("\n");
    assert!(
        skipped.contains("interpolated from a variable"),
        "{skipped}"
    );
}

#[test]
fn java_versions_parse_in_every_spelling() {
    assert_eq!(java_version("21"), Some(21));
    assert_eq!(java_version("'1.8'"), Some(8));
    assert_eq!(java_version("JavaVersion.VERSION_21"), Some(21));
    assert_eq!(java_version("JavaVersion.VERSION_1_8"), Some(8));
    assert_eq!(java_version("whatever"), None);
}

#[test]
fn blocks_are_brace_balanced() {
    let script = "dependencies {\n  a { nested }\n  b\n}\nafter\n";
    assert_eq!(
        block_lines(script, "dependencies"),
        vec!["  a { nested }", "  b"]
    );
}

#[test]
fn quoted_literals_are_extracted_in_order() {
    assert_eq!(quoted("implementation 'a:b:c'"), vec!["a:b:c"]);
    assert_eq!(
        quoted(r#"group: "g", name: 'n'"#),
        vec!["g".to_string(), "n".to_string()]
    );
    assert!(quoted("no literals here").is_empty());
}

#[test]
fn build_file_names_are_the_ones_detection_looks_for() {
    assert_eq!(build_file_names(), ["build.gradle", "build.gradle.kts"]);
}

#[test]
fn the_groovy_dsl_names_kotlin_by_plugin_id() {
    let dir = Dir::new("kotlin-ids");
    let migration = dir.migrate(
        "plugins {\n  id 'org.jetbrains.kotlin.jvm' version '2.2.0'\n  \
         id 'org.jetbrains.kotlin.plugin.jpa' version '2.2.0'\n}\n\
         kotlin {\n  jvmToolchain {\n    languageVersion = JavaLanguageVersion.of(17)\n  }\n}\n\
         dependencies {\n  implementation 'org.jetbrains.kotlin:kotlin-stdlib:2.2.0'\n}\n",
    );
    let m = &migration.manifest;
    assert_eq!(m.language(Language::Kotlin).unwrap().version, "2.2.0");
    assert_eq!(m.java.jdk, Some(17));
    assert_eq!(
        m.java.source, None,
        "Kotlin's toolchain pins the JDK, not the release"
    );
    assert!(m.dependencies.is_empty(), "the stdlib is implied");
    let skipped = migration.report.not_migrated.join("\n");
    assert!(skipped.contains("plugin.jpa"), "{skipped}");
    assert!(skipped.contains("JPA"), "{skipped}");
    assert!(!skipped.contains("no plugin system"), "{skipped}");
}

#[test]
fn kotlin_modules_need_a_kotlin_version_jrs_can_use() {
    let dir = Dir::new("kotlin-old");
    let migration = dir.migrate(
        "plugins {\n  id(\"org.jetbrains.kotlin.jvm\") version \"1.9.24\"\n}\n\
         kotlin { jvmToolchain(21) }\n\
         dependencies {\n  implementation(kotlin(\"stdlib-jdk8\"))\n}\n",
    );
    let m = &migration.manifest;
    assert!(m.languages.is_empty());
    assert!(m.dependencies.is_empty());
    assert_eq!(m.java.jdk, Some(21), "one line is enough for jvmToolchain");
    let skipped = migration.report.not_migrated.join("\n");
    assert!(skipped.contains("Kotlin 2.0"), "{skipped}");
    assert!(skipped.contains("kotlin(\"stdlib-jdk8\")"), "{skipped}");
    let text = migration.render_manifest();
    Manifest::parse(&text, "/p/jrs.toml", "/p").unwrap();
}

#[test]
fn scala_and_groovy_take_their_librarys_version() {
    let dir = Dir::new("library-versions");
    let file = dir.write(
        "build.gradle.kts",
        "plugins {\n  scala\n}\n\
         dependencies {\n  implementation(\"org.scala-lang:scala-library:2.13.16\")\n}\n",
    );
    let scala = dir.migrate_file(&file);
    assert_eq!(
        scala.manifest.language(Language::Scala).unwrap().version,
        "2.13.16"
    );
    assert!(scala.manifest.dependencies.is_empty());

    let groovy = dir.migrate(
        "plugins {\n  id(\"groovy\")\n}\n\
         dependencies {\n  implementation 'org.codehaus.groovy:groovy:3.0.22'\n}\n",
    );
    assert!(groovy.manifest.languages.is_empty());
    assert_eq!(groovy.manifest.dependencies.len(), 1, "kept as it was");
    let skipped = groovy.report.not_migrated.join("\n");
    assert!(skipped.contains("org.apache.groovy"), "{skipped}");
}

#[test]
fn plugin_lines_are_read_in_every_spelling() {
    let read = |line: &str| {
        let p = read_plugin(line).unwrap();
        (p.id, p.version)
    };
    let some = |s: &str| Some(s.to_string());
    assert_eq!(
        read("kotlin(\"jvm\") version \"2.2.0\""),
        ("org.jetbrains.kotlin.jvm".into(), some("2.2.0"))
    );
    assert_eq!(
        read("id(\"x.y\").version(\"1.0\")"),
        ("x.y".into(), some("1.0"))
    );
    assert_eq!(read("id 'x.y' version '1.0'"), ("x.y".into(), some("1.0")));
    assert_eq!(read("`java-library`"), ("java-library".into(), None));
    assert_eq!(
        read("kotlin(\"jvm\") version kotlinVersion"),
        ("org.jetbrains.kotlin.jvm".into(), None)
    );
    assert!(read_plugin("alias(libs.plugins.x)").is_none());
}

#[test]
fn platforms_constraints_and_dependency_management_become_managed() {
    let dir = Dir::new("managed");
    let migration = dir.migrate(
        "plugins { id 'java' }\n\
         dependencyManagement {\n    \
             imports { mavenBom 'org.springframework.cloud:spring-cloud-dependencies:2025.0.0' }\n    \
             dependencies {\n        dependency 'com.google.guava:guava:33.0.0-jre'\n    }\n\
         }\n\
         dependencies {\n    \
             implementation platform('io.micronaut.platform:micronaut-platform:4.5.0')\n    \
             implementation(enforcedPlatform(\"com.fasterxml.jackson:jackson-bom:2.19.0\"))\n    \
             implementation 'org.springframework.cloud:spring-cloud-starter-config'\n    \
             constraints {\n        \
                 implementation 'org.slf4j:slf4j-api:2.0.17'\n        \
                 implementation('org.yaml:snakeyaml') { version { strictly '2.2' } }\n    \
             }\n    \
             constraints { runtimeOnly 'org.postgresql:postgresql:42.7.3' }\n\
         }\n",
    );
    let m = &migration.manifest;
    let managed: Vec<(String, bool)> = m
        .managed
        .iter()
        .map(|x| (format!("{}:{}", x.key(), x.version), x.bom))
        .collect();
    assert_eq!(
        managed,
        [
            (
                "org.springframework.cloud:spring-cloud-dependencies:2025.0.0".to_string(),
                true
            ),
            ("com.google.guava:guava:33.0.0-jre".to_string(), false),
            (
                "io.micronaut.platform:micronaut-platform:4.5.0".to_string(),
                true
            ),
            ("com.fasterxml.jackson:jackson-bom:2.19.0".to_string(), true),
            ("org.slf4j:slf4j-api:2.0.17".to_string(), false),
            ("org.postgresql:postgresql:42.7.3".to_string(), false),
        ]
    );
    // Platforms and constraints are not dependencies.
    assert_eq!(m.dependencies.len(), 1, "{:?}", m.dependencies);
    assert!(m.dependencies[0].is_managed());
    let review = migration.report.needs_review.join("\n");
    assert!(review.contains("enforcedPlatform"), "{review}");
    let skipped = migration.report.not_migrated.join("\n");
    assert!(skipped.contains("snakeyaml"), "{skipped}");
    let text = migration.render_manifest();
    Manifest::parse(&text, "/p/jrs.toml", "/p").unwrap();
}

#[test]
fn a_dependency_without_a_version_needs_something_to_manage_it() {
    let dir = Dir::new("versionless");
    let migration = dir.migrate(
        "dependencies {\n    implementation 'org.example:lib'\n    \
         implementation group: 'org.example', name: 'other'\n}\n",
    );
    assert!(migration.manifest.dependencies.is_empty());
    let skipped = migration.report.not_migrated.join("\n");
    assert_eq!(
        skipped
            .matches("has no version, and nothing in the build manages one")
            .count(),
        2,
        "{skipped}"
    );
}

#[test]
fn the_spring_boot_plugin_needs_a_version_to_bring_its_bom() {
    let dir = Dir::new("boot-no-version");
    dir.write(
        "src/main/kotlin/com/example/App.kt",
        "package com.example\n\n@SpringBootApplication\nclass App\n",
    );
    let migration = dir.migrate(
        "plugins {\n    id 'org.springframework.boot'\n    \
         id 'io.spring.dependency-management'\n    \
         id 'org.jetbrains.kotlin.jvm' version '2.4.20'\n}\n",
    );
    let m = &migration.manifest;
    assert!(m.managed.is_empty());
    assert_eq!(m.java.javac_args, vec!["-parameters"]);
    assert_eq!(
        m.main_class.as_deref(),
        Some("com.example.AppKt"),
        "Kotlin's main function compiles into <File>Kt"
    );
    let skipped = migration.report.not_migrated.join("\n");
    assert!(
        skipped.contains("Spring Boot's BOM was not added"),
        "{skipped}"
    );
    assert!(!skipped.contains("no plugin system"), "{skipped}");
}
