//! Each law on concrete values.

use jrs::chars::{to_lower, to_upper};
use jrs::coverage::{CoverageCounter, CoverageMinimum};
use jrs::dependency::{group_matches, Repository, CENTRAL_URL};
use jrs::error::JrsError;
use jrs::fresh::fresh_name;
use jrs::gradle::{migrate, Build};
use jrs::gradle_decl::task_name;
use jrs::gradle_files::{jars_in, Files};
use jrs::gradle_generated::{delegate, runs_gradle};
use jrs::gradle_text::{block_lines, strip_comments};
use jrs::gradle_vars::Variables;
use jrs::language::Language;
use jrs::manifest::Manifest;
use jrs::maven::{migrate as migrate_maven, PomFile, Project};
use jrs::maven_profiles::apply;
use jrs::migration::Migration;
use jrs::order::{is_before, place};
use jrs::paths::is_same_dir;
use jrs::pom::Pom;
use jrs::render::quote;
use jrs::report::Report;
use jrs::task::{Builtin, Hook, Hooks};
use jrs::template::{Placeholder, Template};
use jrs::version::{check_jrs_version, release_parts};

fn parse(text: &str) -> Manifest {
    Manifest::parse(text, "/p/jrs.toml", "/p").unwrap()
}

fn project(extra: &str) -> Manifest {
    parse(&format!(
        "[project]\nname = \"app\"\nversion = \"1.0.0\"\n{extra}"
    ))
}

fn gradle(script: &str) -> Migration {
    migrate(&Build {
        file: "build.gradle".to_string(),
        script: script.to_string(),
        root: "/p".to_string(),
        directory: Some("p".to_string()),
        settings: None,
        settings_kotlin: None,
        catalog: None,
        files: Files {
            dirs: Vec::new(),
            files: Vec::new(),
        },
        application: None,
    })
}

#[test]
fn what_was_read_and_rendered_is_read_back() {
    let text = r#"
[project]
name = "odd"
version = "1.0 \"beta\" \\ é"
main-class = "com.example.Main"
source-dir = "sources"
test-dir = "tests/unit"
jrs-version = "0.1"

[java]
source = 21
target = 17
encoding = "utf8"
javac-args = ["-Xlint:all", "-a\tb", "-line\nline"]
javadoc-args = []
jdk = 21

[kotlin]
version = " 2.4.20 "
kotlinc-args = ["-Werror"]

[groovy]
version = "5.1.2"
source-dir = "src/groovy"

[run]
jvm-args = ["-Xmx512m"]
java-agents = ["org.example:agent"]
env = { "A B" = "{root}/x", C = "{{literal}}" }
cwd = "{root}/work"

[test]
jacoco-version = "0.8.12"
retries = 3
coverage-minimum = { line = 0.8, branch = 0.7125, class = 1, method = 0 }

[package]
add-modules = ["jdk.unsupported"]

[package.manifest]
Implementation-Title = "{project.name}"

[managed]
"org.example:bom" = { version = "1.0", bom = true }
"org.example:pinned" = "2.0"

[dependencies]
"org.example:a" = "1.0"
"org.example:b:natives-linux" = "1.0"
"org.example:c" = { version = "1.0", classifier = "3d" }
"org.example:d" = { exclusions = ["x:*", "y:z"] }
"org.example:e" = {}
driver = { path = "libs/driver.jar", runtime-only = true }

[dev-dependencies]
"org.junit:junit" = "5.0"

[repositories]
acme = { url = "https://acme.example/maven/", groups = ["com.acme.*"] }
other = "https://other.example"

[tasks.gen]
description = "Generates"
main = "com.example.Gen"
args = ["--out", "{target}/gen"]
depends-on = ["prepare", "build"]
outputs = ["{target}/gen"]
source-outputs = ["{target}/gen"]

[tasks.gen.dependencies]
"org.example:tool" = "1.0"

[tasks.prepare]
shell = "echo \"a\"\necho b"

[hooks]
post-test = ["gen"]
pre-compile = ["prepare"]
"#;
    let m = parse(text);
    assert!(m.warnings.is_empty(), "{:?}", m.warnings);
    let comment = "Written by hand.\nTwice: \u{e9}\t.";
    for header in [None, Some(comment)] {
        let written = m.render(header);
        let again = parse(&written);
        assert_eq!(format!("{again:?}"), format!("{m:?}"), "{written}");
    }
}

#[test]
fn directories_are_read_back_however_they_are_written() {
    let m = project(
        "source-dir = 'src/'\ntest-dir = './tests//unit/'\nresource-dir = 'res/./main'\n\
         target-dir = 'target/'\n[kotlin]\nversion = '2.4.20'\nsource-dir = 'src/main/kotlin/'\n",
    );
    let again = parse(&m.render(None));
    assert_eq!(again.source_dir, "src");
    assert_eq!(again.test_dir, "./tests/unit");
    assert_eq!(again.resource_dir, "res/main");
    assert_eq!(again.test_resource_dir, "./tests/resources");
    assert_eq!(again.target_dir, "target");
    for (a, b) in [
        (&again.source_dir, &m.source_dir),
        (&again.test_dir, &m.test_dir),
        (&again.resource_dir, &m.resource_dir),
        (&again.test_resource_dir, &m.test_resource_dir),
        (&again.target_dir, &m.target_dir),
    ] {
        assert!(is_same_dir(a, b), "{a} {b}");
    }
    assert_eq!(again.languages, m.languages);
    assert!(!is_same_dir("./src", "src"));
    assert!(!is_same_dir("src", "/src"));
}

#[test]
fn a_key_like_the_date_mark_is_read_back_behind_another() {
    let m = project("[run]\nenv = { A = 'x', '$__toml_private_datetime' = 'y' }\n");
    let again = parse(&m.render(None));
    assert_eq!(again.run, m.run);
    assert_eq!(m.run.env.len(), 2);
}

#[test]
fn a_document_has_no_key_twice_and_no_table_that_starts_with_the_date_mark() {
    let read = |extra: &str| {
        Manifest::parse(
            &format!("[project]\nname = 'a'\nversion = '1'\n{extra}"),
            "jrs.toml",
            ".",
        )
    };
    assert!(read("[run]\nenv = { A = 'x', A = 'y' }\n").is_err());
    assert!(read("[tasks.t]\nshell = 'x'\n[tasks.t]\nshell = 'y'\n").is_err());
    assert!(read("[run]\nenv = { '$__toml_private_datetime' = 'x' }\n").is_err());
    assert!(read("[run]\nenv = { '$__toml_private_datetime' = '1979-05-27' }\n").is_err());
    assert!(read("[repositories]\n'$__toml_private_datetime' = 'https://x'\n").is_err());
}

#[test]
fn classifiers_are_read_back_wherever_they_are_written() {
    let m = project(
        "[dependencies]\n'g:a' = { version = '1', classifier = '3d' }\n'g:a:linux' = '1'\n\
         'g:b' = { version = '1', classifier = 'linux' }\n'g:c:linux' = '1'\n'g:c' = '1'\n",
    );
    let keys: Vec<String> = m.dependencies.iter().map(|d| d.key()).collect();
    assert_eq!(keys, ["g:a:3d", "g:a:linux", "g:b:linux", "g:c:linux", "g:c"]);
    let again = parse(&m.render(None));
    assert_eq!(again.dependencies, m.dependencies);
}

#[test]
fn unknown_keys_change_nothing_but_the_warnings() {
    let with = project("[surprise]\na = 1\n[java]\nsource = 21\n");
    let without = project("[java]\nsource = 21\n");
    assert_eq!(with.warnings.len(), 1);
    assert_eq!(with.java, without.java);
    assert_eq!(with.repositories, without.repositories);
}

#[test]
fn dependencies_stand_in_the_order_they_are_declared_in() {
    let m = project("[dependencies]\n'z:z' = '1'\n'a:a' = '1'\nm = { path = 'm.jar' }\n'b:b' = '1'\n");
    let keys: Vec<String> = m.dependencies.iter().map(|d| d.key()).collect();
    assert_eq!(keys, ["z:z", "a:a", "m", "b:b"]);
}

#[test]
fn a_key_is_declared_once() {
    let err = Manifest::parse(
        "[project]\nname = 'a'\nversion = '1'\n[dependencies]\n'g:a:tests' = '1'\n'g:a' = { version = '1', classifier = 'tests' }\n",
        "jrs.toml",
        ".",
    )
    .unwrap_err();
    assert_eq!(
        err,
        JrsError::Manifest("`dependencies` declares `g:a:tests` twice".to_string())
    );
}

#[test]
fn central_is_the_last_repository_of_every_manifest() {
    for (extra, names) in [
        ("", vec!["central"]),
        ("[repositories]\nx = 'https://x.example'\n", vec!["x", "central"]),
        (
            "[repositories]\nmirror = 'https://repo1.maven.org/maven2/'\ninternal = 'https://x'\n",
            vec!["internal", "central"],
        ),
        (
            "[repositories]\nacme = { url = 'https://repo1.maven.org/maven2', groups = ['com.acme'] }\n",
            vec!["acme", "central"],
        ),
    ] {
        let m = project(extra);
        let last = m.repositories.last().unwrap();
        assert_eq!(last, &Repository::new("central", CENTRAL_URL), "{extra}");
        let all: Vec<&str> = m.repositories.iter().map(|r| r.name.as_str()).collect();
        assert_eq!(all, names, "{extra}");
        let again = parse(&m.render(None));
        assert_eq!(again.repositories, m.repositories, "{extra}");
    }
}

#[test]
fn tasks_stand_in_their_order_under_their_names() {
    let m = project("[tasks.b]\nrun = ['x']\n[tasks.a]\nrun = ['y']\n");
    let names: Vec<&str> = m.tasks.iter().map(|t| t.name.as_str()).collect();
    assert_eq!(names, ["b", "a"]);
}

#[test]
fn an_attribute_that_was_read_can_be_expanded() {
    let m = project("[package.manifest]\nTitle = 'the {project.name} at {project.version}'\n");
    assert_eq!(
        m.jar_attributes(),
        Ok(vec![("Title".to_string(), "the app at 1.0.0".to_string())])
    );
}

#[test]
fn implied_libraries_follow_the_declared_ones() {
    let m = project("[kotlin]\nversion = '2.4.20'\n[dependencies]\n'g:a' = '1'\n");
    let keys: Vec<String> = m.effective_dependencies().iter().map(|d| d.key()).collect();
    assert_eq!(keys, ["g:a", "org.jetbrains.kotlin:kotlin-stdlib"]);
    let m = project(
        "[kotlin]\nversion = '2.4.20'\n[dependencies]\n'org.jetbrains.kotlin:kotlin-stdlib' = '2.4.20'\n",
    );
    assert!(m.implied_dependencies().is_empty());
    assert!(m.language(Language::Kotlin).is_some());
}

#[test]
fn names_are_read_as_what_they_name() {
    for c in [
        CoverageCounter::Instruction,
        CoverageCounter::Branch,
        CoverageCounter::Line,
        CoverageCounter::Complexity,
        CoverageCounter::Method,
        CoverageCounter::Class,
    ] {
        assert_eq!(CoverageCounter::from_key(c.key()), Some(c));
    }
    for b in [Builtin::Build, Builtin::Test, Builtin::Package, Builtin::Doc] {
        assert_eq!(Builtin::parse(b.name()), Some(b));
    }
    for p in [Placeholder::Root, Placeholder::Jar, Placeholder::TestClasspath] {
        assert_eq!(Placeholder::named(p.name()), Some(p));
    }
    assert_eq!(Builtin::parse("clean"), None);
}

#[test]
fn ratios_are_written_with_the_digits_they_need() {
    let ratio = |basis_points: u32| {
        CoverageMinimum {
            counter: CoverageCounter::Line,
            basis_points,
        }
        .ratio()
    };
    assert_eq!(ratio(8000), "0.8");
    assert_eq!(ratio(8125), "0.8125");
    assert_eq!(ratio(5), "0.0005");
    assert_eq!(ratio(0), "0.0");
    assert_eq!(ratio(10000), "1.0");
    let m = project("[test]\ncoverage-minimum = { line = 0.8125, branch = 1 }\n");
    assert_eq!(m.test.coverage_minimum[0].basis_points, 8125);
    assert_eq!(m.test.coverage_minimum[1].basis_points, 10000);
}

#[test]
fn every_ratio_is_read_as_it_is_written() {
    for basis_points in (0..=10000).step_by(7) {
        let minimum = CoverageMinimum {
            counter: CoverageCounter::Line,
            basis_points,
        };
        let m = project(&format!(
            "[test]\ncoverage-minimum = {{ line = {} }}\n",
            minimum.ratio()
        ));
        assert_eq!(m.test.coverage_minimum[0].basis_points, basis_points);
    }
}

#[test]
fn patterns_claim_a_group_or_what_is_under_it() {
    assert!(group_matches("com.acme", "com.acme"));
    assert!(!group_matches("com.acme", "com.acme.lib"));
    assert!(group_matches("com.acme.*", "com.acme.lib"));
    assert!(!group_matches("com.acme.*", "com.acme"));
    let mut r = Repository::new("acme", "https://acme.example");
    assert!(!r.claims("com.acme"));
    r.groups.push("com.acme".to_string());
    assert!(r.claims("com.acme"));
}

#[test]
fn the_manifest_nearest_is_found() {
    let present = vec!["/a/jrs.toml".to_string(), "/a/b/jrs.toml".to_string()];
    assert_eq!(
        Manifest::discover("/a/b/c", "/", &present),
        Ok("/a/b/jrs.toml".to_string())
    );
    assert_eq!(
        Manifest::discover("../x", "/a/b", &present),
        Ok("/a/jrs.toml".to_string())
    );
    assert_eq!(
        Manifest::candidates(".", "/a/b"),
        ["/a/b/jrs.toml", "/a/jrs.toml", "/jrs.toml"]
    );
    let err = Manifest::discover("./d", "/x", &present).unwrap_err();
    assert!(
        err.to_text()
            .starts_with("no `jrs.toml` in /x/d or any parent directory\n\nrun `jrs init`"),
        "{err:?}"
    );
}

#[test]
fn a_manifest_is_loaded_from_its_text() {
    let m = Manifest::load(
        "/p/app/jrs.toml",
        Some("[project]\nname = 'a'\nversion = '1'\n"),
    )
    .unwrap();
    assert_eq!(m.root, "/p/app");
    let m = Manifest::load("jrs.toml", Some("[project]\nname = 'a'\nversion = '1'\n")).unwrap();
    assert_eq!(m.root, ".");
    let err = Manifest::load("/p/jrs.toml", None).unwrap_err();
    assert_eq!(err.exit_code(), 2);
    assert!(
        err.to_text()
            .starts_with("no `jrs.toml` found at /p/jrs.toml\n\nrun `jrs init`"),
        "{err:?}"
    );
}

#[test]
fn fresh_names_are_not_taken() {
    let taken = vec!["a".to_string(), "a-2".to_string()];
    assert_eq!(fresh_name(&taken, "a"), "a-3");
    assert_eq!(fresh_name(&taken, "b"), "b");
}

#[test]
fn gradle_names_become_task_names() {
    assert_eq!(task_name("generateSources"), Ok("generate-sources".to_string()));
    for (gradle, name) in [
        ("generateBuildInfo", "generate-build-info"),
        ("HTMLReport", "html-report"),
        ("a__b.-C_", "a-b-c"),
    ] {
        assert_eq!(task_name(gradle), Ok(name.to_string()));
        assert_eq!(task_name(name), Ok(name.to_string()));
    }
    assert!(task_name("build").is_err());
}

#[test]
fn a_library_declared_twice_is_one_entry() {
    let m = gradle(
        "dependencies {\n  compileOnly 'org.projectlombok:lombok:1.18.30'\n  implementation 'org.projectlombok:lombok:1.18.30'\n}\n",
    );
    assert_eq!(m.manifest.dependencies.len(), 1);
    assert!(!m.manifest.dependencies[0].compile_only);
}

#[test]
fn every_declaration_leaves_a_trace() {
    for line in [
        "implementation 'g:a:1'",
        "implementation 'g:a'",
        "implementation something",
        "implementation files('x.jar')",
        "implementation fileTree('libs')",
        "implementation libs.nothing",
        "implementation kotlin('reflect')",
    ] {
        let with = gradle(&format!("dependencies {{\n  {line}\n}}\n")).report;
        let without = gradle("dependencies {\n}\n").report;
        let count = |r: &Report| r.migrated.len() + r.needs_review.len() + r.not_migrated.len();
        assert!(count(&with) > count(&without), "{line}");
    }
}

#[test]
fn a_tree_lists_the_jars_of_its_directory() {
    let files = Files {
        dirs: vec!["libs".to_string(), "libs/more".to_string()],
        files: vec![
            "libs/b.jar".to_string(),
            "libs/more/c.jar".to_string(),
            "libs/readme.txt".to_string(),
            "libs/A.JAR".to_string(),
            "other/d.jar".to_string(),
        ],
    };
    assert_eq!(jars_in(&files, "libs", false), ["libs/A.JAR", "libs/b.jar"]);
    assert_eq!(
        jars_in(&files, "libs", true),
        ["libs/A.JAR", "libs/b.jar", "libs/more/c.jar"]
    );
}

#[test]
fn what_is_handed_back_runs_gradle() {
    let task = delegate(
        "gen",
        &vec!["generate".to_string()],
        &vec![None],
        &jrs::gradle_paths::Paths::empty(),
        &vec!["build.gradle".to_string()],
    );
    assert!(runs_gradle(&task));
}

#[test]
fn no_two_repositories_share_a_name() {
    let m = gradle(
        "repositories {\n  maven { url 'https://nexus.example.com/a' }\n  maven { url 'https://nexus.example.com/b' }\n  mavenCentral()\n}\n",
    )
    .manifest;
    let mut names: Vec<&str> = m.repositories.iter().map(|r| r.name.as_str()).collect();
    let all = names.len();
    names.sort();
    names.dedup();
    assert_eq!(names.len(), all);
    assert_eq!(all, 3);
}

#[test]
fn a_task_without_what_it_needs_is_left_out() {
    let m = gradle(
        "tasks.register('broken') {\n  doLast { println 'x' }\n}\ntasks.register('after', Exec) {\n  commandLine 'x'\n  dependsOn 'broken'\n}\n",
    );
    assert!(m.manifest.tasks.is_empty(), "{:?}", m.manifest.tasks);
    assert_eq!(m.report.not_migrated.iter().filter(|l| l.contains("task `")).count(), 2);
}

#[test]
fn stripping_comments_leaves_the_lines() {
    let text = "a // b\n/* c\nd */ e\n'// f'\n";
    let stripped = strip_comments(text);
    assert_eq!(stripped.lines().count(), text.lines().count());
    assert!(stripped.contains("'// f'"));
    assert!(!stripped.contains('d'));
    assert_eq!(strip_comments(&stripped), stripped);
    for odd in ["a /", "/ * b", "x/'//'/y", "'\\\\' // z", "\"open // text", "/**//**/ /"] {
        let once = strip_comments(odd);
        assert_eq!(strip_comments(&once), once, "{odd}");
    }
}

#[test]
fn a_nested_block_is_not_a_top_level_one() {
    let nested = "allprojects {\n    repositories {\n        mavenLocal()\n    }\n}\n";
    assert!(block_lines(nested, "repositories").is_empty());
    let both = format!("{nested}println \"{{\"\nrepositories {{\n    mavenCentral()\n    maven {{\n    }}\n}}\n");
    assert_eq!(
        block_lines(&both, "repositories"),
        ["    mavenCentral()", "    maven {", "    }"]
    );
    let m = gradle("buildscript {\n  dependencies {\n    classpath 'g:plugin:1'\n    implementation 'g:a:1'\n  }\n}\ndependencies {\n  implementation 'g:b:1'\n}\n");
    let keys: Vec<String> = m.manifest.dependencies.iter().map(|d| d.key()).collect();
    assert_eq!(keys, ["g:b"]);
}

#[test]
fn the_first_placeholder_without_a_value_is_the_error() {
    let t = Template::parse("a {root} {jar} {target} {project.name}").unwrap();
    let value = |p: Placeholder| match p {
        Placeholder::Root => Ok("/p".to_string()),
        other => Err(JrsError::Usage(other.name().to_string())),
    };
    assert_eq!(t.expand(value), Err(JrsError::Usage("jar".to_string())));
    let all = t.expand(|p| Ok(format!("<{}>", p.name())));
    assert_eq!(
        all,
        Ok("a <root> <jar> <target> <project.name>".to_string())
    );
}

#[test]
fn only_a_value_that_is_certain_is_used() {
    let vars = Variables::read("ext.a = '1'\next.b = '2'\next.b = '3'\n", None, false);
    assert_eq!(vars.resolve("a").map(|v| v.0), Ok("1".to_string()));
    assert!(vars.resolve("b").is_err());
    assert!(vars.resolve("c").is_err());
}

#[test]
fn variables_are_reported_by_name() {
    let mut vars = Variables::read("ext.z = '1'\next.a = '2'\n", None, false);
    vars.used_by_dependency(&vec!["z".to_string()]);
    vars.used_by_dependency(&vec!["a".to_string()]);
    let mut report = Report::default();
    vars.report(&mut report);
    assert_eq!(
        report.needs_review,
        ["a = 2 → 1 dependency", "z = 1 → 1 dependency"]
    );
}

fn profiled(profiles: &str) -> (Pom, Report) {
    let pom = Pom::parse(&format!(
        "<project><groupId>g</groupId><artifactId>a</artifactId><version>1</version><properties><p>base</p></properties><profiles>{profiles}</profiles></project>"
    ))
    .unwrap();
    let mut report = Report::default();
    let merged = apply(pom, None, &mut report);
    (merged, report)
}

const DEFAULT: &str = "<profile><id>one</id><activation><activeByDefault>true</activeByDefault></activation><properties><p>one</p></properties></profile>";
const HOLDS: &str = "<profile><id>two</id><activation><property><name>!skip</name></property></activation><properties><p>two</p></properties></profile>";
const NEVER: &str = "<profile><id>three</id><properties><p>three</p></properties></profile>";

fn property(pom: &Pom) -> String {
    let properties = pom.root.children.iter().find(|c| c.name == "properties").unwrap();
    properties.children[0].text.clone()
}

#[test]
fn a_profile_that_holds_takes_the_place_of_the_default_one() {
    let (pom, report) = profiled(&format!("{DEFAULT}{HOLDS}{NEVER}"));
    assert_eq!(property(&pom), "two");
    assert_eq!(report.migrated.len(), 1);
    assert_eq!(report.not_migrated.len(), 2);
}

#[test]
fn a_default_profile_is_merged_where_none_holds() {
    let (pom, report) = profiled(&format!("{DEFAULT}{NEVER}"));
    assert_eq!(property(&pom), "one");
    assert_eq!(report.migrated.len(), 1);
    assert_eq!(report.not_migrated.len(), 1);
    let (pom, report) = profiled("");
    assert_eq!(property(&pom), "base");
    assert!(report.migrated.is_empty() && report.not_migrated.is_empty());
}

#[test]
fn texts_are_ordered_by_their_characters() {
    assert!(is_before("a", "b"));
    assert!(is_before("a", "ab"));
    assert!(!is_before("b", "a"));
    assert!(!is_before("a", "a"));
    let mut list = vec!["a".to_string(), "c".to_string()];
    place(&mut list, "b");
    place(&mut list, "b");
    assert_eq!(list, ["a", "b", "c"]);
    assert_eq!(to_lower('A'), 'a');
    assert_eq!(to_upper('z'), 'Z');
}

#[test]
fn quoting_escapes_what_toml_escapes() {
    assert_eq!(quote("a\"b\\c\nd\te"), "\"a\\\"b\\\\c\\nd\te\"");
}

#[test]
fn adding_a_task_changes_one_hook_once() {
    let mut hooks = Hooks::default();
    hooks.add(Hook::PostTest, "a");
    hooks.add(Hook::PreCompile, "b");
    hooks.add(Hook::PostTest, "a");
    hooks.add(Hook::PostTest, "c");
    assert_eq!(hooks.tasks(Hook::PostTest), ["a", "c"]);
    assert_eq!(hooks.tasks(Hook::PreCompile), ["b"]);
    assert!(hooks.tasks(Hook::PreRun).is_empty());
    assert_eq!(hooks.iter()[0].0, Hook::PreCompile);
}

#[test]
fn literals_are_read_as_their_text() {
    let t = Template::literal("a {b} c");
    assert_eq!(t.raw, "a {{b}} c");
    let again = Template::parse(&t.raw).unwrap();
    assert_eq!(again, t);
    assert!(again.placeholders().is_empty());
    assert_eq!(Template::literal("plain").raw, "plain");
}

#[test]
fn a_release_builds_what_needs_it_or_an_older_one() {
    assert_eq!(release_parts("0.9"), Some((0, 9, 0)));
    assert_eq!(release_parts("1.2.3"), Some((1, 2, 3)));
    assert_eq!(release_parts("1"), None);
    assert!(check_jrs_version("0.9.1", "0.9.1", "p").is_ok());
    assert!(check_jrs_version("0.9", "0.10.0", "p").is_ok());
    assert!(check_jrs_version("0.10", "0.9.9", "p").is_err());
}

#[test]
fn what_a_gradle_build_becomes_is_read_back() {
    let migration = gradle(
        r#"
plugins {
    id 'java'
    id 'scala'
    id 'groovy'
    id 'com.guardsquare.proguard' version '7.5.0'
}
version = '1.2'
sourceCompatibility = '21'
targetCompatibility = '17'
repositories {
    maven { url 'https://repo.example.com/a/' }
    maven { url 'https://repo.example.com/b' }
    mavenCentral()
}
dependencies {
    implementation 'org.scala-lang:scala3-library_3:3.4.2'
    implementation 'org.apache.groovy:groovy:4.0.21'
    compileOnly 'com.example:one:1.0'
    runtimeOnly 'com.example:one:1.0'
    implementation('com.example:two:2.0:linux') { exclude group: 'org.slf4j' }
    testImplementation 'org.mockito:mockito-core:5.0'
    testRuntimeOnly 'com.example:three:3.0'
}
test {
    maxParallelForks = 2
    jvmArgs '-javaagent:mockito.jar', '-Xmx1g'
    environment 'A', '1'
    environment 'A', '{2}'
}
run { workingDir = 'data' }
jar { manifest { attributes('Built-By': 'me', 'built-by': 'you') } }
tasks.register('gen', Exec) { commandLine 'gen'; environment 'X', '1'; environment 'X', '2' }
tasks.named('compileJava') { dependsOn 'gen' }
"#,
    );
    let m = migration.manifest;
    assert_eq!(m.dependencies.len(), 2);
    assert!(!m.dependencies[0].compile_only && !m.dependencies[0].runtime_only);
    let again = parse(&m.render(Some("made by hand")));
    assert_eq!(again.languages.len(), 2);
    assert_eq!(again.name, m.name);
    assert_eq!(again.version, m.version);
    assert_eq!(again.java, m.java);
    assert_eq!(again.run, m.run);
    assert_eq!(again.test, m.test);
    assert_eq!(again.package, m.package);
    assert_eq!(again.dependencies, m.dependencies);
    assert_eq!(again.dev_dependencies, m.dev_dependencies);
    assert_eq!(again.repositories, m.repositories);
    assert_eq!(again.tasks, m.tasks);
    assert_eq!(again.hooks, m.hooks);
    assert_eq!(again.obfuscate, m.obfuscate);
}

#[test]
fn what_a_maven_project_becomes_is_read_back() {
    let text = "<project><groupId>g</groupId><artifactId>app</artifactId><version>1</version>\
         <properties><maven.compiler.release>21</maven.compiler.release></properties>\
         <dependencies>\
         <dependency><groupId>a</groupId><artifactId>b</artifactId><version>[1.0,2.0)</version></dependency>\
         <dependency><groupId>a</groupId><artifactId>c</artifactId><version>2</version>\
         <scope>provided</scope><exclusions><exclusion><groupId>x</groupId>\
         <artifactId>*</artifactId></exclusion></exclusions></dependency>\
         <dependency><groupId>a</groupId><artifactId>t</artifactId><version>3</version>\
         <scope>test</scope></dependency></dependencies>\
         <repositories><repository><id>own</id><url>https://repo.example.com/</url></repository>\
         </repositories><build><plugins>\
         <plugin><artifactId>maven-jar-plugin</artifactId><configuration><archive><manifestEntries>\
         <Built-For>${project.version}</Built-For></manifestEntries></archive></configuration></plugin>\
         <plugin><artifactId>exec-maven-plugin</artifactId><executions>\
         <execution><id>gen</id><phase>validate</phase><goals><goal>exec</goal></goals>\
         <configuration><executable>gen</executable></configuration></execution>\
         <execution><id>tool</id><goals><goal>java</goal></goals>\
         <configuration><mainClass>com.example.Tool</mainClass></configuration></execution>\
         </executions></plugin></plugins></build></project>";
    let migration = migrate_maven(&Project {
        poms: vec![PomFile {
            path: "pom.xml".to_string(),
            text: text.to_string(),
            parent_path: String::new(),
            parent_found: false,
        }],
        root: "/p".to_string(),
        files: Files {
            dirs: Vec::new(),
            files: Vec::new(),
        },
        application: None,
    })
    .unwrap();
    let m = migration.manifest;
    assert_eq!(m.dependencies[0].version, "1.0");
    assert_eq!(m.tasks.len(), 2);
    let again = parse(&m.render(None));
    assert_eq!(again.java, m.java);
    assert_eq!(again.package, m.package);
    assert_eq!(again.dependencies, m.dependencies);
    assert_eq!(again.dev_dependencies, m.dev_dependencies);
    assert_eq!(again.repositories, m.repositories);
    assert_eq!(again.tasks, m.tasks);
    assert_eq!(again.hooks, m.hooks);
}
