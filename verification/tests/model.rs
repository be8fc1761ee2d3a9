use jrs::json::{escape, Json};
use jrs::manifest::Manifest;
use jrs::model::{generated, metadata, Inputs, Package, Resolution};
use jrs::reach::reached_from;
use jrs::task::Hook;
use jrs::toolchain::Toolchain;

fn root() -> String {
    "/tmp/jrs-model".to_string()
}

fn manifest(body: &str) -> Manifest {
    let root = root();
    let text = format!("[project]\nname = \"app\"\nversion = \"1.0.0\"\n{body}");
    Manifest::parse(&text, &format!("{root}/jrs.toml"), &root).unwrap()
}

fn render(inputs: &Inputs<'_>) -> String {
    metadata(inputs).unwrap().render()
}

#[test]
fn a_bare_project_has_every_key_in_a_fixed_order() {
    let m = manifest("");
    let text = render(&Inputs {
        manifest: &m,
        toolchain: None,
        resolution: None,
        directory: "/",
    });
    let keys: Vec<&str> = text
        .lines()
        .filter(|l| l.starts_with("  \"") && !l.starts_with("   "))
        .map(|l| l.trim_start().split('"').nth(1).unwrap())
        .collect();
    assert_eq!(
        keys,
        [
            "version",
            "jrs",
            "project",
            "jdk",
            "java",
            "languages",
            "main",
            "test",
            "target-dir",
            "jar",
            "classpaths",
            "tasks"
        ]
    );
    assert!(text.starts_with("{\n  \"version\": 1,\n"), "{text}");
    assert!(text.contains("\"jdk\": null"), "{text}");
    assert!(text.contains("\"classpaths\": null"), "{text}");
    assert!(text.contains("\"main-class\": null"), "{text}");
    let root = root();
    for dir in [
        format!("{root}/src/main/java"),
        format!("{root}/src/test/resources"),
        format!("{root}/target/test-classes"),
        format!("{root}/target/app-1.0.0.jar"),
    ] {
        assert!(text.contains(&escape(&dir)), "{} missing from {text}", dir);
    }
}

#[test]
fn languages_roots_and_tasks_come_from_the_manifest() {
    let m = manifest(
        "main-class = \"com.example.MainKt\"\n\
         [kotlin]\nversion = \"2.4.20\"\n\
         [tasks.gen]\ndescription = \"Generate code\"\nrun = [\"true\"]\n\
         outputs = [\"{target}/generated/sources\"]\n\
         source-outputs = [\"{target}/generated/sources\"]\n\
         [tasks.lint]\nrun = [\"true\"]\n\
         [hooks]\npre-compile = [\"gen\"]\n",
    );
    let text = render(&Inputs {
        manifest: &m,
        toolchain: None,
        resolution: None,
        directory: "/",
    });
    assert!(text.contains("\"main-class\": \"com.example.MainKt\""));
    assert!(text.contains("\"name\": \"kotlin\",\n      \"version\": \"2.4.20\",\n      \"compiler\": \"org.jetbrains.kotlin:kotlin-compiler-embeddable:2.4.20\""), "{text}");
    let kotlin_root = format!("{}/src/main/kotlin", root());
    assert!(
        text.contains(&format!(
            "\"language\": \"kotlin\",\n        \"dir\": {}",
            escape(&kotlin_root)
        )),
        "{text}"
    );
    let generated = format!("{}/target/generated/sources", root());
    assert!(
        text.contains(&format!(
            "\"generated-sources\": [\n      {}\n    ]",
            escape(&generated)
        )),
        "{text}"
    );
    assert!(
        text.contains(
            "\"name\": \"gen\",\n      \"description\": \"Generate code\",\n      \
             \"hooks\": [\n        \"pre-compile\"\n      ]"
        ),
        "{text}"
    );
    assert!(
        text.contains("\"name\": \"lint\",\n      \"description\": null,\n      \"hooks\": []"),
        "{text}"
    );
}

fn package(coordinate: &str, sources: bool) -> Package {
    let name = coordinate.replace(':', "-");
    Package {
        coordinate: coordinate.to_string(),
        jar: Some(format!("/cache/{name}.jar")),
        sources: if sources {
            Some(format!("/cache/{name}-sources.jar"))
        } else {
            None
        },
    }
}

#[test]
fn classpaths_name_each_jar_and_its_sources_when_cached() {
    let jar = |name: &str| format!("/cache/org.example-{name}.jar");
    let resolution = Resolution {
        packages: vec![
            package("org.example:api:2.0", false),
            package("org.example:junit:5.0", false),
            package("org.example:lib:1.0", true),
        ],
        compile: vec![jar("api-2.0"), jar("lib-1.0")],
        runtime: vec![jar("lib-1.0")],
        test: vec![jar("api-2.0"), jar("junit-5.0"), jar("lib-1.0")],
    };
    let m = manifest("");
    let text = render(&Inputs {
        manifest: &m,
        toolchain: None,
        resolution: Some(&resolution),
        directory: "/",
    });

    let section = |name: &str| {
        let start = text.find(&format!("\"{name}\": [")).unwrap();
        let end = start + text[start..].find("\n    ]").unwrap();
        text[start..end].to_string()
    };
    let coordinates = |s: &str| -> Vec<String> {
        s.lines()
            .filter_map(|l| l.trim().strip_prefix("\"coordinate\": "))
            .map(|c| c.trim_end_matches(',').to_string())
            .collect()
    };
    assert_eq!(
        coordinates(&section("compile")),
        ["\"org.example:api:2.0\"", "\"org.example:lib:1.0\""]
    );
    assert_eq!(
        coordinates(&section("runtime")),
        ["\"org.example:lib:1.0\""]
    );
    assert_eq!(
        coordinates(&section("test")),
        [
            "\"org.example:api:2.0\"",
            "\"org.example:junit:5.0\"",
            "\"org.example:lib:1.0\""
        ]
    );
    let runtime = section("runtime");
    assert!(
        runtime.contains(&format!(
            "\"sources\": {}",
            escape("/cache/org.example-lib-1.0-sources.jar")
        )),
        "{runtime}"
    );
    assert!(
        section("compile").contains("\"sources\": null"),
        "api has no sources jar"
    );
}

#[test]
fn the_jdk_gives_the_release_the_manifest_leaves_out() {
    let jdk = Toolchain {
        javac: "/jdk/bin/javac".to_string(),
        java: "/jdk/bin/java".to_string(),
        jar: "/jdk/bin/jar".to_string(),
        version: 21,
        home: Some("/jdk".to_string()),
    };
    let m = manifest("");
    let text = render(&Inputs {
        manifest: &m,
        toolchain: Some(&jdk),
        resolution: None,
        directory: "/",
    });
    assert!(text.contains("\"jdk\": {\n    \"home\": \"/jdk\",\n    \"version\": 21,\n    \"javac\": \"/jdk/bin/javac\",\n    \"java\": \"/jdk/bin/java\"\n  }"), "{text}");
    assert!(text.contains("\"release\": 21,\n    \"target\": null,\n    \"encoding\": \"UTF-8\",\n    \"javac-args\": []"), "{text}");
    let m = manifest("[java]\nsource = 17\n");
    let text = render(&Inputs {
        manifest: &m,
        toolchain: Some(&jdk),
        resolution: None,
        directory: "/",
    });
    assert!(text.contains("\"release\": 17,"), "{text}");
}

#[test]
fn relative_paths_are_seen_from_the_directory() {
    let m = Manifest::parse(
        "[project]\nname = \"app\"\nversion = \"1.0.0\"\n",
        "./jrs.toml",
        ".",
    )
    .unwrap();
    let text = render(&Inputs {
        manifest: &m,
        toolchain: None,
        resolution: None,
        directory: "/home/ada/app",
    });
    assert!(text.contains("\"root\": \"/home/ada/app\""), "{text}");
    assert!(
        text.contains("\"manifest\": \"/home/ada/app/jrs.toml\""),
        "{text}"
    );
    assert!(
        text.contains("\"output\": \"/home/ada/app/target/classes\""),
        "{text}"
    );
}

#[test]
fn a_hook_reaches_what_its_tasks_depend_on() {
    let m = manifest(
        "[tasks.a]\nrun = [\"true\"]\ndepends-on = [\"b\"]\n\
         [tasks.b]\nrun = [\"true\"]\ndepends-on = [\"c\"]\nresource-outputs = [\"{root}/res\"]\noutputs = [\"{root}/res\"]\n\
         [tasks.c]\nrun = [\"true\"]\nsource-outputs = [\"gen\"]\noutputs = [\"gen\"]\n\
         [tasks.d]\nrun = [\"true\"]\nsource-outputs = [\"other\"]\noutputs = [\"other\"]\n\
         [hooks]\npre-compile = [\"a\"]\n",
    );
    assert_eq!(reached_from(&m, Hook::PreCompile), ["a", "b", "c"]);
    assert_eq!(
        generated(&m, Hook::PreCompile, false),
        Ok(vec!["/tmp/jrs-model/gen".to_string()])
    );
    assert_eq!(
        generated(&m, Hook::PreCompile, true),
        Ok(vec!["/tmp/jrs-model/res".to_string()])
    );
    assert_eq!(generated(&m, Hook::PreTest, false), Ok(Vec::new()));
}

#[test]
fn a_slash_at_the_end_of_a_path_stays() {
    let m = manifest("source-dir = \"src/./main//java/\"\n");
    let text = render(&Inputs {
        manifest: &m,
        toolchain: None,
        resolution: None,
        directory: "/",
    });
    assert!(text.contains("\"dir\": \"/tmp/jrs-model/src/main/java/\""), "{text}");
}

#[test]
fn a_directory_is_a_source_root_however_it_is_written_once() {
    let m = manifest("[kotlin]\nversion = \"2.4.20\"\nsource-dir = \"src/main/java/\"\n");
    let text = render(&Inputs {
        manifest: &m,
        toolchain: None,
        resolution: None,
        directory: "/",
    });
    assert_eq!(text.matches("/tmp/jrs-model/src/main/java").count(), 1);
}

#[test]
fn a_directory_is_a_source_root_once() {
    let m = manifest("[kotlin]\nversion = \"2.4.20\"\nsource-dir = \"src/main/java\"\n");
    let text = render(&Inputs {
        manifest: &m,
        toolchain: None,
        resolution: None,
        directory: "/",
    });
    assert_eq!(text.matches("\"/tmp/jrs-model/src/main/java\"").count(), 1);
}

#[test]
fn json_is_indented_and_escaped() {
    let value = Json::Object(vec![
        ("a\"b".to_string(), Json::Int(-3)),
        ("list".to_string(), Json::Array(vec![Json::Null, Json::Array(Vec::new())])),
        ("none".to_string(), Json::Object(Vec::new())),
        (
            "text".to_string(),
            Json::Text("tab\tline\nback\\slash \u{1} é".to_string()),
        ),
    ]);
    assert_eq!(
        value.render(),
        "{\n  \"a\\\"b\": -3,\n  \"list\": [\n    null,\n    []\n  ],\n  \"none\": {},\n  \"text\": \"tab\\tline\\nback\\\\slash \\u0001 é\"\n}"
    );
}
