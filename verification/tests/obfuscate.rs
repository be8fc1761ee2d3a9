use jrs::error::JrsError;
use jrs::obfuscate::{
    add_providers, arguments, build, check_run, config, coord, entry, is_services_entry, jdk_library_jars, service_classes,
    Obfuscation, JMOD_FILTER,
};
use std::io::Write;

fn sample<'a>(jar: &'a str, libs: &'a Vec<String>, none: &'a Vec<String>) -> Obfuscation<'a> {
    Obfuscation {
        jar,
        tool_classpath: none,
        library_jars: libs,
        main_class: Some("com.example.Main"),
        keep: none,
        extra_args: none,
    }
}

#[test]
fn the_config_names_the_jar_the_output_and_the_entry_point() {
    let none = Vec::new();
    let obf = sample("target/app.jar", &none, &none);
    let text = config(&obf, &Vec::new(), "target/.jrs/obfuscated.jar");
    assert!(text.contains("-injars target/app.jar\n"), "{text}");
    assert!(
        text.contains("-outjars target/.jrs/obfuscated.jar\n"),
        "{text}"
    );
    assert!(
        text.contains(
            "-keep public class com.example.Main {\n    public static void main(java.lang.String[]);\n}\n"
        ),
        "{text}"
    );
    // Behaviour and timing must be untouched: nothing removed, nothing
    // optimised.
    assert!(text.contains("-dontshrink\n"), "{text}");
    assert!(text.contains("-dontoptimize\n"), "{text}");
}

#[test]
fn a_library_without_a_main_class_keeps_no_entry_point() {
    let none = Vec::new();
    let obf = Obfuscation {
        main_class: None,
        ..sample("lib.jar", &none, &none)
    };
    let text = config(&obf, &Vec::new(), "out.jar");
    assert!(!text.contains("public static void main"), "{text}");
}

#[test]
fn service_providers_keep_their_names_and_constructors() {
    let none = Vec::new();
    let obf = sample("app.jar", &none, &none);
    let services = vec!["com.example.Provider".to_string()];
    let text = config(&obf, &services, "out.jar");
    assert!(
        text.contains("-keep class com.example.Provider {\n    <init>(...);\n}\n"),
        "{text}"
    );
    assert!(
        text.contains("-adaptresourcefilecontents META-INF/services/**\n"),
        "{text}"
    );
}

#[test]
fn a_jmod_library_carries_the_module_filter_but_a_jar_does_not() {
    let none = Vec::new();
    let libs = vec![
        "/jdk/jmods/java.base.jmod".to_string(),
        "/cache/dep.jar".to_string(),
    ];
    let obf = sample("app.jar", &libs, &none);
    let text = config(&obf, &Vec::new(), "out.jar");
    assert!(
        text.contains(&format!(
            "-libraryjars /jdk/jmods/java.base.jmod({JMOD_FILTER})\n"
        )),
        "{text}"
    );
    assert!(text.contains("-libraryjars /cache/dep.jar\n"), "{text}");
}

#[test]
fn keep_rules_and_extra_args_are_passed_through() {
    let none = Vec::new();
    let keep = vec!["com.example.Api".to_string()];
    let extra = vec!["-dontwarn org.foo.**".to_string()];
    let obf = Obfuscation {
        keep: &keep,
        extra_args: &extra,
        ..sample("app.jar", &none, &none)
    };
    let text = config(&obf, &Vec::new(), "out.jar");
    assert!(text.contains("-keep class com.example.Api\n"), "{text}");
    assert!(text.contains("-dontwarn org.foo.**\n"), "{text}");
}

#[test]
fn a_spaced_path_is_quoted() {
    assert_eq!(
        entry("/Users/Ada Lovelace/app.jar"),
        "\"/Users/Ada Lovelace/app.jar\""
    );
    assert_eq!(entry("/plain/app.jar"), "/plain/app.jar");
}

fn jar(entries: &[(&str, &[u8])]) -> Vec<u8> {
    let mut w = zip::ZipWriter::new(std::io::Cursor::new(Vec::new()));
    for (name, contents) in entries {
        w.start_file(*name, zip::write::SimpleFileOptions::default())
            .unwrap();
        w.write_all(contents).unwrap();
    }
    w.finish().unwrap().into_inner()
}

#[test]
fn a_jars_providers_are_sorted_and_listed_once() {
    let bytes = jar(&[
        ("com/example/Main.class", b"\xca\xfe"),
        (
            "META-INF/services/com.example.Api",
            b"# ours\ncom.example.Second # the second\n\ncom.example.First\n",
        ),
        ("META-INF/services/com.example.Spi", b"com.example.First"),
        ("META-INF/MANIFEST.MF", b"Manifest-Version: 1.0\n"),
    ]);
    assert_eq!(
        service_classes("app.jar", bytes),
        Ok(vec![
            "com.example.First".to_string(),
            "com.example.Second".to_string()
        ])
    );
    assert_eq!(
        service_classes("app.jar", jar(&[("a.txt", b"x")])),
        Ok(Vec::new())
    );
}

#[test]
fn a_jar_that_cannot_be_read_is_refused() {
    match service_classes("app.jar", b"not a jar".to_vec()) {
        Err(JrsError::Build(m)) => {
            assert!(m.starts_with("app.jar is not a readable jar: "), "{m}");
        }
        other => panic!("{other:?}"),
    }
    let bytes = jar(&[("META-INF/services/com.example.Api", b"\xff\xfe")]);
    match service_classes("app.jar", bytes) {
        Err(JrsError::Build(m)) => assert!(m.starts_with("app.jar: "), "{m}"),
        other => panic!("{other:?}"),
    }
}

#[test]
fn providers_are_placed_in_order() {
    let mut names = vec!["b.B".to_string()];
    add_providers("c.C\n  a.A  # first\n#b.X\nb.B\n", &mut names);
    assert_eq!(names, ["a.A", "b.B", "c.C"]);
    assert!(is_services_entry("META-INF/services/x.Y"));
    assert!(!is_services_entry("META-INF/services/"));
    assert!(!is_services_entry("services/x.Y"));
}

#[test]
fn proguard_runs_from_its_own_classpath() {
    assert_eq!(coord("7.5.0"), "com.guardsquare:proguard-base:7.5.0");
    let none = Vec::new();
    let tool = vec!["/c/proguard-base.jar".to_string(), "/c/core.jar".to_string()];
    let obf = Obfuscation {
        tool_classpath: &tool,
        ..sample("app.jar", &none, &none)
    };
    assert_eq!(
        arguments(&obf, "target/.jrs/proguard.pro", false),
        [
            "-cp",
            "/c/proguard-base.jar:/c/core.jar",
            "proguard.ProGuard",
            "@target/.jrs/proguard.pro"
        ]
    );
    assert_eq!(
        arguments(&obf, "p.pro", true)[1],
        "/c/proguard-base.jar;/c/core.jar"
    );
}

#[test]
fn the_jdks_modules_are_its_jmods() {
    let files = vec![
        "/jdk/jmods/java.sql.jmod".to_string(),
        "/jdk/jmods/README".to_string(),
        "/jdk/jmods/java.base.jmod".to_string(),
    ];
    assert_eq!(
        jdk_library_jars(&files),
        ["/jdk/jmods/java.base.jmod", "/jdk/jmods/java.sql.jmod"]
    );
}

#[test]
fn a_run_that_fails_or_writes_nothing_is_an_error() {
    assert_eq!(check_run("app.jar", true, true), Ok(()));
    let failed = check_run("app.jar", false, true).unwrap_err();
    assert!(
        failed
            .to_text()
            .starts_with("ProGuard could not obfuscate app.jar; its output is above"),
        "{failed:?}"
    );
    assert_eq!(
        check_run("app.jar", true, false),
        Err(JrsError::Build(
            "ProGuard reported success but wrote no jar".to_string()
        ))
    );
}

#[test]
fn the_plan_goes_in_the_working_directory() {
    let none = Vec::new();
    let tool = vec!["/c/proguard base.jar".to_string()];
    let obf = Obfuscation {
        tool_classpath: &tool,
        ..sample("target/app.jar", &none, &none)
    };
    let services = vec!["com.example.Provider".to_string()];
    let plan = build(&obf, &services, "target/.jrs", false);
    assert_eq!(plan.outjar, "target/.jrs/obfuscated.jar");
    assert_eq!(plan.config_path, "target/.jrs/obfuscate.pro");
    assert_eq!(plan.config, config(&obf, &services, &plan.outjar));
    assert_eq!(plan.invocation.argfile, "target/.jrs/obfuscate.args");
    assert_eq!(plan.invocation.argument, "@target/.jrs/obfuscate.args");
    assert_eq!(
        plan.invocation.contents.lines().collect::<Vec<_>>(),
        [
            "-cp",
            "\"/c/proguard base.jar\"",
            "proguard.ProGuard",
            "@target/.jrs/obfuscate.pro"
        ]
    );
}
