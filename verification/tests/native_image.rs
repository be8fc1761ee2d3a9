use jrs::error::JrsError;
use jrs::native_image::{arguments, build, candidates, check_run, executable, find, NativeImage};
use jrs::toolchain::{render_argfile, Toolchain};

/// A JDK's files, in memory.
struct Tree {
    root: String,
    files: Vec<String>,
}

impl Tree {
    fn new(name: &str) -> Tree {
        Tree {
            root: format!("/tmp/jrs-native-{name}"),
            files: Vec::new(),
        }
    }

    fn toolchain(&self) -> Toolchain {
        let bin = format!("{}/jdk/bin", self.root);
        Toolchain {
            javac: format!("{bin}/javac"),
            java: format!("{bin}/java"),
            jar: format!("{bin}/jar"),
            version: 21,
            home: Some(format!("{}/jdk", self.root)),
        }
    }
}

#[test]
fn a_jdk_without_native_image_is_not_graalvm() {
    let tree = Tree::new("not-graal");
    let err = find(&tree.toolchain(), &tree.files, false).unwrap_err();
    assert!(matches!(err, JrsError::Toolchain(_)), "{err:?}");
    assert_eq!(err.exit_code(), 1);
    let text = err.to_text();
    assert!(text.contains("is not GraalVM"), "{text}");
    assert!(text.contains("`native-image`"), "{text}");
    assert!(text.contains("GraalVM for JDK 21"), "{text}");
    assert!(text.contains(&format!("{}/jdk", tree.root)), "{text}");
    assert!(
        text.starts_with(
            "the JDK at /tmp/jrs-native-not-graal/jdk is not GraalVM: there is no `native-image` in /tmp/jrs-native-not-graal/jdk/bin\n\n"
        ),
        "{text}"
    );
}

#[test]
fn a_graalvm_jdk_has_native_image_in_bin() {
    let mut tree = Tree::new("graal");
    let name = candidates(false)[0];
    let tool = format!("{}/jdk/bin/{name}", tree.root);
    tree.files.push(tool.clone());
    assert_eq!(find(&tree.toolchain(), &tree.files, false).unwrap(), tool);
}

#[test]
fn windows_has_a_launcher_script() {
    assert_eq!(
        candidates(true),
        ["native-image.cmd", "native-image.exe", "native-image.bat"]
    );
    let mut tree = Tree::new("windows");
    tree.files
        .push(format!("{}/jdk/bin/native-image.bat", tree.root));
    tree.files
        .push(format!("{}/jdk/bin/native-image.exe", tree.root));
    assert_eq!(
        find(&tree.toolchain(), &tree.files, true).unwrap(),
        format!("{}/jdk/bin/native-image.exe", tree.root)
    );
}

#[test]
fn the_arguments_put_the_main_class_last() {
    let classpath = vec!["target/classes".to_string(), "/c/dep.jar".to_string()];
    let extra = vec![
        "--no-fallback".to_string(),
        "-H:+ReportExceptionStackTraces".to_string(),
    ];
    let image = NativeImage {
        name: "demo",
        main_class: "com.example.Main",
        classpath: &classpath,
        extra_args: &extra,
    };
    let args = arguments(&image, "target/native/demo", false);
    assert_eq!(
        args,
        [
            "-cp",
            &Toolchain::classpath(&classpath, false),
            "-o",
            "target/native/demo",
            "--no-fallback",
            "-H:+ReportExceptionStackTraces",
            "com.example.Main",
        ]
    );
}

#[test]
fn the_argfile_keeps_a_spaced_path_one_argument() {
    let classpath = vec!["/Users/Ada Lovelace/app/classes".to_string()];
    let image = NativeImage {
        name: "demo",
        main_class: "Main",
        classpath: &classpath,
        extra_args: &Vec::new(),
    };
    let text = render_argfile(&arguments(&image, "out/demo", false), &Vec::new());
    assert_eq!(
        text.lines().nth(1),
        Some("\"/Users/Ada Lovelace/app/classes\"")
    );
    assert_eq!(text.lines().last(), Some("Main"));
}

#[test]
fn the_executable_has_the_platforms_suffix() {
    assert_eq!(
        executable("target/native", "demo", true),
        "target/native/demo.exe"
    );
    assert_eq!(
        executable("target/native", "demo", false),
        "target/native/demo"
    );
}

#[test]
fn a_build_that_fails_or_leaves_nothing_is_an_error() {
    assert_eq!(check_run("demo", "out/demo", true, true), Ok(()));
    let failed = check_run("demo", "out/demo", false, false).unwrap_err();
    assert!(matches!(failed, JrsError::Build(_)));
    assert!(
        failed
            .to_text()
            .starts_with("native-image could not build demo; its output is above\n\nflags it needs"),
        "{failed:?}"
    );
    assert_eq!(
        check_run("demo", "out/demo", true, false),
        Err(JrsError::Build(
            "native-image reported success but there is no out/demo".to_string()
        ))
    );
}

#[test]
fn the_invocation_goes_in_an_argfile() {
    let classpath = vec!["target/classes".to_string()];
    let image = NativeImage {
        name: "demo",
        main_class: "com.example.Main",
        classpath: &classpath,
        extra_args: &Vec::new(),
    };
    let run = build(&image, "target/native", "target/.jrs", false);
    assert_eq!(run.argfile, "target/.jrs/native-image.args");
    assert_eq!(run.argument, "@target/.jrs/native-image.args");
    assert_eq!(
        run.contents,
        "-cp\ntarget/classes\n-o\ntarget/native/demo\ncom.example.Main\n"
    );
}

#[test]
fn class_names_may_have_any_letter() {
    let manifest = |class: &str| {
        jrs::manifest::Manifest::parse(
            &format!("[project]\nname = 'a'\nversion = '1'\nmain-class = '{class}'\n"),
            "jrs.toml",
            ".",
        )
    };
    assert!(manifest("com.example.\u{c9}lan\u{e9}").is_ok());
    assert!(manifest("com.example.A-B").is_err());
}
