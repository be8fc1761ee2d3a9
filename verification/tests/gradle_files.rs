use jrs::dependency::Dependency;
use jrs::gradle_files::{read, Files};
use jrs::report::Report;
use std::cell::RefCell;


/// A project's files, in memory.
struct Dir {
    path: RefCell<Files>,
}

impl Dir {
    fn new(_name: &str) -> Dir {
        Dir {
            path: RefCell::new(Files {
                dirs: Vec::new(),
                files: Vec::new(),
            }),
        }
    }

    fn create_dir_all(&self, relative: &str) {
        let mut path = String::new();
        for part in relative.split('/') {
            if !path.is_empty() {
                path.push('/');
            }
            path.push_str(part);
            self.path.borrow_mut().dirs.push(path.clone());
        }
    }

    fn touch(&self, relative: &str) {
        if let Some((parent, _)) = relative.rsplit_once('/') {
            self.create_dir_all(parent);
        }
        self.path.borrow_mut().files.push(relative.to_string());
    }
}

fn paths(deps: &[Dependency]) -> Vec<String> {
    deps.iter()
        .map(|d| format!("{}={}", d.artifact, d.path.as_deref().unwrap()))
        .collect()
}

#[test]
fn files_become_local_jars_named_after_their_file() {
    let dir = Dir::new("files");
    dir.touch("libs/ojdbc11.jar");
    dir.touch("libs/vendor sdk.jar");
    let mut report = Report::default();
    for line in [
        "implementation files('libs/ojdbc11.jar', 'libs/vendor sdk.jar')",
        "implementation(files(\"libs/ojdbc11.jar\", \"libs/vendor sdk.jar\"))",
    ] {
        let deps = read(line, &dir.path.borrow(), &mut report).unwrap();
        assert_eq!(
            paths(&deps),
            ["ojdbc11=libs/ojdbc11.jar", "vendor-sdk=libs/vendor sdk.jar"]
        );
    }
    assert!(report.needs_review.is_empty(), "{:?}", report.needs_review);
    assert!(read("implementation 'g:a:1'", &dir.path.borrow(), &mut report).is_none());
    assert!(read("implementation myfiles('x.jar')", &dir.path.borrow(), &mut report).is_none());
}

#[test]
fn what_files_cannot_say_is_reported() {
    let dir = Dir::new("files-bad");
    dir.create_dir_all("classes");
    let mut report = Report::default();
    for line in [
        "implementation files(\"$buildDir/x.jar\")",
        "implementation files(someJar)",
        "implementation files('../shared/x.jar')",
        "implementation files('/opt/x.jar')",
        "implementation files('classes')",
    ] {
        assert!(
            read(line, &dir.path.borrow(), &mut report).unwrap().is_empty(),
            "{line}"
        );
    }
    assert_eq!(report.not_migrated.len(), 5, "{:?}", report.not_migrated);

    // A jar that is not there yet still translates, flagged.
    let deps = read(
        "implementation files('libs/later.jar')",
        &dir.path.borrow(),
        &mut report,
    )
    .unwrap();
    assert_eq!(paths(&deps), ["later=libs/later.jar"]);
    assert!(report.needs_review[0].contains("not there now"));
}

#[test]
fn a_file_tree_expands_to_the_jars_present() {
    let dir = Dir::new("tree");
    dir.touch("libs/b.jar");
    dir.touch("libs/a.jar");
    dir.touch("libs/README.txt");
    dir.touch("libs/nested/c.jar");
    let mut report = Report::default();
    let top = ["a=libs/a.jar", "b=libs/b.jar"];
    let all = ["a=libs/a.jar", "b=libs/b.jar", "c=libs/nested/c.jar"];
    for (line, expected) in [
        (
            "implementation fileTree(dir: 'libs', include: ['*.jar'])",
            &top[..],
        ),
        (
            "implementation fileTree(dir: 'libs', include: '*.jar')",
            &top[..],
        ),
        (
            "implementation(fileTree(mapOf(\"dir\" to \"libs\", \"include\" to listOf(\"*.jar\"))))",
            &top[..],
        ),
        (
            "implementation fileTree(dir: 'libs', include: ['**/*.jar'])",
            &all[..],
        ),
        ("implementation fileTree('libs')", &all[..]),
    ] {
        let deps = read(line, &dir.path.borrow(), &mut report).unwrap();
        assert_eq!(paths(&deps), expected, "{line}");
    }
    assert!(
        report
            .needs_review
            .iter()
            .all(|r| r.contains("as it is now")),
        "{:?}",
        report.needs_review
    );
}

#[test]
fn a_file_tree_jrs_cannot_read_is_reported() {
    let dir = Dir::new("tree-bad");
    dir.touch("libs/a.jar");
    let mut report = Report::default();
    for line in [
        "implementation fileTree(dir: 'libs', include: ['*.jar'], exclude: ['a.jar'])",
        "implementation fileTree(dir: 'libs', include: ['vendor-*.jar'])",
        "implementation fileTree('libs') {",
        "implementation fileTree(dir: libsDir, include: ['*.jar'])",
        "implementation fileTree(dir: 'missing', include: ['*.jar'])",
        "implementation fileTree(dir: '../elsewhere', include: ['*.jar'])",
    ] {
        assert!(
            read(line, &dir.path.borrow(), &mut report).unwrap().is_empty(),
            "{line}"
        );
    }
    assert_eq!(report.not_migrated.len(), 6, "{:?}", report.not_migrated);
}
