use jrs::check::check_tasks;
use jrs::error::JrsError;
use jrs::manifest::{blank, Manifest};
use jrs::task::{Hook, TaskDef, TaskRef};

/// A manifest with nothing but `[project]` and `extra`.
fn with(extra: &str) -> Result<Manifest, JrsError> {
    Manifest::parse(
        &format!("[project]\nname='a'\nversion='1'\n{extra}"),
        "/p/jrs.toml",
        "/p",
    )
}

fn refused(extra: &str) -> String {
    match with(extra) {
        Err(JrsError::Manifest(message)) => message,
        other => panic!("{extra}: {other:?}"),
    }
}

#[test]
fn a_task_that_is_named_is_there() {
    assert_eq!(
        refused("[tasks.t]\nshell = 'x'\ndepends-on = ['build', 'gen']\n"),
        "`tasks.t.depends-on` names `gen`, which is no task"
    );
    assert_eq!(
        refused("[tasks.t]\nshell = 'x'\n[hooks]\npre-test = ['t', 'gen']\n"),
        "`hooks.pre-test` names `gen`, which is no task"
    );
    let m = with(
        "[tasks.t]\nshell = 'x'\ndepends-on = ['gen']\n[tasks.gen]\nshell = 'y'\n\
         [hooks]\npre-test = ['t', 'gen']\n",
    )
    .unwrap();
    assert_eq!(check_tasks(&m), Ok(()));
}

#[test]
fn tasks_do_not_wait_for_each_other_in_a_circle() {
    let circle = "` leads into a circle of tasks that wait for each other";
    assert_eq!(
        refused("[tasks.t]\nshell = 'x'\ndepends-on = ['t']\n"),
        format!("`tasks.t{circle}")
    );
    // The first task that comes to no end is named, in the circle or not.
    assert_eq!(
        refused(
            "[tasks.d]\nshell = 'x'\n[tasks.a]\ndepends-on = ['d', 'b']\n\
             [tasks.b]\ndepends-on = ['c']\n[tasks.c]\ndepends-on = ['b']\n"
        ),
        format!("`tasks.a{circle}")
    );
    with(
        "[tasks.a]\ndepends-on = ['b', 'c']\n[tasks.b]\ndepends-on = ['d']\n\
         [tasks.c]\ndepends-on = ['d']\n[tasks.d]\nshell = 'x'\n",
    )
    .unwrap();
}

#[test]
fn a_circle_goes_through_the_hooks_of_a_command() {
    let sum = "[tasks.sum]\nshell = 'x'\ndepends-on = ['package']\n";
    with(sum).unwrap();
    with(&format!("{sum}[hooks]\npost-test = ['sum']\n")).unwrap();
    for hook in ["pre-compile", "post-compile", "post-package"] {
        assert_eq!(
            refused(&format!("{sum}[hooks]\n{hook} = ['sum']\n")),
            "`tasks.sum` leads into a circle of tasks that wait for each other"
        );
    }
}

#[test]
fn a_manifest_made_by_hand_is_checked_too() {
    let mut m = blank("app", "1.0.0", "/p");
    assert_eq!(check_tasks(&m), Ok(()));
    m.tasks.push(TaskDef {
        name: "a".to_string(),
        description: None,
        action: None,
        args: Vec::new(),
        depends_on: vec![TaskRef::Task("b".to_string())],
        env: Vec::new(),
        cwd: None,
        inputs: Vec::new(),
        outputs: Vec::new(),
        source_outputs: Vec::new(),
        resource_outputs: Vec::new(),
        dependencies: Vec::new(),
    });
    assert_eq!(
        check_tasks(&m).unwrap_err().to_text(),
        "`tasks.a.depends-on` names `b`, which is no task"
    );
    m.tasks[0].name = "b".to_string();
    m.hooks.add(Hook::PreRun, "b");
    assert_eq!(check_tasks(&m).unwrap_err().exit_code(), 2);
}
