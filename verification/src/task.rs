//! Tasks, and the points of a build that run them.

use crate::dependency::{Dependency, DependencyModel};
use crate::template::{Placeholder, Template, TemplateModel};
use crate::text::{cat2, listed, none_of, one_of, put, same, Duplicate};
use vstd::prelude::*;

verus! {

/// A built-in command a task may depend on.
#[derive(Debug, Clone, Copy, PartialEq, Eq, Hash, Structural)]
pub enum Builtin {
    Build,
    Test,
    Package,
    Doc,
}

/// A fixed point in a built-in command where `[hooks]` runs tasks.
#[derive(Debug, Clone, Copy, PartialEq, Eq, Hash, Structural)]
pub enum Hook {
    PreCompile,
    PostCompile,
    PreTest,
    PostTest,
    PostPackage,
    PreRun,
}

impl DeepView for Builtin {
    type V = Builtin;

    open spec fn deep_view(&self) -> Builtin {
        *self
    }
}

impl DeepView for Hook {
    type V = Hook;

    open spec fn deep_view(&self) -> Hook {
        *self
    }
}

impl Duplicate for Hook {
    fn duplicate(&self) -> Hook {
        *self
    }
}

/// The built-in called `name`.
pub open spec fn builtin_named(name: Seq<char>) -> Option<Builtin> {
    if name == "build"@ {
        Some(Builtin::Build)
    } else if name == "test"@ {
        Some(Builtin::Test)
    } else if name == "package"@ {
        Some(Builtin::Package)
    } else if name == "doc"@ {
        Some(Builtin::Doc)
    } else {
        None
    }
}

impl Builtin {
    pub open spec fn word(self) -> Seq<char> {
        match self {
            Builtin::Build => "build"@,
            Builtin::Test => "test"@,
            Builtin::Package => "package"@,
            Builtin::Doc => "doc"@,
        }
    }

    /// The hooks the command fires, in the order it reaches them.
    pub open spec fn fires(self) -> Seq<Hook> {
        match self {
            Builtin::Build => seq![Hook::PreCompile, Hook::PostCompile],
            Builtin::Test => seq![
                Hook::PreCompile,
                Hook::PostCompile,
                Hook::PreTest,
                Hook::PostTest,
            ],
            Builtin::Package => seq![Hook::PreCompile, Hook::PostCompile, Hook::PostPackage],
            Builtin::Doc => seq![Hook::PreCompile],
        }
    }

    pub fn name(self) -> (r: &'static str)
        ensures
            r@ == self.word(),
    {
        match self {
            Builtin::Build => "build",
            Builtin::Test => "test",
            Builtin::Package => "package",
            Builtin::Doc => "doc",
        }
    }

    /// The built-in called `s`.
    pub fn parse(s: &str) -> (r: Option<Builtin>)
        ensures
            r == builtin_named(s@),
    {
        if same(s, "build") {
            Some(Builtin::Build)
        } else if same(s, "test") {
            Some(Builtin::Test)
        } else if same(s, "package") {
            Some(Builtin::Package)
        } else if same(s, "doc") {
            Some(Builtin::Doc)
        } else {
            None
        }
    }

    /// The hooks this command fires, in the order it reaches them. Commands
    /// include each other, so their hooks do too.
    pub fn hooks(self) -> (r: Vec<Hook>)
        ensures
            r@ == self.fires(),
    {
        match self {
            Builtin::Build => vec![Hook::PreCompile, Hook::PostCompile],
            Builtin::Test => vec![
                Hook::PreCompile,
                Hook::PostCompile,
                Hook::PreTest,
                Hook::PostTest,
            ],
            Builtin::Package => vec![Hook::PreCompile, Hook::PostCompile, Hook::PostPackage],
            Builtin::Doc => vec![Hook::PreCompile],
        }
    }

    /// Whether the command fires `hook`.
    pub fn reaches(self, hook: Hook) -> (r: bool)
        ensures
            r == self.fires().contains(hook),
    {
        let all = self.hooks();
        let mut i: usize = 0;
        while i < all.len()
            invariant
                all@ == self.fires(),
                i <= all@.len(),
                forall|j: int| 0 <= j < i ==> all@[j] != hook,
            decreases all@.len() - i,
        {
            if all[i] == hook {
                return true;
            }
            i = i + 1;
        }
        false
    }
}

impl Hook {
    pub open spec fn word(self) -> Seq<char> {
        match self {
            Hook::PreCompile => "pre-compile"@,
            Hook::PostCompile => "post-compile"@,
            Hook::PreTest => "pre-test"@,
            Hook::PostTest => "post-test"@,
            Hook::PostPackage => "post-package"@,
            Hook::PreRun => "pre-run"@,
        }
    }

    /// Where it comes among the hooks.
    pub open spec fn place(self) -> int {
        match self {
            Hook::PreCompile => 0,
            Hook::PostCompile => 1,
            Hook::PreTest => 2,
            Hook::PostTest => 3,
            Hook::PostPackage => 4,
            Hook::PreRun => 5,
        }
    }

    pub fn name(self) -> (r: &'static str)
        ensures
            r@ == self.word(),
    {
        match self {
            Hook::PreCompile => "pre-compile",
            Hook::PostCompile => "post-compile",
            Hook::PreTest => "pre-test",
            Hook::PostTest => "post-test",
            Hook::PostPackage => "post-package",
            Hook::PreRun => "pre-run",
        }
    }

    /// Where it comes among the hooks.
    pub fn rank(self) -> (r: usize)
        ensures
            r == self.place(),
    {
        match self {
            Hook::PreCompile => 0,
            Hook::PostCompile => 1,
            Hook::PreTest => 2,
            Hook::PostTest => 3,
            Hook::PostPackage => 4,
            Hook::PreRun => 5,
        }
    }

    /// Every hook, in order.
    pub fn all() -> (r: Vec<Hook>)
        ensures
            r@ == every_hook(),
    {
        vec![
            Hook::PreCompile,
            Hook::PostCompile,
            Hook::PreTest,
            Hook::PostTest,
            Hook::PostPackage,
            Hook::PreRun,
        ]
    }
}

/// Every hook, in order.
pub open spec fn every_hook() -> Seq<Hook> {
    seq![
        Hook::PreCompile,
        Hook::PostCompile,
        Hook::PreTest,
        Hook::PostTest,
        Hook::PostPackage,
        Hook::PreRun,
    ]
}

/// The built-ins' names and no others are read as built-ins.
pub proof fn builtin_names_are_their_own(b: Builtin, name: Seq<char>)
    ensures
        builtin_named(name) == Some(b) <==> name == b.word(),
{
    reveal_strlit("build");
    reveal_strlit("test");
    reveal_strlit("package");
    reveal_strlit("doc");
    assert("build"@.len() == 5);
    assert("test"@.len() == 4);
    assert("package"@.len() == 7);
    assert("doc"@.len() == 3);
}

/// One entry of a task's `depends-on`.
#[derive(Debug, PartialEq, Eq, Hash)]
pub enum TaskRef {
    Task(String),
    Builtin(Builtin),
}

/// What a `depends-on` entry names.
pub enum TaskRefModel {
    Task(Seq<char>),
    Builtin(Builtin),
}

impl DeepView for TaskRef {
    type V = TaskRefModel;

    open spec fn deep_view(&self) -> TaskRefModel {
        match self {
            TaskRef::Task(name) => TaskRefModel::Task(name@),
            TaskRef::Builtin(b) => TaskRefModel::Builtin(*b),
        }
    }
}

impl Duplicate for TaskRef {
    fn duplicate(&self) -> TaskRef {
        match self {
            TaskRef::Task(name) => TaskRef::Task(name.clone()),
            TaskRef::Builtin(b) => TaskRef::Builtin(*b),
        }
    }
}

impl TaskRefModel {
    pub open spec fn word(self) -> Seq<char> {
        match self {
            TaskRefModel::Task(name) => name,
            TaskRefModel::Builtin(b) => b.word(),
        }
    }
}

impl TaskRef {
    /// The name of what it refers to.
    pub fn to_text(&self) -> (r: String)
        ensures
            r@ == self.deep_view().word(),
    {
        match self {
            TaskRef::Task(name) => name.clone(),
            TaskRef::Builtin(b) => b.name().to_owned(),
        }
    }

    /// Whether both refer to the same.
    pub fn is(&self, other: &TaskRef) -> (r: bool)
        ensures
            r == (self.deep_view() == other.deep_view()),
    {
        match (self, other) {
            (TaskRef::Task(a), TaskRef::Task(b)) => same(a.as_str(), b.as_str()),
            (TaskRef::Builtin(a), TaskRef::Builtin(b)) => *a == *b,
            _ => false,
        }
    }
}

/// Whether `r` is among `refs`.
pub fn refers(refs: &Vec<TaskRef>, r: &TaskRef) -> (b: bool)
    ensures
        b == refs.deep_view().contains(r.deep_view()),
{
    let mut i: usize = 0;
    while i < refs.len()
        invariant
            i <= refs@.len(),
            forall|j: int| 0 <= j < i ==> refs.deep_view()[j] != r.deep_view(),
        decreases refs@.len() - i,
    {
        if refs[i].is(r) {
            assert(refs.deep_view()[i as int] == r.deep_view());
            return true;
        }
        i = i + 1;
    }
    false
}

/// What a task runs: at most one of these.
#[derive(Debug, PartialEq, Eq)]
pub enum Action {
    /// An argument vector, no shell involved.
    Run(Vec<Template>),
    /// One string for a shell, which expands the `JRS_*` variables itself.
    Shell(String),
    /// A `.java` file for the JDK's single-file source launcher.
    Script(Template),
    /// A class run from the task's own `dependencies`.
    Main(String),
}

/// What a task runs.
pub enum ActionModel {
    Run(Seq<TemplateModel>),
    Shell(Seq<char>),
    Script(TemplateModel),
    Main(Seq<char>),
}

impl DeepView for Action {
    type V = ActionModel;

    open spec fn deep_view(&self) -> ActionModel {
        match self {
            Action::Run(argv) => ActionModel::Run(argv.deep_view()),
            Action::Shell(s) => ActionModel::Shell(s@),
            Action::Script(t) => ActionModel::Script(t.deep_view()),
            Action::Main(s) => ActionModel::Main(s@),
        }
    }
}

impl Duplicate for Action {
    fn duplicate(&self) -> Action {
        match self {
            Action::Run(argv) => Action::Run(argv.duplicate()),
            Action::Shell(s) => Action::Shell(s.clone()),
            Action::Script(t) => Action::Script(t.duplicate()),
            Action::Main(s) => Action::Main(s.clone()),
        }
    }
}

/// `[tasks.<name>]`.
#[derive(Debug, PartialEq, Eq)]
pub struct TaskDef {
    pub name: String,
    pub description: Option<String>,
    /// `None` for a task that only aggregates its `depends-on`.
    pub action: Option<Action>,
    pub args: Vec<Template>,
    pub depends_on: Vec<TaskRef>,
    /// In declaration order.
    pub env: Vec<(String, Template)>,
    pub cwd: Option<Template>,
    pub inputs: Vec<Template>,
    pub outputs: Vec<Template>,
    pub source_outputs: Vec<Template>,
    pub resource_outputs: Vec<Template>,
    /// `[tasks.<name>.dependencies]`: Java tools from a repository, resolved
    /// as a graph of the task's own.
    pub dependencies: Vec<Dependency>,
}

/// What a task says.
pub struct TaskModel {
    pub name: Seq<char>,
    pub description: Option<Seq<char>>,
    pub action: Option<ActionModel>,
    pub args: Seq<TemplateModel>,
    pub depends_on: Seq<TaskRefModel>,
    pub env: Seq<(Seq<char>, TemplateModel)>,
    pub cwd: Option<TemplateModel>,
    pub inputs: Seq<TemplateModel>,
    pub outputs: Seq<TemplateModel>,
    pub source_outputs: Seq<TemplateModel>,
    pub resource_outputs: Seq<TemplateModel>,
    pub dependencies: Seq<DependencyModel>,
}

impl DeepView for TaskDef {
    type V = TaskModel;

    open spec fn deep_view(&self) -> TaskModel {
        TaskModel {
            name: self.name@,
            description: self.description.deep_view(),
            action: self.action.deep_view(),
            args: self.args.deep_view(),
            depends_on: self.depends_on.deep_view(),
            env: self.env.deep_view(),
            cwd: self.cwd.deep_view(),
            inputs: self.inputs.deep_view(),
            outputs: self.outputs.deep_view(),
            source_outputs: self.source_outputs.deep_view(),
            resource_outputs: self.resource_outputs.deep_view(),
            dependencies: self.dependencies.deep_view(),
        }
    }
}

impl Duplicate for TaskDef {
    fn duplicate(&self) -> TaskDef {
        TaskDef {
            name: self.name.clone(),
            description: self.description.duplicate(),
            action: self.action.duplicate(),
            args: self.args.duplicate(),
            depends_on: self.depends_on.duplicate(),
            env: self.env.duplicate(),
            cwd: self.cwd.duplicate(),
            inputs: self.inputs.duplicate(),
            outputs: self.outputs.duplicate(),
            source_outputs: self.source_outputs.duplicate(),
            resource_outputs: self.resource_outputs.duplicate(),
            dependencies: self.dependencies.duplicate(),
        }
    }
}

/// Each template with `key`.
pub open spec fn tagged(key: Seq<char>, list: Seq<TemplateModel>) -> Seq<
    (Seq<char>, TemplateModel),
> {
    Seq::new(list.len(), |i: int| (key, list[i]))
}

impl TaskModel {
    /// The templates that name files or directories, with their keys.
    pub open spec fn path_templates(self) -> Seq<(Seq<char>, TemplateModel)> {
        tagged("inputs"@, self.inputs) + tagged("outputs"@, self.outputs) + tagged(
            "source-outputs"@,
            self.source_outputs,
        ) + tagged("resource-outputs"@, self.resource_outputs)
    }

    /// The templates of its action, with their keys.
    pub open spec fn action_templates(self) -> Seq<(Seq<char>, TemplateModel)> {
        match self.action {
            Some(ActionModel::Run(argv)) => tagged("run"@, argv),
            Some(ActionModel::Script(t)) => seq![("script"@, t)],
            _ => seq![],
        }
    }

    /// Every template it holds, with the key it came from.
    pub open spec fn templates(self) -> Seq<(Seq<char>, TemplateModel)> {
        self.action_templates() + tagged("args"@, self.args) + Seq::new(
            self.env.len(),
            |i: int| ("env"@, self.env[i].1),
        ) + (match self.cwd {
            Some(t) => seq![("cwd"@, t)],
            None => seq![],
        }) + self.path_templates()
    }

    /// One of its templates holds `p`.
    pub open spec fn uses(self, p: Placeholder) -> bool {
        exists|i: int|
            0 <= i < self.templates().len() && (#[trigger] self.templates()[i]).1.uses(p)
    }
}

/// Puts the templates of `list` behind `out`, each with `key`.
fn tag<'a>(out: &mut Vec<(&'static str, &'a Template)>, key: &'static str, list: &'a Vec<Template>)
    ensures
        final(out).deep_view() == old(out).deep_view() + tagged(key@, list.deep_view()),
{
    let mut i: usize = 0;
    let ghost before = out.deep_view();
    while i < list.len()
        invariant
            i <= list@.len(),
            out.deep_view() =~= before + tagged(key@, list.deep_view()).take(i as int),
        decreases list@.len() - i,
    {
        put(out, (key, &list[i]));
        i = i + 1;
    }
    assert(tagged(key@, list.deep_view()).take(i as int) =~= tagged(key@, list.deep_view()));
}

impl TaskDef {
    /// The name of the block that pins the task's dependencies:
    /// `tasks.format`, which no compiler's name can be.
    pub fn tool_name(&self) -> (r: String)
        ensures
            r@ == "tasks."@ + self.name@,
    {
        cat2("tasks.", self.name.as_str())
    }

    /// The templates that name files or directories.
    pub fn path_templates(&self) -> (r: Vec<(&'static str, &Template)>)
        ensures
            r.deep_view() == self.deep_view().path_templates(),
    {
        let mut out: Vec<(&'static str, &Template)> = none_of();
        tag(&mut out, "inputs", &self.inputs);
        tag(&mut out, "outputs", &self.outputs);
        tag(&mut out, "source-outputs", &self.source_outputs);
        tag(&mut out, "resource-outputs", &self.resource_outputs);
        assert(out.deep_view() =~= self.deep_view().path_templates());
        out
    }

    /// Every template the task holds, with the key it came from.
    pub fn templates(&self) -> (r: Vec<(&'static str, &Template)>)
        ensures
            r.deep_view() == self.deep_view().templates(),
    {
        let mut out: Vec<(&'static str, &Template)> = none_of();
        match &self.action {
            Some(Action::Run(argv)) => {
                tag(&mut out, "run", argv);
            },
            Some(Action::Script(t)) => {
                put(&mut out, ("script", t));
            },
            _ => {},
        }
        assert(out.deep_view() =~= self.deep_view().action_templates());
        tag(&mut out, "args", &self.args);
        let ghost before = out.deep_view();
        let ghost vars = Seq::new(
            self.env@.len(),
            |i: int| ("env"@, self.env.deep_view()[i].1),
        );
        let mut i: usize = 0;
        while i < self.env.len()
            invariant
                i <= self.env@.len(),
                vars == Seq::new(self.env@.len(), |i: int| ("env"@, self.env.deep_view()[i].1)),
                out.deep_view() =~= before + vars.take(i as int),
            decreases self.env@.len() - i,
        {
            put(&mut out, ("env", &self.env[i].1));
            i = i + 1;
        }
        assert(vars.take(i as int) =~= vars);
        if let Some(t) = &self.cwd {
            put(&mut out, ("cwd", t));
        }
        tag(&mut out, "inputs", &self.inputs);
        tag(&mut out, "outputs", &self.outputs);
        tag(&mut out, "source-outputs", &self.source_outputs);
        tag(&mut out, "resource-outputs", &self.resource_outputs);
        assert(out.deep_view() =~= self.deep_view().templates());
        out
    }

    /// Whether one of its templates holds `placeholder`.
    pub fn uses(&self, placeholder: Placeholder) -> (r: bool)
        ensures
            r == self.deep_view().uses(placeholder),
    {
        let all = self.templates();
        let mut i: usize = 0;
        while i < all.len()
            invariant
                all.deep_view() == self.deep_view().templates(),
                i <= all@.len(),
                forall|j: int|
                    0 <= j < i ==> !(#[trigger] self.deep_view().templates()[j]).1.uses(
                        placeholder,
                    ),
            decreases all@.len() - i,
        {
            let held = all[i].1.placeholders();
            assert(self.deep_view().templates()[i as int].1 == all@[i as int].1.deep_view());
            let mut k: usize = 0;
            while k < held.len()
                invariant
                    all.deep_view() == self.deep_view().templates(),
                    i < all@.len(),
                    held@ == self.deep_view().templates()[i as int].1.placeholders(),
                    k <= held@.len(),
                    forall|j: int| 0 <= j < k ==> held@[j] != placeholder,
                decreases held@.len() - k,
            {
                if held[k] == placeholder {
                    assert(self.deep_view().templates()[i as int].1.uses(placeholder));
                    return true;
                }
                k = k + 1;
            }
            i = i + 1;
        }
        false
    }
}

// ---- hooks -----------------------------------------------------------------

/// What `[hooks]` says: for each hook that has tasks, the tasks it runs.
pub type HookLists = Seq<(Hook, Seq<Seq<char>>)>;

/// Each hook comes once, in order.
pub open spec fn in_order(m: HookLists) -> bool {
    forall|i: int, j: int|
        0 <= i < j < m.len() ==> (#[trigger] m[i]).0.place() < (#[trigger] m[j]).0.place()
}

/// The tasks that `hook` runs.
pub open spec fn hook_tasks(m: HookLists, hook: Hook) -> Seq<Seq<char>>
    decreases m.len(),
{
    if m.len() == 0 {
        seq![]
    } else if m[0].0 == hook {
        m[0].1
    } else {
        hook_tasks(m.skip(1), hook)
    }
}

/// The list with `task` at its end, unless it is there already.
pub open spec fn once_more(names: Seq<Seq<char>>, task: Seq<char>) -> Seq<Seq<char>> {
    if names.contains(task) {
        names
    } else {
        names.push(task)
    }
}

/// The hooks with `task` in the list of `hook`.
pub open spec fn hooked(m: HookLists, hook: Hook, task: Seq<char>) -> HookLists
    decreases m.len(),
{
    if m.len() == 0 {
        seq![(hook, seq![task])]
    } else if m[0].0 == hook {
        seq![(hook, once_more(m[0].1, task))] + m.skip(1)
    } else if hook.place() < m[0].0.place() {
        seq![(hook, seq![task])] + m
    } else {
        seq![m[0]] + hooked(m.skip(1), hook, task)
    }
}

/// `[hooks]`: for each lifecycle point, the tasks it runs, in order.
#[derive(Debug, PartialEq, Eq)]
pub struct Hooks(Vec<(Hook, Vec<String>)>);

impl DeepView for Hooks {
    type V = HookLists;

    closed spec fn deep_view(&self) -> HookLists {
        self.0.deep_view()
    }
}

impl Duplicate for Hooks {
    fn duplicate(&self) -> Hooks {
        proof {
            use_type_invariant(self);
        }
        Hooks(self.0.duplicate())
    }
}

impl Default for Hooks {
    fn default() -> (r: Hooks)
        ensures
            r.deep_view() == HookLists::empty(),
    {
        Hooks(none_of())
    }
}

impl Hooks {
    #[verifier::type_invariant]
    pub closed spec fn inv(self) -> bool {
        in_order(self.0.deep_view())
    }

    /// The hooks of a list that has each once, in order.
    pub fn of(lists: Vec<(Hook, Vec<String>)>) -> (r: Hooks)
        requires
            in_order(lists.deep_view()),
        ensures
            r.deep_view() == lists.deep_view(),
    {
        Hooks(lists)
    }

    /// The tasks `hook` runs, in order.
    pub fn tasks(&self, hook: Hook) -> (r: Vec<String>)
        ensures
            r.deep_view() == hook_tasks(self.deep_view(), hook),
    {
        let mut i: usize = 0;
        let ghost all = self.0.deep_view();
        assert(all.skip(0) =~= all);
        while i < self.0.len()
            invariant
                all == self.0.deep_view(),
                i <= self.0@.len(),
                hook_tasks(all, hook) == hook_tasks(all.skip(i as int), hook),
            decreases self.0@.len() - i,
        {
            assert(all.skip(i as int).skip(1) =~= all.skip(i + 1));
            if self.0[i].0 == hook {
                return self.0[i].1.duplicate();
            }
            i = i + 1;
        }
        none_of()
    }

    /// Every hook that has tasks, with its tasks.
    pub fn iter(&self) -> (r: &Vec<(Hook, Vec<String>)>)
        ensures
            r.deep_view() == self.deep_view(),
            in_order(r.deep_view()),
    {
        proof {
            use_type_invariant(self);
        }
        &self.0
    }

    pub fn is_empty(&self) -> (r: bool)
        ensures
            r == (self.deep_view().len() == 0),
    {
        self.0.len() == 0
    }

    /// Append `task` to `hook`'s list, unless it is there already. The hooks
    /// stay in order.
    pub fn add(&mut self, hook: Hook, task: &str)
        ensures
            final(self).deep_view() == hooked(old(self).deep_view(), hook, task@),
    {
        proof {
            use_type_invariant(&*self);
        }
        let ghost all = self.0.deep_view();
        let mut out: Vec<(Hook, Vec<String>)> = none_of();
        let mut i: usize = 0;
        assert(all.skip(0) =~= all);
        while i < self.0.len() && self.0[i].0.rank() < hook.rank()
            invariant
                all == self.0.deep_view(),
                in_order(all),
                i <= self.0@.len(),
                out.deep_view() =~= all.take(i as int),
                forall|j: int| 0 <= j < i ==> (#[trigger] all[j]).0.place() < hook.place(),
                hooked(all, hook, task@) =~= all.take(i as int) + hooked(
                    all.skip(i as int),
                    hook,
                    task@,
                ),
            decreases self.0@.len() - i,
        {
            put(&mut out, self.0[i].duplicate());
            proof {
                assert(all.skip(i as int).skip(1) =~= all.skip(i + 1));
                assert(all.take(i + 1) =~= all.take(i as int).push(all[i as int]));
            }
            i = i + 1;
        }
        if i < self.0.len() && self.0[i].0 == hook {
            let mut names = self.0[i].1.duplicate();
            if !listed(&names, task) {
                put(&mut names, task.to_owned());
            }
            put(&mut out, (hook, names));
            proof {
                assert(all.skip(i as int).skip(1) =~= all.skip(i + 1));
            }
            i = i + 1;
        } else {
            put(&mut out, (hook, one_of(task.to_owned())));
        }
        let ghost start = i as int;
        let ghost head = out.deep_view();
        while i < self.0.len()
            invariant
                all == self.0.deep_view(),
                0 <= start <= i <= self.0@.len(),
                out.deep_view() =~= head + all.subrange(start, i as int),
            decreases self.0@.len() - i,
        {
            put(&mut out, self.0[i].duplicate());
            i = i + 1;
        }
        proof {
            assert(all.subrange(start, i as int) =~= all.skip(start));
            assert(out.deep_view() =~= hooked(all, hook, task@));
            lemma_hooked_in_order(all, hook, task@);
        }
        *self = Hooks(out);
    }
}

pub proof fn lemma_hooked_in_order(m: HookLists, hook: Hook, task: Seq<char>)
    requires
        in_order(m),
    ensures
        in_order(hooked(m, hook, task)),
        forall|i: int|
            0 <= i < hooked(m, hook, task).len() ==> (#[trigger] hooked(m, hook, task)[i]).0
                == hook || exists|j: int|
                0 <= j < m.len() && (#[trigger] m[j]).0 == hooked(m, hook, task)[i].0,
    decreases m.len(),
{
    let r = hooked(m, hook, task);
    if m.len() == 0 {
    } else if m[0].0 == hook {
        assert forall|i: int| 0 <= i < r.len() implies (#[trigger] r[i]).0 == m[i].0 by {}
    } else if hook.place() < m[0].0.place() {
        assert forall|i: int| 1 <= i < r.len() implies (#[trigger] r[i]) == m[i - 1] by {}
    } else {
        let rest = m.skip(1);
        assert forall|i: int, j: int| 0 <= i < j < rest.len() implies (#[trigger] rest[i]).0.place()
            < (#[trigger] rest[j]).0.place() by {
            assert(rest[i] == m[i + 1] && rest[j] == m[j + 1]);
        }
        lemma_hooked_in_order(rest, hook, task);
        let tail = hooked(rest, hook, task);
        assert forall|i: int| 1 <= i < r.len() implies (#[trigger] r[i]).0.place()
            > m[0].0.place() && (r[i].0 == hook || exists|j: int|
            0 <= j < m.len() && (#[trigger] m[j]).0 == r[i].0) by {
            assert(r[i] == tail[i - 1]);
            if tail[i - 1].0 != hook {
                let j = choose|j: int| 0 <= j < rest.len() && (#[trigger] rest[j]).0 == tail[i - 1].0;
                assert(m[j + 1] == rest[j]);
            }
        }
        assert forall|i: int, j: int| 0 <= i < j < r.len() implies (#[trigger] r[i]).0.place() < (
        #[trigger] r[j]).0.place() by {
            if i > 0 {
                assert(r[i] == tail[i - 1] && r[j] == tail[j - 1]);
            }
        }
        assert(r[0] == m[0]);
    }
}

/// A task added to a hook is in the hook's list, once more or still; every
/// other hook keeps its list.
pub proof fn adding_changes_one_hook(m: HookLists, hook: Hook, task: Seq<char>, other: Hook)
    requires
        in_order(m),
    ensures
        hook_tasks(hooked(m, hook, task), other) == (if other == hook {
            once_more(hook_tasks(m, hook), task)
        } else {
            hook_tasks(m, other)
        }),
    decreases m.len(),
{
    let r = hooked(m, hook, task);
    if m.len() == 0 {
        assert(r.skip(1) =~= seq![]);
        assert(hook_tasks(r.skip(1), other) =~= seq![]);
        assert(hook_tasks(m, other) =~= seq![]);
        assert(once_more(seq![], task) =~= seq![task]);
    } else if m[0].0 == hook {
        assert(r.skip(1) =~= m.skip(1));
    } else if hook.place() < m[0].0.place() {
        assert(r.skip(1) =~= m);
        assert(r[0] == (hook, seq![task]));
        if other == hook {
            lemma_absent(m, hook);
            assert(once_more(seq![], task) =~= seq![task]);
        }
    } else {
        let rest = m.skip(1);
        assert forall|i: int, j: int| 0 <= i < j < rest.len() implies (#[trigger] rest[i]).0.place()
            < (#[trigger] rest[j]).0.place() by {
            assert(rest[i] == m[i + 1] && rest[j] == m[j + 1]);
        }
        adding_changes_one_hook(rest, hook, task, other);
        assert(r.skip(1) =~= hooked(rest, hook, task));
        assert(r[0] == m[0]);
    }
}

proof fn lemma_absent(m: HookLists, hook: Hook)
    requires
        in_order(m),
        m.len() > 0 ==> hook.place() < m[0].0.place(),
    ensures
        hook_tasks(m, hook) == Seq::<Seq<char>>::empty(),
    decreases m.len(),
{
    if m.len() > 0 {
        let rest = m.skip(1);
        assert forall|i: int, j: int| 0 <= i < j < rest.len() implies (#[trigger] rest[i]).0.place()
            < (#[trigger] rest[j]).0.place() by {
            assert(rest[i] == m[i + 1] && rest[j] == m[j + 1]);
        }
        if rest.len() > 0 {
            assert(rest[0] == m[1]);
        }
        lemma_absent(rest, hook);
    }
}

/// Adding a task to a hook twice is adding it once.
pub proof fn adding_twice_is_adding_once(m: HookLists, hook: Hook, task: Seq<char>)
    requires
        in_order(m),
    ensures
        hooked(hooked(m, hook, task), hook, task) == hooked(m, hook, task),
    decreases m.len(),
{
    let r = hooked(m, hook, task);
    if m.len() == 0 {
        assert(seq![task].contains(task)) by {
            assert(seq![task][0] == task);
        }
        assert(hooked(r, hook, task) =~= r);
    } else if m[0].0 == hook {
        let names = once_more(m[0].1, task);
        assert(names.contains(task)) by {
            if !m[0].1.contains(task) {
                assert(names[m[0].1.len() as int] == task);
            }
        }
        assert(r[0] == (hook, names));
        assert(hooked(r, hook, task) =~= r);
    } else if hook.place() < m[0].0.place() {
        assert(seq![task].contains(task)) by {
            assert(seq![task][0] == task);
        }
        assert(r[0] == (hook, seq![task]));
        assert(hooked(r, hook, task) =~= r);
    } else {
        let rest = m.skip(1);
        assert forall|i: int, j: int| 0 <= i < j < rest.len() implies (#[trigger] rest[i]).0.place()
            < (#[trigger] rest[j]).0.place() by {
            assert(rest[i] == m[i + 1] && rest[j] == m[j + 1]);
        }
        adding_twice_is_adding_once(rest, hook, task);
        assert(r.skip(1) =~= hooked(rest, hook, task));
        assert(r[0] == m[0]);
        assert(hooked(r, hook, task) =~= r);
    }
}

} // verus!
