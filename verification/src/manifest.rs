//! `jrs.toml` as a value.

use crate::coord::Ga;
use crate::coverage::CoverageMinimum;
use crate::dependency::{
    open_repository, plain_dependency, CENTRAL_NAME, CENTRAL_URL, Dependency, DependencyModel,
    Managed, ManagedModel, Repository, RepositoryModel,
};
use crate::error::{Fault, JrsError};
use crate::language::{Language};
use crate::paths::{is_same_dir, join_path, same_dir, under};
use crate::task::{HookLists, Hooks, TaskDef, TaskModel};
use crate::template::{Placeholder, Segment, SegmentModel, Template, TemplateModel};
use crate::text::{cat4, cat5, none_of, one_of, put, same, same_list, outcome, Duplicate};
use vstd::prelude::*;

verus! {

pub const MANIFEST_FILE: &'static str = "jrs.toml";

pub const LOCK_FILE: &'static str = "jrs.lock";

// ---- the tables ------------------------------------------------------------

#[derive(Debug, PartialEq, Eq)]
pub struct JavaConfig {
    /// `--release`. `None` means "whatever the detected JDK is".
    pub source: Option<u32>,
    /// Only meaningful when it differs from `source`.
    pub target: Option<u32>,
    pub encoding: String,
    pub javac_args: Vec<String>,
    /// Appended verbatim to `jrs doc`'s `javadoc` invocation.
    pub javadoc_args: Vec<String>,
    /// The JDK feature version to build with, when the project pins one.
    pub jdk: Option<u32>,
}

/// What `[java]` says.
pub struct JavaModel {
    pub source: Option<u32>,
    pub target: Option<u32>,
    pub encoding: Seq<char>,
    pub javac_args: Seq<Seq<char>>,
    pub javadoc_args: Seq<Seq<char>>,
    pub jdk: Option<u32>,
}

impl DeepView for JavaConfig {
    type V = JavaModel;

    open spec fn deep_view(&self) -> JavaModel {
        JavaModel {
            source: self.source,
            target: self.target,
            encoding: self.encoding@,
            javac_args: self.javac_args.deep_view(),
            javadoc_args: self.javadoc_args.deep_view(),
            jdk: self.jdk,
        }
    }
}

/// What a manifest without `[java]` says.
pub open spec fn default_java() -> JavaModel {
    JavaModel {
        source: None,
        target: None,
        encoding: "UTF-8"@,
        javac_args: seq![],
        javadoc_args: seq![],
        jdk: None,
    }
}

impl Default for JavaConfig {
    fn default() -> (r: JavaConfig)
        ensures
            r.deep_view() == default_java(),
    {
        JavaConfig {
            source: None,
            target: None,
            encoding: "UTF-8".to_owned(),
            javac_args: none_of(),
            javadoc_args: none_of(),
            jdk: None,
        }
    }
}

/// `[run]`: how `jrs run` starts the JVM.
#[derive(Debug, PartialEq, Eq)]
pub struct RunConfig {
    /// Placed before `-cp`: `-Xmx512m`, `-Dkey=value`, `--enable-preview`.
    pub jvm_args: Vec<String>,
    /// Agents passed as `-javaagent:`, named by `group:artifact` and taken
    /// from the resolved runtime classpath, so each is the pinned version.
    pub java_agents: Vec<Ga>,
    /// Added to the environment the program inherits, in declaration order.
    pub env: Vec<(String, Template)>,
    /// The program's working directory, relative to the project root. `None`
    /// keeps the directory jrs was started in.
    pub cwd: Option<Template>,
}

/// What `[run]` says.
pub struct RunModel {
    pub jvm_args: Seq<Seq<char>>,
    pub java_agents: Seq<(Seq<char>, Seq<char>)>,
    pub env: Seq<(Seq<char>, TemplateModel)>,
    pub cwd: Option<TemplateModel>,
}

impl DeepView for RunConfig {
    type V = RunModel;

    open spec fn deep_view(&self) -> RunModel {
        RunModel {
            jvm_args: self.jvm_args.deep_view(),
            java_agents: self.java_agents.deep_view(),
            env: self.env.deep_view(),
            cwd: self.cwd.deep_view(),
        }
    }
}

pub open spec fn default_run() -> RunModel {
    RunModel { jvm_args: seq![], java_agents: seq![], env: seq![], cwd: None }
}

impl Default for RunConfig {
    fn default() -> (r: RunConfig)
        ensures
            r.deep_view() == default_run(),
    {
        RunConfig { jvm_args: none_of(), java_agents: none_of(), env: none_of(), cwd: None }
    }
}

/// `[test]`: how `jrs test` starts the test JVM.
#[derive(Debug, PartialEq, Eq)]
pub struct TestConfig {
    pub jvm_args: Vec<String>,
    /// The `JaCoCo` release `jrs test --coverage` uses.
    pub jacoco_version: Option<String>,
    /// Agents passed as `-javaagent:`, ahead of `JaCoCo`'s, taken from the
    /// resolved test classpath.
    pub java_agents: Vec<Ga>,
    /// Added to the environment the test JVM inherits, in declaration order.
    pub env: Vec<(String, Template)>,
    /// How many times a failed test is run again before it counts as failed.
    pub retries: u32,
    /// How many test JVMs share the classes; 0, unless set, is one of them.
    pub forks: u32,
    /// Project-wide totals `jrs test --coverage` must reach, in declaration
    /// order.
    pub coverage_minimum: Vec<CoverageMinimum>,
}

/// What `[test]` says.
pub struct TestModel {
    pub jvm_args: Seq<Seq<char>>,
    pub jacoco_version: Option<Seq<char>>,
    pub java_agents: Seq<(Seq<char>, Seq<char>)>,
    pub env: Seq<(Seq<char>, TemplateModel)>,
    pub retries: u32,
    pub forks: u32,
    pub coverage_minimum: Seq<CoverageMinimum>,
}

impl DeepView for TestConfig {
    type V = TestModel;

    open spec fn deep_view(&self) -> TestModel {
        TestModel {
            jvm_args: self.jvm_args.deep_view(),
            jacoco_version: self.jacoco_version.deep_view(),
            java_agents: self.java_agents.deep_view(),
            env: self.env.deep_view(),
            retries: self.retries,
            forks: self.forks,
            coverage_minimum: self.coverage_minimum.deep_view(),
        }
    }
}

pub open spec fn default_test() -> TestModel {
    TestModel {
        jvm_args: seq![],
        jacoco_version: None,
        java_agents: seq![],
        env: seq![],
        retries: 0,
        forks: 0,
        coverage_minimum: seq![],
    }
}

impl Default for TestConfig {
    fn default() -> (r: TestConfig)
        ensures
            r.deep_view() == default_test(),
    {
        TestConfig {
            jvm_args: none_of(),
            jacoco_version: None,
            java_agents: none_of(),
            env: none_of(),
            retries: 0,
            forks: 0,
            coverage_minimum: none_of(),
        }
    }
}

/// `[package]`: jar attributes, runtime images, native images.
#[derive(Debug, PartialEq, Eq)]
pub struct PackageConfig {
    /// Modules added to a `--jlink` / `--jpackage` runtime beyond those `jdeps`
    /// finds.
    pub add_modules: Vec<String>,
    /// `[package.manifest]`: extra `META-INF/MANIFEST.MF` attributes, in
    /// declaration order. Values may use `{project.name}` and
    /// `{project.version}`.
    pub manifest: Vec<(String, Template)>,
    /// Passed through verbatim to `native-image` by `--native-image`.
    pub native_image_args: Vec<String>,
}

/// What `[package]` says.
pub struct PackageModel {
    pub add_modules: Seq<Seq<char>>,
    pub manifest: Seq<(Seq<char>, TemplateModel)>,
    pub native_image_args: Seq<Seq<char>>,
}

impl DeepView for PackageConfig {
    type V = PackageModel;

    open spec fn deep_view(&self) -> PackageModel {
        PackageModel {
            add_modules: self.add_modules.deep_view(),
            manifest: self.manifest.deep_view(),
            native_image_args: self.native_image_args.deep_view(),
        }
    }
}

pub open spec fn default_package() -> PackageModel {
    PackageModel { add_modules: seq![], manifest: seq![], native_image_args: seq![] }
}

impl Default for PackageConfig {
    fn default() -> (r: PackageConfig)
        ensures
            r.deep_view() == default_package(),
    {
        PackageConfig { add_modules: none_of(), manifest: none_of(), native_image_args: none_of() }
    }
}

/// `[kotlin]`, `[scala]` or `[groovy]`: the table's presence turns the
/// language on, and its `version` pins the compiler.
#[derive(Debug, Eq)]
pub struct LanguageConfig {
    pub language: Language,
    /// The compiler's version, and the implied runtime library's.
    pub version: String,
    /// An extra main source root: `src/main/<lang>` unless set.
    pub source_dir: String,
    /// An extra test source root: `src/test/<lang>` unless set.
    pub test_dir: String,
    /// Appended verbatim after jrs's own flags.
    pub compiler_args: Vec<String>,
    /// `java` flags for the JVM the compiler runs in: heap and stack size.
    pub compiler_jvm_args: Vec<String>,
}

/// What a language's table says.
pub struct LanguageModel {
    pub language: Language,
    pub version: Seq<char>,
    pub source_dir: Seq<char>,
    pub test_dir: Seq<char>,
    pub compiler_args: Seq<Seq<char>>,
    pub compiler_jvm_args: Seq<Seq<char>>,
}

impl DeepView for LanguageConfig {
    type V = LanguageModel;

    open spec fn deep_view(&self) -> LanguageModel {
        LanguageModel {
            language: self.language,
            version: self.version@,
            source_dir: self.source_dir@,
            test_dir: self.test_dir@,
            compiler_args: self.compiler_args.deep_view(),
            compiler_jvm_args: self.compiler_jvm_args.deep_view(),
        }
    }
}

/// The languages are the same, their directories whatever slashes and dots
/// they are written with.
pub open spec fn same_language(a: LanguageModel, b: LanguageModel) -> bool {
    &&& a == LanguageModel { source_dir: a.source_dir, test_dir: a.test_dir, ..b }
    &&& same_dir(a.source_dir, b.source_dir)
    &&& same_dir(a.test_dir, b.test_dir)
}

impl PartialEq for LanguageConfig {
    fn eq(&self, other: &LanguageConfig) -> (r: bool) {
        self.language == other.language && same(self.version.as_str(), other.version.as_str())
            && is_same_dir(self.source_dir.as_str(), other.source_dir.as_str()) && is_same_dir(
            self.test_dir.as_str(),
            other.test_dir.as_str(),
        ) && same_list(&self.compiler_args, &other.compiler_args) && same_list(
            &self.compiler_jvm_args,
            &other.compiler_jvm_args,
        )
    }
}

impl vstd::std_specs::cmp::PartialEqSpecImpl for LanguageConfig {
    open spec fn obeys_eq_spec() -> bool {
        true
    }

    open spec fn eq_spec(&self, other: &LanguageConfig) -> bool {
        same_language(self.deep_view(), other.deep_view())
    }
}

/// `[obfuscate]`: the `ProGuard` release to run, what it keeps besides what
/// jrs keeps, and the options handed on to it.
#[derive(Debug, PartialEq, Eq)]
pub struct ObfuscateConfig {
    pub version: String,
    pub keep: Vec<String>,
    pub proguard_args: Vec<String>,
}

/// What `[obfuscate]` says.
pub struct ObfuscateModel {
    pub version: Seq<char>,
    pub keep: Seq<Seq<char>>,
    pub proguard_args: Seq<Seq<char>>,
}

impl DeepView for ObfuscateConfig {
    type V = ObfuscateModel;

    open spec fn deep_view(&self) -> ObfuscateModel {
        ObfuscateModel {
            version: self.version@,
            keep: self.keep.deep_view(),
            proguard_args: self.proguard_args.deep_view(),
        }
    }
}

// ---- the manifest ----------------------------------------------------------

#[derive(Debug)]
pub struct Manifest {
    /// Absolute path to `jrs.toml`.
    pub path: String,
    /// Directory holding the manifest; every relative path is resolved against
    /// it.
    pub root: String,
    pub name: String,
    pub version: String,
    pub main_class: Option<String>,
    pub source_dir: String,
    pub test_dir: String,
    pub resource_dir: String,
    pub test_resource_dir: String,
    pub target_dir: String,
    pub java: JavaConfig,
    pub run: RunConfig,
    pub test: TestConfig,
    pub package: PackageConfig,
    /// The languages turned on besides Java, in their order.
    pub languages: Vec<LanguageConfig>,
    pub dependencies: Vec<Dependency>,
    pub dev_dependencies: Vec<Dependency>,
    /// `[managed]`, in declaration order: pinned versions and BOMs.
    pub managed: Vec<Managed>,
    /// User repositories in declaration order, with Central appended last.
    pub repositories: Vec<Repository>,
    /// `[tasks]`, in declaration order.
    pub tasks: Vec<TaskDef>,
    pub hooks: Hooks,
    /// `[obfuscate]`, where there is one.
    pub obfuscate: Option<ObfuscateConfig>,
    /// Non-fatal complaints, surfaced after the manifest loads.
    pub warnings: Vec<String>,
    /// `project.jrs-version`: the oldest jrs that may build the project, as
    /// written.
    pub jrs_version: Option<String>,
}

/// What a manifest says.
pub struct ManifestModel {
    pub path: Seq<char>,
    pub root: Seq<char>,
    pub name: Seq<char>,
    pub version: Seq<char>,
    pub main_class: Option<Seq<char>>,
    pub source_dir: Seq<char>,
    pub test_dir: Seq<char>,
    pub resource_dir: Seq<char>,
    pub test_resource_dir: Seq<char>,
    pub target_dir: Seq<char>,
    pub java: JavaModel,
    pub run: RunModel,
    pub test: TestModel,
    pub package: PackageModel,
    pub languages: Seq<LanguageModel>,
    pub dependencies: Seq<DependencyModel>,
    pub dev_dependencies: Seq<DependencyModel>,
    pub managed: Seq<ManagedModel>,
    pub repositories: Seq<RepositoryModel>,
    pub tasks: Seq<TaskModel>,
    pub hooks: HookLists,
    pub obfuscate: Option<ObfuscateModel>,
    pub warnings: Seq<Seq<char>>,
    pub jrs_version: Option<Seq<char>>,
}

impl DeepView for Manifest {
    type V = ManifestModel;

    open spec fn deep_view(&self) -> ManifestModel {
        ManifestModel {
            path: self.path@,
            root: self.root@,
            name: self.name@,
            version: self.version@,
            main_class: self.main_class.deep_view(),
            source_dir: self.source_dir@,
            test_dir: self.test_dir@,
            resource_dir: self.resource_dir@,
            test_resource_dir: self.test_resource_dir@,
            target_dir: self.target_dir@,
            java: self.java.deep_view(),
            run: self.run.deep_view(),
            test: self.test.deep_view(),
            package: self.package.deep_view(),
            languages: self.languages.deep_view(),
            dependencies: self.dependencies.deep_view(),
            dev_dependencies: self.dev_dependencies.deep_view(),
            managed: self.managed.deep_view(),
            repositories: self.repositories.deep_view(),
            tasks: self.tasks.deep_view(),
            hooks: self.hooks.deep_view(),
            obfuscate: self.obfuscate.deep_view(),
            warnings: self.warnings.deep_view(),
            jrs_version: self.jrs_version.deep_view(),
        }
    }
}

/// A manifest with nothing but the required fields.
pub open spec fn blank_manifest(name: Seq<char>, version: Seq<char>, root: Seq<char>) -> ManifestModel {
    ManifestModel {
        path: under(root, MANIFEST_FILE@),
        root,
        name,
        version,
        main_class: None,
        source_dir: "src/main/java"@,
        test_dir: "src/test/java"@,
        resource_dir: "src/main/resources"@,
        test_resource_dir: "src/test/resources"@,
        target_dir: "target"@,
        java: default_java(),
        run: default_run(),
        test: default_test(),
        package: default_package(),
        languages: seq![],
        dependencies: seq![],
        dev_dependencies: seq![],
        managed: seq![],
        repositories: seq![open_repository(CENTRAL_NAME@, CENTRAL_URL@)],
        tasks: seq![],
        hooks: seq![],
        obfuscate: None,
        warnings: seq![],
        jrs_version: None,
    }
}

/// A manifest with nothing but the required fields, for a new project or one
/// being migrated.
pub fn blank(name: &str, version: &str, root: &str) -> (r: Manifest)
    ensures
        r.deep_view() == blank_manifest(name@, version@, root@),
{
    Manifest {
        path: join_path(root, MANIFEST_FILE),
        root: root.to_owned(),
        name: name.to_owned(),
        version: version.to_owned(),
        main_class: None,
        source_dir: "src/main/java".to_owned(),
        test_dir: "src/test/java".to_owned(),
        resource_dir: "src/main/resources".to_owned(),
        test_resource_dir: "src/test/resources".to_owned(),
        target_dir: "target".to_owned(),
        java: JavaConfig::default(),
        run: RunConfig::default(),
        test: TestConfig::default(),
        package: PackageConfig::default(),
        languages: none_of(),
        dependencies: none_of(),
        dev_dependencies: none_of(),
        managed: none_of(),
        repositories: one_of(Repository::new(CENTRAL_NAME, CENTRAL_URL)),
        tasks: none_of(),
        hooks: Hooks::default(),
        obfuscate: None,
        warnings: none_of(),
        jrs_version: None,
    }
}

// ---- what the languages imply ----------------------------------------------

/// Some dependency of the list is `group:artifact`, without a classifier.
pub open spec fn declares(list: Seq<DependencyModel>, group: Seq<char>, artifact: Seq<char>) -> bool {
    exists|i: int|
        0 <= i < list.len() && (#[trigger] list[i]).group == group && list[i].artifact == artifact
            && list[i].classifier is None
}

impl ManifestModel {
    pub open spec fn declares(self, group: Seq<char>, artifact: Seq<char>) -> bool {
        declares(self.dependencies, group, artifact) || declares(
            self.dev_dependencies,
            group,
            artifact,
        )
    }

    /// The first `n` libraries of `config` that the manifest does not declare.
    pub open spec fn implied_by(self, config: LanguageModel, n: int) -> Seq<
        (DependencyModel, Language),
    >
        decreases n,
    {
        if n <= 0 {
            seq![]
        } else {
            let (group, artifact) = config.language.libraries(config.version)[n - 1];
            let before = self.implied_by(config, n - 1);
            if self.declares(group, artifact) {
                before
            } else {
                before.push((plain_dependency(group, artifact, config.version), config.language))
            }
        }
    }

    /// The libraries that the first `n` languages imply.
    pub open spec fn implied_up_to(self, n: int) -> Seq<(DependencyModel, Language)>
        decreases n,
    {
        if n <= 0 {
            seq![]
        } else {
            let config = self.languages[n - 1];
            self.implied_up_to(n - 1) + self.implied_by(
                config,
                config.language.libraries(config.version).len() as int,
            )
        }
    }

    /// The runtime libraries the languages imply, each with its language: the
    /// ones the manifest does not declare itself, in either table.
    pub open spec fn implied(self) -> Seq<(DependencyModel, Language)> {
        self.implied_up_to(self.languages.len() as int)
    }

    /// `[dependencies]`, then the implied libraries.
    pub open spec fn effective(self) -> Seq<DependencyModel> {
        self.dependencies + Seq::new(self.implied().len(), |i: int| self.implied()[i].0)
    }
}

/// Whether some dependency of the list is `group:artifact`, without a
/// classifier.
pub fn is_declared(list: &Vec<Dependency>, group: &str, artifact: &str) -> (r: bool)
    ensures
        r == declares(list.deep_view(), group@, artifact@),
{
    let ghost all = list.deep_view();
    let mut i: usize = 0;
    while i < list.len()
        invariant
            all == list.deep_view(),
            i <= list@.len(),
            forall|j: int|
                0 <= j < i ==> !((#[trigger] all[j]).group == group@ && all[j].artifact
                    == artifact@ && all[j].classifier is None),
        decreases list@.len() - i,
    {
        let d = &list[i];
        assert(all[i as int] == d.deep_view());
        if same(d.group.as_str(), group) && same(d.artifact.as_str(), artifact)
            && d.classifier.is_none() {
            return true;
        }
        i = i + 1;
    }
    false
}

// ---- jar attributes --------------------------------------------------------

pub open spec fn unavailable_message(name: Seq<char>, p: Placeholder) -> Seq<char> {
    "`package.manifest."@ + name + "`: `{"@ + p.word() + "}` is not available here"@
}

/// The segments of the attribute `name` with the project's name and version
/// put in.
pub open spec fn expanded_attribute(
    name: Seq<char>,
    segments: Seq<SegmentModel>,
    project: Seq<char>,
    version: Seq<char>,
) -> Result<Seq<char>, Seq<char>>
    decreases segments.len(),
{
    if segments.len() == 0 {
        Ok(seq![])
    } else {
        match expanded_attribute(name, segments.drop_last(), project, version) {
            Err(e) => Err(e),
            Ok(before) => match segments.last() {
                SegmentModel::Text(t) => Ok(before + t),
                SegmentModel::Placeholder(Placeholder::ProjectName) => Ok(before + project),
                SegmentModel::Placeholder(Placeholder::ProjectVersion) => Ok(before + version),
                SegmentModel::Placeholder(p) => Err(unavailable_message(name, p)),
            },
        }
    }
}

impl ManifestModel {
    /// The first `n` jar attributes, expanded.
    pub open spec fn attributes_up_to(self, n: int) -> Result<Seq<(Seq<char>, Seq<char>)>, Fault>
        decreases n,
    {
        if n <= 0 {
            Ok(seq![])
        } else {
            match self.attributes_up_to(n - 1) {
                Err(e) => Err(e),
                Ok(before) => {
                    let (name, value) = self.package.manifest[n - 1];
                    match expanded_attribute(name, value.segments, self.name, self.version) {
                        Ok(text) => Ok(before.push((name, text))),
                        Err(e) => Err(Fault::Manifest(e)),
                    }
                },
            }
        }
    }
}

fn expand_attribute(name: &str, value: &Template, project: &str, version: &str) -> (r: Result<
    String,
    String,
>)
    ensures
        outcome(r) == expanded_attribute(
            name@,
            value.segments.deep_view(),
            project@,
            version@,
        ),
{
    let ghost all = value.segments.deep_view();
    let mut out = String::new();
    let mut i: usize = 0;
    assert(all.take(0) =~= seq![]);
    assert(out@ =~= seq![]);
    while i < value.segments.len()
        invariant
            all == value.segments.deep_view(),
            i <= value.segments@.len(),
            expanded_attribute(name@, all.take(i as int), project@, version@) == Ok::<
                Seq<char>,
                Seq<char>,
            >(out@),
        decreases value.segments@.len() - i,
    {
        assert(all.take(i + 1).drop_last() =~= all.take(i as int));
        assert(all.take(i + 1).last() == value.segments@[i as int].deep_view());
        match &value.segments[i] {
            Segment::Text(t) => {
                out.append(t.as_str());
            },
            Segment::Placeholder(Placeholder::ProjectName) => {
                out.append(project);
            },
            Segment::Placeholder(Placeholder::ProjectVersion) => {
                out.append(version);
            },
            Segment::Placeholder(p) => {
                proof {
                    lemma_attribute_error(name@, all, i + 1, project@, version@);
                }
                return Err(
                    cat5("`package.manifest.", name, "`: `{", p.name(), "}` is not available here"),
                );
            },
        }
        i = i + 1;
    }
    assert(all.take(i as int) =~= all);
    Ok(out)
}

proof fn lemma_attribute_error(
    name: Seq<char>,
    segments: Seq<SegmentModel>,
    k: int,
    project: Seq<char>,
    version: Seq<char>,
)
    requires
        0 <= k <= segments.len(),
        expanded_attribute(name, segments.take(k), project, version) is Err,
    ensures
        expanded_attribute(name, segments, project, version) == expanded_attribute(
            name,
            segments.take(k),
            project,
            version,
        ),
    decreases segments.len(),
{
    if k == segments.len() {
        assert(segments.take(k) =~= segments);
    } else {
        assert(segments.drop_last().take(k) =~= segments.take(k));
        lemma_attribute_error(name, segments.drop_last(), k, project, version);
    }
}

proof fn lemma_attributes_error(m: ManifestModel, k: int, n: int)
    requires
        0 <= k <= n,
        m.attributes_up_to(k) is Err,
    ensures
        m.attributes_up_to(n) == m.attributes_up_to(k),
    decreases n,
{
    if k < n {
        lemma_attributes_error(m, k, n - 1);
    }
}

// ---- methods ---------------------------------------------------------------

/// The first task of the list from `i` on called `name`.
pub open spec fn task_at(tasks: Seq<TaskModel>, name: Seq<char>, i: int) -> Option<TaskModel>
    decreases tasks.len() - i,
{
    if i < 0 || i >= tasks.len() {
        None
    } else if tasks[i].name == name {
        Some(tasks[i])
    } else {
        task_at(tasks, name, i + 1)
    }
}

/// The first table of the list from `i` on that turns `language` on.
pub open spec fn language_at(
    languages: Seq<LanguageModel>,
    language: Language,
    i: int,
) -> Option<LanguageModel>
    decreases languages.len() - i,
{
    if i < 0 || i >= languages.len() {
        None
    } else if languages[i].language == language {
        Some(languages[i])
    } else {
        language_at(languages, language, i + 1)
    }
}

pub open spec fn no_main_class_message(command: Seq<char>, path: Seq<char>) -> Seq<char> {
    "`jrs "@ + command + "` needs a main class\n\nadd it to "@ + path
        + ":\n\n    [project]\n    main-class = \"com.example.Main\""@
}

impl Manifest {
    /// The task `[tasks.<name>]` declares.
    pub fn task(&self, name: &str) -> (r: Option<&TaskDef>)
        ensures
            r.deep_view() == task_at(self.deep_view().tasks, name@, 0),
    {
        let mut i: usize = 0;
        while i < self.tasks.len()
            invariant
                i <= self.tasks@.len(),
                task_at(self.tasks.deep_view(), name@, 0) == task_at(
                    self.tasks.deep_view(),
                    name@,
                    i as int,
                ),
            decreases self.tasks@.len() - i,
        {
            if same(self.tasks[i].name.as_str(), name) {
                return Some(&self.tasks[i]);
            }
            i = i + 1;
        }
        None
    }

    /// The table that turns `language` on, when the manifest has one.
    pub fn language(&self, language: Language) -> (r: Option<&LanguageConfig>)
        ensures
            r.deep_view() == language_at(self.deep_view().languages, language, 0),
    {
        let mut i: usize = 0;
        while i < self.languages.len()
            invariant
                i <= self.languages@.len(),
                language_at(self.languages.deep_view(), language, 0) == language_at(
                    self.languages.deep_view(),
                    language,
                    i as int,
                ),
            decreases self.languages@.len() - i,
        {
            if self.languages[i].language == language {
                return Some(&self.languages[i]);
            }
            i = i + 1;
        }
        None
    }

    /// The runtime libraries the languages imply, each with its language: the
    /// ones the manifest does not declare itself, in either table. They are
    /// never written into `jrs.toml`.
    pub fn implied_dependencies(&self) -> (r: Vec<(Dependency, Language)>)
        ensures
            r.deep_view() == self.deep_view().implied(),
    {
        let ghost m = self.deep_view();
        let mut implied: Vec<(Dependency, Language)> = none_of();
        let mut i: usize = 0;
        while i < self.languages.len()
            invariant
                m == self.deep_view(),
                i <= self.languages@.len(),
                implied.deep_view() == m.implied_up_to(i as int),
            decreases self.languages@.len() - i,
        {
            let config = &self.languages[i];
            let libraries = config.language.runtime_libraries(config.version.as_str());
            let ghost before = implied.deep_view();
            let ghost c = m.languages[i as int];
            assert(c == config.deep_view());
            let mut k: usize = 0;
            assert(before + m.implied_by(c, 0) =~= before);
            while k < libraries.len()
                invariant
                    m == self.deep_view(),
                    c == config.deep_view(),
                    libraries.deep_view() == c.language.libraries(c.version),
                    k <= libraries@.len(),
                    implied.deep_view() == before + m.implied_by(c, k as int),
                decreases libraries@.len() - k,
            {
                let (group, artifact) = libraries[k];
                assert(libraries.deep_view()[k as int] == (group@, artifact@));
                if !is_declared(&self.dependencies, group, artifact) && !is_declared(
                    &self.dev_dependencies,
                    group,
                    artifact,
                ) {
                    put(
                        &mut implied,
                        (Dependency::new(group, artifact, config.version.as_str()), config.language),
                    );
                }
                assert(implied.deep_view() =~= before + m.implied_by(c, k + 1));
                k = k + 1;
            }
            i = i + 1;
        }
        implied
    }

    /// `[dependencies]` as resolution sees them: the declared ones, then the
    /// implied runtime libraries as if declared last.
    pub fn effective_dependencies(&self) -> (r: Vec<Dependency>)
        ensures
            r.deep_view() == self.deep_view().effective(),
    {
        let mut out = self.dependencies.duplicate();
        let implied = self.implied_dependencies();
        let ghost all = implied.deep_view();
        let ghost own = out.deep_view();
        let ghost extra = Seq::new(all.len(), |i: int| all[i].0);
        let mut i: usize = 0;
        while i < implied.len()
            invariant
                all == implied.deep_view(),
                extra == Seq::new(all.len(), |i: int| all[i].0),
                i <= implied@.len(),
                out.deep_view() =~= own + extra.take(i as int),
            decreases implied@.len() - i,
        {
            assert(all[i as int].0 == implied@[i as int].0.deep_view());
            put(&mut out, implied[i].0.duplicate());
            i = i + 1;
        }
        assert(extra.take(i as int) =~= extra);
        out
    }

    pub fn source_path(&self) -> (r: String)
        ensures
            r@ == under(self.root@, self.source_dir@),
    {
        join_path(self.root.as_str(), self.source_dir.as_str())
    }

    pub fn test_path(&self) -> (r: String)
        ensures
            r@ == under(self.root@, self.test_dir@),
    {
        join_path(self.root.as_str(), self.test_dir.as_str())
    }

    pub fn resource_path(&self) -> (r: String)
        ensures
            r@ == under(self.root@, self.resource_dir@),
    {
        join_path(self.root.as_str(), self.resource_dir.as_str())
    }

    pub fn test_resource_path(&self) -> (r: String)
        ensures
            r@ == under(self.root@, self.test_resource_dir@),
    {
        join_path(self.root.as_str(), self.test_resource_dir.as_str())
    }

    pub fn target_path(&self) -> (r: String)
        ensures
            r@ == under(self.root@, self.target_dir@),
    {
        join_path(self.root.as_str(), self.target_dir.as_str())
    }

    pub fn lock_path(&self) -> (r: String)
        ensures
            r@ == under(self.root@, LOCK_FILE@),
    {
        join_path(self.root.as_str(), LOCK_FILE)
    }

    /// `my-app-1.0.0.jar`
    pub fn jar_name(&self) -> (r: String)
        ensures
            r@ == self.name@ + "-"@ + self.version@ + ".jar"@,
    {
        cat4(self.name.as_str(), "-", self.version.as_str(), ".jar")
    }

    /// The main class, or an error naming the command that needs it.
    pub fn require_main_class(&self, command: &str) -> (r: Result<&str, JrsError>)
        ensures
            outcome(r) == (match self.deep_view().main_class {
                Some(class) => Ok::<Seq<char>, Fault>(class),
                None => Err(Fault::Manifest(no_main_class_message(command@, self.path@))),
            }),
    {
        match &self.main_class {
            Some(class) => Ok(class.as_str()),
            None => Err(
                JrsError::Manifest(
                    cat5(
                        "`jrs ",
                        command,
                        "` needs a main class\n\nadd it to ",
                        self.path.as_str(),
                        ":\n\n    [project]\n    main-class = \"com.example.Main\"",
                    ),
                ),
            ),
        }
    }

    /// `[package.manifest]` with its placeholders expanded: the attributes a
    /// jar's `MANIFEST.MF` gets after jrs's own, in declaration order. Only
    /// `{project.name}` and `{project.version}` are known.
    pub fn jar_attributes(&self) -> (r: Result<Vec<(String, String)>, JrsError>)
        ensures
            outcome(r) == self.deep_view().attributes_up_to(self.package.manifest@.len() as int),
    {
        let ghost m = self.deep_view();
        let ghost n = self.package.manifest@.len() as int;
        let mut out: Vec<(String, String)> = none_of();
        let mut i: usize = 0;
        while i < self.package.manifest.len()
            invariant
                m == self.deep_view(),
                n == self.package.manifest@.len(),
                i <= n,
                m.attributes_up_to(i as int) == Ok::<Seq<(Seq<char>, Seq<char>)>, Fault>(
                    out.deep_view(),
                ),
            decreases n - i,
        {
            let (name, value) = &self.package.manifest[i];
            assert(m.package.manifest[i as int] == (name@, value.deep_view()));
            match expand_attribute(
                name.as_str(),
                value,
                self.name.as_str(),
                self.version.as_str(),
            ) {
                Ok(text) => {
                    put(&mut out, (name.clone(), text));
                },
                Err(e) => {
                    proof {
                        lemma_attributes_error(m, i + 1, n);
                    }
                    return Err(JrsError::Manifest(e));
                },
            }
            i = i + 1;
        }
        Ok(out)
    }
}

/// A declared dependency comes before every implied one, in its own order.
pub proof fn implied_libraries_come_last(m: ManifestModel, i: int)
    requires
        0 <= i < m.effective().len(),
    ensures
        i < m.dependencies.len() ==> m.effective()[i] == m.dependencies[i],
        i >= m.dependencies.len() ==> m.effective()[i] == m.implied()[i - m.dependencies.len()].0,
{
}

proof fn lemma_implied_by_undeclared(m: ManifestModel, config: LanguageModel, n: int, i: int)
    requires
        0 <= i < m.implied_by(config, n).len(),
        n <= config.language.libraries(config.version).len(),
    ensures
        !m.declares(m.implied_by(config, n)[i].0.group, m.implied_by(config, n)[i].0.artifact),
    decreases n,
{
    if n > 0 && i < m.implied_by(config, n - 1).len() {
        lemma_implied_by_undeclared(m, config, n - 1, i);
    }
}

proof fn lemma_implied_undeclared(m: ManifestModel, n: int, i: int)
    requires
        0 <= i < m.implied_up_to(n).len(),
        n <= m.languages.len(),
    ensures
        !m.declares(m.implied_up_to(n)[i].0.group, m.implied_up_to(n)[i].0.artifact),
    decreases n,
{
    if n > 0 {
        let config = m.languages[n - 1];
        let k = config.language.libraries(config.version).len() as int;
        let before = m.implied_up_to(n - 1);
        if i < before.len() {
            lemma_implied_undeclared(m, n - 1, i);
        } else {
            lemma_implied_by_undeclared(m, config, k, i - before.len());
        }
    }
}

/// No library that the manifest declares, in either table, is implied.
pub proof fn declared_libraries_are_not_implied(m: ManifestModel, i: int)
    requires
        0 <= i < m.implied().len(),
    ensures
        !m.declares(m.implied()[i].0.group, m.implied()[i].0.artifact),
{
    lemma_implied_undeclared(m, m.languages.len() as int, i);
}

} // verus!
