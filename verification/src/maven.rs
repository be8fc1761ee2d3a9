//! `pom.xml` → `jrs.toml`.
//!
//! Property interpolation, parent chains and `<dependencyManagement>` are a
//! POM's own business. Parent chains are followed on disk only: migration
//! never touches the network, so a parent that lives in a repository is
//! reported rather than silently dropped.

use crate::element::parsed;
use crate::error::{Fault, JrsError};
use crate::gradle_files::{Files, FilesModel};
use crate::manifest::{blank, blank_manifest, Manifest, ManifestModel};
use crate::maven_build::{
    boot_java_read, jar_manifest_read, java_read, languages_read, layout_read, main_read,
    proguard_read, read_boot_java_version, read_jar_manifest, read_java_settings, read_languages,
    read_layout, read_main_class, read_proguard, read_test_settings, test_read,
};
use crate::maven_deps::{
    dependencies_read, managed_read, processors_read, read_annotation_processors, read_dependencies,
    read_managed, read_repositories, repositories_read,
};
use crate::maven_exec::{exec_read, plugin, plugin_in, read_exec};
use crate::maven_manifest::{maven_words, migrated_projects_load};
use crate::maven_profiles::{applied, apply};
use crate::migration::{
    spring_boot_application, spring_boot_parameters, with_application, with_parameters, Migration,
    MigrationModel, SPRING_BOOT_GROUP, Source,
};
use crate::paths::{self, join_path, parent_of, under};
use crate::pom::{
    effective, effective_of, pom_of, text_or, EffectiveModel, ParentModel, ParentRef, PluginModel,
    Pom, PomModel,
};
use crate::report::{empty_report, Report, ReportModel};
use crate::reread_manifest::good_manifest;
use crate::text::{cat2, cat3, join, joined, none_of, outcome, put, same};
use vstd::prelude::*;

verus! {

// ---- the chain -------------------------------------------------------------

/// A POM as it was read from disk, and where its parent was looked for.
#[derive(Debug)]
pub struct PomFile {
    pub path: String,
    pub text: String,
    /// The file of its parent, and whether it is there.
    pub parent_path: String,
    pub parent_found: bool,
}

/// A POM as it was read from disk.
pub struct PomFileModel {
    pub path: Seq<char>,
    pub text: Seq<char>,
    pub parent_path: Seq<char>,
    pub parent_found: bool,
}

impl DeepView for PomFile {
    type V = PomFileModel;

    open spec fn deep_view(&self) -> PomFileModel {
        PomFileModel {
            path: self.path@,
            text: self.text@,
            parent_path: self.parent_path@,
            parent_found: self.parent_found,
        }
    }
}

/// Where a parent is unless its POM says otherwise.
pub const PARENT_PATH: &'static str = "../pom.xml";

/// How a parent's file is named, from its child's directory.
pub open spec fn relative_of(parent: ParentModel) -> Seq<char> {
    text_or(parent.relative_path, PARENT_PATH@)
}

fn find_relative(parent: &ParentRef) -> (r: &str)
    ensures
        r@ == relative_of(parent.deep_view()),
{
    match &parent.relative_path {
        Some(p) => p.as_str(),
        None => PARENT_PATH,
    }
}

/// Where the parent of the POM at `path` is.
pub open spec fn parent_file(path: Seq<char>, parent: ParentModel) -> Seq<char> {
    under(
        match paths::parent(path) {
            Some(dir) => dir,
            None => "."@,
        },
        relative_of(parent),
    )
}

/// Where the parent of the POM at `path` is to be looked for: a file, or a
/// directory that holds a `pom.xml`.
pub fn parent_candidate(path: &str, parent: &ParentRef) -> (r: String)
    ensures
        r@ == parent_file(path@, parent.deep_view()),
{
    let dir = match parent_of(path) {
        Some(dir) => dir,
        None => ".".to_owned(),
    };
    join_path(dir.as_str(), find_relative(parent))
}

/// The parent is Spring Boot's.
pub open spec fn boot_parent(parent: ParentModel) -> bool {
    parent.group == SPRING_BOOT_GROUP@ && parent.artifact == "spring-boot-starter-parent"@
}

fn is_boot_parent(parent: &ParentRef) -> (r: bool)
    ensures
        r == boot_parent(parent.deep_view()),
{
    same(parent.group.as_str(), SPRING_BOOT_GROUP) && same(
        parent.artifact.as_str(),
        "spring-boot-starter-parent",
    )
}

/// What becomes of a parent.
pub enum Next {
    /// It is followed.
    Follow,
    /// It is not.
    Stop,
    /// It is Spring Boot's, which is not on disk.
    Boot(String),
}

/// What becomes of a parent.
pub enum NextModel {
    Follow,
    Stop,
    Boot(Seq<char>),
}

impl DeepView for Next {
    type V = NextModel;

    open spec fn deep_view(&self) -> NextModel {
        match self {
            Next::Follow => NextModel::Follow,
            Next::Stop => NextModel::Stop,
            Next::Boot(v) => NextModel::Boot(v@),
        }
    }
}

/// The coordinates of a parent.
pub open spec fn parent_shown(p: ParentModel) -> Seq<char> {
    "<parent> "@ + p.group + ":"@ + p.artifact + ":"@ + p.version
}

/// What becomes of the parent of a POM that `depth` others led to, and the
/// report.
pub open spec fn next_of(
    parent: Option<ParentModel>,
    path: Seq<char>,
    found: bool,
    depth: nat,
    told: ReportModel,
) -> (NextModel, ReportModel) {
    match parent {
        None => (NextModel::Stop, told),
        Some(p) => {
            let relative = relative_of(p);
            if boot_parent(p) && (relative.len() == 0 || !found) {
                (NextModel::Boot(p.version), told)
            } else if relative.len() == 0 {
                (
                    NextModel::Stop,
                    told.with_skipped(
                        parent_shown(p)
                            + " — resolved from a repository, which migration does not do; anything it contributes is missing here"@,
                    ),
                )
            } else if !found {
                (
                    NextModel::Stop,
                    told.with_skipped(
                        parent_shown(p) + " — not found at "@ + path
                            + "; its properties, managed versions and plugins were not applied"@,
                    ),
                )
            } else {
                let told = told.with_migrated("<parent> read from "@ + path);
                if depth >= 16 {
                    (
                        NextModel::Stop,
                        told.with_skipped(
                            "<parent> chain deeper than 16; stopped following it"@,
                        ),
                    )
                } else {
                    (NextModel::Follow, told)
                }
            }
        },
    }
}

fn show_parent(p: &ParentRef) -> (r: String)
    ensures
        r@ == parent_shown(p.deep_view()),
{
    crate::text::cat6(
        "<parent> ",
        p.group.as_str(),
        ":",
        p.artifact.as_str(),
        ":",
        p.version.as_str(),
    )
}

fn find_next(
    parent: &Option<ParentRef>,
    path: &str,
    found: bool,
    depth: usize,
    report: &mut Report,
) -> (r: Next)
    ensures
        (r.deep_view(), final(report).deep_view()) == next_of(
            parent.deep_view(),
            path@,
            found,
            depth as nat,
            old(report).deep_view(),
        ),
{
    let Some(p) = parent else {
        return Next::Stop;
    };
    let relative = find_relative(p);
    if is_boot_parent(p) && (relative.is_empty() || !found) {
        return Next::Boot(p.version.clone());
    }
    if relative.is_empty() {
        report.skipped(
            cat2(
                show_parent(p).as_str(),
                " — resolved from a repository, which migration does not do; anything it contributes is missing here",
            ),
        );
        return Next::Stop;
    }
    if !found {
        report.skipped(
            crate::text::cat4(
                show_parent(p).as_str(),
                " — not found at ",
                path,
                "; its properties, managed versions and plugins were not applied",
            ),
        );
        return Next::Stop;
    }
    report.migrated(cat2("<parent> read from ", path));
    if depth >= 16 {
        report.skipped("<parent> chain deeper than 16; stopped following it".to_owned());
        return Next::Stop;
    }
    Next::Follow
}

/// What a chain of POMs is read as.
pub struct ChainModel {
    pub chain: Seq<PomModel>,
    /// The version of Spring Boot's parent, when that is the one that is not
    /// on disk.
    pub boot: Option<Seq<char>>,
    pub told: ReportModel,
    pub profiles: ReportModel,
}

/// The name of a parent's POM in the report.
pub open spec fn owner_of(pom: PomModel) -> Seq<char> {
    text_or(pom.group_id(), "?"@) + ":"@ + pom.artifact
}

/// The POM that a text is.
pub open spec fn pom_read(text: Seq<char>) -> Result<PomModel, Seq<char>> {
    match parsed(text) {
        Ok(root) => if root.name == "project"@ {
            Ok(pom_of(root))
        } else {
            Err("<"@ + root.name + "> is not a <project>"@)
        },
        Err(e) => Err(e),
    }
}

// ---- the parents on disk ---------------------------------------------------

/// Where the parent of a POM is to be looked for, when one is.
pub open spec fn sought_parent(path: Seq<char>, text: Seq<char>) -> Option<Seq<char>> {
    match pom_read(text) {
        Ok(pom) => match pom.parent {
            Some(p) if relative_of(p).len() > 0 => Some(parent_file(path, p)),
            _ => None,
        },
        Err(_) => None,
    }
}

/// Where the parent of the POM at `path` is to be looked for: a file, or a
/// directory that holds a `pom.xml`. An empty `<relativePath/>` says that the
/// parent is not on disk.
pub fn parent_sought(path: &str, text: &str) -> (r: Option<String>)
    ensures
        r.deep_view() == sought_parent(path@, text@),
{
    match Pom::parse(text) {
        Ok(pom) => match &pom.parent {
            Some(p) => if find_relative(p).is_empty() {
                None
            } else {
                Some(parent_candidate(path, p))
            },
            None => None,
        },
        Err(_) => None,
    }
}

/// The POM that a path names: the `pom.xml` of a directory, or the file itself.
pub open spec fn pom_at(path: Seq<char>, directory: bool) -> Seq<char> {
    if directory {
        under(path, "pom.xml"@)
    } else {
        path
    }
}

/// The POM that `path` names, which is a directory or is not.
pub fn pom_named(path: &str, directory: bool) -> (r: String)
    ensures
        r@ == pom_at(path@, directory),
{
    if directory {
        join_path(path, "pom.xml")
    } else {
        path.to_owned()
    }
}

/// The parent of a POM is read after it, the `depth`th that was read.
pub open spec fn followed(file: PomFileModel, depth: nat) -> bool {
    pom_read(file.text) matches Ok(pom) && next_of(
        pom.parent,
        file.parent_path,
        file.parent_found,
        depth,
        empty_report(),
    ).0 is Follow
}

/// Whether the parent of a POM is read after it, the `depth`th that was read.
pub fn follows(file: &PomFile, depth: usize) -> (r: bool)
    ensures
        r == followed(file.deep_view(), depth as nat),
{
    match Pom::parse(file.text.as_str()) {
        Ok(pom) => {
            let mut report = Report::default();
            match find_next(
                &pom.parent,
                file.parent_path.as_str(),
                file.parent_found,
                depth,
                &mut report,
            ) {
                Next::Follow => true,
                _ => false,
            }
        },
        Err(_) => false,
    }
}

/// What the files from the `i`th on are read as, after those before.
pub open spec fn chain_from(files: Seq<PomFileModel>, i: int, c: ChainModel) -> Result<
    ChainModel,
    Fault,
>
    decreases files.len() - i,
{
    if i < 0 || i >= files.len() {
        Ok(c)
    } else {
        match pom_read(files[i].text) {
            Err(e) => Err(Fault::Usage(files[i].path + ": "@ + e)),
            Ok(pom) => {
                let (merged, profiles) = applied(
                    pom,
                    if c.chain.len() > 0 {
                        Some(owner_of(pom))
                    } else {
                        None
                    },
                    c.profiles,
                );
                let chain = c.chain.push(merged);
                let (next, told) = next_of(
                    pom.parent,
                    files[i].parent_path,
                    files[i].parent_found,
                    chain.len(),
                    c.told,
                );
                match next {
                    NextModel::Follow => chain_from(
                        files,
                        i + 1,
                        ChainModel { chain, boot: None, told, profiles },
                    ),
                    NextModel::Stop => Ok(ChainModel { chain, boot: None, told, profiles }),
                    NextModel::Boot(v) => Ok(
                        ChainModel { chain, boot: Some(v), told, profiles },
                    ),
                }
            },
        }
    }
}

spec fn chain_model(
    chain: Seq<PomModel>,
    boot: Option<Seq<char>>,
    told: ReportModel,
    profiles: ReportModel,
) -> ChainModel {
    ChainModel { chain, boot, told, profiles }
}

/// The POM and its parents, each with the profiles a plain `mvn` build
/// activates merged in. Returns the chain, and the version of Spring Boot's
/// `spring-boot-starter-parent` when that is the parent that is not on disk:
/// its managed versions are Boot's BOM, which `[managed]` can import. What
/// became of every profile goes into `profiles`.
pub fn read_chain(files: &Vec<PomFile>, report: &mut Report, profiles: &mut Report) -> (r: Result<
    (Vec<Pom>, Option<String>),
    JrsError,
>)
    requires
        files@.len() > 0,
    ensures
        match chain_from(
            files.deep_view(),
            0,
            ChainModel {
                chain: seq![],
                boot: None,
                told: old(report).deep_view(),
                profiles: old(profiles).deep_view(),
            },
        ) {
            Ok(c) => {
                &&& r matches Ok((chain, boot))
                &&& r->Ok_0.0.deep_view() == c.chain
                &&& r->Ok_0.1.deep_view() == c.boot
                &&& final(report).deep_view() == c.told
                &&& final(profiles).deep_view() == c.profiles
                &&& r->Ok_0.0@.len() > 0
            },
            Err(e) => r matches Err(fault) && fault.deep_view() == e,
        },
{
    let ghost all = files.deep_view();
    let mut chain: Vec<Pom> = none_of();
    let ghost start = chain_model(seq![], None, report.deep_view(), profiles.deep_view());
    let mut i: usize = 0;
    while i < files.len()
        invariant
            all == files.deep_view(),
            files@.len() > 0,
            start == chain_model(
                seq![],
                None,
                old(report).deep_view(),
                old(profiles).deep_view(),
            ),
            i <= files@.len(),
            i > 0 ==> chain@.len() > 0,
            chain_from(all, 0, start) == chain_from(
                all,
                i as int,
                chain_model(
                    chain.deep_view(),
                    None,
                    report.deep_view(),
                    profiles.deep_view(),
                ),
            ),
        decreases files@.len() - i,
    {
        assert(all[i as int] == files@[i as int].deep_view());
        assert(chain.deep_view().len() == chain@.len());
        let pom = match Pom::parse(files[i].text.as_str()) {
            Ok(p) => p,
            Err(e) => {
                return Err(
                    JrsError::Usage(cat3(files[i].path.as_str(), ": ", e.as_str())),
                );
            },
        };
        let owner_text = cat3(
            match pom.group_id() {
                Some(g) => g,
                None => "?",
            },
            ":",
            pom.artifact.as_str(),
        );
        let owner = if chain.len() > 0 {
            Some(owner_text.as_str())
        } else {
            None
        };
        let parent = match &pom.parent {
            Some(p) => Some(
                ParentRef {
                    group: p.group.clone(),
                    artifact: p.artifact.clone(),
                    version: p.version.clone(),
                    relative_path: crate::text::Duplicate::duplicate(&p.relative_path),
                },
            ),
            None => None,
        };
        put(&mut chain, apply(pom, owner, profiles));
        let depth: usize = chain.len();
        assert(chain.deep_view().len() == chain@.len());
        match find_next(
            &parent,
            files[i].parent_path.as_str(),
            files[i].parent_found,
            depth,
            report,
        ) {
            Next::Follow => {},
            Next::Stop => {
                return Ok((chain, None));
            },
            Next::Boot(v) => {
                return Ok((chain, Some(v)));
            },
        }
        i = i + 1;
    }
    Ok((chain, None))
}

// ---- the rest --------------------------------------------------------------

/// The manifest and the report once what Spring Boot adds is read.
pub open spec fn boot_read(
    pom: PomModel,
    boot: Option<Seq<char>>,
    class: Option<Seq<char>>,
    m: ManifestModel,
    told: ReportModel,
) -> (ManifestModel, ReportModel) {
    let (m, told) = if boot is Some {
        with_parameters(m, told, "<parent> spring-boot-starter-parent"@)
    } else {
        (m, told)
    };
    if boot is Some || plugin_in(pom, "spring-boot-maven-plugin"@) is Some {
        with_application(m, told, class, "spring-boot-maven-plugin"@)
    } else {
        (m, told)
    }
}

/// `spring-boot-starter-parent` compiles with `-parameters`; it and
/// `spring-boot-maven-plugin` make the `@SpringBootApplication` class the
/// main class when nothing names one.
pub fn read_spring_boot(
    pom: &Pom,
    boot_parent: Option<&str>,
    class: Option<&str>,
    out: &mut Manifest,
    report: &mut Report,
)
    ensures
        (final(out).deep_view(), final(report).deep_view()) == boot_read(
            pom.deep_view(),
            boot_parent.deep_view(),
            class.deep_view(),
            old(out).deep_view(),
            old(report).deep_view(),
        ),
{
    if boot_parent.is_some() {
        spring_boot_parameters(out, "<parent> spring-boot-starter-parent", report);
    }
    if boot_parent.is_some() || plugin(pom, "spring-boot-maven-plugin").is_some() {
        spring_boot_application(out, class, "spring-boot-maven-plugin", report);
    }
}

/// A plugin jrs knows how to read something out of.
pub open spec fn understood(artifact: Seq<char>) -> bool {
    artifact == "maven-compiler-plugin"@ || artifact == "maven-jar-plugin"@ || artifact
        == "maven-surefire-plugin"@ || artifact == "maven-shade-plugin"@ || artifact
        == "kotlin-maven-plugin"@ || artifact == "scala-maven-plugin"@ || artifact
        == "gmavenplus-plugin"@ || artifact == "spring-boot-maven-plugin"@ || artifact
        == "exec-maven-plugin"@ || artifact == "proguard-maven-plugin"@
}

fn is_understood(artifact: &str) -> (r: bool)
    ensures
        r == understood(artifact@),
{
    same(artifact, "maven-compiler-plugin") || same(artifact, "maven-jar-plugin") || same(
        artifact,
        "maven-surefire-plugin",
    ) || same(artifact, "maven-shade-plugin") || same(artifact, "kotlin-maven-plugin") || same(
        artifact,
        "scala-maven-plugin",
    ) || same(artifact, "gmavenplus-plugin") || same(artifact, "spring-boot-maven-plugin") || same(
        artifact,
        "exec-maven-plugin",
    ) || same(artifact, "proguard-maven-plugin")
}

/// The report of the plugins from the `i`th on that jrs does not know.
pub open spec fn plugins_told(plugins: Seq<PluginModel>, i: int, told: ReportModel) -> ReportModel
    decreases plugins.len() - i,
{
    if i < 0 || i >= plugins.len() {
        told
    } else if understood(plugins[i].artifact) {
        plugins_told(plugins, i + 1, told)
    } else {
        plugins_told(
            plugins,
            i + 1,
            told.with_skipped(
                "plugin "@ + plugins[i].artifact
                    + " — jrs has no plugin system; whatever it did must be done another way"@,
            ),
        )
    }
}

/// The report of what jrs does not read of a POM.
pub open spec fn rest_told(pom: PomModel, told: ReportModel) -> ReportModel {
    plugins_told(
        pom.build.plugins,
        0,
        if pom.modules.len() > 0 {
            told.with_skipped(
                "<modules> "@ + joined(pom.modules, ", "@)
                    + " — jrs builds one module per manifest; migrate each of them separately with `jrs migrate --path <module>`"@,
            )
        } else {
            told
        },
    )
}

/// Report what jrs does not read of a POM. `exec-maven-plugin` reports what it
/// cannot translate execution by execution.
pub fn read_the_rest(pom: &Pom, report: &mut Report)
    ensures
        final(report).deep_view() == rest_told(pom.deep_view(), old(report).deep_view()),
{
    if pom.modules.len() > 0 {
        report.skipped(
            cat3(
                "<modules> ",
                join(&pom.modules, ", ").as_str(),
                " — jrs builds one module per manifest; migrate each of them separately with `jrs migrate --path <module>`",
            ),
        );
    }
    let plugins = &pom.build.plugins;
    let ghost all = plugins.deep_view();
    let ghost start = report.deep_view();
    let mut i: usize = 0;
    while i < plugins.len()
        invariant
            all == plugins.deep_view(),
            i <= plugins@.len(),
            plugins_told(all, 0, start) == plugins_told(all, i as int, report.deep_view()),
        decreases plugins@.len() - i,
    {
        assert(all[i as int] == plugins@[i as int].deep_view());
        let artifact = plugins[i].artifact.as_str();
        if !is_understood(artifact) {
            report.skipped(
                cat3(
                    "plugin ",
                    artifact,
                    " — jrs has no plugin system; whatever it did must be done another way",
                ),
            );
        }
        i = i + 1;
    }
}

// ---- the build -------------------------------------------------------------

/// A Maven build, as it was read from disk.
#[derive(Debug)]
pub struct Project {
    /// The POM, and the parents beside it on disk, nearest first.
    pub poms: Vec<PomFile>,
    pub root: String,
    /// What is in the project's directory.
    pub files: Files,
    /// The `@SpringBootApplication` class, where there is one.
    pub application: Option<String>,
}

/// A Maven build, as it was read from disk.
pub struct ProjectModel {
    pub poms: Seq<PomFileModel>,
    pub root: Seq<char>,
    pub files: FilesModel,
    pub application: Option<Seq<char>>,
}

impl DeepView for Project {
    type V = ProjectModel;

    open spec fn deep_view(&self) -> ProjectModel {
        ProjectModel {
            poms: self.poms.deep_view(),
            root: self.root@,
            files: self.files.deep_view(),
            application: self.application.deep_view(),
        }
    }
}

/// The manifest and the report of a POM with its parents.
pub open spec fn pom_migrated(
    p: ProjectModel,
    chain: Seq<PomModel>,
    boot: Option<Seq<char>>,
    e: EffectiveModel,
    told: ReportModel,
) -> (ManifestModel, ReportModel) {
    let pom = chain[0];
    let m = blank_manifest(e.artifact, e.version, p.root);
    let told = told.with_migrated("project.name = "@ + e.artifact).with_migrated(
        "project.version = "@ + e.version,
    );
    let (m, told) = java_read(pom, e.properties, m, told);
    let (m, told) = if boot is Some {
        boot_java_read(e.properties, m, told)
    } else {
        (m, told)
    };
    let (m, told) = main_read(pom, e.properties, m, told);
    let (m, told) = jar_manifest_read(pom, m, told);
    let (m, told) = proguard_read(pom, m, told);
    let (m, told) = managed_read(e, boot, m, told);
    let (m, told) = dependencies_read(e, pom, p.files, m, told);
    let (m, told) = languages_read(chain, pom, e.properties, m, told);
    let (m, told) = layout_read(pom, m, told);
    let (m, told) = processors_read(e, pom, m, told);
    let (m, told) = test_read(pom, e.properties, m, told);
    let (m, told) = repositories_read(e.repositories, m, told);
    let (m, told) = exec_read(pom, e.properties, m, told);
    let (m, told) = boot_read(pom, boot, p.application, m, told);
    (m, rest_told(pom, told))
}

/// What a Maven build becomes.
pub open spec fn migrated(p: ProjectModel) -> Result<MigrationModel, Fault> {
    match chain_from(
        p.poms,
        0,
        ChainModel {
            chain: seq![],
            boot: None,
            told: empty_report(),
            profiles: empty_report(),
        },
    ) {
        Err(e) => Err(e),
        Ok(c) => match effective_of(c.chain) {
            Err(e) => Err(e),
            Ok(e) => {
                let (m, told) = pom_migrated(p, c.chain, c.boot, e, c.told);
                Ok(
                    MigrationModel {
                        source: Source::Maven,
                        source_file: p.poms[0].path,
                        manifest: m,
                        report: told.with_report(c.profiles),
                    },
                )
            },
        },
    }
}

fn text_of(s: &Option<String>) -> (r: Option<&str>)
    ensures
        r.deep_view() == s.deep_view(),
{
    match s {
        Some(s) => Some(s.as_str()),
        None => None,
    }
}

/// Translate a POM and the parents beside it on disk.
pub fn migrate(project: &Project) -> (r: Result<Migration, JrsError>)
    requires
        project.poms@.len() > 0,
    ensures
        outcome(r) == migrated(project.deep_view()),
        outcome(r) matches Ok(x) ==> (maven_words(x.manifest) ==> good_manifest(x.manifest)),
{
    proof {
        migrated_projects_load(project.deep_view());
    }
    let mut report = Report::default();
    // Reported last, after what the profiles merged in has been read.
    let mut profiles = Report::default();
    let (chain, boot) = match read_chain(&project.poms, &mut report, &mut profiles) {
        Ok(x) => x,
        Err(e) => {
            return Err(e);
        },
    };
    let effective = match effective(&chain) {
        Ok(e) => e,
        Err(e) => {
            return Err(e);
        },
    };
    assert(chain.deep_view()[0] == chain@[0].deep_view());
    assert(project.deep_view().poms[0] == project.poms@[0].deep_view());
    let pom = &chain[0];
    let boot_parent = text_of(&boot);
    let mut out = blank(
        effective.artifact.as_str(),
        effective.version.as_str(),
        project.root.as_str(),
    );
    report.migrated(cat2("project.name = ", effective.artifact.as_str()));
    report.migrated(cat2("project.version = ", effective.version.as_str()));
    read_java_settings(&effective, pom, &mut out, &mut report);
    if boot_parent.is_some() {
        read_boot_java_version(&effective, &mut out, &mut report);
    }
    read_main_class(pom, &effective, &mut out, &mut report);
    read_jar_manifest(pom, &mut out, &mut report);
    read_proguard(pom, &mut out, &mut report);
    // Before the dependencies: a BOM there versions the ones that name none.
    read_managed(&effective, boot_parent, &mut out, &mut report);
    read_dependencies(&effective, pom, &project.files, &mut out, &mut report);
    // The layout depends on which languages are on, and Scala's and Groovy's
    // versions on the dependencies.
    read_languages(&chain, pom, &effective, &mut out, &mut report);
    read_layout(pom, &mut out, &mut report);
    read_annotation_processors(&effective, pom, &mut out, &mut report);
    read_test_settings(&effective, pom, &mut out, &mut report);
    read_repositories(&effective, &mut out, &mut report);
    read_exec(pom, &effective, &mut out, &mut report);
    read_spring_boot(
        pom,
        boot_parent,
        text_of(&project.application),
        &mut out,
        &mut report,
    );
    read_the_rest(pom, &mut report);
    report.append(profiles);
    Ok(
        Migration {
            source: Source::Maven,
            source_file: project.poms[0].path.clone(),
            manifest: out,
            report,
        },
    )
}

/// No file behind one whose parent is not followed is read.
pub proof fn no_more_is_read_than_followed(files: Seq<PomFileModel>, i: int, c: ChainModel)
    requires
        0 <= i < files.len(),
        !followed(files[i], c.chain.len() + 1),
    ensures
        chain_from(files, i, c) == chain_from(files.take(i + 1), i, c),
{
    assert(files.take(i + 1)[i] == files[i]);
}

/// A parent that is not read is not dropped in silence: the report says one
/// thing more that was not migrated, or it is Spring Boot's, whose version is
/// kept.
pub proof fn missing_parents_are_told(
    parent: ParentModel,
    path: Seq<char>,
    depth: nat,
    told: ReportModel,
)
    ensures
        ({
            let (next, said) = next_of(Some(parent), path, false, depth, told);
            if boot_parent(parent) {
                next == NextModel::Boot(parent.version)
            } else {
                next is Stop && said.not_migrated.len() == told.not_migrated.len() + 1
            }
        }),
{
}

} // verus!
