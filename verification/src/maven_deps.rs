//! What a POM depends on: its dependencies, the versions it manages, its
//! annotation processors and its repositories.

use crate::coord::{ga_text, is_range, range};
use crate::dependency::{
    local_jar, open_repository, plain_dependency, CENTRAL_NAME, CENTRAL_URL, Dependency,
    DependencyModel, Exclusion, Repository, RepositoryModel,
};
use crate::element::{lemma_children, Element, ElementModel};
use crate::gradle_deps::{has_proc_flag, proc_flag};
use crate::gradle_files::{key_char, Files, FilesModel};
use crate::maven_exec::{plugin, plugin_in};
use crate::manifest::{JavaModel, Manifest, ManifestModel};
use crate::migration::{
    add_bom, add_managed, spring_boot_bom, with_bom, with_managed, SPRING_BOOT_BOM,
    SPRING_BOOT_GROUP,
};
use crate::parse_dependencies::{any_bom, has_bom, has_key, keyed, manages};
use crate::pom::{
    interpolate, interpolated, managed_named, scope_named, text_or, Effective, EffectiveModel, Pom,
    PomDependency, PomDependencyModel, PomModel, Properties, Scope,
};
use crate::report::{Report, ReportModel};
use crate::chars::is_alphanumeric;
use crate::text::{
    after_prefix, cat2, cat3, cat4, cat5, cat7, chars, contains, cut, decimal, drop_run, join,
    joined, listed, none_of, one_of, pieces, put, replace, replaced, same, sans_head, sans_tail,
    show, skip_run, split, split_once, strip_prefix, trim, trimmed, within, Class, Duplicate,
};
use vstd::prelude::*;

verus! {

// ---- versions --------------------------------------------------------------

/// The lower bound of a range.
pub open spec fn low_end(range: Seq<char>) -> Seq<char> {
    let inner = sans_tail(
        sans_head(trimmed(range), Class::Either('[', '(')),
        Class::Either(']', ')'),
    );
    let first = trimmed(
        match cut(inner, ","@) {
            Some((f, _)) => f,
            None => inner,
        },
    );
    if first.len() == 0 {
        trimmed(inner)
    } else {
        first
    }
}

/// The lower bound of a Maven range, which is the closest single version to it.
pub fn lower_bound(range: &str) -> (r: String)
    ensures
        r@ == low_end(range@),
{
    let inner = drop_run(
        skip_run(trim(range), Class::Either('[', '(')),
        Class::Either(']', ')'),
    );
    let first = trim(
        match split_once(inner, ",") {
            Some((f, _)) => f,
            None => inner,
        },
    );
    if first.is_empty() {
        trim(inner).to_owned()
    } else {
        first.to_owned()
    }
}

// ---- managed versions ------------------------------------------------------

/// The manifest and the report with the BOMs imported from the `i`th on.
pub open spec fn imports_read(
    imports: Seq<PomDependencyModel>,
    i: int,
    m: ManifestModel,
    told: ReportModel,
) -> (ManifestModel, ReportModel)
    decreases imports.len() - i,
{
    if i < 0 || i >= imports.len() {
        (m, told)
    } else {
        let d = imports[i];
        let version = text_or(d.version, ""@);
        let (m, told) = if within(version, "${"@) {
            (
                m,
                told.with_skipped(
                    "<dependencyManagement> import "@ + d.group + ":"@ + d.artifact + ":"@ + version
                        + " — the version did not interpolate"@,
                ),
            )
        } else {
            with_bom(
                m,
                told,
                d.group,
                d.artifact,
                version,
                "<dependencyManagement> <scope>import</scope>"@,
            )
        };
        imports_read(imports, i + 1, m, told)
    }
}

fn read_imports(imports: &Vec<PomDependency>, out: &mut Manifest, report: &mut Report)
    ensures
        (final(out).deep_view(), final(report).deep_view()) == imports_read(
            imports.deep_view(),
            0,
            old(out).deep_view(),
            old(report).deep_view(),
        ),
{
    let ghost all = imports.deep_view();
    let ghost start = (out.deep_view(), report.deep_view());
    let mut i: usize = 0;
    while i < imports.len()
        invariant
            all == imports.deep_view(),
            i <= imports@.len(),
            imports_read(all, 0, start.0, start.1) == imports_read(
                all,
                i as int,
                out.deep_view(),
                report.deep_view(),
            ),
        decreases imports@.len() - i,
    {
        let d = &imports[i];
        assert(all[i as int] == d.deep_view());
        let version = match &d.version {
            Some(v) => v.as_str(),
            None => "",
        };
        if contains(version, "${") {
            report.skipped(
                cat7(
                    "<dependencyManagement> import ",
                    d.group.as_str(),
                    ":",
                    d.artifact.as_str(),
                    ":",
                    version,
                    " — the version did not interpolate",
                ),
            );
        } else {
            add_bom(
                out,
                d.group.as_str(),
                d.artifact.as_str(),
                version,
                "<dependencyManagement> <scope>import</scope>",
                report,
            );
        }
        i = i + 1;
    }
}

/// Some dependency of the list has the group and the artifact.
pub open spec fn depends(list: Seq<PomDependencyModel>, group: Seq<char>, artifact: Seq<char>) -> bool {
    exists|i: int|
        0 <= i < list.len() && (#[trigger] list[i]).group == group && list[i].artifact == artifact
}

fn does_depend(list: &Vec<PomDependency>, group: &str, artifact: &str) -> (r: bool)
    ensures
        r == depends(list.deep_view(), group@, artifact@),
{
    let ghost all = list.deep_view();
    let mut i: usize = 0;
    while i < list.len()
        invariant
            all == list.deep_view(),
            i <= list@.len(),
            forall|j: int|
                0 <= j < i ==> !((#[trigger] all[j]).group == group@ && all[j].artifact
                    == artifact@),
        decreases list@.len() - i,
    {
        assert(all[i as int] == list@[i as int].deep_view());
        if same(list[i].group.as_str(), group) && same(list[i].artifact.as_str(), artifact) {
            return true;
        }
        i = i + 1;
    }
    false
}

/// The manifest, the report and how many versions were pinned, once one
/// managed version is read.
pub open spec fn with_pinned(
    m: ManifestModel,
    told: ReportModel,
    pinned: nat,
    d: PomDependencyModel,
    declared: Seq<PomDependencyModel>,
) -> (ManifestModel, ReportModel, nat) {
    match d.version {
        None => (m, told, pinned),
        Some(version) => if depends(declared, d.group, d.artifact) {
            (m, told, pinned)
        } else if within(version, "${"@) || range(version) {
            (
                m,
                told.with_skipped(
                    "<dependencyManagement> "@ + ga_text(d.group, d.artifact) + " — version `"@
                        + version + "` is not one exact version"@,
                ),
                pinned,
            )
        } else {
            (
                with_managed(m, d.group, d.artifact, version, false),
                told,
                if manages(m.managed, d.group, d.artifact) {
                    pinned
                } else {
                    pinned + 1
                },
            )
        },
    }
}

/// The manifest, the report and how many versions were pinned, once the
/// managed versions from the `i`th on are read.
pub open spec fn pins_read(
    managed: Seq<PomDependencyModel>,
    i: int,
    declared: Seq<PomDependencyModel>,
    m: ManifestModel,
    told: ReportModel,
    pinned: nat,
) -> (ManifestModel, ReportModel, nat)
    decreases managed.len() - i,
{
    if i < 0 || i >= managed.len() {
        (m, told, pinned)
    } else {
        let (m, told, pinned) = with_pinned(m, told, pinned, managed[i], declared);
        pins_read(managed, i + 1, declared, m, told, pinned)
    }
}

fn read_pins(
    managed: &Vec<PomDependency>,
    declared: &Vec<PomDependency>,
    out: &mut Manifest,
    report: &mut Report,
) -> (r: usize)
    ensures
        (final(out).deep_view(), final(report).deep_view(), r as nat) == pins_read(
            managed.deep_view(),
            0,
            declared.deep_view(),
            old(out).deep_view(),
            old(report).deep_view(),
            0,
        ),
{
    let ghost all = managed.deep_view();
    let ghost dec = declared.deep_view();
    let ghost start = (out.deep_view(), report.deep_view());
    let size: usize = managed.len();
    let mut pinned: usize = 0;
    let mut i: usize = 0;
    while i < managed.len()
        invariant
            all == managed.deep_view(),
            dec == declared.deep_view(),
            size == managed@.len(),
            i <= managed@.len(),
            pinned <= i,
            pins_read(all, 0, dec, start.0, start.1, 0) == pins_read(
                all,
                i as int,
                dec,
                out.deep_view(),
                report.deep_view(),
                pinned as nat,
            ),
        decreases managed@.len() - i,
    {
        let d = &managed[i];
        assert(all[i as int] == d.deep_view());
        if let Some(version) = &d.version {
            let v = version.as_str();
            if !does_depend(declared, d.group.as_str(), d.artifact.as_str()) {
                if contains(v, "${") || is_range(v) {
                    report.skipped(
                        cat5(
                            "<dependencyManagement> ",
                            cat3(d.group.as_str(), ":", d.artifact.as_str()).as_str(),
                            " — version `",
                            v,
                            "` is not one exact version",
                        ),
                    );
                } else if add_managed(out, d.group.as_str(), d.artifact.as_str(), v) {
                    pinned = pinned + 1;
                }
            }
        }
        i = i + 1;
    }
    pinned
}

/// The manifest and the report once what Maven versions is read.
pub open spec fn managed_read(
    e: EffectiveModel,
    boot: Option<Seq<char>>,
    m: ManifestModel,
    told: ReportModel,
) -> (ManifestModel, ReportModel) {
    let (m, told) = imports_read(e.imports, 0, m, told);
    let (m, told) = match boot {
        Some(version) => {
            let (m, told) = with_bom(
                m,
                told,
                SPRING_BOOT_GROUP@,
                SPRING_BOOT_BOM@,
                version,
                "<parent> spring-boot-starter-parent"@,
            );
            (
                m,
                told.with_review(
                    "<parent> spring-boot-starter-parent "@ + version
                        + " — its managed versions are the BOM now in [managed]; its plugin configuration and resource filtering were not applied"@,
                ),
            )
        },
        None => (m, told),
    };
    let (m, told, pinned) = pins_read(e.managed, 0, e.dependencies, m, told, 0);
    (
        m,
        if pinned > 0 {
            told.with_migrated(
                "[managed] — "@ + decimal(pinned) + " version"@ + (if pinned == 1 {
                    ""@
                } else {
                    "s"@
                })
                    + " from <dependencyManagement> that no declared dependency uses; Maven holds the rest of the graph to them"@,
            )
        } else {
            told
        },
    )
}

/// What Maven versions through `<dependencyManagement>`, into `[managed]`:
/// each `<scope>import</scope>` BOM, then the Spring Boot BOM a
/// spring-boot-starter-parent stands for (a POM's own imports win over its
/// parent's), then every plain entry no declared dependency uses, since Maven
/// holds the rest of the graph to those. A declared dependency gets its
/// managed version written out where it is read.
pub fn read_managed(
    effective: &Effective,
    boot_parent: Option<&str>,
    out: &mut Manifest,
    report: &mut Report,
)
    ensures
        (final(out).deep_view(), final(report).deep_view()) == managed_read(
            effective.deep_view(),
            boot_parent.deep_view(),
            old(out).deep_view(),
            old(report).deep_view(),
        ),
{
    read_imports(&effective.imports, out, report);
    if let Some(version) = boot_parent {
        spring_boot_bom(out, version, "<parent> spring-boot-starter-parent", report);
        report.review(
            cat3(
                "<parent> spring-boot-starter-parent ",
                version,
                " — its managed versions are the BOM now in [managed]; its plugin configuration and resource filtering were not applied",
            ),
        );
    }
    let pinned: usize = read_pins(&effective.managed, &effective.dependencies, out, report);
    if pinned > 0 {
        let s = if pinned == 1 {
            ""
        } else {
            "s"
        };
        report.migrated(
            cat5(
                "[managed] — ",
                show(pinned as u128).as_str(),
                " version",
                s,
                " from <dependencyManagement> that no declared dependency uses; Maven holds the rest of the graph to them",
            ),
        );
    }
}

// ---- system jars -----------------------------------------------------------

/// The text of a child, interpolated.
pub open spec fn filled_text(e: ElementModel, name: Seq<char>, props: Properties) -> Option<
    Seq<char>,
> {
    match e.text_of(name) {
        Some(t) => Some(interpolated(t, props)),
        None => None,
    }
}

/// The text of a child, interpolated.
pub fn read_filled(e: &Element, name: &str, props: &Vec<(String, String)>) -> (r: Option<String>)
    ensures
        r.deep_view() == filled_text(e.deep_view(), name@, props.deep_view()),
{
    match e.text_of(name) {
        Some(t) => Some(interpolate(t, props)),
        None => None,
    }
}

/// The first dependency from the `i`th on with the group and the artifact.
pub open spec fn declared_from(
    list: Seq<ElementModel>,
    group: Seq<char>,
    artifact: Seq<char>,
    props: Properties,
    i: int,
) -> Option<ElementModel>
    decreases list.len() - i,
{
    if i < 0 || i >= list.len() {
        None
    } else if filled_text(list[i], "groupId"@, props) == Some(group) && filled_text(
        list[i],
        "artifactId"@,
        props,
    ) == Some(artifact) {
        Some(list[i])
    } else {
        declared_from(list, group, artifact, props, i + 1)
    }
}

fn is_filled(e: &Element, name: &str, props: &Vec<(String, String)>, value: &str) -> (r: bool)
    ensures
        r == (filled_text(e.deep_view(), name@, props.deep_view()) == Some(value@)),
{
    match read_filled(e, name, props) {
        Some(t) => same(t.as_str(), value),
        None => false,
    }
}

fn find_declared<'a>(
    list: &Vec<&'a Element>,
    group: &str,
    artifact: &str,
    props: &Vec<(String, String)>,
) -> (r: Option<&'a Element>)
    ensures
        r.deep_view() == declared_from(
            list.deep_view(),
            group@,
            artifact@,
            props.deep_view(),
            0,
        ),
{
    let ghost all = list.deep_view();
    let ghost p = props.deep_view();
    let mut i: usize = 0;
    while i < list.len()
        invariant
            all == list.deep_view(),
            p == props.deep_view(),
            i <= list@.len(),
            declared_from(all, group@, artifact@, p, 0) == declared_from(
                all,
                group@,
                artifact@,
                p,
                i as int,
            ),
        decreases list@.len() - i,
    {
        assert(all[i as int] == list@[i as int].deep_view());
        if is_filled(list[i], "groupId", props, group) && is_filled(
            list[i],
            "artifactId",
            props,
            artifact,
        ) {
            return Some(list[i]);
        }
        i = i + 1;
    }
    None
}

/// The `<systemPath>` of a dependency, with `/` for `\`.
pub open spec fn system_path(pom: PomModel, d: PomDependencyModel, props: Properties) -> Option<
    Seq<char>,
> {
    match declared_from(
        pom.root.list("dependencies"@, "dependency"@),
        d.group,
        d.artifact,
        props,
        0,
    ) {
        Some(e) => match e.text_of("systemPath"@) {
            Some(p) => Some(replaced(trimmed(p), "\\"@, "/"@)),
            None => None,
        },
        None => None,
    }
}

fn find_system_path(pom: &Pom, d: &PomDependency, props: &Vec<(String, String)>) -> (r: Option<
    String,
>)
    ensures
        r.deep_view() == system_path(pom.deep_view(), d.deep_view(), props.deep_view()),
{
    proof {
        reveal_strlit("\\");
    }
    match find_declared(
        &pom.root.list("dependencies", "dependency"),
        d.group.as_str(),
        d.artifact.as_str(),
        props,
    ) {
        Some(e) => match e.text_of("systemPath") {
            Some(p) => Some(replace(trim(p), "\\", "/")),
            None => None,
        },
        None => None,
    }
}

/// What follows the project's directory in a path.
pub open spec fn below_basedir(raw: Seq<char>, props: Properties) -> Option<Seq<char>> {
    match after_prefix(raw, "${project.basedir}/"@) {
        Some(rest) => Some(interpolated(rest, props)),
        None => match after_prefix(raw, "${basedir}/"@) {
            Some(rest) => Some(interpolated(rest, props)),
            None => None,
        },
    }
}

fn find_below_basedir(raw: &str, props: &Vec<(String, String)>) -> (r: Option<String>)
    ensures
        r.deep_view() == below_basedir(raw@, props.deep_view()),
{
    match strip_prefix(raw, "${project.basedir}/") {
        Some(rest) => Some(interpolate(rest, props)),
        None => match strip_prefix(raw, "${basedir}/") {
            Some(rest) => Some(interpolate(rest, props)),
            None => None,
        },
    }
}

/// The text can be a local jar's name.
pub open spec fn jar_named(name: Seq<char>) -> bool {
    forall|i: int| 0 <= i < name.len() ==> key_char(#[trigger] name[i])
}

fn is_jar_named(name: &str) -> (r: bool)
    ensures
        r == jar_named(name@),
{
    let cs = chars(name);
    let mut i: usize = 0;
    while i < cs.len()
        invariant
            cs@ == name@,
            i <= cs@.len(),
            forall|j: int| 0 <= j < i ==> key_char(#[trigger] name@[j]),
        decreases cs@.len() - i,
    {
        let c: char = cs[i];
        if !(is_alphanumeric(c) || c == '-' || c == '_' || c == '.') {
            assert(!key_char(name@[i as int]));
            return false;
        }
        i = i + 1;
    }
    true
}

fn has_parent_step(path: &str) -> (r: bool)
    ensures
        r == pieces(path@, '/').contains(".."@),
{
    let parts = split(path, '/');
    let ghost all = parts.deep_view();
    let mut i: usize = 0;
    while i < parts.len()
        invariant
            all == parts.deep_view(),
            all == pieces(path@, '/'),
            i <= parts@.len(),
            forall|j: int| 0 <= j < i ==> all[j] != ".."@,
        decreases parts@.len() - i,
    {
        assert(all[i as int] == parts@[i as int]@);
        if same(parts[i], "..") {
            assert(all.contains(".."@)) by {
                assert(all[i as int] == ".."@);
            }
            return true;
        }
        i = i + 1;
    }
    false
}

/// The local jar of a system dependency, and the report.
pub open spec fn system_jar_of(
    pom: PomModel,
    d: PomDependencyModel,
    props: Properties,
    files: FilesModel,
    told: ReportModel,
) -> (Option<DependencyModel>, ReportModel) {
    let key = ga_text(d.group, d.artifact);
    match system_path(pom, d, props) {
        None => (
            None,
            told.with_skipped(
                key + " — <scope>system</scope> without a <systemPath> in this POM"@,
            ),
        ),
        Some(raw) => match below_basedir(raw, props) {
            None => (
                None,
                told.with_skipped(
                    key + " — <scope>system</scope> at `"@ + raw
                        + "`, which is not under ${project.basedir}; a local jar is a file inside the project"@,
                ),
            ),
            Some(path) => if path.len() == 0 || within(path, "${"@) || pieces(path, '/').contains(
                ".."@,
            ) || !jar_named(d.artifact) {
                (
                    None,
                    told.with_skipped(
                        key + " — <scope>system</scope> at `"@ + raw
                            + "`, which jrs cannot name as a local jar"@,
                    ),
                )
            } else {
                (
                    Some(
                        DependencyModel { compile_only: true, ..local_jar(d.artifact, path) },
                    ),
                    told.with_review(
                        key + " — <scope>system</scope> became the local jar `"@ + d.artifact
                            + "` = "@ + path
                            + ", compile-only: Maven puts a system jar on the compile and test classpaths but never packages it; drop `compile-only` if the program needs it at run time"@
                            + (if files.has_file(path) {
                            ""@
                        } else {
                            "; the file is not there yet, and a build needs it"@
                        }),
                    ),
                )
            },
        },
    }
}

/// `<scope>system</scope>` with a `<systemPath>` inside the project becomes a
/// local jar. Maven puts a system jar on the compile and test classpaths and
/// never packages it, which is what `compile-only` is.
pub fn system_jar(
    pom: &Pom,
    effective: &Effective,
    dep: &PomDependency,
    files: &Files,
    report: &mut Report,
) -> (r: Option<Dependency>)
    ensures
        (r.deep_view(), final(report).deep_view()) == system_jar_of(
            pom.deep_view(),
            dep.deep_view(),
            effective.deep_view().properties,
            files.deep_view(),
            old(report).deep_view(),
        ),
{
    let props = &effective.properties;
    let key_text = cat3(dep.group.as_str(), ":", dep.artifact.as_str());
    let key = key_text.as_str();
    let Some(raw) = find_system_path(pom, dep, props) else {
        report.skipped(
            cat2(key, " — <scope>system</scope> without a <systemPath> in this POM"),
        );
        return None;
    };
    let Some(path) = find_below_basedir(raw.as_str(), props) else {
        report.skipped(
            cat4(
                key,
                " — <scope>system</scope> at `",
                raw.as_str(),
                "`, which is not under ${project.basedir}; a local jar is a file inside the project",
            ),
        );
        return None;
    };
    let p = path.as_str();
    if p.is_empty() || contains(p, "${") || has_parent_step(p) || !is_jar_named(
        dep.artifact.as_str(),
    ) {
        report.skipped(
            cat4(
                key,
                " — <scope>system</scope> at `",
                raw.as_str(),
                "`, which jrs cannot name as a local jar",
            ),
        );
        return None;
    }
    let missing = if files.has_file(p) {
        ""
    } else {
        "; the file is not there yet, and a build needs it"
    };
    report.review(
        cat7(
            key,
            " — <scope>system</scope> became the local jar `",
            dep.artifact.as_str(),
            "` = ",
            p,
            ", compile-only: Maven puts a system jar on the compile and test classpaths but never packages it; drop `compile-only` if the program needs it at run time",
            missing,
        ),
    );
    let mut jar = Dependency::local(dep.artifact.as_str(), p);
    jar.compile_only = true;
    Some(jar)
}

// ---- dependencies ----------------------------------------------------------

/// The classifier of a dependency, by its type: the jar-shaped ones translate,
/// and a test-jar is simply the jar classified `tests`.
pub open spec fn classifier_of(d: PomDependencyModel) -> Option<Option<Seq<char>>> {
    if d.kind == "jar"@ || d.kind == "bundle"@ || d.kind == "ejb"@ {
        Some(d.classifier)
    } else if d.kind == "test-jar"@ {
        Some(Some(text_or(d.classifier, "tests"@)))
    } else {
        None
    }
}

fn find_classifier(d: &PomDependency) -> (r: Option<Option<String>>)
    ensures
        r.deep_view() == classifier_of(d.deep_view()),
{
    let kind = d.kind.as_str();
    if same(kind, "jar") || same(kind, "bundle") || same(kind, "ejb") {
        Some(d.classifier.duplicate())
    } else if same(kind, "test-jar") {
        match &d.classifier {
            Some(c) => Some(Some(c.clone())),
            None => Some(Some("tests".to_owned())),
        }
    } else {
        None
    }
}

/// The version of a dependency, and the report; `None` where it has none.
pub open spec fn version_of(
    key: Seq<char>,
    version: Option<Seq<char>>,
    bom: bool,
    told: ReportModel,
) -> (Option<Seq<char>>, ReportModel) {
    match version {
        None => if bom {
            (Some(""@), told)
        } else {
            (
                None,
                told.with_skipped(
                    key + " — no version, and none found in <dependencyManagement>"@,
                ),
            )
        },
        Some(v) => if within(v, "${"@) {
            (None, told.with_skipped(key + " — version `"@ + v + "` did not interpolate"@))
        } else if v.len() > 0 && range(v) {
            (
                Some(low_end(v)),
                told.with_review(
                    key + " — the range `"@ + v + "` was clamped to "@ + low_end(v),
                ),
            )
        } else {
            (Some(v), told)
        },
    }
}

fn read_version(key: &str, version: &Option<String>, bom: bool, report: &mut Report) -> (r: Option<
    String,
>)
    ensures
        (r.deep_view(), final(report).deep_view()) == version_of(
            key@,
            version.deep_view(),
            bom,
            old(report).deep_view(),
        ),
{
    let Some(v) = version else {
        if bom {
            return Some("".to_owned());
        }
        report.skipped(cat2(key, " — no version, and none found in <dependencyManagement>"));
        return None;
    };
    let v = v.as_str();
    if contains(v, "${") {
        report.skipped(cat4(key, " — version `", v, "` did not interpolate"));
        return None;
    }
    if !v.is_empty() && is_range(v) {
        let clamped = lower_bound(v);
        report.review(cat5(key, " — the range `", v, "` was clamped to ", clamped.as_str()));
        return Some(clamped);
    }
    Some(v.to_owned())
}

/// What is told of a dependency.
pub open spec fn notes_of(d: DependencyModel, scope: Scope) -> Seq<Seq<char>> {
    let n = seq![scope.word()];
    let n = if d.managed() {
        n.push("its version from [managed]"@)
    } else {
        n
    };
    let n = if d.compile_only {
        n.push("as compile-only"@)
    } else {
        n
    };
    let n = if d.runtime_only {
        n.push("as runtime-only"@)
    } else {
        n
    };
    if d.exclusions.len() > 0 {
        n.push(decimal(d.exclusions.len()) + " exclusions"@)
    } else {
        n
    }
}

fn list_notes(d: &Dependency, scope: Scope) -> (r: Vec<String>)
    ensures
        r.deep_view() == notes_of(d.deep_view(), scope),
{
    let mut n = one_of(scope.as_str().to_owned());
    if d.is_managed() {
        put(&mut n, "its version from [managed]".to_owned());
    }
    if d.compile_only {
        put(&mut n, "as compile-only".to_owned());
    }
    if d.runtime_only {
        put(&mut n, "as runtime-only".to_owned());
    }
    assert(d.deep_view().exclusions.len() == d.exclusions@.len());
    if d.exclusions.len() > 0 {
        put(&mut n, cat2(show(d.exclusions.len() as u128).as_str(), " exclusions"));
    }
    n
}

/// The list with a dependency, and what is told.
pub open spec fn entered(
    list: Seq<DependencyModel>,
    d: DependencyModel,
    scope: Scope,
    told: ReportModel,
) -> (Seq<DependencyModel>, ReportModel) {
    if keyed(list, d.key()) {
        (
            list,
            told.with_skipped(
                d.key() + " — declared twice in the same scope; kept the first"@,
            ),
        )
    } else {
        (
            list.push(d),
            told.with_migrated(d.key() + " ("@ + joined(notes_of(d, scope), ", "@) + ")"@),
        )
    }
}

fn enter(list: &mut Vec<Dependency>, d: Dependency, scope: Scope, report: &mut Report)
    ensures
        (final(list).deep_view(), final(report).deep_view()) == entered(
            old(list).deep_view(),
            d.deep_view(),
            scope,
            old(report).deep_view(),
        ),
{
    let key = d.key();
    if has_key(list, key.as_str()) {
        report.skipped(
            cat2(key.as_str(), " — declared twice in the same scope; kept the first"),
        );
        return ;
    }
    report.migrated(
        cat4(key.as_str(), " (", join(&list_notes(&d, scope), ", ").as_str(), ")"),
    );
    put(list, d);
}

/// The manifest and the report once a dependency of some scope is read.
pub open spec fn with_scoped(
    m: ManifestModel,
    told: ReportModel,
    d: PomDependencyModel,
    classifier: Option<Seq<char>>,
    scope: Scope,
    bom: bool,
) -> (ManifestModel, ReportModel) {
    let (version, told) = version_of(ga_text(d.group, d.artifact), d.version, bom, told);
    match version {
        None => (m, told),
        Some(version) => {
            let dep = DependencyModel {
                classifier,
                compile_only: scope == Scope::Provided,
                runtime_only: scope == Scope::Runtime,
                exclusions: d.exclusions,
                ..plain_dependency(d.group, d.artifact, version)
            };
            if scope == Scope::Test {
                let (list, told) = entered(m.dev_dependencies, dep, scope, told);
                (ManifestModel { dev_dependencies: list, ..m }, told)
            } else {
                let (list, told) = entered(m.dependencies, dep, scope, told);
                (ManifestModel { dependencies: list, ..m }, told)
            }
        },
    }
}

fn copy_exclusions(list: &Vec<(String, String)>) -> (r: Vec<Exclusion>)
    ensures
        r.deep_view() == list.deep_view(),
{
    let ghost all = list.deep_view();
    let mut out: Vec<Exclusion> = none_of();
    let mut i: usize = 0;
    while i < list.len()
        invariant
            all == list.deep_view(),
            i <= list@.len(),
            out.deep_view() =~= all.take(i as int),
        decreases list@.len() - i,
    {
        put(&mut out, Exclusion { group: list[i].0.clone(), artifact: list[i].1.clone() });
        i = i + 1;
    }
    assert(all.take(i as int) =~= all);
    out
}

fn read_scoped(
    d: &PomDependency,
    classifier: Option<String>,
    scope: Scope,
    bom: bool,
    out: &mut Manifest,
    report: &mut Report,
)
    ensures
        (final(out).deep_view(), final(report).deep_view()) == with_scoped(
            old(out).deep_view(),
            old(report).deep_view(),
            d.deep_view(),
            classifier.deep_view(),
            scope,
            bom,
        ),
{
    let key = cat3(d.group.as_str(), ":", d.artifact.as_str());
    let Some(version) = read_version(key.as_str(), &d.version, bom, report) else {
        return ;
    };
    let mut dep = Dependency::new(d.group.as_str(), d.artifact.as_str(), version.as_str());
    dep.classifier = classifier;
    dep.compile_only = scope == Scope::Provided;
    // `runtime` is what `runtime-only` is for: run and tested with, never
    // compiled against.
    dep.runtime_only = scope == Scope::Runtime;
    dep.exclusions = copy_exclusions(&d.exclusions);
    if scope == Scope::Test {
        enter(&mut out.dev_dependencies, dep, scope, report);
    } else {
        enter(&mut out.dependencies, dep, scope, report);
    }
}

/// The manifest and the report once a dependency is read.
pub open spec fn with_dependency(
    m: ManifestModel,
    told: ReportModel,
    raw: PomDependencyModel,
    e: EffectiveModel,
    pom: PomModel,
    files: FilesModel,
    bom: bool,
) -> (ManifestModel, ReportModel) {
    let d = e.managing(raw);
    let key = ga_text(d.group, d.artifact);
    let scope = scope_named(d.scope);
    if d.optional {
        (m, told.with_skipped(key + " — <optional>true</optional>"@))
    } else {
        match classifier_of(d) {
            None => (
                m,
                told.with_skipped(
                    key + " — <type>"@ + d.kind + "</type> does not go on a classpath"@,
                ),
            ),
            Some(classifier) => if scope == Scope::System {
                match system_jar_of(pom, d, e.properties, files, told) {
                    (Some(jar), told) => (
                        ManifestModel { dependencies: m.dependencies.push(jar), ..m },
                        told,
                    ),
                    (None, told) => (m, told),
                }
            } else if scope == Scope::Import {
                (
                    m,
                    told.with_skipped(
                        key + " — <scope>"@ + scope.word()
                            + "</scope> has no equivalent in jrs.toml"@,
                    ),
                )
            } else {
                with_scoped(m, told, d, classifier, scope, bom)
            },
        }
    }
}

fn read_dependency(
    raw: &PomDependency,
    effective: &Effective,
    pom: &Pom,
    files: &Files,
    bom: bool,
    out: &mut Manifest,
    report: &mut Report,
)
    ensures
        (final(out).deep_view(), final(report).deep_view()) == with_dependency(
            old(out).deep_view(),
            old(report).deep_view(),
            raw.deep_view(),
            effective.deep_view(),
            pom.deep_view(),
            files.deep_view(),
            bom,
        ),
{
    let d = effective.manage(raw);
    let key_text = cat3(d.group.as_str(), ":", d.artifact.as_str());
    let key = key_text.as_str();
    if d.optional {
        report.skipped(cat2(key, " — <optional>true</optional>"));
        return ;
    }
    let Some(classifier) = find_classifier(&d) else {
        report.skipped(
            cat4(key, " — <type>", d.kind.as_str(), "</type> does not go on a classpath"),
        );
        return ;
    };
    let scope = d.scope();
    if scope == Scope::System {
        if let Some(jar) = system_jar(pom, effective, &d, files, report) {
            put(&mut out.dependencies, jar);
        }
        return ;
    }
    if scope == Scope::Import {
        report.skipped(
            cat4(key, " — <scope>", scope.as_str(), "</scope> has no equivalent in jrs.toml"),
        );
        return ;
    }
    read_scoped(&d, classifier, scope, bom, out, report);
}

/// The manifest and the report once the dependencies from the `i`th on are
/// read.
pub open spec fn dependencies_from(
    list: Seq<PomDependencyModel>,
    i: int,
    e: EffectiveModel,
    pom: PomModel,
    files: FilesModel,
    bom: bool,
    m: ManifestModel,
    told: ReportModel,
) -> (ManifestModel, ReportModel)
    decreases list.len() - i,
{
    if i < 0 || i >= list.len() {
        (m, told)
    } else {
        let (m, told) = with_dependency(m, told, list[i], e, pom, files, bom);
        dependencies_from(list, i + 1, e, pom, files, bom, m, told)
    }
}

/// The manifest and the report once the dependencies are read.
pub open spec fn dependencies_read(
    e: EffectiveModel,
    pom: PomModel,
    files: FilesModel,
    m: ManifestModel,
    told: ReportModel,
) -> (ManifestModel, ReportModel) {
    dependencies_from(e.dependencies, 0, e, pom, files, has_bom(m.managed), m, told)
}

/// The dependencies of a POM, in the tables their scopes go to. A BOM in
/// `[managed]` versions what `<dependencyManagement>` did not; whether it
/// covers each one is known once it is read, at resolution.
pub fn read_dependencies(
    effective: &Effective,
    pom: &Pom,
    files: &Files,
    out: &mut Manifest,
    report: &mut Report,
)
    ensures
        (final(out).deep_view(), final(report).deep_view()) == dependencies_read(
            effective.deep_view(),
            pom.deep_view(),
            files.deep_view(),
            old(out).deep_view(),
            old(report).deep_view(),
        ),
{
    let bom = any_bom(&out.managed);
    let list = &effective.dependencies;
    let ghost all = list.deep_view();
    let ghost e = effective.deep_view();
    let ghost fs = files.deep_view();
    let ghost start = (out.deep_view(), report.deep_view());
    let mut i: usize = 0;
    while i < list.len()
        invariant
            all == list.deep_view(),
            e == effective.deep_view(),
            fs == files.deep_view(),
            i <= list@.len(),
            dependencies_from(all, 0, e, pom.deep_view(), fs, bom, start.0, start.1)
                == dependencies_from(
                all,
                i as int,
                e,
                pom.deep_view(),
                fs,
                bom,
                out.deep_view(),
                report.deep_view(),
            ),
        decreases list@.len() - i,
    {
        assert(all[i as int] == list@[i as int].deep_view());
        read_dependency(&list[i], effective, pom, files, bom, out, report);
        i = i + 1;
    }
}

// ---- annotation processors -------------------------------------------------

/// Some dependency of the list has the group and the artifact.
pub open spec fn holds_ga(list: Seq<DependencyModel>, group: Seq<char>, artifact: Seq<char>) -> bool {
    exists|i: int|
        0 <= i < list.len() && (#[trigger] list[i]).group == group && list[i].artifact == artifact
}

fn does_hold(list: &Vec<Dependency>, group: &str, artifact: &str) -> (r: bool)
    ensures
        r == holds_ga(list.deep_view(), group@, artifact@),
{
    let ghost all = list.deep_view();
    let mut i: usize = 0;
    while i < list.len()
        invariant
            all == list.deep_view(),
            i <= list@.len(),
            forall|j: int|
                0 <= j < i ==> !((#[trigger] all[j]).group == group@ && all[j].artifact
                    == artifact@),
        decreases list@.len() - i,
    {
        assert(all[i as int] == list@[i as int].deep_view());
        if same(list[i].group.as_str(), group) && same(list[i].artifact.as_str(), artifact) {
            return true;
        }
        i = i + 1;
    }
    false
}

/// The version of a processor: its own, or else the managed one.
pub open spec fn processor_version(
    path: ElementModel,
    group: Seq<char>,
    artifact: Seq<char>,
    e: EffectiveModel,
) -> Option<Seq<char>> {
    let version = match filled_text(path, "version"@, e.properties) {
        Some(v) => Some(v),
        None => match managed_named(e.managed, group, artifact, 0) {
            Some(m) => m.version,
            None => None,
        },
    };
    match version {
        Some(v) => if within(v, "${"@) {
            None
        } else {
            Some(v)
        },
        None => None,
    }
}

fn find_processor_version(path: &Element, group: &str, artifact: &str, effective: &Effective) -> (r:
    Option<String>)
    ensures
        r.deep_view() == processor_version(
            path.deep_view(),
            group@,
            artifact@,
            effective.deep_view(),
        ),
{
    let version = match read_filled(path, "version", &effective.properties) {
        Some(v) => Some(v),
        None => match effective.find_managed(group, artifact) {
            Some(m) => m.version.duplicate(),
            None => None,
        },
    };
    match version {
        Some(v) => if contains(v.as_str(), "${") {
            None
        } else {
            Some(v)
        },
        None => None,
    }
}

/// The manifest, the report and the processors once one is read.
pub open spec fn with_processor(
    m: ManifestModel,
    told: ReportModel,
    added: Seq<Seq<char>>,
    path: ElementModel,
    e: EffectiveModel,
) -> (ManifestModel, ReportModel, Seq<Seq<char>>) {
    match (path.text_of("groupId"@), path.text_of("artifactId"@)) {
        (Some(g), Some(a)) => {
            let group = interpolated(g, e.properties);
            let artifact = interpolated(a, e.properties);
            match processor_version(path, group, artifact, e) {
                None => (
                    m,
                    told.with_skipped(
                        "annotation processor "@ + ga_text(group, artifact)
                            + " — no version could be read"@,
                    ),
                    added,
                ),
                Some(version) => if holds_ga(m.dependencies, group, artifact) {
                    (m, told, added.push(ga_text(group, artifact)))
                } else {
                    let d = DependencyModel {
                        compile_only: true,
                        ..plain_dependency(group, artifact, version)
                    };
                    (
                        ManifestModel { dependencies: m.dependencies.push(d), ..m },
                        told,
                        added.push(d.key()),
                    )
                },
            }
        },
        _ => (m, told, added),
    }
}

fn read_processor(
    path: &Element,
    effective: &Effective,
    added: &mut Vec<String>,
    out: &mut Manifest,
    report: &mut Report,
)
    ensures
        (final(out).deep_view(), final(report).deep_view(), final(added).deep_view())
            == with_processor(
            old(out).deep_view(),
            old(report).deep_view(),
            old(added).deep_view(),
            path.deep_view(),
            effective.deep_view(),
        ),
{
    let Some(g) = path.text_of("groupId") else {
        return ;
    };
    let Some(a) = path.text_of("artifactId") else {
        return ;
    };
    let group = interpolate(g, &effective.properties);
    let artifact = interpolate(a, &effective.properties);
    let Some(version) = find_processor_version(
        path,
        group.as_str(),
        artifact.as_str(),
        effective,
    ) else {
        report.skipped(
            cat3(
                "annotation processor ",
                cat3(group.as_str(), ":", artifact.as_str()).as_str(),
                " — no version could be read",
            ),
        );
        return ;
    };
    if does_hold(&out.dependencies, group.as_str(), artifact.as_str()) {
        put(added, cat3(group.as_str(), ":", artifact.as_str()));
        return ;
    }
    let mut d = Dependency::new(group.as_str(), artifact.as_str(), version.as_str());
    d.compile_only = true;
    put(added, d.key());
    put(&mut out.dependencies, d);
}

/// The manifest, the report and the processors once those from the `i`th on
/// are read.
pub open spec fn processors_from(
    paths: Seq<ElementModel>,
    i: int,
    e: EffectiveModel,
    m: ManifestModel,
    told: ReportModel,
    added: Seq<Seq<char>>,
) -> (ManifestModel, ReportModel, Seq<Seq<char>>)
    decreases paths.len() - i,
{
    if i < 0 || i >= paths.len() {
        (m, told, added)
    } else {
        let (m, told, added) = with_processor(m, told, added, paths[i], e);
        processors_from(paths, i + 1, e, m, told, added)
    }
}

/// The processors that the compiler plugin names.
pub open spec fn processor_paths(pom: PomModel) -> Option<ElementModel> {
    match plugin_in(pom, "maven-compiler-plugin"@) {
        Some(p) => match p.configuration {
            Some(c) => c.child("annotationProcessorPaths"@),
            None => None,
        },
        None => None,
    }
}

fn find_processor_paths(pom: &Pom) -> (r: Option<&Element>)
    ensures
        r.deep_view() == processor_paths(pom.deep_view()),
{
    match plugin(pom, "maven-compiler-plugin") {
        Some(p) => match &p.configuration {
            Some(c) => c.child("annotationProcessorPaths"),
            None => None,
        },
        None => None,
    }
}

/// The manifest and the report once the annotation processors are read.
pub open spec fn processors_read(
    e: EffectiveModel,
    pom: PomModel,
    m: ManifestModel,
    told: ReportModel,
) -> (ManifestModel, ReportModel) {
    match processor_paths(pom) {
        None => (m, told),
        Some(paths) => {
            let (m, told, added) = processors_from(paths.children, 0, e, m, told, seq![]);
            if added.len() == 0 {
                (m, told)
            } else {
                let m = if (m.java.source matches Some(s) && s >= 21) && !proc_flag(
                    m.java.javac_args,
                ) {
                    ManifestModel {
                        java: JavaModel {
                            javac_args: m.java.javac_args.push("-proc:full"@),
                            ..m.java
                        },
                        ..m
                    }
                } else {
                    m
                };
                (
                    m,
                    told.with_review(
                        "annotation processors "@ + joined(added, ", "@)
                            + " — put on the compile classpath as compile-only dependencies; javac from JDK 23 on runs them only with `-proc:full` in java.javac-args"@
                            + (if m.java.javac_args.contains("-proc:full"@) {
                            ", which was added"@
                        } else {
                            ", which JDK 17 does not accept, so it was not added"@
                        }),
                    ),
                )
            }
        },
    }
}

/// `<annotationProcessorPaths>`: jrs has no processor path, but a processor on
/// the compile classpath runs all the same, so each becomes a compile-only
/// dependency. Since JDK 23 `javac` wants `-proc:full` for that.
pub fn read_annotation_processors(
    effective: &Effective,
    pom: &Pom,
    out: &mut Manifest,
    report: &mut Report,
)
    ensures
        (final(out).deep_view(), final(report).deep_view()) == processors_read(
            effective.deep_view(),
            pom.deep_view(),
            old(out).deep_view(),
            old(report).deep_view(),
        ),
{
    let Some(paths) = find_processor_paths(pom) else {
        return ;
    };
    let ghost all = paths.children.deep_view();
    let ghost e = effective.deep_view();
    let ghost start = (out.deep_view(), report.deep_view());
    proof {
        lemma_children(*paths);
    }
    let mut added: Vec<String> = none_of();
    let mut i: usize = 0;
    while i < paths.children.len()
        invariant
            all == paths.children.deep_view(),
            e == effective.deep_view(),
            i <= paths.children@.len(),
            processors_from(all, 0, e, start.0, start.1, seq![]) == processors_from(
                all,
                i as int,
                e,
                out.deep_view(),
                report.deep_view(),
                added.deep_view(),
            ),
        decreases paths.children@.len() - i,
    {
        assert(all[i as int] == paths.children@[i as int].deep_view());
        read_processor(&paths.children[i], effective, &mut added, out, report);
        i = i + 1;
    }
    if added.len() == 0 {
        return ;
    }
    let recent = match out.java.source {
        Some(s) => s >= 21,
        None => false,
    };
    if recent && !has_proc_flag(&out.java.javac_args) {
        put(&mut out.java.javac_args, "-proc:full".to_owned());
    }
    report.review(
        cat4(
            "annotation processors ",
            join(&added, ", ").as_str(),
            " — put on the compile classpath as compile-only dependencies; javac from JDK 23 on runs them only with `-proc:full` in java.javac-args",
            if listed(&out.java.javac_args, "-proc:full") {
                ", which was added"
            } else {
                ", which JDK 17 does not accept, so it was not added"
            },
        ),
    );
}

// ---- repositories ----------------------------------------------------------

/// The repositories from the `i`th on, after those before, and the report.
pub open spec fn repositories_from(
    list: Seq<(Seq<char>, Seq<char>)>,
    i: int,
    out: Seq<RepositoryModel>,
    told: ReportModel,
) -> (Seq<RepositoryModel>, ReportModel)
    decreases list.len() - i,
{
    if i < 0 || i >= list.len() {
        (out, told)
    } else {
        let (id, raw) = list[i];
        let url = sans_tail(raw, Class::One('/'));
        if url == CENTRAL_URL@ {
            repositories_from(list, i + 1, out, told)
        } else {
            repositories_from(
                list,
                i + 1,
                out.push(open_repository(id, url)),
                told.with_migrated("repository "@ + id + " = "@ + url),
            )
        }
    }
}

/// The manifest and the report once the repositories are read, Maven Central
/// last.
pub open spec fn repositories_read(
    list: Seq<(Seq<char>, Seq<char>)>,
    m: ManifestModel,
    told: ReportModel,
) -> (ManifestModel, ReportModel) {
    let (repos, told) = repositories_from(list, 0, seq![], told);
    (
        ManifestModel {
            repositories: repos.push(open_repository(CENTRAL_NAME@, CENTRAL_URL@)),
            ..m
        },
        told,
    )
}

/// The repositories of a POM, Maven Central last.
pub fn read_repositories(effective: &Effective, out: &mut Manifest, report: &mut Report)
    ensures
        (final(out).deep_view(), final(report).deep_view()) == repositories_read(
            effective.deep_view().repositories,
            old(out).deep_view(),
            old(report).deep_view(),
        ),
{
    let list = &effective.repositories;
    let ghost all = list.deep_view();
    let ghost start = report.deep_view();
    let mut repos: Vec<Repository> = none_of();
    let mut i: usize = 0;
    while i < list.len()
        invariant
            all == list.deep_view(),
            i <= list@.len(),
            repositories_from(all, 0, seq![], start) == repositories_from(
                all,
                i as int,
                repos.deep_view(),
                report.deep_view(),
            ),
        decreases list@.len() - i,
    {
        assert(all[i as int] == (list@[i as int].0@, list@[i as int].1@));
        let id = list[i].0.as_str();
        let url = drop_run(list[i].1.as_str(), Class::One('/'));
        if !same(url, CENTRAL_URL) {
            report.migrated(cat4("repository ", id, " = ", url));
            put(&mut repos, Repository::new(id, url));
        }
        i = i + 1;
    }
    put(&mut repos, Repository::new(CENTRAL_NAME, CENTRAL_URL));
    out.repositories = repos;
}

// ---- laws ------------------------------------------------------------------

/// No dependency of a POM is dropped in silence: whatever becomes of it, the
/// report says more.
pub proof fn no_dependency_is_dropped(
    m: ManifestModel,
    told: ReportModel,
    raw: PomDependencyModel,
    e: EffectiveModel,
    pom: PomModel,
    files: FilesModel,
    bom: bool,
)
    ensures
        with_dependency(m, told, raw, e, pom, files, bom).1.count() > told.count(),
{
}

} // verus!
