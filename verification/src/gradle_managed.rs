//! What versions the dependencies that a Gradle build leaves unversioned.

use crate::dependency::{plain_dependency, Dependency, DependencyModel};
use crate::gradle_catalog::{library_named, Catalog};
use crate::gradle_plugins::{find_plugin, plugin_named, Plugin, PluginModel};
use crate::gradle_repos::{split_statements, statements_from};
use crate::gradle_text::{
    alias_in, block_lines, catalog_reference, count, deeper, depth_after, first_of, first_quoted,
    first_word, gav_of, leading_word, parse_gav, tally, top_lines,
};
use crate::manifest::{Manifest, ManifestModel};
use crate::migration::{
    add_bom, add_managed, spring_boot_application, spring_boot_bom, spring_boot_parameters,
    with_application, with_bom, with_managed, with_parameters, SPRING_BOOT_BOM, SPRING_BOOT_GROUP,
};
use crate::parse_dependencies::manages;
use crate::report::{Report, ReportModel};
use crate::text::{
    after_prefix, cat2, cat3, cat5, contains, cut, decimal, left, parts_of, same, show, split_by,
    split_once, starts, starts_with, strip_prefix, trim, trim_start, trimmed, within, Class,
    Duplicate,
};
use vstd::prelude::*;

verus! {

// ---- configurations --------------------------------------------------------

/// A configuration that lands on the main classpath.
pub open spec fn main_config(word: Seq<char>) -> bool {
    word == "implementation"@ || word == "api"@ || word == "compile"@
}

/// Compiled against but not shipped: `compile-only`.
pub open spec fn compile_only_config(word: Seq<char>) -> bool {
    word == "compileOnly"@ || word == "compileOnlyApi"@ || word == "providedCompile"@
}

/// Shipped and run with, but not compiled against: `runtime-only`. The old
/// `runtime` configuration, gone since Gradle 7, meant the same.
pub open spec fn runtime_only_config(word: Seq<char>) -> bool {
    word == "runtimeOnly"@ || word == "runtime"@
}

/// Annotation processors. jrs has no processor path, but `javac` runs a
/// processor it finds on the compile classpath, so these become compile-only
/// dependencies.
pub open spec fn processor_config(word: Seq<char>) -> bool {
    word == "annotationProcessor"@
}

/// A configuration that lands on the test classpath.
pub open spec fn test_config(word: Seq<char>) -> bool {
    word == "testImplementation"@ || word == "testApi"@ || word == "testCompileOnly"@ || word
        == "testRuntimeOnly"@ || word == "testCompile"@ || word == "testRuntime"@
}

/// A configuration that jrs knows about but has nowhere to put.
pub open spec fn reported_config(word: Seq<char>) -> bool {
    word == "testAnnotationProcessor"@ || word == "kapt"@ || word == "developmentOnly"@ || word
        == "providedRuntime"@
}

/// Where a dependency goes.
#[derive(Debug, Clone, Copy, PartialEq, Eq, Structural)]
pub enum Target {
    Main,
    CompileOnly,
    RuntimeOnly,
    Processor,
    Test,
}

/// Where the dependencies of a configuration go.
pub open spec fn target_of(word: Seq<char>) -> Option<Target> {
    if main_config(word) {
        Some(Target::Main)
    } else if compile_only_config(word) {
        Some(Target::CompileOnly)
    } else if runtime_only_config(word) {
        Some(Target::RuntimeOnly)
    } else if processor_config(word) {
        Some(Target::Processor)
    } else if test_config(word) {
        Some(Target::Test)
    } else {
        None
    }
}

/// Where the dependencies of a configuration go.
pub fn find_target(word: &str) -> (r: Option<Target>)
    ensures
        r == target_of(word@),
{
    if same(word, "implementation") || same(word, "api") || same(word, "compile") {
        Some(Target::Main)
    } else if same(word, "compileOnly") || same(word, "compileOnlyApi") || same(
        word,
        "providedCompile",
    ) {
        Some(Target::CompileOnly)
    } else if same(word, "runtimeOnly") || same(word, "runtime") {
        Some(Target::RuntimeOnly)
    } else if same(word, "annotationProcessor") {
        Some(Target::Processor)
    } else if same(word, "testImplementation") || same(word, "testApi") || same(
        word,
        "testCompileOnly",
    ) || same(word, "testRuntimeOnly") || same(word, "testCompile") || same(word, "testRuntime") {
        Some(Target::Test)
    } else {
        None
    }
}

/// Whether jrs knows the configuration but has nowhere to put its
/// dependencies.
pub fn is_reported(word: &str) -> (r: bool)
    ensures
        r == reported_config(word@),
{
    same(word, "testAnnotationProcessor") || same(word, "kapt") || same(word, "developmentOnly")
        || same(word, "providedRuntime")
}

/// What follows `platform(` or `enforcedPlatform(` in a declaration.
pub open spec fn platform_in(text: Seq<char>) -> Option<Seq<char>> {
    match cut(text, "enforcedPlatform("@) {
        Some((_, rest)) => Some(rest),
        None => match cut(text, "platform("@) {
            Some((_, rest)) => Some(rest),
            None => None,
        },
    }
}

/// What follows `platform(` or `enforcedPlatform(` in a declaration: the
/// BOM it names, and whatever comes after.
pub fn platform_argument(text: &str) -> (r: Option<&str>)
    ensures
        r.deep_view() == platform_in(text@),
{
    match split_once(text, "enforcedPlatform(") {
        Some((_, rest)) => Some(rest),
        None => match split_once(text, "platform(") {
            Some((_, rest)) => Some(rest),
            None => None,
        },
    }
}

// ---- constraints -----------------------------------------------------------

/// A manifest being read, what is told of it, and how many versions were
/// pinned.
pub struct PinsModel {
    pub m: ManifestModel,
    pub told: ReportModel,
    pub pinned: nat,
}

/// With one more version pinned, unless it was.
pub open spec fn with_pin(p: PinsModel, d: DependencyModel) -> PinsModel {
    PinsModel {
        m: with_managed(p.m, d.group, d.artifact, d.version, false),
        pinned: if manages(p.m.managed, d.group, d.artifact) {
            p.pinned
        } else {
            p.pinned + 1
        },
        ..p
    }
}

/// The coordinate that a statement's first literal is.
pub open spec fn stated_gav(statement: Seq<char>) -> Option<DependencyModel> {
    match first_of(statement) {
        Some(s) => gav_of(s),
        None => None,
    }
}

fn read_gav(statement: &str) -> (r: Option<Dependency>)
    ensures
        r.deep_view() == stated_gav(statement@),
{
    match first_quoted(statement) {
        Some(s) => parse_gav(s.as_str()),
        None => None,
    }
}

/// Once one statement in `constraints { }` is read.
pub open spec fn with_constraint(p: PinsModel, statement: Seq<char>, plain: bool) -> PinsModel {
    match first_word(statement) {
        Some(word) if target_of(word) is Some => match stated_gav(statement) {
            Some(d) if plain => with_pin(p, d),
            _ => PinsModel {
                told: p.told.with_skipped(
                    "`"@ + statement
                        + "` — a constraint jrs cannot read: only a literal group:artifact:version is; pin it in [managed] by hand"@,
                ),
                ..p
            },
        },
        _ => p,
    }
}

fn pin(d: &Dependency, out: &mut Manifest, pinned: &mut usize)
    requires
        *old(pinned) <= old(out).managed@.len(),
    ensures
        final(out).deep_view() == with_managed(
            old(out).deep_view(),
            d.group@,
            d.artifact@,
            d.version@,
            false,
        ),
        *final(pinned) == *old(pinned) + (if manages(
            old(out).deep_view().managed,
            d.group@,
            d.artifact@,
        ) {
            0int
        } else {
            1
        }),
        *final(pinned) <= final(out).managed@.len(),
{
    if add_managed(out, d.group.as_str(), d.artifact.as_str(), d.version.as_str()) {
        assert(out.deep_view().managed.len() == out.managed@.len());
        assert(old(out).deep_view().managed.len() == old(out).managed@.len());
        let _size: usize = out.managed.len();
        *pinned = *pinned + 1;
    } else {
        assert(out.deep_view().managed.len() == out.managed@.len());
        assert(old(out).deep_view().managed.len() == old(out).managed@.len());
    }
}

/// One statement in `constraints { }`. A constraint versions the artifact
/// wherever it turns up, which is what a `[managed]` version does; only a
/// literal `g:a:v` with no closure (`plain`) is one jrs can read.
fn constraint(
    statement: &str,
    plain: bool,
    out: &mut Manifest,
    report: &mut Report,
    pinned: &mut usize,
)
    requires
        *old(pinned) <= old(out).managed@.len(),
    ensures
        (PinsModel {
            m: final(out).deep_view(),
            told: final(report).deep_view(),
            pinned: *final(pinned) as nat,
        }) == with_constraint(
            PinsModel {
                m: old(out).deep_view(),
                told: old(report).deep_view(),
                pinned: *old(pinned) as nat,
            },
            statement@,
            plain,
        ),
        *final(pinned) <= final(out).managed@.len(),
{
    let Some(word) = leading_word(statement) else {
        return ;
    };
    if find_target(word).is_none() {
        return ;
    }
    if plain {
        if let Some(d) = read_gav(statement) {
            pin(&d, out, pinned);
            return ;
        }
    }
    report.skipped(
        cat3(
            "`",
            statement,
            "` — a constraint jrs cannot read: only a literal group:artifact:version is; pin it in [managed] by hand",
        ),
    );
}

/// Once the statements from the `i`th on of one-line `constraints { }` are
/// read.
pub open spec fn constraints_from(statements: Seq<Seq<char>>, i: int, p: PinsModel) -> PinsModel
    decreases statements.len() - i,
{
    if i < 0 || i >= statements.len() {
        p
    } else {
        constraints_from(statements, i + 1, with_constraint(p, trimmed(statements[i]), true))
    }
}

fn read_constraints(
    text: &str,
    out: &mut Manifest,
    report: &mut Report,
    pinned: &mut usize,
)
    requires
        *old(pinned) <= old(out).managed@.len(),
    ensures
        (PinsModel {
            m: final(out).deep_view(),
            told: final(report).deep_view(),
            pinned: *final(pinned) as nat,
        }) == constraints_from(
            parts_of(text@, Class::Neither('}', ';')),
            0,
            PinsModel {
                m: old(out).deep_view(),
                told: old(report).deep_view(),
                pinned: *old(pinned) as nat,
            },
        ),
        *final(pinned) <= final(out).managed@.len(),
{
    let list = split_by(text, Class::Neither('}', ';'));
    let ghost all = list.deep_view();
    let ghost start = PinsModel {
        m: out.deep_view(),
        told: report.deep_view(),
        pinned: *pinned as nat,
    };
    let mut i: usize = 0;
    while i < list.len()
        invariant
            all == list.deep_view(),
            i <= list@.len(),
            *pinned <= out.managed@.len(),
            constraints_from(all, 0, start) == constraints_from(
                all,
                i as int,
                PinsModel {
                    m: out.deep_view(),
                    told: report.deep_view(),
                    pinned: *pinned as nat,
                },
            ),
        decreases list@.len() - i,
    {
        assert(all[i as int] == list@[i as int]@);
        constraint(trim(list[i]), true, out, report, pinned);
        i = i + 1;
    }
}

// ---- dependencyManagement { } ----------------------------------------------

/// Once one statement in `dependencyManagement { }` is read.
pub open spec fn with_management(p: PinsModel, statement: Seq<char>) -> PinsModel {
    match first_word(statement) {
        None => p,
        Some(word) => if word == "mavenBom"@ || word == "dependency"@ {
            match stated_gav(statement) {
                Some(d) => if word == "mavenBom"@ {
                    let (m, told) = with_bom(
                        p.m,
                        p.told,
                        d.group,
                        d.artifact,
                        d.version,
                        "`"@ + statement + "`"@,
                    );
                    PinsModel { m, told, ..p }
                } else {
                    with_pin(p, d)
                },
                None => PinsModel {
                    told: p.told.with_skipped(
                        "`"@ + statement
                            + "` — not a literal group:artifact:version, which jrs can read without running Gradle; add it to [managed] by hand"@,
                    ),
                    ..p
                },
            }
        } else if word == "dependencySet"@ {
            PinsModel {
                told: p.told.with_skipped(
                    "`"@ + statement
                        + "` — dependency sets are not read; pin each version in [managed]"@,
                ),
                ..p
            }
        } else {
            p
        },
    }
}

/// Once the statements from the `i`th on are read.
pub open spec fn management_from(statements: Seq<Seq<char>>, i: int, p: PinsModel) -> PinsModel
    decreases statements.len() - i,
{
    if i < 0 || i >= statements.len() {
        p
    } else {
        management_from(statements, i + 1, with_management(p, trimmed(statements[i])))
    }
}

/// The statements of `dependencyManagement { }`: `imports { mavenBom '...' }`
/// is as often written on one line as on three, so each statement between
/// braces is read on its own.
pub open spec fn management_statements(script: Seq<char>) -> Seq<Seq<char>> {
    statements_from(top_lines("dependencyManagement"@, script), 0, seq![])
}

fn read_management(
    statement: &str,
    out: &mut Manifest,
    report: &mut Report,
    pinned: &mut usize,
)
    requires
        *old(pinned) <= old(out).managed@.len(),
    ensures
        (PinsModel {
            m: final(out).deep_view(),
            told: final(report).deep_view(),
            pinned: *final(pinned) as nat,
        }) == with_management(
            PinsModel {
                m: old(out).deep_view(),
                told: old(report).deep_view(),
                pinned: *old(pinned) as nat,
            },
            statement@,
        ),
        *final(pinned) <= final(out).managed@.len(),
{
    let Some(word) = leading_word(statement) else {
        return ;
    };
    if same(word, "mavenBom") || same(word, "dependency") {
        match read_gav(statement) {
            Some(d) => {
                if same(word, "mavenBom") {
                    add_bom(
                        out,
                        d.group.as_str(),
                        d.artifact.as_str(),
                        d.version.as_str(),
                        cat3("`", statement, "`").as_str(),
                        report,
                    );
                    assert(out.deep_view().managed.len() == out.managed@.len());
                    assert(old(out).deep_view().managed.len() == old(out).managed@.len());
                } else {
                    pin(&d, out, pinned);
                }
            },
            None => {
                report.skipped(
                    cat3(
                        "`",
                        statement,
                        "` — not a literal group:artifact:version, which jrs can read without running Gradle; add it to [managed] by hand",
                    ),
                );
            },
        }
    } else if same(word, "dependencySet") {
        report.skipped(
            cat3(
                "`",
                statement,
                "` — dependency sets are not read; pin each version in [managed]",
            ),
        );
    }
}

/// The dependency-management plugin's `dependencyManagement { }` block: its
/// `mavenBom` imports and `dependency` pins. Returns how many versions it
/// pinned.
pub fn read_dependency_management(script: &str, out: &mut Manifest, report: &mut Report) -> (r: usize)
    ensures
        (PinsModel {
            m: final(out).deep_view(),
            told: final(report).deep_view(),
            pinned: r as nat,
        }) == management_from(
            management_statements(script@),
            0,
            PinsModel { m: old(out).deep_view(), told: old(report).deep_view(), pinned: 0 },
        ),
        r <= final(out).managed@.len(),
{
    let list = split_statements(&block_lines(script, "dependencyManagement"));
    let ghost all = list.deep_view();
    let ghost start = PinsModel { m: out.deep_view(), told: report.deep_view(), pinned: 0 };
    let mut pinned: usize = 0;
    let mut i: usize = 0;
    while i < list.len()
        invariant
            all == list.deep_view(),
            i <= list@.len(),
            pinned <= out.managed@.len(),
            management_from(all, 0, start) == management_from(
                all,
                i as int,
                PinsModel { m: out.deep_view(), told: report.deep_view(), pinned: pinned as nat },
            ),
        decreases list@.len() - i,
    {
        assert(all[i as int] == list@[i as int]@);
        read_management(trim(list[i]), out, report, &mut pinned);
        i = i + 1;
    }
    pinned
}

// ---- platforms -------------------------------------------------------------

/// The BOM that a platform's argument names.
pub open spec fn platform_bom(
    argument: Seq<char>,
    boot: Option<Seq<char>>,
    catalog: Seq<(Seq<char>, DependencyModel)>,
) -> Option<DependencyModel> {
    if starts(left(argument), "SpringBootPlugin.BOM_COORDINATES"@) {
        match boot {
            Some(v) => Some(plain_dependency(SPRING_BOOT_GROUP@, SPRING_BOOT_BOM@, v)),
            None => None,
        }
    } else {
        match alias_in(argument) {
            Some(reference) => match library_named(catalog, reference) {
                Some(d) if !d.managed() => Some(d),
                _ => None,
            },
            None => stated_gav(argument),
        }
    }
}

fn find_platform_bom(argument: &str, boot: &Option<String>, catalog: &Catalog) -> (r: Option<Dependency>)
    ensures
        r.deep_view() == platform_bom(argument@, boot.deep_view(), catalog.deep_view()),
{
    if starts_with(trim_start(argument), "SpringBootPlugin.BOM_COORDINATES") {
        return match boot {
            Some(v) => Some(Dependency::new(SPRING_BOOT_GROUP, SPRING_BOOT_BOM, v.as_str())),
            None => None,
        };
    }
    match catalog_reference(argument) {
        Some(reference) => match catalog.get(reference) {
            Some(d) => if d.is_managed() {
                None
            } else {
                Some(d.duplicate())
            },
            None => None,
        },
        None => read_gav(argument),
    }
}

/// Once a line that may name a platform is read.
pub open spec fn with_platform(
    p: PinsModel,
    line: Seq<char>,
    boot: Option<Seq<char>>,
    catalog: Seq<(Seq<char>, DependencyModel)>,
) -> PinsModel {
    match platform_in(line) {
        None => p,
        Some(argument) => match platform_bom(argument, boot, catalog) {
            None => PinsModel {
                told: p.told.with_skipped(
                    "`"@ + line
                        + "` — the platform is not a group:artifact:version jrs can read; add it to [managed] as a BOM by hand"@,
                ),
                ..p
            },
            Some(d) => {
                let (m, told) = with_bom(
                    p.m,
                    p.told,
                    d.group,
                    d.artifact,
                    d.version,
                    "`"@ + line + "`"@,
                );
                PinsModel {
                    m,
                    told: if within(line, "enforcedPlatform("@) {
                        told.with_review(
                            "`"@ + line
                                + "` — [managed] holds the whole graph to the BOM's versions, as enforcedPlatform does, but a version written in [dependencies] still wins"@,
                        )
                    } else {
                        told
                    },
                    ..p
                }
            },
        },
    }
}

fn read_platform(
    line: &str,
    boot: &Option<String>,
    catalog: &Catalog,
    out: &mut Manifest,
    report: &mut Report,
)
    ensures
        forall|pinned: nat|
            (PinsModel { m: final(out).deep_view(), told: final(report).deep_view(), pinned })
                == #[trigger] with_platform(
                PinsModel { m: old(out).deep_view(), told: old(report).deep_view(), pinned },
                line@,
                boot.deep_view(),
                catalog.deep_view(),
            ),
        final(out).managed@.len() >= old(out).managed@.len(),
{
    let Some(argument) = platform_argument(line) else {
        return ;
    };
    let Some(d) = find_platform_bom(argument, boot, catalog) else {
        report.skipped(
            cat3(
                "`",
                line,
                "` — the platform is not a group:artifact:version jrs can read; add it to [managed] as a BOM by hand",
            ),
        );
        return ;
    };
    add_bom(
        out,
        d.group.as_str(),
        d.artifact.as_str(),
        d.version.as_str(),
        cat3("`", line, "`").as_str(),
        report,
    );
    assert(out.deep_view().managed.len() == out.managed@.len());
    assert(old(out).deep_view().managed.len() == old(out).managed@.len());
    if contains(line, "enforcedPlatform(") {
        report.review(
            cat3(
                "`",
                line,
                "` — [managed] holds the whole graph to the BOM's versions, as enforcedPlatform does, but a version written in [dependencies] still wins",
            ),
        );
    }
}

/// What stands in `constraints { ... }` on a line that opens one.
pub open spec fn constraints_rest(line: Seq<char>) -> Option<Seq<char>> {
    match after_prefix(line, "constraints"@) {
        Some(rest) => after_prefix(left(rest), "{"@),
        None => None,
    }
}

/// Once the lines of `dependencies { }` from the `i`th on are read, `depth`
/// deep in `constraints { }`.
pub open spec fn managed_lines_from(
    lines: Seq<Seq<char>>,
    i: int,
    depth: int,
    boot: Option<Seq<char>>,
    catalog: Seq<(Seq<char>, DependencyModel)>,
    p: PinsModel,
) -> PinsModel
    decreases lines.len() - i,
{
    if i < 0 || i >= lines.len() {
        p
    } else {
        let line = trimmed(lines[i]);
        if depth > 0 {
            managed_lines_from(
                lines,
                i + 1,
                deeper(depth, line),
                boot,
                catalog,
                with_constraint(p, line, tally(line, '{') == 0),
            )
        } else {
            match constraints_rest(line) {
                Some(rest) => managed_lines_from(
                    lines,
                    i + 1,
                    deeper(0, line),
                    boot,
                    catalog,
                    constraints_from(parts_of(rest, Class::Neither('}', ';')), 0, p),
                ),
                None => managed_lines_from(
                    lines,
                    i + 1,
                    0,
                    boot,
                    catalog,
                    with_platform(p, line, boot, catalog),
                ),
            }
        }
    }
}

fn read_managed_lines(
    script: &str,
    boot: &Option<String>,
    catalog: &Catalog,
    out: &mut Manifest,
    report: &mut Report,
    pinned: &mut usize,
)
    requires
        *old(pinned) <= old(out).managed@.len(),
    ensures
        (PinsModel {
            m: final(out).deep_view(),
            told: final(report).deep_view(),
            pinned: *final(pinned) as nat,
        }) == managed_lines_from(
            top_lines("dependencies"@, script@),
            0,
            0,
            boot.deep_view(),
            catalog.deep_view(),
            PinsModel {
                m: old(out).deep_view(),
                told: old(report).deep_view(),
                pinned: *old(pinned) as nat,
            },
        ),
{
    let list = block_lines(script, "dependencies");
    let ghost all = list.deep_view();
    let ghost b = boot.deep_view();
    let ghost c = catalog.deep_view();
    let ghost start = PinsModel {
        m: out.deep_view(),
        told: report.deep_view(),
        pinned: *pinned as nat,
    };
    let mut depth: u128 = 0;
    let mut i: usize = 0;
    while i < list.len()
        invariant
            all == list.deep_view(),
            b == boot.deep_view(),
            c == catalog.deep_view(),
            i <= list@.len(),
            depth <= i * 0xffff_ffff_ffff_ffff,
            *pinned <= out.managed@.len(),
            managed_lines_from(all, 0, 0, b, c, start) == managed_lines_from(
                all,
                i as int,
                depth as int,
                b,
                c,
                PinsModel {
                    m: out.deep_view(),
                    told: report.deep_view(),
                    pinned: *pinned as nat,
                },
            ),
        decreases list@.len() - i,
    {
        assert(all[i as int] == list@[i as int]@);
        let line = trim(list[i]);
        if depth > 0 {
            constraint(line, count(line, '{') == 0, out, report, pinned);
            depth = depth_after(depth, line);
        } else {
            let rest = match strip_prefix(line, "constraints") {
                Some(r) => strip_prefix(trim_start(r), "{"),
                None => None,
            };
            match rest {
                Some(rest) => {
                    // `constraints { implementation 'g:a:v' }` on one line.
                    read_constraints(rest, out, report, pinned);
                    depth = depth_after(0, line);
                },
                None => {
                    let ghost before = PinsModel {
                        m: out.deep_view(),
                        told: report.deep_view(),
                        pinned: *pinned as nat,
                    };
                    read_platform(line, boot, catalog, out, report);
                    assert((PinsModel {
                        m: out.deep_view(),
                        told: report.deep_view(),
                        pinned: *pinned as nat,
                    }) == with_platform(before, line@, b, c));
                },
            }
        }
        i = i + 1;
    }
}

// ---- Spring Boot -----------------------------------------------------------

/// The manifest and the report once Spring Boot's plugins are read.
pub open spec fn boot_read(
    plugins: Seq<PluginModel>,
    class: Option<Seq<char>>,
    m: ManifestModel,
    told: ReportModel,
) -> (ManifestModel, ReportModel) {
    match plugin_named(plugins, SPRING_BOOT_GROUP@, 0) {
        None => (m, told),
        Some(boot) => {
            let from = "plugin `org.springframework.boot`"@;
            let (m, told) = match boot.version {
                Some(version) => if plugin_named(plugins, "io.spring.dependency-management"@, 0)
                    is Some {
                    with_bom(
                        m,
                        told,
                        SPRING_BOOT_GROUP@,
                        SPRING_BOOT_BOM@,
                        version,
                        "plugins `org.springframework.boot` and `io.spring.dependency-management`"@,
                    )
                } else {
                    (m, told)
                },
                None => (
                    m,
                    told.with_skipped(
                        from
                            + " — its version is set somewhere jrs does not read (settings, a catalog, a variable), so Spring Boot's BOM was not added to [managed]"@,
                    ),
                ),
            };
            let (m, told) = with_parameters(m, told, from);
            with_application(m, told, class, from)
        },
    }
}

fn read_boot(
    plugins: &Vec<Plugin>,
    class: Option<&str>,
    out: &mut Manifest,
    report: &mut Report,
)
    ensures
        (final(out).deep_view(), final(report).deep_view()) == boot_read(
            plugins.deep_view(),
            class.deep_view(),
            old(out).deep_view(),
            old(report).deep_view(),
        ),
{
    let Some(boot) = find_plugin(plugins, SPRING_BOOT_GROUP) else {
        return ;
    };
    let from = "plugin `org.springframework.boot`";
    match &boot.version {
        // Without the dependency-management plugin, Boot's BOM comes in only
        // through `platform(SpringBootPlugin.BOM_COORDINATES)`.
        Some(version) => {
            if find_plugin(plugins, "io.spring.dependency-management").is_some() {
                spring_boot_bom(
                    out,
                    version.as_str(),
                    "plugins `org.springframework.boot` and `io.spring.dependency-management`",
                    report,
                );
            }
        },
        None => {
            report.skipped(
                cat2(
                    from,
                    " — its version is set somewhere jrs does not read (settings, a catalog, a variable), so Spring Boot's BOM was not added to [managed]",
                ),
            );
        },
    }
    spring_boot_parameters(out, from, report);
    spring_boot_application(out, class, from, report);
}

/// The version of Spring Boot's plugin.
pub open spec fn boot_version(plugins: Seq<PluginModel>) -> Option<Seq<char>> {
    match plugin_named(plugins, SPRING_BOOT_GROUP@, 0) {
        Some(boot) => boot.version,
        None => None,
    }
}

fn find_boot_version(plugins: &Vec<Plugin>) -> (r: Option<String>)
    ensures
        r.deep_view() == boot_version(plugins.deep_view()),
{
    match find_plugin(plugins, SPRING_BOOT_GROUP) {
        Some(boot) => boot.version.duplicate(),
        None => None,
    }
}

/// What is told of the versions that were pinned.
pub open spec fn pins_told(p: PinsModel) -> (ManifestModel, ReportModel) {
    (
        p.m,
        if p.pinned > 0 {
            p.told.with_migrated(
                "[managed] — "@ + decimal(p.pinned) + " version"@ + (if p.pinned == 1 {
                    ""@
                } else {
                    "s"@
                }) + " from the build's dependency management and constraints"@,
            )
        } else {
            p.told
        },
    )
}

/// The manifest and the report once what versions dependencies is read.
pub open spec fn managed_read(
    script: Seq<char>,
    plugins: Seq<PluginModel>,
    catalog: Seq<(Seq<char>, DependencyModel)>,
    class: Option<Seq<char>>,
    m: ManifestModel,
    told: ReportModel,
) -> (ManifestModel, ReportModel) {
    let (m, told) = boot_read(plugins, class, m, told);
    let p = management_from(
        management_statements(script),
        0,
        PinsModel { m, told, pinned: 0 },
    );
    pins_told(
        managed_lines_from(
            top_lines("dependencies"@, script),
            0,
            0,
            boot_version(plugins),
            catalog,
            p,
        ),
    )
}

/// What versions the dependencies the build leaves unversioned, into
/// `[managed]`: Spring Boot's plugins, which import Boot's BOM;
/// the dependency-management plugin's `dependencyManagement { }` block, with
/// its `mavenBom` imports and `dependency` pins; and `platform()` and
/// `constraints { }` in `dependencies { }`. `class` is the project's
/// `@SpringBootApplication`, where it has one.
pub fn read_managed(
    script: &str,
    plugins: &Vec<Plugin>,
    catalog: &Catalog,
    class: Option<&str>,
    out: &mut Manifest,
    report: &mut Report,
)
    ensures
        (final(out).deep_view(), final(report).deep_view()) == managed_read(
            script@,
            plugins.deep_view(),
            catalog.deep_view(),
            class.deep_view(),
            old(out).deep_view(),
            old(report).deep_view(),
        ),
{
    let boot = find_boot_version(plugins);
    read_boot(plugins, class, out, report);
    let mut pinned: usize = read_dependency_management(script, out, report);
    read_managed_lines(script, &boot, catalog, out, report, &mut pinned);
    if pinned > 0 {
        let s = if pinned == 1 {
            ""
        } else {
            "s"
        };
        report.migrated(
            cat5(
                "[managed] — ",
                show(pinned as u128).as_str(),
                " version",
                s,
                " from the build's dependency management and constraints",
            ),
        );
    }
}

} // verus!
