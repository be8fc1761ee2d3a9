//! What the settings of a Gradle build come to, one by one.

use crate::attributes::{alike, attribute_of, name_alike};
use crate::dependency::{DependencyModel, ManagedModel};
use crate::element::ElementModel;
use crate::gradle::{
    java_read, main_from, main_read, parted, toolchain_from, with_test_line, TestArgsModel,
};
use crate::gradle_catalog::{library_of, table_at, text_at, LibraryModel};
use crate::gradle_deps::with_processors;
use crate::gradle_env::{
    environment_read, variable_of, working_dir_of, working_dir_read, StateModel,
};
use crate::gradle_generated::{generating, gradle_call};
use crate::gradle_jar::{value_of, with_attribute};
use crate::gradle_managed::{platform_bom, platform_in, with_pin, with_platform, PinsModel};
use crate::gradle_openapi::{map_options, path_options, string_options, switch_options};
use crate::gradle_plugins::{
    kotlin_jdk, plugin_named, proguard_read, with_kotlin_jdk, with_kotlin_plugin, PluginModel,
};
use crate::gradle_repos::{groups_of, repository_of};
use crate::gradle_text::{assigned_in, java_of, literals_of, name_of_url, number_past, set_on};
use crate::language::Language;
use crate::manifest::ManifestModel;
use crate::maven_build::{entry_value, with_entry};
use crate::migration::{with_application, with_bom, with_language, with_parameters};
use crate::model::{generated_from, path_from, paths_from};
use crate::parse_dependencies::manages;
use crate::pom::{
    chain_properties, managed_named, own_properties, property, property_from, property_place,
    with_properties, with_property, EffectiveModel, PomDependencyModel, PomModel, Properties,
};
use crate::reach::reached;
use crate::report::ReportModel;
use crate::task::{Hook, TaskModel};
use crate::template::{literal_template, TemplateModel};
use crate::text::{line_seq, number, starts, trimmed, within};
use crate::value::{entry, Entries, Tree, TreeKind};
use vstd::prelude::*;

verus! {

// ---- [java] ----------------------------------------------------------------

/// The release of a script is that of its toolchain, or else its
/// `sourceCompatibility`; its target is `targetCompatibility`, unless that is the
/// release.
pub proof fn releases_are_read(script: Seq<char>, m: ManifestModel, told: ReportModel, n: u32)
    requires
        m.java.source is None,
        m.java.target is None,
    ensures
        ({
            let java = java_read(script, m, told).0.java;
            let toolchain = toolchain_from(line_seq(script), 0, 0);
            let source = assigned_in(script, "sourceCompatibility"@);
            let target = assigned_in(script, "targetCompatibility"@);
            &&& toolchain is Some && number_past(toolchain->0, "JavaLanguageVersion.of"@) == Some(
                n as nat,
            ) ==> java.source == Some(n)
            &&& toolchain is None && source is Some && java_of(source->0) == Some(n as nat)
                ==> java.source == Some(n)
            &&& toolchain is None && source is None ==> java.source is None
            &&& target is Some && java_of(target->0) == Some(n as nat) ==> java.target == (
            if java.source == Some(n) {
                None
            } else {
                Some(n)
            })
            &&& target is None ==> java.target is None
            &&& java.encoding == m.java.encoding
        }),
{
}

/// The main class is that of the first line that names one.
pub proof fn main_classes_are_read(script: Seq<char>, m: ManifestModel, told: ReportModel)
    ensures
        main_from(line_seq(script), 0) matches Some(c) ==> main_read(script, m, told).0.main_class
            == Some(c),
        main_from(line_seq(script), 0) is None ==> main_read(script, m, told).0 == m,
{
}

// ---- [run] and [test] ------------------------------------------------------

/// The arguments of `jvmArgs` go to the tests' JVM as they are, a
/// `systemProperty` as `-D` and its name and value, and as many JVMs run them as
/// `maxParallelForks` says, from two on.
pub proof fn test_lines_are_read(t: TestArgsModel, raw: Seq<char>, n: nat)
    ensures
        ({
            let line = trimmed(raw);
            let literals = literals_of(line);
            let next = with_test_line(t, raw);
            &&& starts(line, "jvmArgs"@) ==> next.args == t.args + parted(literals, false)
                && next.agents == t.agents + parted(literals, true)
            &&& !starts(line, "jvmArgs"@) && starts(line, "systemProperty"@) && !starts(
                line,
                "systemProperties"@,
            ) && literals.len() == 2 ==> next.args == t.args.push(
                "-D"@ + literals[0] + "="@ + literals[1],
            )
            &&& next.m.run == t.m.run
            &&& !starts(line, "jvmArgs"@) && !starts(line, "systemProperty"@) && !within(
                line,
                "useTestNG"@,
            ) && set_on(line, "maxParallelForks"@) is Some && number(
                set_on(line, "maxParallelForks"@)->0,
                u32::MAX as nat,
            ) == Some(n) && n >= 2 ==> next.m.test.forks == n as u32
        }),
{
}

/// A variable that the `run` task sets is the program's, and one that the `test`
/// task sets is the tests'.
pub proof fn variables_are_their_tasks(
    state: StateModel,
    text: Seq<char>,
    rest: Seq<char>,
    name: Seq<char>,
    value: Seq<char>,
)
    requires
        variable_of(rest) == Ok::<(Seq<char>, Seq<char>), Seq<char>>((name, value)),
    ensures
        environment_read(state, true, text, rest).0.run.env.last() == (name, literal_template(value)),
        environment_read(state, true, text, rest).0.test == state.0.test,
        environment_read(state, false, text, rest).0.test.env.last() == (
            name,
            literal_template(value),
        ),
        environment_read(state, false, text, rest).0.run == state.0.run,
{
}

/// The working directory of the `run` task is the program's.
pub proof fn working_directories_are_the_programs(
    state: StateModel,
    text: Seq<char>,
    rest: Seq<char>,
)
    ensures
        working_dir_of(rest) matches Ok(dir)
            ==> working_dir_read(state, text, rest).0.run.cwd == Some(
            literal_template(dir),
        ),
        working_dir_of(rest) is Err ==> working_dir_read(state, text, rest).0 == state.0,
{
}

// ---- [managed] -------------------------------------------------------------

/// A platform is managed as a BOM and a constraint as a pin, in the version that
/// the build names; what is managed already stays.
pub proof fn platforms_are_boms(p: PinsModel, d: DependencyModel, told: ReportModel, from: Seq<char>)
    ensures
        !manages(p.m.managed, d.group, d.artifact) ==> with_pin(p, d).m.managed
            == p.m.managed.push(
            ManagedModel { group: d.group, artifact: d.artifact, version: d.version, bom: false },
        ) && with_bom(p.m, told, d.group, d.artifact, d.version, from).0.managed
            == p.m.managed.push(
            ManagedModel { group: d.group, artifact: d.artifact, version: d.version, bom: true },
        ),
        manages(p.m.managed, d.group, d.artifact) ==> with_pin(p, d).m == p.m && with_bom(
            p.m,
            told,
            d.group,
            d.artifact,
            d.version,
            from,
        ).0 == p.m,
{
}

/// A line that names a platform makes it a BOM of the manifest.
pub proof fn platform_lines_are_boms(
    p: PinsModel,
    line: Seq<char>,
    boot: Option<Seq<char>>,
    catalog: Seq<(Seq<char>, DependencyModel)>,
    d: DependencyModel,
)
    requires
        platform_in(line) is Some,
        platform_bom(platform_in(line)->0, boot, catalog) == Some(d),
        !manages(p.m.managed, d.group, d.artifact),
    ensures
        with_platform(p, line, boot, catalog).m.managed == p.m.managed.push(
            ManagedModel { group: d.group, artifact: d.artifact, version: d.version, bom: true },
        ),
{
}

/// What Spring Boot adds: `-parameters` for javac, once, and the application's
/// class where no main class is named.
pub proof fn spring_boot_adds_these(
    m: ManifestModel,
    told: ReportModel,
    class: Seq<char>,
    from: Seq<char>,
)
    ensures
        with_parameters(m, told, from).0.java.javac_args.contains("-parameters"@),
        m.java.javac_args.contains("-parameters"@) ==> with_parameters(m, told, from).0 == m,
        m.main_class is None ==> with_application(m, told, Some(class), from).0.main_class == Some(
            class,
        ),
        m.main_class is Some ==> with_application(m, told, Some(class), from).0 == m,
{
    let args = m.java.javac_args;
    if !args.contains("-parameters"@) {
        assert(args.push("-parameters"@)[args.len() as int] == "-parameters"@);
    }
}

// ---- [package] and the repositories ----------------------------------------

/// An attribute of the jar is the manifest's, under its name, unless it is the
/// main class or one of that name is there.
pub proof fn attributes_are_kept(
    m: ManifestModel,
    told: ReportModel,
    name: Seq<char>,
    expression: Seq<char>,
)
    ensures
        value_of(expression) matches Some(raw) ==> {
            let next = with_attribute(m, told, name, expression).0;
            &&& alike(name, "Main-Class"@) ==> next.package == m.package
            &&& alike(name, "Main-Class"@) && m.main_class is Some ==> next == m
            &&& !alike(name, "Main-Class"@) && name_alike(m.package.manifest, name, 0) is None
                && attribute_of(name, raw) is Ok ==> next.package.manifest
                == m.package.manifest.push((name, attribute_of(name, raw)->Ok_0))
            &&& !alike(name, "Main-Class"@) ==> next.main_class == m.main_class
        },
{
}

/// A repository has the URL that the script names, and serves the groups that
/// its filter includes.
pub proof fn repositories_are_read(lines: Seq<Seq<char>>, url: Seq<char>, told: ReportModel)
    ensures
        ({
            let r = repository_of(lines, url, told).0;
            &&& r.url == url
            &&& r.name == name_of_url(url)
            &&& url != "https://repo1.maven.org/maven2"@ ==> r.groups == groups_of(
                lines,
                name_of_url(url),
                told,
            ).groups
            &&& url == "https://repo1.maven.org/maven2"@ ==> r.groups.len() == 0
        }),
{
    let g = groups_of(lines, name_of_url(url), told).groups;
    if g.len() == 0 {
        assert(g =~= seq![]);
    }
}

// ---- the tasks that Gradle still runs --------------------------------------

/// What jrs cannot translate is run by the wrapper, quietly, task by task.
pub proof fn gradle_is_called_so(names: Seq<Seq<char>>)
    ensures
        gradle_call(names).len() == names.len() + 2,
        gradle_call(names)[0] == literal_template("./gradlew"@),
        gradle_call(names)[1] == literal_template("--quiet"@),
        forall|k: int|
            0 <= k < names.len() ==> #[trigger] gradle_call(names)[k + 2] == literal_template(
                names[k],
            ),
{
}

/// A directory that a task generates is among the sources, or the resources,
/// that it says it writes.
pub proof fn generated_directories_are_declared(t: TaskModel, dir: TemplateModel)
    ensures
        generating(t, true, dir).resource_outputs.contains(dir),
        generating(t, true, dir).source_outputs == t.source_outputs,
        generating(t, false, dir).source_outputs.contains(dir),
        generating(t, false, dir).resource_outputs == t.resource_outputs,
{
    if !t.resource_outputs.contains(dir) {
        assert(t.resource_outputs.push(dir)[t.resource_outputs.len() as int] == dir);
    }
    if !t.source_outputs.contains(dir) {
        assert(t.source_outputs.push(dir)[t.source_outputs.len() as int] == dir);
    }
}

/// The options of the OpenAPI generator that its settings stand for.
pub proof fn generator_settings_are_options()
    ensures
        path_options().len() == 5,
        path_options().contains(("inputSpec"@, "-i"@)),
        path_options().contains(("outputDir"@, "-o"@)),
        path_options().contains(("templateDir"@, "-t"@)),
        path_options().contains(("configFile"@, "-c"@)),
        path_options().contains(("ignoreFileOverride"@, "--ignore-file-override"@)),
        string_options().len() == 18,
        string_options().contains(("generatorName"@, "-g"@)),
        string_options().contains(("modelPackage"@, "--model-package"@)),
        string_options().contains(("apiPackage"@, "--api-package"@)),
        string_options().contains(("invokerPackage"@, "--invoker-package"@)),
        string_options().contains(("packageName"@, "--package-name"@)),
        string_options().contains(("modelNamePrefix"@, "--model-name-prefix"@)),
        string_options().contains(("modelNameSuffix"@, "--model-name-suffix"@)),
        string_options().contains(("apiNameSuffix"@, "--api-name-suffix"@)),
        string_options().contains(("library"@, "--library"@)),
        string_options().contains(("groupId"@, "--group-id"@)),
        string_options().contains(("id"@, "--artifact-id"@)),
        string_options().contains(("version"@, "--artifact-version"@)),
        string_options().contains(("gitHost"@, "--git-host"@)),
        string_options().contains(("gitUserId"@, "--git-user-id"@)),
        string_options().contains(("gitRepoId"@, "--git-repo-id"@)),
        string_options().contains(("releaseNote"@, "--release-note"@)),
        string_options().contains(("httpUserAgent"@, "--http-user-agent"@)),
        string_options().contains(("auth"@, "--auth"@)),
        map_options().len() == 13,
        map_options().contains(("globalProperties"@, "--global-property"@)),
        map_options().contains(("configOptions"@, "--additional-properties"@)),
        map_options().contains(("additionalProperties"@, "--additional-properties"@)),
        map_options().contains(("typeMappings"@, "--type-mappings"@)),
        map_options().contains(("importMappings"@, "--import-mappings"@)),
        map_options().contains(("schemaMappings"@, "--schema-mappings"@)),
        map_options().contains(("instantiationTypes"@, "--instantiation-types"@)),
        map_options().contains(("nameMappings"@, "--name-mappings"@)),
        map_options().contains(("modelNameMappings"@, "--model-name-mappings"@)),
        map_options().contains(("parameterNameMappings"@, "--parameter-name-mappings"@)),
        map_options().contains(("enumNameMappings"@, "--enum-name-mappings"@)),
        map_options().contains(("inlineSchemaNameMappings"@, "--inline-schema-name-mappings"@)),
        map_options().contains(("reservedWordsMappings"@, "--reserved-words-mappings"@)),
        switch_options().len() == 9,
        switch_options().contains(("skipValidateSpec"@, "--skip-validate-spec"@)),
        switch_options().contains(("removeOperationIdPrefix"@, "--remove-operation-id-prefix"@)),
        switch_options().contains(("skipOverwrite"@, "--skip-overwrite"@)),
        switch_options().contains(("minimalUpdate"@, "--minimal-update"@)),
        switch_options().contains(("generateAliasAsModel"@, "--generate-alias-as-model"@)),
        switch_options().contains(("enablePostProcessFile"@, "--enable-post-process-file"@)),
        switch_options().contains(("skipOperationExample"@, "--skip-operation-example"@)),
        switch_options().contains(("dryRun"@, "--dry-run"@)),
        switch_options().contains(("verbose"@, "-v"@)),
{
    assert(path_options()[0] == ("inputSpec"@, "-i"@));
    assert(path_options()[1] == ("outputDir"@, "-o"@));
    assert(path_options()[2] == ("templateDir"@, "-t"@));
    assert(path_options()[3] == ("configFile"@, "-c"@));
    assert(path_options()[4] == ("ignoreFileOverride"@, "--ignore-file-override"@));
    assert(string_options()[0] == ("generatorName"@, "-g"@));
    assert(string_options()[1] == ("modelPackage"@, "--model-package"@));
    assert(string_options()[2] == ("apiPackage"@, "--api-package"@));
    assert(string_options()[3] == ("invokerPackage"@, "--invoker-package"@));
    assert(string_options()[4] == ("packageName"@, "--package-name"@));
    assert(string_options()[5] == ("modelNamePrefix"@, "--model-name-prefix"@));
    assert(string_options()[6] == ("modelNameSuffix"@, "--model-name-suffix"@));
    assert(string_options()[7] == ("apiNameSuffix"@, "--api-name-suffix"@));
    assert(string_options()[8] == ("library"@, "--library"@));
    assert(string_options()[9] == ("groupId"@, "--group-id"@));
    assert(string_options()[10] == ("id"@, "--artifact-id"@));
    assert(string_options()[11] == ("version"@, "--artifact-version"@));
    assert(string_options()[12] == ("gitHost"@, "--git-host"@));
    assert(string_options()[13] == ("gitUserId"@, "--git-user-id"@));
    assert(string_options()[14] == ("gitRepoId"@, "--git-repo-id"@));
    assert(string_options()[15] == ("releaseNote"@, "--release-note"@));
    assert(string_options()[16] == ("httpUserAgent"@, "--http-user-agent"@));
    assert(string_options()[17] == ("auth"@, "--auth"@));
    assert(map_options()[0] == ("globalProperties"@, "--global-property"@));
    assert(map_options()[1] == ("configOptions"@, "--additional-properties"@));
    assert(map_options()[2] == ("additionalProperties"@, "--additional-properties"@));
    assert(map_options()[3] == ("typeMappings"@, "--type-mappings"@));
    assert(map_options()[4] == ("importMappings"@, "--import-mappings"@));
    assert(map_options()[5] == ("schemaMappings"@, "--schema-mappings"@));
    assert(map_options()[6] == ("instantiationTypes"@, "--instantiation-types"@));
    assert(map_options()[7] == ("nameMappings"@, "--name-mappings"@));
    assert(map_options()[8] == ("modelNameMappings"@, "--model-name-mappings"@));
    assert(map_options()[9] == ("parameterNameMappings"@, "--parameter-name-mappings"@));
    assert(map_options()[10] == ("enumNameMappings"@, "--enum-name-mappings"@));
    assert(map_options()[11] == ("inlineSchemaNameMappings"@, "--inline-schema-name-mappings"@));
    assert(map_options()[12] == ("reservedWordsMappings"@, "--reserved-words-mappings"@));
    assert(switch_options()[0] == ("skipValidateSpec"@, "--skip-validate-spec"@));
    assert(switch_options()[1] == ("removeOperationIdPrefix"@, "--remove-operation-id-prefix"@));
    assert(switch_options()[2] == ("skipOverwrite"@, "--skip-overwrite"@));
    assert(switch_options()[3] == ("minimalUpdate"@, "--minimal-update"@));
    assert(switch_options()[4] == ("generateAliasAsModel"@, "--generate-alias-as-model"@));
    assert(switch_options()[5] == ("enablePostProcessFile"@, "--enable-post-process-file"@));
    assert(switch_options()[6] == ("skipOperationExample"@, "--skip-operation-example"@));
    assert(switch_options()[7] == ("dryRun"@, "--dry-run"@));
    assert(switch_options()[8] == ("verbose"@, "-v"@));
}

// ---- a POM's own -----------------------------------------------------------

proof fn lemma_place(props: Properties, name: Seq<char>, i: int)
    requires
        0 <= i <= props.len(),
        forall|k: int| 0 <= k < i ==> (#[trigger] props[k]).0 != name,
    ensures
        property_place(props, name, i) matches Some(k) ==> i <= k < props.len()
            && props[k].0 == name
            && forall|j: int| 0 <= j < k ==> (#[trigger] props[j]).0 != name,
        property_place(props, name, i) is None ==> forall|k: int|
            0 <= k < props.len() ==> (#[trigger] props[k]).0 != name,
    decreases props.len() - i,
{
    if i < props.len() && props[i].0 != name {
        lemma_place(props, name, i + 1);
    }
}

proof fn lemma_property_at(props: Properties, name: Seq<char>, i: int, k: int)
    requires
        0 <= i <= k < props.len(),
        props[k].0 == name,
        forall|j: int| i <= j < k ==> (#[trigger] props[j]).0 != name,
    ensures
        property_from(props, name, i) == Some(props[k].1),
    decreases k - i,
{
    if i < k {
        lemma_property_at(props, name, i + 1, k);
    }
}

proof fn lemma_other_property(a: Properties, b: Properties, name: Seq<char>, i: int)
    requires
        0 <= i,
        a.len() <= b.len() <= a.len() + 1,
        forall|k: int| 0 <= k < a.len() ==> (#[trigger] b[k] == a[k]) || (a[k].0 != name
            && b[k].0 != name),
        b.len() == a.len() + 1 ==> b[a.len() as int].0 != name,
    ensures
        property_from(a, name, i) == property_from(b, name, i),
    decreases b.len() - i,
{
    if i < b.len() {
        if i < a.len() {
            assert(b[i] == a[i] || (a[i].0 != name && b[i].0 != name));
        }
        lemma_other_property(a, b, name, i + 1);
    }
}

/// A property that is set has its value, and no other changes.
pub proof fn properties_are_set(props: Properties, name: Seq<char>, value: Seq<char>, other: Seq<char>)
    ensures
        property(with_property(props, name, value), name) == Some(value),
        other != name
            ==> property(with_property(props, name, value), other) == property(props, other),
{
    lemma_place(props, name, 0);
    let next = with_property(props, name, value);
    match property_place(props, name, 0) {
        Some(k) => {
            lemma_property_at(next, name, 0, k);
        },
        None => {
            lemma_property_at(next, name, 0, props.len() as int);
        },
    }
    if other != name {
        lemma_other_property(props, next, other, 0);
    }
}

/// A POM's own coordinates are properties of it.
pub proof fn coordinates_are_properties(
    props: Properties,
    group: Seq<char>,
    artifact: Seq<char>,
    version: Seq<char>,
)
    ensures
        property(own_properties(props, group, artifact, version), "project.groupId"@) == Some(group),
        property(own_properties(props, group, artifact, version), "project.artifactId"@) == Some(
            artifact,
        ),
        property(own_properties(props, group, artifact, version), "project.version"@) == Some(
            version,
        ),
{
    reveal_strlit("project.groupId");
    reveal_strlit("project.artifactId");
    reveal_strlit("project.version");
    assert("project.groupId"@.len() == 15 && "project.version"@.len() == 15);
    assert("project.groupId"@[8] == 'g' && "project.version"@[8] == 'v');
    assert("project.artifactId"@.len() == 18);
    let a = with_property(props, "project.groupId"@, group);
    let b = with_property(a, "project.artifactId"@, artifact);
    properties_are_set(props, "project.groupId"@, group, ""@);
    properties_are_set(a, "project.artifactId"@, artifact, "project.groupId"@);
    properties_are_set(b, "project.version"@, version, "project.groupId"@);
    properties_are_set(b, "project.version"@, version, "project.artifactId"@);
}

/// What a dependency says itself counts before what is managed for it, and what
/// neither says stays unsaid.
pub proof fn own_words_count_first(e: EffectiveModel, d: PomDependencyModel)
    ensures
        d.version is Some ==> e.managing(d).version == d.version,
        d.scope is Some ==> e.managing(d).scope == d.scope,
        d.exclusions.len() > 0 ==> e.managing(d).exclusions == d.exclusions,
        e.managing(d).group == d.group,
        e.managing(d).artifact == d.artifact,
        e.managing(d).classifier == d.classifier,
        e.managing(d).optional == d.optional,
        forall|k: int|
            0 <= k < e.managed.len() && (#[trigger] e.managed[k]).group == d.group
                && e.managed[k].artifact == d.artifact && d.version is None && (forall|j: int|
                0 <= j < k ==> !((#[trigger] e.managed[j]).group == d.group && e.managed[j].artifact
                    == d.artifact)) ==> e.managing(d).version == e.managed[k].version && (d.scope
                is None ==> e.managing(d).scope == e.managed[k].scope),
{
    lemma_managed(e.managed, d.group, d.artifact, 0);
}

proof fn lemma_managed(
    list: Seq<PomDependencyModel>,
    group: Seq<char>,
    artifact: Seq<char>,
    i: int,
)
    requires
        0 <= i,
        forall|j: int|
            0 <= j < i && j < list.len() ==> !((#[trigger] list[j]).group == group
                && list[j].artifact
                == artifact),
    ensures
        forall|k: int|
            0 <= k < list.len() && (#[trigger] list[k]).group == group
                && list[k].artifact == artifact
                && (forall|j: int|
                0 <= j < k ==> !((#[trigger] list[j]).group == group
                    && list[j].artifact == artifact))
                ==> managed_named(list, group, artifact, i) == Some(list[k]),
    decreases list.len() - i,
{
    if i < list.len() && !(list[i].group == group && list[i].artifact == artifact) {
        lemma_managed(list, group, artifact, i + 1);
    }
}

// ---- annotation processors, the catalog, the jar ---------------------------

/// Annotation processors are asked for with `-proc:full`, from Java 21 on and
/// where the build does not say otherwise.
pub proof fn processors_are_asked_for(m: ManifestModel, processors: Seq<Seq<char>>, told: ReportModel)
    ensures
        ({
            let args = with_processors(m, processors, told).0.java.javac_args;
            let said = exists|i: int|
                0 <= i < m.java.javac_args.len() && starts(#[trigger] m.java.javac_args[i], "-proc:"@);
            if processors.len() > 0 && m.java.source is Some && m.java.source->0 >= 21 && !said {
                args == m.java.javac_args.push("-proc:full"@)
            } else {
                args == m.java.javac_args
            }
        }),
{
}

/// A library of the catalog: the group and the artifact of `module`, or of
/// `group` and `name`; the version that it names, or that the table of versions
/// has under the name that it refers to; and none where it names none.
pub proof fn catalog_libraries_are_read(
    catalog: Entries,
    v: Tree,
    t: Entries,
    group: Seq<char>,
    artifact: Seq<char>,
)
    requires
        v.table() == Some(t),
        text_at(t, "module"@) is None,
        text_at(t, "group"@) == Some(group),
        text_at(t, "name"@) == Some(artifact),
    ensures
        ({
            let r = library_of(catalog, v);
            &&& r matches LibraryModel::Known(d) ==> d.group == group
                && d.artifact == artifact
            &&& entry(t, "version"@) matches Some(x) ==> (x.kind
                matches TreeKind::Text(version) ==> (r
                matches LibraryModel::Known(d) && d.version == version))
            &&& entry(t, "version"@) matches Some(x) ==> (x.kind
                matches TreeKind::Table(rich) ==> (
            text_at(rich, "ref"@) matches Some(name) ==> (
            table_at(catalog, "versions"@) matches Some(versions) ==> (
            text_at(versions, name) matches Some(version) ==> (r
                matches LibraryModel::Known(d) && d.version == version)))))
            &&& entry(t, "version"@) is None && entry(t, "version.ref"@)
                is None ==> (r matches LibraryModel::Known(d)
                && d.version.len() == 0)
        }),
{
    reveal_strlit("");
}

/// An entry of the jar's manifest in a POM is the manifest's, under its name.
pub proof fn jar_entries_are_kept(
    m: ManifestModel,
    told: ReportModel,
    e: ElementModel,
)
    ensures
        ({
            let text = trimmed(e.text);
            let raw = entry_value(text);
            let next = with_entry(m, told, e).0;
            &&& !within(raw, "${{"@) && !(alike(e.name, "Main-Class"@) && m.main_class == Some(text))
                && attribute_of(e.name, raw) is Ok ==> next.package.manifest
                == m.package.manifest.push((e.name, attribute_of(e.name, raw)->Ok_0))
            &&& within(raw, "${{"@) ==> next == m
        }),
{
}

// ---- what tasks generate ---------------------------------------------------

proof fn lemma_paths_grow(
    m: ManifestModel,
    paths: Seq<TemplateModel>,
    i: int,
    out: Seq<Seq<char>>,
)
    requires
        0 <= i,
    ensures
        paths_from(m, paths, i, out) matches Ok(all) ==> {
            &&& forall|k: int| 0 <= k < out.len() ==> all.contains(#[trigger] out[k])
            &&& forall|k: int|
                i <= k < paths.len() ==> (path_from(
                    m,
                    (#[trigger] paths[k]).segments,
                    0,
                    seq![],
                ) matches Ok(p) && all.contains(p))
        },
    decreases paths.len() - i,
{
    if i < paths.len() {
        if let Ok(p) = path_from(m, paths[i].segments, 0, seq![]) {
            let next = out.push(p);
            lemma_paths_grow(m, paths, i + 1, next);
            if let Ok(all) = paths_from(m, paths, i, out) {
                assert(next[out.len() as int] == p);
                assert forall|k: int| 0 <= k < out.len() implies all.contains(#[trigger] out[k]) by {
                    assert(next[k] == out[k]);
                }
            }
        }
    } else if let Ok(all) = paths_from(m, paths, i, out) {
        assert forall|k: int| 0 <= k < out.len() implies all.contains(#[trigger] out[k]) by {
            assert(all[k] == out[k]);
        }
    }
}

proof fn lemma_generated(
    m: ManifestModel,
    hook: Hook,
    resources: bool,
    i: int,
    out: Seq<Seq<char>>,
    t: int,
    k: int,
)
    requires
        0 <= i,
        0 <= t < m.tasks.len(),
        reached(m, hook).contains(m.tasks[t].name),
        0 <= k < (if resources {
            m.tasks[t].resource_outputs
        } else {
            m.tasks[t].source_outputs
        }).len(),
    ensures
        generated_from(m, hook, resources, i, out) matches Ok(all) ==> {
            let paths = if resources {
                m.tasks[t].resource_outputs
            } else {
                m.tasks[t].source_outputs
            };
            &&& forall|j: int| 0 <= j < out.len() ==> all.contains(#[trigger] out[j])
            &&& i <= t ==> (path_from(m, paths[k].segments, 0, seq![]) matches Ok(p)
                && all.contains(p))
        },
    decreases m.tasks.len() - i,
{
    if i < m.tasks.len() {
        if !reached(m, hook).contains(m.tasks[i].name) {
            lemma_generated(m, hook, resources, i + 1, out, t, k);
        } else {
            let paths = if resources {
                m.tasks[i].resource_outputs
            } else {
                m.tasks[i].source_outputs
            };
            lemma_paths_grow(m, paths, 0, out);
            if let Ok(more) = paths_from(m, paths, 0, out) {
                lemma_generated(m, hook, resources, i + 1, more, t, k);
                if let Ok(all) = generated_from(m, hook, resources, i, out) {
                    assert forall|j: int| 0 <= j < out.len() implies all.contains(#[trigger] out[j]) by {
                        assert(more.contains(out[j]));
                        let x = choose|x: int| 0 <= x < more.len() && more[x] == out[j];
                        assert(all.contains(more[x]));
                    }
                    if i == t {
                        let one = paths[k];
                        let p = path_from(m, paths[k].segments, 0, seq![])->Ok_0;
                        assert(more.contains(p));
                        let x = choose|x: int| 0 <= x < more.len() && more[x] == p;
                        assert(all.contains(more[x]));
                    }
                }
            }
        }
    } else if let Ok(all) = generated_from(m, hook, resources, i, out) {
        assert forall|j: int| 0 <= j < out.len() implies all.contains(#[trigger] out[j]) by {
            assert(all[j] == out[j]);
        }
    }
}

/// What is generated for a hook holds every directory that a task which the hook
/// reaches says it writes: of sources where sources are asked for, and of
/// resources where resources are.
pub proof fn generated_directories_are_listed(
    m: ManifestModel,
    hook: Hook,
    resources: bool,
    t: int,
    k: int,
)
    requires
        0 <= t < m.tasks.len(),
        reached(m, hook).contains(m.tasks[t].name),
        0 <= k < (if resources {
            m.tasks[t].resource_outputs
        } else {
            m.tasks[t].source_outputs
        }).len(),
    ensures
        generated_from(m, hook, resources, 0, seq![]) matches Ok(all) ==> {
            let paths = if resources {
                m.tasks[t].resource_outputs
            } else {
                m.tasks[t].source_outputs
            };
            path_from(m, paths[k].segments, 0, seq![]) matches Ok(p) && all.contains(p)
        },
{
    lemma_generated(m, hook, resources, 0, seq![], t, k);
}

// ---- a chain of POMs -------------------------------------------------------

proof fn lemma_with_properties(props: Properties, list: Properties, i: int, name: Seq<char>)
    requires
        0 <= i,
    ensures
        (forall|k: int| i <= k < list.len() ==> (#[trigger] list[k]).0 != name) ==> property(
            with_properties(props, list, i),
            name,
        ) == property(props, name),
        forall|k: int|
            i <= k < list.len() && (#[trigger] list[k]).0 == name && (forall|j: int|
                k < j < list.len() ==> (#[trigger] list[j]).0 != name) ==> property(
                with_properties(props, list, i),
                name,
            ) == Some(list[k].1),
    decreases list.len() - i,
{
    if i < list.len() {
        properties_are_set(props, list[i].0, list[i].1, name);
        lemma_with_properties(with_property(props, list[i].0, list[i].1), list, i + 1, name);
    }
}

/// The nearest POM of a chain that sets a property decides it: what the first
/// sets counts, and what it does not set is left to its parents.
pub proof fn the_nearest_pom_decides(chain: Seq<PomModel>, n: int, props: Properties, k: int)
    requires
        0 < n <= chain.len(),
        0 <= k < chain[0].properties.len(),
        forall|j: int|
            k < j < chain[0].properties.len() ==> (#[trigger] chain[0].properties[j]).0
                != chain[0].properties[k].0,
    ensures
        property(chain_properties(chain, n, props), chain[0].properties[k].0) == Some(
            chain[0].properties[k].1,
        ),
    decreases n,
{
    let next = with_properties(props, chain[n - 1].properties, 0);
    if n > 1 {
        the_nearest_pom_decides(chain, n - 1, next, k);
    } else {
        let list = chain[0].properties;
        lemma_with_properties(props, list, 0, list[k].0);
        assert(chain_properties(chain, 0, next) == next);
        assert(list[k].0 == list[k].0);
    }
}

// ---- the languages ---------------------------------------------------------

/// A language that a build turns on gets a table of its own, in the version that
/// the build names and with the usual directories; one that is on, or in a
/// version that jrs cannot compile with, gets none.
pub proof fn languages_are_turned_on(
    m: ManifestModel,
    told: ReportModel,
    language: Language,
    version: Seq<char>,
    from: Seq<char>,
)
    ensures
        ({
            let next = with_language(m, told, language, version, from).0;
            let on = exists|i: int|
                0 <= i < m.languages.len() && (#[trigger] m.languages[i]).language == language;
            if on || language.refusal(version) is Some {
                next == m
            } else {
                &&& next.languages.len() == m.languages.len() + 1
                &&& next.languages.last().language == language
                &&& next.languages.last().version == version
                &&& next.languages.last().source_dir == "src/main/"@ + language.word()
                &&& next.languages.last().test_dir == "src/test/"@ + language.word()
                &&& next.dependencies == m.dependencies
            }
        }),
{
}

/// Kotlin's plugin turns it on in the version that the script gives the plugin.
pub proof fn kotlin_is_the_plugins(
    m: ManifestModel,
    told: ReportModel,
    p: PluginModel,
    version: Seq<char>,
)
    requires
        m.languages.len() == 0,
        p.id == "org.jetbrains.kotlin.jvm"@,
        p.version == Some(version),
        Language::Kotlin.refusal(version) is None,
    ensures
        ({
            let next = with_kotlin_plugin(m, told, p).0.languages;
            next.len() == 1 && next[0].language == Language::Kotlin && next[0].version
                == version
        }),
{
}

/// The toolchain of `kotlin { }` is the JDK, where the build names none.
pub proof fn kotlin_names_the_jdk(m: ManifestModel, told: ReportModel, script: Seq<char>, n: u32)
    ensures
        ({
            let next = with_kotlin_jdk(m, told, script).0;
            &&& m.java.jdk is Some ==> next == m
            &&& m.java.jdk is None && kotlin_jdk(script) == Some(n as nat)
                ==> next.java.jdk == Some(n)
            &&& next.java.source == m.java.source
        }),
{
}

/// The plugin of ProGuard pins its version.
pub proof fn proguard_plugins_pin(
    plugins: Seq<PluginModel>,
    m: ManifestModel,
    told: ReportModel,
)
    ensures
        ({
            let next = proguard_read(plugins, m, told).0.obfuscate;
            match plugin_named(plugins, "com.guardsquare.proguard"@, 0) {
                Some(p) => match p.version {
                    Some(v) => next is Some && next->0.version == v && next->0.keep.len() == 0
                        && next->0.proguard_args.len() == 0,
                    None => next == m.obfuscate,
                },
                None => next == m.obfuscate,
            }
        }),
{
}

} // verus!
