//! What a Gradle build becomes can be loaded.

use crate::attributes::{attribute_of, name_alike};
use crate::check::tasks_fault;
use crate::debug::debug_list_form;
use crate::dependency::{good_pattern, CENTRAL_URL, DependencyModel, RepositoryModel};
use crate::error::Fault;
use crate::fresh::fresh;
use crate::gradle::{
    java_read, jvm_args_read, main_read, migrated, name_or, parted, project_read, run_args_line,
    run_args_read, settings_read, test_lines_from, with_agent, with_agents, with_mockito,
    with_test_line, BuildModel, PREAMBLE, TestArgsModel,
};
use crate::gradle_body::literal_templates;
use crate::gradle_catalog::catalog_read;
use crate::gradle_deps::{
    added, aimed, block_from, declaration_of, dependencies_read, exclusion_of, jars_pushed,
    key_place, kotlin_version, other_keys, pushed, pushed_local, table, widened, with_declared,
    with_exclusion, with_inline, with_line, with_table, without_closure, ContextModel, DepsModel,
};
use crate::gradle_env::{
    blocks_read, environment_read, jvm_block, setting_read, settings_read as block_settings,
    variable_of, with_variable, working_dir_of, working_dir_read, StateModel,
};
use crate::gradle_files::{files_read, FilesModel};
use crate::gradle_generated::with_each;
use crate::gradle_jar::{
    jar_manifest_read, manifest_text, pairs_from, value_of, with_attribute, with_attributes,
};
use crate::gradle_lex::{statements_of, StmtModel};
use crate::gradle_loads::{lemma_literals, migrated_tasks_load};
use crate::gradle_managed::{
    boot_read, boot_version, constraints_from, constraints_rest, managed_lines_from, managed_read,
    management_from, management_statements, platform_bom, platform_in, stated_gav, target_of,
    with_constraint, with_management, with_platform, PinsModel, Target,
};
use crate::gradle_plugins::{
    kotlin_plugins_from, kotlin_read, library_languages, library_languages_from, plugin_language,
    plugin_named, plugin_shown, plugins_of, proguard_read, with_kotlin_jdk, with_kotlin_plugin,
    with_kotlinc_args, PluginModel,
};
use crate::gradle_repos::{
    all_good, declared_repositories_are_apart, entries_from, entry_of, filter_of, filters_from,
    groups_of, names_of, repositories_from, repositories_of, statements_from, url_line_from,
    with_filter, with_repository, FilterModel, GroupsModel,
};
use crate::gradle_tasks::tasks_read;
use crate::gradle_text::{
    assigned_in, deeper, first_of, first_word, lines_inside, literals_of, name_of_url,
    sans_comments, tally, top_lines, BlockModel,
};
use crate::keys::name_fault;
use crate::language::Language;
use crate::manifest::{blank_manifest, language_at, ManifestModel, TestModel};
use crate::migration::{
    library_version, with_library_language, with_managed, SPRING_BOOT_BOM, SPRING_BOOT_GROUP,
};
use crate::migration_loads::{
    all_flags, lemma_blank_put, lemma_flags_checked, lemma_language_place, lemma_language_put,
    lemma_managed_put, lemma_put_together, lemma_unimplied, lemma_usual_dirs, lemma_with_variable,
    put_repositories, switched, unswitched, usual_dirs, well_put, worded,
};
use crate::parse_dependencies::{bad_pattern_from, keys_distinct, whole_central};
use crate::parse_tasks::{env_fault_from, solid, task_placeholder_fault};
use crate::render::rendered;
use crate::report::{empty_report, ReportModel};
use crate::reread::lemma_tail_once;
use crate::reread_dependencies::{good_repositories, good_repository};
use crate::reread_manifest::{good_manifest, plain_header, readable, reads_back, same_manifest};
use crate::reread_paths::good_dir;
use crate::reread_settings::{
    good_agents, good_attributes, good_java, good_jvm_cwd, good_jvm_env, good_run, good_test,
};
use crate::reread_tasks::{good_hooks, good_tasks};
use crate::sheet_of::{languages_in_order, one_language};
use crate::task::{once_more, HookLists, TaskModel};
use crate::template::{literal_template, TemplateModel};
use crate::text::{
    capital, includes, line_seq, parts_of, sans_head, sans_tail, starts, trimmed, Class,
};
use vstd::prelude::*;

verus! {

/// What holds of the manifest of a build while it is filled.
#[verifier::opaque]
pub open spec fn gradle_put(m: ManifestModel) -> bool {
    &&& well_put(m)
    &&& usual_dirs(m)
    &&& good_java(m.java)
    &&& all_flags(m.java.javac_args)
    &&& good_attributes(m.package.manifest)
    &&& keys_distinct(m.dependencies)
    &&& m.hooks.len() == 0
}

/// The manifests have the same dependencies, and the tests the same ones.
pub open spec fn same_dependencies(a: ManifestModel, b: ManifestModel) -> bool {
    a.dependencies == b.dependencies && a.dev_dependencies == b.dev_dependencies
}

/// The dependencies, the releases and the main class, once there is one, stay.
pub open spec fn same_tables(a: ManifestModel, b: ManifestModel) -> bool {
    &&& same_dependencies(a, b)
    &&& a.java.source == b.java.source
    &&& a.java.target == b.java.target
    &&& a.main_class is Some ==> b.main_class == a.main_class
}

// ---- [java], and the languages ---------------------------------------------

pub proof fn lemma_java(script: Seq<char>, m: ManifestModel, told: ReportModel)
    requires
        gradle_put(m),
        m.java.target is None,
    ensures
        gradle_put(java_read(script, m, told).0),
        same_dependencies(m, java_read(script, m, told).0),
        java_read(script, m, told).0.main_class == m.main_class,
{
    reveal(gradle_put);
}

proof fn lemma_kotlin_plugins(
    plugins: Seq<PluginModel>,
    i: int,
    m: ManifestModel,
    told: ReportModel,
)
    requires
        0 <= i,
        gradle_put(m),
    ensures
        gradle_put(kotlin_plugins_from(plugins, i, m, told).0),
        same_tables(m, kotlin_plugins_from(plugins, i, m, told).0),
    decreases plugins.len() - i,
{
    reveal(gradle_put);
    if i < plugins.len() {
        let p = plugins[i];
        if p.version is Some {
            lemma_language_put(
                m,
                told,
                Language::Kotlin,
                p.version->0,
                plugin_shown(p.id),
            );
        }
        let (next, more) = with_kotlin_plugin(m, told, p);
        assert(gradle_put(next));
        lemma_kotlin_plugins(plugins, i + 1, next, more);
    }
}

pub proof fn lemma_kotlin(
    script: Seq<char>,
    plugins: Seq<PluginModel>,
    m: ManifestModel,
    told: ReportModel,
)
    requires
        gradle_put(m),
    ensures
        gradle_put(kotlin_read(script, plugins, m, told).0),
        same_tables(m, kotlin_read(script, plugins, m, told).0),
{
    reveal(gradle_put);
    lemma_kotlin_plugins(plugins, 0, m, told);
    let (a, told) = kotlin_plugins_from(plugins, 0, m, told);
    let (b, told) = with_kotlin_jdk(a, told, script);
    assert(gradle_put(b));
    let next = with_kotlinc_args(b, told, script).0.languages;
    lemma_language_place(b.languages, Language::Kotlin, 0);
    assert forall|k: int| 0 <= k < next.len() implies (
    #[trigger] next[k]).language.refusal(next[k].version) is None && good_dir(next[k].source_dir)
        && good_dir(next[k].test_dir) by {
        let before = b.languages[k];
        assert(next[k].language == before.language);
    }
}

pub proof fn lemma_library_languages_from(
    plugins: Seq<PluginModel>,
    i: int,
    m: ManifestModel,
    told: ReportModel,
)
    requires
        0 <= i,
        gradle_put(m),
    ensures
        gradle_put(library_languages_from(plugins, i, m, told).0),
        same_tables(m, library_languages_from(plugins, i, m, told).0),
    decreases plugins.len() - i,
{
    reveal(gradle_put);
    if i < plugins.len() {
        let from = plugin_shown(plugins[i].id);
        match plugin_language(plugins[i].id) {
            Some(language) if language != Language::Kotlin => {
                let next = with_library_language(m, told, language, from);
                if let Some(v) = library_version(m.dependencies, language, 0) {
                    lemma_language_put(m, told, language, v, from);
                }
                if let Some(v) = library_version(m.dev_dependencies, language, 0) {
                    lemma_language_put(m, told, language, v, from);
                }
                assert(gradle_put(next.0));
                lemma_library_languages_from(plugins, i + 1, next.0, next.1);
            },
            _ => {
                lemma_library_languages_from(plugins, i + 1, m, told);
            },
        }
    }
}

pub proof fn lemma_library_languages(plugins: Seq<PluginModel>, m: ManifestModel, told: ReportModel)
    requires
        gradle_put(m),
    ensures
        gradle_put(library_languages(plugins, m, told).0),
        library_languages(plugins, m, told).0.java.source == m.java.source,
        library_languages(plugins, m, told).0.java.target == m.java.target,
        library_languages(plugins, m, told).0.main_class == m.main_class || m.main_class is None,
{
    reveal(gradle_put);
    lemma_library_languages_from(plugins, 0, m, told);
    let (a, told) = library_languages_from(plugins, 0, m, told);
    lemma_unimplied(a.dependencies, a.languages, 0, seq![], told);
}

// ---- [managed] -------------------------------------------------------------

proof fn lemma_pin(m: ManifestModel, d: DependencyModel, bom: bool)
    requires
        gradle_put(m),
    ensures
        gradle_put(
            with_managed(m, d.group, d.artifact, d.version, bom),
        ),
{
    reveal(gradle_put);
    lemma_managed_put(m, d.group, d.artifact, d.version, bom);
}

proof fn lemma_management(statements: Seq<Seq<char>>, i: int, p: PinsModel)
    requires
        0 <= i,
        gradle_put(p.m),
    ensures
        gradle_put(management_from(statements, i, p).m),
        same_tables(p.m, management_from(statements, i, p).m),
    decreases statements.len() - i,
{
    reveal(gradle_put);
    if i < statements.len() {
        let s = trimmed(statements[i]);
        if let Some(d) = stated_gav(s) {
            lemma_pin(p.m, d, true);
            lemma_pin(p.m, d, false);
        }
        lemma_management(statements, i + 1, with_management(p, s));
    }
}

proof fn lemma_constraint(p: PinsModel, statement: Seq<char>, plain: bool)
    requires
        gradle_put(p.m),
    ensures
        gradle_put(with_constraint(p, statement, plain).m),
        same_tables(p.m, with_constraint(p, statement, plain).m),
{
    reveal(gradle_put);
    if let Some(d) = stated_gav(statement) {
        lemma_pin(p.m, d, false);
    }
}

proof fn lemma_constraints(statements: Seq<Seq<char>>, i: int, p: PinsModel)
    requires
        0 <= i,
        gradle_put(p.m),
    ensures
        gradle_put(constraints_from(statements, i, p).m),
        same_tables(p.m, constraints_from(statements, i, p).m),
    decreases statements.len() - i,
{
    if i < statements.len() {
        let s = trimmed(statements[i]);
        lemma_constraint(p, s, true);
        lemma_constraints(statements, i + 1, with_constraint(p, s, true));
    }
}

proof fn lemma_managed_lines(
    lines: Seq<Seq<char>>,
    i: int,
    depth: int,
    boot: Option<Seq<char>>,
    catalog: Seq<(Seq<char>, DependencyModel)>,
    p: PinsModel,
)
    requires
        0 <= i,
        gradle_put(p.m),
    ensures
        gradle_put(managed_lines_from(lines, i, depth, boot, catalog, p).m),
        same_tables(p.m, managed_lines_from(lines, i, depth, boot, catalog, p).m),
    decreases lines.len() - i,
{
    reveal(gradle_put);
    if i < lines.len() {
        let line = trimmed(lines[i]);
        let deep = deeper(depth, line);
        if depth > 0 {
            let plain = tally(line, '{') == 0;
            lemma_constraint(p, line, plain);
            lemma_managed_lines(
                lines,
                i + 1,
                deep,
                boot,
                catalog,
                with_constraint(p, line, plain),
            );
        } else {
            match constraints_rest(line) {
                Some(rest) => {
                    let parts = parts_of(rest, Class::Neither('}', ';'));
                    lemma_constraints(parts, 0, p);
                    lemma_managed_lines(
                        lines,
                        i + 1,
                        deeper(0, line),
                        boot,
                        catalog,
                        constraints_from(parts, 0, p),
                    );
                },
                None => {
                    if let Some(argument) = platform_in(line) {
                        if let Some(d) = platform_bom(argument, boot, catalog) {
                            lemma_pin(p.m, d, true);
                        }
                    }
                    lemma_managed_lines(
                        lines,
                        i + 1,
                        0,
                        boot,
                        catalog,
                        with_platform(p, line, boot, catalog),
                    );
                },
            }
        }
    }
}

proof fn lemma_one_flag(args: Seq<Seq<char>>, flag: Seq<char>)
    requires
        all_flags(args),
        flag == "-parameters"@ || flag == "-proc:full"@,
    ensures
        all_flags(args.push(flag)),
{
    reveal_strlit("-");
    reveal_strlit("-parameters");
    reveal_strlit("-proc:full");
    let next = args.push(flag);
    assert(flag.subrange(0, 1) =~= "-"@);
    assert forall|k: int| 0 <= k < next.len() implies starts(#[trigger] next[k], "-"@) by {
        if k < args.len() {
            assert(next[k] == args[k]);
        }
    }
}

proof fn lemma_boot(
    plugins: Seq<PluginModel>,
    class: Option<Seq<char>>,
    m: ManifestModel,
    told: ReportModel,
)
    requires
        gradle_put(m),
    ensures
        gradle_put(boot_read(plugins, class, m, told).0),
        same_tables(m, boot_read(plugins, class, m, told).0),
{
    reveal(gradle_put);
    lemma_one_flag(m.java.javac_args, "-parameters"@);
    if let Some(boot) = plugin_named(
        plugins,
        SPRING_BOOT_GROUP@,
        0,
    ) {
        if let Some(version) = boot.version {
            lemma_managed_put(
                m,
                SPRING_BOOT_GROUP@,
                SPRING_BOOT_BOM@,
                version,
                true,
            );
        }
    }
}

pub proof fn lemma_managed(
    script: Seq<char>,
    plugins: Seq<PluginModel>,
    catalog: Seq<(Seq<char>, DependencyModel)>,
    class: Option<Seq<char>>,
    m: ManifestModel,
    told: ReportModel,
)
    requires
        gradle_put(m),
    ensures
        gradle_put(managed_read(script, plugins, catalog, class, m, told).0),
        same_tables(m, managed_read(script, plugins, catalog, class, m, told).0),
{
    lemma_boot(plugins, class, m, told);
    let (a, told) = boot_read(plugins, class, m, told);
    let start = PinsModel { m: a, told, pinned: 0 };
    let statements = management_statements(script);
    lemma_management(statements, 0, start);
    lemma_managed_lines(
        top_lines("dependencies"@, script),
        0,
        0,
        boot_version(plugins),
        catalog,
        management_from(statements, 0, start),
    );
}

// ---- [dependencies] --------------------------------------------------------

/// Dependencies as a migration puts them in a table, of tests or not.
pub open spec fn put_table(list: Seq<DependencyModel>, test: bool) -> bool {
    &&& keys_distinct(list)
    &&& switched(list)
    &&& test ==> unswitched(list)
}

pub proof fn lemma_place(list: Seq<DependencyModel>, key: Seq<char>, i: int)
    requires
        0 <= i,
    ensures
        key_place(list, key, i) matches Some(k) ==> i <= k < list.len() && list[k].key() == key,
        key_place(list, key, i) is None ==> forall|k: int|
            i <= k < list.len() ==> (#[trigger] list[k]).key() != key,
    decreases list.len() - i,
{
    if i < list.len() {
        lemma_place(list, key, i + 1);
    }
}

/// A dependency that changes in place, but for its key, leaves a table as it was.
proof fn lemma_changed(list: Seq<DependencyModel>, i: int, d: DependencyModel, test: bool)
    requires
        put_table(list, test),
        0 <= i < list.len(),
        d.key() == list[i].key(),
        !(d.compile_only && d.runtime_only),
        test ==> !d.compile_only && !d.runtime_only,
    ensures
        put_table(list.update(i, d), test),
{
    let next = list.update(i, d);
    assert forall|k: int| 0 <= k < next.len() implies (#[trigger] next[k]).key() == list[k].key()
        && !(next[k].compile_only && next[k].runtime_only) && (test ==> !next[k].compile_only
        && !next[k].runtime_only) by {
        if k != i {
            assert(next[k] == list[k]);
        }
    }
    assert forall|a: int, b: int| 0 <= a < b < next.len() implies (#[trigger] next[a]).key() != (
    #[trigger] next[b]).key() by {
        assert(list[a].key() != list[b].key());
    }
}

proof fn lemma_added(
    list: Seq<DependencyModel>,
    target: Target,
    dep: DependencyModel,
    config: Seq<char>,
    told: ReportModel,
)
    requires
        put_table(list, target == Target::Test),
    ensures
        put_table(added(list, target, dep, config, told).0, target == Target::Test),
        0 <= added(list, target, dep, config, told).1 < added(list, target, dep, config, told).0.len(),
{
    let test = target == Target::Test;
    let d = aimed(dep, target);
    lemma_place(list, d.key(), 0);
    match key_place(list, d.key(), 0) {
        Some(i) => {
            lemma_changed(list, i, widened(list[i], d, target), test);
        },
        None => {
            let next = list.push(d);
            assert forall|k: int| 0 <= k < next.len() implies !((#[trigger] next[k]).compile_only
                && next[k].runtime_only) && (test ==> !next[k].compile_only
                && !next[k].runtime_only) by {
                if k < list.len() {
                    assert(next[k] == list[k]);
                }
            }
            assert forall|a: int, b: int| 0 <= a < b < next.len() implies (
            #[trigger] next[a]).key() != (#[trigger] next[b]).key() by {
                assert(next[a] == list[a]);
                if b < list.len() {
                    assert(next[b] == list[b]);
                }
            }
        },
    }
}

proof fn lemma_tables(m: ManifestModel, target: Target, list: Seq<DependencyModel>)
    requires
        gradle_put(m),
    ensures
        put_table(table(m, target), target == Target::Test),
        put_table(list, target == Target::Test) ==> gradle_put(with_table(m, target, list)),
{
    reveal(gradle_put);
}

proof fn lemma_pushed(
    m: ManifestModel,
    target: Target,
    dep: DependencyModel,
    config: Seq<char>,
    told: ReportModel,
)
    requires
        gradle_put(m),
    ensures
        gradle_put(pushed(m, target, dep, config, told).0),
        0 <= pushed(m, target, dep, config, told).1 < table(
            pushed(m, target, dep, config, told).0,
            target,
        ).len(),
        pushed(m, target, dep, config, told).0.java == m.java,
        pushed(m, target, dep, config, told).0.main_class == m.main_class,
{
    reveal(gradle_put);
    let list = added(table(m, target), target, dep, config, told).0;
    lemma_tables(m, target, list);
    lemma_added(table(m, target), target, dep, config, told);
}

proof fn lemma_jars(
    jars: Seq<DependencyModel>,
    i: int,
    m: ManifestModel,
    target: Target,
    config: Seq<char>,
    told: ReportModel,
)
    requires
        0 <= i,
        gradle_put(m),
    ensures
        gradle_put(jars_pushed(jars, i, m, target, config, told).0),
        jars_pushed(jars, i, m, target, config, told).0.java == m.java,
        jars_pushed(jars, i, m, target, config, told).0.main_class == m.main_class,
    decreases jars.len() - i,
{
    if i < jars.len() {
        let dep = jars[i];
        let taken = other_keys(table(m, target), dep.path, 0, seq![]);
        lemma_pushed(
            m,
            target,
            DependencyModel { artifact: fresh(taken, dep.artifact), ..dep },
            config,
            told,
        );
        let (next, more) = pushed_local(m, target, dep, config, told);
        lemma_jars(jars, i + 1, next, target, config, more);
    }
}

proof fn lemma_exclusion(m: ManifestModel, target: Target, i: int, e: (Seq<char>, Seq<char>))
    requires
        gradle_put(m),
        0 <= i < table(m, target).len(),
    ensures
        gradle_put(with_exclusion(m, target, i, e)),
        table(with_exclusion(m, target, i, e), target).len() == table(m, target).len(),
        with_exclusion(m, target, i, e).java == m.java,
        with_exclusion(m, target, i, e).main_class == m.main_class,
{
    reveal(gradle_put);
    let list = table(m, target);
    let d = DependencyModel { exclusions: list[i].exclusions.push(e), ..list[i] };
    lemma_tables(m, target, list.update(i, d));
    lemma_changed(list, i, d, target == Target::Test);
}

/// What holds of the manifest between the lines of a block, and where the
/// closure that is open stands.
pub open spec fn put_state(s: DepsModel) -> bool {
    &&& gradle_put(s.m)
    &&& s.closure matches Some((target, i, _)) ==> 0 <= i < table(s.m, target).len()
}

proof fn lemma_declared(
    s: DepsModel,
    line: Seq<char>,
    config: Seq<char>,
    target: Target,
    c: ContextModel,
)
    requires
        put_state(s),
        s.closure is None,
    ensures
        put_state(with_declared(s, line, config, target, c)),
        with_declared(s, line, config, target, c).m.java == s.m.java,
        with_declared(s, line, config, target, c).m.main_class == s.m.main_class,
{
    let (declaration, closure) = without_closure(line);
    let (jars, told) = files_read(line, c.files, s.told);
    match jars {
        Some(jars) => {
            lemma_jars(jars, 0, s.m, target, config, told);
        },
        None => {
            let (dep, told) = declaration_of(declaration, config, c, told);
            if let Some(dep) = dep {
                lemma_pushed(s.m, target, with_inline(dep, closure), config, told);
            }
        },
    }
}

proof fn lemma_line(s: DepsModel, raw: Seq<char>, c: ContextModel)
    requires
        put_state(s),
    ensures
        put_state(with_line(s, raw, c)),
        with_line(s, raw, c).m.java == s.m.java,
        with_line(s, raw, c).m.main_class == s.m.main_class,
{
    let line = trimmed(raw);
    match s.closure {
        Some((target, index, depth)) => {
            if let Some(e) = exclusion_of(line) {
                lemma_exclusion(s.m, target, index, e);
            }
        },
        None => {
            if let Some(config) = first_word(line) {
                if let Some(target) = target_of(config) {
                    lemma_declared(s, line, config, target, c);
                }
            }
        },
    }
}

proof fn lemma_block(lines: Seq<Seq<char>>, i: int, s: DepsModel, c: ContextModel)
    requires
        0 <= i,
        put_state(s),
    ensures
        put_state(block_from(lines, i, s, c)),
        block_from(lines, i, s, c).m.java == s.m.java,
        block_from(lines, i, s, c).m.main_class == s.m.main_class,
    decreases lines.len() - i,
{
    if i < lines.len() {
        lemma_line(s, lines[i], c);
        lemma_block(lines, i + 1, with_line(s, lines[i], c), c);
    }
}

pub proof fn lemma_dependencies(
    script: Seq<char>,
    catalog: Seq<(Seq<char>, DependencyModel)>,
    files: FilesModel,
    m: ManifestModel,
    told: ReportModel,
)
    requires
        gradle_put(m),
    ensures
        gradle_put(dependencies_read(script, catalog, files, m, told).0),
        dependencies_read(script, catalog, files, m, told).0.java.source == m.java.source,
        dependencies_read(script, catalog, files, m, told).0.java.target == m.java.target,
        dependencies_read(script, catalog, files, m, told).0.main_class == m.main_class,
{
    reveal(gradle_put);
    let start = DepsModel { m, told, processors: seq![], closure: None, constraints: 0 };
    let c = ContextModel {
        kotlin: kotlin_version(m),
        managed: m.managed.len() > 0,
        catalog,
        files,
    };
    let lines = top_lines("dependencies"@, script);
    lemma_block(lines, 0, start, c);
    lemma_one_flag(block_from(lines, 0, start, c).m.java.javac_args, "-proc:full"@);
}

// ---- [run] and [test] ------------------------------------------------------

proof fn lemma_mockito(agents: Seq<(Seq<char>, Seq<char>)>)
    requires
        good_agents(agents),
    ensures
        good_agents(with_mockito(agents)),
{
    reveal_strlit("org.mockito");
    reveal_strlit("mockito-core");
    let agent = ("org.mockito"@, "mockito-core"@);
    if !agents.contains(agent) {
        let next = agents.push(agent);
        assert forall|i: int| 0 <= i < next.len() implies solid((#[trigger] next[i]).0) && solid(
            next[i].1,
        ) && !includes(next[i].0, ':') && !includes(next[i].1, ':') by {
            if i < agents.len() {
                assert(next[i] == agents[i]);
            }
        }
        assert forall|i: int, j: int| 0 <= i < j < next.len() implies #[trigger] next[i]
            != #[trigger] next[j] by {
            assert(next[i] == agents[i]);
            if j < agents.len() {
                assert(next[j] == agents[j]);
            }
        }
    }
}

proof fn lemma_agents(
    agents: Seq<Seq<char>>,
    i: int,
    run: bool,
    m: ManifestModel,
    told: ReportModel,
)
    requires
        0 <= i,
        gradle_put(m),
    ensures
        gradle_put(with_agents(agents, i, run, m, told).0),
        same_tables(m, with_agents(agents, i, run, m, told).0),
    decreases agents.len() - i,
{
    reveal(gradle_put);
    if i < agents.len() {
        lemma_mockito(m.run.java_agents);
        lemma_mockito(m.test.java_agents);
        let (next, more) = with_agent(m, told, run, agents[i]);
        assert(gradle_put(next));
        lemma_agents(agents, i + 1, run, next, more);
    }
}

proof fn lemma_run_args(script: Seq<char>, m: ManifestModel, told: ReportModel)
    requires
        gradle_put(m),
    ensures
        gradle_put(run_args_read(script, m, told).0),
        same_tables(m, run_args_read(script, m, told).0),
{
    reveal(gradle_put);
    if let Some(line) = run_args_line(line_seq(script), 0) {
        lemma_agents(parted(literals_of(line), true), 0, true, m, told);
    }
}

proof fn lemma_test_lines(lines: Seq<Seq<char>>, i: int, t: TestArgsModel)
    requires
        0 <= i,
        gradle_put(t.m),
    ensures
        gradle_put(test_lines_from(lines, i, t).m),
        same_tables(t.m, test_lines_from(lines, i, t).m),
    decreases lines.len() - i,
{
    reveal(gradle_put);
    if i < lines.len() {
        let next = with_test_line(t, lines[i]);
        assert(gradle_put(next.m));
        lemma_test_lines(lines, i + 1, next);
    }
}

pub proof fn lemma_jvm_args(script: Seq<char>, m: ManifestModel, told: ReportModel)
    requires
        gradle_put(m),
    ensures
        gradle_put(jvm_args_read(script, m, told).0),
        same_tables(m, jvm_args_read(script, m, told).0),
{
    reveal(gradle_put);
    lemma_run_args(script, m, told);
    let (a, more) = run_args_read(script, m, told);
    let start = TestArgsModel { m: a, told: more, args: seq![], agents: seq![] };
    let lines = lines_inside(BlockModel::Test, script);
    lemma_test_lines(lines, 0, start);
    let t = test_lines_from(lines, 0, start);
    let (b, last) = if t.args.len() > 0 {
        (
            ManifestModel { test: TestModel { jvm_args: t.args, ..t.m.test }, ..t.m },
            t.told.with_migrated("test.jvm-args = "@ + debug_list_form(t.args)),
        )
    } else {
        (t.m, t.told)
    };
    assert(gradle_put(b));
    lemma_agents(t.agents, 0, false, b, last);
}

proof fn lemma_no_env_fault(env: Seq<(Seq<char>, TemplateModel)>, section: Seq<char>, i: int)
    requires
        0 <= i <= env.len(),
    ensures
        env_fault_from(env, section, i) is None <==> forall|k: int|
            i <= k < env.len() ==> task_placeholder_fault(
                (#[trigger] env[k]).1,
                section + ".env."@ + env[k].0,
            ) is None,
    decreases env.len() - i,
{
    if i < env.len() {
        lemma_no_env_fault(env, section, i + 1);
        assert(env[i] == env[i]);
    }
}

/// A variable that a script sets to a text leaves an environment that can be
/// loaded.
proof fn lemma_jvm_variable(
    env: Seq<(Seq<char>, TemplateModel)>,
    section: Seq<char>,
    name: Seq<char>,
    value: Seq<char>,
)
    requires
        good_jvm_env(env, section),
        name.len() > 0,
        !includes(name, '='),
        !includes(name, '\0'),
        !starts(capital(name), "JRS_"@),
    ensures
        good_jvm_env(with_variable(env, name, literal_template(value)), section),
{
    let t = literal_template(value);
    lemma_literals(seq![value]);
    assert(literal_templates(seq![value])[0] == t);
    lemma_with_variable(env, name, t);
    let next = with_variable(env, name, t);
    lemma_no_env_fault(env, section, 0);
    lemma_no_env_fault(next, section, 0);
    assert forall|k: int| 0 <= k < next.len() implies task_placeholder_fault(
        (#[trigger] next[k]).1,
        section + ".env."@ + next[k].0,
    ) is None by {
        if next[k] != (name, t) {
            let j = choose|j: int| 0 <= j < env.len() && #[trigger] env[j] == next[k];
            assert(env[j] == next[k]);
        }
    }
}

proof fn lemma_setting(state: StateModel, run: bool, stmt: StmtModel)
    requires
        gradle_put(state.0),
    ensures
        gradle_put(setting_read(state, run, stmt).0),
        same_tables(state.0, setting_read(state, run, stmt).0),
{
    reveal(gradle_put);
    let text = stmt.head;
    let rest = sans_head(text, Class::Dotted);
    if let Ok((name, value)) = variable_of(rest) {
        lemma_jvm_variable(state.0.run.env, "run"@, name, value);
        lemma_jvm_variable(state.0.test.env, "test"@, name, value);
        let next = environment_read(state, run, text, rest).0;
        assert(good_run(next.run));
        assert(good_test(next.test));
        assert(gradle_put(next));
    }
    if let Ok(dir) = working_dir_of(rest) {
        lemma_literals(seq![dir]);
        assert(literal_templates(seq![dir])[0] == literal_template(dir));
        let next = working_dir_read(state, text, rest).0;
        assert(good_jvm_cwd(next.run.cwd, "run"@));
        assert(gradle_put(next));
    }
}

proof fn lemma_block_settings(state: StateModel, run: bool, stmts: Seq<StmtModel>, i: int)
    requires
        0 <= i,
        gradle_put(state.0),
    ensures
        gradle_put(block_settings(state, run, stmts, i).0),
        same_tables(state.0, block_settings(state, run, stmts, i).0),
    decreases stmts.len() - i,
{
    if i < stmts.len() {
        lemma_setting(state, run, stmts[i]);
        lemma_block_settings(setting_read(state, run, stmts[i]), run, stmts, i + 1);
    }
}

pub proof fn lemma_blocks(state: StateModel, stmts: Seq<StmtModel>, i: int)
    requires
        0 <= i,
        gradle_put(state.0),
    ensures
        gradle_put(blocks_read(state, stmts, i).0),
        same_tables(state.0, blocks_read(state, stmts, i).0),
    decreases stmts.len() - i,
{
    if i < stmts.len() {
        match jvm_block(stmts[i]) {
            Some(run) => {
                let inner = statements_of(stmts[i].block->0);
                lemma_block_settings(state, run, inner, 0);
                lemma_blocks(block_settings(state, run, inner, 0), stmts, i + 1);
            },
            None => {
                lemma_blocks(state, stmts, i + 1);
            },
        }
    }
}

// ---- [package] -------------------------------------------------------------

proof fn lemma_attribute(
    m: ManifestModel,
    told: ReportModel,
    name: Seq<char>,
    expression: Seq<char>,
)
    requires
        gradle_put(m),
    ensures
        gradle_put(with_attribute(m, told, name, expression).0),
        same_tables(m, with_attribute(m, told, name, expression).0),
{
    reveal(gradle_put);
    if let Some(raw) = value_of(expression) {
        let list = m.package.manifest;
        if name_alike(list, name, 0) is None {
            if let Ok(template) = attribute_of(name, raw) {
                let more = list.push((name, template));
                assert forall|k: int| 0 <= k < more.len() implies attribute_of(
                    (#[trigger] more[k]).0,
                    more[k].1.raw,
                ) == Ok::<TemplateModel, Fault>(more[k].1) && name_alike(
                    more.take(k),
                    more[k].0,
                    0,
                ) is None by {
                    if k < list.len() {
                        assert(more[k] == list[k]);
                        assert(more.take(k) =~= list.take(k));
                    } else {
                        assert(more.take(k) =~= list);
                    }
                }
                assert(good_attributes(more));
            }
        }
    }
}

pub proof fn lemma_attributes(
    pairs: Seq<(Seq<char>, Seq<char>)>,
    i: int,
    m: ManifestModel,
    told: ReportModel,
)
    requires
        0 <= i,
        gradle_put(m),
    ensures
        gradle_put(with_attributes(pairs, i, m, told).0),
        same_tables(m, with_attributes(pairs, i, m, told).0),
    decreases pairs.len() - i,
{
    if i < pairs.len() {
        lemma_attribute(m, told, pairs[i].0, pairs[i].1);
        let (next, more) = with_attribute(m, told, pairs[i].0, pairs[i].1);
        lemma_attributes(pairs, i + 1, next, more);
    }
}

// ---- [repositories] --------------------------------------------------------

proof fn lemma_each_pattern(list: Seq<Seq<char>>, more: Seq<Seq<char>>, i: int)
    requires
        0 <= i,
        all_good(list),
        all_good(more),
    ensures
        all_good(with_each(list, more, i)),
    decreases more.len() - i,
{
    if i < more.len() {
        let next = once_more(list, more[i]);
        assert(good_pattern(more[i]));
        assert forall|k: int| 0 <= k < next.len() implies good_pattern(#[trigger] next[k]) by {
            if k < list.len() {
                assert(next[k] == list[k]);
            }
        }
        lemma_each_pattern(next, more, i + 1);
    }
}

proof fn lemma_filters(statements: Seq<Seq<char>>, i: int, name: Seq<char>, g: GroupsModel)
    requires
        0 <= i,
        all_good(g.groups),
    ensures
        all_good(filters_from(statements, i, name, g).groups),
    decreases statements.len() - i,
{
    if i < statements.len() {
        let line = trimmed(statements[i]);
        if let FilterModel::Groups(patterns, approx) = filter_of(line) {
            if all_good(patterns) {
                lemma_each_pattern(g.groups, patterns, 0);
            }
        }
        lemma_filters(statements, i + 1, name, with_filter(g, line, name));
    }
}

proof fn lemma_no_bad_pattern(groups: Seq<Seq<char>>, i: int)
    requires
        0 <= i,
        all_good(groups),
    ensures
        bad_pattern_from(groups, i) is None,
    decreases groups.len() - i,
{
    if i < groups.len() {
        assert(good_pattern(groups[i]));
        lemma_no_bad_pattern(groups, i + 1);
    }
}

proof fn lemma_entry(lines: Seq<Seq<char>>, told: ReportModel)
    ensures
        entry_of(lines, told).0 matches Some(r) ==> good_repository(r),
{
    if let Some(line) = url_line_from(lines, 0) {
        if let Some(raw) = first_of(line) {
            let url = sans_tail(raw, Class::One('/'));
            lemma_tail_once(raw, Class::One('/'));
            let name = name_of_url(url);
            lemma_filters(
                statements_from(lines, 0, seq![]),
                0,
                name,
                GroupsModel { groups: seq![], approximate: seq![], told },
            );
            lemma_no_bad_pattern(groups_of(lines, name, told).groups, 0);
        }
    }
}

proof fn lemma_entries(
    entries: Seq<Seq<Seq<char>>>,
    i: int,
    repos: Seq<RepositoryModel>,
    told: ReportModel,
)
    requires
        0 <= i,
        put_repositories(repos),
    ensures
        put_repositories(repositories_from(entries, i, repos, told).0),
    decreases entries.len() - i,
{
    if i < entries.len() {
        let (repo, next) = entry_of(entries[i], told);
        lemma_entry(entries[i], told);
        if repo is Some && repo->0.url != CENTRAL_URL@ {
            let more = with_repository(repos, repo->0);
            assert forall|k: int| 0 <= k < more.len() implies good_repository(#[trigger] more[k])
                && !whole_central(more[k]) by {
                if k < repos.len() {
                    assert(more[k] == repos[k]);
                }
            }
            lemma_entries(entries, i + 1, more, next);
        } else {
            lemma_entries(entries, i + 1, repos, next);
        }
    }
}

/// The repositories of a script can be loaded.
proof fn lemma_repositories(script: Seq<char>, told: ReportModel)
    ensures
        good_repositories(repositories_of(script, told).0),
{
    let all = entries_from(top_lines("repositories"@, script), 0, 0, seq![]);
    let list = repositories_of(script, told).0;
    let own = repositories_from(all, 0, seq![], told).0;
    declared_repositories_are_apart(script, told);
    lemma_entries(all, 0, seq![], told);
    assert(list.drop_last() =~= own);
    assert forall|k: int| 0 <= k < list.len() - 1 implies good_repository(#[trigger] list[k])
        && !whole_central(list[k]) by {
        assert(list[k] == own[k]);
    }
    assert forall|i: int, j: int| 0 <= i < j < own.len() implies (#[trigger] own[i]).name != (
    #[trigger] own[j]).name by {
        assert(names_of(own)[i] != names_of(own)[j]);
    }
}

// ---- the whole -------------------------------------------------------------

/// What a Gradle build's words have to be for its manifest to be loaded: the
/// words that any build decides, and Groovy's plugin, where both stand, after
/// Scala's.
pub open spec fn gradle_words(m: ManifestModel) -> bool {
    worded(m) && languages_in_order(m.languages)
}

pub proof fn lemma_project(name: Seq<char>, script: Seq<char>, root: Seq<char>, told: ReportModel)
    ensures
        gradle_put(project_read(name, script, root, told).0),
        project_read(name, script, root, told).0.java.target is None,
{
    reveal(gradle_put);
    let version = match assigned_in(script, "version"@) {
        Some(v) => v,
        None => "0.1.0"@,
    };
    lemma_blank_put(name, version, root);
}

pub proof fn lemma_main(script: Seq<char>, m: ManifestModel, told: ReportModel)
    requires
        gradle_put(m),
    ensures
        gradle_put(main_read(script, m, told).0),
        same_dependencies(m, main_read(script, m, told).0),
        main_read(script, m, told).0.java == m.java,
{
    reveal(gradle_put);
}

pub proof fn lemma_proguard(plugins: Seq<PluginModel>, m: ManifestModel, told: ReportModel)
    requires
        gradle_put(m),
    ensures
        gradle_put(proguard_read(plugins, m, told).0),
        same_tables(m, proguard_read(plugins, m, told).0),
{
    reveal(gradle_put);
}

proof fn lemma_gradle_whole(
    m: ManifestModel,
    repositories: Seq<RepositoryModel>,
    tasks: Seq<TaskModel>,
    hooks: HookLists,
)
    requires
        gradle_put(m),
        good_repositories(repositories),
        good_tasks(tasks),
        good_hooks(m.hooks) ==> good_hooks(hooks),
        tasks_fault(tasks, hooks) is None,
        gradle_words(ManifestModel { repositories, tasks, hooks, ..m }),
    ensures
        good_manifest(ManifestModel { repositories, tasks, hooks, ..m }),
{
    reveal(gradle_put);
    let whole = ManifestModel { repositories, tasks, hooks, ..m };
    lemma_usual_dirs(whole);
    lemma_flags_checked(whole, 0, seq![]);
    lemma_put_together(whole);
}

/// What a Gradle build becomes can be loaded, where a manifest can hold the
/// build's words: whatever else the build says, its tables pass every check of
/// a document.
pub proof fn migrated_builds_load(b: BuildModel)
    requires
        gradle_words(migrated(b).manifest),
    ensures
        good_manifest(migrated(b).manifest),
{
    let told = ReportModel { preamble: Some(PREAMBLE@), ..empty_report() };
    let script = sans_comments(b.script);
    let (settings, told) = settings_read(b.settings, b.settings_kotlin, told);
    let (catalog, told0) = catalog_read(b.catalog, told);
    let name = name_or(settings.root_project_name, b.directory);
    let (m, told) = project_read(name, script, b.root, told0);
    lemma_project(name, script, b.root, told0);
    let plugins = plugins_of(script);
    lemma_java(script, m, told);
    let (m, told) = java_read(script, m, told);
    lemma_kotlin(script, plugins, m, told);
    let (m, told) = kotlin_read(script, plugins, m, told);
    lemma_main(script, m, told);
    let (m, told) = main_read(script, m, told);
    lemma_managed(script, plugins, catalog, b.application, m, told);
    let (m, told) = managed_read(script, plugins, catalog, b.application, m, told);
    lemma_dependencies(script, catalog, b.files, m, told);
    let (m, told) = dependencies_read(script, catalog, b.files, m, told);
    lemma_library_languages(plugins, m, told);
    let (m, told) = library_languages(plugins, m, told);
    lemma_jvm_args(script, m, told);
    let (m, told) = jvm_args_read(script, m, told);
    lemma_blocks((m, told), statements_of(script), 0);
    let (m, told) = blocks_read((m, told), statements_of(script), 0);
    lemma_attributes(pairs_from(manifest_text(script), 0, seq![]), 0, m, told);
    let (m, told) = jar_manifest_read(script, m, told);
    lemma_proguard(plugins, m, told);
    let (m, told) = proguard_read(plugins, m, told);
    lemma_repositories(script, told);
    let (repositories, told) = repositories_of(script, told);
    migrated_tasks_load(script, m.hooks, told);
    let (tasks, hooks, told) = tasks_read(script, m.hooks, told);
    let whole = ManifestModel { repositories, tasks, hooks, ..m };
    assert(migrated(b).manifest == whole);
    lemma_gradle_whole(m, repositories, tasks, hooks);
}

/// What a Gradle build becomes is what `jrs` reads once it is written: the text
/// that it is rendered to is read, and says the same. Its texts have to be ones
/// that can be quoted, with no release 0, no first variable or repository called
/// like the mark of a date, and no colon in a classifier.
pub proof fn migrated_builds_are_read_back(
    b: BuildModel,
    header: Option<Seq<char>>,
    path: Seq<char>,
    root: Seq<char>,
    read: Result<ManifestModel, Fault>,
)
    requires
        gradle_words(migrated(b).manifest),
        readable(migrated(b).manifest),
        plain_header(header),
        reads_back(rendered(migrated(b).manifest, header), path, root, read),
    ensures
        read matches Ok(m) && m.path == path && m.root == root && same_manifest(
            m,
            migrated(b).manifest,
        ),
{
    migrated_builds_load(b);
}

/// A manifest of a name, a version and the tasks of a script.
pub open spec fn tasks_alone(
    name: Seq<char>,
    version: Seq<char>,
    root: Seq<char>,
    script: Seq<char>,
    report: ReportModel,
) -> ManifestModel {
    let (tasks, hooks, _) = tasks_read(script, seq![], report);
    ManifestModel { tasks, hooks, ..blank_manifest(name, version, root) }
}

/// The tasks of a script, alone in a manifest with a name and a version, can be
/// loaded, whatever the script says.
pub proof fn migrated_tasks_load_alone(
    name: Seq<char>,
    version: Seq<char>,
    root: Seq<char>,
    script: Seq<char>,
    report: ReportModel,
)
    requires
        name_fault(name) is None,
        trimmed(version).len() > 0,
    ensures
        good_manifest(tasks_alone(name, version, root, script, report)),
{
    let m = tasks_alone(name, version, root, script, report);
    lemma_blank_put(name, version, root);
    migrated_tasks_load(script, seq![], report);
    lemma_usual_dirs(m);
    assert(m.repositories.drop_last() =~= seq![]);
    assert(languages_in_order(m.languages)) by {
        assert(m.languages =~= one_language(language_at(m.languages, Language::Kotlin, 0))
            + one_language(language_at(m.languages, Language::Scala, 0)) + one_language(
            language_at(m.languages, Language::Groovy, 0),
        ));
    }
    lemma_put_together(m);
}

/// The tasks of a script, alone in a manifest with a name and a version, are
/// what `jrs` reads once the manifest is written, where its texts can be quoted
/// and no task's first variable is called like the mark of a date.
pub proof fn migrated_tasks_are_read_back(
    name: Seq<char>,
    version: Seq<char>,
    root: Seq<char>,
    script: Seq<char>,
    report: ReportModel,
    path: Seq<char>,
    read: Result<ManifestModel, Fault>,
)
    requires
        name_fault(name) is None,
        trimmed(version).len() > 0,
        ({
            let m = tasks_alone(name, version, root, script, report);
            readable(m) && reads_back(rendered(m, None), path, root, read)
        }),
    ensures
        read matches Ok(m) && m.path == path && m.root == root && same_manifest(
            m,
            tasks_alone(name, version, root, script, report),
        ),
{
    migrated_tasks_load_alone(name, version, root, script, report);
}

} // verus!
