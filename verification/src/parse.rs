//! Reading a manifest.

use crate::attributes::{attribute_table, parse_jar_attributes};
use crate::check::{check_tasks, tasks_fault};
use crate::coord::{is_range, range};
use crate::dependency::{Dependency, DependencyModel};
use crate::error::{Fault, JrsError};
use crate::keys::{
    class_fault, count_of, coverage_minimum, key_warnings, minimum_warnings, minimums, name_fault,
    optional_count, optional_release, optional_string, optional_text, path_or, path_text,
    release_of, required_string, required_text, section, string_array, subtable, subtable_warnings,
    text_list, validate_class_name, validate_name, warn_unknown,
};
use crate::language::{
    foreign, groovy_javac_args, not_a_flag, not_a_flag_message, Language,
};
use crate::manifest::{
    default_java, default_package, default_run, default_test, JavaConfig, JavaModel, LanguageConfig,
    LanguageModel, Manifest, ManifestModel, ObfuscateConfig, ObfuscateModel, PackageConfig,
    PackageModel, RunConfig, RunModel, TestConfig, TestModel,
};
use crate::parse_dependencies::{
    check_versionless, dependency_table, has_key, keyed, managed_table, parse_dependencies,
    parse_managed, parse_repositories, repository_table, versionless_fault,
};
use crate::parse_tasks::{
    agents_of, hooks_of, hooks_warnings, jvm_cwd_of, jvm_env_of, parse_hooks, parse_java_agents,
    parse_jvm_cwd, parse_jvm_env, parse_tasks, tasks_of,
};
use crate::paths::{default_test_resource_dir, resources_beside};
use crate::reread_manifest::{
    from_document, good_manifest, lemma_reads_back, reads_back, what_was_read_can_be_said,
};
use crate::text::{
    capital, cat2, cat3, cat5, cat6, cat7, chars, decimal, none_of, outcome, put, put_all, replace,
    replaced, same, show, to_capital, trim, trimmed,
};
use crate::value::{document, entry, toml_document, Entries, Table};
use crate::version::{jrs_version_of, parse_jrs_version};
use vstd::prelude::*;

verus! {

// ---- `[project]` -----------------------------------------------------------

/// What `[project]` says.
pub struct ProjectModel {
    pub name: Seq<char>,
    pub version: Seq<char>,
    pub main_class: Option<Seq<char>>,
    pub source_dir: Seq<char>,
    pub test_dir: Seq<char>,
    pub resource_dir: Seq<char>,
    pub test_resource_dir: Seq<char>,
    pub target_dir: Seq<char>,
}

/// `[project]`, read.
struct Project {
    name: String,
    version: String,
    main_class: Option<String>,
    source_dir: String,
    test_dir: String,
    resource_dir: String,
    test_resource_dir: String,
    target_dir: String,
}

impl DeepView for Project {
    type V = ProjectModel;

    closed spec fn deep_view(&self) -> ProjectModel {
        ProjectModel {
            name: self.name@,
            version: self.version@,
            main_class: self.main_class.deep_view(),
            source_dir: self.source_dir@,
            test_dir: self.test_dir@,
            resource_dir: self.resource_dir@,
            test_resource_dir: self.test_resource_dir@,
            target_dir: self.target_dir@,
        }
    }
}

/// The directories of a project.
pub open spec fn directories_of(
    t: Entries,
    name: Seq<char>,
    version: Seq<char>,
    main_class: Option<Seq<char>>,
) -> Result<ProjectModel, Fault> {
    match path_text(t, "source-dir"@, "src/main/java"@, "project"@) {
        Err(e) => Err(e),
        Ok(source_dir) => match path_text(t, "test-dir"@, "src/test/java"@, "project"@) {
            Err(e) => Err(e),
            Ok(test_dir) => match path_text(
                t,
                "resource-dir"@,
                "src/main/resources"@,
                "project"@,
            ) {
                Err(e) => Err(e),
                Ok(resource_dir) => match path_text(t, "target-dir"@, "target"@, "project"@) {
                    Err(e) => Err(e),
                    Ok(target_dir) => {
                        let resources = if entry(t, "test-resource-dir"@) is Some {
                            path_text(t, "test-resource-dir"@, ""@, "project"@)
                        } else {
                            Ok(resources_beside(test_dir))
                        };
                        match resources {
                            Err(e) => Err(e),
                            Ok(test_resource_dir) => Ok(
                                ProjectModel {
                                    name,
                                    version,
                                    main_class,
                                    source_dir,
                                    test_dir,
                                    resource_dir,
                                    test_resource_dir,
                                    target_dir,
                                },
                            ),
                        }
                    },
                },
            },
        },
    }
}

/// What a `[project]` table says.
pub open spec fn project_of(t: Entries) -> Result<ProjectModel, Fault> {
    match required_text(t, "name"@, "project"@) {
        Err(e) => Err(e),
        Ok(name) => match name_fault(name) {
            Some(e) => Err(e),
            None => match required_text(t, "version"@, "project"@) {
                Err(e) => Err(e),
                Ok(version) => if trimmed(version).len() == 0 {
                    Err(Fault::Manifest("`project.version` must not be empty"@))
                } else {
                    match optional_text(t, "main-class"@, "project"@) {
                        Err(e) => Err(e),
                        Ok(main_class) => {
                            let fault = match main_class {
                                Some(class) => class_fault(class, "project.main-class"@),
                                None => None,
                            };
                            match fault {
                                Some(e) => Err(e),
                                None => directories_of(t, name, version, main_class),
                            }
                        },
                    }
                },
            },
        },
    }
}

fn read_directories(t: &Table, name: String, version: String, main_class: Option<String>) -> (r: Result<
    Project,
    JrsError,
>)
    ensures
        outcome(r) == directories_of(
            t.deep_view(),
            name@,
            version@,
            main_class.deep_view(),
        ),
{
    let source_dir = match path_or(t, "source-dir", "src/main/java", "project") {
        Ok(x) => x,
        Err(e) => {
            return Err(e);
        },
    };
    let test_dir = match path_or(t, "test-dir", "src/test/java", "project") {
        Ok(x) => x,
        Err(e) => {
            return Err(e);
        },
    };
    let resource_dir = match path_or(t, "resource-dir", "src/main/resources", "project") {
        Ok(x) => x,
        Err(e) => {
            return Err(e);
        },
    };
    let target_dir = match path_or(t, "target-dir", "target", "project") {
        Ok(x) => x,
        Err(e) => {
            return Err(e);
        },
    };
    let test_resource_dir = if t.contains_key("test-resource-dir") {
        match path_or(t, "test-resource-dir", "", "project") {
            Ok(x) => x,
            Err(e) => {
                return Err(e);
            },
        }
    } else {
        default_test_resource_dir(test_dir.as_str())
    };
    Ok(
        Project {
            name,
            version,
            main_class,
            source_dir,
            test_dir,
            resource_dir,
            test_resource_dir,
            target_dir,
        },
    )
}

fn read_project(t: &Table) -> (r: Result<Project, JrsError>)
    ensures
        outcome(r) == project_of(t.deep_view()),
{
    let name = match required_string(t, "name", "project") {
        Ok(x) => x,
        Err(e) => {
            return Err(e);
        },
    };
    if let Some(e) = validate_name(name.as_str()) {
        return Err(e);
    }
    let version = match required_string(t, "version", "project") {
        Ok(x) => x,
        Err(e) => {
            return Err(e);
        },
    };
    if trim(version.as_str()).is_empty() {
        return Err(JrsError::Manifest("`project.version` must not be empty".to_owned()));
    }
    let main_class = match optional_string(t, "main-class", "project") {
        Ok(x) => x,
        Err(e) => {
            return Err(e);
        },
    };
    if let Some(class) = &main_class {
        if let Some(e) = validate_class_name(class.as_str(), "project.main-class") {
            return Err(e);
        }
    }
    read_directories(t, name, version, main_class)
}

// ---- `[java]`, `[run]`, `[test]`, `[package]` ------------------------------

/// What a `[java]` table says. `target` only means anything when it differs
/// from `source`.
pub open spec fn java_of(t: Entries) -> Result<JavaModel, Fault> {
    match release_of(t, "source"@) {
        Err(e) => Err(e),
        Ok(source) => match release_of(t, "target"@) {
            Err(e) => Err(e),
            Ok(given) => match optional_text(t, "encoding"@, "java"@) {
                Err(e) => Err(e),
                Ok(encoding) => match text_list(t, "javac-args"@, "java"@) {
                    Err(e) => Err(e),
                    Ok(javac_args) => match text_list(t, "javadoc-args"@, "java"@) {
                        Err(e) => Err(e),
                        Ok(javadoc_args) => match release_of(t, "jdk"@) {
                            Err(e) => Err(e),
                            Ok(jdk) => Ok(
                                JavaModel {
                                    source,
                                    target: if given == source {
                                        None
                                    } else {
                                        given
                                    },
                                    encoding: match encoding {
                                        Some(s) => s,
                                        None => "UTF-8"@,
                                    },
                                    javac_args,
                                    javadoc_args,
                                    jdk,
                                },
                            ),
                        },
                    },
                },
            },
        },
    }
}

/// The `[java]` table, its unknown keys already warned about.
pub fn java_config(t: &Table) -> (r: Result<JavaConfig, JrsError>)
    ensures
        outcome(r) == java_of(t.deep_view()),
{
    let source = match optional_release(t, "source") {
        Ok(x) => x,
        Err(e) => {
            return Err(e);
        },
    };
    let given = match optional_release(t, "target") {
        Ok(x) => x,
        Err(e) => {
            return Err(e);
        },
    };
    let encoding = match optional_string(t, "encoding", "java") {
        Ok(Some(s)) => s,
        Ok(None) => "UTF-8".to_owned(),
        Err(e) => {
            return Err(e);
        },
    };
    let javac_args = match string_array(t, "javac-args", "java") {
        Ok(x) => x,
        Err(e) => {
            return Err(e);
        },
    };
    let javadoc_args = match string_array(t, "javadoc-args", "java") {
        Ok(x) => x,
        Err(e) => {
            return Err(e);
        },
    };
    let jdk = match optional_release(t, "jdk") {
        Ok(x) => x,
        Err(e) => {
            return Err(e);
        },
    };
    let target: Option<u32> = match (given, source) {
        (Some(a), Some(b)) => if a == b {
            None
        } else {
            given
        },
        _ => given,
    };
    Ok(JavaConfig { source, target, encoding, javac_args, javadoc_args, jdk })
}

/// What a `[run]` table says.
pub open spec fn run_of(t: Entries) -> Result<RunModel, Fault> {
    match text_list(t, "jvm-args"@, "run"@) {
        Err(e) => Err(e),
        Ok(jvm_args) => match agents_of(t, "run"@) {
            Err(e) => Err(e),
            Ok(java_agents) => match jvm_env_of(t, "run"@) {
                Err(e) => Err(e),
                Ok(env) => match jvm_cwd_of(t, "run"@) {
                    Err(e) => Err(e),
                    Ok(cwd) => Ok(RunModel { jvm_args, java_agents, env, cwd }),
                },
            },
        },
    }
}

fn run_config(t: &Table) -> (r: Result<RunConfig, JrsError>)
    ensures
        outcome(r) == run_of(t.deep_view()),
{
    let jvm_args = match string_array(t, "jvm-args", "run") {
        Ok(x) => x,
        Err(e) => {
            return Err(e);
        },
    };
    let java_agents = match parse_java_agents(t, "run") {
        Ok(x) => x,
        Err(e) => {
            return Err(e);
        },
    };
    let env = match parse_jvm_env(t, "run") {
        Ok(x) => x,
        Err(e) => {
            return Err(e);
        },
    };
    let cwd = match parse_jvm_cwd(t, "run") {
        Ok(x) => x,
        Err(e) => {
            return Err(e);
        },
    };
    Ok(RunConfig { jvm_args, java_agents, env, cwd })
}

/// What a `[test]` table says.
pub open spec fn test_of(t: Entries) -> Result<TestModel, Fault> {
    match text_list(t, "jvm-args"@, "test"@) {
        Err(e) => Err(e),
        Ok(jvm_args) => match optional_text(t, "jacoco-version"@, "test"@) {
            Err(e) => Err(e),
            Ok(jacoco_version) => match agents_of(t, "test"@) {
                Err(e) => Err(e),
                Ok(java_agents) => match jvm_env_of(t, "test"@) {
                    Err(e) => Err(e),
                    Ok(env) => match count_of(t, "retries"@, "test"@) {
                        Err(e) => Err(e),
                        Ok(retries) => match count_of(t, "forks"@, "test"@) {
                            Err(e) => Err(e),
                            Ok(forks) => match minimums(t) {
                                Err(e) => Err(e),
                                Ok(coverage_minimum) => Ok(
                                    TestModel {
                                        jvm_args,
                                        jacoco_version,
                                        java_agents,
                                        env,
                                        retries,
                                        forks,
                                        coverage_minimum,
                                    },
                                ),
                            },
                        },
                    },
                },
            },
        },
    }
}

fn test_config(t: &Table, warnings: &mut Vec<String>) -> (r: Result<TestConfig, JrsError>)
    ensures
        outcome(r) == test_of(t.deep_view()),
        r is Ok ==> final(warnings).deep_view() == old(warnings).deep_view() + minimum_warnings(
            t.deep_view(),
        ),
{
    let jvm_args = match string_array(t, "jvm-args", "test") {
        Ok(x) => x,
        Err(e) => {
            return Err(e);
        },
    };
    let jacoco_version = match optional_string(t, "jacoco-version", "test") {
        Ok(x) => x,
        Err(e) => {
            return Err(e);
        },
    };
    let java_agents = match parse_java_agents(t, "test") {
        Ok(x) => x,
        Err(e) => {
            return Err(e);
        },
    };
    let env = match parse_jvm_env(t, "test") {
        Ok(x) => x,
        Err(e) => {
            return Err(e);
        },
    };
    let retries = match optional_count(t, "retries", "test") {
        Ok(x) => x,
        Err(e) => {
            return Err(e);
        },
    };
    let forks = match optional_count(t, "forks", "test") {
        Ok(x) => x,
        Err(e) => {
            return Err(e);
        },
    };
    let coverage_minimum = match coverage_minimum(t, warnings) {
        Ok(x) => x,
        Err(e) => {
            return Err(e);
        },
    };
    Ok(
        TestConfig {
            jvm_args,
            jacoco_version,
            java_agents,
            env,
            retries,
            forks,
            coverage_minimum,
        },
    )
}

/// What an `[obfuscate]` table says.
pub open spec fn obfuscate_of(t: Entries) -> Result<ObfuscateModel, Fault> {
    match required_text(t, "version"@, "obfuscate"@) {
        Err(e) => Err(e),
        Ok(version) => if trimmed(version).len() == 0 {
            Err(Fault::Manifest("`obfuscate.version` must not be empty"@))
        } else {
            match text_list(t, "keep"@, "obfuscate"@) {
                Err(e) => Err(e),
                Ok(keep) => match text_list(t, "proguard-args"@, "obfuscate"@) {
                    Err(e) => Err(e),
                    Ok(proguard_args) => Ok(ObfuscateModel { version, keep, proguard_args }),
                },
            }
        },
    }
}

/// `[obfuscate]`, where there is one.
pub open spec fn obfuscate_table(table: Entries) -> Result<Option<ObfuscateModel>, Fault> {
    match subtable(table, "obfuscate"@) {
        Err(e) => Err(e),
        Ok(None) => Ok(None),
        Ok(Some(t)) => match obfuscate_of(t) {
            Err(e) => Err(e),
            Ok(c) => Ok(Some(c)),
        },
    }
}

fn obfuscate_config(t: &Table) -> (r: Result<ObfuscateConfig, JrsError>)
    ensures
        outcome(r) == obfuscate_of(t.deep_view()),
{
    let version = match required_string(t, "version", "obfuscate") {
        Ok(x) => x,
        Err(e) => {
            return Err(e);
        },
    };
    if trim(version.as_str()).is_empty() {
        return Err(JrsError::Manifest("`obfuscate.version` must not be empty".to_owned()));
    }
    let keep = match string_array(t, "keep", "obfuscate") {
        Ok(x) => x,
        Err(e) => {
            return Err(e);
        },
    };
    let proguard_args = match string_array(t, "proguard-args", "obfuscate") {
        Ok(x) => x,
        Err(e) => {
            return Err(e);
        },
    };
    Ok(ObfuscateConfig { version, keep, proguard_args })
}

/// What a `[package]` table says.
pub open spec fn package_of(t: Entries) -> Result<PackageModel, Fault> {
    match text_list(t, "add-modules"@, "package"@) {
        Err(e) => Err(e),
        Ok(add_modules) => match attribute_table(t) {
            Err(e) => Err(e),
            Ok(manifest) => match text_list(t, "native-image-args"@, "package"@) {
                Err(e) => Err(e),
                Ok(native_image_args) => Ok(
                    PackageModel { add_modules, manifest, native_image_args },
                ),
            },
        },
    }
}

fn package_config(t: &Table) -> (r: Result<PackageConfig, JrsError>)
    ensures
        outcome(r) == package_of(t.deep_view()),
{
    let add_modules = match string_array(t, "add-modules", "package") {
        Ok(x) => x,
        Err(e) => {
            return Err(e);
        },
    };
    let manifest = match parse_jar_attributes(t) {
        Ok(x) => x,
        Err(e) => {
            return Err(e);
        },
    };
    let native_image_args = match string_array(t, "native-image-args", "package") {
        Ok(x) => x,
        Err(e) => {
            return Err(e);
        },
    };
    Ok(PackageConfig { add_modules, manifest, native_image_args })
}

// ---- languages -------------------------------------------------------------

pub open spec fn language_keys(language: Language) -> Seq<Seq<char>> {
    seq!["version"@, "source-dir"@, "test-dir"@, language.args_word(), "compiler-jvm-args"@]
}

/// The version that a language's table pins.
pub open spec fn language_version(language: Language, t: Entries) -> Result<Seq<char>, Fault> {
    let key = language.word();
    match entry(t, "version"@) {
        None => Err(
            Fault::Manifest(
                "["@ + key + "] needs `"@ + key + ".version`: the "@ + language.title()
                    + " compiler to build with, which is also the version of its runtime library\n\n    ["@
                    + key + "]\n    version = \""@ + language.starter() + "\""@,
            ),
        ),
        Some(v) => match v.text() {
            None => Err(
                Fault::Manifest("`"@ + key + ".version` must be a version string"@),
            ),
            Some(s) => {
                let version = trimmed(s);
                if version.len() == 0 {
                    Err(Fault::Manifest("`"@ + key + ".version` must not be empty"@))
                } else if range(version) {
                    Err(
                        Fault::Manifest(
                            "`"@ + key + ".version` is the range `"@ + version
                                + "`; the compiler is pinned at an exact version, like every dependency"@,
                        ),
                    )
                } else {
                    match language.refusal(version) {
                        Some(why) => Err(
                            Fault::Manifest(
                                "`"@ + key + ".version` is "@ + version + ": "@ + why,
                            ),
                        ),
                        None => Ok(version),
                    }
                }
            },
        },
    }
}

fn read_language_version(language: Language, t: &Table) -> (r: Result<String, JrsError>)
    ensures
        outcome(r) == language_version(language, t.deep_view()),
{
    let key = language.key();
    let Some(v) = t.get("version") else {
        let start = cat6(
            "[",
            key,
            "] needs `",
            key,
            ".version`: the ",
            language.name(),
        );
        return Err(
            JrsError::Manifest(
                cat6(
                    start.as_str(),
                    " compiler to build with, which is also the version of its runtime library\n\n    [",
                    key,
                    "]\n    version = \"",
                    language.starter_version(),
                    "\"",
                ),
            ),
        );
    };
    let Some(s) = v.as_str() else {
        return Err(JrsError::Manifest(cat3("`", key, ".version` must be a version string")));
    };
    let version = trim(s);
    if version.is_empty() {
        return Err(JrsError::Manifest(cat3("`", key, ".version` must not be empty")));
    }
    if is_range(version) {
        return Err(
            JrsError::Manifest(
                cat5(
                    "`",
                    key,
                    ".version` is the range `",
                    version,
                    "`; the compiler is pinned at an exact version, like every dependency",
                ),
            ),
        );
    }
    if let Some(why) = language.check_version(version) {
        return Err(
            JrsError::Manifest(cat6("`", key, ".version` is ", version, ": ", why.as_str())),
        );
    }
    Ok(version.to_owned())
}

/// What a language's table says.
pub open spec fn language_of(language: Language, t: Entries) -> Result<LanguageModel, Fault> {
    let key = language.word();
    match language_version(language, t) {
        Err(e) => Err(e),
        Ok(version) => match path_text(t, "source-dir"@, "src/main/"@ + key, key) {
            Err(e) => Err(e),
            Ok(source_dir) => match path_text(t, "test-dir"@, "src/test/"@ + key, key) {
                Err(e) => Err(e),
                Ok(test_dir) => match text_list(t, language.args_word(), key) {
                    Err(e) => Err(e),
                    Ok(compiler_args) => match text_list(t, "compiler-jvm-args"@, key) {
                        Err(e) => Err(e),
                        Ok(compiler_jvm_args) => Ok(
                            LanguageModel {
                                language,
                                version,
                                source_dir,
                                test_dir,
                                compiler_args,
                                compiler_jvm_args,
                            },
                        ),
                    },
                },
            },
        },
    }
}

fn read_language(language: Language, t: &Table) -> (r: Result<LanguageConfig, JrsError>)
    ensures
        outcome(r) == language_of(language, t.deep_view()),
{
    let key = language.key();
    let version = match read_language_version(language, t) {
        Ok(x) => x,
        Err(e) => {
            return Err(e);
        },
    };
    let source_dir = match path_or(t, "source-dir", cat2("src/main/", key).as_str(), key) {
        Ok(x) => x,
        Err(e) => {
            return Err(e);
        },
    };
    let test_dir = match path_or(t, "test-dir", cat2("src/test/", key).as_str(), key) {
        Ok(x) => x,
        Err(e) => {
            return Err(e);
        },
    };
    let compiler_args = match string_array(t, language.args_key(), key) {
        Ok(x) => x,
        Err(e) => {
            return Err(e);
        },
    };
    let compiler_jvm_args = match string_array(t, "compiler-jvm-args", key) {
        Ok(x) => x,
        Err(e) => {
            return Err(e);
        },
    };
    Ok(
        LanguageConfig {
            language,
            version,
            source_dir,
            test_dir,
            compiler_args,
            compiler_jvm_args,
        },
    )
}

/// The languages from the `i`th on that have a table, and the warnings that
/// reading the tables gives, after those before.
pub open spec fn languages_from(
    table: Entries,
    i: int,
    out: Seq<LanguageModel>,
    warnings: Seq<Seq<char>>,
) -> Result<(Seq<LanguageModel>, Seq<Seq<char>>), Fault>
    decreases foreign().len() - i,
{
    if i < 0 || i >= foreign().len() {
        Ok((out, warnings))
    } else {
        let language = foreign()[i];
        match subtable(table, language.word()) {
            Err(e) => Err(e),
            Ok(None) => languages_from(table, i + 1, out, warnings),
            Ok(Some(t)) => match language_of(language, t) {
                Err(e) => Err(e),
                Ok(config) => languages_from(
                    table,
                    i + 1,
                    out.push(config),
                    warnings + key_warnings(t, language_keys(language), language.word() + "."@),
                ),
            },
        }
    }
}

/// `[kotlin]`, `[scala]` and `[groovy]`, each on its own: a version the
/// compiler can be pinned at, and the directories and flags; and the warnings
/// about unknown keys.
pub fn parse_languages(table: &Table) -> (r: Result<(Vec<LanguageConfig>, Vec<String>), JrsError>)
    ensures
        outcome(r) == languages_from(table.deep_view(), 0, seq![], seq![]),
{
    let all: Vec<Language> = vec![Language::Kotlin, Language::Scala, Language::Groovy];
    assert(all@ =~= foreign());
    let mut out: Vec<LanguageConfig> = none_of();
    let mut warnings: Vec<String> = none_of();
    let mut i: usize = 0;
    while i < all.len()
        invariant
            all@ == foreign(),
            i <= all@.len(),
            languages_from(table.deep_view(), 0, seq![], seq![]) == languages_from(
                table.deep_view(),
                i as int,
                out.deep_view(),
                warnings.deep_view(),
            ),
        decreases all@.len() - i,
    {
        let language: Language = all[i];
        let known: Vec<&str> = vec![
            "version",
            "source-dir",
            "test-dir",
            language.args_key(),
            "compiler-jvm-args",
        ];
        assert(known.deep_view() =~= language_keys(language));
        let ghost before = warnings.deep_view();
        let t = match section(table, language.key(), &known, &mut warnings) {
            Ok(t) => t,
            Err(e) => {
                return Err(e);
            },
        };
        if let Some(t) = t {
            match read_language(language, t) {
                Ok(config) => {
                    put(&mut out, config);
                },
                Err(e) => {
                    return Err(e);
                },
            }
        } else {
            assert(warnings.deep_view() =~= before);
        }
        i = i + 1;
    }
    Ok((out, warnings))
}

/// The version of the first dependency from `i` on that is `group:artifact`,
/// without a classifier.
pub open spec fn version_from(
    list: Seq<DependencyModel>,
    group: Seq<char>,
    artifact: Seq<char>,
    i: int,
) -> Option<Seq<char>>
    decreases list.len() - i,
{
    if i < 0 || i >= list.len() {
        None
    } else if list[i].group == group && list[i].artifact == artifact && list[i].classifier is None {
        Some(list[i].version)
    } else {
        version_from(list, group, artifact, i + 1)
    }
}

fn find_version<'a>(list: &'a Vec<Dependency>, group: &str, artifact: &str) -> (r: Option<&'a str>)
    ensures
        r.deep_view() == version_from(list.deep_view(), group@, artifact@, 0),
{
    let ghost all = list.deep_view();
    let mut i: usize = 0;
    while i < list.len()
        invariant
            all == list.deep_view(),
            i <= list@.len(),
            version_from(all, group@, artifact@, 0) == version_from(
                all,
                group@,
                artifact@,
                i as int,
            ),
        decreases list@.len() - i,
    {
        let d = &list[i];
        assert(all[i as int] == d.deep_view());
        if same(d.group.as_str(), group) && same(d.artifact.as_str(), artifact)
            && d.classifier.is_none() {
            return Some(d.version.as_str());
        }
        i = i + 1;
    }
    None
}

impl ManifestModel {
    /// The version that `group:artifact` is declared at, in either table.
    pub open spec fn declared_version(self, group: Seq<char>, artifact: Seq<char>) -> Option<
        Seq<char>,
    > {
        match version_from(self.dependencies, group, artifact, 0) {
            Some(v) => Some(v),
            None => version_from(self.dev_dependencies, group, artifact, 0),
        }
    }
}

/// The warnings, and one for each of the first `n` libraries of `config` that
/// is declared at another version.
pub open spec fn library_warnings(m: ManifestModel, config: LanguageModel, n: int) -> Seq<
    Seq<char>,
>
    decreases n,
{
    if n <= 0 {
        seq![]
    } else {
        let (group, artifact) = config.language.libraries(config.version)[n - 1];
        let before = library_warnings(m, config, n - 1);
        match m.declared_version(group, artifact) {
            Some(version) => if version != config.version {
                before.push(
                    "`"@ + group + ":"@ + artifact + "` is declared at "@ + version + ", but `"@
                        + config.language.word() + ".version` is "@ + config.version
                        + "; kotlinc and scalac reject a runtime library newer than themselves, so keep the two in step"@,
                )
            } else {
                before
            },
            None => before,
        }
    }
}

/// An encoding that kotlinc reads.
pub open spec fn utf8(encoding: Seq<char>) -> bool {
    let name = replaced(capital(encoding), "_"@, "-"@);
    name == "UTF-8"@ || name == "UTF8"@
}

/// What a language means for the source encoding and the `javac-args`.
pub open spec fn setting_warnings(m: ManifestModel, config: LanguageModel) -> Result<
    Seq<Seq<char>>,
    Fault,
> {
    match config.language {
        Language::Kotlin => if utf8(m.java.encoding) {
            Ok(seq![])
        } else {
            Ok(
                seq![
                    "`java.encoding` is "@ + m.java.encoding
                        + ", but kotlinc reads sources as UTF-8 only; the Kotlin sources are read as UTF-8"@,
                ],
            )
        },
        Language::Groovy => match not_a_flag(m.java.javac_args) {
            Some(arg) => Err(
                Fault::Manifest(
                    "`java.javac-args`: "@ + not_a_flag_message(arg)
                        + "\n\nwith [groovy] on, groovyc runs javac itself, and hands it these"@,
                ),
            ),
            None => Ok(seq![]),
        },
        _ => Ok(seq![]),
    }
}

/// What the languages from `i` on mean for the rest of the manifest, after
/// those before.
pub open spec fn language_checks_from(m: ManifestModel, i: int, out: Seq<Seq<char>>) -> Result<
    Seq<Seq<char>>,
    Fault,
>
    decreases m.languages.len() - i,
{
    if i < 0 || i >= m.languages.len() {
        Ok(out)
    } else {
        let config = m.languages[i];
        match setting_warnings(m, config) {
            Err(e) => Err(e),
            Ok(settings) => language_checks_from(
                m,
                i + 1,
                out + settings + library_warnings(
                    m,
                    config,
                    config.language.libraries(config.version).len() as int,
                ),
            ),
        }
    }
}

fn check_settings(m: &Manifest, config: &LanguageConfig) -> (r: Result<Vec<String>, JrsError>)
    ensures
        outcome(r) == setting_warnings(m.deep_view(), config.deep_view()),
{
    let mut out: Vec<String> = none_of();
    match config.language {
        Language::Kotlin => {
            proof {
                reveal_strlit("_");
            }
            let name = replace(to_capital(m.java.encoding.as_str()).as_str(), "_", "-");
            if !same(name.as_str(), "UTF-8") && !same(name.as_str(), "UTF8") {
                put(
                    &mut out,
                    cat3(
                        "`java.encoding` is ",
                        m.java.encoding.as_str(),
                        ", but kotlinc reads sources as UTF-8 only; the Kotlin sources are read as UTF-8",
                    ),
                );
                assert(out.deep_view() =~= setting_warnings(m.deep_view(), config.deep_view())->Ok_0);
            }
        },
        Language::Groovy => {
            if let Some(why) = groovy_javac_args(&m.java.javac_args) {
                return Err(
                    JrsError::Manifest(
                        cat3(
                            "`java.javac-args`: ",
                            why.as_str(),
                            "\n\nwith [groovy] on, groovyc runs javac itself, and hands it these",
                        ),
                    ),
                );
            }
        },
        _ => {},
    }
    Ok(out)
}

fn check_libraries(m: &Manifest, config: &LanguageConfig) -> (r: Vec<String>)
    ensures
        r.deep_view() == library_warnings(
            m.deep_view(),
            config.deep_view(),
            config.language.libraries(config.version@).len() as int,
        ),
{
    let libraries = config.language.runtime_libraries(config.version.as_str());
    let ghost mm = m.deep_view();
    let ghost c = config.deep_view();
    let mut out: Vec<String> = none_of();
    let mut i: usize = 0;
    while i < libraries.len()
        invariant
            mm == m.deep_view(),
            c == config.deep_view(),
            libraries.deep_view() == c.language.libraries(c.version),
            i <= libraries@.len(),
            out.deep_view() == library_warnings(mm, c, i as int),
        decreases libraries@.len() - i,
    {
        let (group, artifact) = libraries[i];
        assert(libraries.deep_view()[i as int] == (group@, artifact@));
        let version = match find_version(&m.dependencies, group, artifact) {
            Some(v) => Some(v),
            None => find_version(&m.dev_dependencies, group, artifact),
        };
        if let Some(v) = version {
            if !same(v, config.version.as_str()) {
                let start = cat6("`", group, ":", artifact, "` is declared at ", v);
                put(
                    &mut out,
                    cat6(
                        start.as_str(),
                        ", but `",
                        config.language.key(),
                        ".version` is ",
                        config.version.as_str(),
                        "; kotlinc and scalac reject a runtime library newer than themselves, so keep the two in step",
                    ),
                );
            }
        }
        i = i + 1;
    }
    out
}

/// What the language tables mean for the rest of the manifest: the source
/// encoding kotlinc can read, the `javac-args` Groovy's joint `javac` can be
/// handed, and a declared runtime library at another version than its
/// compiler.
pub fn check_languages(manifest: &Manifest) -> (r: Result<Vec<String>, JrsError>)
    ensures
        outcome(r) == language_checks_from(manifest.deep_view(), 0, seq![]),
{
    let ghost m = manifest.deep_view();
    let mut out: Vec<String> = none_of();
    let mut i: usize = 0;
    while i < manifest.languages.len()
        invariant
            m == manifest.deep_view(),
            i <= manifest.languages@.len(),
            language_checks_from(m, 0, seq![]) == language_checks_from(
                m,
                i as int,
                out.deep_view(),
            ),
        decreases manifest.languages@.len() - i,
    {
        let config = &manifest.languages[i];
        assert(m.languages[i as int] == config.deep_view());
        match check_settings(manifest, config) {
            Ok(settings) => {
                put_all(&mut out, settings);
            },
            Err(e) => {
                return Err(e);
            },
        }
        put_all(&mut out, check_libraries(manifest, config));
        i = i + 1;
    }
    Ok(out)
}

// ---- development dependencies ----------------------------------------------

/// The first dependency from `i` on that is on one classpath only.
pub open spec fn dev_fault_from(list: Seq<DependencyModel>, compile: bool, i: int) -> Option<Fault>
    decreases list.len() - i,
{
    if i < 0 || i >= list.len() {
        None
    } else if compile && list[i].compile_only {
        Some(
            Fault::Manifest(
                "`dev-dependencies.\""@ + list[i].key()
                    + "\"`: `compile-only` only means something in [dependencies]; a dev-dependency is never on the runtime classpath anyway"@,
            ),
        )
    } else if !compile && list[i].runtime_only {
        Some(
            Fault::Manifest(
                "`dev-dependencies.\""@ + list[i].key()
                    + "\"`: `runtime-only` only means something in [dependencies]; the test classpath is one classpath, that the tests compile and run against alike"@,
            ),
        )
    } else {
        dev_fault_from(list, compile, i + 1)
    }
}

fn refuse_dev(list: &Vec<Dependency>, compile: bool) -> (r: Option<JrsError>)
    ensures
        r.deep_view() == dev_fault_from(list.deep_view(), compile, 0),
{
    let ghost all = list.deep_view();
    let mut i: usize = 0;
    while i < list.len()
        invariant
            all == list.deep_view(),
            i <= list@.len(),
            dev_fault_from(all, compile, 0) == dev_fault_from(all, compile, i as int),
        decreases list@.len() - i,
    {
        let d = &list[i];
        assert(all[i as int] == d.deep_view());
        if compile && d.compile_only {
            return Some(
                JrsError::Manifest(
                    cat3(
                        "`dev-dependencies.\"",
                        d.key().as_str(),
                        "\"`: `compile-only` only means something in [dependencies]; a dev-dependency is never on the runtime classpath anyway",
                    ),
                ),
            );
        }
        if !compile && d.runtime_only {
            return Some(
                JrsError::Manifest(
                    cat3(
                        "`dev-dependencies.\"",
                        d.key().as_str(),
                        "\"`: `runtime-only` only means something in [dependencies]; the test classpath is one classpath, that the tests compile and run against alike",
                    ),
                ),
            );
        }
        i = i + 1;
    }
    None
}

/// A warning for each of the first `n` dev-dependencies that is a dependency
/// already.
pub open spec fn twice_warnings(
    dependencies: Seq<DependencyModel>,
    dev: Seq<DependencyModel>,
    n: int,
) -> Seq<Seq<char>>
    decreases n,
{
    if n <= 0 {
        seq![]
    } else {
        let before = twice_warnings(dependencies, dev, n - 1);
        if keyed(dependencies, dev[n - 1].key()) {
            before.push(
                "`"@ + dev[n - 1].key()
                    + "` is declared in both [dependencies] and [dev-dependencies]; the main declaration wins"@,
            )
        } else {
            before
        }
    }
}

fn warn_twice(dependencies: &Vec<Dependency>, dev: &Vec<Dependency>, warnings: &mut Vec<String>)
    ensures
        final(warnings).deep_view() == old(warnings).deep_view() + twice_warnings(
            dependencies.deep_view(),
            dev.deep_view(),
            dev@.len() as int,
        ),
{
    let ghost before = warnings.deep_view();
    let ghost main = dependencies.deep_view();
    let ghost all = dev.deep_view();
    let mut i: usize = 0;
    assert(before + twice_warnings(main, all, 0) =~= before);
    while i < dev.len()
        invariant
            main == dependencies.deep_view(),
            all == dev.deep_view(),
            i <= dev@.len(),
            warnings.deep_view() == before + twice_warnings(main, all, i as int),
        decreases dev@.len() - i,
    {
        assert(all[i as int] == dev@[i as int].deep_view());
        let key = dev[i].key();
        if has_key(dependencies, key.as_str()) {
            put(
                warnings,
                cat3(
                    "`",
                    key.as_str(),
                    "` is declared in both [dependencies] and [dev-dependencies]; the main declaration wins",
                ),
            );
        }
        assert(warnings.deep_view() =~= before + twice_warnings(main, all, i + 1));
        i = i + 1;
    }
}

// ---- the whole manifest ----------------------------------------------------

pub open spec fn top_keys() -> Seq<Seq<char>> {
    seq![
        "project"@,
        "java"@,
        "run"@,
        "test"@,
        "package"@,
        "kotlin"@,
        "scala"@,
        "groovy"@,
        "dependencies"@,
        "dev-dependencies"@,
        "managed"@,
        "repositories"@,
        "tasks"@,
        "hooks"@,
        "obfuscate"@,
    ]
}

pub open spec fn project_keys() -> Seq<Seq<char>> {
    seq![
        "name"@,
        "version"@,
        "main-class"@,
        "source-dir"@,
        "test-dir"@,
        "resource-dir"@,
        "test-resource-dir"@,
        "target-dir"@,
        "jrs-version"@,
    ]
}

pub open spec fn java_keys() -> Seq<Seq<char>> {
    seq!["source"@, "target"@, "encoding"@, "javac-args"@, "javadoc-args"@, "jdk"@]
}

pub open spec fn run_keys() -> Seq<Seq<char>> {
    seq!["jvm-args"@, "java-agents"@, "env"@, "cwd"@]
}

pub open spec fn test_keys() -> Seq<Seq<char>> {
    seq![
        "jvm-args"@,
        "jacoco-version"@,
        "java-agents"@,
        "env"@,
        "retries"@,
        "forks"@,
        "coverage-minimum"@,
    ]
}

pub open spec fn package_keys() -> Seq<Seq<char>> {
    seq!["add-modules"@, "manifest"@, "native-image-args"@]
}

pub open spec fn obfuscate_keys() -> Seq<Seq<char>> {
    seq!["version"@, "keep"@, "proguard-args"@]
}

fn known_top_keys() -> (r: Vec<&'static str>)
    ensures
        r.deep_view() == top_keys(),
{
    let known: Vec<&'static str> = vec![
        "project",
        "java",
        "run",
        "test",
        "package",
        "kotlin",
        "scala",
        "groovy",
        "dependencies",
        "dev-dependencies",
        "managed",
        "repositories",
        "tasks",
        "hooks",
        "obfuscate",
    ];
    assert(known.deep_view() =~= top_keys());
    known
}

fn known_project_keys() -> (r: Vec<&'static str>)
    ensures
        r.deep_view() == project_keys(),
{
    let known: Vec<&'static str> = vec![
        "name",
        "version",
        "main-class",
        "source-dir",
        "test-dir",
        "resource-dir",
        "test-resource-dir",
        "target-dir",
        "jrs-version",
    ];
    assert(known.deep_view() =~= project_keys());
    known
}

/// What the tables of a manifest say that start its tools.
pub struct SettingsModel {
    pub java: JavaModel,
    pub run: RunModel,
    pub test: TestModel,
    pub package: PackageModel,
    pub obfuscate: Option<ObfuscateModel>,
}

struct Settings {
    java: JavaConfig,
    run: RunConfig,
    test: TestConfig,
    package: PackageConfig,
    obfuscate: Option<ObfuscateConfig>,
}

impl DeepView for Settings {
    type V = SettingsModel;

    closed spec fn deep_view(&self) -> SettingsModel {
        SettingsModel {
            java: self.java.deep_view(),
            run: self.run.deep_view(),
            test: self.test.deep_view(),
            package: self.package.deep_view(),
            obfuscate: self.obfuscate.deep_view(),
        }
    }
}

/// `[java]`, or what a manifest without it says.
pub open spec fn java_table(table: Entries) -> Result<JavaModel, Fault> {
    match subtable(table, "java"@) {
        Err(e) => Err(e),
        Ok(None) => Ok(default_java()),
        Ok(Some(t)) => java_of(t),
    }
}

/// `[run]`, or what a manifest without it says.
pub open spec fn run_table(table: Entries) -> Result<RunModel, Fault> {
    match subtable(table, "run"@) {
        Err(e) => Err(e),
        Ok(None) => Ok(default_run()),
        Ok(Some(t)) => run_of(t),
    }
}

/// `[test]`, or what a manifest without it says.
pub open spec fn test_table(table: Entries) -> Result<TestModel, Fault> {
    match subtable(table, "test"@) {
        Err(e) => Err(e),
        Ok(None) => Ok(default_test()),
        Ok(Some(t)) => test_of(t),
    }
}

/// `[package]`, or what a manifest without it says.
pub open spec fn package_table(table: Entries) -> Result<PackageModel, Fault> {
    match subtable(table, "package"@) {
        Err(e) => Err(e),
        Ok(None) => Ok(default_package()),
        Ok(Some(t)) => package_of(t),
    }
}

/// These tables together.
pub open spec fn settings_of(table: Entries) -> Result<SettingsModel, Fault> {
    match java_table(table) {
        Err(e) => Err(e),
        Ok(java) => match run_table(table) {
            Err(e) => Err(e),
            Ok(run) => match test_table(table) {
                Err(e) => Err(e),
                Ok(test) => match package_table(table) {
                    Err(e) => Err(e),
                    Ok(package) => match obfuscate_table(table) {
                        Err(e) => Err(e),
                        Ok(obfuscate) => Ok(SettingsModel { java, run, test, package, obfuscate }),
                    },
                },
            },
        },
    }
}

/// The warnings that reading these tables gives.
pub open spec fn settings_warnings(table: Entries) -> Seq<Seq<char>> {
    subtable_warnings(table, "java"@, java_keys()) + subtable_warnings(table, "run"@, run_keys())
        + subtable_warnings(table, "test"@, test_keys()) + (match subtable(table, "test"@) {
        Ok(Some(t)) => minimum_warnings(t),
        _ => seq![],
    }) + subtable_warnings(table, "package"@, package_keys()) + subtable_warnings(
        table,
        "obfuscate"@,
        obfuscate_keys(),
    )
}

fn read_settings(table: &Table) -> (r: Result<(Settings, Vec<String>), JrsError>)
    ensures
        r matches Ok((s, w)) ==> settings_of(table.deep_view()) == Ok::<SettingsModel, Fault>(
            s.deep_view(),
        ) && w.deep_view() == settings_warnings(table.deep_view()),
        r matches Err(e) ==> settings_of(table.deep_view()) == Err::<SettingsModel, Fault>(
            e.deep_view(),
        ),
{
    let ghost top = table.deep_view();
    let mut warnings: Vec<String> = none_of();
    let known: Vec<&str> = vec![
        "source",
        "target",
        "encoding",
        "javac-args",
        "javadoc-args",
        "jdk",
    ];
    assert(known.deep_view() =~= java_keys());
    let java = match section(table, "java", &known, &mut warnings) {
        Err(e) => {
            return Err(e);
        },
        Ok(None) => JavaConfig::default(),
        Ok(Some(t)) => match java_config(t) {
            Ok(x) => x,
            Err(e) => {
                return Err(e);
            },
        },
    };
    let known: Vec<&str> = vec!["jvm-args", "java-agents", "env", "cwd"];
    assert(known.deep_view() =~= run_keys());
    let run = match section(table, "run", &known, &mut warnings) {
        Err(e) => {
            return Err(e);
        },
        Ok(None) => RunConfig::default(),
        Ok(Some(t)) => match run_config(t) {
            Ok(x) => x,
            Err(e) => {
                return Err(e);
            },
        },
    };
    let known: Vec<&str> = vec![
        "jvm-args",
        "jacoco-version",
        "java-agents",
        "env",
        "retries",
        "forks",
        "coverage-minimum",
    ];
    assert(known.deep_view() =~= test_keys());
    let test = match section(table, "test", &known, &mut warnings) {
        Err(e) => {
            return Err(e);
        },
        Ok(None) => TestConfig::default(),
        Ok(Some(t)) => match test_config(t, &mut warnings) {
            Ok(x) => x,
            Err(e) => {
                return Err(e);
            },
        },
    };
    let known: Vec<&str> = vec!["add-modules", "manifest", "native-image-args"];
    assert(known.deep_view() =~= package_keys());
    let package = match section(table, "package", &known, &mut warnings) {
        Err(e) => {
            return Err(e);
        },
        Ok(None) => PackageConfig::default(),
        Ok(Some(t)) => match package_config(t) {
            Ok(x) => x,
            Err(e) => {
                return Err(e);
            },
        },
    };
    let known: Vec<&str> = vec!["version", "keep", "proguard-args"];
    assert(known.deep_view() =~= obfuscate_keys());
    let obfuscate = match section(table, "obfuscate", &known, &mut warnings) {
        Err(e) => {
            return Err(e);
        },
        Ok(None) => None,
        Ok(Some(t)) => match obfuscate_config(t) {
            Ok(x) => Some(x),
            Err(e) => {
                return Err(e);
            },
        },
    };
    assert(warnings.deep_view() =~= settings_warnings(top));
    Ok((Settings { java, run, test, package, obfuscate }, warnings))
}

/// What the tables of dependencies, repositories and tasks say, with what was
/// read before; `w` are the warnings so far.
pub open spec fn rest_of(
    table: Entries,
    path: Seq<char>,
    root: Seq<char>,
    project: ProjectModel,
    jrs_version: Option<Seq<char>>,
    settings: SettingsModel,
    languages: Seq<LanguageModel>,
    w: Seq<Seq<char>>,
) -> Result<ManifestModel, Fault> {
    match dependency_table(entry(table, "dependencies"@), "dependencies"@) {
        Err(e) => Err(e),
        Ok(dependencies) => match dependency_table(
            entry(table, "dev-dependencies"@),
            "dev-dependencies"@,
        ) {
            Err(e) => Err(e),
            Ok(dev_dependencies) => if dev_fault_from(dev_dependencies, true, 0) is Some {
                Err(dev_fault_from(dev_dependencies, true, 0)->0)
            } else if dev_fault_from(dev_dependencies, false, 0) is Some {
                Err(dev_fault_from(dev_dependencies, false, 0)->0)
            } else {
                match managed_table(table) {
                    Err(e) => Err(e),
                    Ok(managed) => if versionless_fault(
                        dependencies,
                        dev_dependencies,
                        managed,
                    ) is Some {
                        Err(versionless_fault(dependencies, dev_dependencies, managed)->0)
                    } else {
                        match repository_table(table) {
                            Err(e) => Err(e),
                            Ok(repositories) => match tasks_of(table) {
                                Err(e) => Err(e),
                                Ok((tasks, task_warnings)) => match hooks_of(table) {
                                    Err(e) => Err(e),
                                    Ok(hooks) => {
                                        let m = ManifestModel {
                                            path,
                                            root,
                                            name: project.name,
                                            version: project.version,
                                            main_class: project.main_class,
                                            source_dir: project.source_dir,
                                            test_dir: project.test_dir,
                                            resource_dir: project.resource_dir,
                                            test_resource_dir: project.test_resource_dir,
                                            target_dir: project.target_dir,
                                            java: settings.java,
                                            run: settings.run,
                                            test: settings.test,
                                            package: settings.package,
                                            languages,
                                            dependencies,
                                            dev_dependencies,
                                            managed,
                                            repositories,
                                            tasks,
                                            hooks,
                                            obfuscate: settings.obfuscate,
                                            warnings: w + twice_warnings(
                                                dependencies,
                                                dev_dependencies,
                                                dev_dependencies.len() as int,
                                            ) + task_warnings + hooks_warnings(table),
                                            jrs_version,
                                        };
                                        match language_checks_from(m, 0, seq![]) {
                                            Err(e) => Err(e),
                                            Ok(more) => match tasks_fault(tasks, hooks) {
                                                Some(e) => Err(e),
                                                None => Ok(
                                                    ManifestModel {
                                                        warnings: m.warnings + more,
                                                        ..m
                                                    },
                                                ),
                                            },
                                        }
                                    },
                                },
                            },
                        }
                    },
                }
            },
        },
    }
}

/// The manifest that a table is, read from `path` for the project at `root`.
pub open spec fn manifest_of(table: Entries, path: Seq<char>, root: Seq<char>) -> Result<
    ManifestModel,
    Fault,
> {
    match entry(table, "project"@) {
        None => Err(Fault::Manifest("missing required table `[project]`"@)),
        Some(v) => match v.table() {
            None => Err(Fault::Manifest("`project` must be a table"@)),
            Some(t) => match jrs_version_of(t, path) {
                Err(e) => Err(e),
                Ok(jrs_version) => match project_of(t) {
                    Err(e) => Err(e),
                    Ok(project) => match settings_of(table) {
                        Err(e) => Err(e),
                        Ok(settings) => match languages_from(table, 0, seq![], seq![]) {
                            Err(e) => Err(e),
                            Ok((languages, language_warnings)) => rest_of(
                                table,
                                path,
                                root,
                                project,
                                jrs_version,
                                settings,
                                languages,
                                key_warnings(table, top_keys(), ""@) + key_warnings(
                                    t,
                                    project_keys(),
                                    "project."@,
                                ) + settings_warnings(table) + language_warnings,
                            ),
                        },
                    },
                },
            },
        },
    }
}

fn read_rest(
    table: &Table,
    path: &str,
    root: &str,
    project: Project,
    jrs_version: Option<String>,
    settings: Settings,
    languages: Vec<LanguageConfig>,
    warnings: Vec<String>,
) -> (r: Result<Manifest, JrsError>)
    ensures
        outcome(r) == rest_of(
            table.deep_view(),
            path@,
            root@,
            project.deep_view(),
            jrs_version.deep_view(),
            settings.deep_view(),
            languages.deep_view(),
            warnings.deep_view(),
        ),
{
    let mut warnings = warnings;
    let dependencies = match parse_dependencies(table, "dependencies") {
        Ok(x) => x,
        Err(e) => {
            return Err(e);
        },
    };
    let dev_dependencies = match parse_dependencies(table, "dev-dependencies") {
        Ok(x) => x,
        Err(e) => {
            return Err(e);
        },
    };
    if let Some(e) = refuse_dev(&dev_dependencies, true) {
        return Err(e);
    }
    if let Some(e) = refuse_dev(&dev_dependencies, false) {
        return Err(e);
    }
    warn_twice(&dependencies, &dev_dependencies, &mut warnings);
    let managed = match parse_managed(table) {
        Ok(x) => x,
        Err(e) => {
            return Err(e);
        },
    };
    if let Some(e) = check_versionless(&dependencies, &dev_dependencies, &managed) {
        return Err(e);
    }
    let repositories = match parse_repositories(table) {
        Ok(x) => x,
        Err(e) => {
            return Err(e);
        },
    };
    let tasks = match parse_tasks(table) {
        Ok((tasks, more)) => {
            put_all(&mut warnings, more);
            tasks
        },
        Err(e) => {
            return Err(e);
        },
    };
    let hooks = match parse_hooks(table, &mut warnings) {
        Ok(x) => x,
        Err(e) => {
            return Err(e);
        },
    };
    let mut manifest = Manifest {
        path: path.to_owned(),
        root: root.to_owned(),
        name: project.name,
        version: project.version,
        main_class: project.main_class,
        source_dir: project.source_dir,
        test_dir: project.test_dir,
        resource_dir: project.resource_dir,
        test_resource_dir: project.test_resource_dir,
        target_dir: project.target_dir,
        java: settings.java,
        run: settings.run,
        test: settings.test,
        package: settings.package,
        languages,
        dependencies,
        dev_dependencies,
        managed,
        repositories,
        tasks,
        hooks,
        obfuscate: settings.obfuscate,
        warnings,
        jrs_version,
    };
    match check_languages(&manifest) {
        Ok(more) => {
            put_all(&mut manifest.warnings, more);
        },
        Err(e) => {
            return Err(e);
        },
    }
    match check_tasks(&manifest) {
        Ok(_) => Ok(manifest),
        Err(e) => Err(e),
    }
}

// ---- positions -------------------------------------------------------------

/// How many bytes `c` takes in UTF-8.
pub open spec fn width(c: char) -> nat {
    if c <= '\u{7f}' {
        1
    } else if c <= '\u{7ff}' {
        2
    } else if c <= '\u{ffff}' {
        3
    } else {
        4
    }
}

/// The line and the column, counted from 1, that the byte `offset` has when the
/// character `i` is at the line and the column given.
pub open spec fn position(text: Seq<char>, offset: int, i: int, line: nat, column: nat) -> (nat, nat)
    decreases text.len() - i,
{
    if i < 0 || i >= text.len() || offset < width(text[i]) {
        (line, column)
    } else if text[i] == '\n' {
        position(text, offset - width(text[i]), i + 1, line + 1, 1)
    } else {
        position(text, offset - width(text[i]), i + 1, line, column + 1)
    }
}

/// Byte offset to 1-based line and column.
pub fn locate(text: &str, offset: usize) -> (r: (u128, u128))
    ensures
        position(text@, offset as int, 0, 1, 1) == (r.0 as nat, r.1 as nat),
{
    let cs = chars(text);
    let n: usize = cs.len();
    let mut left: usize = offset;
    let mut line: u128 = 1;
    let mut column: u128 = 1;
    let mut i: usize = 0;
    while i < n
        invariant
            cs@ == text@,
            n == cs@.len(),
            i <= n,
            1 <= line <= i + 1,
            1 <= column <= i + 1,
            position(text@, offset as int, 0, 1, 1) == position(
                text@,
                left as int,
                i as int,
                line as nat,
                column as nat,
            ),
        decreases n - i,
    {
        let c: char = cs[i];
        let w: usize = if c <= '\u{7f}' {
            1
        } else if c <= '\u{7ff}' {
            2
        } else if c <= '\u{ffff}' {
            3
        } else {
            4
        };
        if left < w {
            return (line, column);
        }
        left = left - w;
        if c == '\n' {
            line = line + 1;
            column = 1;
        } else {
            column = column + 1;
        }
        i = i + 1;
    }
    (line, column)
}

/// What a text that is not TOML is answered.
pub open spec fn syntax_message(
    text: Seq<char>,
    path: Seq<char>,
    offset: Option<usize>,
    message: Seq<char>,
) -> Seq<char> {
    match offset {
        None => path + ": "@ + message,
        Some(o) => {
            let (line, column) = position(text, o as int, 0, 1, 1);
            path + ":"@ + decimal(line) + ":"@ + decimal(column) + ": "@ + message
        },
    }
}

/// The manifest that a text is, or what is wrong with it.
pub open spec fn text_manifest(text: Seq<char>, path: Seq<char>, root: Seq<char>) -> Result<
    ManifestModel,
    Fault,
> {
    match toml_document(text) {
        Ok(tree) => manifest_of(tree.table()->0, path, root),
        Err((offset, message)) => Err(
            Fault::Manifest(syntax_message(text, path, offset, message)),
        ),
    }
}

impl Manifest {
    /// The manifest that a table is. Unknown keys are not errors; they end up
    /// in `warnings`.
    pub fn from_table(table: &Table, path: &str, root: &str) -> (r: Result<Manifest, JrsError>)
        ensures
            outcome(r) == manifest_of(table.deep_view(), path@, root@),
    {
        let mut warnings: Vec<String> = none_of();
        let known = known_top_keys();
        warn_unknown(table, &known, "", &mut warnings);
        assert(warnings.deep_view() =~= key_warnings(table.deep_view(), top_keys(), ""@));
        let Some(value) = table.get("project") else {
            return Err(JrsError::Manifest("missing required table `[project]`".to_owned()));
        };
        let Some(t) = value.as_table() else {
            return Err(JrsError::Manifest("`project` must be a table".to_owned()));
        };
        // Before anything else is read: a manifest written for a newer jrs
        // may use keys and forms this one would misread or warn about, and
        // the one thing worth saying then is which jrs it needs.
        let jrs_version = match parse_jrs_version(t, path) {
            Ok(x) => x,
            Err(e) => {
                return Err(e);
            },
        };
        let known = known_project_keys();
        warn_unknown(t, &known, "project.", &mut warnings);
        let project = match read_project(t) {
            Ok(x) => x,
            Err(e) => {
                return Err(e);
            },
        };
        let settings = match read_settings(table) {
            Ok((settings, more)) => {
                put_all(&mut warnings, more);
                settings
            },
            Err(e) => {
                return Err(e);
            },
        };
        let languages = match parse_languages(table) {
            Ok((languages, more)) => {
                put_all(&mut warnings, more);
                languages
            },
            Err(e) => {
                return Err(e);
            },
        };
        read_rest(table, path, root, project, jrs_version, settings, languages, warnings)
    }

    /// Parse manifest `text`. `path` is where it was read from and `root` the
    /// project directory its relative paths are resolved against.
    ///
    /// Unknown keys are not errors; they end up in `warnings`. An error where
    /// `text` is not TOML, `[project]` or one of its required keys is missing,
    /// or any value has the wrong type or an invalid form, and where a task or a
    /// hook names a task that is not there or a task waits for itself. A
    /// manifest that was read and rendered is read back the same.
    pub fn parse(text: &str, path: &str, root: &str) -> (r: Result<Manifest, JrsError>)
        ensures
            outcome(r) == text_manifest(text@, path@, root@),
            reads_back(text@, path@, root@, outcome(r)),
            r matches Ok(m) ==> from_document(m.deep_view()) && good_manifest(m.deep_view()),
    {
        let value = match document(text) {
            Ok(value) => value,
            Err(e) => {
                let message = match e.offset {
                    None => cat3(path, ": ", e.message.as_str()),
                    Some(offset) => {
                        let (line, column) = locate(text, offset);
                        cat7(
                            path,
                            ":",
                            show(line).as_str(),
                            ":",
                            show(column).as_str(),
                            ": ",
                            e.message.as_str(),
                        )
                    },
                };
                proof {
                    lemma_reads_back(
                        text@,
                        path@,
                        root@,
                        None,
                        Err(Fault::Manifest(message@)),
                    );
                }
                return Err(JrsError::Manifest(message));
            },
        };
        let r = match value.as_table() {
            Some(table) => Manifest::from_table(table, path, root),
            None => Err(JrsError::Manifest(String::new())),
        };
        proof {
            lemma_reads_back(text@, path@, root@, Some(value.deep_view()), outcome(r));
            if let Ok(m) = outcome(r) {
                assert(from_document(m));
                what_was_read_can_be_said(m);
            }
        }
        r
    }
}

} // verus!
