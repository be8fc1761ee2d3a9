//! What the words that builds are written in stand for.

use crate::coverage::{counter_named, CoverageCounter};
use crate::element::ElementModel;
use crate::error::Fault;
use crate::gradle::main_line;
use crate::gradle_decl::{task_of, Relation};
use crate::gradle_deps::{exclusion_of, given_to, kotlin_module};
use crate::gradle_jar::{names_project, names_version, value_of as attribute_value};
use crate::gradle_managed::{reported_config, target_of, Target};
use crate::gradle_paths::known_directory;
use crate::gradle_plugins::plugin_language;
use crate::gradle_repos::{filter_of, with_below, FilterModel};
use crate::gradle_tasks::{builtins_of, gradle_task, hook_of};
use crate::gradle_text::{first_word, literals_of};
use crate::language::{older_than, version_part, Language};
use crate::manifest::ManifestModel;
use crate::maven_deps::classifier_of;
use crate::maven_exec::{get, known_property, phase_hook, refusal_of, text_in};
use crate::model::path_placeholder;
use crate::native_image::image_arguments;
use crate::parse_tasks::reserved;
use crate::paths::under;
use crate::pom::{scope_named, PomDependencyModel, Scope};
use crate::report::ReportModel;
use crate::task::{Builtin, Hook};
use crate::template::Placeholder;
use crate::text::{cut, dense, sans_tail, starts, trimmed, within, Class};
use crate::toolchain::path_separator;
use vstd::prelude::*;

verus! {

/// What the configurations of a Gradle build are for: `implementation`, `api` and
/// `compile` for the compiler and the program, those of `compileOnly`'s kind for
/// the compiler alone, `runtimeOnly` and `runtime` for the program alone, those
/// of `test` for the tests, and no other for anything.
pub proof fn configurations_are_for_what_they_say(word: Seq<char>)
    ensures
        target_of(word) == Some(Target::Main) <==> word == "implementation"@ || word == "api"@
            || word == "compile"@,
        target_of(word) == Some(Target::CompileOnly) <==> word == "compileOnly"@
            || word == "compileOnlyApi"@ || word == "providedCompile"@,
        target_of(word) == Some(Target::RuntimeOnly) <==> word == "runtimeOnly"@
            || word == "runtime"@,
        target_of(word) == Some(Target::Processor) <==> word == "annotationProcessor"@,
        target_of(word) == Some(Target::Test) <==> word == "testImplementation"@
            || word == "testApi"@ || word == "testCompileOnly"@ || word == "testRuntimeOnly"@
            || word == "testCompile"@ || word == "testRuntime"@,
        reported_config(word) <==> word == "testAnnotationProcessor"@ || word == "kapt"@
            || word == "developmentOnly"@ || word == "providedRuntime"@,
{
    reveal_strlit("implementation");
    reveal_strlit("api");
    reveal_strlit("compile");
    reveal_strlit("compileOnly");
    reveal_strlit("compileOnlyApi");
    reveal_strlit("providedCompile");
    reveal_strlit("runtimeOnly");
    reveal_strlit("runtime");
    reveal_strlit("annotationProcessor");
    reveal_strlit("testImplementation");
    reveal_strlit("testApi");
    reveal_strlit("testCompileOnly");
    reveal_strlit("testRuntimeOnly");
    reveal_strlit("testCompile");
    reveal_strlit("testRuntime");
    reveal_strlit("testAnnotationProcessor");
    reveal_strlit("kapt");
    reveal_strlit("developmentOnly");
    reveal_strlit("providedRuntime");
    assert("implementation"@.len() == 14 && "implementation"@[0] == 'i');
    assert("api"@.len() == 3);
    assert("compile"@.len() == 7 && "compile"@[0] == 'c');
    assert("compileOnly"@.len() == 11 && "compileOnly"@[0] == 'c');
    assert("compileOnlyApi"@.len() == 14 && "compileOnlyApi"@[0] == 'c');
    assert("providedCompile"@.len() == 15 && "providedCompile"@[0] == 'p'
        && "providedCompile"@[8] == 'C');
    assert("runtimeOnly"@.len() == 11 && "runtimeOnly"@[0] == 'r');
    assert("runtime"@.len() == 7 && "runtime"@[0] == 'r');
    assert("annotationProcessor"@.len() == 19);
    assert("testImplementation"@.len() == 18);
    assert("testApi"@.len() == 7 && "testApi"@[0] == 't');
    assert("testCompileOnly"@.len() == 15 && "testCompileOnly"@[0] == 't'
        && "testCompileOnly"@[4] == 'C');
    assert("testRuntimeOnly"@.len() == 15 && "testRuntimeOnly"@[0] == 't'
        && "testRuntimeOnly"@[4] == 'R');
    assert("testCompile"@.len() == 11 && "testCompile"@[0] == 't' && "testCompile"@[4] == 'C');
    assert("testRuntime"@.len() == 11 && "testRuntime"@[0] == 't' && "testRuntime"@[4] == 'R');
    assert("testAnnotationProcessor"@.len() == 23);
    assert("kapt"@.len() == 4);
    assert("developmentOnly"@.len() == 15 && "developmentOnly"@[0] == 'd');
    assert("providedRuntime"@.len() == 15 && "providedRuntime"@[0] == 'p'
        && "providedRuntime"@[8] == 'R');
}

/// What a task is tied to by `dependsOn` it runs before, and what it is tied to by
/// `finalizedBy` it runs after; one that merely runs after another is tied to
/// nothing.
pub proof fn ties_keep_their_order(target: Seq<char>)
    ensures
        hook_of(target, Relation::DependsOn) matches Some(h) ==> h is PreCompile || h is PreTest
            || h is PreRun,
        hook_of(target, Relation::FinalizedBy) matches Some(h) ==> h is PostCompile
            || h is PostTest || h is PostPackage,
        hook_of(target, Relation::RunsAfter) is None,
        hook_of(target, Relation::DependsOn) == Some(Hook::PreCompile)
            <==> target == "compileJava"@ || target == "compileKotlin"@
            || target == "compileScala"@ || target == "compileGroovy"@
            || target == "processResources"@ || target == "classes"@,
        hook_of(target, Relation::FinalizedBy) == Some(Hook::PostCompile)
            <==> target == "compileJava"@ || target == "compileKotlin"@
            || target == "compileScala"@ || target == "compileGroovy"@
            || target == "processResources"@ || target == "classes"@,
        hook_of(target, Relation::DependsOn) == Some(Hook::PreTest) <==> target == "test"@,
        hook_of(target, Relation::FinalizedBy) == Some(Hook::PostTest) <==> target == "test"@,
        hook_of(target, Relation::DependsOn) == Some(Hook::PreRun) <==> target == "run"@,
        hook_of(target, Relation::FinalizedBy) == Some(Hook::PostPackage) <==> target == "jar"@
            || target == "assemble"@,
{
    reveal_strlit("compileJava");
    reveal_strlit("compileKotlin");
    reveal_strlit("compileScala");
    reveal_strlit("compileGroovy");
    reveal_strlit("processResources");
    reveal_strlit("classes");
    reveal_strlit("test");
    reveal_strlit("run");
    reveal_strlit("jar");
    reveal_strlit("assemble");
    assert("compileJava"@.len() == 11);
    assert("compileKotlin"@.len() == 13 && "compileKotlin"@[7] == 'K');
    assert("compileScala"@.len() == 12);
    assert("compileGroovy"@.len() == 13 && "compileGroovy"@[7] == 'G');
    assert("processResources"@.len() == 16);
    assert("classes"@.len() == 7);
    assert("test"@.len() == 4);
    assert("run"@.len() == 3 && "run"@[0] == 'r');
    assert("jar"@.len() == 3 && "jar"@[0] == 'j');
    assert("assemble"@.len() == 8);
}

/// The command that stands for a task of Gradle does what the task does: what
/// compiles builds, what makes the jar packages, what checks tests, and `build`
/// does both.
pub proof fn commands_do_what_tasks_do(gradle: Seq<char>)
    ensures
        builtins_of(gradle) == Some(seq![Builtin::Build]) <==> gradle == "compileJava"@
            || gradle == "compileKotlin"@ || gradle == "compileScala"@
            || gradle == "compileGroovy"@ || gradle == "processResources"@ || gradle == "classes"@,
        builtins_of(gradle) == Some(seq![Builtin::Package]) <==> gradle == "jar"@
            || gradle == "assemble"@,
        builtins_of(gradle) == Some(seq![Builtin::Test]) <==> gradle == "test"@
            || gradle == "check"@,
        builtins_of(gradle) == Some(seq![Builtin::Doc]) <==> gradle == "javadoc"@,
        builtins_of(gradle) == Some(seq![Builtin::Test, Builtin::Package]) <==> gradle == "build"@,
        builtins_of(gradle) is Some <==> gradle == "compileJava"@ || gradle == "compileKotlin"@
            || gradle == "compileScala"@ || gradle == "compileGroovy"@
            || gradle == "processResources"@ || gradle == "classes"@ || gradle == "jar"@
            || gradle == "assemble"@ || gradle == "test"@ || gradle == "check"@
            || gradle == "javadoc"@ || gradle == "build"@,
{
    reveal_strlit("compileJava");
    reveal_strlit("compileKotlin");
    reveal_strlit("compileScala");
    reveal_strlit("compileGroovy");
    reveal_strlit("processResources");
    reveal_strlit("classes");
    reveal_strlit("jar");
    reveal_strlit("assemble");
    reveal_strlit("test");
    reveal_strlit("check");
    reveal_strlit("javadoc");
    reveal_strlit("build");
    assert("compileJava"@.len() == 11);
    assert("compileKotlin"@.len() == 13 && "compileKotlin"@[7] == 'K');
    assert("compileScala"@.len() == 12);
    assert("compileGroovy"@.len() == 13 && "compileGroovy"@[7] == 'G');
    assert("processResources"@.len() == 16);
    assert("classes"@.len() == 7 && "classes"@[0] == 'c');
    assert("jar"@.len() == 3);
    assert("assemble"@.len() == 8);
    assert("test"@.len() == 4);
    assert("check"@.len() == 5 && "check"@[0] == 'c');
    assert("javadoc"@.len() == 7 && "javadoc"@[0] == 'j');
    assert("build"@.len() == 5 && "build"@[0] == 'b');
    let one = seq![Builtin::Build];
    let two = seq![Builtin::Package];
    let three = seq![Builtin::Test];
    let four = seq![Builtin::Doc];
    let five = seq![Builtin::Test, Builtin::Package];
    assert(one[0] == Builtin::Build && two[0] == Builtin::Package && three[0] == Builtin::Test);
    assert(four[0] == Builtin::Doc && five.len() == 2 && five[1] == Builtin::Package);
    assert(one.len() == 1 && two.len() == 1 && three.len() == 1 && four.len() == 1);
}

/// The hook that a tie to a task becomes is one that the command which stands for
/// the task fires.
pub proof fn ties_are_fired(target: Seq<char>, relation: Relation)
    ensures
        hook_of(target, relation) is Some && builtins_of(target) is Some
            ==> builtins_of(target)->0[0].fires().contains(hook_of(target, relation)->0),
{
    reveal_strlit("compileJava");
    reveal_strlit("compileKotlin");
    reveal_strlit("compileScala");
    reveal_strlit("compileGroovy");
    reveal_strlit("processResources");
    reveal_strlit("classes");
    reveal_strlit("jar");
    reveal_strlit("assemble");
    reveal_strlit("test");
    reveal_strlit("check");
    reveal_strlit("javadoc");
    reveal_strlit("build");
    reveal_strlit("run");
    assert("compileJava"@.len() == 11);
    assert("compileKotlin"@.len() == 13 && "compileKotlin"@[7] == 'K');
    assert("compileScala"@.len() == 12);
    assert("compileGroovy"@.len() == 13 && "compileGroovy"@[7] == 'G');
    assert("processResources"@.len() == 16);
    assert("classes"@.len() == 7 && "classes"@[0] == 'c');
    assert("jar"@.len() == 3 && "jar"@[0] == 'j');
    assert("assemble"@.len() == 8);
    assert("test"@.len() == 4);
    assert("check"@.len() == 5 && "check"@[0] == 'c');
    assert("javadoc"@.len() == 7 && "javadoc"@[0] == 'j');
    assert("build"@.len() == 5 && "build"@[0] == 'b');
    assert("run"@.len() == 3 && "run"@[0] == 'r');
    ties_keep_their_order(target);
    commands_do_what_tasks_do(target);
    if let Some(h) = hook_of(target, relation) {
        if let Some(commands) = builtins_of(target) {
            let fired = commands[0].fires();
            assert(fired[0] == Hook::PreCompile);
            if h is PostCompile {
                assert(fired[1] == h);
            } else if h is PreTest {
                assert(fired[2] == h);
            } else if h is PostTest {
                assert(fired[3] == h);
            } else if h is PostPackage {
                assert(fired[2] == h);
            }
            assert(commands[0].fires().contains(h));
        }
    }
}

/// The tasks that Gradle has of its own.
pub proof fn gradle_has_these_tasks(target: Seq<char>)
    ensures
        gradle_task(target) <==> target == "compileJava"@ || target == "compileKotlin"@
            || target == "compileScala"@ || target == "compileGroovy"@
            || target == "processResources"@ || target == "classes"@
            || target == "compileTestJava"@ || target == "processTestResources"@
            || target == "testClasses"@ || target == "test"@ || target == "check"@
            || target == "jar"@ || target == "assemble"@ || target == "build"@
            || target == "javadoc"@ || target == "run"@ || target == "clean"@
            || target == "distZip"@ || target == "installDist"@ || target == "shadowJar"@
            || target == "bootJar"@ || target == "bootRun"@,
{
}

/// The task that a type of Gradle's stands for.
pub proof fn types_stand_for_tasks(ty: Seq<char>)
    ensures
        task_of(ty) == Some("compileJava"@) <==> ty == "JavaCompile"@,
        task_of(ty) == Some("compileKotlin"@) <==> ty == "KotlinCompile"@
            || ty == "KotlinJvmCompile"@,
        task_of(ty) == Some("compileScala"@) <==> ty == "ScalaCompile"@,
        task_of(ty) == Some("compileGroovy"@) <==> ty == "GroovyCompile"@,
        task_of(ty) == Some("test"@) <==> ty == "Test"@,
        task_of(ty) == Some("jar"@) <==> ty == "Jar"@,
{
    reveal_strlit("compileJava");
    reveal_strlit("compileKotlin");
    reveal_strlit("compileScala");
    reveal_strlit("compileGroovy");
    reveal_strlit("test");
    reveal_strlit("jar");
    reveal_strlit("JavaCompile");
    reveal_strlit("KotlinCompile");
    reveal_strlit("KotlinJvmCompile");
    reveal_strlit("ScalaCompile");
    reveal_strlit("GroovyCompile");
    reveal_strlit("Test");
    reveal_strlit("Jar");
    assert("compileJava"@.len() == 11 && "compileJava"@[0] == 'c');
    assert("compileKotlin"@.len() == 13 && "compileKotlin"@[0] == 'c'
        && "compileKotlin"@[7] == 'K');
    assert("compileScala"@.len() == 12 && "compileScala"@[0] == 'c');
    assert("compileGroovy"@.len() == 13 && "compileGroovy"@[0] == 'c'
        && "compileGroovy"@[7] == 'G');
    assert("test"@.len() == 4 && "test"@[0] == 't');
    assert("jar"@.len() == 3 && "jar"@[0] == 'j');
    assert("JavaCompile"@.len() == 11 && "JavaCompile"@[0] == 'J');
    assert("KotlinCompile"@.len() == 13 && "KotlinCompile"@[0] == 'K');
    assert("KotlinJvmCompile"@.len() == 16);
    assert("ScalaCompile"@.len() == 12 && "ScalaCompile"@[0] == 'S');
    assert("GroovyCompile"@.len() == 13 && "GroovyCompile"@[0] == 'G');
    assert("Test"@.len() == 4 && "Test"@[0] == 'T');
    assert("Jar"@.len() == 3 && "Jar"@[0] == 'J');
}

/// The phases of Maven's build up to `package`, in the order that it runs them.
pub open spec fn phases() -> Seq<Seq<char>> {
    seq![
        "validate"@,
        "initialize"@,
        "generate-sources"@,
        "process-sources"@,
        "generate-resources"@,
        "process-resources"@,
        "compile"@,
        "process-classes"@,
        "generate-test-sources"@,
        "process-test-sources"@,
        "generate-test-resources"@,
        "process-test-resources"@,
        "test-compile"@,
        "process-test-classes"@,
        "test"@,
        "prepare-package"@,
        "package"@,
    ]
}

/// A phase up to the compilation of the sources runs before it, the compilation
/// and what follows after it; what prepares the tests runs before them; and no
/// other phase has a hook.
pub proof fn phases_run_where_they_say(phase: Seq<char>)
    ensures
        phase_hook(phase) == Some(Hook::PreCompile) <==> phase == "validate"@
            || phase == "initialize"@ || phase == "generate-sources"@
            || phase == "process-sources"@ || phase == "generate-resources"@
            || phase == "process-resources"@,
        phase_hook(phase) == Some(Hook::PostCompile) <==> phase == "compile"@
            || phase == "process-classes"@,
        phase_hook(phase) == Some(Hook::PreTest) <==> phase == "generate-test-sources"@
            || phase == "process-test-sources"@ || phase == "generate-test-resources"@
            || phase == "process-test-resources"@ || phase == "test-compile"@
            || phase == "process-test-classes"@,
        phase_hook(phase) == Some(Hook::PostTest) <==> phase == "test"@,
        phase_hook(phase) == Some(Hook::PostPackage) <==> phase == "package"@,
        phase_hook(phase) != Some(Hook::PreRun),
{
    reveal_strlit("validate");
    reveal_strlit("initialize");
    reveal_strlit("generate-sources");
    reveal_strlit("process-sources");
    reveal_strlit("generate-resources");
    reveal_strlit("process-resources");
    reveal_strlit("compile");
    reveal_strlit("process-classes");
    reveal_strlit("generate-test-sources");
    reveal_strlit("process-test-sources");
    reveal_strlit("generate-test-resources");
    reveal_strlit("process-test-resources");
    reveal_strlit("test-compile");
    reveal_strlit("process-test-classes");
    reveal_strlit("test");
    reveal_strlit("package");
    assert("validate"@.len() == 8);
    assert("initialize"@.len() == 10);
    assert("generate-sources"@.len() == 16);
    assert("process-sources"@.len() == 15 && "process-sources"@[8] == 's');
    assert("generate-resources"@.len() == 18);
    assert("process-resources"@.len() == 17);
    assert("compile"@.len() == 7 && "compile"@[0] == 'c');
    assert("process-classes"@.len() == 15 && "process-classes"@[8] == 'c');
    assert("generate-test-sources"@.len() == 21);
    assert("process-test-sources"@.len() == 20 && "process-test-sources"@[13] == 's');
    assert("generate-test-resources"@.len() == 23);
    assert("process-test-resources"@.len() == 22);
    assert("test-compile"@.len() == 12);
    assert("process-test-classes"@.len() == 20 && "process-test-classes"@[13] == 'c');
    assert("test"@.len() == 4);
    assert("package"@.len() == 7 && "package"@[0] == 'p');
}

/// A later phase never has an earlier hook.
pub proof fn phases_keep_their_order(i: int, j: int)
    ensures
        0 <= i < j < phases().len() && phase_hook(phases()[i]) is Some
            && phase_hook(phases()[j]) is Some
            ==> phase_hook(phases()[i])->0.place() <= phase_hook(phases()[j])->0.place(),
{
    reveal_strlit("validate");
    reveal_strlit("initialize");
    reveal_strlit("generate-sources");
    reveal_strlit("process-sources");
    reveal_strlit("generate-resources");
    reveal_strlit("process-resources");
    reveal_strlit("compile");
    reveal_strlit("process-classes");
    reveal_strlit("generate-test-sources");
    reveal_strlit("process-test-sources");
    reveal_strlit("generate-test-resources");
    reveal_strlit("process-test-resources");
    reveal_strlit("test-compile");
    reveal_strlit("process-test-classes");
    reveal_strlit("test");
    reveal_strlit("package");
    reveal_strlit("prepare-package");
    assert("validate"@.len() == 8);
    assert("initialize"@.len() == 10);
    assert("generate-sources"@.len() == 16);
    assert("process-sources"@.len() == 15 && "process-sources"@[2] == 'o'
        && "process-sources"@[8] == 's');
    assert("generate-resources"@.len() == 18);
    assert("process-resources"@.len() == 17);
    assert("compile"@.len() == 7 && "compile"@[0] == 'c');
    assert("process-classes"@.len() == 15 && "process-classes"@[2] == 'o'
        && "process-classes"@[8] == 'c');
    assert("generate-test-sources"@.len() == 21);
    assert("process-test-sources"@.len() == 20 && "process-test-sources"@[13] == 's');
    assert("generate-test-resources"@.len() == 23);
    assert("process-test-resources"@.len() == 22);
    assert("test-compile"@.len() == 12);
    assert("process-test-classes"@.len() == 20 && "process-test-classes"@[13] == 'c');
    assert("test"@.len() == 4);
    assert("package"@.len() == 7 && "package"@[0] == 'p');
    assert("prepare-package"@.len() == 15 && "prepare-package"@[2] == 'e');
    if 0 <= i < j < phases().len() {
        phases_run_where_they_say(phases()[i]);
        phases_run_where_they_say(phases()[j]);
    }
}

/// The scopes of a POM, `compile` where none is named.
pub proof fn scopes_are_what_they_say(name: Seq<char>)
    ensures
        scope_named(None) == Scope::Compile,
        scope_named(Some(name)) == Scope::Runtime <==> name == "runtime"@,
        scope_named(Some(name)) == Scope::Provided <==> name == "provided"@,
        scope_named(Some(name)) == Scope::Test <==> name == "test"@,
        scope_named(Some(name)) == Scope::System <==> name == "system"@,
        scope_named(Some(name)) == Scope::Import <==> name == "import"@,
{
    reveal_strlit("runtime");
    reveal_strlit("provided");
    reveal_strlit("test");
    reveal_strlit("system");
    reveal_strlit("import");
    assert("runtime"@.len() == 7);
    assert("provided"@.len() == 8);
    assert("test"@.len() == 4);
    assert("system"@.len() == 6 && "system"@[0] == 's');
    assert("import"@.len() == 6 && "import"@[0] == 'i');
}

/// The names of the scopes differ.
pub proof fn scope_words_are_apart()
    ensures
        scope_named(Some("compile"@)) == Scope::Compile,
        scope_named(Some("runtime"@)) == Scope::Runtime,
        scope_named(Some("provided"@)) == Scope::Provided,
        scope_named(Some("test"@)) == Scope::Test,
        "test"@ != "provided"@,
        "test"@ != "runtime"@,
        "runtime"@ != "provided"@,
{
    reveal_strlit("compile");
    reveal_strlit("runtime");
    reveal_strlit("provided");
    reveal_strlit("test");
    reveal_strlit("system");
    reveal_strlit("import");
    assert("compile"@.len() == 7 && "compile"@[0] == 'c');
    assert("runtime"@.len() == 7 && "runtime"@[0] == 'r');
    assert("provided"@.len() == 8);
    assert("test"@.len() == 4);
    assert("system"@.len() == 6 && "system"@[0] == 's');
    assert("import"@.len() == 6 && "import"@[0] == 'i');
}

/// The placeholder that a property of Maven stands for.
pub proof fn properties_are_placeholders(name: Seq<char>)
    ensures
        known_property(name) == Some("{root}"@) <==> name == "project.basedir"@
            || name == "basedir"@,
        known_property(name) == Some("{target}"@) <==> name == "project.build.directory"@,
        known_property(name) == Some("{classes}"@) <==> name == "project.build.outputDirectory"@,
        known_property(name) == Some("{project.version}"@) <==> name == "project.version"@
            || name == "version"@,
        known_property(name) == Some("{project.name}"@) <==> name == "project.artifactId"@,
        known_property(name) is Some <==> name == "project.basedir"@ || name == "basedir"@
            || name == "project.build.directory"@ || name == "project.build.outputDirectory"@
            || name == "project.version"@ || name == "version"@ || name == "project.artifactId"@,
{
    reveal_strlit("project.basedir");
    reveal_strlit("basedir");
    reveal_strlit("project.build.directory");
    reveal_strlit("project.build.outputDirectory");
    reveal_strlit("project.version");
    reveal_strlit("version");
    reveal_strlit("project.artifactId");
    reveal_strlit("{root}");
    reveal_strlit("{target}");
    reveal_strlit("{classes}");
    reveal_strlit("{project.version}");
    reveal_strlit("{project.name}");
    assert("project.basedir"@.len() == 15 && "project.basedir"@[8] == 'b');
    assert("basedir"@.len() == 7 && "basedir"@[0] == 'b');
    assert("project.build.directory"@.len() == 23);
    assert("project.build.outputDirectory"@.len() == 29);
    assert("project.version"@.len() == 15 && "project.version"@[8] == 'v');
    assert("version"@.len() == 7 && "version"@[0] == 'v');
    assert("project.artifactId"@.len() == 18);
    assert("{root}"@.len() == 6);
    assert("{target}"@.len() == 8);
    assert("{classes}"@.len() == 9);
    assert("{project.version}"@.len() == 17);
    assert("{project.name}"@.len() == 14);
}

/// The names that a task cannot have: the commands.
pub proof fn commands_are_reserved(name: Seq<char>)
    ensures
        reserved(name) <==> name == "build"@ || name == "test"@ || name == "run"@
            || name == "package"@ || name == "doc"@ || name == "clean"@ || name == "tree"@
            || name == "classpath"@ || name == "update"@ || name == "verify"@
            || name == "outdated"@ || name == "add"@ || name == "remove"@ || name == "cache"@
            || name == "init"@ || name == "migrate"@ || name == "completions"@ || name == "task"@
            || name == "help"@ || name == "metadata"@ || name == "fetch"@,
{
}

/// A command fires the hooks of the commands that it includes, in their order: a
/// test builds first and so does a package.
pub proof fn commands_fire_what_they_include()
    ensures
        Builtin::Build.fires() == seq![Hook::PreCompile, Hook::PostCompile],
        Builtin::Test.fires() == Builtin::Build.fires() + seq![Hook::PreTest, Hook::PostTest],
        Builtin::Package.fires() == Builtin::Build.fires() + seq![Hook::PostPackage],
        Builtin::Doc.fires() == seq![Hook::PreCompile],
{
    assert(Builtin::Test.fires() =~= Builtin::Build.fires() + seq![Hook::PreTest, Hook::PostTest]);
    assert(Builtin::Package.fires() =~= Builtin::Build.fires() + seq![Hook::PostPackage]);
}

/// The plugins that turn a language on.
pub proof fn plugins_turn_languages_on(id: Seq<char>)
    ensures
        plugin_language(id) == Some(Language::Kotlin) <==> id == "org.jetbrains.kotlin.jvm"@,
        plugin_language(id) == Some(Language::Scala) <==> id == "scala"@,
        plugin_language(id) == Some(Language::Groovy) <==> id == "groovy"@,
        plugin_language(id) != Some(Language::Java),
{
    reveal_strlit("org.jetbrains.kotlin.jvm");
    reveal_strlit("scala");
    reveal_strlit("groovy");
    assert("org.jetbrains.kotlin.jvm"@.len() == 24);
    assert("scala"@.len() == 5);
    assert("groovy"@.len() == 6);
}

/// The compiler of each language, and the libraries that come with it, in the
/// version of its table.
pub proof fn languages_bring_their_own(version: Seq<char>)
    ensures
        Language::Java.compiler_at(version) is None,
        Language::Kotlin.compiler_at(version) == Some("org.jetbrains.kotlin:kotlin-compiler-embeddable:"@
            + version),
        Language::Groovy.compiler_at(version) == Some("org.apache.groovy:groovy:"@ + version),
        older_than(version, 3)
            ==> Language::Scala.compiler_at(version) == Some("org.scala-lang:scala-compiler:"@
            + version),
        !older_than(version, 3)
            ==> Language::Scala.compiler_at(version) == Some("org.scala-lang:scala3-compiler_3:"@
            + version),
        Language::Java.libraries(version).len() == 0,
        Language::Kotlin.libraries(version) == seq![("org.jetbrains.kotlin"@, "kotlin-stdlib"@)],
        Language::Groovy.libraries(version) == seq![("org.apache.groovy"@, "groovy"@)],
        older_than(version, 3)
            ==> Language::Scala.libraries(version) == seq![("org.scala-lang"@, "scala-library"@)],
        !older_than(version, 3)
            ==> Language::Scala.libraries(version)[0] == ("org.scala-lang"@, "scala3-library_3"@),
        Language::Kotlin.refusal(version) is Some <==> older_than(version, 2),
        Language::Groovy.refusal(version) is Some <==> older_than(version, 4),
        Language::Scala.refusal(version) is None <==> version_part(version, 0) is Some
            && version_part(version, 1) is Some && (version_part(version, 0) == Some(3nat)
            || (version_part(version, 0) == Some(2nat) && version_part(version, 1) == Some(13nat))),
{
    reveal_strlit(":");
    reveal_strlit("org.jetbrains.kotlin:kotlin-compiler-embeddable");
    reveal_strlit("org.jetbrains.kotlin:kotlin-compiler-embeddable:");
    assert("org.jetbrains.kotlin:kotlin-compiler-embeddable"@
        + ":"@ =~= "org.jetbrains.kotlin:kotlin-compiler-embeddable:"@);
    reveal_strlit("org.apache.groovy:groovy");
    reveal_strlit("org.apache.groovy:groovy:");
    assert("org.apache.groovy:groovy"@ + ":"@ =~= "org.apache.groovy:groovy:"@);
    reveal_strlit("org.scala-lang:scala-compiler");
    reveal_strlit("org.scala-lang:scala-compiler:");
    assert("org.scala-lang:scala-compiler"@ + ":"@ =~= "org.scala-lang:scala-compiler:"@);
    reveal_strlit("org.scala-lang:scala3-compiler_3");
    reveal_strlit("org.scala-lang:scala3-compiler_3:");
    assert("org.scala-lang:scala3-compiler_3"@ + ":"@ =~= "org.scala-lang:scala3-compiler_3:"@);
}

/// The counters of a coverage minimum.
pub proof fn counters_are_named(key: Seq<char>)
    ensures
        counter_named(key) == Some(CoverageCounter::Instruction) <==> key == "instruction"@,
        counter_named(key) == Some(CoverageCounter::Branch) <==> key == "branch"@,
        counter_named(key) == Some(CoverageCounter::Line) <==> key == "line"@,
        counter_named(key) == Some(CoverageCounter::Complexity) <==> key == "complexity"@,
        counter_named(key) == Some(CoverageCounter::Method) <==> key == "method"@,
        counter_named(key) == Some(CoverageCounter::Class) <==> key == "class"@,
{
    reveal_strlit("instruction");
    reveal_strlit("branch");
    reveal_strlit("line");
    reveal_strlit("complexity");
    reveal_strlit("method");
    reveal_strlit("class");
    assert("instruction"@.len() == 11);
    assert("branch"@.len() == 6 && "branch"@[0] == 'b');
    assert("line"@.len() == 4);
    assert("complexity"@.len() == 10);
    assert("method"@.len() == 6 && "method"@[0] == 'm');
    assert("class"@.len() == 5);
}

/// A library of Kotlin's own that a build names by its short name: the ones that
/// the standard library took in are the standard library, `test` is the one for
/// JUnit, and every other is `kotlin-` and the name, all in the version given.
pub proof fn kotlin_modules_are_libraries(text: Seq<char>, module: Seq<char>, version: Seq<char>, told: ReportModel)
    ensures
        kotlin_module(text, module, None, told).0 is None,
        kotlin_module(text, module, Some(version), told).0 is Some,
        kotlin_module(text, module, Some(version), told).0->0.group == "org.jetbrains.kotlin"@,
        kotlin_module(text, module, Some(version), told).0->0.version == version,
        module == "stdlib-jdk7"@ || module == "stdlib-jdk8"@
            ==> kotlin_module(text, module, Some(version), told).0->0.artifact == "kotlin-stdlib"@,
        module == "test"@
            ==> kotlin_module(text, module, Some(version), told).0->0.artifact == "kotlin-test-junit5"@,
        module != "stdlib-jdk7"@ && module != "stdlib-jdk8"@ && module != "test"@
            ==> kotlin_module(text, module, Some(version), told).0->0.artifact == "kotlin-"@
            + module,
{
    reveal_strlit("stdlib-jdk7");
    reveal_strlit("stdlib-jdk8");
    reveal_strlit("test");
    assert("stdlib-jdk7"@.len() == 11 && "stdlib-jdk7"@[10] == '7');
    assert("stdlib-jdk8"@.len() == 11 && "stdlib-jdk8"@[10] == '8');
    assert("test"@.len() == 4);
}

/// A dependency without its own dependencies leaves out all of them; one that
/// excludes a group or a module leaves out what it names, and all of what it
/// does not.
pub proof fn exclusions_leave_out_what_they_name(text: Seq<char>, rest: Seq<char>, before: Seq<char>)
    ensures
        within(dense(text), "transitive=false"@) || within(dense(text), "isTransitive=false"@)
            ==> exclusion_of(text) == Some(("*"@, "*"@)),
        !within(dense(text), "transitive=false"@) && !within(dense(text), "isTransitive=false"@)
            && cut(text, "exclude"@) == Some((before, rest))
            ==> exclusion_of(text) == (if given_to(rest, "group"@) is None
            && given_to(rest, "module"@) is None { None } else { Some((match given_to(rest, "group"@) { Some(g) => g, None => "*"@ }, match given_to(rest, "module"@) { Some(a) => a, None => "*"@ })) }),
        !within(dense(text), "transitive=false"@) && !within(dense(text), "isTransitive=false"@)
            && cut(text, "exclude"@) is None ==> exclusion_of(text) is None,
{
}

/// A line that names the main class.
pub proof fn main_lines_start_so(line: Seq<char>)
    ensures
        main_line(line) <==> starts(line, "mainClass"@) || starts(line, "mainClassName"@)
            || starts(line, "getMainClass()"@),
{
}

/// The directories that a script names without writing them: Gradle's output, and
/// the project.
pub proof fn directories_are_known(e: Seq<char>)
    ensures
        known_directory(e) == Some("build"@) <==> e == "layout.buildDirectory"@
            || e == "project.layout.buildDirectory"@ || e == "buildDir"@
            || e == "project.buildDir"@,
        known_directory(e) == Some("."@) <==> e == "layout.projectDirectory"@
            || e == "project.layout.projectDirectory"@ || e == "projectDir"@ || e == "rootDir"@
            || e == "project.projectDir"@ || e == "project.rootDir"@
            || e == "rootProject.projectDir"@ || e == "rootProject.rootDir"@,
{
    reveal_strlit("layout.buildDirectory");
    reveal_strlit("project.layout.buildDirectory");
    reveal_strlit("buildDir");
    reveal_strlit("project.buildDir");
    reveal_strlit("layout.projectDirectory");
    reveal_strlit("project.layout.projectDirectory");
    reveal_strlit("projectDir");
    reveal_strlit("rootDir");
    reveal_strlit("project.projectDir");
    reveal_strlit("project.rootDir");
    reveal_strlit("rootProject.projectDir");
    reveal_strlit("rootProject.rootDir");
    reveal_strlit("build");
    reveal_strlit(".");
    assert("layout.buildDirectory"@.len() == 21);
    assert("project.layout.buildDirectory"@.len() == 29);
    assert("buildDir"@.len() == 8);
    assert("project.buildDir"@.len() == 16);
    assert("layout.projectDirectory"@.len() == 23);
    assert("project.layout.projectDirectory"@.len() == 31);
    assert("projectDir"@.len() == 10);
    assert("rootDir"@.len() == 7);
    assert("project.projectDir"@.len() == 18);
    assert("project.rootDir"@.len() == 15);
    assert("rootProject.projectDir"@.len() == 22);
    assert("rootProject.rootDir"@.len() == 19);
    assert("build"@.len() == 5);
    assert("."@.len() == 1);
}

/// An attribute of the jar that a script computes from the project's version, or
/// its name, is computed from them still.
pub proof fn attributes_follow_the_project(e: Seq<char>)
    ensures
        names_version(e) <==> e == "version"@ || e == "project.version"@
            || e == "project.version.toString()"@ || e == "\"$version\""@
            || e == "\"${version}\""@ || e == "\"${project.version}\""@,
        names_project(e) <==> e == "project.name"@ || e == "rootProject.name"@
            || e == "\"${project.name}\""@ || e == "\"${rootProject.name}\""@,
        names_version(trimmed(sans_tail(trimmed(e), Class::One(';'))))
            ==> attribute_value(e) == Some("{project.version}"@),
        !names_version(trimmed(sans_tail(trimmed(e), Class::One(';'))))
            && names_project(trimmed(sans_tail(trimmed(e), Class::One(';'))))
            ==> attribute_value(e) == Some("{project.name}"@),
{
}

/// The value of a placeholder in a path: the project's root, its output, the
/// classes and the test classes in it, its jar, its name and its version. A
/// classpath has none.
pub proof fn placeholders_are_the_projects(m: ManifestModel)
    ensures
        path_placeholder(m, Placeholder::Root) == Ok::<Seq<char>, Fault>(m.root),
        path_placeholder(m, Placeholder::Target) == Ok::<Seq<char>, Fault>(under(m.root, m.target_dir)),
        path_placeholder(m, Placeholder::Classes) == Ok::<Seq<char>, Fault>(under(under(m.root, m.target_dir), "classes"@)),
        path_placeholder(m, Placeholder::TestClasses) == Ok::<Seq<char>, Fault>(under(under(m.root, m.target_dir), "test-classes"@)),
        path_placeholder(m, Placeholder::Jar) == Ok::<Seq<char>, Fault>(under(under(m.root, m.target_dir), m.name
            + "-"@ + m.version + ".jar"@)),
        path_placeholder(m, Placeholder::ProjectName) == Ok::<Seq<char>, Fault>(m.name),
        path_placeholder(m, Placeholder::ProjectVersion) == Ok::<Seq<char>, Fault>(m.version),
        path_placeholder(m, Placeholder::Classpath) is Err,
        path_placeholder(m, Placeholder::RuntimeClasspath) is Err,
        path_placeholder(m, Placeholder::TestClasspath) is Err,
        path_placeholder(m, Placeholder::ClasspathArgfile) is Err,
{
}

/// What an artifact of a POM has on a classpath: its jar, or the jar of its
/// tests. No other kind has anything there.
pub proof fn kinds_are_jars(d: PomDependencyModel)
    ensures
        d.kind == "jar"@ || d.kind == "bundle"@ || d.kind == "ejb"@
            ==> classifier_of(d) == Some(d.classifier),
        d.kind == "test-jar"@ && d.classifier is None ==> classifier_of(d) == Some(Some("tests"@)),
        d.kind == "test-jar"@ && d.classifier is Some ==> classifier_of(d) == Some(d.classifier),
        classifier_of(d) is Some <==> d.kind == "jar"@ || d.kind == "bundle"@ || d.kind == "ejb"@
            || d.kind == "test-jar"@,
{
    reveal_strlit("jar");
    reveal_strlit("bundle");
    reveal_strlit("ejb");
    reveal_strlit("test-jar");
    assert("jar"@.len() == 3 && "jar"@[0] == 'j');
    assert("bundle"@.len() == 6);
    assert("ejb"@.len() == 3 && "ejb"@[0] == 'e');
    assert("test-jar"@.len() == 8);
}

/// What in an execution no task of jrs has: it is left out when it is skipped,
/// runs beside the build, writes its output to a file, takes an executable or
/// modules from elsewhere, or the classpath of the tests.
pub proof fn executions_are_refused_so(configs: Seq<ElementModel>)
    ensures
        refusal_of(configs) is None <==> text_in(configs, "skip"@) != Some("true"@)
            && get(configs, "async"@) is None && get(configs, "outputFile"@) is None
            && get(configs, "executableDependency"@) is None
            && get(configs, "modulepath"@) is None
            && (text_in(configs, "classpathScope"@) is None
            || text_in(configs, "classpathScope"@) == Some("runtime"@)
            || text_in(configs, "classpathScope"@) == Some("compile"@)),
{
}

/// The filters of a repository that name whole groups.
pub proof fn filters_name_groups(line: Seq<char>)
    ensures
        first_word(line) == Some("includeGroup"@)
            ==> filter_of(line) == FilterModel::Groups(literals_of(line), false),
        first_word(line) == Some("includeGroupAndSubgroups"@) && literals_of(line).len() == 1
            ==> filter_of(line) == FilterModel::Groups(seq![literals_of(line)[0], literals_of(line)[0]
                + ".*"@], false),
        first_word(line) == Some("releasesOnly"@) || first_word(line) == Some("snapshotsOnly"@)
            || first_word(line) == Some("onlyForConfigurations"@)
            || first_word(line) == Some("notForConfigurations"@)
            ==> filter_of(line) == FilterModel::Unread,
{
    reveal_strlit("includeGroup");
    reveal_strlit("includeGroupAndSubgroups");
    reveal_strlit("includeGroupByRegex");
    reveal_strlit("releasesOnly");
    reveal_strlit("snapshotsOnly");
    reveal_strlit("onlyForConfigurations");
    reveal_strlit("notForConfigurations");
    assert("includeGroup"@.len() == 12 && "includeGroup"@[0] == 'i');
    assert("includeGroupAndSubgroups"@.len() == 24);
    assert("includeGroupByRegex"@.len() == 19);
    assert("releasesOnly"@.len() == 12 && "releasesOnly"@[0] == 'r');
    assert("snapshotsOnly"@.len() == 13);
    assert("onlyForConfigurations"@.len() == 21);
    assert("notForConfigurations"@.len() == 20);
    reveal_with_fuel(with_below, 3);
    if literals_of(line).len() == 1 {
        let none = Seq::<Seq<char>>::empty();
        let one = literals_of(line)[0];
        assert(none.push(one).push(one + ".*"@) =~= seq![one, one + ".*"@]);
    }
}

/// The entries of a classpath are parted as the platform parts them.
pub proof fn classpaths_are_parted()
    ensures
        path_separator(true) == ";"@,
        path_separator(false) == ":"@,
{
}

/// A native image is made of the classpath, into the output, with the arguments
/// given, and the main class comes last.
pub proof fn images_are_made_so(classpath: Seq<char>, output: Seq<char>, extra: Seq<Seq<char>>, main: Seq<char>)
    ensures
        ({ let args = image_arguments(classpath, output, extra, main); args.len() == extra.len()
            + 5 && args[0] == "-cp"@ && args[1] == classpath && args[2] == "-o"@
            && args[3] == output && args.last() == main && forall|k: int| 0 <= k < extra.len()
            ==> #[trigger] args[k + 4] == extra[k] }),
{
}

} // verus!
