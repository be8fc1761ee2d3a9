//! What the names that jrs and the builds use stand for.

use crate::attributes::{alike, owned_attribute};
use crate::dependency::DependencyModel;
use crate::element::{entity, ElementModel};
use crate::gradle_decl::{after_word, relation_of};
use crate::gradle_text::{opens, BlockModel};
use crate::language::Language;
use crate::maven_profiles::{
    conditions_from, described, jvm_property, negated, plain_of, PlainModel,
};
use crate::migration::runs_language;
use crate::obfuscate::{arguments_of as proguard_arguments, provider_on, services_entry};
use crate::report::ReportModel;
use crate::task::{Builtin, Hook};
use crate::template::Placeholder;
use crate::text::{dense, ends, includes, run_end, sans_head, starts, trimmed, Class};
use vstd::prelude::*;

verus! {

/// The keys of the hooks, and their order.
pub proof fn hooks_are_called_so()
    ensures
        Hook::PreCompile.word() == "pre-compile"@,
        Hook::PostCompile.word() == "post-compile"@,
        Hook::PreTest.word() == "pre-test"@,
        Hook::PostTest.word() == "post-test"@,
        Hook::PostPackage.word() == "post-package"@,
        Hook::PreRun.word() == "pre-run"@,
        Hook::PreCompile.place() < Hook::PostCompile.place() < Hook::PreTest.place() < Hook::PostTest.place() < Hook::PostPackage.place() < Hook::PreRun.place(),
{
}

/// The names of the commands that a task can wait for.
pub proof fn commands_are_called_so()
    ensures
        Builtin::Build.word() == "build"@,
        Builtin::Test.word() == "test"@,
        Builtin::Package.word() == "package"@,
        Builtin::Doc.word() == "doc"@,
{
}

/// The names of the placeholders, and which of them are classpaths.
pub proof fn placeholders_are_called_so()
    ensures
        Placeholder::Root.word() == "root"@,
        Placeholder::Target.word() == "target"@,
        Placeholder::ProjectName.word() == "project.name"@,
        Placeholder::ProjectVersion.word() == "project.version"@,
        Placeholder::Classes.word() == "classes"@,
        Placeholder::TestClasses.word() == "test-classes"@,
        Placeholder::Classpath.word() == "classpath"@,
        Placeholder::RuntimeClasspath.word() == "runtime-classpath"@,
        Placeholder::TestClasspath.word() == "test-classpath"@,
        Placeholder::ClasspathArgfile.word() == "classpath-argfile"@,
        Placeholder::Jar.word() == "jar"@,
        !Placeholder::Root.on_classpath(),
        !Placeholder::Target.on_classpath(),
        !Placeholder::ProjectName.on_classpath(),
        !Placeholder::ProjectVersion.on_classpath(),
        !Placeholder::Classes.on_classpath(),
        !Placeholder::TestClasses.on_classpath(),
        Placeholder::Classpath.on_classpath(),
        Placeholder::RuntimeClasspath.on_classpath(),
        Placeholder::TestClasspath.on_classpath(),
        Placeholder::ClasspathArgfile.on_classpath(),
        !Placeholder::Jar.on_classpath(),
{
}

/// The names of the languages, and the keys of their compilers' arguments.
pub proof fn languages_are_called_so()
    ensures
        Language::Java.word() == "java"@,
        Language::Kotlin.word() == "kotlin"@,
        Language::Scala.word() == "scala"@,
        Language::Groovy.word() == "groovy"@,
        Language::Java.title() == "Java"@,
        Language::Kotlin.title() == "Kotlin"@,
        Language::Scala.title() == "Scala"@,
        Language::Groovy.title() == "Groovy"@,
        Language::Kotlin.args_word() == "kotlinc-args"@,
        Language::Scala.args_word() == "scalac-args"@,
        Language::Groovy.args_word() == "groovyc-args"@,
{
}

/// The characters that XML names.
pub proof fn entities_are_characters(name: Seq<char>)
    ensures
        entity(name) == Some('<') <==> name == "lt"@,
        entity(name) == Some('>') <==> name == "gt"@,
        entity(name) == Some('&') <==> name == "amp"@,
        entity(name) == Some('"') <==> name == "quot"@,
        entity(name) == Some('\'') <==> name == "apos"@,
{
    reveal_strlit("lt");
    reveal_strlit("gt");
    reveal_strlit("amp");
    reveal_strlit("quot");
    reveal_strlit("apos");
    assert("lt"@.len() == 2 && "lt"@[0] == 'l');
    assert("gt"@.len() == 2 && "gt"@[0] == 'g');
    assert("amp"@.len() == 3);
    assert("quot"@.len() == 4 && "quot"@[0] == 'q');
    assert("apos"@.len() == 4 && "apos"@[0] == 'a');
}

/// A profile is active on its own when every condition of it is a property that
/// is not set; by default when it has no condition and says so; and otherwise it
/// waits, or never is.
pub proof fn profiles_are_active_so(profile: ElementModel)
    ensures
        profile.child("activation"@) is None ==> plain_of(profile) == PlainModel::Never,
        profile.child("activation"@) matches Some(a)
            ==> ((forall|k: int| 0 <= k < a.children.len()
            ==> (#[trigger] a.children[k]).name == "activeByDefault"@)
            ==> plain_of(profile) == (if a.text_of("activeByDefault"@) == Some("true"@) { PlainModel::ByDefault } else { PlainModel::Never })),
        profile.child("activation"@) matches Some(a) ==> (plain_of(profile) is Holds
            <==> (exists|k: int| 0 <= k < a.children.len()
            && (#[trigger] a.children[k]).name != "activeByDefault"@)
            && (forall|k: int| 0 <= k < a.children.len()
            && (#[trigger] a.children[k]).name != "activeByDefault"@ ==> negated(a.children[k]))),
{
    if let Some(a) = profile.child("activation"@) {
        lemma_conditions(a.children, 0, seq![], true);
    }
}

proof fn lemma_conditions(list: Seq<ElementModel>, i: int, out: Seq<Seq<char>>, hold: bool)
    requires
        0 <= i,
    ensures
        conditions_from(list, i, out, hold).0.len() >= out.len(),
        conditions_from(list, i, out, hold).0.len() == out.len() <==> forall|k: int|
            i <= k < list.len() ==> (#[trigger] list[k]).name == "activeByDefault"@,
        conditions_from(list, i, out, hold).1 <==> hold && forall|k: int|
            i <= k < list.len() && (#[trigger] list[k]).name != "activeByDefault"@
                ==> negated(list[k]),
    decreases list.len() - i,
{
    if i < list.len() {
        if list[i].name == "activeByDefault"@ {
            lemma_conditions(list, i + 1, out, hold);
        } else {
            lemma_conditions(list, i + 1, out.push(described(list[i])), hold && negated(list[i]));
        }
    }
}

/// A property that is not set: one whose name is marked so, without a value, and
/// is none of the JVM's own.
pub proof fn negated_properties_are_marked(condition: ElementModel)
    ensures
        negated(condition) ==> condition.name == "property"@
            && condition.text_of("value"@) is None && condition.text_of("name"@) is Some
            && starts(condition.text_of("name"@)->0, "!"@),
        forall|n: Seq<char>| #[trigger] jvm_property(n) <==> starts(n, "java."@)
            || starts(n, "os."@) || starts(n, "user."@) || starts(n, "file."@)
            || starts(n, "line."@) || starts(n, "path."@) || starts(n, "sun."@),
{
}

/// The attributes of the jar that jrs writes itself.
pub proof fn owned_attributes_are_these(name: Seq<char>)
    ensures
        owned_attribute(name) is Some <==> alike("Manifest-Version"@, name)
            || alike("Created-By"@, name) || alike("Main-Class"@, name)
            || alike("Class-Path"@, name) || alike("Name"@, name),
{
}

/// The words that tie tasks: what a task depends on, what finalizes it, and what
/// it runs after.
pub proof fn relations_are_their_words(text: Seq<char>)
    ensures
        relation_of(text) matches Some((r, rest)) ==> (r is DependsOn
            ==> after_word(sans_head(trimmed(text), Class::One('.')), "dependsOn"@) == Some(rest))
                && (r is FinalizedBy
                ==> after_word(sans_head(trimmed(text), Class::One('.')), "finalizedBy"@) == Some(rest))
                && (r is RunsAfter
                ==> after_word(sans_head(trimmed(text), Class::One('.')), "mustRunAfter"@) == Some(rest)
                || after_word(sans_head(trimmed(text), Class::One('.')), "shouldRunAfter"@) == Some(rest)),
        after_word(sans_head(trimmed(text), Class::One('.')), "dependsOn"@) is Some
            ==> (relation_of(text) matches Some((r, _)) && r is DependsOn),
{
}

/// The library that a language's version is read from.
pub proof fn libraries_run_languages(d: DependencyModel)
    ensures
        runs_language(d, Language::Kotlin) <==> d.group == "org.jetbrains.kotlin"@
            && d.artifact == "kotlin-stdlib"@,
        runs_language(d, Language::Scala) <==> d.group == "org.scala-lang"@
            && (d.artifact == "scala3-library_3"@ || d.artifact == "scala-library"@),
        runs_language(d, Language::Groovy) <==> d.group == "org.apache.groovy"@
            && (d.artifact == "groovy"@ || d.artifact == "groovy-all"@),
        !runs_language(d, Language::Java),
{
}

/// The blocks of a script that configure the tests, the jar, or Kotlin.
pub proof fn blocks_open_so(header: Seq<char>)
    ensures
        opens(BlockModel::Test, header) <==> starts(dense(header), "test{"@)
            || starts(dense(header), "tasks.test"@)
            || starts(dense(header), "tasks.withType(Test"@)
            || starts(dense(header), "tasks.withType<Test>"@)
            || starts(dense(header), "tasks.named<Test>"@)
            || starts(dense(header), "tasks.named('test'"@)
            || starts(dense(header), "tasks.named(\"test\""@),
        opens(BlockModel::Jar, header) <==> starts(dense(header), "jar{"@)
            || starts(dense(header), "tasks.jar{"@)
            || starts(dense(header), "tasks.named('jar')"@)
            || starts(dense(header), "tasks.named(\"jar\")"@)
            || starts(dense(header), "tasks.named<Jar>(\"jar\")"@)
            || starts(dense(header), "tasks.getByName<Jar>(\"jar\")"@)
            || starts(dense(header), "tasks.withType(Jar)"@)
            || starts(dense(header), "tasks.withType<Jar>"@),
        opens(BlockModel::Kotlin, header) <==> starts(dense(header), "kotlin{"@),
{
}

/// What is told of a migration goes in the list of its kind, and nowhere else.
pub proof fn reports_keep_their_lists(r: ReportModel, text: Seq<char>)
    ensures
        r.with_migrated(text).migrated == r.migrated.push(text)
            && r.with_migrated(text).needs_review == r.needs_review
            && r.with_migrated(text).not_migrated == r.not_migrated,
        r.with_review(text).needs_review == r.needs_review.push(text)
            && r.with_review(text).migrated == r.migrated
            && r.with_review(text).not_migrated == r.not_migrated,
        r.with_skipped(text).not_migrated == r.not_migrated.push(text)
            && r.with_skipped(text).migrated == r.migrated
            && r.with_skipped(text).needs_review == r.needs_review,
{
}

/// A jmod of the JDK and a file of services are known by their names, and a line
/// of such a file names a provider up to a comment.
pub proof fn services_are_known(name: Seq<char>, line: Seq<char>)
    ensures
        services_entry(name) <==> starts(name, "META-INF/services/"@) && !ends(name, "/"@),
        !includes(line, '#') ==> provider_on(line) == trimmed(line),
{
    if !includes(line, '#') {
        lemma_whole(line, 0);
        assert(line.take(line.len() as int) =~= line);
    }
}

proof fn lemma_whole(line: Seq<char>, i: int)
    requires
        0 <= i <= line.len(),
        !includes(line, '#'),
    ensures
        run_end(line, Class::Not('#'), i) == line.len(),
    decreases line.len() - i,
{
    if i < line.len() {
        lemma_whole(line, i + 1);
    }
}

/// The ProGuard that obfuscates is run by its class from the tool's classpath,
/// over the configuration that was written.
pub proof fn proguard_is_run_so(classpath: Seq<char>, config: Seq<char>)
    ensures
        proguard_arguments(classpath, config).len() == 4,
        proguard_arguments(classpath, config)[0] == "-cp"@,
        proguard_arguments(classpath, config)[1] == classpath,
        proguard_arguments(classpath, config)[2] == "proguard.ProGuard"@,
        proguard_arguments(classpath, config)[3] == "@"@ + config,
{
}

} // verus!
