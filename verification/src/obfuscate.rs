//! Obfuscation: `jrs package --obfuscate`.
//!
//! `ProGuard` is resolved from Maven Central as an isolated tool graph, pinned
//! in `jrs.lock` beside the compilers, and run on the project's JDK. jrs shells
//! out to it and never rewrites class files itself — a driver here as
//! everywhere. Obfuscation runs after `package`, over the jar `package`
//! assembled, so it composes with the fat-jar merge rules instead of redoing
//! them.
//!
//! The whole invocation goes in `target/.jrs/obfuscate.pro`, in `ProGuard`'s own
//! configuration format, and jrs runs `java -cp <graph> proguard.ProGuard
//! @obfuscate.pro`. The `java` launcher stops expanding `@argfiles` at the main
//! class, so the trailing `@obfuscate.pro` reaches `ProGuard` verbatim.
//!
//! What survives, by keeping the names it names: the entry point (`-keep` on
//! `main`), every class a `META-INF/services/` file names (`ServiceLoader`),
//! and whatever `[obfuscate].keep` lists. Everything else is renamed and its
//! debug information stripped. Nothing is removed or reordered
//! (`-dontshrink -dontoptimize`), so the program behaves — and times — as the
//! plain jar does; only the names change.

use crate::archive::{
    entry_count, entry_name, entry_text, open_archive, zip_bytes, zip_count, zip_fault, zip_name,
    zip_text,
};
use crate::coord::ga_text;
use crate::error::{Fault, JrsError};
use crate::gradle_files::{add_path, with_path};
use crate::order::{ascending, place, placed, placing_keeps_order};
use crate::paths::{components, join_path, split_path, under};
use crate::text::{
    cat2, cat3, cat4, ends, ends_with, has_char, head, includes, joined, line_seq, lines, none_of,
    one_of, outcome, put, starts, starts_with, take_run, trim, trimmed, Class,
};
use crate::toolchain::{
    invocation, invoke, path_separator, Invocation, InvocationModel, Toolchain,
};
use vstd::prelude::*;

verus! {

/// `ProGuard`'s coordinate and entry point. `proguard-base` is not
/// self-contained (it pulls `proguard-core` and the Kotlin metadata reader), so
/// it is resolved as a graph, not fetched as a lone jar.
pub const GROUP: &'static str = "com.guardsquare";

pub const ARTIFACT: &'static str = "proguard-base";

pub const MAIN_CLASS: &'static str = "proguard.ProGuard";

/// The name `ProGuard`'s pinned graph goes by in `jrs.lock`'s `[[tool]]` blocks
/// and in `jrs tree --tool`.
pub const TOOL_NAME: &'static str = "obfuscator";

/// The `.jmod` entry filter: a module archive holds its classes under
/// `classes/`, with bundled jars and a `module-info` `ProGuard` must not read.
pub const JMOD_FILTER: &'static str = "!**.jar;!module-info.class";

/// The single root of the obfuscator's tool graph, at `version`, as
/// `group:artifact:version`.
pub fn coord(version: &str) -> (r: String)
    ensures
        r@ == ga_text(GROUP@, ARTIFACT@) + ":"@ + version@,
{
    cat3(cat3(GROUP, ":", ARTIFACT).as_str(), ":", version)
}

/// What to obfuscate, and the names to leave alone while doing it.
#[derive(Debug)]
pub struct Obfuscation<'a> {
    /// The assembled jar: `ProGuard`'s input, and where the result lands.
    pub jar: &'a str,
    /// `ProGuard`'s own graph, resolved apart from the project's.
    pub tool_classpath: &'a Vec<String>,
    /// The classes `ProGuard` may read but not obfuscate: the JDK's modules,
    /// and the dependency jars that live outside the jar (a thin or portable
    /// jar). A `.jmod` gets the module filter; a plain jar is taken whole.
    pub library_jars: &'a Vec<String>,
    /// The entry point to keep, when the project has one.
    pub main_class: Option<&'a str>,
    /// `[obfuscate].keep`: fully-qualified class names whose names must survive,
    /// for a framework or reflection that looks them up by name.
    pub keep: &'a Vec<String>,
    /// `[obfuscate].proguard-args`: passed through verbatim, last.
    pub extra_args: &'a Vec<String>,
}

/// What to obfuscate.
pub struct ObfuscationModel {
    pub jar: Seq<char>,
    pub tool_classpath: Seq<Seq<char>>,
    pub library_jars: Seq<Seq<char>>,
    pub main_class: Option<Seq<char>>,
    pub keep: Seq<Seq<char>>,
    pub extra_args: Seq<Seq<char>>,
}

impl<'a> DeepView for Obfuscation<'a> {
    type V = ObfuscationModel;

    open spec fn deep_view(&self) -> ObfuscationModel {
        ObfuscationModel {
            jar: self.jar@,
            tool_classpath: self.tool_classpath.deep_view(),
            library_jars: self.library_jars.deep_view(),
            main_class: self.main_class.deep_view(),
            keep: self.keep.deep_view(),
            extra_args: self.extra_args.deep_view(),
        }
    }
}

// ---- modules ---------------------------------------------------------------

/// The path's extension is `jmod`.
pub open spec fn jmod_path(path: Seq<char>) -> bool {
    let parts = components(path);
    parts.len() > 0 && parts.last().len() > 5 && ends(parts.last(), ".jmod"@)
}

fn is_module(path: &str) -> (r: bool)
    ensures
        r == jmod_path(path@),
{
    let parts = split_path(path);
    let n: usize = parts.len();
    assert(parts.deep_view().len() == n);
    if n == 0 {
        return false;
    }
    assert(parts.deep_view().last() == parts@[n - 1]@);
    parts[n - 1].as_str().unicode_len() > 5 && ends_with(parts[n - 1].as_str(), ".jmod")
}

/// The modules among the paths from the `i`th on, in order, with those before.
pub open spec fn modules_from(paths: Seq<Seq<char>>, i: int, out: Seq<Seq<char>>) -> Seq<Seq<char>>
    decreases paths.len() - i,
{
    if i < 0 || i >= paths.len() {
        out
    } else if jmod_path(paths[i]) {
        modules_from(paths, i + 1, with_path(out, paths[i]))
    } else {
        modules_from(paths, i + 1, out)
    }
}

/// The JDK's modules as `ProGuard` library jars: every `.jmod` among `files`,
/// what the toolchain's `jmods/` holds, sorted for a deterministic
/// configuration.
pub fn jdk_library_jars(files: &Vec<String>) -> (r: Vec<String>)
    ensures
        r.deep_view() == modules_from(files.deep_view(), 0, seq![]),
{
    let ghost all = files.deep_view();
    let mut out: Vec<String> = none_of();
    let mut i: usize = 0;
    while i < files.len()
        invariant
            all == files.deep_view(),
            i <= files@.len(),
            modules_from(all, 0, seq![]) == modules_from(all, i as int, out.deep_view()),
        decreases files@.len() - i,
    {
        assert(all[i as int] == files@[i as int]@);
        if is_module(files[i].as_str()) {
            add_path(&mut out, files[i].clone());
        }
        i = i + 1;
    }
    out
}

// ---- services --------------------------------------------------------------

/// The entry is a `META-INF/services/` file.
pub open spec fn services_entry(name: Seq<char>) -> bool {
    starts(name, "META-INF/services/"@) && !ends(name, "/"@)
}

/// The class that a line of a services file names: it may carry a `#` comment.
pub open spec fn provider_on(line: Seq<char>) -> Seq<char> {
    trimmed(head(line, Class::Not('#')))
}

/// The providers that the lines from the `i`th on name, in order and each
/// once, with those before.
pub open spec fn providers_from(lines: Seq<Seq<char>>, i: int, out: Seq<Seq<char>>) -> Seq<
    Seq<char>,
>
    decreases lines.len() - i,
{
    if i < 0 || i >= lines.len() {
        out
    } else if provider_on(lines[i]).len() > 0 {
        providers_from(lines, i + 1, placed(out, provider_on(lines[i])))
    } else {
        providers_from(lines, i + 1, out)
    }
}

/// Add the providers that a services file names to those before, in order and
/// each once.
pub fn add_providers(text: &str, names: &mut Vec<String>)
    ensures
        final(names).deep_view() == providers_from(line_seq(text@), 0, old(names).deep_view()),
{
    let list = lines(text);
    let ghost all = list.deep_view();
    let ghost start = names.deep_view();
    let mut i: usize = 0;
    while i < list.len()
        invariant
            all == list.deep_view(),
            i <= list@.len(),
            providers_from(all, 0, start) == providers_from(all, i as int, names.deep_view()),
        decreases list@.len() - i,
    {
        assert(all[i as int] == list@[i as int]@);
        let class = trim(take_run(list[i], Class::Not('#')));
        if !class.is_empty() {
            place(names, class);
        }
        i = i + 1;
    }
}

/// Whether the entry called `name` is a file of `META-INF/services/`.
pub fn is_services_entry(name: &str) -> (r: bool)
    ensures
        r == services_entry(name@),
{
    starts_with(name, "META-INF/services/") && !ends_with(name, "/")
}

/// The providers that the entries from the `i`th on name, with those before,
/// or why the jar cannot be read.
pub open spec fn services_from(jar: Seq<char>, bytes: Seq<u8>, i: nat, out: Seq<Seq<char>>) -> Result<
    Seq<Seq<char>>,
    Fault,
>
    decreases zip_count(bytes) - i,
{
    if i >= zip_count(bytes) {
        Ok(out)
    } else {
        match zip_name(bytes, i) {
            Err(e) => Err(Fault::Build(jar + ": "@ + e)),
            Ok(name) => if !services_entry(name) {
                services_from(jar, bytes, i + 1, out)
            } else {
                match zip_text(bytes, i) {
                    Err(e) => Err(Fault::Build(jar + ": "@ + e)),
                    Ok(text) => services_from(
                        jar,
                        bytes,
                        i + 1,
                        providers_from(line_seq(text), 0, out),
                    ),
                }
            },
        }
    }
}

/// The providers that a jar names.
pub open spec fn services_of(jar: Seq<char>, bytes: Seq<u8>) -> Result<Seq<Seq<char>>, Fault> {
    match zip_fault(bytes) {
        Some(e) => Err(Fault::Build(jar + " is not a readable jar: "@ + e)),
        None => services_from(jar, bytes, 0, seq![]),
    }
}

/// The classes named in the `META-INF/services/` files of the jar that `bytes`
/// are — the `ServiceLoader` providers whose names must survive obfuscation.
/// Sorted and deduplicated so the configuration is deterministic.
pub fn service_classes(jar: &str, bytes: Vec<u8>) -> (r: Result<Vec<String>, JrsError>)
    ensures
        outcome(r) == services_of(jar@, bytes@),
{
    let ghost b = bytes@;
    let mut archive = match open_archive(bytes) {
        Ok(a) => a,
        Err(e) => {
            return Err(JrsError::Build(cat3(jar, " is not a readable jar: ", e.as_str())));
        },
    };
    let n: usize = entry_count(&archive);
    let mut names: Vec<String> = none_of();
    let mut i: usize = 0;
    while i < n
        invariant
            b == bytes@,
            zip_fault(b) is None,
            zip_bytes(archive) == b,
            n == zip_count(b),
            i <= n,
            services_of(jar@, b) == services_from(jar@, b, i as nat, names.deep_view()),
        decreases n - i,
    {
        let name = match entry_name(&mut archive, i) {
            Ok(name) => name,
            Err(e) => {
                return Err(JrsError::Build(cat3(jar, ": ", e.as_str())));
            },
        };
        if is_services_entry(name.as_str()) {
            match entry_text(&mut archive, i) {
                Ok(text) => {
                    add_providers(text.as_str(), &mut names);
                },
                Err(e) => {
                    return Err(JrsError::Build(cat3(jar, ": ", e.as_str())));
                },
            }
        }
        i = i + 1;
    }
    Ok(names)
}

// ---- the configuration -----------------------------------------------------

/// One classpath entry in `ProGuard`'s syntax.
pub open spec fn entry_of(path: Seq<char>) -> Seq<char> {
    let quoted = if includes(path, ' ') || includes(path, '\t') {
        "\""@ + path + "\""@
    } else {
        path
    };
    if jmod_path(path) {
        quoted + "("@ + JMOD_FILTER@ + ")"@
    } else {
        quoted
    }
}

/// One classpath entry in `ProGuard`'s syntax: quoted when it has whitespace,
/// and a `.jmod` carrying the module filter.
pub fn entry(path: &str) -> (r: String)
    ensures
        r@ == entry_of(path@),
{
    let quoted = if has_char(path, ' ') || has_char(path, '\t') {
        cat3("\"", path, "\"")
    } else {
        path.to_owned()
    };
    if is_module(path) {
        cat4(quoted.as_str(), "(", JMOD_FILTER, ")")
    } else {
        quoted
    }
}

/// What each line of a section holds between its beginning and its end.
pub enum Section {
    Library,
    Provider,
    Keep,
    Argument,
}

/// A line of a section.
pub open spec fn section_line(section: Section, item: Seq<char>) -> Seq<char> {
    match section {
        Section::Library => "-libraryjars "@ + entry_of(item) + "\n"@,
        Section::Provider => "-keep class "@ + item + " {\n    <init>(...);\n}\n"@,
        Section::Keep => "-keep class "@ + item + "\n"@,
        Section::Argument => item + "\n"@,
    }
}

/// The configuration with a section's lines from the `i`th item on.
pub open spec fn with_section(s: Seq<char>, section: Section, items: Seq<Seq<char>>, i: int) -> Seq<
    char,
>
    decreases items.len() - i,
{
    if i < 0 || i >= items.len() {
        s
    } else {
        with_section(s + section_line(section, items[i]), section, items, i + 1)
    }
}

fn write_line(section: &Section, item: &str) -> (r: String)
    ensures
        r@ == section_line(*section, item@),
{
    match section {
        Section::Library => cat3("-libraryjars ", entry(item).as_str(), "\n"),
        Section::Provider => cat3("-keep class ", item, " {\n    <init>(...);\n}\n"),
        Section::Keep => cat3("-keep class ", item, "\n"),
        Section::Argument => cat2(item, "\n"),
    }
}

fn write_section(s: &mut String, section: Section, items: &Vec<String>)
    ensures
        final(s)@ == with_section(old(s)@, section, items.deep_view(), 0),
{
    let ghost all = items.deep_view();
    let ghost start = s@;
    let mut i: usize = 0;
    while i < items.len()
        invariant
            all == items.deep_view(),
            i <= items@.len(),
            with_section(start, section, all, 0) == with_section(s@, section, all, i as int),
        decreases items@.len() - i,
    {
        assert(all[i as int] == items@[i as int]@);
        s.append(write_line(&section, items[i].as_str()).as_str());
        i = i + 1;
    }
}

/// What the configuration says whatever the project is: rename and strip debug
/// information, but change nothing else — keeping the code and its order is
/// what leaves behaviour and run timing untouched. Debug attributes
/// (`SourceFile`, `LineNumberTable`, `LocalVariableTable`) are dropped by
/// omission; annotations and generic signatures are kept, since reflection and
/// frameworks read them.
pub const FIXED: &'static str =
    "-dontshrink\n-dontoptimize\n-keepattributes *Annotation*,Signature,EnclosingMethod,InnerClasses\n-dontnote\n";

/// The configuration up to what every one of them says.
pub open spec fn config_start(obf: ObfuscationModel, outjar: Seq<char>) -> Seq<char> {
    let s = "-injars "@ + entry_of(obf.jar) + "\n"@ + "-outjars "@ + entry_of(outjar) + "\n"@;
    with_section(s, Section::Library, obf.library_jars, 0) + FIXED@
}

/// The line that keeps the entry point.
pub open spec fn main_line(main: Seq<char>) -> Seq<char> {
    "-keep public class "@ + main
        + " {\n    public static void main(java.lang.String[]);\n}\n"@
}

/// The configuration up to the entry point.
pub open spec fn config_to_main(obf: ObfuscationModel, outjar: Seq<char>) -> Seq<char> {
    match obf.main_class {
        Some(main) => config_start(obf, outjar) + main_line(main),
        None => config_start(obf, outjar),
    }
}

/// The configuration up to the providers.
pub open spec fn config_to_providers(
    obf: ObfuscationModel,
    services: Seq<Seq<char>>,
    outjar: Seq<char>,
) -> Seq<char> {
    let s = with_section(config_to_main(obf, outjar), Section::Provider, services, 0);
    if services.len() > 0 {
        s + "-adaptresourcefilecontents META-INF/services/**\n"@
    } else {
        s
    }
}

/// The `ProGuard` configuration of an obfuscation.
pub open spec fn config_of(obf: ObfuscationModel, services: Seq<Seq<char>>, outjar: Seq<char>) -> Seq<
    char,
> {
    let s = config_to_providers(obf, services, outjar);
    let s = with_section(s, Section::Keep, obf.keep, 0);
    with_section(s, Section::Argument, obf.extra_args, 0)
}

/// The `ProGuard` configuration for `obf`, writing to `outjar`. `services` is the
/// provider list [`service_classes`] read from the jar.
pub fn config(obf: &Obfuscation, services: &Vec<String>, outjar: &str) -> (r: String)
    ensures
        r@ == config_of(obf.deep_view(), services.deep_view(), outjar@),
{
    let mut s = crate::text::cat6(
        "-injars ",
        entry(obf.jar).as_str(),
        "\n",
        "-outjars ",
        entry(outjar).as_str(),
        "\n",
    );
    write_section(&mut s, Section::Library, obf.library_jars);
    s.append(FIXED);
    if let Some(main) = obf.main_class {
        s.append(
            cat3(
                "-keep public class ",
                main,
                " {\n    public static void main(java.lang.String[]);\n}\n",
            ).as_str(),
        );
    }
    // Keep a provider's name (so its services file still resolves) and its
    // constructors (so ServiceLoader can instantiate it); its other members
    // are still fair game.
    write_section(&mut s, Section::Provider, services);
    if services.len() > 0 {
        // Belt and braces: were a kept name ever to change, rewrite the file to
        // match. With the names kept above this is a no-op, never a surprise.
        s.append("-adaptresourcefilecontents META-INF/services/**\n");
    }
    write_section(&mut s, Section::Keep, obf.keep);
    write_section(&mut s, Section::Argument, obf.extra_args);
    s
}

// ---- the run ---------------------------------------------------------------

/// The arguments that `java` runs `ProGuard` with.
pub open spec fn arguments_of(classpath: Seq<char>, config_path: Seq<char>) -> Seq<Seq<char>> {
    seq!["-cp"@, classpath, MAIN_CLASS@, "@"@ + config_path]
}

/// The arguments that `java` runs `ProGuard` with, over the configuration at
/// `config_path`.
pub fn arguments(obf: &Obfuscation, config_path: &str, windows: bool) -> (r: Vec<String>)
    ensures
        r.deep_view() == arguments_of(
            joined(obf.tool_classpath.deep_view(), path_separator(windows)),
            config_path@,
        ),
{
    let mut args = one_of("-cp".to_owned());
    put(&mut args, Toolchain::classpath(obf.tool_classpath, windows));
    put(&mut args, MAIN_CLASS.to_owned());
    put(&mut args, cat2("@", config_path));
    assert(args.deep_view() =~= arguments_of(
        crate::text::joined(
            obf.tool_classpath.deep_view(),
            crate::toolchain::path_separator(windows),
        ),
        config_path@,
    ));
    args
}

/// What an obfuscation leaves in its working directory: the configuration, the
/// jar it writes, and what `java` is started with.
#[derive(Debug)]
pub struct Plan {
    pub outjar: String,
    pub config_path: String,
    pub config: String,
    pub invocation: Invocation,
}

/// What an obfuscation leaves in its working directory.
pub struct PlanModel {
    pub outjar: Seq<char>,
    pub config_path: Seq<char>,
    pub config: Seq<char>,
    pub invocation: InvocationModel,
}

impl DeepView for Plan {
    type V = PlanModel;

    open spec fn deep_view(&self) -> PlanModel {
        PlanModel {
            outjar: self.outjar@,
            config_path: self.config_path@,
            config: self.config@,
            invocation: self.invocation.deep_view(),
        }
    }
}

/// The plan of an obfuscation in `work_dir`, of a jar whose providers are
/// `services`.
pub open spec fn plan_of(
    obf: ObfuscationModel,
    services: Seq<Seq<char>>,
    work_dir: Seq<char>,
    windows: bool,
) -> PlanModel {
    let outjar = under(work_dir, "obfuscated.jar"@);
    let config_path = under(work_dir, "obfuscate.pro"@);
    PlanModel {
        outjar,
        config_path,
        config: config_of(obf, services, outjar),
        invocation: invocation(
            under(work_dir, "obfuscate.args"@),
            arguments_of(joined(obf.tool_classpath, path_separator(windows)), config_path),
        ),
    }
}

/// The plan of an obfuscation in `work_dir`. `services` is the provider list
/// [`service_classes`] read from the jar.
pub fn build(obf: &Obfuscation, services: &Vec<String>, work_dir: &str, windows: bool) -> (r: Plan)
    ensures
        r.deep_view() == plan_of(obf.deep_view(), services.deep_view(), work_dir@, windows),
{
    let outjar = join_path(work_dir, "obfuscated.jar");
    let config_path = join_path(work_dir, "obfuscate.pro");
    let config = config(obf, services, outjar.as_str());
    let args = arguments(obf, config_path.as_str(), windows);
    let invocation = invoke(join_path(work_dir, "obfuscate.args"), &args);
    Plan { outjar, config_path, config, invocation }
}

/// What becomes of a run of `ProGuard` over the jar: whether it succeeded, and
/// whether it wrote one.
pub fn check_run(jar: &str, succeeded: bool, written: bool) -> (r: Result<(), JrsError>)
    ensures
        match r {
            Ok(_) => succeeded && written,
            Err(e) => e.deep_view() == (if !succeeded {
                Fault::Build(
                    "ProGuard could not obfuscate "@ + jar@
                        + "; its output is above\n\na class it cannot resolve needs `-libraryjars` or a `-dontwarn`, and a name it must not rename needs a `keep` entry; both go in [obfuscate]"@,
                )
            } else {
                Fault::Build("ProGuard reported success but wrote no jar"@)
            }) && !(succeeded && written),
        },
{
    if !succeeded {
        return Err(
            JrsError::Build(
                cat3(
                    "ProGuard could not obfuscate ",
                    jar,
                    "; its output is above\n\na class it cannot resolve needs `-libraryjars` or a `-dontwarn`, and a name it must not rename needs a `keep` entry; both go in [obfuscate]",
                ),
            ),
        );
    }
    if !written {
        return Err(
            JrsError::Build("ProGuard reported success but wrote no jar".to_owned()),
        );
    }
    Ok(())
}

// ---- laws ------------------------------------------------------------------

/// The providers that a jar names come in order, each once.
pub proof fn providers_are_in_order(jar: Seq<char>, bytes: Seq<u8>)
    ensures
        services_of(jar, bytes) matches Ok(names) ==> ascending(names),
{
    lemma_services(jar, bytes, 0, seq![]);
}

proof fn lemma_services(jar: Seq<char>, bytes: Seq<u8>, i: nat, out: Seq<Seq<char>>)
    requires
        ascending(out),
    ensures
        services_from(jar, bytes, i, out) matches Ok(names) ==> ascending(names),
    decreases zip_count(bytes) - i,
{
    if i < zip_count(bytes) {
        if let Ok(name) = zip_name(bytes, i) {
            if !services_entry(name) {
                lemma_services(jar, bytes, i + 1, out);
            } else if let Ok(text) = zip_text(bytes, i) {
                lemma_providers(line_seq(text), 0, out);
                lemma_services(jar, bytes, i + 1, providers_from(line_seq(text), 0, out));
            }
        }
    }
}

proof fn lemma_providers(lines: Seq<Seq<char>>, i: int, out: Seq<Seq<char>>)
    requires
        0 <= i,
        ascending(out),
    ensures
        ascending(providers_from(lines, i, out)),
    decreases lines.len() - i,
{
    if i < lines.len() {
        if provider_on(lines[i]).len() > 0 {
            placing_keeps_order(out, provider_on(lines[i]));
            lemma_providers(lines, i + 1, placed(out, provider_on(lines[i])));
        } else {
            lemma_providers(lines, i + 1, out);
        }
    }
}

// ---- what survives ---------------------------------------------------------

/// `part` stands somewhere in `s`.
pub open spec fn holds(s: Seq<char>, part: Seq<char>) -> bool {
    exists|before: Seq<char>, after: Seq<char>| s == #[trigger] (before + part + after)
}

proof fn lemma_more(s: Seq<char>, part: Seq<char>, more: Seq<char>)
    requires
        holds(s, part),
    ensures
        holds(s + more, part),
{
    let (before, after) = choose|before: Seq<char>, after: Seq<char>|
        s == #[trigger] (before + part + after);
    assert(s + more =~= before + part + (after + more));
}

proof fn lemma_last(s: Seq<char>, part: Seq<char>)
    ensures
        holds(s + part, part),
{
    assert(s + part =~= s + part + Seq::<char>::empty());
}

proof fn lemma_section_keeps(
    s: Seq<char>,
    section: Section,
    items: Seq<Seq<char>>,
    i: int,
    part: Seq<char>,
)
    requires
        holds(s, part),
        0 <= i <= items.len(),
    ensures
        holds(with_section(s, section, items, i), part),
    decreases items.len() - i,
{
    if i < items.len() {
        lemma_more(s, part, section_line(section, items[i]));
        lemma_section_keeps(s + section_line(section, items[i]), section, items, i + 1, part);
    }
}

proof fn lemma_section_holds(
    s: Seq<char>,
    section: Section,
    items: Seq<Seq<char>>,
    i: int,
    k: int,
)
    requires
        0 <= i <= k < items.len(),
    ensures
        holds(with_section(s, section, items, i), section_line(section, items[k])),
    decreases k - i,
{
    let next = s + section_line(section, items[i]);
    if i == k {
        lemma_last(s, section_line(section, items[i]));
        lemma_section_keeps(next, section, items, i + 1, section_line(section, items[k]));
    } else {
        lemma_section_holds(next, section, items, i + 1, k);
    }
}

/// What a part of the configuration holds, the whole does.
proof fn lemma_config_keeps(
    obf: ObfuscationModel,
    services: Seq<Seq<char>>,
    outjar: Seq<char>,
    part: Seq<char>,
)
    ensures
        holds(config_start(obf, outjar), part) ==> holds(config_to_main(obf, outjar), part),
        holds(config_to_main(obf, outjar), part) ==> holds(
            config_to_providers(obf, services, outjar),
            part,
        ),
        holds(config_to_providers(obf, services, outjar), part) ==> holds(
            config_of(obf, services, outjar),
            part,
        ),
        holds(with_section(config_to_providers(obf, services, outjar), Section::Keep, obf.keep, 0), part)
            ==> holds(config_of(obf, services, outjar), part),
{
    let start = config_start(obf, outjar);
    let main = config_to_main(obf, outjar);
    if holds(start, part) && obf.main_class is Some {
        lemma_more(start, part, main_line(obf.main_class->0));
    }
    if holds(main, part) {
        lemma_section_keeps(main, Section::Provider, services, 0, part);
        lemma_more(
            with_section(main, Section::Provider, services, 0),
            part,
            "-adaptresourcefilecontents META-INF/services/**\n"@,
        );
    }
    let providers = config_to_providers(obf, services, outjar);
    let kept = with_section(providers, Section::Keep, obf.keep, 0);
    if holds(providers, part) {
        lemma_section_keeps(providers, Section::Keep, obf.keep, 0, part);
    }
    if holds(kept, part) {
        lemma_section_keeps(kept, Section::Argument, obf.extra_args, 0, part);
    }
}

/// Every class that a services file names is kept with its constructors.
pub proof fn providers_are_kept(
    obf: ObfuscationModel,
    services: Seq<Seq<char>>,
    outjar: Seq<char>,
    k: int,
)
    requires
        0 <= k < services.len(),
    ensures
        holds(
            config_of(obf, services, outjar),
            "-keep class "@ + services[k] + " {\n    <init>(...);\n}\n"@,
        ),
{
    let line = section_line(Section::Provider, services[k]);
    let main = config_to_main(obf, outjar);
    lemma_section_holds(main, Section::Provider, services, 0, k);
    lemma_more(
        with_section(main, Section::Provider, services, 0),
        line,
        "-adaptresourcefilecontents META-INF/services/**\n"@,
    );
    lemma_config_keeps(obf, services, outjar, line);
}

/// Every class that `[obfuscate].keep` lists is kept.
pub proof fn listed_classes_are_kept(
    obf: ObfuscationModel,
    services: Seq<Seq<char>>,
    outjar: Seq<char>,
    k: int,
)
    requires
        0 <= k < obf.keep.len(),
    ensures
        holds(config_of(obf, services, outjar), "-keep class "@ + obf.keep[k] + "\n"@),
{
    lemma_section_holds(config_to_providers(obf, services, outjar), Section::Keep, obf.keep, 0, k);
    lemma_config_keeps(obf, services, outjar, section_line(Section::Keep, obf.keep[k]));
}

/// The entry point is kept, and nothing is removed or reordered.
pub proof fn the_entry_point_is_kept(
    obf: ObfuscationModel,
    services: Seq<Seq<char>>,
    outjar: Seq<char>,
)
    ensures
        holds(config_of(obf, services, outjar), FIXED@),
        obf.main_class matches Some(main) ==> holds(
            config_of(obf, services, outjar),
            "-keep public class "@ + main
                + " {\n    public static void main(java.lang.String[]);\n}\n"@,
        ),
{
    let s = "-injars "@ + entry_of(obf.jar) + "\n"@ + "-outjars "@ + entry_of(outjar) + "\n"@;
    lemma_last(with_section(s, Section::Library, obf.library_jars, 0), FIXED@);
    lemma_config_keeps(obf, services, outjar, FIXED@);
    if let Some(main) = obf.main_class {
        lemma_last(config_start(obf, outjar), main_line(main));
        lemma_config_keeps(obf, services, outjar, main_line(main));
    }
}

} // verus!
