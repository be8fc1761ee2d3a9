//! `GraalVM` native images: `jrs package --native-image`.
//!
//! `native-image` is a tool in a `GraalVM` JDK's `bin/`, so jrs drives it the
//! way it drives `jlink`: it decides what goes in and where it lands, and
//! passes the tool's output through verbatim. The whole invocation — the
//! runtime classpath, the output path, `package.native-image-args` and the
//! main class — goes into `target/.jrs/native-image.args`, since
//! `native-image` reads `@argfiles` the way the `java` launcher does.
//!
//! The reachability metadata that libraries ship under
//! `META-INF/native-image/` is found by `native-image` itself, on the
//! classpath. jrs does not download the shared metadata repository the Gradle
//! plugin uses; what a library lacks goes into `native-image-args`.

use crate::error::{Fault, JrsError};
use crate::paths::{join_path, parent, parent_of, under};
use crate::text::{
    cat2, cat3, cat7, decimal, joined, listed, one_of, outcome, put, put_all, show, Duplicate,
};
use crate::toolchain::{invocation, invoke, path_separator, Invocation, Toolchain};
use vstd::prelude::*;

verus! {

/// The names `native-image` goes by in a JDK's `bin/`.
pub open spec fn tool_names(windows: bool) -> Seq<Seq<char>> {
    if windows {
        seq!["native-image.cmd"@, "native-image.exe"@, "native-image.bat"@]
    } else {
        seq!["native-image"@]
    }
}

/// The names `native-image` goes by in a JDK's `bin/`: a launcher script on
/// Windows (`.cmd`), an executable everywhere else.
pub fn candidates(windows: bool) -> (r: Vec<&'static str>)
    ensures
        r.deep_view() == tool_names(windows),
{
    let r: Vec<&'static str> = if windows {
        vec!["native-image.cmd", "native-image.exe", "native-image.bat"]
    } else {
        vec!["native-image"]
    };
    assert(r.deep_view() =~= tool_names(windows));
    r
}

/// The directory a tool is in.
pub open spec fn bin_of(tool: Seq<char>) -> Seq<char> {
    match parent(tool) {
        Some(dir) => dir,
        None => "."@,
    }
}

/// The directory above a JDK's `bin`.
pub open spec fn home_of(bin: Seq<char>) -> Seq<char> {
    match parent(bin) {
        Some(dir) => dir,
        None => bin,
    }
}

/// The first of the names from the `i`th on whose file in `bin` is there.
pub open spec fn tool_from(bin: Seq<char>, names: Seq<Seq<char>>, present: Seq<Seq<char>>, i: int) -> Option<
    Seq<char>,
>
    decreases names.len() - i,
{
    if i < 0 || i >= names.len() {
        None
    } else if present.contains(under(bin, names[i])) {
        Some(under(bin, names[i]))
    } else {
        tool_from(bin, names, present, i + 1)
    }
}

/// Why a JDK builds no native images.
pub open spec fn not_graal(bin: Seq<char>, version: u32) -> Seq<char> {
    "the JDK at "@ + home_of(bin) + " is not GraalVM: there is no `native-image` in "@ + bin
        + "\n\n`jrs package --native-image` needs a GraalVM JDK. Install one (GraalVM for JDK "@
        + decimal(version as nat)
        + ", say) and build with it: point JAVA_HOME at it, or pin `java.jdk` and name its home in the jrs config's [jdks] table. Older GraalVM releases ship native-image on its own: run `gu install native-image`."@
}

/// `native-image` beside the toolchain's `javac` — the JDK is `GraalVM` — or an
/// error saying it is not, and how to build with one that is. `present` are
/// the files that are there.
pub fn find(toolchain: &Toolchain, present: &Vec<String>, windows: bool) -> (r: Result<
    String,
    JrsError,
>)
    ensures
        outcome(r) == (match tool_from(
            bin_of(toolchain.javac@),
            tool_names(windows),
            present.deep_view(),
            0,
        ) {
            Some(tool) => Ok::<Seq<char>, Fault>(tool),
            None => Err(
                Fault::Toolchain(not_graal(bin_of(toolchain.javac@), toolchain.version)),
            ),
        }),
{
    let dir = match parent_of(toolchain.javac.as_str()) {
        Some(dir) => dir,
        None => ".".to_owned(),
    };
    let bin = dir.as_str();
    let home = match parent_of(bin) {
        Some(home) => home,
        None => dir.clone(),
    };
    let names = candidates(windows);
    let ghost all = names.deep_view();
    let ghost there = present.deep_view();
    let mut i: usize = 0;
    while i < names.len()
        invariant
            all == names.deep_view(),
            all == tool_names(windows),
            there == present.deep_view(),
            bin@ == bin_of(toolchain.javac@),
            i <= names@.len(),
            tool_from(bin@, all, there, 0) == tool_from(bin@, all, there, i as int),
        decreases names@.len() - i,
    {
        assert(all[i as int] == names@[i as int]@);
        let tool = join_path(bin, names[i]);
        if listed(present, tool.as_str()) {
            return Ok(tool);
        }
        i = i + 1;
    }
    Err(
        JrsError::Toolchain(
            cat7(
                "the JDK at ",
                home.as_str(),
                " is not GraalVM: there is no `native-image` in ",
                bin,
                "\n\n`jrs package --native-image` needs a GraalVM JDK. Install one (GraalVM for JDK ",
                show(toolchain.version as u128).as_str(),
                ", say) and build with it: point JAVA_HOME at it, or pin `java.jdk` and name its home in the jrs config's [jdks] table. Older GraalVM releases ship native-image on its own: run `gu install native-image`.",
            ),
        ),
    )
}

/// What to build a native image of.
#[derive(Debug)]
pub struct NativeImage<'a> {
    /// The executable's name: `project.name`.
    pub name: &'a str,
    pub main_class: &'a str,
    /// The classes directory, then the runtime classpath.
    pub classpath: &'a Vec<String>,
    /// `package.native-image-args`, passed through verbatim.
    pub extra_args: &'a Vec<String>,
}

/// `native-image`'s arguments.
pub open spec fn image_arguments(
    classpath: Seq<char>,
    output: Seq<char>,
    extra_args: Seq<Seq<char>>,
    main_class: Seq<char>,
) -> Seq<Seq<char>> {
    (seq!["-cp"@, classpath, "-o"@, output] + extra_args).push(main_class)
}

/// `native-image`'s arguments, in order: the classpath, the output, the
/// user's flags, then the main class, which is what ends the options.
pub fn arguments(image: &NativeImage, output: &str, windows: bool) -> (r: Vec<String>)
    ensures
        r.deep_view() == image_arguments(
            joined(image.classpath.deep_view(), path_separator(windows)),
            output@,
            image.extra_args.deep_view(),
            image.main_class@,
        ),
{
    let mut args = one_of("-cp".to_owned());
    put(&mut args, Toolchain::classpath(image.classpath, windows));
    put(&mut args, "-o".to_owned());
    put(&mut args, output.to_owned());
    assert(args.deep_view() =~= seq![
        "-cp"@,
        joined(image.classpath.deep_view(), path_separator(windows)),
        "-o"@,
        output@,
    ]);
    put_all(&mut args, image.extra_args.duplicate());
    put(&mut args, image.main_class.to_owned());
    args
}

/// The file `native-image -o <dir>/<name>` writes: `<name>.exe` on Windows.
pub fn executable(output_dir: &str, name: &str, windows: bool) -> (r: String)
    ensures
        r@ == under(
            output_dir@,
            if windows {
                name@ + ".exe"@
            } else {
                name@
            },
        ),
{
    if windows {
        join_path(output_dir, cat2(name, ".exe").as_str())
    } else {
        join_path(output_dir, name)
    }
}

/// What `native-image` is started with to build `output_dir/<name>`, its
/// argument file in `work_dir`.
pub fn build(image: &NativeImage, output_dir: &str, work_dir: &str, windows: bool) -> (r: Invocation)
    ensures
        r.deep_view() == invocation(
            under(work_dir@, "native-image.args"@),
            image_arguments(
                joined(image.classpath.deep_view(), path_separator(windows)),
                under(output_dir@, image.name@),
                image.extra_args.deep_view(),
                image.main_class@,
            ),
        ),
{
    let args = arguments(image, join_path(output_dir, image.name).as_str(), windows);
    invoke(join_path(work_dir, "native-image.args"), &args)
}

/// What becomes of a run of `native-image`: whether it succeeded, and whether
/// the executable `built` is there.
pub fn check_run(name: &str, built: &str, succeeded: bool, present: bool) -> (r: Result<
    (),
    JrsError,
>)
    ensures
        match r {
            Ok(_) => succeeded && present,
            Err(e) => e.deep_view() == (if !succeeded {
                Fault::Build(
                    "native-image could not build "@ + name@
                        + "; its output is above\n\nflags it needs (`--initialize-at-build-time`, resource or reflection configuration) go in `package.native-image-args`"@,
                )
            } else {
                Fault::Build("native-image reported success but there is no "@ + built@)
            }) && !(succeeded && present),
        },
{
    if !succeeded {
        return Err(
            JrsError::Build(
                cat3(
                    "native-image could not build ",
                    name,
                    "; its output is above\n\nflags it needs (`--initialize-at-build-time`, resource or reflection configuration) go in `package.native-image-args`",
                ),
            ),
        );
    }
    if !present {
        return Err(
            JrsError::Build(
                cat2("native-image reported success but there is no ", built),
            ),
        );
    }
    Ok(())
}

} // verus!
