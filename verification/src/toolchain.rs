//! The JDK, and the files its tools read their arguments from.

use crate::chars::{is_space, space};
use crate::text::{cat2, cat3, chars, join, joined, none_of};
use vstd::prelude::*;

verus! {

/// The JDK a project builds with.
#[derive(Debug)]
pub struct Toolchain {
    pub javac: String,
    pub java: String,
    pub jar: String,
    /// Its feature version.
    pub version: u32,
    pub home: Option<String>,
}

/// The JDK a project builds with.
pub struct ToolchainModel {
    pub javac: Seq<char>,
    pub java: Seq<char>,
    pub jar: Seq<char>,
    pub version: u32,
    pub home: Option<Seq<char>>,
}

impl DeepView for Toolchain {
    type V = ToolchainModel;

    open spec fn deep_view(&self) -> ToolchainModel {
        ToolchainModel {
            javac: self.javac@,
            java: self.java@,
            jar: self.jar@,
            version: self.version,
            home: self.home.deep_view(),
        }
    }
}

/// What stands between the entries of a classpath.
pub open spec fn path_separator(windows: bool) -> Seq<char> {
    if windows {
        ";"@
    } else {
        ":"@
    }
}

impl Toolchain {
    /// A classpath as the tools take it.
    pub fn classpath(paths: &Vec<String>, windows: bool) -> (r: String)
        ensures
            r@ == joined(paths.deep_view(), path_separator(windows)),
    {
        join(
            paths,
            if windows {
                ";"
            } else {
                ":"
            },
        )
    }
}

/// The argument needs quotes in an argument file.
pub open spec fn needs_quotes(arg: Seq<char>) -> bool {
    arg.len() == 0 || exists|i: int|
        0 <= i < arg.len() && (space(#[trigger] arg[i]) || arg[i] == '"' || arg[i] == '\''
            || arg[i] == '#')
}

/// An argument between quotes, its quotes and backslashes escaped.
pub open spec fn quoted_text(arg: Seq<char>) -> Seq<char>
    decreases arg.len(),
{
    if arg.len() == 0 {
        seq![]
    } else {
        let before = quoted_text(arg.drop_last());
        if arg.last() == '"' || arg.last() == '\\' {
            before.push('\\').push(arg.last())
        } else {
            before.push(arg.last())
        }
    }
}

/// An argument as an argument file holds it.
pub open spec fn file_argument(arg: Seq<char>) -> Seq<char> {
    if needs_quotes(arg) {
        "\""@ + quoted_text(arg) + "\""@
    } else {
        arg
    }
}

fn does_need_quotes(arg: &str) -> (r: bool)
    ensures
        r == needs_quotes(arg@),
{
    let cs = chars(arg);
    if cs.len() == 0 {
        return true;
    }
    let mut i: usize = 0;
    while i < cs.len()
        invariant
            cs@ == arg@,
            cs@.len() > 0,
            i <= cs@.len(),
            forall|j: int|
                0 <= j < i ==> !(space(#[trigger] arg@[j]) || arg@[j] == '"' || arg@[j] == '\''
                    || arg@[j] == '#'),
        decreases cs@.len() - i,
    {
        let c: char = cs[i];
        if is_space(c) || c == '"' || c == '\'' || c == '#' {
            assert(space(arg@[i as int]) || arg@[i as int] == '"' || arg@[i as int] == '\''
                || arg@[i as int] == '#');
            return true;
        }
        i = i + 1;
    }
    false
}

fn write_argument(arg: &str) -> (r: String)
    ensures
        r@ == file_argument(arg@),
{
    if !does_need_quotes(arg) {
        return arg.to_owned();
    }
    let cs = chars(arg);
    let mut out = String::new();
    let mut i: usize = 0;
    assert(arg@.take(0) =~= seq![]);
    while i < cs.len()
        invariant
            cs@ == arg@,
            i <= cs@.len(),
            out@ =~= quoted_text(arg@.take(i as int)),
        decreases cs@.len() - i,
    {
        assert(arg@.take(i + 1).drop_last() =~= arg@.take(i as int));
        let c: char = cs[i];
        if c == '"' || c == '\\' {
            out.push('\\');
        }
        out.push(c);
        i = i + 1;
    }
    assert(arg@.take(i as int) =~= arg@);
    cat3("\"", out.as_str(), "\"")
}

/// The lines of an argument file, from the `i`th argument on, after those
/// before.
pub open spec fn file_lines(args: Seq<Seq<char>>, i: int, out: Seq<char>) -> Seq<char>
    decreases args.len() - i,
{
    if i < 0 || i >= args.len() {
        out
    } else {
        file_lines(args, i + 1, out + file_argument(args[i]) + "\n"@)
    }
}

/// An argument file: one argument a line, in the quotes that keep it one.
pub fn render_argfile(args: &Vec<String>, sources: &Vec<String>) -> (r: String)
    ensures
        r@ == file_lines(
            sources.deep_view(),
            0,
            file_lines(args.deep_view(), 0, seq![]),
        ),
{
    let mut out = String::new();
    assert(out@ =~= seq![]);
    add_lines(&mut out, args);
    add_lines(&mut out, sources);
    out
}

fn add_lines(out: &mut String, args: &Vec<String>)
    ensures
        final(out)@ == file_lines(args.deep_view(), 0, old(out)@),
{
    let ghost all = args.deep_view();
    let ghost start = out@;
    let mut i: usize = 0;
    while i < args.len()
        invariant
            all == args.deep_view(),
            i <= args@.len(),
            file_lines(all, 0, start) == file_lines(all, i as int, out@),
        decreases args@.len() - i,
    {
        assert(all[i as int] == args@[i as int]@);
        out.append(write_argument(args[i].as_str()).as_str());
        out.append("\n");
        i = i + 1;
    }
}

/// What a tool is started with: its arguments, in a file that its one argument
/// names.
#[derive(Debug)]
pub struct Invocation {
    pub argfile: String,
    /// What the file holds.
    pub contents: String,
    /// `@` and the file.
    pub argument: String,
}

/// What a tool is started with.
pub struct InvocationModel {
    pub argfile: Seq<char>,
    pub contents: Seq<char>,
    pub argument: Seq<char>,
}

impl DeepView for Invocation {
    type V = InvocationModel;

    open spec fn deep_view(&self) -> InvocationModel {
        InvocationModel {
            argfile: self.argfile@,
            contents: self.contents@,
            argument: self.argument@,
        }
    }
}

/// The invocation with `args` in `argfile`.
pub open spec fn invocation(argfile: Seq<char>, args: Seq<Seq<char>>) -> InvocationModel {
    InvocationModel {
        argfile,
        contents: file_lines(args, 0, seq![]),
        argument: "@"@ + argfile,
    }
}

/// The invocation with `args` in `argfile`.
pub fn invoke(argfile: String, args: &Vec<String>) -> (r: Invocation)
    ensures
        r.deep_view() == invocation(argfile@, args.deep_view()),
{
    let none: Vec<String> = none_of();
    let contents = render_argfile(args, &none);
    let argument = cat2("@", argfile.as_str());
    Invocation { argfile, contents, argument }
}

} // verus!
