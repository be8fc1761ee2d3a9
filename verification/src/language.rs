//! The languages jrs compiles.

use crate::text::{
    all, cat3, cat5, none_of, number, parse_number, pieces, put, show, split, starts, starts_with,
    take_run, Class, Duplicate, head,
};
use vstd::prelude::*;

verus! {

#[derive(Debug, Clone, Copy, PartialEq, Eq, Hash, Structural)]
pub enum Language {
    Java,
    Kotlin,
    Scala,
    Groovy,
}

impl DeepView for Language {
    type V = Language;

    open spec fn deep_view(&self) -> Language {
        *self
    }
}

impl Duplicate for Language {
    fn duplicate(&self) -> Language {
        *self
    }
}

/// The number of the part `i` of a version, when it is one.
pub open spec fn version_part(version: Seq<char>, i: int) -> Option<nat> {
    let parts = pieces(version, '.');
    if 0 <= i < parts.len() {
        number(head(parts[i], Class::Digit), u32::MAX as nat)
    } else {
        None
    }
}

/// The number of the part `i` of `version`.
pub fn part_of(version: &str, i: usize) -> (r: Option<u64>)
    ensures
        r is Some <==> version_part(version@, i as int) is Some,
        r matches Some(n) ==> version_part(version@, i as int) == Some(n as nat),
{
    let parts = split(version, '.');
    assert(parts.deep_view() == pieces(version@, '.'));
    if i < parts.len() {
        assert(parts.deep_view()[i as int] == parts@[i as int]@);
        parse_number(take_run(parts[i], Class::Digit), u32::MAX as u64)
    } else {
        None
    }
}

/// The first number of `version` is below `n`, or there is none.
pub open spec fn older_than(version: Seq<char>, n: nat) -> bool {
    match version_part(version, 0) {
        Some(major) => major < n,
        None => true,
    }
}

impl Language {
    pub open spec fn word(self) -> Seq<char> {
        match self {
            Language::Java => "java"@,
            Language::Kotlin => "kotlin"@,
            Language::Scala => "scala"@,
            Language::Groovy => "groovy"@,
        }
    }

    pub open spec fn title(self) -> Seq<char> {
        match self {
            Language::Java => "Java"@,
            Language::Kotlin => "Kotlin"@,
            Language::Scala => "Scala"@,
            Language::Groovy => "Groovy"@,
        }
    }

    pub open spec fn args_word(self) -> Seq<char> {
        match self {
            Language::Java => "javac-args"@,
            Language::Kotlin => "kotlinc-args"@,
            Language::Scala => "scalac-args"@,
            Language::Groovy => "groovyc-args"@,
        }
    }

    /// A version to begin with.
    pub open spec fn starter(self) -> Seq<char> {
        match self {
            Language::Java => ""@,
            Language::Kotlin => "2.4.20"@,
            Language::Scala => "3.9.0"@,
            Language::Groovy => "5.1.2"@,
        }
    }

    /// Why jrs cannot compile with the compiler at `version`, when it cannot.
    pub open spec fn refusal(self, version: Seq<char>) -> Option<Seq<char>> {
        match self {
            Language::Java => None,
            Language::Kotlin => if older_than(version, 2) {
                Some("jrs compiles with Kotlin 2.0 or newer"@)
            } else {
                None
            },
            Language::Groovy => if older_than(version, 4) {
                Some("jrs compiles with Groovy 4.0 or newer"@)
            } else {
                None
            },
            Language::Scala => match (version_part(version, 0), version_part(version, 1)) {
                (Some(major), Some(minor)) => if major == 3 || (major == 2 && minor == 13) {
                    None
                } else {
                    Some(
                        "Scala "@ + crate::text::decimal(major) + "."@ + crate::text::decimal(minor)
                            + " is not supported; 2.13 and 3 are"@,
                    )
                },
                _ => Some("it is not a Scala version"@),
            },
        }
    }

    /// The libraries that programs in the language run with, at `version`.
    pub open spec fn libraries(self, version: Seq<char>) -> Seq<(Seq<char>, Seq<char>)> {
        match self {
            Language::Java => seq![],
            Language::Kotlin => seq![("org.jetbrains.kotlin"@, "kotlin-stdlib"@)],
            Language::Groovy => seq![("org.apache.groovy"@, "groovy"@)],
            Language::Scala => if older_than(version, 3) {
                seq![("org.scala-lang"@, "scala-library"@)]
            } else if version_part(version, 1) matches Some(minor) && minor < 8 {
                seq![("org.scala-lang"@, "scala3-library_3"@)]
            } else {
                seq![
                    ("org.scala-lang"@, "scala3-library_3"@),
                    ("org.scala-lang"@, "scala-library"@),
                ]
            },
        }
    }

    /// Its key in the manifest.
    pub fn key(self) -> (r: &'static str)
        ensures
            r@ == self.word(),
    {
        match self {
            Language::Java => "java",
            Language::Kotlin => "kotlin",
            Language::Scala => "scala",
            Language::Groovy => "groovy",
        }
    }

    /// Its name.
    pub fn name(self) -> (r: &'static str)
        ensures
            r@ == self.title(),
    {
        match self {
            Language::Java => "Java",
            Language::Kotlin => "Kotlin",
            Language::Scala => "Scala",
            Language::Groovy => "Groovy",
        }
    }

    /// The key of its compiler's arguments.
    pub fn args_key(self) -> (r: &'static str)
        ensures
            r@ == self.args_word(),
    {
        match self {
            Language::Java => "javac-args",
            Language::Kotlin => "kotlinc-args",
            Language::Scala => "scalac-args",
            Language::Groovy => "groovyc-args",
        }
    }

    /// A version to begin with.
    pub fn starter_version(self) -> (r: &'static str)
        ensures
            r@ == self.starter(),
    {
        match self {
            Language::Java => "",
            Language::Kotlin => "2.4.20",
            Language::Scala => "3.9.0",
            Language::Groovy => "5.1.2",
        }
    }

    /// Why jrs cannot compile with the compiler at `version`, when it cannot.
    pub fn check_version(self, version: &str) -> (r: Option<String>)
        ensures
            r.deep_view() == self.refusal(version@),
    {
        match self {
            Language::Java => None,
            Language::Kotlin => if is_older(version, 2) {
                Some("jrs compiles with Kotlin 2.0 or newer".to_owned())
            } else {
                None
            },
            Language::Groovy => if is_older(version, 4) {
                Some("jrs compiles with Groovy 4.0 or newer".to_owned())
            } else {
                None
            },
            Language::Scala => match (part_of(version, 0), part_of(version, 1)) {
                (Some(major), Some(minor)) => if major == 3 || (major == 2 && minor == 13) {
                    None
                } else {
                    Some(
                        cat5(
                            "Scala ",
                            show(major as u128).as_str(),
                            ".",
                            show(minor as u128).as_str(),
                            " is not supported; 2.13 and 3 are",
                        ),
                    )
                },
                _ => Some("it is not a Scala version".to_owned()),
            },
        }
    }

    /// The libraries that programs in the language run with, at `version`.
    pub fn runtime_libraries(self, version: &str) -> (r: Vec<(&'static str, &'static str)>)
        ensures
            r.deep_view() == self.libraries(version@),
    {
        let mut out: Vec<(&'static str, &'static str)> = none_of();
        match self {
            Language::Java => {},
            Language::Kotlin => {
                put(&mut out, ("org.jetbrains.kotlin", "kotlin-stdlib"));
            },
            Language::Groovy => {
                put(&mut out, ("org.apache.groovy", "groovy"));
            },
            Language::Scala => {
                if is_older(version, 3) {
                    put(&mut out, ("org.scala-lang", "scala-library"));
                } else {
                    put(&mut out, ("org.scala-lang", "scala3-library_3"));
                    let whole = match part_of(version, 1) {
                        Some(minor) => minor < 8,
                        None => false,
                    };
                    if !whole {
                        put(&mut out, ("org.scala-lang", "scala-library"));
                    }
                }
            },
        }
        assert(out.deep_view() =~= self.libraries(version@));
        out
    }

    /// The `group:artifact` of the language's compiler at `version`.
    pub open spec fn compiler_name(self, version: Seq<char>) -> Option<Seq<char>> {
        match self {
            Language::Java => None,
            Language::Kotlin => Some("org.jetbrains.kotlin:kotlin-compiler-embeddable"@),
            Language::Groovy => Some("org.apache.groovy:groovy"@),
            Language::Scala => if older_than(version, 3) {
                Some("org.scala-lang:scala-compiler"@)
            } else {
                Some("org.scala-lang:scala3-compiler_3"@)
            },
        }
    }

    /// `group:artifact:version` of the compiler that compiles the language at
    /// `version`. Java's comes with the JDK.
    pub open spec fn compiler_at(self, version: Seq<char>) -> Option<Seq<char>> {
        match self.compiler_name(version) {
            Some(name) => Some(name + ":"@ + version),
            None => None,
        }
    }

    /// The coordinate of the language's compiler at `version`; Java's comes
    /// with the JDK.
    pub fn compiler(self, version: &str) -> (r: Option<String>)
        ensures
            r.deep_view() == self.compiler_at(version@),
    {
        let name = match self {
            Language::Java => {
                return None;
            },
            Language::Kotlin => "org.jetbrains.kotlin:kotlin-compiler-embeddable",
            Language::Groovy => "org.apache.groovy:groovy",
            Language::Scala => if is_older(version, 3) {
                "org.scala-lang:scala-compiler"
            } else {
                "org.scala-lang:scala3-compiler_3"
            },
        };
        Some(cat3(name, ":", version))
    }
}

/// Whether the first number of `version` is below `n`, or there is none.
fn is_older(version: &str, n: u64) -> (r: bool)
    ensures
        r == older_than(version@, n as nat),
{
    match part_of(version, 0) {
        Some(major) => major < n,
        None => true,
    }
}

/// The languages besides Java, in order.
pub open spec fn foreign() -> Seq<Language> {
    seq![Language::Kotlin, Language::Scala, Language::Groovy]
}

/// The first of `args` that is not a flag, which groovyc cannot hand to javac.
pub open spec fn not_a_flag(args: Seq<Seq<char>>) -> Option<Seq<char>>
    decreases args.len(),
{
    if args.len() == 0 {
        None
    } else if !starts(args[0], "-"@) {
        Some(args[0])
    } else {
        not_a_flag(args.skip(1))
    }
}

pub open spec fn not_a_flag_message(arg: Seq<char>) -> Seq<char> {
    "`"@ + arg + "` is not a flag"@
}

/// Why groovyc cannot hand `args` to javac, when it cannot.
pub fn groovy_javac_args(args: &Vec<String>) -> (r: Option<String>)
    ensures
        r.deep_view() == (match not_a_flag(args.deep_view()) {
            Some(arg) => Some(not_a_flag_message(arg)),
            None => None,
        }),
{
    let ghost all = args.deep_view();
    let mut i: usize = 0;
    assert(all.skip(0) =~= all);
    while i < args.len()
        invariant
            all == args.deep_view(),
            i <= args@.len(),
            not_a_flag(all) == not_a_flag(all.skip(i as int)),
        decreases args@.len() - i,
    {
        assert(all.skip(i as int).skip(1) =~= all.skip(i + 1));
        if !starts_with(args[i].as_str(), "-") {
            return Some(cat3("`", args[i].as_str(), "` is not a flag"));
        }
        i = i + 1;
    }
    None
}

} // verus!
