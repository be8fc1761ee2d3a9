//! The declarations and configurations of tasks in a Gradle script.

use crate::chars::{
    alphanumeric, digit, is_alphanumeric, is_digit, is_lower, is_space, is_upper, lower, lowered,
    space, to_lower, upper,
};
use crate::gradle_lex::{
    argument, argument_of, bare, bracket, bracketed, identifier, is_identifier, literal, literal_of,
    simple_name, simple_type, split_top, top_parts, type_args, type_argument, unwrap, whole_word,
    word,
};
use crate::parse_tasks::{is_reserved, reserved, task_name_fault, task_word};
use crate::text::{
    after_prefix, cat3, chars, cut, dense, drop_run, found, has_char, includes, left,
    lemma_first_at, lemma_run_start, none_of, outcome, put, replace, replaced, run_start, same,
    sans_head, sans_prefix, sans_suffix, sans_tail, skip, skip_run, split_once, starts,
    strip_prefix, trim, trim_start, trimmed, within, without_prefix, without_space, without_suffix,
    Class,
};
use vstd::prelude::*;

verus! {

// ---- lists of literals -----------------------------------------------------

/// The text of the one literal that `s` is, where nothing is put into it.
pub open spec fn plain_literal(s: Seq<char>) -> Option<Seq<char>> {
    match literal_of(s) {
        Some(l) => if l.interpolated {
            None
        } else {
            Some(l.text)
        },
        None => None,
    }
}

/// The text of the one literal that `s` is, where nothing is put into it.
pub fn plain(s: &str) -> (r: Option<String>)
    ensures
        r.deep_view() == plain_literal(s@),
{
    match literal(s) {
        Some(l) => if l.interpolated {
            None
        } else {
            Some(l.text)
        },
        None => None,
    }
}

/// The literals of the items from `i` on, after those before it, or why one is
/// not.
pub open spec fn literals_from(items: Seq<Seq<char>>, i: int, out: Seq<Seq<char>>) -> Result<
    Seq<Seq<char>>,
    Seq<char>,
>
    decreases items.len() - i,
{
    if i < 0 || i >= items.len() {
        Ok(out)
    } else if trimmed(items[i]).len() == 0 {
        literals_from(items, i + 1, out)
    } else {
        let e = bare(trimmed(items[i]));
        match literal_of(e) {
            Some(l) => if l.interpolated {
                Err(
                    "`"@ + e
                        + "` is interpolated from a variable, which jrs cannot evaluate without running Gradle"@,
                )
            } else {
                literals_from(items, i + 1, out.push(l.text))
            },
            None => Err(
                "`"@ + e + "` is an expression, which jrs cannot evaluate without running Gradle"@,
            ),
        }
    }
}

/// Every element of `rest` as a string literal, or why one is not.
pub open spec fn strings_of(rest: Seq<char>) -> Result<Seq<Seq<char>>, Seq<char>> {
    literals_from(top_parts(bare(argument_of(rest)), ','), 0, seq![])
}

/// Every element of `rest` as a string literal, or why one is not.
pub fn strings(rest: &str) -> (r: Result<Vec<String>, String>)
    ensures
        outcome(r) == strings_of(rest@),
{
    let items = split_top(unwrap(argument(rest)), ',');
    let ghost all = items.deep_view();
    let mut out: Vec<String> = none_of();
    let mut i: usize = 0;
    while i < items.len()
        invariant
            all == items.deep_view(),
            i <= items@.len(),
            strings_of(rest@) == literals_from(all, i as int, out.deep_view()),
        decreases items@.len() - i,
    {
        let item = trim(items[i]);
        assert(all[i as int] == items@[i as int]@);
        if !item.is_empty() {
            let e = unwrap(item);
            match literal(e) {
                Some(l) => {
                    if l.interpolated {
                        return Err(
                            cat3(
                                "`",
                                e,
                                "` is interpolated from a variable, which jrs cannot evaluate without running Gradle",
                            ),
                        );
                    }
                    put(&mut out, l.text);
                },
                None => {
                    return Err(
                        cat3(
                            "`",
                            e,
                            "` is an expression, which jrs cannot evaluate without running Gradle",
                        ),
                    );
                },
            }
        }
        i = i + 1;
    }
    Ok(out)
}

/// `rest` as exactly one string literal.
pub open spec fn string_of_rest(rest: Seq<char>) -> Result<Seq<char>, Seq<char>> {
    match strings_of(rest) {
        Err(e) => Err(e),
        Ok(all) => if all.len() == 1 {
            Ok(all[0])
        } else {
            Err("`"@ + argument_of(rest) + "` is not one string"@)
        },
    }
}

/// `rest` as exactly one string literal.
pub fn string(rest: &str) -> (r: Result<String, String>)
    ensures
        outcome(r) == string_of_rest(rest@),
{
    match strings(rest) {
        Err(e) => Err(e),
        Ok(mut all) => {
            if all.len() == 1 {
                assert(all.deep_view()[0] == all@[0]@);
                Ok(all.remove(0))
            } else {
                Err(cat3("`", argument(rest), "` is not one string"))
            }
        },
    }
}

// ---- references to tasks ---------------------------------------------------

/// The literal inside a bracket that ends `s`.
pub open spec fn bracketed_literal(s: Seq<char>) -> Option<Seq<char>> {
    match bracket(s) {
        Some((inner, after)) => if after.len() == 0 {
            plain_literal(inner)
        } else {
            None
        },
        None => None,
    }
}

/// The literal inside a bracket that ends `s`.
pub fn literal_in_brackets(s: &str) -> (r: Option<String>)
    ensures
        r.deep_view() == bracketed_literal(s@),
{
    match bracketed(s) {
        Some((inner, after)) => if after.is_empty() {
            plain(inner)
        } else {
            None
        },
        None => None,
    }
}

/// The task that `tasks`, with `rest` after it, is.
pub open spec fn tasks_ref(rest: Seq<char>) -> Option<Seq<char>> {
    if bracket(rest) is Some {
        bracketed_literal(rest)
    } else {
        match after_prefix(rest, "."@) {
            None => None,
            Some(r) => match after_prefix(r, "named"@) {
                Some(after) => bracketed_literal(type_args(after).1),
                None => match after_prefix(r, "getByName"@) {
                    Some(after) => bracketed_literal(type_args(after).1),
                    None => if whole_word(r) {
                        Some(r)
                    } else {
                        None
                    },
                },
            },
        }
    }
}

/// A literal, a bare name, `tasks.named("x")`, `tasks.getByName("x")`,
/// `tasks.x` or `tasks["x"]`.
pub open spec fn reference(e: Seq<char>) -> Option<Seq<char>> {
    let t = sans_suffix(bare(e), ".get()"@);
    if literal_of(t) is Some {
        plain_literal(t)
    } else {
        match after_prefix(t, "tasks"@) {
            Some(rest) => tasks_ref(rest),
            None => if whole_word(t) {
                Some(t)
            } else {
                None
            },
        }
    }
}

fn read_tasks_ref(rest: &str) -> (r: Option<String>)
    ensures
        r.deep_view() == tasks_ref(rest@),
{
    if bracketed(rest).is_some() {
        return literal_in_brackets(rest);
    }
    let Some(r) = strip_prefix(rest, ".") else {
        return None;
    };
    if let Some(after) = strip_prefix(r, "named") {
        return literal_in_brackets(type_argument(after).1);
    }
    if let Some(after) = strip_prefix(r, "getByName") {
        return literal_in_brackets(type_argument(after).1);
    }
    if is_identifier(r) {
        Some(r.to_owned())
    } else {
        None
    }
}

/// A literal, a bare name, `tasks.named("x")`, `tasks.getByName("x")`,
/// `tasks.x` or `tasks["x"]`.
pub fn task_ref(e: &str) -> (r: Option<String>)
    ensures
        r.deep_view() == reference(e@),
{
    let t = without_suffix(unwrap(e), ".get()");
    if literal(t).is_some() {
        return plain(t);
    }
    if let Some(rest) = strip_prefix(t, "tasks") {
        return read_tasks_ref(rest);
    }
    if is_identifier(t) {
        Some(t.to_owned())
    } else {
        None
    }
}

pub open spec fn references_from(items: Seq<Seq<char>>, i: int, out: Seq<Seq<char>>) -> Result<
    Seq<Seq<char>>,
    Seq<char>,
>
    decreases items.len() - i,
{
    if i < 0 || i >= items.len() {
        Ok(out)
    } else if trimmed(items[i]).len() == 0 {
        references_from(items, i + 1, out)
    } else {
        match reference(trimmed(items[i])) {
            Some(name) => references_from(items, i + 1, out.push(name)),
            None => Err("`"@ + trimmed(items[i]) + "` does not name a task jrs can read"@),
        }
    }
}

/// `dependsOn` arguments as Gradle task names, or why one is not a name.
pub open spec fn references_of(rest: Seq<char>) -> Result<Seq<Seq<char>>, Seq<char>> {
    references_from(top_parts(bare(argument_of(rest)), ','), 0, seq![])
}

/// `dependsOn` arguments as Gradle task names, or why one is not a name.
pub fn task_refs(rest: &str) -> (r: Result<Vec<String>, String>)
    ensures
        outcome(r) == references_of(rest@),
{
    let items = split_top(unwrap(argument(rest)), ',');
    let ghost all = items.deep_view();
    let mut out: Vec<String> = none_of();
    let mut i: usize = 0;
    while i < items.len()
        invariant
            all == items.deep_view(),
            i <= items@.len(),
            references_of(rest@) == references_from(all, i as int, out.deep_view()),
        decreases items@.len() - i,
    {
        let item = trim(items[i]);
        assert(all[i as int] == items@[i as int]@);
        if !item.is_empty() {
            match task_ref(item) {
                Some(name) => {
                    put(&mut out, name);
                },
                None => {
                    return Err(cat3("`", item, "` does not name a task jrs can read"));
                },
            }
        }
        i = i + 1;
    }
    Ok(out)
}

// ---- declarations ----------------------------------------------------------

/// What a task's declaration says about it, besides its name.
pub struct Header {
    /// `Exec`, `JavaExec`, ...; `None` for a plain task.
    pub kind: Option<String>,
    /// Groovy's `task x(dependsOn: ...)`.
    pub depends_on: Vec<String>,
    /// Groovy's `task x(description: ...)`.
    pub description: Option<String>,
}

/// What a task's declaration says about it, besides its name.
pub struct HeaderModel {
    pub kind: Option<Seq<char>>,
    pub depends_on: Seq<Seq<char>>,
    pub description: Option<Seq<char>>,
}

impl DeepView for Header {
    type V = HeaderModel;

    open spec fn deep_view(&self) -> HeaderModel {
        HeaderModel {
            kind: self.kind.deep_view(),
            depends_on: self.depends_on.deep_view(),
            description: self.description.deep_view(),
        }
    }
}

/// A declaration that says nothing but its type, if that.
pub open spec fn typed_header(kind: Option<Seq<char>>) -> HeaderModel {
    HeaderModel { kind, depends_on: seq![], description: None }
}

fn header_of(kind: Option<String>) -> (r: Header)
    ensures
        r.deep_view() == typed_header(kind.deep_view()),
{
    Header { kind, depends_on: none_of(), description: None }
}

/// The Gradle name a declaration gives its task, and what else it says, or why
/// that cannot be read.
pub type DeclarationModel = (Seq<char>, Result<HeaderModel, Seq<char>>);

pub open spec fn unread_arguments(head: Seq<char>) -> Seq<char> {
    "`"@ + head + "` passes arguments jrs does not read"@
}

/// `val name by tasks.registering(Type::class)`, with `rest` after `val `.
pub open spec fn delegated(head: Seq<char>, rest: Seq<char>) -> Option<DeclarationModel> {
    let r = left(rest);
    match word(r) {
        None => None,
        Some(name) => match after_prefix(left(r.skip(name.len() as int)), "by "@) {
            None => None,
            Some(by) => {
                let by = left(by);
                let call = match after_prefix(by, "tasks.registering"@) {
                    Some(a) => Some(a),
                    None => after_prefix(by, "tasks.creating"@),
                };
                match call {
                    None => None,
                    Some(a) => {
                        let after = trimmed(a);
                        if after.len() == 0 {
                            Some((name, Ok(typed_header(None))))
                        } else {
                            match bracket(after) {
                                Some((ty, tail)) => if tail.len() == 0 && !includes(ty, ',') {
                                    Some((name, Ok(typed_header(Some(simple_type(ty))))))
                                } else {
                                    Some((name, Err(unread_arguments(head))))
                                },
                                None => Some((name, Err(unread_arguments(head)))),
                            }
                        }
                    },
                }
            },
        },
    }
}

/// `tasks.register("name", Type::class)`, `tasks.register<Type>("name")`, with
/// `after` after the method's name.
pub open spec fn registered(head: Seq<char>, after: Seq<char>) -> Option<DeclarationModel> {
    let (ty, rest) = type_args(after);
    match bracket(left(rest)) {
        None => None,
        Some((inner, _)) => {
            let args = top_parts(inner, ',');
            let first = trimmed(args[0]);
            match plain_literal(first) {
                None => Some((first, Err("its name is an expression jrs cannot evaluate"@))),
                Some(name) => if args.len() >= 3 {
                    Some((name, Err(unread_arguments(head))))
                } else if args.len() == 2 {
                    if ty is Some {
                        Some((name, Err("`"@ + head + "` names its type twice"@)))
                    } else {
                        Some((name, Ok(typed_header(Some(simple_type(args[1]))))))
                    }
                } else {
                    match ty {
                        Some(t) => Some((name, Ok(typed_header(Some(simple_type(t)))))),
                        None => Some((name, Ok(typed_header(None)))),
                    }
                },
            }
        },
    }
}

/// The header with what `entry` of a Groovy declaration says, or why that
/// cannot be read.
pub open spec fn with_entry(header: HeaderModel, entry: Seq<char>) -> Result<HeaderModel, Seq<char>> {
    let other = Err("`"@ + entry + "` in its declaration is not something jrs reads"@);
    match cut(entry, ":"@) {
        None => other,
        Some((key, value)) => if key == "type"@ {
            Ok(HeaderModel { kind: Some(simple_type(value)), ..header })
        } else if key == "dependsOn"@ {
            match references_of(value) {
                Ok(refs) => Ok(HeaderModel { depends_on: refs, ..header }),
                Err(e) => Err(e),
            }
        } else if key == "description"@ {
            match string_of_rest(value) {
                Ok(d) => Ok(HeaderModel { description: Some(d), ..header }),
                Err(e) => Err(e),
            }
        } else if key == "group"@ {
            Ok(header)
        } else {
            other
        },
    }
}

/// The header with what the entries from `i` on say.
pub open spec fn with_entries(entries: Seq<Seq<char>>, i: int, header: HeaderModel) -> Result<
    HeaderModel,
    Seq<char>,
>
    decreases entries.len() - i,
{
    if i < 0 || i >= entries.len() {
        Ok(header)
    } else if trimmed(entries[i]).len() == 0 {
        with_entries(entries, i + 1, header)
    } else {
        match with_entry(header, trimmed(entries[i])) {
            Err(e) => Err(e),
            Ok(next) => with_entries(entries, i + 1, next),
        }
    }
}

/// Groovy's `task name`, `task name(type: T, dependsOn: [...])`,
/// `task('name', type: T)`, with `rest` after `task`.
pub open spec fn groovy_task(rest: Seq<char>) -> Option<DeclarationModel> {
    match bracket(rest) {
        Some((args, _)) => {
            let parts = top_parts(args, ',');
            match literal_of(trimmed(parts[0])) {
                None => None,
                Some(l) => Some((l.text, with_entries(parts.skip(1), 0, typed_header(None)))),
            }
        },
        None => if rest.len() == 0 || !space(rest[0]) {
            None
        } else {
            let r = left(rest.skip(1));
            match word(r) {
                None => None,
                Some(name) => {
                    let entries = match bracket(left(r.skip(name.len() as int))) {
                        Some((args, _)) => top_parts(args, ','),
                        None => seq![],
                    };
                    Some((name, with_entries(entries, 0, typed_header(None))))
                },
            }
        },
    }
}

/// The task that `head` declares, when it declares one.
pub open spec fn declaration_of(head: Seq<char>) -> Option<DeclarationModel> {
    let h = sans_prefix(trimmed(head), "project."@);
    match after_prefix(h, "val "@) {
        Some(rest) => delegated(h, rest),
        None => match after_prefix(h, "tasks.register"@) {
            Some(after) => registered(h, after),
            None => match after_prefix(h, "tasks.create"@) {
                Some(after) => registered(h, after),
                None => match after_prefix(h, "task"@) {
                    Some(rest) => groovy_task(rest),
                    None => None,
                },
            },
        },
    }
}

/// What a declaration was read as.
pub struct Declaration {
    pub gradle: String,
    pub header: Result<Header, String>,
}

impl DeepView for Declaration {
    type V = DeclarationModel;

    open spec fn deep_view(&self) -> DeclarationModel {
        (self.gradle@, outcome(self.header))
    }
}

fn read_delegated(head: &str, rest: &str) -> (r: Option<Declaration>)
    ensures
        r.deep_view() == delegated(head@, rest@),
{
    let r = trim_start(rest);
    let Some(name) = identifier(r) else {
        return None;
    };
    proof {
        crate::text::lemma_run_bounds(r@, Class::Word);
    }
    let Some(by) = strip_prefix(trim_start(skip(r, name.unicode_len())), "by ") else {
        return None;
    };
    let by = trim_start(by);
    let call = match strip_prefix(by, "tasks.registering") {
        Some(a) => Some(a),
        None => strip_prefix(by, "tasks.creating"),
    };
    let Some(a) = call else {
        return None;
    };
    let after = trim(a);
    let gradle = name.to_owned();
    if after.is_empty() {
        return Some(Declaration { gradle, header: Ok(header_of(None)) });
    }
    if let Some((ty, tail)) = bracketed(after) {
        if tail.is_empty() && !has_char(ty, ',') {
            return Some(Declaration { gradle, header: Ok(header_of(Some(simple_name(ty)))) });
        }
    }
    Some(
        Declaration {
            gradle,
            header: Err(cat3("`", head, "` passes arguments jrs does not read")),
        },
    )
}

fn read_registered(head: &str, after: &str) -> (r: Option<Declaration>)
    ensures
        r.deep_view() == registered(head@, after@),
{
    let (ty, rest) = type_argument(after);
    let Some((inner, _)) = bracketed(trim_start(rest)) else {
        return None;
    };
    let args = split_top(inner, ',');
    let ghost all = args.deep_view();
    assert(all[0] == args@[0]@);
    let first = trim(args[0]);
    let Some(gradle) = plain(first) else {
        return Some(
            Declaration {
                gradle: first.to_owned(),
                header: Err("its name is an expression jrs cannot evaluate".to_owned()),
            },
        );
    };
    let header = if args.len() >= 3 {
        Err(cat3("`", head, "` passes arguments jrs does not read"))
    } else if args.len() == 2 {
        assert(all[1] == args@[1]@);
        if ty.is_some() {
            Err(cat3("`", head, "` names its type twice"))
        } else {
            Ok(header_of(Some(simple_name(args[1]))))
        }
    } else {
        match ty {
            Some(t) => Ok(header_of(Some(simple_name(t)))),
            None => Ok(header_of(None)),
        }
    };
    Some(Declaration { gradle, header })
}

fn read_entry(header: Header, entry: &str) -> (r: Result<Header, String>)
    ensures
        outcome(r) == with_entry(header.deep_view(), entry@),
{
    let mut header = header;
    if let Some((key, value)) = split_once(entry, ":") {
        if same(key, "type") {
            header.kind = Some(simple_name(value));
            return Ok(header);
        }
        if same(key, "dependsOn") {
            return match task_refs(value) {
                Ok(refs) => {
                    header.depends_on = refs;
                    Ok(header)
                },
                Err(e) => Err(e),
            };
        }
        if same(key, "description") {
            return match string(value) {
                Ok(d) => {
                    header.description = Some(d);
                    Ok(header)
                },
                Err(e) => Err(e),
            };
        }
        if same(key, "group") {
            return Ok(header);
        }
    }
    Err(cat3("`", entry, "` in its declaration is not something jrs reads"))
}

fn read_entries(entries: &Vec<&str>) -> (r: Result<Header, String>)
    ensures
        outcome(r) == with_entries(entries.deep_view(), 0, typed_header(None)),
{
    let ghost all = entries.deep_view();
    let mut header = header_of(None);
    let mut i: usize = 0;
    while i < entries.len()
        invariant
            all == entries.deep_view(),
            i <= entries@.len(),
            with_entries(all, 0, typed_header(None)) == with_entries(
                all,
                i as int,
                header.deep_view(),
            ),
        decreases entries@.len() - i,
    {
        let entry = trim(entries[i]);
        assert(all[i as int] == entries@[i as int]@);
        if !entry.is_empty() {
            match read_entry(header, entry) {
                Ok(next) => {
                    header = next;
                },
                Err(e) => {
                    return Err(e);
                },
            }
        }
        i = i + 1;
    }
    Ok(header)
}

fn read_groovy_task(rest: &str) -> (r: Option<Declaration>)
    ensures
        r.deep_view() == groovy_task(rest@),
{
    if let Some((args, _)) = bracketed(rest) {
        let mut parts = split_top(args, ',');
        let ghost all = parts.deep_view();
        assert(all[0] == parts@[0]@);
        let Some(l) = literal(trim(parts[0])) else {
            return None;
        };
        parts.remove(0);
        assert(parts.deep_view() =~= all.skip(1));
        return Some(Declaration { gradle: l.text, header: read_entries(&parts) });
    }
    if rest.is_empty() || !is_space(rest.get_char(0)) {
        return None;
    }
    let r = trim_start(skip(rest, 1));
    let Some(name) = identifier(r) else {
        return None;
    };
    proof {
        crate::text::lemma_run_bounds(r@, Class::Word);
    }
    let entries: Vec<&str> = match bracketed(trim_start(skip(r, name.unicode_len()))) {
        Some((args, _)) => split_top(args, ','),
        None => none_of(),
    };
    Some(Declaration { gradle: name.to_owned(), header: read_entries(&entries) })
}

/// The Gradle name a declaration gives its task, and what else it says, or
/// why that cannot be read. `None` when `head` declares no task.
pub fn declaration(head: &str) -> (r: Option<Declaration>)
    ensures
        r.deep_view() == declaration_of(head@),
{
    let h = without_prefix(trim(head), "project.");
    // `val name by tasks.registering(Type::class)`
    if let Some(rest) = strip_prefix(h, "val ") {
        return read_delegated(h, rest);
    }
    // `tasks.register("name", Type::class)`, `tasks.register<Type>("name")`
    if let Some(after) = strip_prefix(h, "tasks.register") {
        return read_registered(h, after);
    }
    if let Some(after) = strip_prefix(h, "tasks.create") {
        return read_registered(h, after);
    }
    // Groovy: `task name`, `task name(type: T, dependsOn: [...])`,
    // `task('name', type: T)`.
    match strip_prefix(h, "task") {
        Some(rest) => read_groovy_task(rest),
        None => None,
    }
}

// ---- configuration ---------------------------------------------------------

/// The task `withType<T>` configures, among those jrs has a hook beside.
pub open spec fn task_of(ty: Seq<char>) -> Option<Seq<char>> {
    if ty == "JavaCompile"@ {
        Some("compileJava"@)
    } else if ty == "KotlinCompile"@ || ty == "KotlinJvmCompile"@ {
        Some("compileKotlin"@)
    } else if ty == "ScalaCompile"@ {
        Some("compileScala"@)
    } else if ty == "GroovyCompile"@ {
        Some("compileGroovy"@)
    } else if ty == "Test"@ {
        Some("test"@)
    } else if ty == "Jar"@ {
        Some("jar"@)
    } else {
        None
    }
}

/// The task `withType<T>` configures, among those jrs has a hook beside.
pub fn task_of_type(ty: &str) -> (r: Option<&'static str>)
    ensures
        r.deep_view() == task_of(ty@),
{
    if same(ty, "JavaCompile") {
        Some("compileJava")
    } else if same(ty, "KotlinCompile") || same(ty, "KotlinJvmCompile") {
        Some("compileKotlin")
    } else if same(ty, "ScalaCompile") {
        Some("compileScala")
    } else if same(ty, "GroovyCompile") {
        Some("compileGroovy")
    } else if same(ty, "Test") {
        Some("test")
    } else if same(ty, "Jar") {
        Some("jar")
    } else {
        None
    }
}

/// A method of `tasks` that configures no one task.
pub open spec fn collective(id: Seq<char>) -> bool {
    id == "register"@ || id == "create"@ || id == "all"@ || id == "matching"@ || id
        == "configureEach"@ || id == "whenTaskAdded"@
}

/// The text of the literal inside the bracket at the start of `s`, and what
/// follows.
pub open spec fn literal_call(s: Seq<char>) -> Option<(Seq<char>, Seq<char>)> {
    match bracket(s) {
        None => None,
        Some((inner, after)) => match literal_of(inner) {
            None => None,
            Some(l) => Some((l.text, after)),
        },
    }
}

fn read_literal_call(s: &str) -> (r: Option<(String, &str)>)
    ensures
        r.deep_view() == literal_call(s@),
{
    match bracketed(s) {
        None => None,
        Some((inner, after)) => match literal(inner) {
            None => None,
            Some(l) => Some((l.text, after)),
        },
    }
}

/// The identifier at the start of `s`, and what follows.
pub open spec fn word_and_rest(s: Seq<char>) -> Option<(Seq<char>, Seq<char>)> {
    match word(s) {
        None => None,
        Some(id) => Some((id, s.skip(id.len() as int))),
    }
}

fn read_word(s: &str) -> (r: Option<(String, &str)>)
    ensures
        r.deep_view() == word_and_rest(s@),
{
    proof {
        crate::text::lemma_run_bounds(s@, Class::Word);
    }
    match identifier(s) {
        None => None,
        Some(id) => Some((id.to_owned(), skip(s, id.unicode_len()))),
    }
}

/// What `tasks.`, with `r` after it, configures, and what follows.
pub open spec fn configured_task(r: Seq<char>) -> Option<(Seq<char>, Seq<char>)> {
    match after_prefix(r, "withType"@) {
        Some(a) => {
            let found = match type_args(a) {
                (Some(ty), after) => Some((ty, after)),
                (None, after) => bracket(after),
            };
            match found {
                None => None,
                Some((ty, after)) => match task_of(simple_type(ty)) {
                    None => None,
                    Some(task) => Some((task, after)),
                },
            }
        },
        None => {
            let named = match after_prefix(r, "named"@) {
                Some(a) => Some(a),
                None => after_prefix(r, "getByName"@),
            };
            match named {
                Some(a) => literal_call(type_args(a).1),
                None => match word_and_rest(r) {
                    None => None,
                    Some((id, rest)) => if collective(id) {
                        None
                    } else {
                        Some((id, rest))
                    },
                },
            }
        },
    }
}

/// `rest` without the calls that only open a configuration.
pub open spec fn past_configure(rest: Seq<char>) -> Seq<char>
    decreases rest.len(),
{
    let r = left(rest);
    proof {
        crate::text::lemma_run_bounds(rest, Class::Space);
        reveal_strlit(".configure");
        reveal_strlit(".configureEach");
        reveal_strlit(".get()");
    }
    if starts(r, ".configure"@) {
        past_configure(r.skip(".configure"@.len() as int))
    } else if starts(r, ".configureEach"@) {
        past_configure(r.skip(".configureEach"@.len() as int))
    } else if starts(r, ".get()"@) {
        past_configure(r.skip(".get()"@.len() as int))
    } else {
        r
    }
}

/// The Gradle task a configuring statement names, and what follows it.
pub open spec fn configured_of(head: Seq<char>) -> Option<(Seq<char>, Seq<char>)> {
    let s = sans_prefix(trimmed(head), "project."@);
    let found = match after_prefix(s, "tasks."@) {
        Some(r) => configured_task(r),
        None => match after_prefix(s, "tasks"@) {
            Some(r) => literal_call(r),
            None => word_and_rest(s),
        },
    };
    match found {
        None => None,
        Some((target, rest)) => Some((target, past_configure(rest))),
    }
}

fn read_configured_task(r: &str) -> (out: Option<(String, &str)>)
    ensures
        out.deep_view() == configured_task(r@),
{
    if let Some(a) = strip_prefix(r, "withType") {
        let (ty, after) = match type_argument(a) {
            (Some(ty), after) => (ty, after),
            (None, after) => match bracketed(after) {
                Some(x) => x,
                None => {
                    return None;
                },
            },
        };
        return match task_of_type(simple_name(ty).as_str()) {
            Some(task) => Some((task.to_owned(), after)),
            None => None,
        };
    }
    let named = match strip_prefix(r, "named") {
        Some(a) => Some(a),
        None => strip_prefix(r, "getByName"),
    };
    if let Some(a) = named {
        return read_literal_call(type_argument(a).1);
    }
    match read_word(r) {
        None => None,
        Some((id, rest)) => {
            let i = id.as_str();
            if same(i, "register") || same(i, "create") || same(i, "all") || same(i, "matching")
                || same(i, "configureEach") || same(i, "whenTaskAdded") {
                None
            } else {
                Some((id, rest))
            }
        },
    }
}

fn skip_configure(rest: &str) -> (r: &str)
    ensures
        r@ == past_configure(rest@),
{
    let mut s: &str = rest;
    proof {
        reveal_strlit(".configure");
        reveal_strlit(".configureEach");
        reveal_strlit(".get()");
    }
    loop
        invariant
            past_configure(rest@) == past_configure(s@),
            ".configure"@.len() == 10,
            ".configureEach"@.len() == 14,
            ".get()"@.len() == 6,
        decreases s@.len(),
    {
        let r = trim_start(s);
        proof {
            crate::text::lemma_run_bounds(s@, Class::Space);
        }
        if let Some(next) = strip_prefix(r, ".configure") {
            s = next;
        } else if let Some(next) = strip_prefix(r, ".configureEach") {
            s = next;
        } else if let Some(next) = strip_prefix(r, ".get()") {
            s = next;
        } else {
            return r;
        }
    }
}

/// The Gradle task a configuring statement names, and what follows it:
/// `compileJava.dependsOn x` → `compileJava`, `.dependsOn x`;
/// `tasks.named("test")` → `test`, and nothing.
pub fn configured(head: &str) -> (r: Option<(String, &str)>)
    ensures
        r.deep_view() == configured_of(head@),
{
    let s = without_prefix(trim(head), "project.");
    let found = if let Some(r) = strip_prefix(s, "tasks.") {
        read_configured_task(r)
    } else if let Some(r) = strip_prefix(s, "tasks") {
        read_literal_call(r)
    } else {
        read_word(s)
    };
    match found {
        None => None,
        Some((target, rest)) => Some((target, skip_configure(rest))),
    }
}

/// How one task is tied to another.
#[derive(Debug, Clone, Copy, PartialEq, Eq, Structural)]
pub enum Relation {
    DependsOn,
    FinalizedBy,
    /// `mustRunAfter` / `shouldRunAfter`: ordering only, which jrs gets from
    /// `depends-on` alone.
    RunsAfter,
}

impl DeepView for Relation {
    type V = Relation;

    open spec fn deep_view(&self) -> Relation {
        *self
    }
}

/// What follows `name` at the start of `text`, where the word ends there.
pub open spec fn after_word(text: Seq<char>, name: Seq<char>) -> Option<Seq<char>> {
    match after_prefix(text, name) {
        Some(rest) => if rest.len() > 0 && alphanumeric(rest[0]) {
            None
        } else {
            Some(rest)
        },
        None => None,
    }
}

fn strip_word<'a>(text: &'a str, name: &str) -> (r: Option<&'a str>)
    ensures
        r.deep_view() == after_word(text@, name@),
{
    match strip_prefix(text, name) {
        Some(rest) => if !rest.is_empty() && is_alphanumeric(rest.get_char(0)) {
            None
        } else {
            Some(rest)
        },
        None => None,
    }
}

/// `dependsOn x`, `.finalizedBy(x)`, ...: the relation and its argument.
pub open spec fn relation_of(text: Seq<char>) -> Option<(Relation, Seq<char>)> {
    let t = sans_head(trimmed(text), Class::One('.'));
    match after_word(t, "dependsOn"@) {
        Some(rest) => Some((Relation::DependsOn, rest)),
        None => match after_word(t, "finalizedBy"@) {
            Some(rest) => Some((Relation::FinalizedBy, rest)),
            None => match after_word(t, "mustRunAfter"@) {
                Some(rest) => Some((Relation::RunsAfter, rest)),
                None => match after_word(t, "shouldRunAfter"@) {
                    Some(rest) => Some((Relation::RunsAfter, rest)),
                    None => None,
                },
            },
        },
    }
}

/// `dependsOn x`, `.finalizedBy(x)`, ...: the relation and its argument.
pub fn relation(text: &str) -> (r: Option<(Relation, &str)>)
    ensures
        r.deep_view() == relation_of(text@),
{
    let t = skip_run(trim(text), Class::One('.'));
    if let Some(rest) = strip_word(t, "dependsOn") {
        return Some((Relation::DependsOn, rest));
    }
    if let Some(rest) = strip_word(t, "finalizedBy") {
        return Some((Relation::FinalizedBy, rest));
    }
    if let Some(rest) = strip_word(t, "mustRunAfter") {
        return Some((Relation::RunsAfter, rest));
    }
    if let Some(rest) = strip_word(t, "shouldRunAfter") {
        return Some((Relation::RunsAfter, rest));
    }
    None
}

/// `sourceSets.main.runtimeClasspath`, in its Groovy and Kotlin spellings.
pub open spec fn main_runtime_classpath(rest: Seq<char>) -> bool {
    let c = dense(bare(argument_of(rest)));
    let c = replaced(c, ".get()"@, ""@);
    let c = replaced(c, "[\"main\"]"@, ".main"@);
    let c = replaced(c, "['main']"@, ".main"@);
    let c = replaced(c, ".getByName(\"main\")"@, ".main"@);
    let c = replaced(c, ".named(\"main\")"@, ".main"@);
    sans_prefix(sans_prefix(c, "project."@), "java."@) == "sourceSets.main.runtimeClasspath"@
}

/// `sourceSets.main.runtimeClasspath`, in its Groovy and Kotlin spellings.
pub fn is_main_runtime_classpath(rest: &str) -> (r: bool)
    ensures
        r == main_runtime_classpath(rest@),
{
    proof {
        reveal_strlit(".get()");
        reveal_strlit("[\"main\"]");
        reveal_strlit("['main']");
        reveal_strlit(".getByName(\"main\")");
        reveal_strlit(".named(\"main\")");
    }
    let c = without_space(unwrap(argument(rest)));
    let c = replace(c.as_str(), ".get()", "");
    let c = replace(c.as_str(), "[\"main\"]", ".main");
    let c = replace(c.as_str(), "['main']", ".main");
    let c = replace(c.as_str(), ".getByName(\"main\")", ".main");
    let c = replace(c.as_str(), ".named(\"main\")", ".main");
    same(
        without_prefix(without_prefix(c.as_str(), "project."), "java."),
        "sourceSets.main.runtimeClasspath",
    )
}

// ---- names -----------------------------------------------------------------

/// A capital where a new word of a camel-case name begins.
pub open spec fn word_begins(s: Seq<char>, i: int) -> bool {
    i > 0 && (lower(s[i - 1]) || digit(s[i - 1]) || (upper(s[i - 1]) && i + 1 < s.len() && lower(
        s[i + 1],
    )))
}

/// The words of the name from `i` on, after those before; none where a
/// character has no place in a task's name.
pub open spec fn dashed_from(s: Seq<char>, i: int, out: Seq<char>) -> Option<Seq<char>>
    decreases s.len() - i,
{
    if i < 0 || i >= s.len() {
        Some(out)
    } else {
        let c = s[i];
        let dashed = out.len() > 0 && out.last() == '-';
        if c == '_' || c == '-' || c == '.' {
            if out.len() > 0 && !dashed {
                dashed_from(s, i + 1, out.push('-'))
            } else {
                dashed_from(s, i + 1, out)
            }
        } else if !alphanumeric(c) {
            None
        } else if upper(c) && word_begins(s, i) && !dashed {
            dashed_from(s, i + 1, out.push('-').push(lowered(c)))
        } else {
            dashed_from(s, i + 1, out.push(lowered(c)))
        }
    }
}

/// `generateBuildInfo` → `generate-build-info`, `HTMLReport` → `html-report`.
pub open spec fn dashed_name(gradle: Seq<char>) -> Result<Seq<char>, Seq<char>> {
    match dashed_from(gradle, 0, seq![]) {
        None => Err("its name `"@ + gradle + "` has characters a jrs task name cannot"@),
        Some(all) => {
            let out = sans_tail(all, Class::One('-'));
            if out.len() == 0 || !lower(out[0]) {
                Err(
                    "its name `"@ + gradle
                        + "` does not start with a letter, as a jrs task name must"@,
                )
            } else if reserved(out) {
                Err("its name would be `"@ + out + "`, which is a jrs command"@)
            } else {
                Ok(out)
            }
        },
    }
}

fn dash(gradle: &str) -> (r: Option<String>)
    ensures
        r.deep_view() == dashed_from(gradle@, 0, seq![]),
{
    let cs = chars(gradle);
    let n: usize = cs.len();
    let mut out: Vec<char> = Vec::new();
    let mut i: usize = 0;
    assert(out@ =~= seq![]);
    while i < n
        invariant
            cs@ == gradle@,
            n == cs@.len(),
            i <= n,
            dashed_from(gradle@, 0, seq![]) == dashed_from(gradle@, i as int, out@),
        decreases n - i,
    {
        let c: char = cs[i];
        let dashed = out.len() > 0 && out[out.len() - 1] == '-';
        if c == '_' || c == '-' || c == '.' {
            if out.len() > 0 && !dashed {
                out.push('-');
            }
        } else if !is_alphanumeric(c) {
            return None;
        } else {
            if is_upper(c) && !dashed && i > 0 {
                let p: char = cs[i - 1];
                if is_lower(p) || is_digit(p) || (is_upper(p) && n - i > 1 && is_lower(cs[i + 1])) {
                    out.push('-');
                }
            }
            out.push(to_lower(c));
        }
        i = i + 1;
    }
    let k: usize = out.len();
    let text = crate::text::string_of(&out, 0, k);
    assert(out@.subrange(0, k as int) =~= out@);
    Some(text)
}

/// `generateBuildInfo` → `generate-build-info`, `HTMLReport` → `html-report`.
/// Maven's execution ids go through it too.
pub fn task_name(gradle: &str) -> (r: Result<String, String>)
    ensures
        outcome(r) == dashed_name(gradle@),
{
    let Some(all) = dash(gradle) else {
        return Err(cat3("its name `", gradle, "` has characters a jrs task name cannot"));
    };
    let out = drop_run(all.as_str(), Class::One('-'));
    if out.is_empty() || !is_lower(out.get_char(0)) {
        return Err(
            cat3(
                "its name `",
                gradle,
                "` does not start with a letter, as a jrs task name must",
            ),
        );
    }
    if is_reserved(out) {
        return Err(cat3("its name would be `", out, "`, which is a jrs command"));
    }
    Ok(out.to_owned())
}

/// A character of a task's name.
pub open spec fn name_char(c: char) -> bool {
    lower(c) || digit(c) || c == '-'
}

proof fn lemma_dashed_chars(s: Seq<char>, i: int, out: Seq<char>)
    requires
        0 <= i,
        forall|k: int| 0 <= k < out.len() ==> name_char(#[trigger] out[k]),
    ensures
        dashed_from(s, i, out) matches Some(all) ==> forall|k: int|
            0 <= k < all.len() ==> name_char(#[trigger] all[k]),
    decreases s.len() - i,
{
    if i < s.len() {
        let c = s[i];
        lemma_dashed_chars(s, i + 1, out);
        lemma_dashed_chars(s, i + 1, out.push('-'));
        if alphanumeric(c) {
            lemma_dashed_chars(s, i + 1, out.push('-').push(lowered(c)));
            lemma_dashed_chars(s, i + 1, out.push(lowered(c)));
        }
    }
}

/// No two dashes stand side by side.
pub open spec fn single_dashes(s: Seq<char>) -> bool {
    forall|k: int| 0 < k < s.len() ==> s[k - 1] != '-' || #[trigger] s[k] != '-'
}

proof fn lemma_single_dashes(s: Seq<char>, i: int, out: Seq<char>)
    requires
        0 <= i,
        single_dashes(out),
    ensures
        dashed_from(s, i, out) matches Some(all) ==> single_dashes(all),
    decreases s.len() - i,
{
    if i < s.len() {
        let c = s[i];
        let dashed = out.len() > 0 && out.last() == '-';
        lemma_single_dashes(s, i + 1, out);
        if !dashed {
            lemma_single_dashes(s, i + 1, out.push('-'));
        }
        if alphanumeric(c) {
            assert(lowered(c) != '-');
            lemma_single_dashes(s, i + 1, out.push(lowered(c)));
            if !dashed {
                lemma_single_dashes(s, i + 1, out.push('-').push(lowered(c)));
            }
        }
    }
}

/// A name that is a task's already stays as it is.
proof fn lemma_dashed_again(s: Seq<char>, i: int)
    requires
        0 <= i <= s.len(),
        s.len() > 0,
        lower(s[0]),
        single_dashes(s),
        forall|k: int| 0 <= k < s.len() ==> name_char(#[trigger] s[k]),
    ensures
        dashed_from(s, i, s.take(i)) == Some(s),
    decreases s.len() - i,
{
    let out = s.take(i);
    if i < s.len() {
        let c = s[i];
        assert(name_char(c));
        assert(s.take(i + 1) =~= out.push(c));
        lemma_dashed_again(s, i + 1);
        if i > 0 {
            assert(out.last() == s[i - 1]);
        }
        if c != '-' {
            assert(lowered(c) == c && !upper(c) && alphanumeric(c));
        }
    } else {
        assert(out =~= s);
    }
}

/// A name that a Gradle task is given is one that a manifest accepts. Its
/// dashes stand alone and not at its end, and it is the name that a task of
/// that name is given.
pub proof fn given_names_are_task_names(gradle: Seq<char>)
    ensures
        dashed_name(gradle) matches Ok(name) ==> {
            &&& task_word(name)
            &&& !reserved(name)
            &&& task_name_fault(name) is None
            &&& !within(name, "--"@)
            &&& name.last() != '-'
            &&& dashed_name(name) == Ok::<Seq<char>, Seq<char>>(name)
        },
{
    lemma_dashed_chars(gradle, 0, seq![]);
    lemma_single_dashes(gradle, 0, seq![]);
    if let Ok(name) = dashed_name(gradle) {
        let all = dashed_from(gradle, 0, seq![])->0;
        let n = all.len() as int;
        lemma_run_start(all, Class::One('-'), n);
        let end = run_start(all, Class::One('-'), n);
        assert(name == all.take(end));
        assert forall|i: int| 0 <= i < name.len() implies lower(#[trigger] name[i]) || digit(
            name[i],
        ) || name[i] == '-' by {
            assert(name_char(all[i]));
        }
        assert forall|k: int| 0 < k < name.len() implies name[k - 1] != '-' || #[trigger] name[k]
            != '-' by {
            assert(all[k - 1] != '-' || all[k] != '-');
        }
        assert(name.last() == all[end - 1]);
        assert(name.take(0) =~= seq![]);
        lemma_dashed_again(name, 0);
        lemma_run_start(name, Class::One('-'), name.len() as int);
        assert(name.take(name.len() as int) =~= name);
        reveal_strlit("--");
        lemma_first_at(name, "--"@, 0);
        if let Some(i) = found(name, "--"@) {
            assert(name.subrange(i, i + 2)[0] == name[i]);
            assert(name.subrange(i, i + 2)[1] == name[i + 1]);
        }
    }
}

} // verus!
