//! Assignments of variables in a Gradle script, and the expressions that name
//! one.

use crate::chars::{is_space, space};
use crate::gradle_lex::lemma_trimmed_len;
use crate::gradle_scan::{key_at_start, key_literal, name, name_at_start};
use crate::text::{
    after_prefix, before_suffix, chars, dense, drop_run, left, lemma_run_bounds, same, sans_prefix,
    sans_suffix, sans_tail, skip, starts, starts_with, strip_prefix, strip_suffix, trim, trim_start,
    trimmed, without_prefix, without_space, without_suffix, Class,
};
use vstd::prelude::*;

verus! {

// ---- blocks ----------------------------------------------------------------

/// The blocks whose assignments are extra properties: `ext { }` and its
/// spellings.
pub open spec fn ext_header(header: Seq<char>) -> bool {
    let h = dense(header);
    h == "ext"@ || h == "project.ext"@ || h == "rootProject.ext"@ || h == "extra.apply"@ || h
        == "project.extra.apply"@ || h == "rootProject.extra.apply"@
}

pub fn is_ext_block(header: &str) -> (r: bool)
    ensures
        r == ext_header(header@),
{
    let text = without_space(header);
    let h = text.as_str();
    same(h, "ext") || same(h, "project.ext") || same(h, "rootProject.ext") || same(
        h,
        "extra.apply",
    ) || same(h, "project.extra.apply") || same(h, "rootProject.extra.apply")
}

/// Where the bracket closes that `depth` brackets before `i` hold open.
pub open spec fn guard_end(s: Seq<char>, i: int, depth: int) -> Option<int>
    decreases s.len() - i,
{
    if i < 0 || i >= s.len() {
        None
    } else if s[i] == '(' {
        guard_end(s, i + 1, depth + 1)
    } else if s[i] == ')' {
        if depth == 1 {
            Some(i)
        } else {
            guard_end(s, i + 1, depth - 1)
        }
    } else {
        guard_end(s, i + 1, depth)
    }
}

fn find_guard_end(s: &str) -> (r: Option<usize>)
    requires
        s@.len() > 0,
        s@[0] == '(',
    ensures
        r is Some <==> guard_end(s@, 0, 0) is Some,
        r matches Some(i) ==> guard_end(s@, 0, 0) == Some(i as int) && i < s@.len(),
{
    let cs = chars(s);
    let mut depth: usize = 0;
    let mut i: usize = 0;
    while i < cs.len()
        invariant
            cs@ == s@,
            s@.len() > 0,
            s@[0] == '(',
            i <= cs@.len(),
            depth <= i,
            i > 0 ==> depth > 0,
            guard_end(s@, 0, 0) == guard_end(s@, i as int, depth as int),
        decreases cs@.len() - i,
    {
        if cs[i] == '(' {
            depth = depth + 1;
        } else if cs[i] == ')' {
            if depth == 1 {
                return Some(i);
            }
            depth = depth - 1;
        }
        i = i + 1;
    }
    None
}

/// What follows `if`, `for` or `while` where an opening bracket does.
pub open spec fn keyword_rest(s: Seq<char>, keyword: Seq<char>) -> Option<Seq<char>> {
    match after_prefix(s, keyword) {
        Some(rest) => if starts(left(rest), "("@) {
            Some(left(rest))
        } else {
            None
        },
        None => None,
    }
}

/// What follows `if`, `for` or `while`, from its opening bracket on.
pub open spec fn guard_rest(s: Seq<char>) -> Option<Seq<char>> {
    match keyword_rest(s, "if"@) {
        Some(r) => Some(r),
        None => match keyword_rest(s, "for"@) {
            Some(r) => Some(r),
            None => keyword_rest(s, "while"@),
        },
    }
}

/// What follows `else`.
pub open spec fn else_rest(s: Seq<char>) -> Option<Seq<char>> {
    match after_prefix(s, "else"@) {
        Some(rest) => if rest.len() == 0 || space(rest[0]) {
            Some(rest)
        } else {
            None
        },
        None => None,
    }
}

/// A statement without the `if (...)`, `else`, `for (...)` or `while (...)`
/// before it, and whether it had one.
pub open spec fn unguarded(statement: Seq<char>) -> (Seq<char>, bool)
    decreases statement.len(),
{
    let s = trimmed(statement);
    match guard_rest(s) {
        Some(rest) => match guard_end(rest, 0, 0) {
            Some(i) => {
                proof {
                    lemma_guard_rest(statement);
                    lemma_guard_end(rest, 0, 0);
                }
                (unguarded(rest.skip(i + 1)).0, true)
            },
            None => (""@, true),
        },
        None => match else_rest(s) {
            Some(rest) => {
                proof {
                    lemma_trimmed_len(statement);
                    reveal_strlit("else");
                }
                (unguarded(rest).0, true)
            },
            None => (s, false),
        },
    }
}

pub proof fn lemma_guard_end(s: Seq<char>, i: int, depth: int)
    ensures
        guard_end(s, i, depth) matches Some(k) ==> 0 <= k < s.len(),
    decreases s.len() - i,
{
    if 0 <= i < s.len() {
        lemma_guard_end(s, i + 1, depth + 1);
        lemma_guard_end(s, i + 1, depth - 1);
        lemma_guard_end(s, i + 1, depth);
    }
}

pub proof fn lemma_guard_rest(statement: Seq<char>)
    ensures
        guard_rest(trimmed(statement)) matches Some(rest) ==> rest.len() <= statement.len(),
{
    let s = trimmed(statement);
    lemma_trimmed_len(statement);
    if let Some(r) = after_prefix(s, "if"@) {
        lemma_run_bounds(r, Class::Space);
    }
    if let Some(r) = after_prefix(s, "for"@) {
        lemma_run_bounds(r, Class::Space);
    }
    if let Some(r) = after_prefix(s, "while"@) {
        lemma_run_bounds(r, Class::Space);
    }
}

fn skip_keyword<'a>(s: &'a str, keyword: &str) -> (r: Option<&'a str>)
    ensures
        r.deep_view() == keyword_rest(s@, keyword@),
{
    match strip_prefix(s, keyword) {
        Some(rest) => if starts_with(trim_start(rest), "(") {
            Some(trim_start(rest))
        } else {
            None
        },
        None => None,
    }
}

/// A statement behind an `if (...)`, `else`, `for (...)` or `while (...)` on
/// its own line, and whether it had one.
pub fn unguard(statement: &str) -> (r: (&str, bool))
    ensures
        (r.0@, r.1) == unguarded(statement@),
    decreases statement@.len(),
{
    let s = trim(statement);
    let guard = match skip_keyword(s, "if") {
        Some(r) => Some(r),
        None => match skip_keyword(s, "for") {
            Some(r) => Some(r),
            None => skip_keyword(s, "while"),
        },
    };
    proof {
        lemma_guard_rest(statement@);
        lemma_trimmed_len(statement@);
        reveal_strlit("else");
        reveal_strlit("(");
    }
    if let Some(rest) = guard {
        assert(rest@.subrange(0, 1)[0] == "("@[0]);
        return match find_guard_end(rest) {
            Some(i) => {
                let _size: usize = rest.unicode_len();
                (unguard(skip(rest, i + 1)).0, true)
            },
            None => ("", true),
        };
    }
    if let Some(rest) = strip_prefix(s, "else") {
        if rest.is_empty() || is_space(rest.get_char(0)) {
            return (unguard(rest).0, true);
        }
    }
    (s, false)
}

// ---- assignments -----------------------------------------------------------

/// What follows the `=` of an assignment.
pub open spec fn assigned_value(rest: Seq<char>) -> Option<Seq<char>> {
    match after_prefix(left(rest), "="@) {
        Some(v) => if starts(v, "="@) {
            None
        } else {
            Some(trimmed(v))
        },
        None => None,
    }
}

/// What follows the `=` of an assignment; `None` for `==` or no `=`.
fn right_hand(rest: &str) -> (r: Option<&str>)
    ensures
        r.deep_view() == assigned_value(rest@),
{
    match strip_prefix(trim_start(rest), "=") {
        Some(v) => if starts_with(v, "=") {
            None
        } else {
            Some(trim(v))
        },
        None => None,
    }
}

pub open spec fn assigned_to(name: Seq<char>, rest: Seq<char>) -> Option<(Seq<char>, Seq<char>)> {
    match assigned_value(rest) {
        Some(v) => Some((name, v)),
        None => None,
    }
}

fn assign_to(name: &str, rest: &str) -> (r: Option<(String, String)>)
    ensures
        r.deep_view() == assigned_to(name@, rest@),
{
    match right_hand(rest) {
        Some(v) => Some((name.to_owned(), v.to_owned())),
        None => None,
    }
}

/// `'x', '1.2')`, the rest of a `set(` call.
pub open spec fn set_call_of(args: Seq<char>) -> Option<(Seq<char>, Seq<char>)> {
    match key_at_start(left(args)) {
        Some((key, rest)) => match after_prefix(left(rest), ","@) {
            Some(value) => match before_suffix(trimmed(value), ")"@) {
                Some(v) => Some((key, trimmed(v))),
                None => None,
            },
            None => None,
        },
        None => None,
    }
}

/// `'x', '1.2')`, the rest of a `set(` call.
fn set_call(args: &str) -> (r: Option<(String, String)>)
    ensures
        r.deep_view() == set_call_of(args@),
{
    match key_literal(trim_start(args)) {
        Some((key, rest)) => match strip_prefix(trim_start(rest), ",") {
            Some(value) => match strip_suffix(trim(value), ")") {
                Some(v) => Some((key.to_owned(), trim(v).to_owned())),
                None => None,
            },
            None => None,
        },
        None => None,
    }
}

/// What follows the keyword of a declaration: Groovy's `def` or a type,
/// Kotlin's `val` and `var`.
pub open spec fn declared_rest(s: Seq<char>) -> Option<Seq<char>> {
    match after_prefix(s, "def "@) {
        Some(r) => Some(r),
        None => match after_prefix(s, "val "@) {
            Some(r) => Some(r),
            None => match after_prefix(s, "var "@) {
                Some(r) => Some(r),
                None => after_prefix(s, "String "@),
            },
        },
    }
}

fn skip_declaration(s: &str) -> (r: Option<&str>)
    ensures
        r.deep_view() == declared_rest(s@),
{
    match strip_prefix(s, "def ") {
        Some(r) => Some(r),
        None => match strip_prefix(s, "val ") {
            Some(r) => Some(r),
            None => match strip_prefix(s, "var ") {
                Some(r) => Some(r),
                None => strip_prefix(s, "String "),
            },
        },
    }
}

/// Where a type's name ends that reaches `i`.
pub open spec fn type_end(s: Seq<char>, i: int) -> int
    decreases s.len() - i,
{
    if 0 <= i < s.len() && !space(s[i]) && s[i] != '=' {
        type_end(s, i + 1)
    } else {
        i
    }
}

/// What follows a variable's type, where it has one.
pub open spec fn past_type(rest: Seq<char>) -> Seq<char> {
    match after_prefix(rest, ":"@) {
        Some(typed) => left(left(typed).skip(type_end(left(typed), 0))),
        None => rest,
    }
}

fn skip_type(rest: &str) -> (r: &str)
    ensures
        r@ == past_type(rest@),
{
    match strip_prefix(rest, ":") {
        Some(typed) => {
            let t = trim_start(typed);
            let cs = chars(t);
            let mut i: usize = 0;
            while i < cs.len() && !is_space(cs[i]) && cs[i] != '='
                invariant
                    cs@ == t@,
                    i <= cs@.len(),
                    type_end(t@, 0) == type_end(t@, i as int),
                decreases cs@.len() - i,
            {
                i = i + 1;
            }
            trim_start(skip(t, i))
        },
        None => rest,
    }
}

/// `x = ...`, `x: String = ...` or `x by extra(...)`, what follows `def`.
pub open spec fn declaration_of(rest: Seq<char>) -> Option<(Seq<char>, Seq<char>)> {
    match name_at_start(left(rest)) {
        Some((name, tail)) => {
            let t = past_type(left(tail));
            match after_prefix(t, "by "@) {
                Some(delegate) => match after_prefix(trimmed(delegate), "extra("@) {
                    Some(d) => match before_suffix(d, ")"@) {
                        Some(argument) => Some((name, argument)),
                        None => None,
                    },
                    None => None,
                },
                None => assigned_to(name, t),
            }
        },
        None => None,
    }
}

fn read_declaration(rest: &str) -> (r: Option<(String, String)>)
    ensures
        r.deep_view() == declaration_of(rest@),
{
    let Some((name, tail)) = name(trim_start(rest)) else {
        return None;
    };
    let t = skip_type(trim_start(tail));
    // `by extra("1.2")` assigns; `by project` and `by extra` read a value set
    // elsewhere under the same name.
    if let Some(delegate) = strip_prefix(t, "by ") {
        return match strip_prefix(trim(delegate), "extra(") {
            Some(d) => match strip_suffix(d, ")") {
                Some(argument) => Some((name.to_owned(), argument.to_owned())),
                None => None,
            },
            None => None,
        };
    }
    assign_to(name, t)
}

/// `"x"] = ...`, what follows `ext[`.
pub open spec fn indexed_of(rest: Seq<char>) -> Option<(Seq<char>, Seq<char>)> {
    match key_at_start(left(rest)) {
        Some((key, tail)) => match after_prefix(left(tail), "]"@) {
            Some(t) => assigned_to(key, t),
            None => None,
        },
        None => None,
    }
}

fn read_indexed(rest: &str) -> (r: Option<(String, String)>)
    ensures
        r.deep_view() == indexed_of(rest@),
{
    match key_literal(trim_start(rest)) {
        Some((key, tail)) => match strip_prefix(trim_start(tail), "]") {
            Some(t) => assign_to(key, t),
            None => None,
        },
        None => None,
    }
}

/// `x = ...`, what follows `ext.`.
pub open spec fn named_of(rest: Seq<char>) -> Option<(Seq<char>, Seq<char>)> {
    match name_at_start(rest) {
        Some((name, tail)) => assigned_to(name, tail),
        None => None,
    }
}

fn read_named(rest: &str) -> (r: Option<(String, String)>)
    ensures
        r.deep_view() == named_of(rest@),
{
    match name(rest) {
        Some((name, tail)) => assign_to(name, tail),
        None => None,
    }
}

/// Whether what follows `project.` sets an extra property, and which.
pub open spec fn extra_of(rest: Seq<char>) -> Option<Option<(Seq<char>, Seq<char>)>> {
    match after_prefix(rest, "ext.set("@) {
        Some(args) => Some(set_call_of(args)),
        None => match after_prefix(rest, "extra.set("@) {
            Some(args) => Some(set_call_of(args)),
            None => match after_prefix(rest, "ext."@) {
                Some(r) => Some(named_of(r)),
                None => match after_prefix(rest, "ext["@) {
                    Some(r) => Some(indexed_of(r)),
                    None => match after_prefix(rest, "extra["@) {
                        Some(r) => Some(indexed_of(r)),
                        None => None,
                    },
                },
            },
        },
    }
}

fn read_extra(rest: &str) -> (r: Option<Option<(String, String)>>)
    ensures
        r.deep_view() == extra_of(rest@),
{
    match strip_prefix(rest, "ext.set(") {
        Some(args) => Some(set_call(args)),
        None => match strip_prefix(rest, "extra.set(") {
            Some(args) => Some(set_call(args)),
            None => match strip_prefix(rest, "ext.") {
                Some(r) => Some(read_named(r)),
                None => match strip_prefix(rest, "ext[") {
                    Some(r) => Some(read_indexed(r)),
                    None => match strip_prefix(rest, "extra[") {
                        Some(r) => Some(read_indexed(r)),
                        None => None,
                    },
                },
            },
        },
    }
}

/// An extra property that is set with or without `project.` before it.
pub open spec fn owned_extra(s: Seq<char>) -> Option<Option<(Seq<char>, Seq<char>)>> {
    let by_root = match after_prefix(s, "rootProject."@) {
        Some(rest) => extra_of(rest),
        None => None,
    };
    match by_root {
        Some(r) => Some(r),
        None => {
            let by_project = match after_prefix(s, "project."@) {
                Some(rest) => extra_of(rest),
                None => None,
            };
            match by_project {
                Some(r) => Some(r),
                None => extra_of(s),
            }
        },
    }
}

fn read_owned_extra(s: &str) -> (r: Option<Option<(String, String)>>)
    ensures
        r.deep_view() == owned_extra(s@),
{
    if let Some(rest) = strip_prefix(s, "rootProject.") {
        if let Some(r) = read_extra(rest) {
            return Some(r);
        }
    }
    if let Some(rest) = strip_prefix(s, "project.") {
        if let Some(r) = read_extra(rest) {
            return Some(r);
        }
    }
    read_extra(s)
}

/// An assignment that changes what the variable has.
pub open spec fn changes(rest: Seq<char>) -> bool {
    starts(rest, "+="@) || starts(rest, "-="@) || starts(rest, "*="@) || starts(rest, "/="@)
        || starts(rest, "?="@)
}

/// `x = ...`; `x += ...` assigns an expression.
pub open spec fn bare_of(s: Seq<char>) -> Option<(Seq<char>, Seq<char>)> {
    match name_at_start(s) {
        Some((name, rest)) => match assigned_value(rest) {
            Some(v) => Some((name, v)),
            None => if changes(left(rest)) {
                Some((name, s))
            } else {
                None
            },
        },
        None => None,
    }
}

/// A bare `x = ...`: a property in `ext { }`, a script variable at the top.
fn read_bare(s: &str) -> (r: Option<(String, String)>)
    ensures
        r.deep_view() == bare_of(s@),
{
    let Some((name, rest)) = name(s) else {
        return None;
    };
    if let Some(v) = right_hand(rest) {
        return Some((name.to_owned(), v.to_owned()));
    }
    let t = trim_start(rest);
    if starts_with(t, "+=") || starts_with(t, "-=") || starts_with(t, "*=") || starts_with(
        t,
        "/=",
    ) || starts_with(t, "?=") {
        Some((name.to_owned(), s.to_owned()))
    } else {
        None
    }
}

/// A statement without the `;` at its end.
pub open spec fn unterminated(s: Seq<char>) -> Seq<char> {
    trimmed(sans_tail(trimmed(s), Class::One(';')))
}

/// A statement without the `;` at its end.
pub fn unterminate(s: &str) -> (r: &str)
    ensures
        r@ == unterminated(s@),
{
    trim(drop_run(trim(s), Class::One(';')))
}

/// The variable `statement` assigns, and the expression it assigns to it.
pub open spec fn assignment_of(statement: Seq<char>, in_ext: bool) -> Option<
    (Seq<char>, Seq<char>),
> {
    let s = unterminated(statement);
    match declared_rest(s) {
        Some(rest) => declaration_of(rest),
        None => match owned_extra(s) {
            Some(r) => r,
            None => match after_prefix(s, "set("@) {
                Some(args) if in_ext => set_call_of(args),
                _ => bare_of(s),
            },
        },
    }
}

/// The variable `statement` assigns, and the expression it assigns to it:
/// `def x = ...`, `val x: String = ...`, `val x by extra(...)`, `ext.x = ...`,
/// `extra["x"] = ...`, `set('x', ...)` in an `ext { }` block (`in_ext`), or
/// a bare `x = ...`. `x += ...` assigns an expression.
pub fn assignment(statement: &str, in_ext: bool) -> (r: Option<(String, String)>)
    ensures
        r.deep_view() == assignment_of(statement@, in_ext),
{
    let s = unterminate(statement);
    if let Some(rest) = skip_declaration(s) {
        return read_declaration(rest);
    }
    if let Some(r) = read_owned_extra(s) {
        return r;
    }
    if in_ext {
        if let Some(args) = strip_prefix(s, "set(") {
            return set_call(args);
        }
    }
    read_bare(s)
}

// ---- references ------------------------------------------------------------

/// What stands between `open` and `close`.
pub open spec fn enclosed(s: Seq<char>, open: Seq<char>, close: Seq<char>) -> Option<Seq<char>> {
    match after_prefix(s, open) {
        Some(r) => before_suffix(r, close),
        None => None,
    }
}

fn find_enclosed<'a>(s: &'a str, open: &str, close: &str) -> (r: Option<&'a str>)
    ensures
        r.deep_view() == enclosed(s@, open@, close@),
{
    match strip_prefix(s, open) {
        Some(r) => strip_suffix(r, close),
        None => None,
    }
}

/// The key of a property that is asked for: `property("x")`, `extra["x"]`.
pub open spec fn asked(rest: Seq<char>) -> Option<Seq<char>> {
    match enclosed(rest, "property("@, ")"@) {
        Some(i) => Some(i),
        None => match enclosed(rest, "ext["@, "]"@) {
            Some(i) => Some(i),
            None => match enclosed(rest, "extra["@, "]"@) {
                Some(i) => Some(i),
                None => match enclosed(rest, "ext.get("@, ")"@) {
                    Some(i) => Some(i),
                    None => enclosed(rest, "extra.get("@, ")"@),
                },
            },
        },
    }
}

fn find_asked(rest: &str) -> (r: Option<&str>)
    ensures
        r.deep_view() == asked(rest@),
{
    match find_enclosed(rest, "property(", ")") {
        Some(i) => Some(i),
        None => match find_enclosed(rest, "ext[", "]") {
            Some(i) => Some(i),
            None => match find_enclosed(rest, "extra[", "]") {
                Some(i) => Some(i),
                None => match find_enclosed(rest, "ext.get(", ")") {
                    Some(i) => Some(i),
                    None => find_enclosed(rest, "extra.get(", ")"),
                },
            },
        },
    }
}

/// A word that is no variable.
pub open spec fn no_variable(name: Seq<char>) -> bool {
    name == "true"@ || name == "false"@ || name == "null"@ || name == "it"@ || name == "this"@
}

/// The variable that `text` is the name of.
pub open spec fn variable_name(text: Seq<char>) -> Option<Seq<char>> {
    match name_at_start(text) {
        Some((name, tail)) => if tail.len() == 0 && !no_variable(name) {
            Some(name)
        } else {
            None
        },
        None => None,
    }
}

/// Whether what follows `project.` names a variable, and which.
pub open spec fn reference_in(rest: Seq<char>) -> Option<Option<Seq<char>>> {
    match asked(rest) {
        Some(inner) => Some(
            match key_at_start(trimmed(inner)) {
                Some((key, tail)) => if trimmed(tail).len() == 0 {
                    Some(key)
                } else {
                    None
                },
                None => None,
            },
        ),
        None => match variable_name(sans_prefix(rest, "ext."@)) {
            Some(name) => Some(Some(name)),
            None => None,
        },
    }
}

fn read_reference(rest: &str) -> (r: Option<Option<String>>)
    ensures
        r.deep_view() == reference_in(rest@),
{
    if let Some(inner) = find_asked(rest) {
        return Some(
            match key_literal(trim(inner)) {
                Some((key, tail)) => if trim(tail).is_empty() {
                    Some(key.to_owned())
                } else {
                    None
                },
                None => None,
            },
        );
    }
    if let Some((name, tail)) = name(without_prefix(rest, "ext.")) {
        if tail.is_empty() && !(same(name, "true") || same(name, "false") || same(name, "null")
            || same(name, "it") || same(name, "this")) {
            return Some(Some(name.to_owned()));
        }
    }
    None
}

/// The variable an expression names.
pub open spec fn referred(expression: Seq<char>) -> Option<Seq<char>> {
    let e = trimmed(sans_suffix(trimmed(expression), " as String"@));
    let by_root = match after_prefix(e, "rootProject."@) {
        Some(rest) => reference_in(rest),
        None => None,
    };
    match by_root {
        Some(r) => r,
        None => {
            let by_project = match after_prefix(e, "project."@) {
                Some(rest) => reference_in(rest),
                None => None,
            };
            match by_project {
                Some(r) => r,
                None => match reference_in(e) {
                    Some(r) => r,
                    None => None,
                },
            }
        },
    }
}

/// The variable an expression names: `x`, `project.x`, `ext.x`,
/// `rootProject.ext.x`, `property("x")`, `extra["x"]`, with `as String` or
/// without.
pub fn reference(expression: &str) -> (r: Option<String>)
    ensures
        r.deep_view() == referred(expression@),
{
    let e = trim(without_suffix(trim(expression), " as String"));
    if let Some(rest) = strip_prefix(e, "rootProject.") {
        if let Some(r) = read_reference(rest) {
            return r;
        }
    }
    if let Some(rest) = strip_prefix(e, "project.") {
        if let Some(r) = read_reference(rest) {
            return r;
        }
    }
    match read_reference(e) {
        Some(r) => r,
        None => None,
    }
}

} // verus!
