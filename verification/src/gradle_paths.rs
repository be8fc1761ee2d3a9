//! The paths that a Gradle script names.

use crate::chars::{is_space, space};
use crate::debug::{debug, debug_form};
use crate::gradle_lex::{literal, literal_of, outside, places, step, unquoted, lemma_outside};
use crate::template::{escaped, literal_template, template_of, Template, TemplateModel};
use crate::text::{
    after_prefix, before_suffix, cat2, chars, cut, cut_last, ends, ends_with, has_char, head,
    includes, join, joined, line_seq, lines, none_of, pieces, put, rsplit_once, same, sans_head,
    sans_prefix, skip_run, slice, split, split_once, starts, starts_with, strip_prefix,
    strip_suffix, take, take_run, trim, trimmed, without_prefix, Class, Duplicate,
};
use vstd::prelude::*;

verus! {

// ---- statements that run on over lines -------------------------------------

/// How many more brackets the first `n` characters open than they close.
pub open spec fn nesting(marks: Seq<(int, char)>, n: int) -> int
    decreases n,
{
    if n <= 0 {
        0
    } else {
        nesting(marks, n - 1) + step(marks[n - 1].1)
    }
}

/// How many more brackets `line` opens than it closes.
pub open spec fn nest(line: Seq<char>) -> int {
    nesting(outside(line), outside(line).len() as int)
}

/// How many more brackets `line` opens than it closes.
pub fn nest_delta(line: &str) -> (r: i128)
    ensures
        r == nest(line@),
        -(line@.len() as int) <= r <= line@.len(),
{
    let marks = unquoted(line);
    let n: usize = line.unicode_len();
    proof {
        lemma_outside(line@);
    }
    let mut d: i128 = 0;
    let mut i: usize = 0;
    while i < marks.len()
        invariant
            places(marks@) == outside(line@),
            marks@.len() <= n,
            n == line@.len(),
            i <= marks@.len(),
            -(i as int) <= d <= i,
            d == nesting(outside(line@), i as int),
        decreases marks@.len() - i,
    {
        assert(outside(line@)[i as int] == (marks@[i as int].0 as int, marks@[i as int].1));
        let c: char = marks[i].1;
        if c == '(' || c == '[' || c == '{' {
            d = d + 1;
        } else if c == ')' || c == ']' || c == '}' {
            d = d - 1;
        }
        i = i + 1;
    }
    d
}

/// Where a `// comment` begins, among the marks from the `k`th on.
pub open spec fn comment_from(marks: Seq<(int, char)>, k: int) -> Option<int>
    decreases marks.len() - k,
{
    if k < 0 || k + 1 >= marks.len() {
        None
    } else if marks[k].1 == '/' && marks[k + 1].1 == '/' && marks[k + 1].0 == marks[k].0 + 1 {
        Some(marks[k].0)
    } else {
        comment_from(marks, k + 1)
    }
}

/// `line` without a trailing `// comment`, which would swallow what the next
/// line adds.
pub open spec fn uncommented(line: Seq<char>) -> Seq<char> {
    trimmed(
        match comment_from(outside(line), 0) {
            Some(i) => line.take(i),
            None => line,
        },
    )
}

fn strip_comment(line: &str) -> (r: &str)
    ensures
        r@ == uncommented(line@),
{
    let marks = unquoted(line);
    proof {
        lemma_outside(line@);
    }
    let ghost all = outside(line@);
    let mut k: usize = 0;
    while k < marks.len() && k + 1 < marks.len()
        invariant
            places(marks@) == all,
            all == outside(line@),
            forall|k: int| 0 <= k < all.len() ==> 0 <= (#[trigger] all[k]).0 < line@.len(),
            k <= marks@.len(),
            comment_from(all, 0) == comment_from(all, k as int),
        decreases marks@.len() - k,
    {
        assert(all[k as int] == (marks@[k as int].0 as int, marks@[k as int].1));
        assert(all[k + 1] == (marks@[k + 1].0 as int, marks@[k + 1].1));
        if marks[k].1 == '/' && marks[k + 1].1 == '/' && marks[k].0 < marks[k + 1].0
            && marks[k + 1].0 - marks[k].0 == 1 {
            return trim(take(line, marks[k].0));
        }
        k = k + 1;
    }
    trim(line)
}

/// The statements of the lines from `i` on, after those before, where
/// `current` is one that `depth` brackets keep open.
pub open spec fn joined_from(
    lines: Seq<Seq<char>>,
    i: int,
    out: Seq<Seq<char>>,
    current: Seq<char>,
    depth: int,
) -> Seq<Seq<char>>
    decreases lines.len() - i,
{
    if i < 0 || i >= lines.len() {
        if current.len() > 0 {
            out.push(current)
        } else {
            out
        }
    } else {
        let line = uncommented(lines[i]);
        if line.len() == 0 {
            joined_from(lines, i + 1, out, current, depth)
        } else {
            let next = if current.len() > 0 {
                current + " "@ + line
            } else {
                line
            };
            let d = depth + nest(line);
            if d <= 0 {
                joined_from(lines, i + 1, out.push(next), seq![], 0)
            } else {
                joined_from(lines, i + 1, out, next, d)
            }
        }
    }
}

/// The statements of a block, one per line but for what brackets keep open.
pub open spec fn joined_lines(block: Seq<char>) -> Seq<Seq<char>> {
    joined_from(line_seq(block), 0, seq![], seq![], 0)
}

/// The statements of a block, one per line but for what brackets keep open:
/// a call's arguments over several lines, a lambda (`.map { it.dir("x") }`)
/// or a nested block stays in the statement it belongs to.
pub fn joined_statements(block: &str) -> (r: Vec<String>)
    ensures
        r.deep_view() == joined_lines(block@),
{
    let all = lines(block);
    let ghost want = all.deep_view();
    let mut out: Vec<String> = none_of();
    let mut current = String::new();
    let mut depth: i128 = 0;
    let mut i: usize = 0;
    assert(current@ =~= seq![]);
    while i < all.len()
        invariant
            want == all.deep_view(),
            want == line_seq(block@),
            i <= all@.len(),
            0 <= depth <= current@.len(),
            joined_lines(block@) == joined_from(
                want,
                i as int,
                out.deep_view(),
                current@,
                depth as int,
            ),
        decreases all@.len() - i,
    {
        assert(want[i as int] == all@[i as int]@);
        let line = strip_comment(all[i]);
        if !line.is_empty() {
            let _held: usize = current.unicode_len();
            let _size: usize = line.unicode_len();
            if !current.as_str().is_empty() {
                current.append(" ");
                current.append(line);
            } else {
                current = line.to_owned();
            }
            depth = depth + nest_delta(line);
            if depth <= 0 {
                put(&mut out, current);
                current = String::new();
                assert(current@ =~= seq![]);
                depth = 0;
            }
        }
        i = i + 1;
    }
    if !current.as_str().is_empty() {
        put(&mut out, current);
    }
    out
}

// ---- variables -------------------------------------------------------------

/// The `val`s a script assigns, as written, for working out the paths built
/// from them: the innermost scope first.
#[derive(Debug)]
pub struct Paths {
    pub vals: Vec<(String, String)>,
}

impl DeepView for Paths {
    type V = Seq<(Seq<char>, Seq<char>)>;

    open spec fn deep_view(&self) -> Seq<(Seq<char>, Seq<char>)> {
        self.vals.deep_view()
    }
}

impl Duplicate for Paths {
    fn duplicate(&self) -> Paths {
        Paths { vals: self.vals.duplicate() }
    }
}

/// `val name = expression`: the name and the expression. `val x: Type = ...`
/// names `x`.
pub open spec fn val_of(statement: Seq<char>) -> Option<(Seq<char>, Seq<char>)> {
    match after_prefix(statement, "val "@) {
        None => None,
        Some(rest) => match cut(rest, "="@) {
            None => None,
            Some((left_side, value)) => {
                let name = trimmed(head(trimmed(left_side), Class::Not(':')));
                if name.len() > 0 && trimmed(value).len() > 0 {
                    Some((name, trimmed(value)))
                } else {
                    None
                }
            },
        },
    }
}

fn read_val(statement: &str) -> (r: Option<(String, String)>)
    ensures
        r.deep_view() == val_of(statement@),
{
    let Some(rest) = strip_prefix(statement, "val ") else {
        return None;
    };
    let Some((left_side, value)) = split_once(rest, "=") else {
        return None;
    };
    let name = trim(take_run(trim(left_side), Class::Not(':')));
    let value = trim(value);
    if !name.is_empty() && !value.is_empty() {
        Some((name.to_owned(), value.to_owned()))
    } else {
        None
    }
}

pub open spec fn vals_from(
    statements: Seq<Seq<char>>,
    i: int,
    out: Seq<(Seq<char>, Seq<char>)>,
) -> Seq<(Seq<char>, Seq<char>)>
    decreases statements.len() - i,
{
    if i < 0 || i >= statements.len() {
        out
    } else {
        match val_of(statements[i]) {
            Some(v) => vals_from(statements, i + 1, out.push(v)),
            None => vals_from(statements, i + 1, out),
        }
    }
}

/// The `val name = expression` statements at the top level of `text`.
pub open spec fn vals_of(text: Seq<char>) -> Seq<(Seq<char>, Seq<char>)> {
    vals_from(joined_lines(text), 0, seq![])
}

/// The expression of the first `val` called `name`, from the `i`th on.
pub open spec fn val_named(vals: Seq<(Seq<char>, Seq<char>)>, name: Seq<char>, i: int) -> Option<
    Seq<char>,
>
    decreases vals.len() - i,
{
    if i < 0 || i >= vals.len() {
        None
    } else if vals[i].0 == name {
        Some(vals[i].1)
    } else {
        val_named(vals, name, i + 1)
    }
}

// ---- expressions -----------------------------------------------------------

/// `s` from `i` on without the white space outside its string literals.
pub open spec fn compact_from(s: Seq<char>, i: int, quote: Option<char>, escaped: bool) -> Seq<char>
    decreases s.len() - i,
{
    if i < 0 || i >= s.len() {
        seq![]
    } else {
        let c = s[i];
        match quote {
            Some(q) => seq![c] + (if escaped {
                compact_from(s, i + 1, quote, false)
            } else if c == '\\' {
                compact_from(s, i + 1, quote, true)
            } else if c == q {
                compact_from(s, i + 1, None, false)
            } else {
                compact_from(s, i + 1, quote, false)
            }),
            None => if c == '\'' || c == '"' {
                seq![c] + compact_from(s, i + 1, Some(c), escaped)
            } else if space(c) {
                compact_from(s, i + 1, None, escaped)
            } else {
                seq![c] + compact_from(s, i + 1, None, escaped)
            },
        }
    }
}

/// `expression` without the white space outside its string literals.
pub open spec fn compacted(expression: Seq<char>) -> Seq<char> {
    compact_from(expression, 0, None, false)
}

/// `expression` without the white space outside its string literals.
pub fn compact(expression: &str) -> (r: String)
    ensures
        r@ == compacted(expression@),
{
    let cs = chars(expression);
    let mut out = String::new();
    let mut quote: Option<char> = None;
    let mut escaped = false;
    let mut i: usize = 0;
    while i < cs.len()
        invariant
            cs@ == expression@,
            i <= cs@.len(),
            compacted(expression@) =~= out@ + compact_from(
                expression@,
                i as int,
                quote,
                escaped,
            ),
        decreases cs@.len() - i,
    {
        let c: char = cs[i];
        match quote {
            Some(q) => {
                out.push(c);
                if escaped {
                    escaped = false;
                } else if c == '\\' {
                    escaped = true;
                } else if c == q {
                    quote = None;
                }
            },
            None => {
                if c == '\'' || c == '"' {
                    quote = Some(c);
                    out.push(c);
                } else if !is_space(c) {
                    out.push(c);
                }
            },
        }
        i = i + 1;
    }
    assert(compacted(expression@) =~= out@);
    out
}

/// Where the argument list of a call that ends `e` opens, with the first `n`
/// marks left and `depth` brackets closed.
pub open spec fn call_from(marks: Seq<(int, char)>, n: int, depth: int) -> Option<int>
    decreases n,
{
    if n <= 0 {
        None
    } else {
        let (p, c) = marks[n - 1];
        if c == ')' {
            call_from(marks, n - 1, depth + 1)
        } else if c == '(' {
            if depth == 1 {
                Some(p)
            } else {
                call_from(marks, n - 1, depth - 1)
            }
        } else {
            call_from(marks, n - 1, depth)
        }
    }
}

/// Where the argument list of a call that ends `e` opens, when `e` ends with
/// one.
pub open spec fn call_start(e: Seq<char>) -> Option<int> {
    if ends(e, ")"@) {
        call_from(outside(e), outside(e).len() as int, 0)
    } else {
        None
    }
}

/// Where the argument list of a call that ends `e` opens, when `e` ends with
/// one.
fn call_open(e: &str) -> (r: Option<usize>)
    ensures
        r is Some <==> call_start(e@) is Some,
        r matches Some(i) ==> call_start(e@) == Some(i as int) && i + 1 < e@.len(),
{
    if !ends_with(e, ")") {
        return None;
    }
    let marks = unquoted(e);
    let size: usize = e.unicode_len();
    proof {
        lemma_outside(e@);
        reveal_strlit(")");
        assert(e@.subrange(e@.len() - 1, e@.len() as int)[0] == ")"@[0]);
    }
    let ghost all = outside(e@);
    let mut depth: i128 = 0;
    let mut n: usize = marks.len();
    while n > 0
        invariant
            places(marks@) == all,
            all == outside(e@),
            size == e@.len(),
            marks@.len() <= size,
            e@.len() > 0,
            e@.last() == ')',
            call_start(e@) == call_from(all, all.len() as int, 0),
            forall|k: int|
                0 <= k < all.len() ==> {
                    let (p, c) = #[trigger] all[k];
                    0 <= p < e@.len() && e@[p] == c
                },
            n <= marks@.len(),
            -(marks@.len() - n) <= depth <= marks@.len() - n,
            call_from(all, all.len() as int, 0) == call_from(all, n as int, depth as int),
        decreases n,
    {
        let (p, c) = marks[n - 1];
        assert(all[n - 1] == (p as int, c));
        if c == ')' {
            depth = depth + 1;
        } else if c == '(' {
            if depth == 1 {
                return Some(p);
            }
            depth = depth - 1;
        }
        n = n - 1;
    }
    None
}

/// The parts that name something, from the `i`th on, after those before.
pub open spec fn named_parts(parts: Seq<Seq<char>>, i: int, out: Seq<Seq<char>>) -> Seq<Seq<char>>
    decreases parts.len() - i,
{
    if i < 0 || i >= parts.len() {
        out
    } else if parts[i].len() == 0 || parts[i] == "."@ {
        named_parts(parts, i + 1, out)
    } else {
        named_parts(parts, i + 1, out.push(parts[i]))
    }
}

/// `base/relative`, tidied: no `./`, no trailing `/`.
pub open spec fn tidy(base: Seq<char>, relative: Seq<char>) -> Seq<char> {
    let parts = named_parts(pieces(relative, '/'), 0, named_parts(pieces(base, '/'), 0, seq![]));
    if parts.len() == 0 {
        "."@
    } else {
        joined(parts, "/"@)
    }
}

fn add_parts(out: &mut Vec<String>, path: &str)
    ensures
        final(out).deep_view() == named_parts(pieces(path@, '/'), 0, old(out).deep_view()),
{
    let parts = split(path, '/');
    let ghost all = parts.deep_view();
    let ghost start = out.deep_view();
    let mut i: usize = 0;
    while i < parts.len()
        invariant
            all == parts.deep_view(),
            i <= parts@.len(),
            named_parts(all, 0, start) == named_parts(all, i as int, out.deep_view()),
        decreases parts@.len() - i,
    {
        assert(all[i as int] == parts@[i as int]@);
        if !parts[i].is_empty() && !same(parts[i], ".") {
            put(out, parts[i].to_owned());
        }
        i = i + 1;
    }
}

/// `base/relative`, tidied: no `./`, no trailing `/`.
pub fn join_tidy(base: &str, relative: &str) -> (r: String)
    ensures
        r@ == tidy(base@, relative@),
{
    let mut parts: Vec<String> = none_of();
    add_parts(&mut parts, base);
    add_parts(&mut parts, relative);
    if parts.len() == 0 {
        ".".to_owned()
    } else {
        join(&parts, "/")
    }
}

/// The ways in which a string starts from the project's directory.
pub open spec fn root_prefixes() -> Seq<Seq<char>> {
    seq![
        "${rootDir}"@,
        "${projectDir}"@,
        "${project.rootDir}"@,
        "${project.projectDir}"@,
        "${rootProject.rootDir}"@,
        "${rootProject.projectDir}"@,
        "$rootDir"@,
        "$projectDir"@,
    ]
}

/// What follows the first of the prefixes, from the `i`th on, that `text`
/// starts with.
pub open spec fn after_root(text: Seq<char>, i: int) -> Option<Seq<char>>
    decreases root_prefixes().len() - i,
{
    if i < 0 || i >= root_prefixes().len() {
        None
    } else {
        match after_prefix(text, root_prefixes()[i]) {
            Some(rest) => Some(rest),
            None => after_root(text, i + 1),
        }
    }
}

fn strip_root(text: &str) -> (r: Option<&str>)
    ensures
        r.deep_view() == after_root(text@, 0),
{
    let list: Vec<&'static str> = vec![
        "${rootDir}",
        "${projectDir}",
        "${project.rootDir}",
        "${project.projectDir}",
        "${rootProject.rootDir}",
        "${rootProject.projectDir}",
        "$rootDir",
        "$projectDir",
    ];
    assert(list.deep_view() =~= root_prefixes());
    let mut i: usize = 0;
    while i < list.len()
        invariant
            list.deep_view() == root_prefixes(),
            i <= list@.len(),
            after_root(text@, 0) == after_root(text@, i as int),
        decreases list@.len() - i,
    {
        assert(root_prefixes()[i as int] == list@[i as int]@);
        if let Some(rest) = strip_prefix(text, list[i]) {
            return Some(rest);
        }
        i = i + 1;
    }
    None
}

/// A string literal as a path under the project.
pub open spec fn literal_path(argument: Seq<char>) -> Option<Seq<char>> {
    match literal_of(argument) {
        None => None,
        Some(l) => {
            let text = if !l.interpolated {
                Some(l.text)
            } else {
                match after_root(l.text, 0) {
                    None => None,
                    Some(root) => if includes(root, '$') {
                        None
                    } else {
                        let t = sans_head(root, Class::One('/'));
                        Some(
                            if t.len() == 0 {
                                "."@
                            } else {
                                t
                            },
                        )
                    },
                }
            };
            match text {
                None => None,
                Some(t) => if starts(t, "/"@) || includes(t, '\\') {
                    None
                } else {
                    Some(tidy("."@, t))
                },
            }
        },
    }
}

/// A string literal as a path under the project: plain, or starting from
/// `$rootDir`, `${projectDir}` and the like. An absolute path, or one built
/// from anything else, is not one.
pub fn text_path(argument: &str) -> (r: Option<String>)
    ensures
        r.deep_view() == literal_path(argument@),
{
    let Some(l) = literal(argument) else {
        return None;
    };
    let text = if !l.interpolated {
        l.text
    } else {
        let Some(root) = strip_root(l.text.as_str()) else {
            return None;
        };
        if has_char(root, '$') {
            return None;
        }
        let t = skip_run(root, Class::One('/'));
        if t.is_empty() {
            ".".to_owned()
        } else {
            t.to_owned()
        }
    };
    if starts_with(text.as_str(), "/") || has_char(text.as_str(), '\\') {
        return None;
    }
    Some(join_tidy(".", text.as_str()))
}

/// A call or a property at the end of an expression that changes no path.
pub open spec fn sans_access(e: Seq<char>) -> Option<Seq<char>> {
    if ends(e, ".get()"@) {
        before_suffix(e, ".get()"@)
    } else if ends(e, ".asFile"@) {
        before_suffix(e, ".asFile"@)
    } else if ends(e, ".absolutePath"@) {
        before_suffix(e, ".absolutePath"@)
    } else if ends(e, ".path"@) {
        before_suffix(e, ".path"@)
    } else if ends(e, ".canonicalPath"@) {
        before_suffix(e, ".canonicalPath"@)
    } else {
        None
    }
}

fn strip_access(e: &str) -> (r: Option<&str>)
    ensures
        r.deep_view() == sans_access(e@),
{
    if ends_with(e, ".get()") {
        strip_suffix(e, ".get()")
    } else if ends_with(e, ".asFile") {
        strip_suffix(e, ".asFile")
    } else if ends_with(e, ".absolutePath") {
        strip_suffix(e, ".absolutePath")
    } else if ends_with(e, ".path") {
        strip_suffix(e, ".path")
    } else if ends_with(e, ".canonicalPath") {
        strip_suffix(e, ".canonicalPath")
    } else {
        None
    }
}

/// `provider.map { body }`: the provider and the body.
pub open spec fn mapped(e: Seq<char>) -> Option<(Seq<char>, Seq<char>)> {
    match cut_last(e, ".map{"@) {
        None => None,
        Some((inner, lambda)) => match before_suffix(lambda, "}"@) {
            Some(body) => Some((inner, sans_prefix(body, "it"@))),
            None => None,
        },
    }
}

fn split_map(e: &str) -> (r: Option<(&str, &str)>)
    ensures
        r.deep_view() == mapped(e@),
{
    match rsplit_once(e, ".map{") {
        None => None,
        Some((inner, lambda)) => match strip_suffix(lambda, "}") {
            Some(body) => Some((inner, without_prefix(body, "it"))),
            None => None,
        },
    }
}

/// `receiver.dir` or `receiver.file`: the receiver.
pub open spec fn receiver_of(callee: Seq<char>) -> Option<Seq<char>> {
    match before_suffix(callee, ".dir"@) {
        Some(r) => Some(r),
        None => before_suffix(callee, ".file"@),
    }
}

/// The names of Gradle's two directories.
pub open spec fn known_directory(e: Seq<char>) -> Option<Seq<char>> {
    if e == "layout.buildDirectory"@ || e == "project.layout.buildDirectory"@ || e == "buildDir"@
        || e == "project.buildDir"@ {
        Some("build"@)
    } else if e == "layout.projectDirectory"@ || e == "project.layout.projectDirectory"@ || e
        == "projectDir"@ || e == "rootDir"@ || e == "project.projectDir"@ || e
        == "project.rootDir"@ || e == "rootProject.projectDir"@ || e == "rootProject.rootDir"@ {
        Some("."@)
    } else {
        None
    }
}

fn find_directory(e: &str) -> (r: Option<&'static str>)
    ensures
        r.deep_view() == known_directory(e@),
{
    if same(e, "layout.buildDirectory") || same(e, "project.layout.buildDirectory") || same(
        e,
        "buildDir",
    ) || same(e, "project.buildDir") {
        Some("build")
    } else if same(e, "layout.projectDirectory") || same(e, "project.layout.projectDirectory")
        || same(e, "projectDir") || same(e, "rootDir") || same(e, "project.projectDir") || same(
        e,
        "project.rootDir",
    ) || same(e, "rootProject.projectDir") || same(e, "rootProject.rootDir") {
        Some(".")
    } else {
        None
    }
}

/// How deep a path may refer to another variable before jrs gives up.
pub const MAX_DEPTH: usize = 16;

/// The path that `expression` names, relative to the project root, where
/// `depth` references were followed to it.
pub open spec fn path_at(
    vals: Seq<(Seq<char>, Seq<char>)>,
    expression: Seq<char>,
    depth: int,
) -> Option<Seq<char>>
    decreases MAX_DEPTH + 1 - depth,
{
    if depth > MAX_DEPTH {
        None
    } else {
        let e = compacted(expression);
        match sans_access(e) {
            Some(inner) => path_at(vals, inner, depth + 1),
            None => match mapped(e) {
                Some((inner, body)) => match path_at(vals, inner, depth + 1) {
                    None => None,
                    Some(base) => if body.len() == 0 {
                        Some(base)
                    } else {
                        path_at(vals, debug_form(base) + body, depth + 1)
                    },
                },
                None => match call_start(e) {
                    Some(open) => {
                        let callee = e.take(open);
                        let relative = literal_path(e.subrange(open + 1, e.len() - 1));
                        match receiver_of(callee) {
                            Some(receiver) => if receiver == "project"@ || receiver
                                == "rootProject"@ {
                                relative
                            } else {
                                match (path_at(vals, receiver, depth + 1), relative) {
                                    (Some(base), Some(rel)) => Some(tidy(base, rel)),
                                    _ => None,
                                }
                            },
                            None => if callee == "file"@ || callee == "project.file"@ || callee
                                == "rootProject.file"@ {
                                relative
                            } else {
                                None
                            },
                        }
                    },
                    None => match known_directory(e) {
                        Some(d) => Some(d),
                        None => if e.len() > 0 && (e[0] == '"' || e[0] == '\'') {
                            literal_path(e)
                        } else {
                            match val_named(vals, e, 0) {
                                Some(value) => path_at(vals, value, depth + 1),
                                None => None,
                            }
                        },
                    },
                },
            },
        }
    }
}

impl Paths {
    /// No `val`s.
    pub fn empty() -> (r: Paths)
        ensures
            r.deep_view() == Seq::<(Seq<char>, Seq<char>)>::empty(),
    {
        Paths { vals: none_of() }
    }

    /// The `val name = expression` statements at the top level of `text`.
    pub fn read(text: &str) -> (r: Paths)
        ensures
            r.deep_view() == vals_of(text@),
    {
        let statements = joined_statements(text);
        let ghost all = statements.deep_view();
        let mut vals: Vec<(String, String)> = none_of();
        let mut i: usize = 0;
        while i < statements.len()
            invariant
                all == statements.deep_view(),
                i <= statements@.len(),
                vals_from(all, 0, seq![]) == vals_from(all, i as int, vals.deep_view()),
            decreases statements@.len() - i,
        {
            assert(all[i as int] == statements@[i as int]@);
            if let Some(v) = read_val(statements[i].as_str()) {
                put(&mut vals, v);
            }
            i = i + 1;
        }
        Paths { vals }
    }

    /// These, with the `val`s of `block` in front: a task's own `outputDir` is
    /// not another task's.
    pub fn within(&self, block: &str) -> (r: Paths)
        ensures
            r.deep_view() == vals_of(block@) + self.deep_view(),
    {
        let mut inner = Paths::read(block);
        crate::text::put_all(&mut inner.vals, self.vals.duplicate());
        inner
    }

    fn find(&self, name: &str) -> (r: Option<&str>)
        ensures
            r.deep_view() == val_named(self.deep_view(), name@, 0),
    {
        let ghost all = self.vals.deep_view();
        let mut i: usize = 0;
        while i < self.vals.len()
            invariant
                all == self.vals.deep_view(),
                i <= self.vals@.len(),
                val_named(all, name@, 0) == val_named(all, name@, i as int),
            decreases self.vals@.len() - i,
        {
            assert(all[i as int] == (self.vals@[i as int].0@, self.vals@[i as int].1@));
            if same(self.vals[i].0.as_str(), name) {
                return Some(self.vals[i].1.as_str());
            }
            i = i + 1;
        }
        None
    }

    /// The path `expression` names, relative to the project root, `/`
    /// separated: `build/generated/x` for `layout.buildDirectory.dir(
    /// "generated/x")`, `.` for the project directory. `None` for what jrs
    /// cannot work out without running Gradle.
    pub fn path(&self, expression: &str) -> (r: Option<String>)
        ensures
            r.deep_view() == path_at(self.deep_view(), expression@, 0),
    {
        self.path_within(expression, 0)
    }

    fn path_within(&self, expression: &str, depth: usize) -> (r: Option<String>)
        requires
            depth <= MAX_DEPTH + 1,
        ensures
            r.deep_view() == path_at(self.deep_view(), expression@, depth as int),
        decreases MAX_DEPTH + 1 - depth,
    {
        if depth > MAX_DEPTH {
            return None;
        }
        let text = compact(expression);
        let e = text.as_str();
        if let Some(inner) = strip_access(e) {
            return self.path_within(inner, depth + 1);
        }
        // `provider.map { it.dir("x") }`, `.map { it.asFile.absolutePath }`
        if let Some((inner, body)) = split_map(e) {
            let Some(base) = self.path_within(inner, depth + 1) else {
                return None;
            };
            if body.is_empty() {
                return Some(base);
            }
            let next = cat2(debug(base.as_str()).as_str(), body);
            return self.path_within(next.as_str(), depth + 1);
        }
        if let Some(open) = call_open(e) {
            let size: usize = e.unicode_len();
            let callee = take(e, open);
            let relative = text_path(slice(e, open + 1, size - 1));
            let receiver = match strip_suffix(callee, ".dir") {
                Some(r) => Some(r),
                None => strip_suffix(callee, ".file"),
            };
            if let Some(receiver) = receiver {
                if same(receiver, "project") || same(receiver, "rootProject") {
                    return relative;
                }
                return match (self.path_within(receiver, depth + 1), relative) {
                    (Some(base), Some(rel)) => Some(join_tidy(base.as_str(), rel.as_str())),
                    _ => None,
                };
            }
            if same(callee, "file") || same(callee, "project.file") || same(
                callee,
                "rootProject.file",
            ) {
                return relative;
            }
            return None;
        }
        if let Some(d) = find_directory(e) {
            return Some(d.to_owned());
        }
        if !e.is_empty() && (e.get_char(0) == '"' || e.get_char(0) == '\'') {
            return text_path(e);
        }
        match self.find(e) {
            Some(value) => self.path_within(value, depth + 1),
            None => None,
        }
    }
}

// ---- paths as templates ----------------------------------------------------

/// A path under Gradle's output directory.
pub open spec fn below_build(path: Seq<char>) -> bool {
    path == "build"@ || starts(path, "build/"@)
}

/// Whether a path is under Gradle's output directory.
pub fn under_build(path: &str) -> (r: bool)
    ensures
        r == below_build(path@),
{
    same(path, "build") || starts_with(path, "build/")
}

/// The template that `raw` is, or else `path` as it is.
pub open spec fn template_or(raw: Seq<char>, path: Seq<char>) -> TemplateModel {
    match template_of(raw) {
        Ok(t) => t,
        Err(_) => literal_template(path),
    }
}

fn parse_or(raw: &str, path: &str) -> (r: Template)
    ensures
        r.deep_view() == template_or(raw@, path@),
{
    match Template::parse(raw) {
        Ok(t) => t,
        Err(_) => Template::literal(path),
    }
}

/// A root-relative path as a manifest value: under Gradle's `build/`, it is
/// `{target}`'s.
pub open spec fn path_template(path: Seq<char>) -> TemplateModel {
    match after_prefix(path, "build/"@) {
        Some(rest) => if rest.len() == 0 {
            template_or("{target}"@, path)
        } else {
            template_or("{target}/"@ + escaped(rest), path)
        },
        None => if path == "build"@ {
            template_or("{target}"@, path)
        } else {
            literal_template(path)
        },
    }
}

/// A root-relative path as a manifest value: under Gradle's `build/`, it is
/// `{target}`'s — jrs's output directory, which a migrated build that leaves
/// tasks to Gradle points at `build/` too.
pub fn template(path: &str) -> (r: Template)
    ensures
        r.deep_view() == path_template(path@),
{
    match strip_prefix(path, "build/") {
        Some(rest) => if rest.is_empty() {
            parse_or("{target}", path)
        } else {
            let raw = cat2("{target}/", Template::literal(rest).raw.as_str());
            parse_or(raw.as_str(), path)
        },
        None => if same(path, "build") {
            parse_or("{target}", path)
        } else {
            Template::literal(path)
        },
    }
}

/// A path as a command's argument: under `{target}` when Gradle would write it
/// into the build directory, under `{root}` otherwise.
pub open spec fn argument_template(path: Seq<char>) -> TemplateModel {
    if below_build(path) {
        path_template(path)
    } else {
        template_or("{root}/"@ + escaped(path), path)
    }
}

/// A path as the generator's CLI argument: under `{target}` when Gradle
/// would write it into the build directory, under `{root}` otherwise.
pub fn path_argument(path: &str) -> (r: Template)
    ensures
        r.deep_view() == argument_template(path@),
{
    if under_build(path) {
        template(path)
    } else {
        let raw = cat2("{root}/", Template::literal(path).raw.as_str());
        parse_or(raw.as_str(), path)
    }
}

} // verus!
