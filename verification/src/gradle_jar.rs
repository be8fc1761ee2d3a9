//! A Gradle build's `jar { manifest { attributes(...) } }`.

use crate::attributes::{
    alike, attribute_of, find_alike, jar_attribute, name_alike, same_ignoring_case,
};
use crate::chars::{is_unicode_alphanumeric, unicode_alphanumeric};
use crate::gradle_text::{
    blocks_where, first_literal, lines_inside, literal_and_rest, Block, BlockModel,
};
use crate::manifest::{Manifest, ManifestModel, PackageModel};
use crate::report::{Report, ReportModel};
use crate::template::{escaped, Template};
use crate::text::{
    after_prefix, at, before_suffix, cat2, cat3, cat5, chars, contains, drop_run, ends, ends_with,
    has_char, includes, joined, left, line_seq, lines, none_of, put, right, run_end, same,
    sans_tail, slice, stands, starts, starts_with, strip_prefix, strip_suffix, trim, trim_end,
    trim_start, trimmed, within, Class,
};
use vstd::prelude::*;

verus! {

// ---- scanning --------------------------------------------------------------

/// The place past a literal that `quote` opened before `i`.
pub open spec fn quoted_end(cs: Seq<char>, quote: char, i: int) -> int
    decreases cs.len() + 2 - i,
{
    if i < 0 || i >= cs.len() {
        cs.len() as int
    } else if cs[i] == '\\' {
        quoted_end(cs, quote, i + 2)
    } else if cs[i] == quote {
        i + 1
    } else {
        quoted_end(cs, quote, i + 1)
    }
}

/// The index just past the string literal that opens at `start`.
fn skip_quoted(cs: &Vec<char>, start: usize) -> (r: usize)
    requires
        start < cs@.len(),
    ensures
        r == quoted_end(cs@, cs@[start as int], start + 1),
        start < r <= cs@.len(),
{
    let quote: char = cs[start];
    let n: usize = cs.len();
    let mut i: usize = start + 1;
    while i < n
        invariant
            n == cs@.len(),
            start < i <= n,
            quote == cs@[start as int],
            quoted_end(cs@, quote, start + 1) == quoted_end(cs@, quote, i as int),
        decreases n - i,
    {
        if cs[i] == '\\' {
            if n - i < 2 {
                assert(quoted_end(cs@, quote, i + 2) == n);
                return n;
            }
            i = i + 2;
        } else if cs[i] == quote {
            return i + 1;
        } else {
            i = i + 1;
        }
    }
    n
}

/// Where the `)` stands that closes `depth` brackets before `i`, or the end.
pub open spec fn paren_end(cs: Seq<char>, i: int, depth: int) -> int
    decreases cs.len() - i,
{
    if i < 0 || i >= cs.len() {
        cs.len() as int
    } else if cs[i] == '\'' || cs[i] == '"' {
        let n = quoted_end(cs, cs[i], i + 1);
        if i < n <= cs.len() {
            paren_end(cs, n, depth)
        } else {
            cs.len() as int
        }
    } else if cs[i] == '(' {
        paren_end(cs, i + 1, depth + 1)
    } else if cs[i] == ')' {
        if depth == 1 {
            i
        } else {
            paren_end(cs, i + 1, depth - 1)
        }
    } else {
        paren_end(cs, i + 1, depth)
    }
}

/// The index of the `)` that closes the `(` at `open`, or the end of `cs`.
fn closing_paren(cs: &Vec<char>, open: usize) -> (r: usize)
    requires
        open < cs@.len(),
        cs@[open as int] == '(',
    ensures
        r == paren_end(cs@, open as int, 0),
        open < r <= cs@.len(),
{
    let mut depth: usize = 0;
    let mut i: usize = open;
    while i < cs.len()
        invariant
            open < cs@.len(),
            cs@[open as int] == '(',
            open <= i <= cs@.len(),
            depth <= i,
            i > open ==> depth > 0,
            i == open ==> depth == 0,
            paren_end(cs@, open as int, 0) == paren_end(cs@, i as int, depth as int),
        decreases cs@.len() - i,
    {
        let c: char = cs[i];
        if c == '\'' || c == '"' {
            i = skip_quoted(cs, i);
        } else {
            if c == '(' {
                depth = depth + 1;
            } else if c == ')' {
                if depth == 1 {
                    return i;
                }
                depth = depth - 1;
            }
            i = i + 1;
        }
    }
    cs.len()
}

// ---- items -----------------------------------------------------------------

/// The items of a list from `i` on, after those before, where one began at
/// `start`.
pub open spec fn items_from(
    cs: Seq<char>,
    i: int,
    start: int,
    depth: int,
    out: Seq<Seq<char>>,
) -> Seq<Seq<char>>
    decreases cs.len() - i,
{
    if i < 0 || i >= cs.len() {
        out.push(cs.skip(start))
    } else if cs[i] == '\'' || cs[i] == '"' {
        let n = quoted_end(cs, cs[i], i + 1);
        if i < n <= cs.len() {
            items_from(cs, n, start, depth, out)
        } else {
            out
        }
    } else if cs[i] == '(' || cs[i] == '[' {
        items_from(cs, i + 1, start, depth + 1, out)
    } else if cs[i] == ')' || cs[i] == ']' {
        items_from(
            cs,
            i + 1,
            start,
            if depth > 0 {
                depth - 1
            } else {
                0
            },
            out,
        )
    } else if cs[i] == ',' && depth == 0 {
        items_from(cs, i + 1, i + 1, depth, out.push(cs.subrange(start, i)))
    } else {
        items_from(cs, i + 1, start, depth, out)
    }
}

fn split_items(text: &str) -> (r: Vec<&str>)
    ensures
        r.deep_view() == items_from(text@, 0, 0, 0, seq![]),
{
    let cs = chars(text);
    let mut out: Vec<&str> = none_of();
    let mut depth: usize = 0;
    let mut start: usize = 0;
    let mut i: usize = 0;
    while i < cs.len()
        invariant
            cs@ == text@,
            start <= i <= cs@.len(),
            depth <= i,
            items_from(text@, 0, 0, 0, seq![]) == items_from(
                text@,
                i as int,
                start as int,
                depth as int,
                out.deep_view(),
            ),
        decreases cs@.len() - i,
    {
        let c: char = cs[i];
        if c == '\'' || c == '"' {
            i = skip_quoted(&cs, i);
        } else {
            if c == '(' || c == '[' {
                depth = depth + 1;
            } else if c == ')' || c == ']' {
                if depth > 0 {
                    depth = depth - 1;
                }
            } else if c == ',' && depth == 0 {
                put(&mut out, slice(text, start, i));
                start = i + 1;
            }
            i = i + 1;
        }
    }
    put(&mut out, crate::text::skip(text, start));
    out
}

/// The name and the value of `'K': v` or `"K" to v`.
pub open spec fn item_pair(raw: Seq<char>) -> Option<(Seq<char>, Seq<char>)> {
    let item = trimmed(raw);
    if !(starts(item, "'"@) || starts(item, "\""@)) {
        None
    } else {
        match literal_and_rest(item) {
            None => None,
            Some((name, rest)) => {
                let value = match after_prefix(left(rest), ":"@) {
                    Some(v) => Some(v),
                    None => after_prefix(left(rest), "to "@),
                };
                match value {
                    Some(v) => if trimmed(v).len() > 0 {
                        Some((name, trimmed(v)))
                    } else {
                        None
                    },
                    None => None,
                }
            },
        }
    }
}

fn read_item(raw: &str) -> (r: Option<(String, String)>)
    ensures
        r.deep_view() == item_pair(raw@),
{
    let item = trim(raw);
    if !(starts_with(item, "'") || starts_with(item, "\"")) {
        return None;
    }
    let Some((name, rest)) = first_literal(item) else {
        return None;
    };
    let value = match strip_prefix(trim_start(rest), ":") {
        Some(v) => Some(v),
        None => strip_prefix(trim_start(rest), "to "),
    };
    match value {
        Some(v) => if trim(v).is_empty() {
            None
        } else {
            Some((name.to_owned(), trim(v).to_owned()))
        },
        None => None,
    }
}

/// The pairs of the items from the `i`th on, after those before.
pub open spec fn item_pairs_from(
    items: Seq<Seq<char>>,
    i: int,
    out: Seq<(Seq<char>, Seq<char>)>,
) -> Seq<(Seq<char>, Seq<char>)>
    decreases items.len() - i,
{
    if i < 0 || i >= items.len() {
        out
    } else {
        match item_pair(items[i]) {
            Some(p) => item_pairs_from(items, i + 1, out.push(p)),
            None => item_pairs_from(items, i + 1, out),
        }
    }
}

/// An argument list without the `mapOf( )` around it.
pub open spec fn sans_map(list: Seq<char>) -> Seq<char> {
    let t = trimmed(list);
    match after_prefix(t, "mapOf("@) {
        Some(l) => match before_suffix(l, ")"@) {
            Some(inner) => inner,
            None => t,
        },
        None => t,
    }
}

/// The pairs, with those of one `attributes` argument list.
pub open spec fn with_items(out: Seq<(Seq<char>, Seq<char>)>, list: Seq<char>) -> Seq<
    (Seq<char>, Seq<char>),
> {
    item_pairs_from(items_from(sans_map(list), 0, 0, 0, seq![]), 0, out)
}

/// The `'K': v` / `"K" to v` items of one `attributes` argument list.
fn attribute_items(list: &str, out: &mut Vec<(String, String)>)
    ensures
        final(out).deep_view() == with_items(old(out).deep_view(), list@),
{
    let t = trim(list);
    let inner = match strip_prefix(t, "mapOf(") {
        Some(l) => match strip_suffix(l, ")") {
            Some(inner) => inner,
            None => t,
        },
        None => t,
    };
    let items = split_items(inner);
    let ghost all = items.deep_view();
    let ghost start = out.deep_view();
    let mut i: usize = 0;
    while i < items.len()
        invariant
            all == items.deep_view(),
            i <= items@.len(),
            item_pairs_from(all, 0, start) == item_pairs_from(all, i as int, out.deep_view()),
        decreases items@.len() - i,
    {
        assert(all[i as int] == items@[i as int]@);
        if let Some(p) = read_item(items[i]) {
            put(out, p);
        }
        i = i + 1;
    }
}

// ---- calls -----------------------------------------------------------------

/// A character of an identifier.
pub open spec fn identifier_char(c: char) -> bool {
    unicode_alphanumeric(c) || c == '_'
}

/// The word `attributes` stands at `i`.
pub open spec fn call_at(cs: Seq<char>, i: int) -> bool {
    at(cs, "attributes"@, i) && !(i > 0 && identifier_char(cs[i - 1])) && !(i + 10 < cs.len()
        && identifier_char(cs[i + 10]))
}

/// The end of the line that `i` stands on.
pub open spec fn line_end(cs: Seq<char>, i: int) -> int {
    run_end(cs, Class::Not('\n'), i)
}

fn find_line_end(cs: &Vec<char>, from: usize) -> (r: usize)
    requires
        from <= cs@.len(),
    ensures
        r == line_end(cs@, from as int),
        from <= r <= cs@.len(),
        from < cs@.len() && cs@[from as int] != '\n' ==> from < r,
{
    let mut i: usize = from;
    while i < cs.len() && cs[i] != '\n'
        invariant
            from <= i <= cs@.len(),
            line_end(cs@, from as int) == run_end(cs@, Class::Not('\n'), i as int),
        decreases cs@.len() - i,
    {
        i = i + 1;
    }
    i
}

/// The end of a command that starts at `j` and reaches `end`: Groovy's runs to
/// the end of the line, and on over any line that ends in a comma.
pub open spec fn command_end(cs: Seq<char>, j: int, end: int) -> int
    decreases cs.len() - end,
{
    if 0 <= j <= end < cs.len() && ends(right(cs.subrange(j, end)), ","@) {
        let next = line_end(cs, end + 1);
        if end < next <= cs.len() {
            command_end(cs, j, next)
        } else {
            end
        }
    } else {
        end
    }
}

fn find_command_end(text: &str, cs: &Vec<char>, j: usize) -> (r: usize)
    requires
        cs@ == text@,
        j <= cs@.len(),
    ensures
        r == command_end(cs@, j as int, line_end(cs@, j as int)),
        j <= r <= cs@.len(),
{
    let mut end: usize = find_line_end(cs, j);
    let ghost first = end as int;
    while end < cs.len() && ends_with(trim_end(slice(text, j, end)), ",")
        invariant
            cs@ == text@,
            j <= end <= cs@.len(),
            command_end(cs@, j as int, first) == command_end(cs@, j as int, end as int),
        decreases cs@.len() - end,
    {
        end = find_line_end(cs, end + 1);
    }
    end
}

/// The first place from `i` on that holds neither a space nor a tab.
pub open spec fn past_blanks(cs: Seq<char>, i: int) -> int {
    run_end(cs, Class::Either(' ', '\t'), i)
}

/// `"K"] = v`, what follows `attributes[`.
pub open spec fn indexed_pair(segment: Seq<char>) -> Option<(Seq<char>, Seq<char>)> {
    match literal_and_rest(segment) {
        None => None,
        Some((name, rest)) => match after_prefix(left(rest), "]"@) {
            None => None,
            Some(r) => match after_prefix(left(r), "="@) {
                Some(v) => Some((name, trimmed(v))),
                None => None,
            },
        },
    }
}

fn read_indexed(segment: &str) -> (r: Option<(String, String)>)
    ensures
        r.deep_view() == indexed_pair(segment@),
{
    let Some((name, rest)) = first_literal(segment) else {
        return None;
    };
    let Some(r) = strip_prefix(trim_start(rest), "]") else {
        return None;
    };
    match strip_prefix(trim_start(r), "=") {
        Some(v) => Some((name.to_owned(), trim(v).to_owned())),
        None => None,
    }
}

/// The pairs with that of an index.
pub open spec fn with_indexed(out: Seq<(Seq<char>, Seq<char>)>, segment: Seq<char>) -> Seq<
    (Seq<char>, Seq<char>),
> {
    match indexed_pair(segment) {
        Some(p) => out.push(p),
        None => out,
    }
}

/// The pairs that the calls from `i` on set, after those before.
pub open spec fn pairs_from(cs: Seq<char>, i: int, out: Seq<(Seq<char>, Seq<char>)>) -> Seq<
    (Seq<char>, Seq<char>),
>
    decreases cs.len() + 1 - i,
{
    if i < 0 || i >= cs.len() {
        out
    } else if cs[i] == '\'' || cs[i] == '"' {
        let n = quoted_end(cs, cs[i], i + 1);
        if i < n <= cs.len() {
            pairs_from(cs, n, out)
        } else {
            out
        }
    } else if !call_at(cs, i) {
        pairs_from(cs, i + 1, out)
    } else {
        let j = past_blanks(cs, i + 10);
        if j < cs.len() && cs[j] == '[' {
            let end = line_end(cs, j);
            let more = with_indexed(out, cs.subrange(j + 1, end));
            if i < end <= cs.len() {
                pairs_from(cs, end, more)
            } else {
                more
            }
        } else if j < cs.len() && cs[j] == '(' {
            let end = paren_end(cs, j, 0);
            let more = with_items(out, cs.subrange(j + 1, end));
            if i < end <= cs.len() {
                pairs_from(cs, end + 1, more)
            } else {
                more
            }
        } else {
            let end = command_end(cs, j, line_end(cs, j));
            let more = with_items(out, cs.subrange(j, end));
            if i < end <= cs.len() {
                pairs_from(cs, end, more)
            } else {
                more
            }
        }
    }
}

/// Every `name`/value-expression pair the `attributes` calls in `text` set:
/// `attributes('K': v, ...)` and `attributes 'K': v` in Groovy,
/// `attributes("K" to v, ...)`, `attributes(mapOf(...))` and
/// `attributes["K"] = v` in Kotlin. Quoted text is never mistaken for the call.
pub fn jar_attribute_pairs(text: &str) -> (r: Vec<(String, String)>)
    ensures
        r.deep_view() == pairs_from(text@, 0, seq![]),
{
    let cs = chars(text);
    let call = chars("attributes");
    proof {
        reveal_strlit("attributes");
    }
    let n: usize = cs.len();
    let mut out: Vec<(String, String)> = none_of();
    let mut i: usize = 0;
    while i < n
        invariant
            cs@ == text@,
            n == cs@.len(),
            call@ == "attributes"@,
            call@.len() == 10,
            i <= n,
            pairs_from(text@, 0, seq![]) == pairs_from(text@, i as int, out.deep_view()),
        decreases n - i,
    {
        let c: char = cs[i];
        if c == '\'' || c == '"' {
            i = skip_quoted(&cs, i);
        } else {
            let named = stands(&cs, &call, i);
            if !named || (i > 0 && (is_unicode_alphanumeric(cs[i - 1]) || cs[i - 1] == '_')) || (n
                - i > 10 && (is_unicode_alphanumeric(cs[i + 10]) || cs[i + 10] == '_')) {
                i = i + 1;
            } else {
                let mut j: usize = i + 10;
                while j < n && (cs[j] == ' ' || cs[j] == '\t')
                    invariant
                        n == cs@.len(),
                        i + 10 <= j <= n,
                        past_blanks(cs@, i + 10) == past_blanks(cs@, j as int),
                    decreases n - j,
                {
                    j = j + 1;
                }
                if j < n && cs[j] == '[' {
                    // `attributes["K"] = v`
                    let end: usize = find_line_end(&cs, j);
                    if let Some(p) = read_indexed(slice(text, j + 1, end)) {
                        put(&mut out, p);
                    }
                    i = end;
                } else if j < n && cs[j] == '(' {
                    let end: usize = closing_paren(&cs, j);
                    attribute_items(slice(text, j + 1, end), &mut out);
                    if end >= n {
                        assert(pairs_from(text@, end + 1, out.deep_view()) == out.deep_view());
                        return out;
                    }
                    i = end + 1;
                } else {
                    let end: usize = find_command_end(text, &cs, j);
                    attribute_items(slice(text, j, end), &mut out);
                    i = end;
                }
            }
        }
    }
    out
}

// ---- values ----------------------------------------------------------------

/// An expression that names the project's version.
pub open spec fn names_version(e: Seq<char>) -> bool {
    e == "version"@ || e == "project.version"@ || e == "project.version.toString()"@ || e
        == "\"$version\""@ || e == "\"${version}\""@ || e == "\"${project.version}\""@
}

/// An expression that names the project.
pub open spec fn names_project(e: Seq<char>) -> bool {
    e == "project.name"@ || e == "rootProject.name"@ || e == "\"${project.name}\""@ || e
        == "\"${rootProject.name}\""@
}

/// An attribute's value expression as a `[package.manifest]` value.
pub open spec fn value_of(expression: Seq<char>) -> Option<Seq<char>> {
    let e = trimmed(sans_tail(trimmed(expression), Class::One(';')));
    if names_version(e) {
        Some("{project.version}"@)
    } else if names_project(e) {
        Some("{project.name}"@)
    } else {
        match literal_and_rest(e) {
            None => None,
            Some((text, rest)) => {
                let whole = (starts(e, "'"@) || starts(e, "\""@)) && trimmed(rest).len() == 0;
                let interpolated = starts(e, "\""@) && includes(text, '$');
                if whole && !interpolated {
                    Some(escaped(text))
                } else {
                    None
                }
            },
        }
    }
}

/// An attribute's value expression as a `[package.manifest]` value, when it is
/// a literal or names the project's version or name.
pub fn attribute_value(expression: &str) -> (r: Option<String>)
    ensures
        r.deep_view() == value_of(expression@),
{
    let e = trim(drop_run(trim(expression), Class::One(';')));
    if same(e, "version") || same(e, "project.version") || same(e, "project.version.toString()")
        || same(e, "\"$version\"") || same(e, "\"${version}\"") || same(
        e,
        "\"${project.version}\"",
    ) {
        return Some("{project.version}".to_owned());
    }
    if same(e, "project.name") || same(e, "rootProject.name") || same(e, "\"${project.name}\"")
        || same(e, "\"${rootProject.name}\"") {
        return Some("{project.name}".to_owned());
    }
    let Some((text, rest)) = first_literal(e) else {
        return None;
    };
    let whole = (starts_with(e, "'") || starts_with(e, "\"")) && trim(rest).is_empty();
    // A `$` in a double-quoted string is interpolation, which jrs cannot run.
    let interpolated = starts_with(e, "\"") && has_char(text, '$');
    if whole && !interpolated {
        Some(Template::literal(text).raw)
    } else {
        None
    }
}

// ---- the manifest ----------------------------------------------------------

/// The manifest and the report once an attribute is read.
pub open spec fn with_attribute(
    m: ManifestModel,
    told: ReportModel,
    name: Seq<char>,
    expression: Seq<char>,
) -> (ManifestModel, ReportModel) {
    match value_of(expression) {
        None => (
            m,
            told.with_skipped(
                "jar manifest attribute `"@ + name + "` — its value is computed (`"@ + expression
                    + "`)"@,
            ),
        ),
        Some(raw) => if alike(name, "Main-Class"@) {
            match m.main_class {
                None => if !includes(raw, '{') {
                    (
                        ManifestModel { main_class: Some(raw), ..m },
                        told.with_migrated(
                            "project.main-class = "@ + raw + " (from the jar manifest)"@,
                        ),
                    )
                } else {
                    (m, told.with_skipped(other_main_class(raw)))
                },
                Some(main) => if main == raw {
                    (m, told)
                } else {
                    (m, told.with_skipped(other_main_class(raw)))
                },
            }
        } else if name_alike(m.package.manifest, name, 0) is Some {
            (
                m,
                told.with_skipped(
                    "jar manifest attribute `"@ + name
                        + "` — set more than once; the first is kept"@,
                ),
            )
        } else {
            match attribute_of(name, raw) {
                Ok(template) => (
                    ManifestModel {
                        package: PackageModel {
                            manifest: m.package.manifest.push((name, template)),
                            ..m.package
                        },
                        ..m
                    },
                    told.with_migrated("package.manifest."@ + name + " = "@ + raw),
                ),
                Err(e) => (m, told.with_skipped("jar manifest attribute — "@ + e.text())),
            }
        },
    }
}

pub open spec fn other_main_class(raw: Seq<char>) -> Seq<char> {
    "jar manifest attribute `Main-Class: "@ + raw + "` — the main class is `project.main-class`"@
}

fn read_attribute(name: String, expression: &str, out: &mut Manifest, report: &mut Report)
    ensures
        (final(out).deep_view(), final(report).deep_view()) == with_attribute(
            old(out).deep_view(),
            old(report).deep_view(),
            name@,
            expression@,
        ),
{
    let Some(raw) = attribute_value(expression) else {
        report.skipped(
            cat5(
                "jar manifest attribute `",
                name.as_str(),
                "` — its value is computed (`",
                expression,
                "`)",
            ),
        );
        return ;
    };
    if same_ignoring_case(name.as_str(), "Main-Class") {
        let same_class = match &out.main_class {
            Some(main) => same(main.as_str(), raw.as_str()),
            None => false,
        };
        if same_class {
            return ;
        }
        if out.main_class.is_none() && !has_char(raw.as_str(), '{') {
            report.migrated(
                cat3("project.main-class = ", raw.as_str(), " (from the jar manifest)"),
            );
            out.main_class = Some(raw);
            return ;
        }
        report.skipped(
            cat3(
                "jar manifest attribute `Main-Class: ",
                raw.as_str(),
                "` — the main class is `project.main-class`",
            ),
        );
        return ;
    }
    if find_alike(&out.package.manifest, name.as_str()).is_some() {
        report.skipped(
            cat3(
                "jar manifest attribute `",
                name.as_str(),
                "` — set more than once; the first is kept",
            ),
        );
        return ;
    }
    match jar_attribute(name.as_str(), raw.as_str()) {
        Ok(template) => {
            report.migrated(
                crate::text::cat4("package.manifest.", name.as_str(), " = ", raw.as_str()),
            );
            put(&mut out.package.manifest, (name, template));
        },
        Err(e) => {
            report.skipped(cat2("jar manifest attribute — ", e.to_text().as_str()));
        },
    }
}

/// The manifest and the report once the attributes from the `i`th on are
/// read.
pub open spec fn with_attributes(
    pairs: Seq<(Seq<char>, Seq<char>)>,
    i: int,
    m: ManifestModel,
    told: ReportModel,
) -> (ManifestModel, ReportModel)
    decreases pairs.len() - i,
{
    if i < 0 || i >= pairs.len() {
        (m, told)
    } else {
        let (m, told) = with_attribute(m, told, pairs[i].0, pairs[i].1);
        with_attributes(pairs, i + 1, m, told)
    }
}

/// The text, with each of the lines from the `i`th on that sets the jar's
/// manifest.
pub open spec fn with_manifest_lines(lines: Seq<Seq<char>>, i: int, text: Seq<char>) -> Seq<char>
    decreases lines.len() - i,
{
    if i < 0 || i >= lines.len() {
        text
    } else if starts(trimmed(lines[i]), "jar.manifest"@) {
        with_manifest_lines(lines, i + 1, text + "\n"@ + lines[i])
    } else {
        with_manifest_lines(lines, i + 1, text)
    }
}

/// The text of a script that may set the jar's manifest.
pub open spec fn manifest_text(script: Seq<char>) -> Seq<char> {
    with_manifest_lines(
        line_seq(script),
        0,
        joined(lines_inside(BlockModel::Jar, script), "\n"@),
    )
}

fn read_manifest_text(script: &str) -> (r: String)
    ensures
        r@ == manifest_text(script@),
{
    let inside = blocks_where(script, &Block::Jar);
    let mut text = join_lines(&inside);
    let list = lines(script);
    let ghost all = list.deep_view();
    let ghost start = text@;
    let mut i: usize = 0;
    while i < list.len()
        invariant
            all == list.deep_view(),
            i <= list@.len(),
            with_manifest_lines(all, 0, start) == with_manifest_lines(all, i as int, text@),
        decreases list@.len() - i,
    {
        assert(all[i as int] == list@[i as int]@);
        if starts_with(trim(list[i]), "jar.manifest") {
            text.append("\n");
            text.append(list[i]);
        }
        i = i + 1;
    }
    text
}

fn join_lines(list: &Vec<&str>) -> (r: String)
    ensures
        r@ == joined(list.deep_view(), "\n"@),
{
    let mut owned: Vec<String> = none_of();
    let ghost all = list.deep_view();
    let mut i: usize = 0;
    while i < list.len()
        invariant
            all == list.deep_view(),
            i <= list@.len(),
            owned.deep_view() =~= all.take(i as int),
        decreases list@.len() - i,
    {
        put(&mut owned, list[i].to_owned());
        i = i + 1;
    }
    assert(all.take(i as int) =~= all);
    crate::text::join(&owned, "\n")
}

/// The report with what is a flag in jrs.
pub open spec fn flags_told(script: Seq<char>, told: ReportModel) -> ReportModel {
    let told = if within(script, "withSourcesJar"@) {
        told.with_skipped(
            "`withSourcesJar()` — a flag in jrs, not a manifest key: `jrs package --sources`"@,
        )
    } else {
        told
    };
    if within(script, "withJavadocJar"@) {
        told.with_skipped(
            "`withJavadocJar()` — a flag in jrs, not a manifest key: `jrs package --javadoc`"@,
        )
    } else {
        told
    }
}

/// The manifest and the report once the jar's manifest is read.
pub open spec fn jar_manifest_read(script: Seq<char>, m: ManifestModel, told: ReportModel) -> (
    ManifestModel,
    ReportModel,
) {
    let (m, told) = with_attributes(pairs_from(manifest_text(script), 0, seq![]), 0, m, told);
    (m, flags_told(script, told))
}

/// `jar { manifest { attributes(...) } }`, in either DSL, → `[package.manifest]`.
///
/// Literal values are carried over; `version` and `project.version` become
/// `{project.version}`, and `project.name` and `rootProject.name` become
/// `{project.name}`. Any other expression is reported, not guessed at. A
/// `Main-Class` attribute sets `project.main-class` when nothing else did;
/// the other attributes jrs writes itself are reported. `withSourcesJar()`
/// and `withJavadocJar()` have no manifest key — they are `jrs package`
/// flags — so they are reported with the flag to use.
pub fn read_jar_manifest(script: &str, out: &mut Manifest, report: &mut Report)
    ensures
        (final(out).deep_view(), final(report).deep_view()) == jar_manifest_read(
            script@,
            old(out).deep_view(),
            old(report).deep_view(),
        ),
{
    let text = read_manifest_text(script);
    let pairs = jar_attribute_pairs(text.as_str());
    let ghost all = pairs.deep_view();
    let ghost start = (out.deep_view(), report.deep_view());
    let mut i: usize = 0;
    while i < pairs.len()
        invariant
            all == pairs.deep_view(),
            i <= pairs@.len(),
            with_attributes(all, 0, start.0, start.1) == with_attributes(
                all,
                i as int,
                out.deep_view(),
                report.deep_view(),
            ),
        decreases pairs@.len() - i,
    {
        assert(all[i as int] == (pairs@[i as int].0@, pairs@[i as int].1@));
        read_attribute(pairs[i].0.clone(), pairs[i].1.as_str(), out, report);
        i = i + 1;
    }
    if contains(script, "withSourcesJar") {
        report.skipped(
            "`withSourcesJar()` — a flag in jrs, not a manifest key: `jrs package --sources`".to_owned(),
        );
    }
    if contains(script, "withJavadocJar") {
        report.skipped(
            "`withJavadocJar()` — a flag in jrs, not a manifest key: `jrs package --javadoc`".to_owned(),
        );
    }
}

} // verus!
