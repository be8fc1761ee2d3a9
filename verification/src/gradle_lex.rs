//! Groovy and Kotlin build scripts, as far as quotes and brackets go.

use crate::chars::{is_letter, letter};
use crate::text::{
    after_prefix, cat2, chars, cut, cut_last, head, lemma_run_bounds, lines, line_seq, none_of, put,
    sans_prefix, sans_suffix, skip, slice, split_once, rsplit_once, starts, starts_with,
    strip_prefix, take, take_run, trim, trim_start, trimmed, without_prefix, without_suffix, Class,
    left as spec_left,
};
use vstd::prelude::*;

verus! {

// ---- literals --------------------------------------------------------------

/// A Groovy or Kotlin string literal.
#[derive(Debug, PartialEq, Eq)]
pub struct Literal {
    pub text: String,
    /// `"$x"` or `"${x}"`: a template jrs cannot evaluate.
    pub interpolated: bool,
}

/// What a literal holds.
pub struct LiteralModel {
    pub text: Seq<char>,
    pub interpolated: bool,
}

impl DeepView for Literal {
    type V = LiteralModel;

    open spec fn deep_view(&self) -> LiteralModel {
        LiteralModel { text: self.text@, interpolated: self.interpolated }
    }
}

/// The character that an escape stands for.
pub open spec fn escape(c: char) -> char {
    if c == 'n' {
        '\n'
    } else if c == 't' {
        '\t'
    } else {
        c
    }
}

/// What the rest from `i` on of a literal's inside holds, after what is before
/// it. None where the literal ends early: `'a' + 'b'` is an expression.
pub open spec fn decoded(
    s: Seq<char>,
    quote: char,
    i: int,
    text: Seq<char>,
    interpolated: bool,
) -> Option<LiteralModel>
    decreases s.len() - i,
{
    if i < 0 || i >= s.len() {
        Some(LiteralModel { text, interpolated })
    } else if s[i] == '\\' {
        if i + 1 < s.len() {
            decoded(s, quote, i + 2, text.push(escape(s[i + 1])), interpolated)
        } else {
            None
        }
    } else if s[i] == quote {
        None
    } else {
        decoded(
            s,
            quote,
            i + 1,
            text.push(s[i]),
            interpolated || (s[i] == '$' && quote == '"'),
        )
    }
}

/// The one string literal that `elem` is, escapes decoded.
pub open spec fn literal_of(elem: Seq<char>) -> Option<LiteralModel> {
    let e = trimmed(elem);
    if e.len() < 2 || !(e[0] == '\'' || e[0] == '"') || e.last() != e[0] || starts(e, "\"\"\""@)
        || starts(e, "'''"@) {
        None
    } else {
        decoded(e.subrange(1, e.len() - 1), e[0], 0, seq![], false)
    }
}

/// `elem` when it is exactly one string literal, escapes decoded.
pub fn literal(elem: &str) -> (r: Option<Literal>)
    ensures
        r.deep_view() == literal_of(elem@),
{
    let e: &str = trim(elem);
    let all = chars(e);
    if all.len() < 2 {
        return None;
    }
    let quote: char = all[0];
    if !(quote == '\'' || quote == '"') || all[all.len() - 1] != quote || starts_with(e, "\"\"\"")
        || starts_with(e, "'''") {
        return None;
    }
    let cs = chars(slice(e, 1, all.len() - 1));
    let n: usize = cs.len();
    let mut text = String::new();
    let mut interpolated = false;
    let mut i: usize = 0;
    assert(text@ =~= seq![]);
    while i < n
        invariant
            n == cs@.len(),
            i <= n,
            literal_of(elem@) == decoded(cs@, quote, i as int, text@, interpolated),
        decreases n - i,
    {
        let c: char = cs[i];
        if c == '\\' {
            if n - i < 2 {
                return None;
            }
            let e: char = cs[i + 1];
            let ch: char = if e == 'n' {
                '\n'
            } else if e == 't' {
                '\t'
            } else {
                e
            };
            text.push(ch);
            i = i + 2;
        } else if c == quote {
            return None;
        } else {
            if c == '$' && quote == '"' {
                interpolated = true;
            }
            text.push(c);
            i = i + 1;
        }
    }
    Some(Literal { text, interpolated })
}

// ---- what is outside string literals ---------------------------------------

/// The characters of `s` from `i` on outside string literals, with their
/// places, where the scan is within `quote` or in none.
pub open spec fn outside_from(s: Seq<char>, i: int, quote: Option<char>, escaped: bool) -> Seq<
    (int, char),
>
    decreases s.len() - i,
{
    if i < 0 || i >= s.len() {
        seq![]
    } else {
        let c = s[i];
        match quote {
            Some(q) => if escaped {
                outside_from(s, i + 1, quote, false)
            } else if c == '\\' {
                outside_from(s, i + 1, quote, true)
            } else if c == q {
                outside_from(s, i + 1, None, false)
            } else {
                outside_from(s, i + 1, quote, false)
            },
            None => if c == '\'' || c == '"' {
                outside_from(s, i + 1, Some(c), escaped)
            } else {
                seq![(i, c)] + outside_from(s, i + 1, None, escaped)
            },
        }
    }
}

/// The characters of `s` outside string literals, with their places. Braces,
/// brackets, commas and semicolons only count there.
pub open spec fn outside(s: Seq<char>) -> Seq<(int, char)> {
    outside_from(s, 0, None, false)
}

/// Places counted by machine words, as numbers.
pub open spec fn places(v: Seq<(usize, char)>) -> Seq<(int, char)> {
    Seq::new(v.len(), |k: int| (v[k].0 as int, v[k].1))
}

/// The characters of `line` outside string literals, with their places.
pub fn unquoted(line: &str) -> (r: Vec<(usize, char)>)
    ensures
        places(r@) == outside(line@),
{
    let cs = chars(line);
    let mut out: Vec<(usize, char)> = Vec::new();
    let mut quote: Option<char> = None;
    let mut escaped = false;
    let mut i: usize = 0;
    while i < cs.len()
        invariant
            cs@ == line@,
            i <= cs@.len(),
            quote is None ==> !escaped,
            outside(line@) =~= places(out@) + outside_from(line@, i as int, quote, escaped),
        decreases cs@.len() - i,
    {
        let c: char = cs[i];
        let ghost before = places(out@);
        match quote {
            Some(q) => {
                if escaped {
                    escaped = false;
                } else if c == '\\' {
                    escaped = true;
                } else if c == q {
                    quote = None;
                }
            },
            None => {
                if c == '\'' || c == '"' {
                    quote = Some(c);
                } else {
                    out.push((i, c));
                    assert(places(out@) =~= before.push((i as int, c)));
                }
            },
        }
        i = i + 1;
    }
    assert(outside(line@) =~= places(out@));
    out
}

proof fn lemma_outside_from(s: Seq<char>, i: int, quote: Option<char>, escaped: bool)
    requires
        0 <= i,
    ensures
        forall|k: int|
            0 <= k < outside_from(s, i, quote, escaped).len() ==> {
                let (p, c) = #[trigger] outside_from(s, i, quote, escaped)[k];
                i <= p < s.len() && s[p] == c
            },
        forall|k: int, l: int|
            0 <= k < l < outside_from(s, i, quote, escaped).len() ==> (
            #[trigger] outside_from(s, i, quote, escaped)[k]).0 < (#[trigger] outside_from(
                s,
                i,
                quote,
                escaped,
            )[l]).0,
    decreases s.len() - i,
{
    if i < s.len() {
        let c = s[i];
        let all = outside_from(s, i, quote, escaped);
        if quote is Some {
            let q = quote->0;
            let (next, esc) = if escaped {
                (quote, false)
            } else if c == '\\' {
                (quote, true)
            } else if c == q {
                (None, false)
            } else {
                (quote, false)
            };
            lemma_outside_from(s, i + 1, next, esc);
            assert(all == outside_from(s, i + 1, next, esc));
        } else if c == '\'' || c == '"' {
            lemma_outside_from(s, i + 1, Some(c), escaped);
            assert(all == outside_from(s, i + 1, Some(c), escaped));
        } else {
            lemma_outside_from(s, i + 1, None, escaped);
            let tail = outside_from(s, i + 1, None, escaped);
            assert(all == seq![(i, c)] + tail);
            assert forall|k: int| 0 <= k < all.len() implies {
                let (p, c) = #[trigger] all[k];
                i <= p < s.len() && s[p] == c
            } by {
                if k > 0 {
                    assert(all[k] == tail[k - 1]);
                }
            }
            assert forall|k: int, l: int| 0 <= k < l < all.len() implies (#[trigger] all[k]).0 < (
            #[trigger] all[l]).0 by {
                assert(all[l] == tail[l - 1]);
                if k > 0 {
                    assert(all[k] == tail[k - 1]);
                }
            }
        }
    }
}

/// What stands outside the literals stands where it is said to, from left to
/// right.
pub proof fn lemma_outside(s: Seq<char>)
    ensures
        forall|k: int|
            0 <= k < outside(s).len() ==> {
                let (p, c) = #[trigger] outside(s)[k];
                0 <= p < s.len() && s[p] == c
            },
        forall|k: int, l: int|
            0 <= k < l < outside(s).len() ==> (#[trigger] outside(s)[k]).0 < (#[trigger] outside(
                s,
            )[l]).0,
        outside(s).len() <= s.len(),
{
    lemma_outside_from(s, 0, None, false);
    lemma_outside_count(s, 0, None, false);
}

proof fn lemma_outside_count(s: Seq<char>, i: int, quote: Option<char>, escaped: bool)
    requires
        0 <= i <= s.len(),
    ensures
        outside_from(s, i, quote, escaped).len() <= s.len() - i,
    decreases s.len() - i,
{
    if i < s.len() {
        match quote {
            Some(q) => {
                lemma_outside_count(s, i + 1, quote, false);
                lemma_outside_count(s, i + 1, quote, true);
                lemma_outside_count(s, i + 1, None, false);
            },
            None => {
                lemma_outside_count(s, i + 1, Some(s[i]), escaped);
                lemma_outside_count(s, i + 1, None, escaped);
            },
        }
    }
}

// ---- braces ----------------------------------------------------------------

/// How much a bracket changes the depth: 1, -1, or nothing.
pub open spec fn step(c: char) -> int {
    if c == '(' || c == '[' || c == '{' {
        1
    } else if c == ')' || c == ']' || c == '}' {
        -1
    } else {
        0
    }
}

/// How much a brace changes the depth: 1, -1, or nothing.
pub open spec fn brace_step(c: char) -> int {
    if c == '{' {
        1
    } else if c == '}' {
        -1
    } else {
        0
    }
}

/// How many more blocks the first `n` characters open than they close.
pub open spec fn braces(marks: Seq<(int, char)>, n: int) -> int
    decreases n,
{
    if n <= 0 {
        0
    } else {
        braces(marks, n - 1) + brace_step(marks[n - 1].1)
    }
}

/// How many more blocks `line` opens than it closes.
pub open spec fn delta(line: Seq<char>) -> int {
    braces(outside(line), outside(line).len() as int)
}

/// How many more blocks `line` opens than it closes.
pub fn brace_delta(line: &str) -> (r: i128)
    ensures
        r == delta(line@),
        -(line@.len() as int) <= r <= line@.len(),
{
    let marks = unquoted(line);
    let n: usize = line.unicode_len();
    proof {
        lemma_outside(line@);
    }
    let mut d: i128 = 0;
    let mut i: usize = 0;
    while i < marks.len()
        invariant
            places(marks@) == outside(line@),
            marks@.len() <= n,
            n == line@.len(),
            i <= marks@.len(),
            -(i as int) <= d <= i,
            d == braces(outside(line@), i as int),
        decreases marks@.len() - i,
    {
        assert(outside(line@)[i as int] == (marks@[i as int].0 as int, marks@[i as int].1));
        if marks[i].1 == '{' {
            d = d + 1;
        } else if marks[i].1 == '}' {
            d = d - 1;
        }
        i = i + 1;
    }
    d
}

/// The place of the last of the first `n` characters that is `c`.
pub open spec fn last_place(marks: Seq<(int, char)>, c: char, n: int) -> Option<int>
    decreases n,
{
    if n <= 0 {
        None
    } else if marks[n - 1].1 == c {
        Some(marks[n - 1].0)
    } else {
        last_place(marks, c, n - 1)
    }
}

/// The place of the first character from the `i`th on that is `c`.
pub open spec fn first_place(marks: Seq<(int, char)>, c: char, i: int) -> Option<int>
    decreases marks.len() - i,
{
    if i < 0 || i >= marks.len() {
        None
    } else if marks[i].1 == c {
        Some(marks[i].0)
    } else {
        first_place(marks, c, i + 1)
    }
}

/// The place of the last `}` outside quotes.
pub open spec fn closing(line: Seq<char>) -> Option<int> {
    last_place(outside(line), '}', outside(line).len() as int)
}

/// The place of the first `c` outside quotes.
pub open spec fn opening(line: Seq<char>, c: char) -> Option<int> {
    first_place(outside(line), c, 0)
}

/// The place of the last `}` outside quotes.
pub fn last_close(line: &str) -> (r: Option<usize>)
    ensures
        r is Some <==> closing(line@) is Some,
        r matches Some(i) ==> closing(line@) == Some(i as int) && i < line@.len(),
{
    let marks = unquoted(line);
    proof {
        lemma_outside(line@);
    }
    let mut i: usize = marks.len();
    while i > 0
        invariant
            places(marks@) == outside(line@),
            forall|k: int|
                0 <= k < outside(line@).len() ==> 0 <= (#[trigger] outside(line@)[k]).0
                    < line@.len(),
            i <= marks@.len(),
            closing(line@) == last_place(outside(line@), '}', i as int),
        decreases i,
    {
        assert(outside(line@)[i - 1] == (marks@[i - 1].0 as int, marks@[i - 1].1));
        if marks[i - 1].1 == '}' {
            return Some(marks[i - 1].0);
        }
        i = i - 1;
    }
    None
}

/// The place of the first `c` outside quotes.
pub fn first_open(line: &str, c: char) -> (r: Option<usize>)
    ensures
        r is Some <==> opening(line@, c) is Some,
        r matches Some(i) ==> opening(line@, c) == Some(i as int) && i < line@.len(),
{
    let marks = unquoted(line);
    proof {
        lemma_outside(line@);
    }
    let mut i: usize = 0;
    while i < marks.len()
        invariant
            places(marks@) == outside(line@),
            forall|k: int|
                0 <= k < outside(line@).len() ==> 0 <= (#[trigger] outside(line@)[k]).0
                    < line@.len(),
            i <= marks@.len(),
            opening(line@, c) == first_place(outside(line@), c, i as int),
        decreases marks@.len() - i,
    {
        assert(outside(line@)[i as int] == (marks@[i as int].0 as int, marks@[i as int].1));
        if marks[i].1 == c {
            return Some(marks[i].0);
        }
        i = i + 1;
    }
    None
}

// ---- splitting -------------------------------------------------------------

/// The parts of `text` from `start` on, where the marks from `k` on are left
/// and `depth` brackets are open.
pub open spec fn split_from(
    text: Seq<char>,
    sep: char,
    k: int,
    depth: int,
    start: int,
) -> Seq<Seq<char>>
    decreases outside(text).len() - k,
{
    if k < 0 || k >= outside(text).len() {
        seq![text.skip(start)]
    } else {
        let (p, c) = outside(text)[k];
        if step(c) != 0 {
            split_from(text, sep, k + 1, depth + step(c), start)
        } else if c == sep && depth == 0 {
            seq![text.subrange(start, p)] + split_from(text, sep, k + 1, depth, p + 1)
        } else {
            split_from(text, sep, k + 1, depth, start)
        }
    }
}

/// `text` cut at every `sep` that stands outside quotes and brackets.
pub open spec fn top_parts(text: Seq<char>, sep: char) -> Seq<Seq<char>> {
    split_from(text, sep, 0, 0, 0)
}

/// Split `text` on `sep` where it stands outside quotes and brackets.
pub fn split_top(text: &str, sep: char) -> (r: Vec<&str>)
    ensures
        r.deep_view() == top_parts(text@, sep),
        r@.len() > 0,
{
    let marks = unquoted(text);
    let n: usize = text.unicode_len();
    proof {
        lemma_outside(text@);
    }
    let ghost want = top_parts(text@, sep);
    let mut parts: Vec<&str> = none_of();
    let mut depth: i128 = 0;
    let mut start: usize = 0;
    let mut i: usize = 0;
    while i < marks.len()
        invariant
            places(marks@) == outside(text@),
            n == text@.len(),
            marks@.len() <= n,
            forall|k: int|
                0 <= k < outside(text@).len() ==> 0 <= (#[trigger] outside(text@)[k]).0
                    < text@.len(),
            forall|k: int, l: int|
                0 <= k < l < outside(text@).len() ==> (#[trigger] outside(text@)[k]).0 < (
                #[trigger] outside(text@)[l]).0,
            i <= marks@.len(),
            -(i as int) <= depth <= i,
            start <= n,
            i < marks@.len() ==> start <= outside(text@)[i as int].0,
            want == top_parts(text@, sep),
            want =~= parts.deep_view() + split_from(
                text@,
                sep,
                i as int,
                depth as int,
                start as int,
            ),
        decreases marks@.len() - i,
    {
        let (p, c) = marks[i];
        assert(outside(text@)[i as int] == (p as int, c));
        if i + 1 < marks.len() {
            assert(outside(text@)[i as int].0 < outside(text@)[i + 1].0);
        }
        if c == '(' || c == '[' || c == '{' {
            depth = depth + 1;
        } else if c == ')' || c == ']' || c == '}' {
            depth = depth - 1;
        } else if c == sep && depth == 0 {
            put(&mut parts, slice(text, start, p));
            start = p + 1;
        }
        i = i + 1;
    }
    put(&mut parts, skip(text, start));
    assert(parts.deep_view() =~= want);
    parts
}

// ---- brackets --------------------------------------------------------------

/// What is inside the bracket that opens `s` and what follows it, where the
/// marks from `k` on are left and `depth` brackets are open.
pub open spec fn bracket_from(s: Seq<char>, open: char, close: char, k: int, depth: int) -> Option<
    (Seq<char>, Seq<char>),
>
    decreases outside(s).len() - k,
{
    if k < 0 || k >= outside(s).len() {
        None
    } else {
        let (p, c) = outside(s)[k];
        if c == open {
            bracket_from(s, open, close, k + 1, depth + 1)
        } else if c == close {
            if depth == 1 {
                Some((s.subrange(1, p), s.skip(p + 1)))
            } else {
                bracket_from(s, open, close, k + 1, depth - 1)
            }
        } else {
            bracket_from(s, open, close, k + 1, depth)
        }
    }
}

/// `(inner)` or `[inner]` at the start of `s`: the inner text, and what
/// follows the closing bracket.
pub open spec fn bracket(s: Seq<char>) -> Option<(Seq<char>, Seq<char>)> {
    if s.len() == 0 {
        None
    } else if s[0] == '(' {
        bracket_from(s, '(', ')', 0, 0)
    } else if s[0] == '[' {
        bracket_from(s, '[', ']', 0, 0)
    } else {
        None
    }
}

proof fn lemma_bracket_from(s: Seq<char>, open: char, close: char, k: int, depth: int)
    requires
        s.len() > 0,
        s[0] == open,
        open != close,
        0 <= k,
    ensures
        bracket_from(s, open, close, k, depth) matches Some((inner, after)) ==> inner.len()
            + after.len() + 2 == s.len(),
    decreases outside(s).len() - k,
{
    lemma_outside(s);
    if k < outside(s).len() {
        let (p, c) = outside(s)[k];
        lemma_bracket_from(s, open, close, k + 1, depth + 1);
        lemma_bracket_from(s, open, close, k + 1, depth - 1);
        lemma_bracket_from(s, open, close, k + 1, depth);
        if c == close {
            assert(p != 0);
        }
    }
}

/// The inner text and what follows are shorter than what was bracketed.
pub proof fn lemma_bracket(s: Seq<char>)
    ensures
        bracket(s) matches Some((inner, after)) ==> inner.len() + after.len() + 2 == s.len(),
{
    if s.len() > 0 {
        if s[0] == '(' {
            lemma_bracket_from(s, '(', ')', 0, 0);
        } else if s[0] == '[' {
            lemma_bracket_from(s, '[', ']', 0, 0);
        }
    }
}

/// `(inner)` or `[inner]` at the start of `s`: the inner text, and what
/// follows the closing bracket.
pub fn bracketed(s: &str) -> (r: Option<(&str, &str)>)
    ensures
        r.deep_view() == bracket(s@),
{
    if s.is_empty() {
        return None;
    }
    let open: char = s.get_char(0);
    if !(open == '(' || open == '[') {
        return None;
    }
    let close: char = if open == '(' {
        ')'
    } else {
        ']'
    };
    let marks = unquoted(s);
    let n: usize = s.unicode_len();
    proof {
        lemma_outside(s@);
    }
    let mut depth: i128 = 0;
    let mut i: usize = 0;
    while i < marks.len()
        invariant
            places(marks@) == outside(s@),
            n == s@.len(),
            0 < n,
            s@[0] == open,
            open != close,
            marks@.len() <= n,
            forall|k: int|
                0 <= k < outside(s@).len() ==> {
                    let (p, c) = #[trigger] outside(s@)[k];
                    0 <= p < s@.len() && s@[p] == c
                },
            i <= marks@.len(),
            -(i as int) <= depth <= i,
            bracket(s@) == bracket_from(s@, open, close, i as int, depth as int),
        decreases marks@.len() - i,
    {
        let (p, c) = marks[i];
        assert(outside(s@)[i as int] == (p as int, c));
        if c == open {
            depth = depth + 1;
        } else if c == close {
            if depth == 1 {
                return Some((slice(s, 1, p), slice(s, p + 1, n)));
            }
            depth = depth - 1;
        }
        i = i + 1;
    }
    None
}

// ---- wrappers --------------------------------------------------------------

/// Calls that only wrap a list or a path, and say nothing jrs needs.
pub open spec fn wrappers() -> Seq<Seq<char>> {
    seq![
        ""@,
        "listOf"@,
        "mutableListOf"@,
        "arrayOf"@,
        "setOf"@,
        "files"@,
        "file"@,
        "project.file"@,
        "layout.projectDirectory.file"@,
        "layout.projectDirectory.dir"@,
    ]
}

/// What the call of `wrapper` that `text` is wraps.
pub open spec fn wrapped_by(text: Seq<char>, wrapper: Seq<char>) -> Option<Seq<char>> {
    match after_prefix(text, wrapper) {
        None => None,
        Some(rest) => match bracket(rest) {
            Some((inner, after)) => if trimmed(after).len() == 0 {
                Some(inner)
            } else {
                None
            },
            None => None,
        },
    }
}

/// What the first wrapper from the `i`th on that wraps `text` wraps.
pub open spec fn wrapped_from(text: Seq<char>, i: int) -> Option<Seq<char>>
    decreases wrappers().len() - i,
{
    if i < 0 || i >= wrappers().len() {
        None
    } else {
        match wrapped_by(text, wrappers()[i]) {
            Some(inner) => Some(inner),
            None => wrapped_from(text, i + 1),
        }
    }
}

pub proof fn lemma_wrapped(text: Seq<char>, i: int)
    requires
        0 <= i,
    ensures
        wrapped_from(text, i) matches Some(inner) ==> inner.len() < text.len(),
    decreases wrappers().len() - i,
{
    if i < wrappers().len() {
        if let Some(rest) = after_prefix(text, wrappers()[i]) {
            lemma_bracket(rest);
        }
        lemma_wrapped(text, i + 1);
    }
}

pub proof fn lemma_trimmed_len(s: Seq<char>)
    ensures
        trimmed(s).len() <= s.len(),
{
    lemma_run_bounds(s, Class::Space);
    lemma_run_bounds(spec_left(s), Class::Space);
}

/// `text` without the wrappers around it: `(listOf("a", "b"))` → `"a", "b"`.
pub open spec fn bare(text: Seq<char>) -> Seq<char>
    decreases text.len(),
{
    let t = trimmed(text);
    match wrapped_from(t, 0) {
        Some(inner) => {
            proof {
                lemma_wrapped(t, 0);
                lemma_trimmed_len(text);
            }
            bare(inner)
        },
        None => t,
    }
}

fn wrapper_list() -> (r: Vec<&'static str>)
    ensures
        r.deep_view() == wrappers(),
{
    let list: Vec<&'static str> = vec![
        "",
        "listOf",
        "mutableListOf",
        "arrayOf",
        "setOf",
        "files",
        "file",
        "project.file",
        "layout.projectDirectory.file",
        "layout.projectDirectory.dir",
    ];
    assert(list.deep_view() =~= wrappers());
    list
}

fn peel<'a>(text: &'a str, list: &Vec<&'static str>) -> (r: Option<&'a str>)
    requires
        list.deep_view() == wrappers(),
    ensures
        r.deep_view() == wrapped_from(text@, 0),
{
    let mut i: usize = 0;
    while i < list.len()
        invariant
            list.deep_view() == wrappers(),
            i <= list@.len(),
            wrapped_from(text@, 0) == wrapped_from(text@, i as int),
        decreases list@.len() - i,
    {
        assert(wrappers()[i as int] == list@[i as int]@);
        if let Some(rest) = strip_prefix(text, list[i]) {
            if let Some((inner, after)) = bracketed(rest) {
                if trim(after).is_empty() {
                    return Some(inner);
                }
            }
        }
        i = i + 1;
    }
    None
}

/// `text` without the wrappers around it: `(listOf("a", "b"))` → `"a", "b"`.
pub fn unwrap(text: &str) -> (r: &str)
    ensures
        r@ == bare(text@),
{
    let list = wrapper_list();
    let mut rest: &str = text;
    loop
        invariant
            list.deep_view() == wrappers(),
            bare(text@) == bare(rest@),
        decreases rest@.len(),
    {
        let t = trim(rest);
        proof {
            lemma_wrapped(t@, 0);
            lemma_trimmed_len(rest@);
        }
        match peel(t, &list) {
            Some(inner) => {
                rest = inner;
            },
            None => {
                return t;
            },
        }
    }
}

/// What follows a property or a method: `= x`, `(x)`, ` x`, `.set(x)`.
pub open spec fn argument_of(rest: Seq<char>) -> Seq<char> {
    let a = spec_left(sans_prefix(trimmed(rest), ".set"@));
    trimmed(sans_prefix(a, "="@))
}

/// What follows a property or a method: `= x`, `(x)`, ` x`, `.set(x)`.
pub fn argument(rest: &str) -> (r: &str)
    ensures
        r@ == argument_of(rest@),
{
    let a = trim_start(without_prefix(trim(rest), ".set"));
    trim(without_prefix(a, "="))
}

// ---- words -----------------------------------------------------------------

/// The leading `[A-Za-z_][A-Za-z0-9_]*` of `s`.
pub open spec fn word(s: Seq<char>) -> Option<Seq<char>> {
    if s.len() > 0 && (letter(s[0]) || s[0] == '_') {
        Some(head(s, Class::Word))
    } else {
        None
    }
}

/// The leading `[A-Za-z_][A-Za-z0-9_]*` of `s`.
pub fn identifier(s: &str) -> (r: Option<&str>)
    ensures
        r.deep_view() == word(s@),
{
    if s.is_empty() {
        return None;
    }
    let c: char = s.get_char(0);
    if is_letter(c) || c == '_' {
        Some(take_run(s, Class::Word))
    } else {
        None
    }
}

/// `s` is one identifier.
pub open spec fn whole_word(s: Seq<char>) -> bool {
    word(s) is Some && word(s)->0.len() == s.len()
}

/// Whether `s` is one identifier.
pub fn is_identifier(s: &str) -> (r: bool)
    ensures
        r == whole_word(s@),
{
    match identifier(s) {
        Some(id) => id.unicode_len() == s.unicode_len(),
        None => false,
    }
}

/// `<Type>` at the start of `s`, and what follows it.
pub open spec fn type_args(s: Seq<char>) -> (Option<Seq<char>>, Seq<char>) {
    match after_prefix(s, "<"@) {
        None => (None, s),
        Some(r) => match cut(r, ">"@) {
            Some((ty, after)) => (Some(ty), after),
            None => (None, s),
        },
    }
}

/// `<Type>` at the start of `s`, and what follows it.
pub fn type_argument(s: &str) -> (r: (Option<&str>, &str))
    ensures
        r.deep_view() == type_args(s@),
{
    match strip_prefix(s, "<") {
        None => (None, s),
        Some(rest) => match split_once(rest, ">") {
            Some((ty, after)) => (Some(ty), after),
            None => (None, s),
        },
    }
}

/// `org.gradle.api.tasks.Exec::class.java` → `Exec`.
pub open spec fn simple_type(s: Seq<char>) -> Seq<char> {
    let t = sans_suffix(sans_suffix(trimmed(s), ".java"@), "::class"@);
    trimmed(
        match cut_last(t, "."@) {
            Some((_, last)) => last,
            None => t,
        },
    )
}

/// `org.gradle.api.tasks.Exec::class.java` → `Exec`.
pub fn simple_name(s: &str) -> (r: String)
    ensures
        r@ == simple_type(s@),
{
    let t = without_suffix(without_suffix(trim(s), ".java"), "::class");
    let last = match rsplit_once(t, ".") {
        Some((_, last)) => last,
        None => t,
    };
    trim(last).to_owned()
}

// ---- statements ------------------------------------------------------------

/// One statement of a script or of a block: its head, and the text of the
/// block it opens, when it opens one.
#[derive(Debug, PartialEq, Eq)]
pub struct Stmt {
    pub head: String,
    pub block: Option<String>,
}

/// What a statement says.
pub struct StmtModel {
    pub head: Seq<char>,
    pub block: Option<Seq<char>>,
}

impl DeepView for Stmt {
    type V = StmtModel;

    open spec fn deep_view(&self) -> StmtModel {
        StmtModel { head: self.head@, block: self.block.deep_view() }
    }
}

/// What a block that `depth` braces hold open has in the lines from `n` on,
/// after `body`, and the line after it.
pub open spec fn block_from(lines: Seq<Seq<char>>, n: int, depth: int, body: Seq<char>) -> (
    Seq<char>,
    int,
)
    decreases lines.len() - n,
{
    if n < 0 || n >= lines.len() {
        (body, n)
    } else {
        let d = depth + delta(lines[n]);
        if d <= 0 {
            let end = match closing(lines[n]) {
                Some(i) => i,
                None => 0,
            };
            (body + lines[n].take(end), n + 1)
        } else {
            block_from(lines, n + 1, d, body + lines[n] + "\n"@)
        }
    }
}

pub proof fn lemma_block_from(lines: Seq<Seq<char>>, n: int, depth: int, body: Seq<char>)
    requires
        0 <= n <= lines.len(),
    ensures
        n <= block_from(lines, n, depth, body).1 <= lines.len(),
    decreases lines.len() - n,
{
    if n < lines.len() {
        let d = depth + delta(lines[n]);
        if d > 0 {
            lemma_block_from(lines, n + 1, d, body + lines[n] + "\n"@);
        }
    }
}

/// The statement that `part` begins, and the line after it, where `next` is
/// the line after the one that holds the part.
pub open spec fn statement_at(lines: Seq<Seq<char>>, part: Seq<char>, next: int) -> (StmtModel, int) {
    match opening(part, '{') {
        None => (StmtModel { head: part, block: None }, next),
        Some(open) => {
            let rest = part.skip(open + 1);
            let depth = 1 + delta(rest);
            let (body, after) = if depth <= 0 {
                (
                    rest.take(
                        match closing(rest) {
                            Some(i) => i,
                            None => rest.len() as int,
                        },
                    ),
                    next,
                )
            } else {
                block_from(lines, next, depth, rest + "\n"@)
            };
            (StmtModel { head: trimmed(part.take(open)), block: Some(body) }, after)
        },
    }
}

pub proof fn lemma_statement_at(lines: Seq<Seq<char>>, part: Seq<char>, next: int)
    requires
        0 <= next <= lines.len(),
    ensures
        next <= statement_at(lines, part, next).1 <= lines.len(),
{
    if let Some(open) = opening(part, '{') {
        let rest = part.skip(open + 1);
        let depth = 1 + delta(rest);
        if depth > 0 {
            lemma_block_from(lines, next, depth, rest + "\n"@);
        }
    }
}

/// The statements of the parts from `k` on and of the lines from `next` on,
/// after those before.
pub open spec fn statements_from(
    lines: Seq<Seq<char>>,
    parts: Seq<Seq<char>>,
    k: int,
    next: int,
    out: Seq<StmtModel>,
) -> Seq<StmtModel>
    decreases lines.len() - next, parts.len() - k,
    when 0 <= k <= parts.len() && 0 <= next <= lines.len()
{
    if k < parts.len() {
        let part = trimmed(parts[k]);
        if part.len() == 0 {
            statements_from(lines, parts, k + 1, next, out)
        } else {
            let (stmt, after) = statement_at(lines, part, next);
            proof {
                lemma_statement_at(lines, part, next);
            }
            statements_from(lines, parts, k + 1, after, out.push(stmt))
        }
    } else if next < lines.len() {
        statements_from(lines, top_parts(lines[next], ';'), 0, next + 1, out)
    } else {
        out
    }
}

/// The statements of `text` at its own level; nested blocks stay inside the
/// statement that opens them.
pub open spec fn statements_of(text: Seq<char>) -> Seq<StmtModel> {
    statements_from(line_seq(text), seq![], 0, 0, seq![])
}

fn read_statement(lines: &Vec<&str>, part: &str, next: usize) -> (r: (Stmt, usize))
    requires
        next <= lines@.len(),
    ensures
        statement_at(lines.deep_view(), part@, next as int) == (r.0.deep_view(), r.1 as int),
        next <= r.1 <= lines@.len(),
{
    proof {
        lemma_statement_at(lines.deep_view(), part@, next as int);
    }
    let ghost all = lines.deep_view();
    let size: usize = part.unicode_len();
    let Some(open) = first_open(part, '{') else {
        return (Stmt { head: part.to_owned(), block: None }, next);
    };
    let rest = slice(part, open + 1, size);
    let head = trim(take(part, open)).to_owned();
    let width: usize = rest.unicode_len();
    let mut depth: i128 = 1 + brace_delta(rest);
    if depth <= 0 {
        // Opened and closed on one line.
        let end = match last_close(rest) {
            Some(i) => i,
            None => width,
        };
        let body = take(rest, end).to_owned();
        return (Stmt { head, block: Some(body) }, next);
    }
    let ghost first = depth as int;
    let mut body = cat2(rest, "\n");
    let ghost start = body@;
    let mut n: usize = next;
    while n < lines.len()
        invariant
            all == lines.deep_view(),
            next <= n <= lines@.len(),
            head@ == trimmed(part@.take(open as int)),
            opening(part@, '{') == Some(open as int),
            rest@ == part@.skip(open + 1),
            first == 1 + delta(rest@),
            first > 0,
            start == rest@ + "\n"@,
            statement_at(all, part@, next as int) == (
                StmtModel {
                    head: trimmed(part@.take(open as int)),
                    block: Some(block_from(all, next as int, first, start).0),
                },
                block_from(all, next as int, first, start).1,
            ),
            0 < depth <= 1 + body@.len(),
            block_from(all, next as int, first, start) == block_from(
                all,
                n as int,
                depth as int,
                body@,
            ),
        decreases lines@.len() - n,
    {
        let inner = lines[n];
        assert(all[n as int] == inner@);
        // No text is longer than a `usize` can say, so the depth fits.
        let _added: usize = inner.unicode_len();
        let _held: usize = body.unicode_len();
        let change: i128 = brace_delta(inner);
        depth = depth + change;
        if depth <= 0 {
            let end = match last_close(inner) {
                Some(i) => i,
                None => 0,
            };
            body.append(take(inner, end));
            return (Stmt { head, block: Some(body) }, n + 1);
        }
        body.append(inner);
        body.append("\n");
        n = n + 1;
    }
    (Stmt { head, block: Some(body) }, n)
}

/// The statements of `text` at its own level; nested blocks stay inside the
/// statement that opens them.
pub fn statements(text: &str) -> (r: Vec<Stmt>)
    ensures
        r.deep_view() == statements_of(text@),
{
    let all = lines(text);
    let ghost want = all.deep_view();
    let mut out: Vec<Stmt> = none_of();
    let mut next: usize = 0;
    while next < all.len()
        invariant
            want == all.deep_view(),
            want == line_seq(text@),
            next <= all@.len(),
            statements_of(text@) == statements_from(want, seq![], 0, next as int, out.deep_view()),
        decreases all@.len() - next,
    {
        assert(want[next as int] == all@[next as int]@);
        let parts = split_top(all[next], ';');
        let ghost pieces = parts.deep_view();
        let ghost start = next;
        next = next + 1;
        let mut k: usize = 0;
        while k < parts.len()
            invariant
                want == all.deep_view(),
                want == line_seq(text@),
                pieces == parts.deep_view(),
                start < next <= all@.len(),
                k <= parts@.len(),
                statements_of(text@) == statements_from(
                    want,
                    pieces,
                    k as int,
                    next as int,
                    out.deep_view(),
                ),
            decreases parts@.len() - k,
        {
            let part = trim(parts[k]);
            assert(pieces[k as int] == parts@[k as int]@);
            if !part.is_empty() {
                let (stmt, after) = read_statement(&all, part, next);
                put(&mut out, stmt);
                next = after;
            }
            k = k + 1;
        }
        proof {
            lemma_statements_join(want, pieces, next as int, out.deep_view());
        }
    }
    out
}

proof fn lemma_statements_join(
    lines: Seq<Seq<char>>,
    parts: Seq<Seq<char>>,
    next: int,
    out: Seq<StmtModel>,
)
    requires
        0 <= next <= lines.len(),
    ensures
        statements_from(lines, parts, parts.len() as int, next, out) == statements_from(
            lines,
            seq![],
            0,
            next,
            out,
        ),
{
}

} // verus!
