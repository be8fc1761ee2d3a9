//! String literals, statements and names in a Gradle script, where a literal
//! may hold `${...}` with literals of its own.

use crate::chars::{
    is_space, is_unicode_alphabetic, is_unicode_alphanumeric, space, unicode_alphabetic,
    unicode_alphanumeric,
};
use crate::text::{
    chars, left, none_of, put, slice, stands, string_of, take, skip, trim, trim_start, trimmed, at,
};
use vstd::prelude::*;

verus! {

// ---- literals --------------------------------------------------------------

/// `quote` closes a literal at `i`.
pub open spec fn closes(cs: Seq<char>, quote: char, triple: bool, i: int) -> bool {
    cs[i] == quote && (!triple || (i + 2 < cs.len() && cs[i + 1] == quote && cs[i + 2] == quote))
}

/// Where the contents of a literal, read up to `i`, end, and whether a quote
/// closes it there.
pub open spec fn contents_end(cs: Seq<char>, quote: char, triple: bool, i: int) -> (int, bool)
    decreases cs.len() + 2 - i,
{
    if i < 0 || i >= cs.len() {
        (cs.len() as int, false)
    } else if cs[i] == '\\' {
        contents_end(cs, quote, triple, i + 2)
    } else if cs[i] == '$' && quote == '"' && i + 1 < cs.len() && cs[i + 1] == '{' {
        let j = brace_end(cs, i + 1, 0);
        if i < j <= cs.len() {
            contents_end(cs, quote, triple, j)
        } else {
            (i, false)
        }
    } else if cs[i] == '\n' && !triple {
        (i, false)
    } else if closes(cs, quote, triple, i) {
        (i, true)
    } else {
        contents_end(cs, quote, triple, i + 1)
    }
}

/// The literal whose quote is at `open` is a triple-quoted one.
pub open spec fn triple_at(cs: Seq<char>, open: int) -> bool {
    open + 2 < cs.len() && cs[open + 1] == cs[open] && cs[open + 2] == cs[open]
}

pub open spec fn width_at(cs: Seq<char>, open: int) -> int {
    if triple_at(cs, open) {
        3
    } else {
        1
    }
}

/// Where the contents of the literal whose quote is at `open` end, and
/// whether a quote closes it there.
pub open spec fn literal_end(cs: Seq<char>, open: int) -> (int, bool)
    decreases cs.len() + 2 - open, 0int,
{
    if 0 <= open < cs.len() {
        contents_end(cs, cs[open], triple_at(cs, open), open + width_at(cs, open))
    } else {
        (cs.len() as int, false)
    }
}

/// The place past the literal whose quote is at `open`.
pub open spec fn past_literal(cs: Seq<char>, open: int) -> int
    decreases cs.len() + 2 - open, 1int,
{
    let (end, closed) = literal_end(cs, open);
    if closed {
        end + width_at(cs, open)
    } else if end > open {
        end
    } else {
        open + 1
    }
}

/// The place past the `}` that closes `depth` braces before `i`; the line's
/// end when there is none.
pub open spec fn brace_end(cs: Seq<char>, i: int, depth: int) -> int
    decreases cs.len() + 2 - i, 2int,
{
    if i < 0 || i >= cs.len() {
        cs.len() as int
    } else if cs[i] == '\'' || cs[i] == '"' {
        let n = past_literal(cs, i);
        if i < n <= cs.len() {
            brace_end(cs, n, depth)
        } else {
            cs.len() as int
        }
    } else if cs[i] == '{' {
        brace_end(cs, i + 1, depth + 1)
    } else if cs[i] == '}' {
        if depth <= 1 {
            i + 1
        } else {
            brace_end(cs, i + 1, depth - 1)
        }
    } else if cs[i] == '\n' {
        i
    } else {
        brace_end(cs, i + 1, depth)
    }
}

/// Where a string literal's contents start and end, and the index past its
/// closing quote.
pub struct Span {
    pub start: usize,
    pub end: usize,
    pub next: usize,
}

/// The span is that of the literal whose quote is at `open`.
pub open spec fn spans(s: Span, cs: Seq<char>, open: int) -> bool {
    &&& s.start == open + width_at(cs, open)
    &&& s.end == literal_end(cs, open).0
    &&& s.next == past_literal(cs, open)
    &&& open < s.start <= s.end <= cs.len()
    &&& s.end <= s.next <= cs.len()
    &&& literal_end(cs, open).1 <==> s.next > s.end
}

/// The string literal whose quote is at `open`: `'...'`, `"..."` with any
/// `${...}` in it, and the triple-quoted forms. One left open ends at the end
/// of its line.
pub fn string_span(cs: &Vec<char>, open: usize) -> (r: Span)
    requires
        open < cs@.len(),
    ensures
        spans(r, cs@, open as int),
    decreases cs@.len() - open, 0int,
{
    let quote: char = cs[open];
    let n: usize = cs.len();
    let triple = n - open > 2 && cs[open + 1] == quote && cs[open + 2] == quote;
    let width: usize = if triple {
        3
    } else {
        1
    };
    let start: usize = open + width;
    let mut i: usize = start;
    while i < n
        invariant
            n == cs@.len(),
            open < n,
            quote == cs@[open as int],
            triple == triple_at(cs@, open as int),
            width == width_at(cs@, open as int),
            start == open + width,
            start <= n,
            start <= i <= n,
            literal_end(cs@, open as int) == contents_end(cs@, quote, triple, i as int),
        decreases n - i,
    {
        let c: char = cs[i];
        if c == '\\' {
            if n - i < 2 {
                assert(contents_end(cs@, quote, triple, i + 2) == (n as int, false));
                return Span { start, end: n, next: n };
            }
            i = i + 2;
        } else if c == '$' && quote == '"' && n - i > 1 && cs[i + 1] == '{' {
            i = braced_end(cs, i + 1);
        } else if c == '\n' && !triple {
            return Span { start, end: i, next: i };
        } else if c == quote && (!triple || (n - i > 2 && cs[i + 1] == quote && cs[i + 2] == quote)) {
            return Span { start, end: i, next: i + width };
        } else {
            i = i + 1;
        }
    }
    Span { start, end: n, next: n }
}

/// The index past the `}` closing the `{` at `open`, string literals inside
/// it skipped; the line's end when there is none.
pub fn braced_end(cs: &Vec<char>, open: usize) -> (r: usize)
    requires
        open <= cs@.len(),
    ensures
        r == brace_end(cs@, open as int, 0),
        open <= r <= cs@.len(),
    decreases cs@.len() - open, 1int,
{
    let n: usize = cs.len();
    let mut depth: usize = 0;
    let mut i: usize = open;
    while i < n
        invariant
            n == cs@.len(),
            open <= i <= n,
            depth <= i,
            brace_end(cs@, open as int, 0) == brace_end(cs@, i as int, depth as int),
        decreases n - i,
    {
        let c: char = cs[i];
        if c == '\'' || c == '"' {
            i = string_span(cs, i).next;
        } else {
            if c == '{' {
                depth = depth + 1;
            } else if c == '}' {
                if depth <= 1 {
                    return i + 1;
                }
                depth = depth - 1;
            } else if c == '\n' {
                return i;
            }
            i = i + 1;
        }
    }
    n
}

/// The literals from `i` on, after those before.
pub open spec fn literals_from(cs: Seq<char>, i: int, out: Seq<(char, Seq<char>)>) -> Seq<
    (char, Seq<char>),
>
    decreases cs.len() - i,
{
    if i < 0 || i >= cs.len() {
        out
    } else if cs[i] == '\'' || cs[i] == '"' {
        let n = past_literal(cs, i);
        let found = out.push(
            (cs[i], cs.subrange(i + width_at(cs, i), literal_end(cs, i).0)),
        );
        if i < n <= cs.len() {
            literals_from(cs, n, found)
        } else {
            found
        }
    } else {
        literals_from(cs, i + 1, out)
    }
}

/// Every string literal in `text`, in order, with the quote that opened it. A
/// `"` inside `${...}` stays inside: `"g:a:${property("v")}"` is one literal.
pub fn literals(text: &str) -> (r: Vec<(char, String)>)
    ensures
        r.deep_view() == literals_from(text@, 0, seq![]),
{
    let cs = chars(text);
    let mut out: Vec<(char, String)> = none_of();
    let mut i: usize = 0;
    while i < cs.len()
        invariant
            cs@ == text@,
            i <= cs@.len(),
            literals_from(text@, 0, seq![]) == literals_from(text@, i as int, out.deep_view()),
        decreases cs@.len() - i,
    {
        let c: char = cs[i];
        if c == '\'' || c == '"' {
            let span = string_span(&cs, i);
            put(&mut out, (c, string_of(&cs, span.start, span.end)));
            i = span.next;
        } else {
            i = i + 1;
        }
    }
    out
}

/// `text` when it is one string literal, whole: its quote and contents.
pub open spec fn only_literal(text: Seq<char>) -> Option<(char, Seq<char>)> {
    if text.len() > 0 && (text[0] == '\'' || text[0] == '"') && literal_end(text, 0).1
        && past_literal(text, 0) == text.len() {
        Some((text[0], text.subrange(width_at(text, 0), literal_end(text, 0).0)))
    } else {
        None
    }
}

/// `text` when it is one string literal, whole: its quote and contents.
pub fn whole_literal(text: &str) -> (r: Option<(char, String)>)
    ensures
        r.deep_view() == only_literal(text@),
{
    let cs = chars(text);
    if cs.len() == 0 || !(cs[0] == '\'' || cs[0] == '"') {
        return None;
    }
    let span = string_span(&cs, 0);
    if span.next > span.end && span.next == cs.len() {
        Some((cs[0], string_of(&cs, span.start, span.end)))
    } else {
        None
    }
}

// ---- values ----------------------------------------------------------------

/// Where a value ends that is read up to `i`, inside `depth` brackets: at a
/// comma, at a closing bracket, and where `spaced` at white space.
pub open spec fn value_end(cs: Seq<char>, i: int, depth: int, spaced: bool) -> int
    decreases cs.len() - i,
{
    if i < 0 || i >= cs.len() {
        cs.len() as int
    } else if cs[i] == '\'' || cs[i] == '"' {
        let n = past_literal(cs, i);
        if i < n <= cs.len() {
            value_end(cs, n, depth, spaced)
        } else {
            n
        }
    } else if cs[i] == '(' || cs[i] == '[' {
        value_end(cs, i + 1, depth + 1, spaced)
    } else if depth == 0 && (cs[i] == ')' || cs[i] == ']' || cs[i] == ',' || (spaced && space(
        cs[i],
    ))) {
        i
    } else if cs[i] == ')' || cs[i] == ']' {
        value_end(cs, i + 1, depth - 1, spaced)
    } else {
        value_end(cs, i + 1, depth, spaced)
    }
}

fn find_value_end(cs: &Vec<char>, from: usize, spaced: bool) -> (r: usize)
    requires
        from <= cs@.len(),
    ensures
        r == value_end(cs@, from as int, 0, spaced),
        from <= r <= cs@.len(),
{
    let mut depth: usize = 0;
    let mut i: usize = from;
    while i < cs.len()
        invariant
            from <= i <= cs@.len(),
            depth <= i,
            value_end(cs@, from as int, 0, spaced) == value_end(cs@, i as int, depth as int, spaced),
        decreases cs@.len() - i,
    {
        let c: char = cs[i];
        if c == '\'' || c == '"' {
            i = string_span(cs, i).next;
        } else {
            if c == '(' || c == '[' {
                depth = depth + 1;
            } else if depth == 0 && (c == ')' || c == ']' || c == ',' || (spaced && is_space(c))) {
                return i;
            } else if c == ')' || c == ']' {
                depth = depth - 1;
            }
            i = i + 1;
        }
    }
    i
}

/// The value an expression starts with.
pub open spec fn first_value(text: Seq<char>) -> Seq<char> {
    let t = left(text);
    if t.len() > 0 && (t[0] == '\'' || t[0] == '"') {
        t.take(past_literal(t, 0))
    } else {
        t.take(value_end(t, 0, 0, true))
    }
}

/// The value an expression starts with: a string literal, quotes and all, or
/// a name — with `property("x")`'s brackets — up to a space, a comma or a
/// closing bracket.
pub fn leading_value(text: &str) -> (r: String)
    ensures
        r@ == first_value(text@),
{
    let t = trim_start(text);
    let cs = chars(t);
    let end: usize = if cs.len() > 0 && (cs[0] == '\'' || cs[0] == '"') {
        string_span(&cs, 0).next
    } else {
        find_value_end(&cs, 0, true)
    };
    take(t, end).to_owned()
}

/// A character of a name.
pub open spec fn name_char(c: char) -> bool {
    unicode_alphanumeric(c) || c == '_'
}

/// A character that a name starts with.
pub open spec fn name_start(c: char) -> bool {
    unicode_alphabetic(c) || c == '_'
}

fn is_name_char(c: char) -> (r: bool)
    ensures
        r == name_char(c),
{
    is_unicode_alphanumeric(c) || c == '_'
}

fn is_name_start(c: char) -> (r: bool)
    ensures
        r == name_start(c),
{
    is_unicode_alphabetic(c) || c == '_'
}

/// The first place from `i` on that holds no white space.
pub open spec fn past_space(cs: Seq<char>, i: int) -> int
    decreases cs.len() - i,
{
    if 0 <= i < cs.len() && space(cs[i]) {
        past_space(cs, i + 1)
    } else {
        i
    }
}

/// Where the separator of `key: value` or `key = value` stands, for a key
/// at `i`.
pub open spec fn separator(cs: Seq<char>, key: Seq<char>, i: int) -> Option<int> {
    if at(cs, key, i) && !(i > 0 && name_char(cs[i - 1])) {
        let j = past_space(cs, i + key.len());
        if j < cs.len() && (cs[j] == ':' || (cs[j] == '=' && !(j + 1 < cs.len() && cs[j + 1]
            == '='))) {
            Some(j)
        } else {
            None
        }
    } else {
        None
    }
}

/// The value of the first `key: value` or `key = value` from `i` on.
pub open spec fn field_from(cs: Seq<char>, key: Seq<char>, i: int) -> Option<Seq<char>>
    decreases cs.len() - i,
{
    if i < 0 || i >= cs.len() {
        None
    } else if cs[i] == '\'' || cs[i] == '"' {
        let n = past_literal(cs, i);
        if i < n <= cs.len() {
            field_from(cs, key, n)
        } else {
            None
        }
    } else {
        match separator(cs, key, i) {
            Some(j) => Some(trimmed(cs.subrange(j + 1, value_end(cs, j + 1, 0, false)))),
            None => field_from(cs, key, i + 1),
        }
    }
}

fn find_separator(cs: &Vec<char>, key: &Vec<char>, i: usize) -> (r: Option<usize>)
    requires
        i < cs@.len(),
    ensures
        r is Some <==> separator(cs@, key@, i as int) is Some,
        r matches Some(j) ==> j < cs@.len() && separator(cs@, key@, i as int) == Some(j as int),
{
    if !stands(cs, key, i) || (i > 0 && is_name_char(cs[i - 1])) {
        return None;
    }
    let n: usize = cs.len();
    let mut j: usize = i + key.len();
    while j < n && is_space(cs[j])
        invariant
            n == cs@.len(),
            j <= n,
            past_space(cs@, i + key@.len()) == past_space(cs@, j as int),
        decreases n - j,
    {
        j = j + 1;
    }
    if j < n && (cs[j] == ':' || (cs[j] == '=' && !(n - j > 1 && cs[j + 1] == '='))) {
        Some(j)
    } else {
        None
    }
}

/// The value of `key: value` or `key = value` in an argument list — map
/// notation, or the Kotlin DSL's named arguments — as written, up to the next
/// comma or closing bracket outside string literals.
pub fn map_field(line: &str, key: &str) -> (r: Option<String>)
    ensures
        r.deep_view() == field_from(line@, key@, 0),
{
    let cs = chars(line);
    let word = chars(key);
    let mut i: usize = 0;
    while i < cs.len()
        invariant
            cs@ == line@,
            word@ == key@,
            i <= cs@.len(),
            field_from(line@, key@, 0) == field_from(line@, key@, i as int),
        decreases cs@.len() - i,
    {
        let c: char = cs[i];
        if c == '\'' || c == '"' {
            i = string_span(&cs, i).next;
        } else {
            if let Some(j) = find_separator(&cs, &word, i) {
                let end: usize = find_value_end(&cs, j + 1, false);
                return Some(trim(slice(line, j + 1, end)).to_owned());
            }
            i = i + 1;
        }
    }
    None
}

// ---- pieces ----------------------------------------------------------------

/// One piece of a script: a block's header as it opens, its closing brace,
/// or a statement.
pub enum Piece {
    Open(String),
    Close,
    Statement(String),
}

/// What a piece says.
pub enum PieceModel {
    Open(Seq<char>),
    Close,
    Statement(Seq<char>),
}

impl DeepView for Piece {
    type V = PieceModel;

    open spec fn deep_view(&self) -> PieceModel {
        match self {
            Piece::Open(s) => PieceModel::Open(s@),
            Piece::Close => PieceModel::Close,
            Piece::Statement(s) => PieceModel::Statement(s@),
        }
    }
}

/// The pieces, with a statement that ends.
pub open spec fn flushed(out: Seq<PieceModel>, current: Seq<char>) -> Seq<PieceModel> {
    if trimmed(current).len() == 0 {
        out
    } else {
        out.push(PieceModel::Statement(trimmed(current)))
    }
}

/// The pieces from `i` on, after those before and what was read of one.
pub open spec fn pieces_from(
    cs: Seq<char>,
    i: int,
    current: Seq<char>,
    out: Seq<PieceModel>,
) -> Seq<PieceModel>
    decreases cs.len() - i,
{
    if i < 0 || i >= cs.len() {
        flushed(out, current)
    } else if cs[i] == '\'' || cs[i] == '"' {
        let n = past_literal(cs, i);
        if i < n <= cs.len() {
            pieces_from(cs, n, current + cs.subrange(i, n), out)
        } else {
            flushed(out, current)
        }
    } else if cs[i] == '{' {
        pieces_from(cs, i + 1, seq![], out.push(PieceModel::Open(trimmed(current))))
    } else if cs[i] == '}' {
        pieces_from(cs, i + 1, seq![], flushed(out, current).push(PieceModel::Close))
    } else if cs[i] == ';' || cs[i] == '\n' {
        pieces_from(cs, i + 1, seq![], flushed(out, current))
    } else {
        pieces_from(cs, i + 1, current.push(cs[i]), out)
    }
}

/// A script cut into statements and the blocks around them.
pub open spec fn pieces_of(script: Seq<char>) -> Seq<PieceModel> {
    pieces_from(script, 0, seq![], seq![])
}

fn flush(out: &mut Vec<Piece>, current: &str)
    ensures
        final(out).deep_view() == flushed(old(out).deep_view(), current@),
{
    let statement = trim(current);
    if !statement.is_empty() {
        put(out, Piece::Statement(statement.to_owned()));
    }
}

/// `script` cut into statements and the blocks around them, at braces, `;`
/// and line ends outside string literals.
pub fn pieces(script: &str) -> (r: Vec<Piece>)
    ensures
        r.deep_view() == pieces_of(script@),
{
    let cs = chars(script);
    let mut out: Vec<Piece> = none_of();
    let mut current = String::new();
    let mut i: usize = 0;
    assert(current@ =~= seq![]);
    while i < cs.len()
        invariant
            cs@ == script@,
            i <= cs@.len(),
            pieces_of(script@) == pieces_from(script@, i as int, current@, out.deep_view()),
        decreases cs@.len() - i,
    {
        let c: char = cs[i];
        if c == '\'' || c == '"' {
            let next: usize = string_span(&cs, i).next;
            current.append(slice(script, i, next));
            i = next;
        } else {
            if c == '{' {
                put(&mut out, Piece::Open(trim(current.as_str()).to_owned()));
                current = String::new();
                assert(current@ =~= seq![]);
            } else if c == '}' {
                flush(&mut out, current.as_str());
                put(&mut out, Piece::Close);
                current = String::new();
                assert(current@ =~= seq![]);
            } else if c == ';' || c == '\n' {
                flush(&mut out, current.as_str());
                current = String::new();
                assert(current@ =~= seq![]);
            } else {
                current.push(c);
            }
            i = i + 1;
        }
    }
    flush(&mut out, current.as_str());
    out
}

/// The statements and the block headers among the pieces from `i` on.
pub open spec fn heads_from(all: Seq<PieceModel>, i: int, out: Seq<Seq<char>>) -> Seq<Seq<char>>
    decreases all.len() - i,
{
    if i < 0 || i >= all.len() {
        out
    } else {
        match all[i] {
            PieceModel::Open(s) => if s.len() > 0 {
                heads_from(all, i + 1, out.push(s))
            } else {
                heads_from(all, i + 1, out)
            },
            PieceModel::Statement(s) => if s.len() > 0 {
                heads_from(all, i + 1, out.push(s))
            } else {
                heads_from(all, i + 1, out)
            },
            PieceModel::Close => heads_from(all, i + 1, out),
        }
    }
}

/// The statements and block headers in `text`.
pub open spec fn heads_of(text: Seq<char>) -> Seq<Seq<char>> {
    heads_from(pieces_of(text), 0, seq![])
}

/// The statements and block headers in `text`, split at braces and `;`
/// outside string literals: `imports { mavenBom "g:a:${v}" }` is `imports`
/// and `mavenBom "g:a:${v}"`.
pub fn statements(text: &str) -> (r: Vec<String>)
    ensures
        r.deep_view() == heads_of(text@),
{
    let list = pieces(text);
    let ghost all = list.deep_view();
    let mut out: Vec<String> = none_of();
    let mut i: usize = 0;
    while i < list.len()
        invariant
            all == list.deep_view(),
            i <= list@.len(),
            heads_from(all, 0, seq![]) == heads_from(all, i as int, out.deep_view()),
        decreases list@.len() - i,
    {
        assert(all[i as int] == list@[i as int].deep_view());
        match &list[i] {
            Piece::Open(s) => {
                if !s.as_str().is_empty() {
                    put(&mut out, s.clone());
                }
            },
            Piece::Statement(s) => {
                if !s.as_str().is_empty() {
                    put(&mut out, s.clone());
                }
            },
            Piece::Close => {},
        }
        i = i + 1;
    }
    out
}

// ---- names -----------------------------------------------------------------

/// Where a run of a name's characters that reaches `i` ends.
pub open spec fn name_end(s: Seq<char>, i: int) -> int
    decreases s.len() - i,
{
    if 0 <= i < s.len() && name_char(s[i]) {
        name_end(s, i + 1)
    } else {
        i
    }
}

/// A name at the start of `text`, and what follows it.
pub open spec fn name_at_start(text: Seq<char>) -> Option<(Seq<char>, Seq<char>)> {
    let end = name_end(text, 0);
    if end > 0 && name_start(text[0]) {
        Some((text.take(end), text.skip(end)))
    } else {
        None
    }
}

/// A name at the start of `text`, and what follows it.
pub fn name(text: &str) -> (r: Option<(&str, &str)>)
    ensures
        r.deep_view() == name_at_start(text@),
{
    let cs = chars(text);
    let mut i: usize = 0;
    while i < cs.len() && is_name_char(cs[i])
        invariant
            cs@ == text@,
            i <= cs@.len(),
            name_end(text@, 0) == name_end(text@, i as int),
        decreases cs@.len() - i,
    {
        i = i + 1;
    }
    if i > 0 && is_name_start(cs[0]) {
        Some((take(text, i), skip(text, i)))
    } else {
        None
    }
}

/// A property's key at the start of `text`, and what follows its closing
/// quote.
pub open spec fn key_at_start(text: Seq<char>) -> Option<(Seq<char>, Seq<char>)> {
    if text.len() > 0 && (text[0] == '\'' || text[0] == '"') {
        match crate::text::cut(text.skip(1), seq![text[0]]) {
            Some((key, rest)) => if key.len() > 0 && !crate::text::includes(key, '$') {
                Some((key, rest))
            } else {
                None
            },
            None => None,
        }
    } else {
        None
    }
}

/// A property's key, a string literal without interpolation at the start of
/// `text`, and what follows its closing quote.
pub fn key_literal(text: &str) -> (r: Option<(&str, &str)>)
    ensures
        r.deep_view() == key_at_start(text@),
{
    if text.is_empty() {
        return None;
    }
    let quote: char = text.get_char(0);
    let found = if quote == '"' {
        proof {
            reveal_strlit("\"");
            assert("\""@ =~= seq!['"']);
        }
        crate::text::split_once(skip(text, 1), "\"")
    } else if quote == '\'' {
        proof {
            reveal_strlit("'");
            assert("'"@ =~= seq!['\'']);
        }
        crate::text::split_once(skip(text, 1), "'")
    } else {
        None
    };
    match found {
        Some((key, rest)) => if !key.is_empty() && !crate::text::has_char(key, '$') {
            Some((key, rest))
        } else {
            None
        },
        None => None,
    }
}

/// Where the name in `$name` ends that is read up to `i`: Groovy's runs on
/// over `.name`.
pub open spec fn path_end(cs: Seq<char>, i: int, kotlin: bool) -> int
    decreases cs.len() - i,
{
    if 0 <= i < cs.len() && (name_char(cs[i]) || (!kotlin && cs[i] == '.' && i + 1 < cs.len()
        && name_start(cs[i + 1]))) {
        path_end(cs, i + 1, kotlin)
    } else {
        i
    }
}

/// The expression a `$` at `i` interpolates, and the place past it.
pub open spec fn interpolated_at(cs: Seq<char>, i: int, kotlin: bool) -> Option<(Seq<char>, int)> {
    if i >= cs.len() || cs[i] != '$' || i + 1 >= cs.len() {
        None
    } else if cs[i + 1] == '{' {
        let end = brace_end(cs, i + 1, 0);
        if cs[end - 1] == '}' {
            Some((cs.subrange(i + 2, end - 1), end))
        } else {
            None
        }
    } else if name_start(cs[i + 1]) {
        let end = path_end(cs, i + 1, kotlin);
        Some((cs.subrange(i + 1, end), end))
    } else {
        None
    }
}

/// The expression a `$` at `at` interpolates, and the index past it:
/// `${expression}`, or `$name` — which in Groovy runs on over `.name`.
pub fn interpolation(cs: &Vec<char>, i: usize, kotlin: bool) -> (r: Option<(String, usize)>)
    ensures
        r is Some <==> interpolated_at(cs@, i as int, kotlin) is Some,
        r matches Some((e, next)) ==> interpolated_at(cs@, i as int, kotlin) == Some(
            (e@, next as int),
        ) && i < next <= cs@.len(),
{
    let n: usize = cs.len();
    if i >= n || cs[i] != '$' || n - i <= 1 {
        return None;
    }
    if cs[i + 1] == '{' {
        let end: usize = braced_end(cs, i + 1);
        if cs[end - 1] != '}' {
            return None;
        }
        return Some((string_of(cs, i + 2, end - 1), end));
    }
    if !is_name_start(cs[i + 1]) {
        return None;
    }
    let mut end: usize = i + 1;
    while end < n && (is_name_char(cs[end]) || (!kotlin && cs[end] == '.' && n - end > 1
        && is_name_start(cs[end + 1])))
        invariant
            n == cs@.len(),
            i < end <= n,
            path_end(cs@, i + 1, kotlin) == path_end(cs@, end as int, kotlin),
        decreases n - end,
    {
        end = end + 1;
    }
    Some((string_of(cs, i + 1, end), end))
}

} // verus!
