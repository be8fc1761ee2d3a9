//! The text of a Gradle script: comments, literals, blocks and coordinates.

use crate::dependency::{plain_dependency, Dependency, DependencyModel};
use crate::gradle_lex::{brace_delta, delta};
use crate::text::{
    after_prefix, chars, cut, dense, drop_run, find, found, has_char, head, includes, left,
    lemma_run_bounds, lemma_run_end, line_seq, lines, none_of, number, parse_number, pieces, put,
    right, run, run_end, same, sans_all, sans_head, sans_prefix, sans_tail, skip, skip_run, split,
    split_once, starts, starts_with, string_of, strip_all, strip_prefix, take_run, trim, trim_end,
    trim_start, trimmed, without_prefix, without_space, Class,
};
use crate::chars::space;
use vstd::prelude::*;

verus! {

// ---- comments --------------------------------------------------------------

/// Where in a script the scan is.
#[derive(Debug, Clone, Copy, PartialEq, Eq, Structural)]
pub enum Scan {
    Code,
    /// In a string literal that the character opened.
    Text(char),
    /// In a `// comment`.
    Line,
    /// In a `/* comment */`.
    Block,
}

/// The script from `i` on without its comments.
pub open spec fn bare_from(s: Seq<char>, i: int, scan: Scan) -> Seq<char>
    decreases s.len() - i,
{
    if i < 0 || i >= s.len() {
        seq![]
    } else {
        let c = s[i];
        match scan {
            Scan::Block => if c == '*' && i + 1 < s.len() && s[i + 1] == '/' {
                bare_from(s, i + 2, Scan::Code)
            } else if c == '\n' {
                seq![c] + bare_from(s, i + 1, Scan::Block)
            } else {
                bare_from(s, i + 1, Scan::Block)
            },
            Scan::Line => if c == '\n' {
                seq![c] + bare_from(s, i + 1, Scan::Code)
            } else {
                bare_from(s, i + 1, Scan::Line)
            },
            Scan::Text(quote) => if c == '\\' && i + 1 < s.len() {
                seq![c, s[i + 1]] + bare_from(s, i + 2, scan)
            } else if c == quote {
                seq![c] + bare_from(s, i + 1, Scan::Code)
            } else {
                seq![c] + bare_from(s, i + 1, scan)
            },
            Scan::Code => if c == '\'' || c == '"' {
                seq![c] + bare_from(s, i + 1, Scan::Text(c))
            } else if c == '/' && i + 1 < s.len() && s[i + 1] == '/' {
                bare_from(s, i + 2, Scan::Line)
            } else if c == '/' && i + 1 < s.len() && s[i + 1] == '*' {
                bare_from(s, i + 2, Scan::Block)
            } else {
                seq![c] + bare_from(s, i + 1, Scan::Code)
            },
        }
    }
}

/// A script without its comments.
pub open spec fn sans_comments(text: Seq<char>) -> Seq<char> {
    bare_from(text, 0, Scan::Code)
}

/// Remove `//` and `/* */` comments, leaving line structure intact.
pub fn strip_comments(text: &str) -> (r: String)
    ensures
        r@ == sans_comments(text@),
{
    let cs = chars(text);
    let mut out = String::new();
    let mut scan = Scan::Code;
    let mut i: usize = 0;
    while i < cs.len()
        invariant
            cs@ == text@,
            i <= cs@.len(),
            sans_comments(text@) =~= out@ + bare_from(text@, i as int, scan),
        decreases cs@.len() - i,
    {
        let c: char = cs[i];
        let next: Option<char> = if cs.len() - i > 1 {
            Some(cs[i + 1])
        } else {
            None
        };
        let mut width: usize = 1;
        match scan {
            Scan::Block => {
                if c == '*' && next == Some('/') {
                    width = 2;
                    scan = Scan::Code;
                } else if c == '\n' {
                    out.push(c);
                }
            },
            Scan::Line => {
                if c == '\n' {
                    out.push(c);
                    scan = Scan::Code;
                }
            },
            Scan::Text(quote) => {
                out.push(c);
                match next {
                    Some(n) if c == '\\' => {
                        out.push(n);
                        width = 2;
                    },
                    _ => {
                        if c == quote {
                            scan = Scan::Code;
                        }
                    },
                }
            },
            Scan::Code => {
                if c == '\'' || c == '"' {
                    out.push(c);
                    scan = Scan::Text(c);
                } else if c == '/' && next == Some('/') {
                    width = 2;
                    scan = Scan::Line;
                } else if c == '/' && next == Some('*') {
                    width = 2;
                    scan = Scan::Block;
                } else {
                    out.push(c);
                }
            },
        }
        i = i + width;
    }
    assert(sans_comments(text@) =~= out@);
    out
}

/// How often `c` stands in `s`.
pub open spec fn tally(s: Seq<char>, c: char) -> nat
    decreases s.len(),
{
    if s.len() == 0 {
        0
    } else {
        tally(s.drop_last(), c) + (if s.last() == c {
            1nat
        } else {
            0nat
        })
    }
}

/// How often `c` stands in `s`.
pub fn count(s: &str, c: char) -> (r: usize)
    ensures
        r == tally(s@, c),
        r <= s@.len(),
{
    let cs = chars(s);
    let mut n: usize = 0;
    let mut i: usize = 0;
    while i < cs.len()
        invariant
            cs@ == s@,
            i <= cs@.len(),
            n <= i,
            n == tally(s@.take(i as int), c),
        decreases cs@.len() - i,
    {
        assert(s@.take(i + 1).drop_last() =~= s@.take(i as int));
        if cs[i] == c {
            n = n + 1;
        }
        i = i + 1;
    }
    assert(s@.take(i as int) =~= s@);
    n
}

proof fn lemma_tally_front(c: char, rest: Seq<char>, x: char)
    ensures
        tally(seq![c] + rest, x) == tally(seq![c], x) + tally(rest, x),
        tally(seq![c], x) == (if c == x {
            1nat
        } else {
            0nat
        }),
    decreases rest.len(),
{
    assert(seq![c].drop_last() =~= Seq::<char>::empty());
    assert(seq![c].last() == c);
    assert(tally(seq![c].drop_last(), x) == 0);
    if rest.len() == 0 {
        assert(seq![c] + rest =~= seq![c]);
    } else {
        lemma_tally_front(c, rest.drop_last(), x);
        assert((seq![c] + rest).drop_last() =~= seq![c] + rest.drop_last());
    }
}

proof fn lemma_bare_lines(s: Seq<char>, i: int, scan: Scan)
    requires
        0 <= i <= s.len(),
        scan matches Scan::Text(q) ==> q != '\n',
    ensures
        tally(bare_from(s, i, scan), '\n') == tally(s.skip(i), '\n'),
    decreases s.len() - i,
{
    if i >= s.len() {
        assert(s.skip(i) =~= seq![]);
    } else {
        assert(s.skip(i) =~= seq![s[i]] + s.skip(i + 1));
        lemma_tally_front(s[i], s.skip(i + 1), '\n');
        if i + 1 < s.len() {
            assert(s.skip(i + 1) =~= seq![s[i + 1]] + s.skip(i + 2));
            lemma_tally_front(s[i + 1], s.skip(i + 2), '\n');
            lemma_bare_lines(s, i + 2, Scan::Line);
            lemma_bare_lines(s, i + 2, Scan::Block);
            lemma_bare_lines(s, i + 2, Scan::Code);
            lemma_bare_lines(s, i + 2, scan);
            lemma_tally_front(s[i + 1], bare_from(s, i + 2, scan), '\n');
            lemma_tally_front(s[i], seq![s[i + 1]] + bare_from(s, i + 2, scan), '\n');
            assert(seq![s[i], s[i + 1]] + bare_from(s, i + 2, scan) =~= seq![s[i]] + (
            seq![s[i + 1]] + bare_from(s, i + 2, scan)));
        }
        lemma_bare_lines(s, i + 1, Scan::Line);
        lemma_bare_lines(s, i + 1, Scan::Block);
        lemma_bare_lines(s, i + 1, Scan::Code);
        lemma_bare_lines(s, i + 1, scan);
        lemma_tally_front(s[i], bare_from(s, i + 1, scan), '\n');
        lemma_tally_front(s[i], bare_from(s, i + 1, Scan::Code), '\n');
        lemma_tally_front(s[i], bare_from(s, i + 1, Scan::Block), '\n');
        if s[i] == '\'' || s[i] == '"' {
            lemma_bare_lines(s, i + 1, Scan::Text(s[i]));
            lemma_tally_front(s[i], bare_from(s, i + 1, Scan::Text(s[i])), '\n');
        }
    }
}

/// A script has as many lines without its comments as with them.
pub proof fn comments_leave_lines(text: Seq<char>)
    ensures
        tally(sans_comments(text), '\n') == tally(text, '\n'),
{
    lemma_bare_lines(text, 0, Scan::Code);
    assert(text.skip(0) =~= text);
}

proof fn lemma_bare_shift(p: Seq<char>, u: Seq<char>, j: int, scan: Scan)
    requires
        0 <= j,
    ensures
        bare_from(p + u, p.len() + j, scan) == bare_from(u, j, scan),
    decreases u.len() - j,
{
    if j < u.len() {
        let s = p + u;
        let i = p.len() + j;
        assert(s[i] == u[j]);
        if j + 1 < u.len() {
            assert(s[i + 1] == u[j + 1]);
        }
        lemma_bare_shift(p, u, j + 1, Scan::Code);
        lemma_bare_shift(p, u, j + 1, Scan::Line);
        lemma_bare_shift(p, u, j + 1, Scan::Block);
        lemma_bare_shift(p, u, j + 1, scan);
        lemma_bare_shift(p, u, j + 1, Scan::Text(u[j]));
        if j + 1 < u.len() {
            lemma_bare_shift(p, u, j + 2, Scan::Code);
            lemma_bare_shift(p, u, j + 2, Scan::Line);
            lemma_bare_shift(p, u, j + 2, Scan::Block);
            lemma_bare_shift(p, u, j + 2, scan);
        }
    }
}

/// Where the scan of what was kept is when the scan of the script is at `scan`.
spec fn kept(scan: Scan) -> Scan {
    match scan {
        Scan::Text(_) => scan,
        _ => Scan::Code,
    }
}

/// A scan that is in a string literal is in one that a quote opened.
spec fn sound(scan: Scan) -> bool {
    scan matches Scan::Text(q) ==> q == '\'' || q == '"'
}

proof fn lemma_bare_again(s: Seq<char>, i: int, scan: Scan)
    requires
        0 <= i,
        sound(scan),
    ensures
        bare_from(bare_from(s, i, scan), 0, kept(scan)) == bare_from(s, i, scan),
    decreases s.len() - i,
{
    if i < s.len() {
        let c = s[i];
        let t = bare_from(s, i, scan);
        if i + 1 < s.len() {
            lemma_bare_again(s, i + 2, Scan::Code);
            lemma_bare_again(s, i + 2, Scan::Line);
            lemma_bare_again(s, i + 2, Scan::Block);
            lemma_bare_again(s, i + 2, scan);
        }
        match scan {
            Scan::Block => {
                lemma_bare_again(s, i + 1, Scan::Block);
                if !(c == '*' && i + 1 < s.len() && s[i + 1] == '/') && c == '\n' {
                    lemma_bare_shift(seq![c], bare_from(s, i + 1, Scan::Block), 0, Scan::Code);
                }
            },
            Scan::Line => {
                lemma_bare_again(s, i + 1, Scan::Code);
                lemma_bare_again(s, i + 1, Scan::Line);
                if c == '\n' {
                    lemma_bare_shift(seq![c], bare_from(s, i + 1, Scan::Code), 0, Scan::Code);
                }
            },
            Scan::Text(quote) => {
                lemma_bare_again(s, i + 1, scan);
                lemma_bare_again(s, i + 1, Scan::Code);
                if c == '\\' && i + 1 < s.len() {
                    lemma_bare_shift(seq![c, s[i + 1]], bare_from(s, i + 2, scan), 0, scan);
                } else if c == quote {
                    lemma_bare_shift(seq![c], bare_from(s, i + 1, Scan::Code), 0, Scan::Code);
                } else {
                    lemma_bare_shift(seq![c], bare_from(s, i + 1, scan), 0, scan);
                }
            },
            Scan::Code => {
                lemma_bare_again(s, i + 1, Scan::Code);
                if c == '\'' || c == '"' {
                    lemma_bare_again(s, i + 1, Scan::Text(c));
                    lemma_bare_shift(
                        seq![c],
                        bare_from(s, i + 1, Scan::Text(c)),
                        0,
                        Scan::Text(c),
                    );
                } else if c == '/' && i + 1 < s.len() && (s[i + 1] == '/' || s[i + 1] == '*') {
                } else {
                    let rest = bare_from(s, i + 1, Scan::Code);
                    lemma_bare_shift(seq![c], rest, 0, Scan::Code);
                    if c == '/' && i + 1 < s.len() {
                        // What follows is no slash, so it is kept.
                        assert(rest[0] == s[i + 1]);
                        assert(t[1] == s[i + 1]);
                    }
                }
            },
        }
    }
}

/// A script without its comments has none to strip.
pub proof fn comments_are_stripped_once(text: Seq<char>)
    ensures
        sans_comments(sans_comments(text)) == sans_comments(text),
{
    lemma_bare_again(text, 0, Scan::Code);
}

// ---- literals --------------------------------------------------------------

/// The quoted literals from `i` on, after those before.
pub open spec fn quoted_from(s: Seq<char>, i: int, out: Seq<Seq<char>>) -> Seq<Seq<char>>
    decreases s.len() + 1 - i,
{
    if i < 0 || i >= s.len() {
        out
    } else if s[i] == '\'' || s[i] == '"' {
        let end = run_end(s, Class::Not(s[i]), i + 1);
        if i < end <= s.len() {
            quoted_from(s, end + 1, out.push(s.subrange(i + 1, end)))
        } else {
            out
        }
    } else {
        quoted_from(s, i + 1, out)
    }
}

/// Every single- or double-quoted literal on a line.
pub open spec fn literals_of(line: Seq<char>) -> Seq<Seq<char>> {
    quoted_from(line, 0, seq![])
}

/// Every single- or double-quoted literal on a line.
pub fn quoted(line: &str) -> (r: Vec<String>)
    ensures
        r.deep_view() == literals_of(line@),
{
    let cs = chars(line);
    let mut out: Vec<String> = none_of();
    let mut i: usize = 0;
    while i < cs.len()
        invariant
            cs@ == line@,
            i <= cs@.len(),
            literals_of(line@) == quoted_from(line@, i as int, out.deep_view()),
        decreases cs@.len() - i,
    {
        let c: char = cs[i];
        if c == '\'' || c == '"' {
            let mut end: usize = i + 1;
            while end < cs.len() && cs[end] != c
                invariant
                    cs@ == line@,
                    i < end <= cs@.len(),
                    run_end(line@, Class::Not(c), i + 1) == run_end(
                        line@,
                        Class::Not(c),
                        end as int,
                    ),
                decreases cs@.len() - end,
            {
                end = end + 1;
            }
            put(&mut out, string_of(&cs, i + 1, end));
            if end >= cs.len() {
                assert(literals_of(line@) == quoted_from(line@, end + 1, out.deep_view()));
                return out;
            }
            i = end + 1;
        } else {
            i = i + 1;
        }
    }
    out
}

/// The first quoted literal in `text`.
pub open spec fn first_of(text: Seq<char>) -> Option<Seq<char>> {
    let all = literals_of(text);
    if all.len() > 0 {
        Some(all[0])
    } else {
        None
    }
}

/// The first quoted literal in `text`.
pub fn first_quoted(text: &str) -> (r: Option<String>)
    ensures
        r.deep_view() == first_of(text@),
{
    let mut all = quoted(text);
    if all.len() > 0 {
        assert(all.deep_view()[0] == all@[0]@);
        Some(all.remove(0))
    } else {
        None
    }
}

/// The first quoted literal in `text`, and what follows its closing quote.
pub open spec fn literal_and_rest(text: Seq<char>) -> Option<(Seq<char>, Seq<char>)> {
    let start = run_end(text, Class::Neither('\'', '"'), 0);
    if start < text.len() {
        cut(text.skip(start + 1), seq![text[start]])
    } else {
        None
    }
}

/// The first quoted literal in `text`, and what follows its closing quote.
pub fn first_literal(text: &str) -> (r: Option<(&str, &str)>)
    ensures
        r.deep_view() == literal_and_rest(text@),
{
    let start: usize = run(text, Class::Neither('\'', '"'));
    let n: usize = text.unicode_len();
    if start >= n {
        return None;
    }
    proof {
        lemma_run_end(text@, Class::Neither('\'', '"'), 0);
        reveal_strlit("\"");
        assert("\""@ =~= seq!['"']);
        reveal_strlit("'");
        assert("'"@ =~= seq!['\'']);
    }
    if text.get_char(start) == '"' {
        split_once(skip(text, start + 1), "\"")
    } else {
        split_once(skip(text, start + 1), "'")
    }
}

// ---- blocks ----------------------------------------------------------------

/// What opens a block.
pub enum Block {
    /// `test { }`, and the `tasks.test` / `tasks.withType(Test)` spellings of
    /// it.
    Test,
    /// `jar { }`, and the `tasks.jar` / `tasks.named('jar')` /
    /// `tasks.withType(Jar)` spellings of it.
    Jar,
    /// `kotlin { }`.
    Kotlin,
}

/// What opens a block.
pub enum BlockModel {
    Test,
    Jar,
    Kotlin,
}

impl DeepView for Block {
    type V = BlockModel;

    open spec fn deep_view(&self) -> BlockModel {
        match self {
            Block::Test => BlockModel::Test,
            Block::Jar => BlockModel::Jar,
            Block::Kotlin => BlockModel::Kotlin,
        }
    }
}

/// The line opens a block of that kind.
pub open spec fn opens(kind: BlockModel, header: Seq<char>) -> bool {
    let h = dense(header);
    match kind {
        BlockModel::Test => starts(h, "test{"@) || starts(h, "tasks.test"@) || starts(
            h,
            "tasks.withType(Test"@,
        ) || starts(h, "tasks.withType<Test>"@) || starts(h, "tasks.named<Test>"@) || starts(
            h,
            "tasks.named('test'"@,
        ) || starts(h, "tasks.named(\"test\""@),
        BlockModel::Jar => starts(h, "jar{"@) || starts(h, "tasks.jar{"@) || starts(
            h,
            "tasks.named('jar')"@,
        ) || starts(h, "tasks.named(\"jar\")"@) || starts(h, "tasks.named<Jar>(\"jar\")"@)
            || starts(h, "tasks.getByName<Jar>(\"jar\")"@) || starts(h, "tasks.withType(Jar)"@)
            || starts(h, "tasks.withType<Jar>"@),
        BlockModel::Kotlin => starts(h, "kotlin{"@),
    }
}

/// Whether the line opens a block of that kind.
pub fn does_open(kind: &Block, header: &str) -> (r: bool)
    ensures
        r == opens(kind.deep_view(), header@),
{
    let text = without_space(header);
    let h = text.as_str();
    match kind {
        Block::Test => starts_with(h, "test{") || starts_with(h, "tasks.test") || starts_with(
            h,
            "tasks.withType(Test",
        ) || starts_with(h, "tasks.withType<Test>") || starts_with(h, "tasks.named<Test>")
            || starts_with(h, "tasks.named('test'") || starts_with(h, "tasks.named(\"test\""),
        Block::Jar => starts_with(h, "jar{") || starts_with(h, "tasks.jar{") || starts_with(
            h,
            "tasks.named('jar')",
        ) || starts_with(h, "tasks.named(\"jar\")") || starts_with(h, "tasks.named<Jar>(\"jar\")")
            || starts_with(h, "tasks.getByName<Jar>(\"jar\")") || starts_with(
            h,
            "tasks.withType(Jar)",
        ) || starts_with(h, "tasks.withType<Jar>"),
        Block::Kotlin => starts_with(h, "kotlin{"),
    }
}

/// `a - b`, and 0 where that is less.
pub open spec fn less(a: int, b: int) -> int {
    if a > b {
        a - b
    } else {
        0
    }
}

/// How many blocks are open after a line, with `depth` open before it.
pub open spec fn deeper(depth: int, line: Seq<char>) -> int {
    less(depth + tally(line, '{'), tally(line, '}') as int)
}

/// How many blocks are open after a line, with `depth` open before it.
pub fn depth_after(depth: u128, line: &str) -> (r: u128)
    requires
        depth <= u128::MAX - usize::MAX,
    ensures
        r == deeper(depth as int, line@),
        r <= depth + usize::MAX,
{
    let opened: usize = count(line, '{');
    let closed: usize = count(line, '}');
    let d: u128 = depth + (opened as u128);
    if d > (closed as u128) {
        d - (closed as u128)
    } else {
        0
    }
}

/// How deep inside a block of that kind the scan is after a line, with
/// `depth` before it.
pub open spec fn depth_next(kind: BlockModel, depth: int, line: Seq<char>) -> int {
    if depth > 0 {
        deeper(depth, line)
    } else if opens(kind, trimmed(line)) && tally(line, '{') > 0 {
        deeper(0, line)
    } else {
        0
    }
}

/// How deep inside a block of that kind the scan is after a line, with
/// `depth` before it.
pub fn next_depth(kind: &Block, depth: u128, line: &str) -> (r: u128)
    requires
        depth <= u128::MAX - usize::MAX,
    ensures
        r == depth_next(kind.deep_view(), depth as int, line@),
        r <= depth + usize::MAX,
{
    if depth > 0 {
        depth_after(depth, line)
    } else if does_open(kind, trim(line)) && count(line, '{') > 0 {
        depth_after(0, line)
    } else {
        0
    }
}

/// The lines from `i` on that stand inside a block of that kind, after those
/// before.
pub open spec fn inside_from(
    kind: BlockModel,
    lines: Seq<Seq<char>>,
    i: int,
    depth: int,
    out: Seq<Seq<char>>,
) -> Seq<Seq<char>>
    decreases lines.len() - i,
{
    if i < 0 || i >= lines.len() {
        out
    } else {
        let next = depth_next(kind, depth, lines[i]);
        inside_from(
            kind,
            lines,
            i + 1,
            next,
            if depth > 0 && next > 0 {
                out.push(lines[i])
            } else {
                out
            },
        )
    }
}

/// The lines inside every block of that kind.
pub open spec fn lines_inside(kind: BlockModel, script: Seq<char>) -> Seq<Seq<char>> {
    inside_from(kind, line_seq(script), 0, 0, seq![])
}

/// The lines inside every block that a line of that kind opens.
pub fn blocks_where<'a>(script: &'a str, kind: &Block) -> (r: Vec<&'a str>)
    ensures
        r.deep_view() == lines_inside(kind.deep_view(), script@),
{
    let list = lines(script);
    let ghost all = list.deep_view();
    let ghost k = kind.deep_view();
    let mut out: Vec<&'a str> = none_of();
    let mut depth: u128 = 0;
    let mut i: usize = 0;
    while i < list.len()
        invariant
            all == list.deep_view(),
            k == kind.deep_view(),
            i <= list@.len(),
            depth <= i * 0xffff_ffff_ffff_ffff,
            inside_from(k, all, 0, 0, seq![]) == inside_from(
                k,
                all,
                i as int,
                depth as int,
                out.deep_view(),
            ),
        decreases list@.len() - i,
    {
        assert(all[i as int] == list@[i as int]@);
        let next: u128 = next_depth(kind, depth, list[i]);
        // The line that closes the block is punctuation, not content.
        if depth > 0 && next > 0 {
            put(&mut out, list[i]);
        }
        depth = next;
        i = i + 1;
    }
    out
}

/// How many blocks are open after a line outside those that are read, with
/// `depth` open before it. Braces in string literals open nothing.
pub open spec fn outer_depth(depth: int, line: Seq<char>) -> int {
    if depth + delta(line) > 0 {
        depth + delta(line)
    } else {
        0
    }
}

fn next_outer_depth(depth: u128, line: &str) -> (r: u128)
    requires
        depth <= 0xffff_ffff_ffff_ffff * 0xffff_ffff_ffff_ffff,
    ensures
        r == outer_depth(depth as int, line@),
        r <= depth + usize::MAX,
{
    // A text is never longer than a `usize` can say.
    let _size: usize = line.unicode_len();
    let change: i128 = brace_delta(line);
    if change >= 0 {
        depth + (change as u128)
    } else {
        let less: u128 = (-change) as u128;
        if depth > less {
            depth - less
        } else {
            0
        }
    }
}

/// The lines, from the `i`th on, inside the top-level blocks that a line which
/// starts with `name` opens, after those before. `depth` blocks are open
/// before the `i`th, and the outermost is such a block where `inside`.
pub open spec fn top_lines_from(
    name: Seq<char>,
    lines: Seq<Seq<char>>,
    i: int,
    depth: int,
    inside: bool,
    out: Seq<Seq<char>>,
) -> Seq<Seq<char>>
    decreases lines.len() - i,
{
    if i < 0 || i >= lines.len() {
        out
    } else if inside {
        let next = deeper(depth, lines[i]);
        if next > 0 {
            top_lines_from(name, lines, i + 1, next, true, out.push(lines[i]))
        } else {
            top_lines_from(name, lines, i + 1, 0, false, out)
        }
    } else if depth == 0 && starts(trimmed(lines[i]), name) && tally(lines[i], '{') > 0 {
        let next = deeper(0, lines[i]);
        top_lines_from(name, lines, i + 1, next, next > 0, out)
    } else {
        top_lines_from(name, lines, i + 1, outer_depth(depth, lines[i]), false, out)
    }
}

/// The lines inside the top-level `name { ... }` blocks.
pub open spec fn top_lines(name: Seq<char>, script: Seq<char>) -> Seq<Seq<char>> {
    top_lines_from(name, line_seq(script), 0, 0, false, seq![])
}

/// The lines inside a top-level `name { ... }` block, brace-balanced.
pub fn block_lines<'a>(script: &'a str, name: &str) -> (r: Vec<&'a str>)
    ensures
        r.deep_view() == top_lines(name@, script@),
{
    let list = lines(script);
    let ghost all = list.deep_view();
    let mut out: Vec<&'a str> = none_of();
    let mut depth: u128 = 0;
    let mut inside = false;
    let mut i: usize = 0;
    while i < list.len()
        invariant
            all == list.deep_view(),
            i <= list@.len(),
            depth <= i * 0xffff_ffff_ffff_ffff,
            top_lines_from(name@, all, 0, 0, false, seq![]) == top_lines_from(
                name@,
                all,
                i as int,
                depth as int,
                inside,
                out.deep_view(),
            ),
        decreases list@.len() - i,
    {
        let line = list[i];
        assert(all[i as int] == line@);
        assert(i * 0xffff_ffff_ffff_ffff <= 0xffff_ffff_ffff_ffff * 0xffff_ffff_ffff_ffff)
            by (nonlinear_arith)
            requires
                i <= 0xffff_ffff_ffff_ffff,
        ;
        if inside {
            depth = depth_after(depth, line);
            // The line that closes the block is punctuation, not content.
            inside = depth > 0;
            if inside {
                put(&mut out, line);
            }
        } else if depth == 0 && starts_with(trim(line), name) && count(line, '{') > 0 {
            depth = depth_after(0, line);
            inside = depth > 0;
        } else {
            depth = next_outer_depth(depth, line);
        }
        i = i + 1;
    }
    out
}

/// How many blocks are open before the `n`th line, with none open before the
/// `i`th.
pub open spec fn outer_at(lines: Seq<Seq<char>>, i: int, n: int) -> int
    decreases n - i,
{
    if n <= i {
        0
    } else {
        outer_depth(outer_at(lines, i, n - 1), lines[n - 1])
    }
}

/// A block inside another block is not a top-level one: nothing is read from
/// a block that another line opens, up to where it closes.
pub proof fn nested_blocks_are_not_read(
    name: Seq<char>,
    lines: Seq<Seq<char>>,
    i: int,
    n: int,
    out: Seq<Seq<char>>,
)
    requires
        0 <= i < n <= lines.len(),
        !starts(trimmed(lines[i]), name),
        forall|k: int| i < k < n ==> #[trigger] outer_at(lines, i, k) > 0,
    ensures
        top_lines_from(name, lines, i, 0, false, out) == top_lines_from(
            name,
            lines,
            n,
            outer_at(lines, i, n),
            false,
            out,
        ),
    decreases n - i,
{
    assert(outer_at(lines, i, i) == 0);
    if n > i + 1 {
        nested_blocks_are_not_read(name, lines, i, n - 1, out);
        assert(outer_at(lines, i, n - 1) > 0);
    }
}

// ---- values ----------------------------------------------------------------

/// The whole number right after `needle`.
pub open spec fn number_past(line: Seq<char>, needle: Seq<char>) -> Option<nat> {
    match cut(line, needle) {
        None => None,
        Some((_, rest)) => {
            let piece = match cut(rest, needle) {
                Some((p, _)) => p,
                None => rest,
            };
            number(
                head(sans_head(piece, Class::Either('(', ' ')), Class::Digit),
                u32::MAX as nat,
            )
        },
    }
}

/// A number of at most 32 bits.
pub open spec fn as_number(n: Option<u32>) -> Option<nat> {
    match n {
        Some(n) => Some(n as nat),
        None => None,
    }
}

/// The 32-bit number that `s` is.
pub fn parse_u32(s: &str) -> (r: Option<u32>)
    ensures
        as_number(r) == number(s@, u32::MAX as nat),
{
    match parse_number(s, u32::MAX as u64) {
        Some(n) => Some(n as u32),
        None => None,
    }
}

/// The whole number right after `needle`: `jvmToolchain(21)`,
/// `JavaLanguageVersion.of(17)`.
pub fn number_after(line: &str, needle: &str) -> (r: Option<u32>)
    ensures
        as_number(r) == number_past(line@, needle@),
{
    let Some((_, rest)) = split_once(line, needle) else {
        return None;
    };
    let piece = match split_once(rest, needle) {
        Some((p, _)) => p,
        None => rest,
    };
    parse_u32(take_run(skip_run(piece, Class::Either('(', ' ')), Class::Digit))
}

/// What a line assigns to `name`.
pub open spec fn assigned_on(line: Seq<char>, name: Seq<char>) -> Option<Seq<char>> {
    match after_prefix(trimmed(line), name) {
        None => None,
        Some(rest) => match after_prefix(left(rest), "="@) {
            None => None,
            Some(v) => {
                let value = match first_of(trimmed(v)) {
                    Some(l) => l,
                    None => sans_tail(trimmed(v), Class::OneOf('(', ')', ';', ';')),
                };
                if value.len() > 0 {
                    Some(value)
                } else {
                    None
                }
            },
        },
    }
}

/// What the first line, from the `i`th on, that assigns `name` gives it.
pub open spec fn assigned_from(lines: Seq<Seq<char>>, name: Seq<char>, i: int) -> Option<Seq<char>>
    decreases lines.len() - i,
{
    if i < 0 || i >= lines.len() {
        None
    } else {
        match assigned_on(lines[i], name) {
            Some(v) => Some(v),
            None => assigned_from(lines, name, i + 1),
        }
    }
}

/// The value of a `name = <literal>` assignment anywhere in the script.
pub open spec fn assigned_in(script: Seq<char>, name: Seq<char>) -> Option<Seq<char>> {
    assigned_from(line_seq(script), name, 0)
}

fn read_assigned(line: &str, name: &str) -> (r: Option<String>)
    ensures
        r.deep_view() == assigned_on(line@, name@),
{
    let Some(rest) = strip_prefix(trim(line), name) else {
        return None;
    };
    let Some(v) = strip_prefix(trim_start(rest), "=") else {
        return None;
    };
    let value = match first_quoted(trim(v)) {
        Some(l) => l,
        None => drop_run(trim(v), Class::OneOf('(', ')', ';', ';')).to_owned(),
    };
    if value.as_str().is_empty() {
        None
    } else {
        Some(value)
    }
}

/// The value of a `name = <literal>` assignment anywhere in the script.
pub fn assignment(script: &str, name: &str) -> (r: Option<String>)
    ensures
        r.deep_view() == assigned_in(script@, name@),
{
    let list = lines(script);
    let ghost all = list.deep_view();
    let mut i: usize = 0;
    while i < list.len()
        invariant
            all == list.deep_view(),
            all == line_seq(script@),
            i <= list@.len(),
            assigned_from(all, name@, 0) == assigned_from(all, name@, i as int),
        decreases list@.len() - i,
    {
        assert(all[i as int] == list@[i as int]@);
        if let Some(v) = read_assigned(list[i], name) {
            return Some(v);
        }
        i = i + 1;
    }
    None
}

/// The value of `key = value` or `key value` on one line of a block.
pub open spec fn set_on(line: Seq<char>, key: Seq<char>) -> Option<Seq<char>> {
    match after_prefix(line, key) {
        None => None,
        Some(rest) => {
            let value = match after_prefix(left(rest), "="@) {
                Some(v) => Some(v),
                None => if rest.len() > 0 && space(rest[0]) {
                    Some(rest)
                } else {
                    None
                },
            };
            match value {
                Some(v) => Some(right(sans_tail(trimmed(v), Class::One(';')))),
                None => None,
            }
        },
    }
}

/// The value of `key = value` or `key value` on one line of a Gradle block, in
/// either DSL; `None` when the line sets something else.
pub fn setting<'a>(line: &'a str, key: &str) -> (r: Option<&'a str>)
    ensures
        r.deep_view() == set_on(line@, key@),
{
    let Some(rest) = strip_prefix(line, key) else {
        return None;
    };
    let value = match strip_prefix(trim_start(rest), "=") {
        Some(v) => v,
        None => {
            if rest.is_empty() || !crate::chars::is_space(rest.get_char(0)) {
                return None;
            }
            rest
        },
    };
    Some(trim_end(drop_run(trim(value), Class::One(';'))))
}

/// The word that a line starts with.
pub open spec fn first_word(line: Seq<char>) -> Option<Seq<char>> {
    let w = head(line, Class::Name);
    if w.len() > 0 {
        Some(w)
    } else {
        None
    }
}

/// The word that a line starts with.
pub fn leading_word(line: &str) -> (r: Option<&str>)
    ensures
        r.deep_view() == first_word(line@),
{
    let w = take_run(line, Class::Name);
    if w.is_empty() {
        None
    } else {
        Some(w)
    }
}

/// `implementation(libs.commons.lang3)` → `commons.lang3`
pub open spec fn alias_in(line: Seq<char>) -> Option<Seq<char>> {
    match cut(line, "libs."@) {
        None => None,
        Some((_, rest)) => {
            let alias = head(rest, Class::Alias);
            if alias.len() > 0 {
                Some(sans_tail(alias, Class::One('.')))
            } else {
                None
            }
        },
    }
}

/// `implementation(libs.commons.lang3)` → `commons.lang3`
pub fn catalog_reference(line: &str) -> (r: Option<&str>)
    ensures
        r.deep_view() == alias_in(line@),
{
    let Some((_, rest)) = split_once(line, "libs.") else {
        return None;
    };
    let alias = take_run(rest, Class::Alias);
    if alias.is_empty() {
        None
    } else {
        Some(drop_run(alias, Class::One('.')))
    }
}

// ---- coordinates -----------------------------------------------------------

/// Each trimmed.
pub open spec fn all_trimmed(parts: Seq<Seq<char>>) -> Seq<Seq<char>> {
    Seq::new(parts.len(), |i: int| trimmed(parts[i]))
}

/// None of them is empty.
pub open spec fn none_empty(parts: Seq<Seq<char>>) -> bool {
    forall|i: int| 0 <= i < parts.len() ==> (#[trigger] parts[i]).len() > 0
}

/// The parts of a coordinate.
pub open spec fn coordinate(text: Seq<char>) -> Seq<Seq<char>> {
    all_trimmed(pieces(text, ':'))
}

fn split_coordinate(text: &str) -> (r: Vec<&str>)
    ensures
        r.deep_view() == coordinate(text@),
{
    let parts = split(text, ':');
    let ghost all = parts.deep_view();
    let mut out: Vec<&str> = none_of();
    let mut i: usize = 0;
    while i < parts.len()
        invariant
            all == parts.deep_view(),
            i <= parts@.len(),
            out.deep_view() =~= all_trimmed(all).take(i as int),
        decreases parts@.len() - i,
    {
        put(&mut out, trim(parts[i]));
        i = i + 1;
    }
    assert(all_trimmed(all).take(i as int) =~= all_trimmed(all));
    out
}

fn has_empty(parts: &Vec<&str>) -> (r: bool)
    ensures
        r == !none_empty(parts.deep_view()),
{
    let ghost all = parts.deep_view();
    let mut i: usize = 0;
    while i < parts.len()
        invariant
            all == parts.deep_view(),
            i <= parts@.len(),
            forall|j: int| 0 <= j < i ==> (#[trigger] all[j]).len() > 0,
        decreases parts@.len() - i,
    {
        assert(all[i as int] == parts@[i as int]@);
        if parts[i].is_empty() {
            assert(all[i as int].len() == 0);
            return true;
        }
        i = i + 1;
    }
    false
}

/// The dependency that `g:a:v`, `g:a:v:classifier` or `g:a:v@jar` names.
pub open spec fn gav_of(text: Seq<char>) -> Option<DependencyModel> {
    if includes(text, '$') {
        None
    } else {
        let (t, good) = match cut(text, "@"@) {
            Some((t, ext)) => (t, ext == "jar"@),
            None => (text, true),
        };
        let parts = coordinate(t);
        if good && (parts.len() == 3 || parts.len() == 4) && none_empty(parts) {
            Some(
                DependencyModel {
                    classifier: if parts.len() == 4 {
                        Some(parts[3])
                    } else {
                        None
                    },
                    ..plain_dependency(parts[0], parts[1], parts[2])
                },
            )
        } else {
            None
        }
    }
}

/// `g:a:v`, `g:a:v:classifier`, or `g:a:v@jar`.
pub fn parse_gav(text: &str) -> (r: Option<Dependency>)
    ensures
        r.deep_view() == gav_of(text@),
{
    // `"com.example:thing:$version"` is a Groovy template, not a coordinate.
    // Accepting it would put a literal `$version` in the manifest, which is a
    // worse outcome than saying jrs could not read the line.
    if has_char(text, '$') {
        return None;
    }
    let t = match split_once(text, "@") {
        Some((t, ext)) => {
            if !same(ext, "jar") {
                return None;
            }
            t
        },
        None => text,
    };
    let parts = split_coordinate(t);
    let ghost all = parts.deep_view();
    assert(all.len() == parts@.len());
    if !(parts.len() == 3 || parts.len() == 4) || has_empty(&parts) {
        return None;
    }
    assert(all[0] == parts@[0]@ && all[1] == parts@[1]@ && all[2] == parts@[2]@);
    let mut dep = Dependency::new(parts[0], parts[1], parts[2]);
    if parts.len() == 4 {
        assert(all[3] == parts@[3]@);
        dep.classifier = Some(parts[3].to_owned());
    }
    Some(dep)
}

/// The dependency that `g:a` names, without a version.
pub open spec fn ga_of(text: Seq<char>) -> Option<DependencyModel> {
    let parts = coordinate(text);
    if includes(text, '$') || includes(text, '@') || parts.len() != 2 || !none_empty(parts) {
        None
    } else {
        Some(plain_dependency(parts[0], parts[1], ""@))
    }
}

/// `g:a`: a library whose version a platform or BOM supplies.
pub fn parse_ga(text: &str) -> (r: Option<Dependency>)
    ensures
        r.deep_view() == ga_of(text@),
{
    if has_char(text, '$') || has_char(text, '@') {
        return None;
    }
    let parts = split_coordinate(text);
    let ghost all = parts.deep_view();
    assert(all.len() == parts@.len());
    if parts.len() != 2 || has_empty(&parts) {
        return None;
    }
    assert(all[0] == parts@[0]@ && all[1] == parts@[1]@);
    Some(Dependency::new(parts[0], parts[1], ""))
}

/// The value of `key: 'value'`.
pub open spec fn field_of(line: Seq<char>, key: Seq<char>) -> Option<Seq<char>> {
    match found(line, key) {
        Some(i) => first_of(line.skip(i)),
        None => None,
    }
}

fn read_field(line: &str, key: &str) -> (r: Option<String>)
    ensures
        r.deep_view() == field_of(line@, key@),
{
    match find(line, key) {
        Some(i) => first_quoted(skip(line, i)),
        None => None,
    }
}

/// The dependency of the map notation.
pub open spec fn map_of(line: Seq<char>) -> Option<DependencyModel> {
    match (field_of(line, "group:"@), field_of(line, "name:"@)) {
        (Some(group), Some(name)) => Some(
            DependencyModel {
                classifier: field_of(line, "classifier:"@),
                ..plain_dependency(
                    group,
                    name,
                    match field_of(line, "version:"@) {
                        Some(v) => v,
                        None => ""@,
                    },
                )
            },
        ),
        _ => None,
    }
}

/// `implementation group: 'g', name: 'a', version: 'v'` (and `classifier:`).
/// Without `version:`, the version is left to `[managed]`.
pub fn parse_map_notation(line: &str) -> (r: Option<Dependency>)
    ensures
        r.deep_view() == map_of(line@),
{
    let Some(group) = read_field(line, "group:") else {
        return None;
    };
    let Some(name) = read_field(line, "name:") else {
        return None;
    };
    let version = match read_field(line, "version:") {
        Some(v) => v,
        None => "".to_owned(),
    };
    let mut dep = Dependency::new(group.as_str(), name.as_str(), version.as_str());
    dep.classifier = read_field(line, "classifier:");
    Some(dep)
}

/// The Java version that a text names.
pub open spec fn java_of(raw: Seq<char>) -> Option<nat> {
    let t = sans_tail(
        sans_head(trimmed(raw), Class::Either('\'', '"')),
        Class::Either('\'', '"'),
    );
    number(
        match after_prefix(t, "JavaVersion.VERSION_"@) {
            Some(rest) => sans_prefix(rest, "1_"@),
            None => sans_prefix(t, "1."@),
        },
        u32::MAX as nat,
    )
}

/// `JavaVersion.VERSION_21`, `21`, `'1.8'`, `JavaVersion.VERSION_1_8`.
pub fn java_version(raw: &str) -> (r: Option<u32>)
    ensures
        as_number(r) == java_of(raw@),
{
    let t = drop_run(
        skip_run(trim(raw), Class::Either('\'', '"')),
        Class::Either('\'', '"'),
    );
    parse_u32(
        match strip_prefix(t, "JavaVersion.VERSION_") {
            Some(rest) => without_prefix(rest, "1_"),
            None => without_prefix(t, "1."),
        },
    )
}

// ---- names -----------------------------------------------------------------

/// The first part of a host or a path that names something.
pub open spec fn naming_part(s: Seq<char>) -> Seq<char>
    decreases s.len(),
{
    let part = head(s, Class::Neither('/', '.'));
    if part.len() > 0 && part != "www"@ {
        part
    } else if part.len() >= s.len() {
        "repository"@
    } else {
        naming_part(s.skip(part.len() as int + 1))
    }
}

/// A readable name for a repository URL.
pub open spec fn name_of_url(url: Seq<char>) -> Seq<char> {
    naming_part(sans_all(sans_all(url, "https://"@), "http://"@))
}

/// A readable name for a repository URL, since Gradle rarely gives one.
pub fn repository_name(url: &str) -> (r: String)
    ensures
        r@ == name_of_url(url@),
{
    proof {
        reveal_strlit("https://");
        reveal_strlit("http://");
    }
    let mut rest = strip_all(strip_all(url, "https://"), "http://");
    loop
        invariant
            name_of_url(url@) == naming_part(rest@),
        decreases rest@.len(),
    {
        proof {
            lemma_run_bounds(rest@, Class::Neither('/', '.'));
        }
        let part = take_run(rest, Class::Neither('/', '.'));
        if !part.is_empty() && !same(part, "www") {
            return part.to_owned();
        }
        let n: usize = part.unicode_len();
        if n >= rest.unicode_len() {
            return "repository".to_owned();
        }
        rest = skip(rest, n + 1);
    }
}

/// The names of a Gradle build's script.
pub fn build_file_names() -> (r: [&'static str; 2])
    ensures
        r@ =~= seq!["build.gradle", "build.gradle.kts"],
{
    ["build.gradle", "build.gradle.kts"]
}

} // verus!
