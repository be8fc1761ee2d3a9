//! TOML at its plainest: a document of tables with a line for each key, as
//! jrs writes one.

use crate::chars::alphanumeric;
use crate::coverage::{nearest_to, ratio_text};
use crate::render::{comment_lines, line_of, quoted, quoted_list};
use crate::text::{decimal, joined};
use crate::value::{Entries, Tree, TreeKind};
use vstd::prelude::*;

verus! {

// ---- a document ------------------------------------------------------------

/// A key, and whether it is written in quotes.
pub struct Key {
    pub name: Seq<char>,
    pub quoted: bool,
}

/// A value without a table in it.
pub enum Scalar {
    Text(Seq<char>),
    Number(nat),
    /// A number from 0 to 1, in ten-thousandths.
    Ratio(nat),
    Flag(bool),
    Texts(Seq<Seq<char>>),
}

/// The value of a line.
pub enum Plain {
    One(Scalar),
    /// An inline table.
    Fields(Seq<(Key, Scalar)>),
}

/// A table: its lines, then the tables in it. One that has no lines may go
/// without a header of its own, where there is a table in it.
pub struct Block {
    pub header: bool,
    pub lines: Seq<(Key, Plain)>,
    pub inner: Seq<(Seq<char>, Block)>,
}

/// A document's tables, by their names.
pub type Sheet = Seq<(Seq<char>, Block)>;

// ---- how it is written -----------------------------------------------------

pub open spec fn key_text(k: Key) -> Seq<char> {
    if k.quoted {
        quoted(k.name)
    } else {
        k.name
    }
}

pub open spec fn scalar_text(v: Scalar) -> Seq<char> {
    match v {
        Scalar::Text(s) => quoted(s),
        Scalar::Number(n) => decimal(n),
        Scalar::Ratio(n) => ratio_text(n),
        Scalar::Flag(b) => if b {
            "true"@
        } else {
            "false"@
        },
        Scalar::Texts(a) => quoted_list(a),
    }
}

/// `key = value` for each field.
pub open spec fn field_texts(fields: Seq<(Key, Scalar)>) -> Seq<Seq<char>> {
    Seq::new(fields.len(), |i: int| key_text(fields[i].0) + " = "@ + scalar_text(fields[i].1))
}

pub open spec fn plain_text(v: Plain) -> Seq<char> {
    match v {
        Plain::One(s) => scalar_text(s),
        Plain::Fields(fields) => if fields.len() == 0 {
            "{}"@
        } else {
            "{ "@ + joined(field_texts(fields), ", "@) + " }"@
        },
    }
}

/// The first `n` lines.
pub open spec fn lines_text(lines: Seq<(Key, Plain)>, n: int) -> Seq<char>
    decreases n,
{
    if n <= 0 {
        seq![]
    } else {
        lines_text(lines, n - 1) + line_of(key_text(lines[n - 1].0), plain_text(lines[n - 1].1))
    }
}

/// A table, under the name that leads to it.
pub open spec fn block_text(path: Seq<char>, b: Block) -> Seq<char>
    decreases b,
{
    let own = if b.header {
        "\n["@ + path + "]\n"@ + lines_text(b.lines, b.lines.len() as int)
    } else {
        seq![]
    };
    own + inner_text(path, b.inner, b.inner.len() as int)
}

/// The first `n` tables in a table.
pub open spec fn inner_text(path: Seq<char>, inner: Seq<(Seq<char>, Block)>, n: int) -> Seq<char>
    decreases inner, n,
{
    if n <= 0 || n > inner.len() {
        seq![]
    } else {
        inner_text(path, inner, n - 1) + block_text(path + "."@ + inner[n - 1].0, inner[n - 1].1)
    }
}

/// The first `n` tables of a document.
pub open spec fn sheet_text(doc: Sheet, n: int) -> Seq<char>
    decreases n,
{
    if n <= 0 || n > doc.len() {
        seq![]
    } else {
        sheet_text(doc, n - 1) + block_text(doc[n - 1].0, doc[n - 1].1)
    }
}

/// `text` is the document: from its first header on, or under comments.
pub open spec fn writes(text: Seq<char>, doc: Sheet) -> bool {
    ||| "\n"@ + text == sheet_text(doc, doc.len() as int)
    ||| exists|c: Seq<Seq<char>>|
        plain_comments(c) && text == #[trigger] comment_lines(c, c.len() as int) + sheet_text(
            doc,
            doc.len() as int,
        )
}

// ---- what can be written so ------------------------------------------------

/// A control character. TOML allows none but the tab.
pub open spec fn control(c: char) -> bool {
    (c as u32) < 32 || c as u32 == 127
}

/// A text that its quoted form stands for.
pub open spec fn quotable(s: Seq<char>) -> bool {
    forall|i: int| 0 <= i < s.len() ==> !control(#[trigger] s[i]) || s[i] == '\t' || s[i] == '\n'
}

pub open spec fn plain_comments(c: Seq<Seq<char>>) -> bool {
    forall|k: int, i: int|
        0 <= k < c.len() && 0 <= i < c[k].len() ==> !control(#[trigger] c[k][i]) || c[k][i] == '\t'
}

/// A name that needs no quotes.
pub open spec fn bare(s: Seq<char>) -> bool {
    &&& s.len() > 0
    &&& forall|i: int|
        0 <= i < s.len() ==> alphanumeric(#[trigger] s[i]) || s[i] == '-' || s[i] == '_'
}

/// The key that, where it comes first, marks a table as a date and a time to
/// the `toml` crate.
pub const DATE_MARK: &'static str = "$__toml_private_datetime";

pub open spec fn plain_key(k: Key) -> bool {
    if k.quoted {
        quotable(k.name)
    } else {
        bare(k.name)
    }
}

pub open spec fn plain_scalar(v: Scalar) -> bool {
    match v {
        Scalar::Text(s) => quotable(s),
        Scalar::Number(n) => n <= i64::MAX,
        Scalar::Ratio(n) => n <= 10000,
        Scalar::Flag(_) => true,
        Scalar::Texts(a) => forall|i: int| 0 <= i < a.len() ==> quotable(#[trigger] a[i]),
    }
}

pub open spec fn plain_fields(fields: Seq<(Key, Scalar)>) -> bool {
    &&& fields.len() > 0 ==> fields[0].0.name != DATE_MARK@
    &&& forall|i: int|
        0 <= i < fields.len() ==> plain_key((#[trigger] fields[i]).0) && plain_scalar(fields[i].1)
    &&& forall|i: int, j: int|
        0 <= i < j < fields.len() ==> (#[trigger] fields[i]).0.name != (#[trigger] fields[j]).0.name
}

pub open spec fn plain_value(v: Plain) -> bool {
    match v {
        Plain::One(s) => plain_scalar(s),
        Plain::Fields(fields) => plain_fields(fields),
    }
}

pub open spec fn plain_lines(lines: Seq<(Key, Plain)>) -> bool {
    &&& lines.len() > 0 ==> lines[0].0.name != DATE_MARK@
    &&& forall|i: int|
        0 <= i < lines.len() ==> plain_key((#[trigger] lines[i]).0) && plain_value(lines[i].1)
    &&& forall|i: int, j: int|
        0 <= i < j < lines.len() ==> (#[trigger] lines[i]).0.name != (#[trigger] lines[j]).0.name
}

/// Names that lead to tables, each to one.
pub open spec fn plain_names(inner: Seq<(Seq<char>, Block)>) -> bool {
    &&& forall|i: int| 0 <= i < inner.len() ==> bare((#[trigger] inner[i]).0)
    &&& forall|i: int, j: int|
        0 <= i < j < inner.len() ==> (#[trigger] inner[i]).0 != (#[trigger] inner[j]).0
}

/// A table that can be written, with at most `depth` levels of tables in it.
pub open spec fn plain_block(b: Block, depth: nat) -> bool
    decreases depth,
{
    &&& b.header || (b.lines.len() == 0 && b.inner.len() > 0)
    &&& plain_lines(b.lines)
    &&& plain_names(b.inner)
    &&& forall|i: int, j: int|
        0 <= i < b.lines.len() && 0 <= j < b.inner.len() ==> (#[trigger] b.lines[i]).0.name
            != (#[trigger] b.inner[j]).0
    &&& if depth == 0 {
        b.inner.len() == 0
    } else {
        forall|j: int|
            0 <= j < b.inner.len() ==> plain_block((#[trigger] b.inner[j]).1, (depth - 1) as nat)
    }
}

/// A document that can be written.
pub open spec fn plain_sheet(doc: Sheet) -> bool {
    &&& plain_names(doc)
    &&& forall|i: int| 0 <= i < doc.len() ==> plain_block((#[trigger] doc[i]).1, 2)
}

// ---- what it stands for ----------------------------------------------------

/// The tree stands for the value.
pub open spec fn scalar_is(t: Tree, v: Scalar) -> bool {
    match v {
        Scalar::Text(s) => t.kind == TreeKind::Text(s),
        Scalar::Number(n) => t.kind == TreeKind::Integer(n as i64),
        Scalar::Ratio(n) => t.kind is Float && nearest_to(t.kind->Float_0, n),
        Scalar::Flag(b) => t.kind == TreeKind::Boolean(b),
        Scalar::Texts(a) => {
            &&& t.kind is Array
            &&& t.kind->Array_0.len() == a.len()
            &&& forall|i: int|
                0 <= i < a.len() ==> (#[trigger] t.kind->Array_0[i]).kind == TreeKind::Text(a[i])
        },
    }
}

pub open spec fn fields_are(t: Entries, fields: Seq<(Key, Scalar)>) -> bool {
    &&& t.len() == fields.len()
    &&& forall|i: int|
        0 <= i < t.len() ==> (#[trigger] t[i]).0 == fields[i].0.name && scalar_is(
            t[i].1,
            fields[i].1,
        )
}

pub open spec fn plain_is(t: Tree, v: Plain) -> bool {
    match v {
        Plain::One(s) => scalar_is(t, s),
        Plain::Fields(fields) => t.kind is Table && fields_are(t.kind->Table_0, fields),
    }
}

/// The entries stand for the table: its lines, then the tables in it.
pub open spec fn block_is(t: Entries, b: Block) -> bool
    decreases b,
{
    &&& t.len() == b.lines.len() + b.inner.len()
    &&& forall|i: int|
        0 <= i < b.lines.len() ==> (#[trigger] t[i]).0 == b.lines[i].0.name && plain_is(
            t[i].1,
            b.lines[i].1,
        )
    &&& blocks_are(t.skip(b.lines.len() as int), b.inner)
}

/// The entries stand for the tables.
pub open spec fn blocks_are(t: Entries, inner: Seq<(Seq<char>, Block)>) -> bool
    decreases inner,
{
    &&& t.len() == inner.len()
    &&& forall|j: int|
        0 <= j < inner.len() ==> (#[trigger] t[j]).0 == inner[j].0 && t[j].1.kind is Table
            && block_is(t[j].1.kind->Table_0, inner[j].1)
}

} // verus!
