//! TOML documents: their values, and the reading of one from text.

use crate::sheet::{blocks_are, plain_sheet, writes, Sheet, DATE_MARK};
use crate::text::{none_of, put, same};
use vstd::prelude::*;

verus! {

// ---- values ----------------------------------------------------------------

/// What a TOML value stands for, and the value as TOML writes it.
pub struct Tree {
    pub kind: TreeKind,
    pub shown: Seq<char>,
}

/// What a TOML value stands for. A table keeps its entries in the order they
/// were declared.
pub enum TreeKind {
    Text(Seq<char>),
    Integer(i64),
    /// The bits of the number, and its plain decimal.
    Float(u64, Seq<char>),
    Boolean(bool),
    Datetime,
    Array(Seq<Tree>),
    Table(Seq<(Seq<char>, Tree)>),
}

/// A TOML value, and how TOML writes it.
#[derive(Debug)]
pub struct Datum {
    pub kind: Kind,
    pub shown: String,
}

#[derive(Debug)]
pub enum Kind {
    Text(String),
    Integer(i64),
    /// The bits of the number, and its plain decimal.
    Float(u64, String),
    Boolean(bool),
    Datetime,
    Array(Vec<Datum>),
    Table(Table),
}

/// A TOML table, in the order of its declarations.
#[derive(Debug)]
pub struct Table {
    pub entries: Vec<(String, Datum)>,
}

/// The tree that `v` is.
pub open spec fn tree(v: Datum) -> Tree
    decreases v,
{
    let kind = match v.kind {
        Kind::Text(s) => TreeKind::Text(s@),
        Kind::Integer(n) => TreeKind::Integer(n),
        Kind::Float(bits, plain) => TreeKind::Float(bits, plain@),
        Kind::Boolean(b) => TreeKind::Boolean(b),
        Kind::Datetime => TreeKind::Datetime,
        Kind::Array(a) => TreeKind::Array(
            Seq::new(
                a@.len(),
                |i: int|
                    if 0 <= i < a@.len() {
                        tree(a@[i])
                    } else {
                        arbitrary()
                    },
            ),
        ),
        Kind::Table(t) => TreeKind::Table(
            Seq::new(
                t.entries@.len(),
                |i: int|
                    if 0 <= i < t.entries@.len() {
                        (t.entries@[i].0@, tree(t.entries@[i].1))
                    } else {
                        arbitrary()
                    },
            ),
        ),
    };
    Tree { kind, shown: v.shown@ }
}

impl DeepView for Datum {
    type V = Tree;

    open spec fn deep_view(&self) -> Tree {
        tree(*self)
    }
}

/// The entries of a table.
pub type Entries = Seq<(Seq<char>, Tree)>;

impl DeepView for Table {
    type V = Entries;

    open spec fn deep_view(&self) -> Entries {
        Seq::new(self.entries@.len(), |i: int| (self.entries@[i].0@, tree(self.entries@[i].1)))
    }
}

impl Tree {
    /// The text that it is.
    pub open spec fn text(self) -> Option<Seq<char>> {
        match self.kind {
            TreeKind::Text(s) => Some(s),
            _ => None,
        }
    }

    /// The table that it is.
    pub open spec fn table(self) -> Option<Entries> {
        match self.kind {
            TreeKind::Table(t) => Some(t),
            _ => None,
        }
    }

    /// The array that it is.
    pub open spec fn array(self) -> Option<Seq<Tree>> {
        match self.kind {
            TreeKind::Array(a) => Some(a),
            _ => None,
        }
    }
}

impl Datum {
    /// The text that it is.
    pub fn as_str(&self) -> (r: Option<&str>)
        ensures
            r.deep_view() == self.deep_view().text(),
    {
        match &self.kind {
            Kind::Text(s) => Some(s.as_str()),
            _ => None,
        }
    }

    /// The table that it is.
    pub fn as_table(&self) -> (r: Option<&Table>)
        ensures
            r.deep_view() == self.deep_view().table(),
    {
        match &self.kind {
            Kind::Table(t) => {
                assert(self.deep_view().table()->0 =~= t.deep_view());
                Some(t)
            },
            _ => None,
        }
    }

    /// The array that it is.
    pub fn as_array(&self) -> (r: Option<&Vec<Datum>>)
        ensures
            r.deep_view() == self.deep_view().array(),
    {
        match &self.kind {
            Kind::Array(a) => {
                assert(self.deep_view().array()->0 =~= a.deep_view());
                Some(a)
            },
            _ => None,
        }
    }
}

/// What the first entry of `t` called `key` from `i` on holds.
pub open spec fn entry_from(t: Entries, key: Seq<char>, i: int) -> Option<Tree>
    decreases t.len() - i,
{
    if i < 0 || i >= t.len() {
        None
    } else if t[i].0 == key {
        Some(t[i].1)
    } else {
        entry_from(t, key, i + 1)
    }
}

/// What the entry of `t` called `key` holds.
pub open spec fn entry(t: Entries, key: Seq<char>) -> Option<Tree> {
    entry_from(t, key, 0)
}

impl Table {
    /// What `key` holds.
    pub fn get(&self, key: &str) -> (r: Option<&Datum>)
        ensures
            r.deep_view() == entry(self.deep_view(), key@),
    {
        let mut i: usize = 0;
        while i < self.entries.len()
            invariant
                i <= self.entries@.len(),
                entry(self.deep_view(), key@) == entry_from(self.deep_view(), key@, i as int),
            decreases self.entries@.len() - i,
        {
            if same(self.entries[i].0.as_str(), key) {
                return Some(&self.entries[i].1);
            }
            i = i + 1;
        }
        None
    }

    /// Whether there is a `key`.
    pub fn contains_key(&self, key: &str) -> (r: bool)
        ensures
            r == (entry(self.deep_view(), key@) is Some),
    {
        self.get(key).is_some()
    }
}

// ---- reading ---------------------------------------------------------------

/// Why a text is not TOML: where, as a byte offset, and what is wrong.
#[derive(Debug)]
pub struct SyntaxError {
    pub offset: Option<usize>,
    pub message: String,
}

impl DeepView for SyntaxError {
    type V = (Option<usize>, Seq<char>);

    open spec fn deep_view(&self) -> (Option<usize>, Seq<char>) {
        (self.offset, self.message@)
    }
}

#[verifier::external_type_specification]
#[verifier::external_body]
pub struct ExTomlValue(toml::Value);

/// What a value of the `toml` crate holds.
pub uninterp spec fn toml_tree(v: toml::Value) -> Tree;

/// What `toml::from_str` reads from a text as a table: its tree, or the start
/// of the error's span and the error's message.
pub uninterp spec fn toml_document(text: Seq<char>) -> Result<Tree, (Option<usize>, Seq<char>)>;

/// One layer of a `toml::Value`.
pub struct Node {
    pub kind: NodeKind,
    pub shown: String,
}

pub enum NodeKind {
    Text(String),
    Integer(i64),
    Float(u64, String),
    Boolean(bool),
    Datetime,
    Array(Vec<toml::Value>),
    Table(Vec<(String, toml::Value)>),
}

/// The tree that a layer is the top of.
pub open spec fn node_tree(n: Node) -> Tree {
    let kind = match n.kind {
        NodeKind::Text(s) => TreeKind::Text(s@),
        NodeKind::Integer(i) => TreeKind::Integer(i),
        NodeKind::Float(bits, plain) => TreeKind::Float(bits, plain@),
        NodeKind::Boolean(b) => TreeKind::Boolean(b),
        NodeKind::Datetime => TreeKind::Datetime,
        NodeKind::Array(a) => TreeKind::Array(Seq::new(a@.len(), |i: int| toml_tree(a@[i]))),
        NodeKind::Table(t) => TreeKind::Table(
            Seq::new(t@.len(), |i: int| (t@[i].0@, toml_tree(t@[i].1))),
        ),
    };
    Tree { kind, shown: n.shown@ }
}

/// The entries are those of a document: no key comes twice, neither here nor in
/// the tables in it, and no table in it starts with the mark of a date.
pub open spec fn sound(t: Entries) -> bool
    decreases t,
{
    &&& forall|i: int, j: int|
        0 <= i < j < t.len() ==> (#[trigger] t[i]).0 != (#[trigger] t[j]).0
    &&& forall|i: int|
        0 <= i < t.len() ==> match (#[trigger] t[i]).1.kind {
            TreeKind::Table(inner) => sound(inner) && (inner.len() > 0 ==> inner[0].0
                != DATE_MARK@),
            _ => true,
        }
}

/// What is read is the document that the text was written from, where it was
/// written plainly.
pub open spec fn plainly_read(text: Seq<char>, read: Option<Tree>) -> bool {
    forall|doc: Sheet| #[trigger]
        writes(text, doc) && plain_sheet(doc) ==> read is Some && read->0.kind is Table
            && blocks_are(read->0.kind->Table_0, doc)
}

/// `toml::from_str::<toml::Table>`. The claim is that the outcome depends on
/// the text alone, that a document is a table, that no table of it has a key
/// twice and none in another starts with the key by which the crate marks a
/// date (such a table is read as a date, or refused), and that a document
/// written plainly, as `sheet` says, is read as the tables, keys and values it
/// was written from, in their order. What any other text reads as is not
/// stated.
#[verifier::external_body]
fn read_document(text: &str) -> (r: Result<toml::Value, SyntaxError>)
    ensures
        toml_document(text@) == (match r {
            Ok(v) => Ok::<Tree, (Option<usize>, Seq<char>)>(toml_tree(v)),
            Err(e) => Err((e.offset, e.message@)),
        }),
        r matches Ok(v) ==> toml_tree(v).table() is Some && sound(toml_tree(v).table()->0),
        plainly_read(
            text@,
            match r {
                Ok(v) => Some(toml_tree(v)),
                Err(_) => None,
            },
        ),
{
    match toml::from_str::<toml::Table>(text) {
        Ok(table) => Ok(toml::Value::Table(table)),
        Err(e) => Err(
            SyntaxError { offset: e.span().map(|s| s.start), message: e.message().to_string() },
        ),
    }
}

/// A `toml::Value` taken apart by its variant, with what its `Display` writes.
/// The claim is that nothing of the value is lost or changed; a table's
/// entries come in the order in which the `toml` crate keeps them.
#[verifier::external_body]
fn open_value(v: toml::Value) -> (r: Node)
    ensures
        node_tree(r) == toml_tree(v),
{
    let shown = v.to_string();
    let kind = match v {
        toml::Value::String(s) => NodeKind::Text(s),
        toml::Value::Integer(n) => NodeKind::Integer(n),
        toml::Value::Float(f) => NodeKind::Float(f.to_bits(), f.to_string()),
        toml::Value::Boolean(b) => NodeKind::Boolean(b),
        toml::Value::Datetime(_) => NodeKind::Datetime,
        toml::Value::Array(a) => NodeKind::Array(a),
        toml::Value::Table(t) => NodeKind::Table(t.into_iter().collect()),
    };
    Node { kind, shown }
}

/// A value of the `toml` crate as one of this library.
fn convert(v: toml::Value) -> (r: Datum)
    ensures
        r.deep_view() == toml_tree(v),
    decreases toml_tree(v),
{
    let node = open_value(v);
    let kind = match node.kind {
        NodeKind::Text(s) => Kind::Text(s),
        NodeKind::Integer(n) => Kind::Integer(n),
        NodeKind::Float(bits, plain) => Kind::Float(bits, plain),
        NodeKind::Boolean(b) => Kind::Boolean(b),
        NodeKind::Datetime => Kind::Datetime,
        NodeKind::Array(a) => {
            let ghost want = toml_tree(v).kind->Array_0;
            let mut out: Vec<Datum> = none_of();
            for x in it: a
                invariant
                    it.seq() == a@,
                    toml_tree(v).kind == TreeKind::Array(want),
                    want == Seq::new(a@.len(), |i: int| toml_tree(a@[i])),
                    out.deep_view() =~= want.take(it.index() as int),
            {
                assert(decreases_to!(toml_tree(v) => toml_tree(v).kind));
                assert(decreases_to!(toml_tree(v).kind => toml_tree(v).kind->Array_0));
                assert(decreases_to!(want => want[it.index() as int]));
                put(&mut out, convert(x));
            }
            assert(want.take(a@.len() as int) =~= want);
            assert(out.deep_view() =~= toml_tree(v).kind->Array_0);
            Kind::Array(out)
        },
        NodeKind::Table(t) => {
            let ghost want = toml_tree(v).kind->Table_0;
            let mut entries: Vec<(String, Datum)> = none_of();
            for x in it: t
                invariant
                    it.seq() == t@,
                    toml_tree(v).kind == TreeKind::Table(want),
                    want == Seq::new(t@.len(), |i: int| (t@[i].0@, toml_tree(t@[i].1))),
                    entries.deep_view() =~= want.take(it.index() as int),
            {
                assert(decreases_to!(toml_tree(v) => toml_tree(v).kind));
                assert(decreases_to!(toml_tree(v).kind => toml_tree(v).kind->Table_0));
                assert(decreases_to!(want => want[it.index() as int]));
                assert(decreases_to!(want[it.index() as int] => want[it.index() as int].1));
                let value = convert(x.1);
                put(&mut entries, (x.0, value));
            }
            assert(want.take(t@.len() as int) =~= want);
            assert(entries.deep_view() =~= toml_tree(v).kind->Table_0);
            Kind::Table(Table { entries })
        },
    };
    let r = Datum { kind, shown: node.shown };
    proof {
        if r.kind is Array {
            assert(r.deep_view().kind->Array_0 =~= r.kind->Array_0.deep_view());
        } else if r.kind is Table {
            assert(r.deep_view().kind->Table_0 =~= r.kind->Table_0.entries.deep_view());
        }
    }
    r
}

/// The TOML document that `text` is.
pub fn document(text: &str) -> (r: Result<Datum, SyntaxError>)
    ensures
        crate::text::outcome(r) == toml_document(text@),
        r matches Ok(v) ==> v.deep_view().table() is Some && sound(v.deep_view().table()->0),
        plainly_read(
            text@,
            match r {
                Ok(v) => Some(v.deep_view()),
                Err(_) => None,
            },
        ),
{
    match read_document(text) {
        Ok(v) => Ok(convert(v)),
        Err(e) => Err(e),
    }
}

} // verus!
