//! JSON values, and how they are written.

use crate::text::{cat2, cat3, cat5, chars, put, show_signed, signed_decimal};
use vstd::prelude::*;

verus! {

/// A JSON value. An object keeps its keys in the order they were given.
#[derive(Debug)]
pub enum Json {
    Null,
    Int(i64),
    Text(String),
    Array(Vec<Json>),
    Object(Vec<(String, Json)>),
}

/// A JSON value.
pub enum JsonModel {
    Null,
    Int(i64),
    Text(Seq<char>),
    Array(Seq<JsonModel>),
    Object(Seq<(Seq<char>, JsonModel)>),
}

/// What `j` is.
pub open spec fn json_model(j: Json) -> JsonModel
    decreases j,
{
    match j {
        Json::Null => JsonModel::Null,
        Json::Int(n) => JsonModel::Int(n),
        Json::Text(s) => JsonModel::Text(s@),
        Json::Array(a) => JsonModel::Array(
            Seq::new(
                a@.len(),
                |i: int|
                    if 0 <= i < a@.len() {
                        json_model(a@[i])
                    } else {
                        arbitrary()
                    },
            ),
        ),
        Json::Object(o) => JsonModel::Object(
            Seq::new(
                o@.len(),
                |i: int|
                    if 0 <= i < o@.len() {
                        (o@[i].0@, json_model(o@[i].1))
                    } else {
                        arbitrary()
                    },
            ),
        ),
    }
}

impl DeepView for Json {
    type V = JsonModel;

    open spec fn deep_view(&self) -> JsonModel {
        json_model(*self)
    }
}

/// What an array and an object hold.
pub proof fn lemma_json(j: Json)
    ensures
        j matches Json::Array(a) ==> j.deep_view() == JsonModel::Array(a.deep_view()),
        j matches Json::Object(o) ==> j.deep_view() == JsonModel::Object(o.deep_view()),
{
    match j {
        Json::Array(a) => {
            assert(j.deep_view()->Array_0 =~= a.deep_view());
        },
        Json::Object(o) => {
            assert(j.deep_view()->Object_0 =~= o.deep_view());
        },
        _ => {},
    }
}

impl Json {
    /// A text.
    pub fn string(s: &str) -> (r: Json)
        ensures
            r.deep_view() == JsonModel::Text(s@),
    {
        Json::Text(s.to_owned())
    }

    /// A text, or `null` where there is none.
    pub fn text_or_null(s: Option<&str>) -> (r: Json)
        ensures
            r.deep_view() == text_or_null(s.deep_view()),
    {
        match s {
            Some(s) => Json::string(s),
            None => Json::Null,
        }
    }

    /// An array.
    pub fn array(a: Vec<Json>) -> (r: Json)
        ensures
            r.deep_view() == JsonModel::Array(a.deep_view()),
    {
        let r = Json::Array(a);
        proof {
            lemma_json(r);
        }
        r
    }

    /// An object.
    pub fn object(o: Vec<(String, Json)>) -> (r: Json)
        ensures
            r.deep_view() == JsonModel::Object(o.deep_view()),
    {
        let r = Json::Object(o);
        proof {
            lemma_json(r);
        }
        r
    }

    /// The value as text, two spaces deeper for each level.
    pub fn render(&self) -> (r: String)
        ensures
            r@ == rendered(self.deep_view(), ""@),
    {
        write_value(self, "")
    }
}

/// A text, or `null` where there is none.
pub open spec fn text_or_null(s: Option<Seq<char>>) -> JsonModel {
    match s {
        Some(s) => JsonModel::Text(s),
        None => JsonModel::Null,
    }
}

/// Put a key and its value at the end of an object's.
pub fn field(o: &mut Vec<(String, Json)>, key: &str, value: Json)
    ensures
        final(o).deep_view() == old(o).deep_view().push((key@, value.deep_view())),
{
    put(o, (key.to_owned(), value));
}

// ---- writing ---------------------------------------------------------------

/// The hexadecimal digit of a number below 16.
pub open spec fn hex(n: int) -> char {
    if n < 10 {
        (48 + n) as char
    } else {
        (87 + n) as char
    }
}

fn write_hex(n: u32) -> (r: char)
    requires
        n < 16,
    ensures
        r == hex(n as int),
{
    if n == 0 {
        '0'
    } else if n == 1 {
        '1'
    } else if n == 2 {
        '2'
    } else if n == 3 {
        '3'
    } else if n == 4 {
        '4'
    } else if n == 5 {
        '5'
    } else if n == 6 {
        '6'
    } else if n == 7 {
        '7'
    } else if n == 8 {
        '8'
    } else if n == 9 {
        '9'
    } else if n == 10 {
        'a'
    } else if n == 11 {
        'b'
    } else if n == 12 {
        'c'
    } else if n == 13 {
        'd'
    } else if n == 14 {
        'e'
    } else {
        'f'
    }
}

/// A character inside a JSON string.
pub open spec fn escaped_char(c: char) -> Seq<char> {
    if c == '"' {
        seq!['\\', '"']
    } else if c == '\\' {
        seq!['\\', '\\']
    } else if c == '\n' {
        seq!['\\', 'n']
    } else if c == '\r' {
        seq!['\\', 'r']
    } else if c == '\t' {
        seq!['\\', 't']
    } else if (c as u32) < 32 {
        seq!['\\', 'u', '0', '0', hex(c as u32 as int / 16), hex(c as u32 as int % 16)]
    } else {
        seq![c]
    }
}

/// The inside of a JSON string.
pub open spec fn escaped(s: Seq<char>) -> Seq<char>
    decreases s.len(),
{
    if s.len() == 0 {
        seq![]
    } else {
        escaped(s.drop_last()) + escaped_char(s.last())
    }
}

/// A JSON string.
pub open spec fn quoted(s: Seq<char>) -> Seq<char> {
    "\""@ + escaped(s) + "\""@
}

fn write_char(out: &mut String, c: char)
    ensures
        final(out)@ == old(out)@ + escaped_char(c),
{
    if c == '"' || c == '\\' {
        out.push('\\');
        out.push(c);
    } else if c == '\n' {
        out.push('\\');
        out.push('n');
    } else if c == '\r' {
        out.push('\\');
        out.push('r');
    } else if c == '\t' {
        out.push('\\');
        out.push('t');
    } else if (c as u32) < 32 {
        out.push('\\');
        out.push('u');
        out.push('0');
        out.push('0');
        out.push(write_hex(c as u32 / 16));
        out.push(write_hex(c as u32 % 16));
    } else {
        out.push(c);
    }
    assert(out@ =~= old(out)@ + escaped_char(c));
}

/// A JSON string.
pub fn escape(s: &str) -> (r: String)
    ensures
        r@ == quoted(s@),
{
    let cs = chars(s);
    let mut out = String::new();
    let mut i: usize = 0;
    assert(s@.take(0) =~= seq![]);
    while i < cs.len()
        invariant
            cs@ == s@,
            i <= cs@.len(),
            out@ =~= escaped(s@.take(i as int)),
        decreases cs@.len() - i,
    {
        assert(s@.take(i + 1).drop_last() =~= s@.take(i as int));
        write_char(&mut out, cs[i]);
        i = i + 1;
    }
    assert(s@.take(i as int) =~= s@);
    cat3("\"", out.as_str(), "\"")
}

/// A value whose lines after the first begin with `pad`.
pub open spec fn rendered(j: JsonModel, pad: Seq<char>) -> Seq<char>
    decreases j,
{
    match j {
        JsonModel::Null => "null"@,
        JsonModel::Int(n) => signed_decimal(n as int),
        JsonModel::Text(s) => quoted(s),
        JsonModel::Array(a) => if a.len() == 0 {
            "[]"@
        } else {
            "[\n"@ + array_lines(a, a.len() as int, pad + "  "@) + "\n"@ + pad + "]"@
        },
        JsonModel::Object(o) => if o.len() == 0 {
            "{}"@
        } else {
            "{\n"@ + object_lines(o, o.len() as int, pad + "  "@) + "\n"@ + pad + "}"@
        },
    }
}

/// The first `n` values of an array, each on lines of its own.
pub open spec fn array_lines(a: Seq<JsonModel>, n: int, pad: Seq<char>) -> Seq<char>
    decreases a, n,
{
    if n <= 0 || n > a.len() {
        seq![]
    } else {
        let before = if n == 1 {
            seq![]
        } else {
            array_lines(a, n - 1, pad) + ",\n"@
        };
        before + pad + rendered(a[n - 1], pad)
    }
}

/// The first `n` keys of an object with their values, each on lines of its own.
pub open spec fn object_lines(o: Seq<(Seq<char>, JsonModel)>, n: int, pad: Seq<char>) -> Seq<char>
    decreases o, n,
{
    if n <= 0 || n > o.len() {
        seq![]
    } else {
        let before = if n == 1 {
            seq![]
        } else {
            object_lines(o, n - 1, pad) + ",\n"@
        };
        before + pad + quoted(o[n - 1].0) + ": "@ + rendered(o[n - 1].1, pad)
    }
}

fn write_array(a: &Vec<Json>, pad: &str) -> (r: String)
    ensures
        r@ == array_lines(a.deep_view(), a@.len() as int, pad@),
    decreases a.deep_view(), 0int,
{
    let ghost all = a.deep_view();
    let mut out = String::new();
    let mut i: usize = 0;
    assert(out@ =~= seq![]);
    while i < a.len()
        invariant
            all == a.deep_view(),
            i <= a@.len(),
            out@ == array_lines(all, i as int, pad@),
        decreases a@.len() - i,
    {
        assert(all[i as int] == a@[i as int].deep_view());
        assert(decreases_to!(all => all[i as int]));
        if i > 0 {
            out.append(",\n");
        }
        out.append(pad);
        out.append(write_value(&a[i], pad).as_str());
        i = i + 1;
    }
    out
}

fn write_object(o: &Vec<(String, Json)>, pad: &str) -> (r: String)
    ensures
        r@ == object_lines(o.deep_view(), o@.len() as int, pad@),
    decreases o.deep_view(), 0int,
{
    let ghost all = o.deep_view();
    let mut out = String::new();
    let mut i: usize = 0;
    assert(out@ =~= seq![]);
    while i < o.len()
        invariant
            all == o.deep_view(),
            i <= o@.len(),
            out@ == object_lines(all, i as int, pad@),
        decreases o@.len() - i,
    {
        assert(all[i as int] == o@[i as int].deep_view());
        assert(decreases_to!(all => all[i as int]));
        assert(decreases_to!(all[i as int] => all[i as int].1));
        if i > 0 {
            out.append(",\n");
        }
        out.append(pad);
        out.append(escape(o[i].0.as_str()).as_str());
        out.append(": ");
        out.append(write_value(&o[i].1, pad).as_str());
        i = i + 1;
    }
    out
}

fn write_value(j: &Json, pad: &str) -> (r: String)
    ensures
        r@ == rendered(j.deep_view(), pad@),
    decreases j.deep_view(), 1int,
{
    let ghost m = j.deep_view();
    proof {
        lemma_json(*j);
    }
    match j {
        Json::Null => "null".to_owned(),
        Json::Int(n) => show_signed(*n),
        Json::Text(s) => escape(s.as_str()),
        Json::Array(a) => if a.len() == 0 {
            "[]".to_owned()
        } else {
            assert(decreases_to!(m => m->Array_0));
            let lines = write_array(a, cat2(pad, "  ").as_str());
            cat5("[\n", lines.as_str(), "\n", pad, "]")
        },
        Json::Object(o) => if o.len() == 0 {
            "{}".to_owned()
        } else {
            assert(decreases_to!(m => m->Object_0));
            let lines = write_object(o, cat2(pad, "  ").as_str());
            cat5("{\n", lines.as_str(), "\n", pad, "}")
        },
    }
}

} // verus!
