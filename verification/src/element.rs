//! XML elements, as a POM has them.

use crate::chars::{is_space, space};
use crate::text::{
    at, cat3, chars, cut, ends, first_at, lemma_first_at, none_of, outcome, put, right, run_end,
    same, slice, split_once, stands, take, trim, trim_end, trimmed, Class, Duplicate,
};
use vstd::prelude::*;

verus! {

/// An element: its name, its own text and the elements in it.
#[derive(Debug, PartialEq, Eq)]
pub struct Element {
    pub name: String,
    pub text: String,
    pub children: Vec<Element>,
}

/// What an element holds.
pub struct ElementModel {
    pub name: Seq<char>,
    pub text: Seq<char>,
    pub children: Seq<ElementModel>,
}

/// What `e` holds.
pub open spec fn model_of(e: Element) -> ElementModel
    decreases e,
{
    ElementModel {
        name: e.name@,
        text: e.text@,
        children: Seq::new(
            e.children@.len(),
            |i: int|
                if 0 <= i < e.children@.len() {
                    model_of(e.children@[i])
                } else {
                    arbitrary()
                },
        ),
    }
}

impl DeepView for Element {
    type V = ElementModel;

    open spec fn deep_view(&self) -> ElementModel {
        model_of(*self)
    }
}

/// What an element's children hold.
pub proof fn lemma_children(e: Element)
    ensures
        e.deep_view().children == e.children.deep_view(),
        e.deep_view().name == e.name@,
        e.deep_view().text == e.text@,
        e.deep_view().children.len() == e.children@.len(),
        forall|i: int|
            0 <= i < e.children@.len() ==> #[trigger] e.deep_view().children[i]
                == e.children@[i].deep_view(),
{
    assert(e.deep_view().children =~= e.children.deep_view());
}

/// An element without anything in it.
pub open spec fn empty_element(name: Seq<char>) -> ElementModel {
    ElementModel { name, text: seq![], children: seq![] }
}

impl Duplicate for Element {
    fn duplicate(&self) -> Element {
        copy_element(self)
    }
}

fn copy_element(e: &Element) -> (r: Element)
    ensures
        r.deep_view() == e.deep_view(),
    decreases e.deep_view(),
{
    let ghost m = e.deep_view();
    proof {
        lemma_children(*e);
    }
    let mut children: Vec<Element> = none_of();
    let mut i: usize = 0;
    while i < e.children.len()
        invariant
            m == e.deep_view(),
            m.children == e.children.deep_view(),
            i <= e.children@.len(),
            children.deep_view() =~= m.children.take(i as int),
        decreases e.children@.len() - i,
    {
        assert(decreases_to!(m => m.children));
        assert(decreases_to!(m.children => m.children[i as int]));
        assert(m.children[i as int] == e.children@[i as int].deep_view());
        put(&mut children, copy_element(&e.children[i]));
        i = i + 1;
    }
    assert(m.children.take(i as int) =~= m.children);
    let r = Element { name: e.name.clone(), text: e.text.clone(), children };
    proof {
        lemma_children(r);
    }
    r
}

// ---- looking ---------------------------------------------------------------

/// The place of the first element called `name`, from the `i`th on.
pub open spec fn place_named(list: Seq<ElementModel>, name: Seq<char>, i: int) -> Option<int>
    decreases list.len() - i,
{
    if i < 0 || i >= list.len() {
        None
    } else if list[i].name == name {
        Some(i)
    } else {
        place_named(list, name, i + 1)
    }
}

/// The elements called `name`, from the `i`th on, after those before.
pub open spec fn named_from(
    list: Seq<ElementModel>,
    name: Seq<char>,
    i: int,
    out: Seq<ElementModel>,
) -> Seq<ElementModel>
    decreases list.len() - i,
{
    if i < 0 || i >= list.len() {
        out
    } else if list[i].name == name {
        named_from(list, name, i + 1, out.push(list[i]))
    } else {
        named_from(list, name, i + 1, out)
    }
}

pub proof fn lemma_place_named(list: Seq<ElementModel>, name: Seq<char>, i: int)
    requires
        0 <= i,
    ensures
        place_named(list, name, i) matches Some(k) ==> i <= k < list.len() && list[k].name == name,
    decreases list.len() - i,
{
    if i < list.len() {
        lemma_place_named(list, name, i + 1);
    }
}

impl ElementModel {
    /// The first child called `name`.
    pub open spec fn child(self, name: Seq<char>) -> Option<ElementModel> {
        match place_named(self.children, name, 0) {
            Some(i) => Some(self.children[i]),
            None => None,
        }
    }

    /// The text of the first child called `name`, where it has any.
    pub open spec fn text_of(self, name: Seq<char>) -> Option<Seq<char>> {
        match self.child(name) {
            Some(c) => if trimmed(c.text).len() > 0 {
                Some(trimmed(c.text))
            } else {
                None
            },
            None => None,
        }
    }

    /// The children called `name`.
    pub open spec fn children_named(self, name: Seq<char>) -> Seq<ElementModel> {
        named_from(self.children, name, 0, seq![])
    }

    /// The child `b` of the child `a`.
    pub open spec fn grandchild(self, a: Seq<char>, b: Seq<char>) -> Option<ElementModel> {
        match self.child(a) {
            Some(c) => c.child(b),
            None => None,
        }
    }

    /// The children called `item` of the child called `list`.
    pub open spec fn list(self, list: Seq<char>, item: Seq<char>) -> Seq<ElementModel> {
        match self.child(list) {
            Some(c) => c.children_named(item),
            None => seq![],
        }
    }
}

/// The place of the first element called `name`.
pub fn find_named(list: &Vec<Element>, name: &str) -> (r: Option<usize>)
    ensures
        r is Some <==> place_named(list.deep_view(), name@, 0) is Some,
        r matches Some(i) ==> i < list@.len() && place_named(list.deep_view(), name@, 0) == Some(
            i as int,
        ),
{
    let ghost all = list.deep_view();
    let mut i: usize = 0;
    while i < list.len()
        invariant
            all == list.deep_view(),
            i <= list@.len(),
            place_named(all, name@, 0) == place_named(all, name@, i as int),
        decreases list@.len() - i,
    {
        assert(all[i as int] == list@[i as int].deep_view());
        proof {
            lemma_children(list@[i as int]);
        }
        if same(list[i].name.as_str(), name) {
            return Some(i);
        }
        i = i + 1;
    }
    None
}

impl Element {
    /// An element without anything in it.
    pub fn empty(name: &str) -> (r: Element)
        ensures
            r.deep_view() == empty_element(name@),
    {
        let r = Element { name: name.to_owned(), text: String::new(), children: none_of() };
        proof {
            lemma_children(r);
            assert(r.text@ =~= seq![]);
        }
        r
    }

    /// The first child called `name`.
    pub fn child(&self, name: &str) -> (r: Option<&Element>)
        ensures
            r.deep_view() == self.deep_view().child(name@),
    {
        proof {
            lemma_children(*self);
        }
        match find_named(&self.children, name) {
            Some(i) => Some(&self.children[i]),
            None => None,
        }
    }

    /// Its text, without the white space around it.
    pub fn trimmed(&self) -> (r: &str)
        ensures
            r@ == trimmed(self.deep_view().text),
    {
        proof {
            lemma_children(*self);
        }
        trim(self.text.as_str())
    }

    /// The text of the first child called `name`, where it has any.
    pub fn text_of(&self, name: &str) -> (r: Option<&str>)
        ensures
            r.deep_view() == self.deep_view().text_of(name@),
    {
        match self.child(name) {
            Some(c) => {
                let t = c.trimmed();
                if t.is_empty() {
                    None
                } else {
                    Some(t)
                }
            },
            None => None,
        }
    }

    /// The children called `name`.
    pub fn children_named(&self, name: &str) -> (r: Vec<&Element>)
        ensures
            r.deep_view() == self.deep_view().children_named(name@),
    {
        let ghost all = self.children.deep_view();
        proof {
            lemma_children(*self);
        }
        let mut out: Vec<&Element> = none_of();
        let mut i: usize = 0;
        while i < self.children.len()
            invariant
                all == self.children.deep_view(),
                i <= self.children@.len(),
                named_from(all, name@, 0, seq![]) == named_from(
                    all,
                    name@,
                    i as int,
                    out.deep_view(),
                ),
            decreases self.children@.len() - i,
        {
            assert(all[i as int] == self.children@[i as int].deep_view());
            proof {
                lemma_children(self.children@[i as int]);
            }
            if same(self.children[i].name.as_str(), name) {
                put(&mut out, &self.children[i]);
            }
            i = i + 1;
        }
        out
    }

    /// The child `b` of the child `a`.
    pub fn grandchild(&self, a: &str, b: &str) -> (r: Option<&Element>)
        ensures
            r.deep_view() == self.deep_view().grandchild(a@, b@),
    {
        match self.child(a) {
            Some(c) => c.child(b),
            None => None,
        }
    }

    /// The children called `item` of the child called `list`.
    pub fn list(&self, list: &str, item: &str) -> (r: Vec<&Element>)
        ensures
            r.deep_view() == self.deep_view().list(list@, item@),
    {
        match self.child(list) {
            Some(c) => c.children_named(item),
            None => none_of(),
        }
    }
}

// ---- changing --------------------------------------------------------------

/// The child called `name`, or an empty one where there is none.
pub open spec fn child_or_empty(e: ElementModel, name: Seq<char>) -> ElementModel {
    match e.child(name) {
        Some(c) => c,
        None => empty_element(name),
    }
}

/// The element with `c` in place of its child called `name`, or with it added.
pub open spec fn with_child(e: ElementModel, name: Seq<char>, c: ElementModel) -> ElementModel {
    ElementModel {
        children: match place_named(e.children, name, 0) {
            Some(i) => e.children.update(i, c),
            None => e.children.push(c),
        },
        ..e
    }
}

/// The child called `name`, or an empty one where there is none.
pub fn copy_child(e: &Element, name: &str) -> (r: Element)
    ensures
        r.deep_view() == child_or_empty(e.deep_view(), name@),
{
    match e.child(name) {
        Some(c) => c.duplicate(),
        None => Element::empty(name),
    }
}

/// Put `c` in place of the child called `name`, or add it.
pub fn put_child(e: &mut Element, name: &str, c: Element)
    ensures
        final(e).deep_view() == with_child(old(e).deep_view(), name@, c.deep_view()),
{
    let ghost before = e.children.deep_view();
    proof {
        lemma_children(*e);
    }
    match find_named(&e.children, name) {
        Some(i) => {
            let ghost new = c.deep_view();
            let _old = e.children.remove(i);
            e.children.insert(i, c);
            assert(e.children.deep_view() =~= before.update(i as int, new));
        },
        None => {
            put(&mut e.children, c);
        },
    }
    proof {
        lemma_children(*e);
    }
}

// ---- reading ---------------------------------------------------------------

/// What stands for a character that XML escapes, by the name between `&` and
/// `;`.
pub open spec fn entity(name: Seq<char>) -> Option<char> {
    if name == "lt"@ {
        Some('<')
    } else if name == "gt"@ {
        Some('>')
    } else if name == "amp"@ {
        Some('&')
    } else if name == "quot"@ {
        Some('"')
    } else if name == "apos"@ {
        Some('\'')
    } else {
        None
    }
}

fn read_entity(name: &str) -> (r: Option<char>)
    ensures
        r == entity(name@),
{
    if same(name, "lt") {
        Some('<')
    } else if same(name, "gt") {
        Some('>')
    } else if same(name, "amp") {
        Some('&')
    } else if same(name, "quot") {
        Some('"')
    } else if same(name, "apos") {
        Some('\'')
    } else {
        None
    }
}

/// Text with its entities as the characters they stand for; what is none
/// stays.
pub open spec fn decoded(s: Seq<char>) -> Seq<char>
    decreases s.len(),
{
    match cut(s, "&"@) {
        None => s,
        Some((before, rest)) => match cut(rest, ";"@) {
            Some((name, after)) => if entity(name) is Some && after.len() < s.len() {
                before.push(entity(name)->0) + decoded(after)
            } else if rest.len() < s.len() {
                before.push('&') + decoded(rest)
            } else {
                s
            },
            None => s,
        },
    }
}

fn decode(s: &str) -> (r: String)
    ensures
        r@ == decoded(s@),
{
    let mut out = String::new();
    let mut rest: &str = s;
    proof {
        reveal_strlit("&");
        reveal_strlit(";");
    }
    loop
        invariant
            "&"@.len() == 1,
            ";"@.len() == 1,
            decoded(s@) =~= out@ + decoded(rest@),
        decreases rest@.len(),
    {
        proof {
            lemma_first_at(rest@, "&"@, 0);
        }
        let Some((before, tail)) = split_once(rest, "&") else {
            out.append(rest);
            return out;
        };
        proof {
            lemma_first_at(tail@, ";"@, 0);
        }
        match split_once(tail, ";") {
            None => {
                out.append(rest);
                return out;
            },
            Some((name, after)) => {
                out.append(before);
                match read_entity(name) {
                    Some(c) => {
                        out.push(c);
                        rest = after;
                    },
                    None => {
                        out.push('&');
                        rest = tail;
                    },
                }
            },
        }
    }
}

/// The end of a tag that reaches `i`: a `>` outside its quotes.
pub open spec fn tag_end(s: Seq<char>, i: int, quote: Option<char>) -> Option<int>
    decreases s.len() - i,
{
    if i < 0 || i >= s.len() {
        None
    } else {
        match quote {
            Some(q) => tag_end(
                s,
                i + 1,
                if s[i] == q {
                    None
                } else {
                    quote
                },
            ),
            None => if s[i] == '>' {
                Some(i)
            } else if s[i] == '"' || s[i] == '\'' {
                tag_end(s, i + 1, Some(s[i]))
            } else {
                tag_end(s, i + 1, None)
            },
        }
    }
}

fn find_tag_end(cs: &Vec<char>, from: usize) -> (r: Option<usize>)
    requires
        from <= cs@.len(),
    ensures
        r is Some <==> tag_end(cs@, from as int, None) is Some,
        r matches Some(i) ==> from <= i < cs@.len() && tag_end(cs@, from as int, None) == Some(
            i as int,
        ),
{
    let mut quote: Option<char> = None;
    let mut i: usize = from;
    while i < cs.len()
        invariant
            from <= i <= cs@.len(),
            tag_end(cs@, from as int, None) == tag_end(cs@, i as int, quote),
        decreases cs@.len() - i,
    {
        let c: char = cs[i];
        match quote {
            Some(q) => {
                if c == q {
                    quote = None;
                }
            },
            None => {
                if c == '>' {
                    return Some(i);
                }
                if c == '"' || c == '\'' {
                    quote = Some(c);
                }
            },
        }
        i = i + 1;
    }
    None
}

/// What stands next in a document.
pub enum Token {
    /// An element opens, and closes where it is empty.
    Open(String, bool),
    Close(String),
    Text(String),
    /// A comment, an instruction or a declaration.
    Aside,
}

/// What stands next in a document.
pub enum TokenModel {
    Open(Seq<char>, bool),
    Close(Seq<char>),
    Text(Seq<char>),
    Aside,
}

impl DeepView for Token {
    type V = TokenModel;

    open spec fn deep_view(&self) -> TokenModel {
        match self {
            Token::Open(name, empty) => TokenModel::Open(name@, *empty),
            Token::Close(name) => TokenModel::Close(name@),
            Token::Text(text) => TokenModel::Text(text@),
            Token::Aside => TokenModel::Aside,
        }
    }
}

fn find_from(cs: &Vec<char>, p: &str, from: usize) -> (r: Option<usize>)
    requires
        from <= cs@.len(),
        p@.len() > 0,
    ensures
        r is Some <==> first_at(cs@, p@, from as int) is Some,
        r matches Some(i) ==> from <= i && i + p@.len() <= cs@.len() && first_at(
            cs@,
            p@,
            from as int,
        ) == Some(i as int),
{
    let word = chars(p);
    let mut i: usize = from;
    while i < cs.len() && !stands(cs, &word, i)
        invariant
            word@ == p@,
            p@.len() > 0,
            from <= i <= cs@.len(),
            first_at(cs@, p@, from as int) == first_at(cs@, p@, i as int),
        decreases cs@.len() - i,
    {
        i = i + 1;
    }
    if i < cs.len() {
        Some(i)
    } else {
        assert(!at(cs@, p@, i as int));
        assert(first_at(cs@, p@, i + 1) is None);
        None
    }
}

/// Where a tag's name ends that reaches `i`.
pub open spec fn tag_name_end(tag: Seq<char>, i: int) -> int
    decreases tag.len() - i,
{
    if 0 <= i < tag.len() && !space(tag[i]) && tag[i] != '/' {
        tag_name_end(tag, i + 1)
    } else {
        i
    }
}

/// The token of a tag, by what stands between its `<` and its `>`.
pub open spec fn tag_token(tag: Seq<char>) -> TokenModel {
    TokenModel::Open(tag.take(tag_name_end(tag, 0)), ends(right(tag), "/"@))
}

fn read_tag(tag: &str) -> (r: Token)
    ensures
        r.deep_view() == tag_token(tag@),
{
    let cs = chars(tag);
    let mut i: usize = 0;
    while i < cs.len() && !is_space(cs[i]) && cs[i] != '/'
        invariant
            cs@ == tag@,
            i <= cs@.len(),
            tag_name_end(tag@, 0) == tag_name_end(tag@, i as int),
        decreases cs@.len() - i,
    {
        i = i + 1;
    }
    Token::Open(take(tag, i).to_owned(), crate::text::ends_with(trim_end(tag), "/"))
}

/// What ends at the first `end` after `i`, and the place past it.
pub open spec fn aside(s: Seq<char>, end: Seq<char>, i: int) -> Option<(TokenModel, int)> {
    match first_at(s, end, i) {
        Some(k) => Some((TokenModel::Aside, k + end.len())),
        None => None,
    }
}

/// What stands at `i`, and the place past it.
pub open spec fn token_at(s: Seq<char>, i: int) -> Option<(TokenModel, int)> {
    if s[i] != '<' {
        let end = run_end(s, Class::Not('<'), i);
        Some((TokenModel::Text(decoded(s.subrange(i, end))), end))
    } else if at(s, "<!--"@, i) {
        aside(s, "-->"@, i + 4)
    } else if at(s, "<![CDATA["@, i) {
        match first_at(s, "]]>"@, i + 9) {
            Some(k) => Some((TokenModel::Text(s.subrange(i + 9, k)), k + 3)),
            None => None,
        }
    } else if at(s, "<?"@, i) {
        aside(s, "?>"@, i + 2)
    } else if at(s, "<!"@, i) {
        aside(s, ">"@, i + 2)
    } else if at(s, "</"@, i) {
        match first_at(s, ">"@, i + 2) {
            Some(k) => Some((TokenModel::Close(trimmed(s.subrange(i + 2, k))), k + 1)),
            None => None,
        }
    } else {
        match tag_end(s, i + 1, None) {
            Some(k) => Some((tag_token(s.subrange(i + 1, k)), k + 1)),
            None => None,
        }
    }
}

fn read_aside(cs: &Vec<char>, end: &str, from: usize) -> (r: Option<(Token, usize)>)
    requires
        from <= cs@.len(),
        end@.len() > 0,
    ensures
        r is Some <==> aside(cs@, end@, from as int) is Some,
        r matches Some((t, n)) ==> from <= n <= cs@.len() && aside(cs@, end@, from as int) == Some(
            (t.deep_view(), n as int),
        ),
{
    let _size: usize = cs.len();
    match find_from(cs, end, from) {
        Some(k) => Some((Token::Aside, k + end.unicode_len())),
        None => None,
    }
}

fn is_at(cs: &Vec<char>, p: &str, i: usize) -> (r: bool)
    requires
        i <= cs@.len(),
    ensures
        r == at(cs@, p@, i as int),
{
    let word = chars(p);
    stands(cs, &word, i)
}

fn read_token(text: &str, cs: &Vec<char>, i: usize) -> (r: Option<(Token, usize)>)
    requires
        cs@ == text@,
        i < cs@.len(),
    ensures
        r is Some <==> token_at(cs@, i as int) is Some,
        r matches Some((t, n)) ==> i < n <= cs@.len() && token_at(cs@, i as int) == Some(
            (t.deep_view(), n as int),
        ),
{
    proof {
        reveal_strlit("<!--");
        reveal_strlit("-->");
        reveal_strlit("<![CDATA[");
        reveal_strlit("]]>");
        reveal_strlit("<?");
        reveal_strlit("?>");
        reveal_strlit("<!");
        reveal_strlit(">");
        reveal_strlit("</");
    }
    let _size: usize = cs.len();
    if cs[i] != '<' {
        let mut end: usize = i;
        while end < cs.len() && cs[end] != '<'
            invariant
                i <= end <= cs@.len(),
                i < cs@.len() && cs@[i as int] != '<',
                run_end(cs@, Class::Not('<'), i as int) == run_end(
                    cs@,
                    Class::Not('<'),
                    end as int,
                ),
            decreases cs@.len() - end,
        {
            end = end + 1;
        }
        return Some((Token::Text(decode(slice(text, i, end))), end));
    }
    if is_at(cs, "<!--", i) {
        return read_aside(cs, "-->", i + 4);
    }
    if is_at(cs, "<![CDATA[", i) {
        return match find_from(cs, "]]>", i + 9) {
            Some(k) => Some((Token::Text(slice(text, i + 9, k).to_owned()), k + 3)),
            None => None,
        };
    }
    if is_at(cs, "<?", i) {
        return read_aside(cs, "?>", i + 2);
    }
    if is_at(cs, "<!", i) {
        return read_aside(cs, ">", i + 2);
    }
    if is_at(cs, "</", i) {
        return match find_from(cs, ">", i + 2) {
            Some(k) => Some((Token::Close(trim(slice(text, i + 2, k)).to_owned()), k + 1)),
            None => None,
        };
    }
    match find_tag_end(cs, i + 1) {
        Some(k) => Some((read_tag(slice(text, i + 1, k)), k + 1)),
        None => None,
    }
}

/// The elements that are open, with more text in the innermost.
pub open spec fn with_text(open: Seq<ElementModel>, text: Seq<char>) -> Seq<ElementModel> {
    let e = open.last();
    open.update(open.len() - 1, ElementModel { text: e.text + text, ..e })
}

/// The elements that are open, with one more in the innermost.
pub open spec fn with_element(open: Seq<ElementModel>, c: ElementModel) -> Seq<ElementModel> {
    let e = open.last();
    open.update(open.len() - 1, ElementModel { children: e.children.push(c), ..e })
}

/// The element that the text from `i` on is, where some elements are open and
/// one may have closed.
pub open spec fn parsed_from(
    s: Seq<char>,
    i: int,
    open: Seq<ElementModel>,
    root: Option<ElementModel>,
) -> Result<ElementModel, Seq<char>>
    decreases s.len() - i,
{
    if i < 0 || i >= s.len() {
        if open.len() > 0 {
            Err("<"@ + open.last().name + "> is not closed"@)
        } else {
            match root {
                Some(r) => Ok(r),
                None => Err("there is no element"@),
            }
        }
    } else {
        match token_at(s, i) {
            None => Err("markup is not closed"@),
            Some((token, next)) => if !(i < next <= s.len()) {
                Err("markup is not closed"@)
            } else {
                match token {
                    TokenModel::Aside => parsed_from(s, next, open, root),
                    TokenModel::Text(text) => if open.len() > 0 {
                        parsed_from(s, next, with_text(open, text), root)
                    } else if trimmed(text).len() > 0 {
                        Err("there is text outside the document's element"@)
                    } else {
                        parsed_from(s, next, open, root)
                    },
                    TokenModel::Open(name, empty) => if open.len() == 0 && root is Some {
                        Err("there is more than one element"@)
                    } else if !empty {
                        parsed_from(s, next, open.push(empty_element(name)), root)
                    } else if open.len() > 0 {
                        parsed_from(s, next, with_element(open, empty_element(name)), root)
                    } else {
                        parsed_from(s, next, open, Some(empty_element(name)))
                    },
                    TokenModel::Close(name) => if open.len() == 0 || open.last().name != name {
                        Err("</"@ + name + "> closes no element"@)
                    } else if open.len() == 1 {
                        parsed_from(s, next, open.drop_last(), Some(open.last()))
                    } else {
                        parsed_from(s, next, with_element(open.drop_last(), open.last()), root)
                    },
                }
            },
        }
    }
}

/// The element that a document is.
pub open spec fn parsed(text: Seq<char>) -> Result<ElementModel, Seq<char>> {
    parsed_from(text, 0, seq![], None)
}

fn add_text(open: &mut Vec<Element>, text: &str)
    requires
        old(open)@.len() > 0,
    ensures
        final(open).deep_view() == with_text(old(open).deep_view(), text@),
        final(open)@.len() == old(open)@.len(),
{
    let ghost before = open.deep_view();
    if let Some(mut e) = open.pop() {
        assert(before.last() == e.deep_view());
        proof {
            lemma_children(e);
        }
        e.text.append(text);
        proof {
            lemma_children(e);
        }
        let ghost changed = e.deep_view();
        open.push(e);
        assert(open.deep_view() =~= before.update(before.len() - 1, changed));
    }
}

fn add_element(open: &mut Vec<Element>, c: Element)
    requires
        old(open)@.len() > 0,
    ensures
        final(open).deep_view() == with_element(old(open).deep_view(), c.deep_view()),
        final(open)@.len() == old(open)@.len(),
{
    let ghost before = open.deep_view();
    if let Some(mut e) = open.pop() {
        assert(before.last() == e.deep_view());
        proof {
            lemma_children(e);
        }
        put(&mut e.children, c);
        proof {
            lemma_children(e);
        }
        let ghost changed = e.deep_view();
        open.push(e);
        assert(open.deep_view() =~= before.update(before.len() - 1, changed));
    }
}

/// The element that a document is: its attributes and its comments are left
/// out.
pub fn parse_xml(text: &str) -> (r: Result<Element, String>)
    ensures
        outcome(r) == parsed(text@),
{
    let cs = chars(text);
    let mut open: Vec<Element> = none_of();
    let mut root: Option<Element> = None;
    let mut i: usize = 0;
    while i < cs.len()
        invariant
            cs@ == text@,
            i <= cs@.len(),
            parsed(text@) == parsed_from(text@, i as int, open.deep_view(), root.deep_view()),
        decreases cs@.len() - i,
    {
        let ghost before = open.deep_view();
        assert(before.len() == open@.len());
        let Some((token, next)) = read_token(text, &cs, i) else {
            return Err("markup is not closed".to_owned());
        };
        match token {
            Token::Aside => {},
            Token::Text(t) => {
                if open.len() > 0 {
                    add_text(&mut open, t.as_str());
                } else if !trim(t.as_str()).is_empty() {
                    return Err("there is text outside the document's element".to_owned());
                }
            },
            Token::Open(name, empty) => {
                if open.len() == 0 && root.is_some() {
                    return Err("there is more than one element".to_owned());
                }
                let e = Element::empty(name.as_str());
                if !empty {
                    put(&mut open, e);
                } else if open.len() > 0 {
                    add_element(&mut open, e);
                } else {
                    root = Some(e);
                }
            },
            Token::Close(name) => {
                let Some(e) = open.pop() else {
                    return Err(cat3("</", name.as_str(), "> closes no element"));
                };
                assert(before.last() == e.deep_view());
                assert(open.deep_view() =~= before.drop_last());
                proof {
                    lemma_children(e);
                }
                if !same(e.name.as_str(), name.as_str()) {
                    return Err(cat3("</", name.as_str(), "> closes no element"));
                }
                if open.len() == 0 {
                    root = Some(e);
                } else {
                    add_element(&mut open, e);
                }
            },
        }
        i = next;
    }
    if open.len() > 0 {
        let k: usize = open.len() - 1;
        assert(open.deep_view().last() == open@[k as int].deep_view());
        proof {
            lemma_children(open@[k as int]);
        }
        return Err(cat3("<", open[k].name.as_str(), "> is not closed"));
    }
    match root {
        Some(r) => Ok(r),
        None => Err("there is no element".to_owned()),
    }
}

} // verus!
