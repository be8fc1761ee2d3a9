//! `<profiles>`: the ones a plain `mvn` build runs with, merged into the POM
//! they belong to before anything is read out of it.
//!
//! `jrs.toml` is one fixed configuration, so the configuration migration
//! translates is the one `mvn package` builds with no `-P` and no `-D`. Maven
//! picks its profiles like this (`DefaultProfileSelector`): every profile whose
//! `<activation>` holds is active, and only when none is do the
//! `<activeByDefault>` ones take their place. In a plain build migration can
//! tell exactly one kind of condition: a negated property, `!name`, holds,
//! since no property is set on the command line. A JDK, an OS, a file or a
//! property that must be set are the machine's or the invocation's, so a
//! profile that waits on one is listed, not merged — and while one could
//! activate, a default profile merged in gets a review line saying so.
//!
//! Merging follows Maven's profile injection, the profile dominant: properties
//! by name, dependencies and repositories by key, plugins by
//! `groupId:artifactId` with their `<configuration>` merged element by element
//! as Maven's `Xpp3Dom` does, executions by `<id>`.

use crate::element::{
    child_or_empty, copy_child, lemma_children, place_named, put_child, with_child, Element,
    ElementModel,
};
use crate::pom::{pom_of, text_or, Pom, PomModel, Profile, ProfileModel};
use crate::report::{Report, ReportModel};
use crate::text::{
    after_prefix, cat2, cat3, cat4, cat5, cat7, join, joined, none_of, put, put_all, same, starts,
    starts_with, strip_prefix, trimmed, Duplicate,
};
use vstd::prelude::*;

verus! {

// ---- activation ------------------------------------------------------------

/// What a profile does in a plain `mvn` build.
#[derive(Debug, PartialEq, Eq)]
pub enum Plain {
    /// Its activation holds: every condition is a negated property.
    Holds(String),
    /// No condition, but `<activeByDefault>`.
    ByDefault,
    /// A condition migration cannot decide, described.
    Waits(String),
    /// Nothing activates it but `-P`.
    Never,
}

/// What a profile does in a plain `mvn` build.
pub enum PlainModel {
    Holds(Seq<char>),
    ByDefault,
    Waits(Seq<char>),
    Never,
}

impl DeepView for Plain {
    type V = PlainModel;

    open spec fn deep_view(&self) -> PlainModel {
        match self {
            Plain::Holds(s) => PlainModel::Holds(s@),
            Plain::ByDefault => PlainModel::ByDefault,
            Plain::Waits(s) => PlainModel::Waits(s@),
            Plain::Never => PlainModel::Never,
        }
    }
}

/// A property that the JVM always sets.
pub open spec fn jvm_property(n: Seq<char>) -> bool {
    starts(n, "java."@) || starts(n, "os."@) || starts(n, "user."@) || starts(n, "file."@)
        || starts(n, "line."@) || starts(n, "path."@) || starts(n, "sun."@)
}

/// A condition that holds in a plain build: a property that nothing sets must
/// not be set.
pub open spec fn negated(condition: ElementModel) -> bool {
    condition.name == "property"@ && condition.text_of("value"@) is None && match condition.text_of(
        "name"@,
    ) {
        Some(n) => match after_prefix(n, "!"@) {
            Some(name) => name.len() > 0 && !jvm_property(name),
            None => false,
        },
        None => false,
    }
}

/// `<property><name>!skipDocs</name></property>`: set by nothing in a plain
/// build, so the condition holds. The JVM's own properties are always set.
pub fn negated_property(condition: &Element) -> (r: bool)
    ensures
        r == negated(condition.deep_view()),
{
    proof {
        lemma_children(*condition);
    }
    if !same(condition.name.as_str(), "property") || condition.text_of("value").is_some() {
        return false;
    }
    match condition.text_of("name") {
        Some(n) => match strip_prefix(n, "!") {
            Some(name) => !name.is_empty() && !(starts_with(name, "java.") || starts_with(
                name,
                "os.",
            ) || starts_with(name, "user.") || starts_with(name, "file.") || starts_with(
                name,
                "line.",
            ) || starts_with(name, "path.") || starts_with(name, "sun.")),
            None => false,
        },
        None => false,
    }
}

/// The children from the `i`th on as the report names them, after those
/// before; where `full`, those without a text are left out.
pub open spec fn parts_from(
    list: Seq<ElementModel>,
    full: bool,
    i: int,
    out: Seq<Seq<char>>,
) -> Seq<Seq<char>>
    decreases list.len() - i,
{
    if i < 0 || i >= list.len() {
        out
    } else if full && trimmed(list[i].text).len() == 0 {
        parts_from(list, full, i + 1, out)
    } else {
        parts_from(list, full, i + 1, out.push(list[i].name + " "@ + trimmed(list[i].text)))
    }
}

fn describe_parts(condition: &Element, full: bool) -> (r: Vec<String>)
    ensures
        r.deep_view() == parts_from(condition.deep_view().children, full, 0, seq![]),
{
    let ghost all = condition.children.deep_view();
    proof {
        lemma_children(*condition);
    }
    let mut out: Vec<String> = none_of();
    let mut i: usize = 0;
    while i < condition.children.len()
        invariant
            all == condition.children.deep_view(),
            i <= condition.children@.len(),
            parts_from(all, full, 0, seq![]) == parts_from(all, full, i as int, out.deep_view()),
        decreases condition.children@.len() - i,
    {
        let c = &condition.children[i];
        assert(all[i as int] == c.deep_view());
        proof {
            lemma_children(*c);
        }
        if !(full && c.trimmed().is_empty()) {
            put(&mut out, cat3(c.name.as_str(), " ", c.trimmed()));
        }
        i = i + 1;
    }
    out
}

/// One activation condition, as the report names it.
pub open spec fn described(c: ElementModel) -> Seq<char> {
    if c.name == "property"@ {
        match c.text_of("value"@) {
            Some(value) => "property `"@ + text_or(c.text_of("name"@), ""@) + "="@ + value + "`"@,
            None => "property `"@ + text_or(c.text_of("name"@), ""@) + "`"@,
        }
    } else if c.name == "jdk"@ {
        "JDK `"@ + trimmed(c.text) + "`"@
    } else if c.name == "os"@ {
        "OS `"@ + joined(parts_from(c.children, true, 0, seq![]), ", "@) + "`"@
    } else if c.name == "file"@ {
        "file `"@ + joined(parts_from(c.children, false, 0, seq![]), ", "@) + "`"@
    } else {
        "<"@ + c.name + ">"@
    }
}

/// One activation condition, as the report names it.
fn describe(c: &Element) -> (r: String)
    ensures
        r@ == described(c.deep_view()),
{
    proof {
        lemma_children(*c);
    }
    let kind = c.name.as_str();
    if same(kind, "property") {
        let name = match c.text_of("name") {
            Some(n) => n,
            None => "",
        };
        match c.text_of("value") {
            Some(value) => cat5("property `", name, "=", value, "`"),
            None => cat3("property `", name, "`"),
        }
    } else if same(kind, "jdk") {
        cat3("JDK `", c.trimmed(), "`")
    } else if same(kind, "os") {
        cat3("OS `", join(&describe_parts(c, true), ", ").as_str(), "`")
    } else if same(kind, "file") {
        cat3("file `", join(&describe_parts(c, false), ", ").as_str(), "`")
    } else {
        cat3("<", kind, ">")
    }
}

/// The conditions of an activation from the `i`th child on: how each is
/// described, after those before, and whether all are negated properties.
pub open spec fn conditions_from(
    list: Seq<ElementModel>,
    i: int,
    out: Seq<Seq<char>>,
    hold: bool,
) -> (Seq<Seq<char>>, bool)
    decreases list.len() - i,
{
    if i < 0 || i >= list.len() {
        (out, hold)
    } else if list[i].name == "activeByDefault"@ {
        conditions_from(list, i + 1, out, hold)
    } else {
        conditions_from(list, i + 1, out.push(described(list[i])), hold && negated(list[i]))
    }
}

/// What a profile does in a plain `mvn` build.
pub open spec fn plain_of(profile: ElementModel) -> PlainModel {
    match profile.child("activation"@) {
        None => PlainModel::Never,
        Some(activation) => {
            let (conditions, hold) = conditions_from(activation.children, 0, seq![], true);
            if conditions.len() == 0 {
                if activation.text_of("activeByDefault"@) == Some("true"@) {
                    PlainModel::ByDefault
                } else {
                    PlainModel::Never
                }
            } else if hold {
                PlainModel::Holds("activated by "@ + joined(conditions, " and "@))
            } else {
                PlainModel::Waits(joined(conditions, " and "@))
            }
        },
    }
}

fn read_conditions(activation: &Element) -> (r: (Vec<String>, bool))
    ensures
        (r.0.deep_view(), r.1) == conditions_from(
            activation.deep_view().children,
            0,
            seq![],
            true,
        ),
{
    let ghost all = activation.children.deep_view();
    proof {
        lemma_children(*activation);
    }
    let mut out: Vec<String> = none_of();
    let mut hold = true;
    let mut i: usize = 0;
    while i < activation.children.len()
        invariant
            all == activation.children.deep_view(),
            i <= activation.children@.len(),
            conditions_from(all, 0, seq![], true) == conditions_from(
                all,
                i as int,
                out.deep_view(),
                hold,
            ),
        decreases activation.children@.len() - i,
    {
        let c = &activation.children[i];
        assert(all[i as int] == c.deep_view());
        proof {
            lemma_children(*c);
        }
        if !same(c.name.as_str(), "activeByDefault") {
            put(&mut out, describe(c));
            hold = negated_property(c) && hold;
        }
        i = i + 1;
    }
    (out, hold)
}

/// What a profile does in a plain `mvn` build. Since Maven 3.2.2 every
/// condition of one activation must hold.
pub fn plain_build(profile: &Element) -> (r: Plain)
    ensures
        r.deep_view() == plain_of(profile.deep_view()),
{
    let Some(activation) = profile.child("activation") else {
        return Plain::Never;
    };
    let (conditions, hold) = read_conditions(activation);
    if conditions.len() == 0 {
        let by_default = match activation.text_of("activeByDefault") {
            Some(t) => same(t, "true"),
            None => false,
        };
        return if by_default {
            Plain::ByDefault
        } else {
            Plain::Never
        };
    }
    let text = join(&conditions, " and ");
    if hold {
        Plain::Holds(cat2("activated by ", text.as_str()))
    } else {
        Plain::Waits(text)
    }
}

// ---- keys ------------------------------------------------------------------

/// What the items of a list are told apart by.
#[derive(Debug, Clone, Copy, PartialEq, Eq, Structural)]
pub enum Key {
    Name,
    Dependency,
    Id,
}

/// Maven's dependency key: `groupId:artifactId:type:classifier`.
pub open spec fn dependency_key(d: ElementModel) -> Option<Seq<char>> {
    match (d.text_of("groupId"@), d.text_of("artifactId"@)) {
        (Some(g), Some(a)) => Some(
            g + ":"@ + a + ":"@ + text_or(d.text_of("type"@), "jar"@) + ":"@ + text_or(
                d.text_of("classifier"@),
                ""@,
            ),
        ),
        _ => None,
    }
}

/// What an item is told apart by.
pub open spec fn key_of(key: Key, e: ElementModel) -> Option<Seq<char>> {
    match key {
        Key::Name => Some(e.name),
        Key::Dependency => dependency_key(e),
        Key::Id => e.text_of("id"@),
    }
}

fn or_text<'a>(s: Option<&'a str>, other: &'a str) -> (r: &'a str)
    ensures
        r@ == text_or(s.deep_view(), other@),
{
    match s {
        Some(s) => s,
        None => other,
    }
}

fn read_key(key: Key, e: &Element) -> (r: Option<String>)
    ensures
        r.deep_view() == key_of(key, e.deep_view()),
{
    proof {
        lemma_children(*e);
    }
    match key {
        Key::Name => Some(e.name.clone()),
        Key::Dependency => match (e.text_of("groupId"), e.text_of("artifactId")) {
            (Some(g), Some(a)) => Some(
                cat7(
                    g,
                    ":",
                    a,
                    ":",
                    or_text(e.text_of("type"), "jar"),
                    ":",
                    or_text(e.text_of("classifier"), ""),
                ),
            ),
            _ => None,
        },
        Key::Id => match e.text_of("id") {
            Some(id) => Some(id.to_owned()),
            None => None,
        },
    }
}

/// The place of the first item, from the `i`th on, with the key.
pub open spec fn keyed_place(list: Seq<ElementModel>, key: Key, k: Seq<char>, i: int) -> Option<int>
    decreases list.len() - i,
{
    if i < 0 || i >= list.len() {
        None
    } else if key_of(key, list[i]) == Some(k) {
        Some(i)
    } else {
        keyed_place(list, key, k, i + 1)
    }
}

fn find_keyed(list: &Vec<Element>, key: Key, k: &str) -> (r: Option<usize>)
    ensures
        r is Some <==> keyed_place(list.deep_view(), key, k@, 0) is Some,
        r matches Some(i) ==> i < list@.len() && keyed_place(list.deep_view(), key, k@, 0) == Some(
            i as int,
        ),
{
    let ghost all = list.deep_view();
    let mut i: usize = 0;
    while i < list.len()
        invariant
            all == list.deep_view(),
            i <= list@.len(),
            keyed_place(all, key, k@, 0) == keyed_place(all, key, k@, i as int),
        decreases list@.len() - i,
    {
        assert(all[i as int] == list@[i as int].deep_view());
        if let Some(found) = read_key(key, &list[i]) {
            if same(found.as_str(), k) {
                return Some(i);
            }
        }
        i = i + 1;
    }
    None
}

/// The list with an item: in place of one with its key, or added.
pub open spec fn with_item(list: Seq<ElementModel>, key: Key, item: ElementModel) -> Seq<
    ElementModel,
> {
    match key_of(key, item) {
        Some(k) => match keyed_place(list, key, k, 0) {
            Some(i) => list.update(i, item),
            None => list.push(item),
        },
        None => list.push(item),
    }
}

fn put_item(list: &mut Vec<Element>, key: Key, item: Element)
    ensures
        final(list).deep_view() == with_item(old(list).deep_view(), key, item.deep_view()),
{
    let ghost all = list.deep_view();
    if let Some(k) = read_key(key, &item) {
        if let Some(i) = find_keyed(list, key, k.as_str()) {
            let ghost new = item.deep_view();
            let _old = list.remove(i);
            list.insert(i, item);
            assert(list.deep_view() =~= all.update(i as int, new));
            return ;
        }
    }
    put(list, item);
}

/// The list with the items from the `i`th on.
pub open spec fn with_items(
    list: Seq<ElementModel>,
    key: Key,
    items: Seq<ElementModel>,
    i: int,
) -> Seq<ElementModel>
    decreases items.len() - i,
{
    if i < 0 || i >= items.len() {
        list
    } else {
        with_items(with_item(list, key, items[i]), key, items, i + 1)
    }
}

/// The element with the items of a list of `profile`'s name in its own.
pub open spec fn keyed_merged(parent: ElementModel, profile: ElementModel, key: Key) -> ElementModel {
    let list = child_or_empty(parent, profile.name);
    with_child(
        parent,
        profile.name,
        ElementModel { children: with_items(list.children, key, profile.children, 0), ..list },
    )
}

/// Merge the items of `profile` (a list element such as `<dependencies>`)
/// into `parent`'s list of the same name: an item whose key matches one there
/// replaces it, any other is added.
fn merge_keyed(parent: &mut Element, profile: &Element, key: Key)
    ensures
        final(parent).deep_view() == keyed_merged(
            old(parent).deep_view(),
            profile.deep_view(),
            key,
        ),
{
    proof {
        lemma_children(*profile);
    }
    let mut list = copy_child(parent, profile.name.as_str());
    let ghost whole = list.deep_view();
    let ghost all = profile.children.deep_view();
    proof {
        lemma_children(list);
    }
    let ghost start = list.children.deep_view();
    let mut children: Vec<Element> = list.children;
    let mut i: usize = 0;
    while i < profile.children.len()
        invariant
            all == profile.children.deep_view(),
            i <= profile.children@.len(),
            with_items(start, key, all, 0) == with_items(
                children.deep_view(),
                key,
                all,
                i as int,
            ),
        decreases profile.children@.len() - i,
    {
        assert(all[i as int] == profile.children@[i as int].deep_view());
        put_item(&mut children, key, profile.children[i].duplicate());
        i = i + 1;
    }
    let merged = Element { name: list.name, text: list.text, children };
    proof {
        lemma_children(merged);
    }
    put_child(parent, profile.name.as_str(), merged);
}

// ---- configurations --------------------------------------------------------

/// The place of the `n`th element called `name`, counting those from the `i`th
/// on.
pub open spec fn nth_named(list: Seq<ElementModel>, name: Seq<char>, n: nat, i: int) -> Option<int>
    decreases list.len() - i,
{
    if i < 0 || i >= list.len() {
        None
    } else if list[i].name == name {
        if n == 0 {
            Some(i)
        } else {
            nth_named(list, name, (n - 1) as nat, i + 1)
        }
    } else {
        nth_named(list, name, n, i + 1)
    }
}

/// How many of the first `n` elements are called `name`.
pub open spec fn count_named(list: Seq<ElementModel>, name: Seq<char>, n: int) -> nat
    decreases n,
{
    if n <= 0 {
        0
    } else {
        count_named(list, name, n - 1) + (if list[n - 1].name == name {
            1nat
        } else {
            0nat
        })
    }
}

/// Maven's `Xpp3Dom` merge, `dominant` over `recessive`: the dominant value
/// wins, a child only the recessive side has is added, and children of the
/// same name are merged pairwise, in order — one the dominant side has no
/// partner for is dropped.
pub open spec fn dom_merged(dominant: ElementModel, recessive: ElementModel) -> ElementModel
    decreases recessive, recessive.children.len() + 1,
{
    ElementModel {
        name: dominant.name,
        text: if trimmed(dominant.text).len() == 0 && trimmed(recessive.text).len() > 0 {
            recessive.text
        } else {
            dominant.text
        },
        children: dom_children(dominant, recessive, 0, dominant.children),
    }
}

/// The children of a merge once the recessive ones from the `i`th on are
/// merged in.
pub open spec fn dom_children(
    dominant: ElementModel,
    recessive: ElementModel,
    i: int,
    out: Seq<ElementModel>,
) -> Seq<ElementModel>
    decreases recessive, recessive.children.len() - i,
{
    if i < 0 || i >= recessive.children.len() {
        out
    } else {
        let child = recessive.children[i];
        let next = if place_named(dominant.children, child.name, 0) is None {
            out.push(child)
        } else {
            match nth_named(
                dominant.children,
                child.name,
                count_named(recessive.children, child.name, i),
                0,
            ) {
                Some(k) => {
                    proof {
                        assert(decreases_to!(recessive => recessive.children));
                        assert(decreases_to!(recessive.children => recessive.children[i]));
                    }
                    out.update(k, dom_merged(out[k], child))
                },
                None => out,
            }
        };
        dom_children(dominant, recessive, i + 1, next)
    }
}

fn find_nth(list: &Vec<Element>, name: &str, n: usize) -> (r: Option<usize>)
    ensures
        r is Some <==> nth_named(list.deep_view(), name@, n as nat, 0) is Some,
        r matches Some(i) ==> i < list@.len() && nth_named(list.deep_view(), name@, n as nat, 0)
            == Some(i as int),
{
    let ghost all = list.deep_view();
    let mut left: usize = n;
    let mut i: usize = 0;
    while i < list.len()
        invariant
            all == list.deep_view(),
            i <= list@.len(),
            nth_named(all, name@, n as nat, 0) == nth_named(all, name@, left as nat, i as int),
        decreases list@.len() - i,
    {
        assert(all[i as int] == list@[i as int].deep_view());
        proof {
            lemma_children(list@[i as int]);
        }
        if same(list[i].name.as_str(), name) {
            if left == 0 {
                return Some(i);
            }
            left = left - 1;
        }
        i = i + 1;
    }
    None
}

fn count_before(list: &Vec<Element>, name: &str, n: usize) -> (r: usize)
    requires
        n <= list@.len(),
    ensures
        r == count_named(list.deep_view(), name@, n as int),
{
    let ghost all = list.deep_view();
    let mut c: usize = 0;
    let mut i: usize = 0;
    while i < n
        invariant
            all == list.deep_view(),
            n <= list@.len(),
            i <= n,
            c <= i,
            c == count_named(all, name@, i as int),
        decreases n - i,
    {
        assert(all[i as int] == list@[i as int].deep_view());
        proof {
            lemma_children(list@[i as int]);
        }
        if same(list[i].name.as_str(), name) {
            c = c + 1;
        }
        i = i + 1;
    }
    c
}

/// Maven's `Xpp3Dom` merge, `dominant` over `recessive`: the dominant value
/// wins, a child only the recessive side has is added, and children of the
/// same name are merged pairwise, in order — one the dominant side has no
/// partner for is dropped.
pub fn merge_dom(dominant: &Element, recessive: &Element) -> (r: Element)
    ensures
        r.deep_view() == dom_merged(dominant.deep_view(), recessive.deep_view()),
    decreases recessive.deep_view(),
{
    let ghost d = dominant.deep_view();
    let ghost rec = recessive.deep_view();
    proof {
        lemma_children(*dominant);
        lemma_children(*recessive);
    }
    let text = if dominant.trimmed().is_empty() && !recessive.trimmed().is_empty() {
        recessive.text.clone()
    } else {
        dominant.text.clone()
    };
    let mut children: Vec<Element> = dominant.children.duplicate();
    let mut i: usize = 0;
    while i < recessive.children.len()
        invariant
            d == dominant.deep_view(),
            rec == recessive.deep_view(),
            d.children == dominant.children.deep_view(),
            rec.children == recessive.children.deep_view(),
            i <= recessive.children@.len(),
            children@.len() >= dominant.children@.len(),
            dom_children(d, rec, 0, d.children) == dom_children(
                d,
                rec,
                i as int,
                children.deep_view(),
            ),
        decreases recessive.children@.len() - i,
    {
        let child = &recessive.children[i];
        let ghost before = children.deep_view();
        assert(rec.children[i as int] == child.deep_view());
        proof {
            lemma_children(*child);
        }
        if crate::element::find_named(&dominant.children, child.name.as_str()).is_none() {
            put(&mut children, child.duplicate());
        } else {
            let used: usize = count_before(&recessive.children, child.name.as_str(), i);
            if let Some(k) = find_nth(&dominant.children, child.name.as_str(), used) {
                assert(decreases_to!(rec => rec.children));
                assert(decreases_to!(rec.children => rec.children[i as int]));
                let old_child = children.remove(k);
                assert(old_child.deep_view() == before[k as int]);
                let merged = merge_dom(&old_child, child);
                let ghost changed = merged.deep_view();
                children.insert(k, merged);
                assert(children.deep_view() =~= before.update(k as int, changed));
            }
        }
        i = i + 1;
    }
    let r = Element { name: dominant.name.clone(), text, children };
    proof {
        lemma_children(r);
    }
    r
}

/// The element with a configuration merged over its own.
pub open spec fn configured(owner: ElementModel, profile: ElementModel) -> ElementModel {
    with_child(
        owner,
        profile.name,
        match owner.child("configuration"@) {
            Some(existing) => dom_merged(profile, existing),
            None => profile,
        },
    )
}

fn merge_configuration(owner: &mut Element, profile: &Element)
    ensures
        final(owner).deep_view() == configured(old(owner).deep_view(), profile.deep_view()),
{
    proof {
        lemma_children(*profile);
    }
    let merged = match owner.child("configuration") {
        Some(existing) => merge_dom(profile, existing),
        None => profile.duplicate(),
    };
    put_child(owner, profile.name.as_str(), merged);
}

// ---- executions ------------------------------------------------------------

/// Some element of the list has the text.
pub open spec fn has_text(list: Seq<ElementModel>, text: Seq<char>) -> bool {
    exists|i: int| 0 <= i < list.len() && trimmed((#[trigger] list[i]).text) == text
}

fn lists_text(list: &Vec<Element>, text: &str) -> (r: bool)
    ensures
        r == has_text(list.deep_view(), text@),
{
    let ghost all = list.deep_view();
    let mut i: usize = 0;
    while i < list.len()
        invariant
            all == list.deep_view(),
            i <= list@.len(),
            forall|j: int| 0 <= j < i ==> trimmed((#[trigger] all[j]).text) != text@,
        decreases list@.len() - i,
    {
        assert(all[i as int] == list@[i as int].deep_view());
        if same(list[i].trimmed(), text) {
            return true;
        }
        i = i + 1;
    }
    false
}

/// The goals with those from the `i`th on that are not there.
pub open spec fn with_goals(goals: Seq<ElementModel>, more: Seq<ElementModel>, i: int) -> Seq<
    ElementModel,
>
    decreases more.len() - i,
{
    if i < 0 || i >= more.len() {
        goals
    } else if has_text(goals, trimmed(more[i].text)) {
        with_goals(goals, more, i + 1)
    } else {
        with_goals(goals.push(more[i]), more, i + 1)
    }
}

/// The execution with the goals of another.
pub open spec fn goals_merged(e: ElementModel, section: ElementModel) -> ElementModel {
    let goals = child_or_empty(e, "goals"@);
    with_child(
        e,
        "goals"@,
        ElementModel { children: with_goals(goals.children, section.children, 0), ..goals },
    )
}

fn merge_goals(out: &mut Element, section: &Element)
    ensures
        final(out).deep_view() == goals_merged(old(out).deep_view(), section.deep_view()),
{
    let goals = copy_child(out, "goals");
    let ghost all = section.children.deep_view();
    proof {
        lemma_children(goals);
        lemma_children(*section);
    }
    let ghost start = goals.children.deep_view();
    let mut children: Vec<Element> = goals.children;
    let mut i: usize = 0;
    while i < section.children.len()
        invariant
            all == section.children.deep_view(),
            i <= section.children@.len(),
            with_goals(start, all, 0) == with_goals(children.deep_view(), all, i as int),
        decreases section.children@.len() - i,
    {
        assert(all[i as int] == section.children@[i as int].deep_view());
        if !lists_text(&children, section.children[i].trimmed()) {
            put(&mut children, section.children[i].duplicate());
        }
        i = i + 1;
    }
    let merged = Element { name: goals.name, text: goals.text, children };
    proof {
        lemma_children(merged);
    }
    put_child(out, "goals", merged);
}

/// The execution with the sections of another from the `i`th on.
pub open spec fn execution_from(e: ElementModel, sections: Seq<ElementModel>, i: int) -> ElementModel
    decreases sections.len() - i,
{
    if i < 0 || i >= sections.len() {
        e
    } else {
        let section = sections[i];
        let next = if section.name == "configuration"@ {
            configured(e, section)
        } else if section.name == "goals"@ {
            goals_merged(e, section)
        } else {
            with_child(e, section.name, section)
        };
        execution_from(next, sections, i + 1)
    }
}

fn merge_execution(project: &Element, profile: &Element) -> (r: Element)
    ensures
        r.deep_view() == execution_from(
            project.deep_view(),
            profile.deep_view().children,
            0,
        ),
{
    let mut out = project.duplicate();
    let ghost all = profile.children.deep_view();
    let ghost start = out.deep_view();
    proof {
        lemma_children(*profile);
    }
    let mut i: usize = 0;
    while i < profile.children.len()
        invariant
            all == profile.children.deep_view(),
            i <= profile.children@.len(),
            execution_from(start, all, 0) == execution_from(out.deep_view(), all, i as int),
        decreases profile.children@.len() - i,
    {
        let section = &profile.children[i];
        assert(all[i as int] == section.deep_view());
        proof {
            lemma_children(*section);
        }
        if same(section.name.as_str(), "configuration") {
            merge_configuration(&mut out, section);
        } else if same(section.name.as_str(), "goals") {
            merge_goals(&mut out, section);
        } else {
            put_child(&mut out, section.name.as_str(), section.duplicate());
        }
        i = i + 1;
    }
    out
}

/// An execution's id.
pub open spec fn id_of(e: ElementModel) -> Seq<char> {
    text_or(e.text_of("id"@), "default"@)
}

/// The place of the execution with the id, from the `i`th on.
pub open spec fn execution_place(list: Seq<ElementModel>, id: Seq<char>, i: int) -> Option<int>
    decreases list.len() - i,
{
    if i < 0 || i >= list.len() {
        None
    } else if id_of(list[i]) == id {
        Some(i)
    } else {
        execution_place(list, id, i + 1)
    }
}

fn find_execution(list: &Vec<Element>, id: &str) -> (r: Option<usize>)
    ensures
        r is Some <==> execution_place(list.deep_view(), id@, 0) is Some,
        r matches Some(i) ==> i < list@.len() && execution_place(list.deep_view(), id@, 0) == Some(
            i as int,
        ),
{
    let ghost all = list.deep_view();
    let mut i: usize = 0;
    while i < list.len()
        invariant
            all == list.deep_view(),
            i <= list@.len(),
            execution_place(all, id@, 0) == execution_place(all, id@, i as int),
        decreases list@.len() - i,
    {
        assert(all[i as int] == list@[i as int].deep_view());
        if same(or_text(list[i].text_of("id"), "default"), id) {
            return Some(i);
        }
        i = i + 1;
    }
    None
}

/// The executions with those from the `i`th on: merged by id, or added.
pub open spec fn with_executions(
    list: Seq<ElementModel>,
    more: Seq<ElementModel>,
    i: int,
) -> Seq<ElementModel>
    decreases more.len() - i,
{
    if i < 0 || i >= more.len() {
        list
    } else {
        let next = match execution_place(list, id_of(more[i]), 0) {
            Some(k) => list.update(k, execution_from(list[k], more[i].children, 0)),
            None => list.push(more[i]),
        };
        with_executions(next, more, i + 1)
    }
}

/// The plugin with the executions of another.
pub open spec fn executions_merged(p: ElementModel, section: ElementModel) -> ElementModel {
    let executions = child_or_empty(p, "executions"@);
    with_child(
        p,
        "executions"@,
        ElementModel {
            children: with_executions(executions.children, section.children, 0),
            ..executions
        },
    )
}

fn merge_executions(out: &mut Element, section: &Element)
    ensures
        final(out).deep_view() == executions_merged(old(out).deep_view(), section.deep_view()),
{
    let executions = copy_child(out, "executions");
    let ghost all = section.children.deep_view();
    proof {
        lemma_children(executions);
        lemma_children(*section);
    }
    let ghost start = executions.children.deep_view();
    let mut children: Vec<Element> = executions.children;
    let mut i: usize = 0;
    while i < section.children.len()
        invariant
            all == section.children.deep_view(),
            i <= section.children@.len(),
            with_executions(start, all, 0) == with_executions(children.deep_view(), all, i as int),
        decreases section.children@.len() - i,
    {
        let execution = &section.children[i];
        let ghost before = children.deep_view();
        assert(all[i as int] == execution.deep_view());
        match find_execution(&children, or_text(execution.text_of("id"), "default")) {
            Some(k) => {
                let existing = children.remove(k);
                assert(existing.deep_view() == before[k as int]);
                let merged = merge_execution(&existing, execution);
                let ghost changed = merged.deep_view();
                children.insert(k, merged);
                assert(children.deep_view() =~= before.update(k as int, changed));
            },
            None => {
                put(&mut children, execution.duplicate());
            },
        }
        i = i + 1;
    }
    let merged = Element { name: executions.name, text: executions.text, children };
    proof {
        lemma_children(merged);
    }
    put_child(out, "executions", merged);
}

// ---- plugins ---------------------------------------------------------------

/// The plugin with the sections of another from the `i`th on.
pub open spec fn plugin_from(p: ElementModel, sections: Seq<ElementModel>, i: int) -> ElementModel
    decreases sections.len() - i,
{
    if i < 0 || i >= sections.len() {
        p
    } else {
        let section = sections[i];
        let next = if section.name == "configuration"@ {
            configured(p, section)
        } else if section.name == "executions"@ {
            executions_merged(p, section)
        } else if section.name == "dependencies"@ {
            keyed_merged(p, section, Key::Dependency)
        } else {
            with_child(p, section.name, section)
        };
        plugin_from(next, sections, i + 1)
    }
}

/// A plugin both declare: the profile's version, its `<configuration>`
/// merged over the project's, executions by `<id>`, dependencies by key.
fn merge_plugin(project: &Element, profile: &Element) -> (r: Element)
    ensures
        r.deep_view() == plugin_from(project.deep_view(), profile.deep_view().children, 0),
{
    let mut out = project.duplicate();
    let ghost all = profile.children.deep_view();
    let ghost start = out.deep_view();
    proof {
        lemma_children(*profile);
    }
    let mut i: usize = 0;
    while i < profile.children.len()
        invariant
            all == profile.children.deep_view(),
            i <= profile.children@.len(),
            plugin_from(start, all, 0) == plugin_from(out.deep_view(), all, i as int),
        decreases profile.children@.len() - i,
    {
        let section = &profile.children[i];
        assert(all[i as int] == section.deep_view());
        proof {
            lemma_children(*section);
        }
        if same(section.name.as_str(), "configuration") {
            merge_configuration(&mut out, section);
        } else if same(section.name.as_str(), "executions") {
            merge_executions(&mut out, section);
        } else if same(section.name.as_str(), "dependencies") {
            merge_keyed(&mut out, section, Key::Dependency);
        } else {
            put_child(&mut out, section.name.as_str(), section.duplicate());
        }
        i = i + 1;
    }
    out
}

/// `groupId:artifactId`, the group Maven's own unless it is named.
pub open spec fn plugin_key_of(p: ElementModel) -> Seq<char> {
    text_or(p.text_of("groupId"@), "org.apache.maven.plugins"@) + ":"@ + text_or(
        p.text_of("artifactId"@),
        ""@,
    )
}

fn plugin_key(p: &Element) -> (r: String)
    ensures
        r@ == plugin_key_of(p.deep_view()),
{
    cat3(
        or_text(p.text_of("groupId"), "org.apache.maven.plugins"),
        ":",
        or_text(p.text_of("artifactId"), ""),
    )
}

/// The place of the plugin with the key, from the `i`th on.
pub open spec fn plugin_place(list: Seq<ElementModel>, key: Seq<char>, i: int) -> Option<int>
    decreases list.len() - i,
{
    if i < 0 || i >= list.len() {
        None
    } else if plugin_key_of(list[i]) == key {
        Some(i)
    } else {
        plugin_place(list, key, i + 1)
    }
}

fn find_plugin(list: &Vec<Element>, key: &str) -> (r: Option<usize>)
    ensures
        r is Some <==> plugin_place(list.deep_view(), key@, 0) is Some,
        r matches Some(i) ==> i < list@.len() && plugin_place(list.deep_view(), key@, 0) == Some(
            i as int,
        ),
{
    let ghost all = list.deep_view();
    let mut i: usize = 0;
    while i < list.len()
        invariant
            all == list.deep_view(),
            i <= list@.len(),
            plugin_place(all, key@, 0) == plugin_place(all, key@, i as int),
        decreases list@.len() - i,
    {
        assert(all[i as int] == list@[i as int].deep_view());
        if same(plugin_key(&list[i]).as_str(), key) {
            return Some(i);
        }
        i = i + 1;
    }
    None
}

/// The plugins with those from the `i`th on: merged by key, or added.
pub open spec fn with_plugins(
    list: Seq<ElementModel>,
    more: Seq<ElementModel>,
    i: int,
) -> Seq<ElementModel>
    decreases more.len() - i,
{
    if i < 0 || i >= more.len() {
        list
    } else {
        let next = match plugin_place(list, plugin_key_of(more[i]), 0) {
            Some(k) => list.update(k, plugin_from(list[k], more[i].children, 0)),
            None => list.push(more[i]),
        };
        with_plugins(next, more, i + 1)
    }
}

/// The element with the plugins of another in its `<plugins>`.
pub open spec fn plugins_merged(owner: ElementModel, section: ElementModel) -> ElementModel {
    let plugins = child_or_empty(owner, "plugins"@);
    with_child(
        owner,
        "plugins"@,
        ElementModel { children: with_plugins(plugins.children, section.children, 0), ..plugins },
    )
}

fn merge_plugins(owner: &mut Element, section: &Element)
    ensures
        final(owner).deep_view() == plugins_merged(old(owner).deep_view(), section.deep_view()),
{
    let plugins = copy_child(owner, "plugins");
    let ghost all = section.children.deep_view();
    proof {
        lemma_children(plugins);
        lemma_children(*section);
    }
    let ghost start = plugins.children.deep_view();
    let mut children: Vec<Element> = plugins.children;
    let mut i: usize = 0;
    while i < section.children.len()
        invariant
            all == section.children.deep_view(),
            i <= section.children@.len(),
            with_plugins(start, all, 0) == with_plugins(children.deep_view(), all, i as int),
        decreases section.children@.len() - i,
    {
        let plugin = &section.children[i];
        let ghost before = children.deep_view();
        assert(all[i as int] == plugin.deep_view());
        match find_plugin(&children, plugin_key(plugin).as_str()) {
            Some(k) => {
                let existing = children.remove(k);
                assert(existing.deep_view() == before[k as int]);
                let merged = merge_plugin(&existing, plugin);
                let ghost changed = merged.deep_view();
                children.insert(k, merged);
                assert(children.deep_view() =~= before.update(k as int, changed));
            },
            None => {
                put(&mut children, plugin.duplicate());
            },
        }
        i = i + 1;
    }
    let merged = Element { name: plugins.name, text: plugins.text, children };
    proof {
        lemma_children(merged);
    }
    put_child(owner, "plugins", merged);
}

// ---- injection -------------------------------------------------------------

/// The `<build>` with the sections of a profile's from the `i`th on.
pub open spec fn build_from(b: ElementModel, sections: Seq<ElementModel>, i: int) -> ElementModel
    decreases sections.len() - i,
{
    if i < 0 || i >= sections.len() {
        b
    } else {
        let section = sections[i];
        let next = if section.name == "plugins"@ {
            plugins_merged(b, section)
        } else if section.name == "pluginManagement"@ {
            match section.child("plugins"@) {
                Some(plugins) => with_child(
                    b,
                    "pluginManagement"@,
                    plugins_merged(child_or_empty(b, "pluginManagement"@), plugins),
                ),
                None => b,
            }
        } else {
            with_child(b, section.name, section)
        };
        build_from(next, sections, i + 1)
    }
}

fn inject_build(build: &mut Element, profile: &Element)
    ensures
        final(build).deep_view() == build_from(
            old(build).deep_view(),
            profile.deep_view().children,
            0,
        ),
{
    let ghost all = profile.children.deep_view();
    let ghost start = build.deep_view();
    proof {
        lemma_children(*profile);
    }
    let mut i: usize = 0;
    while i < profile.children.len()
        invariant
            all == profile.children.deep_view(),
            i <= profile.children@.len(),
            build_from(start, all, 0) == build_from(build.deep_view(), all, i as int),
        decreases profile.children@.len() - i,
    {
        let section = &profile.children[i];
        assert(all[i as int] == section.deep_view());
        proof {
            lemma_children(*section);
        }
        if same(section.name.as_str(), "plugins") {
            merge_plugins(build, section);
        } else if same(section.name.as_str(), "pluginManagement") {
            if let Some(plugins) = section.child("plugins") {
                let mut managed = copy_child(build, "pluginManagement");
                merge_plugins(&mut managed, plugins);
                put_child(build, "pluginManagement", managed);
            }
        } else {
            put_child(build, section.name.as_str(), section.duplicate());
        }
        i = i + 1;
    }
}

/// The `<project>` with one section of a profile, the profile dominant.
pub open spec fn with_section(p: ElementModel, section: ElementModel) -> ElementModel {
    if section.name == "id"@ || section.name == "activation"@ {
        p
    } else if section.name == "properties"@ {
        keyed_merged(p, section, Key::Name)
    } else if section.name == "dependencies"@ {
        keyed_merged(p, section, Key::Dependency)
    } else if section.name == "dependencyManagement"@ {
        match section.child("dependencies"@) {
            Some(dependencies) => with_child(
                p,
                "dependencyManagement"@,
                keyed_merged(
                    child_or_empty(p, "dependencyManagement"@),
                    dependencies,
                    Key::Dependency,
                ),
            ),
            None => p,
        }
    } else if section.name == "repositories"@ || section.name == "pluginRepositories"@ {
        keyed_merged(p, section, Key::Id)
    } else if section.name == "modules"@ {
        let modules = child_or_empty(p, "modules"@);
        with_child(
            p,
            "modules"@,
            ElementModel { children: modules.children + section.children, ..modules },
        )
    } else if section.name == "build"@ {
        with_child(p, "build"@, build_from(child_or_empty(p, "build"@), section.children, 0))
    } else {
        with_child(p, section.name, section)
    }
}

/// The `<project>` with the sections of a profile from the `i`th on.
pub open spec fn injected_from(p: ElementModel, sections: Seq<ElementModel>, i: int) -> ElementModel
    decreases sections.len() - i,
{
    if i < 0 || i >= sections.len() {
        p
    } else {
        injected_from(with_section(p, sections[i]), sections, i + 1)
    }
}

fn inject_section(project: &mut Element, section: &Element)
    ensures
        final(project).deep_view() == with_section(old(project).deep_view(), section.deep_view()),
{
    proof {
        lemma_children(*section);
    }
    let name = section.name.as_str();
    if same(name, "id") || same(name, "activation") {
    } else if same(name, "properties") {
        merge_keyed(project, section, Key::Name);
    } else if same(name, "dependencies") {
        merge_keyed(project, section, Key::Dependency);
    } else if same(name, "dependencyManagement") {
        if let Some(dependencies) = section.child("dependencies") {
            let mut managed = copy_child(project, "dependencyManagement");
            merge_keyed(&mut managed, dependencies, Key::Dependency);
            put_child(project, "dependencyManagement", managed);
        }
    } else if same(name, "repositories") || same(name, "pluginRepositories") {
        merge_keyed(project, section, Key::Id);
    } else if same(name, "modules") {
        let modules = copy_child(project, "modules");
        proof {
            lemma_children(modules);
        }
        let mut children = modules.children;
        put_all(&mut children, section.children.duplicate());
        let merged = Element { name: modules.name, text: modules.text, children };
        proof {
            lemma_children(merged);
        }
        put_child(project, "modules", merged);
    } else if same(name, "build") {
        let mut build = copy_child(project, "build");
        inject_build(&mut build, section);
        put_child(project, "build", build);
    } else {
        put_child(project, name, section.duplicate());
    }
}

/// Inject `profile` into the `<project>` element `project`, the profile
/// dominant.
pub fn inject(project: &mut Element, profile: &Element)
    ensures
        final(project).deep_view() == injected_from(
            old(project).deep_view(),
            profile.deep_view().children,
            0,
        ),
{
    let ghost all = profile.children.deep_view();
    let ghost start = project.deep_view();
    proof {
        lemma_children(*profile);
    }
    let mut i: usize = 0;
    while i < profile.children.len()
        invariant
            all == profile.children.deep_view(),
            i <= profile.children@.len(),
            injected_from(start, all, 0) == injected_from(project.deep_view(), all, i as int),
        decreases profile.children@.len() - i,
    {
        assert(all[i as int] == profile.children@[i as int].deep_view());
        inject_section(project, &profile.children[i]);
        i = i + 1;
    }
}

// ---- selection -------------------------------------------------------------

/// A profile in the report.
pub open spec fn profile_shown(id: Seq<char>, owner: Option<Seq<char>>) -> Seq<char> {
    match owner {
        None => "<profile> "@ + id,
        Some(owner) => "<profile> "@ + id + " of parent "@ + owner,
    }
}

fn show_profile(id: &str, owner: Option<&str>) -> (r: String)
    ensures
        r@ == profile_shown(id@, owner.deep_view()),
{
    match owner {
        None => cat2("<profile> ", id),
        Some(owner) => cat4("<profile> ", id, " of parent ", owner),
    }
}

/// How the profiles of a POM stand in a plain build.
pub struct ChoiceModel {
    /// Those that are active, with why.
    pub active: Seq<(ProfileModel, Seq<char>)>,
    pub by_default: Seq<ProfileModel>,
    /// Those that may activate on some machine or command line, and would then
    /// turn a default one off.
    pub conditional: Seq<Seq<char>>,
    pub told: ReportModel,
}

/// Once one profile is looked at.
pub open spec fn with_profile(c: ChoiceModel, p: ProfileModel, owner: Option<Seq<char>>) -> ChoiceModel {
    match plain_of(p.element) {
        PlainModel::Holds(why) => ChoiceModel { active: c.active.push((p, why)), ..c },
        PlainModel::ByDefault => ChoiceModel { by_default: c.by_default.push(p), ..c },
        PlainModel::Waits(condition) => ChoiceModel {
            conditional: c.conditional.push("`"@ + p.id + "` ("@ + condition + ")"@),
            told: c.told.with_skipped(
                profile_shown(p.id, owner) + " — activated by "@ + condition
                    + "; jrs.toml is one fixed configuration, the one a plain `mvn` build uses"@,
            ),
            ..c
        },
        PlainModel::Never => ChoiceModel {
            told: c.told.with_skipped(
                profile_shown(p.id, owner) + " — active only when named with `-P "@ + p.id
                    + "`; jrs.toml is one fixed configuration, the one a plain `mvn` build uses"@,
            ),
            ..c
        },
    }
}

/// Once the profiles from the `i`th on are looked at.
pub open spec fn choice_from(
    profiles: Seq<ProfileModel>,
    i: int,
    owner: Option<Seq<char>>,
    c: ChoiceModel,
) -> ChoiceModel
    decreases profiles.len() - i,
{
    if i < 0 || i >= profiles.len() {
        c
    } else {
        choice_from(profiles, i + 1, owner, with_profile(c, profiles[i], owner))
    }
}

/// The ids of profiles, quoted.
pub open spec fn quoted_ids(list: Seq<(ProfileModel, Seq<char>)>) -> Seq<Seq<char>> {
    Seq::new(list.len(), |i: int| "`"@ + list[i].0.id + "`"@)
}

/// The report of the default profiles from the `i`th on that others take the
/// place of.
pub open spec fn defaults_told(
    list: Seq<ProfileModel>,
    i: int,
    ids: Seq<char>,
    owner: Option<Seq<char>>,
    told: ReportModel,
) -> ReportModel
    decreases list.len() - i,
{
    if i < 0 || i >= list.len() {
        told
    } else {
        defaults_told(
            list,
            i + 1,
            ids,
            owner,
            told.with_skipped(
                profile_shown(list[i].id, owner)
                    + " — active by default, but a plain `mvn` build activates "@ + ids
                    + " instead, and Maven then leaves the default ones out"@,
            ),
        )
    }
}

/// The default profiles, with why they are active.
pub open spec fn as_default(list: Seq<ProfileModel>) -> Seq<(ProfileModel, Seq<char>)> {
    Seq::new(list.len(), |i: int| (list[i], "active by default"@))
}

/// The project and the report with the profiles from the `i`th on merged in.
pub open spec fn merged_from(
    list: Seq<(ProfileModel, Seq<char>)>,
    i: int,
    conditional: Seq<Seq<char>>,
    owner: Option<Seq<char>>,
    root: ElementModel,
    told: ReportModel,
) -> (ElementModel, ReportModel)
    decreases list.len() - i,
{
    if i < 0 || i >= list.len() {
        (root, told)
    } else {
        let (p, why) = list[i];
        let told = told.with_migrated(
            profile_shown(p.id, owner) + " — "@ + why + " in a plain `mvn` build; merged in"@,
        );
        let told = if conditional.len() > 0 {
            told.with_review(
                profile_shown(p.id, owner) + " was merged in, but Maven drops it whenever "@
                    + joined(conditional, " or "@) + " activates; jrs.toml keeps it"@,
            )
        } else {
            told
        };
        merged_from(
            list,
            i + 1,
            conditional,
            owner,
            injected_from(root, p.element.children, 0),
            told,
        )
    }
}

/// What a POM is with the profiles merged in that a plain build activates, and
/// the report.
pub open spec fn applied(pom: PomModel, owner: Option<Seq<char>>, told: ReportModel) -> (
    PomModel,
    ReportModel,
) {
    let c = choice_from(
        pom.profiles,
        0,
        owner,
        ChoiceModel { active: seq![], by_default: seq![], conditional: seq![], told },
    );
    let (merged, told) = if c.active.len() == 0 {
        (as_default(c.by_default), c.told)
    } else {
        (
            c.active,
            defaults_told(
                c.by_default,
                0,
                joined(quoted_ids(c.active), ", "@),
                owner,
                c.told,
            ),
        )
    };
    if merged.len() == 0 {
        (pom, told)
    } else {
        let (root, told) = merged_from(merged, 0, c.conditional, owner, pom.root, told);
        (pom_of(root), told)
    }
}

/// How the profiles of a POM stand in a plain build.
struct Choice<'a> {
    active: Vec<(&'a Profile, String)>,
    by_default: Vec<&'a Profile>,
    conditional: Vec<String>,
}

spec fn choice_model(c: Choice, told: ReportModel) -> ChoiceModel {
    ChoiceModel {
        active: c.active.deep_view(),
        by_default: c.by_default.deep_view(),
        conditional: c.conditional.deep_view(),
        told,
    }
}

fn choose_profile<'a>(c: &mut Choice<'a>, p: &'a Profile, owner: Option<&str>, report: &mut Report)
    ensures
        choice_model(*final(c), final(report).deep_view()) == with_profile(
            choice_model(*old(c), old(report).deep_view()),
            p.deep_view(),
            owner.deep_view(),
        ),
{
    match plain_build(&p.element) {
        Plain::Holds(why) => {
            put(&mut c.active, (p, why));
        },
        Plain::ByDefault => {
            put(&mut c.by_default, p);
        },
        Plain::Waits(condition) => {
            report.skipped(
                cat4(
                    show_profile(p.id.as_str(), owner).as_str(),
                    " — activated by ",
                    condition.as_str(),
                    "; jrs.toml is one fixed configuration, the one a plain `mvn` build uses",
                ),
            );
            put(&mut c.conditional, cat5("`", p.id.as_str(), "` (", condition.as_str(), ")"));
        },
        Plain::Never => {
            report.skipped(
                cat4(
                    show_profile(p.id.as_str(), owner).as_str(),
                    " — active only when named with `-P ",
                    p.id.as_str(),
                    "`; jrs.toml is one fixed configuration, the one a plain `mvn` build uses",
                ),
            );
        },
    }
}

fn choose_profiles<'a>(profiles: &'a Vec<Profile>, owner: Option<&str>, report: &mut Report) -> (r:
    Choice<'a>)
    ensures
        choice_model(r, final(report).deep_view()) == choice_from(
            profiles.deep_view(),
            0,
            owner.deep_view(),
            ChoiceModel {
                active: seq![],
                by_default: seq![],
                conditional: seq![],
                told: old(report).deep_view(),
            },
        ),
{
    let mut c = Choice { active: none_of(), by_default: none_of(), conditional: none_of() };
    let ghost all = profiles.deep_view();
    let ghost start = choice_model(c, report.deep_view());
    let mut i: usize = 0;
    while i < profiles.len()
        invariant
            all == profiles.deep_view(),
            i <= profiles@.len(),
            choice_from(all, 0, owner.deep_view(), start) == choice_from(
                all,
                i as int,
                owner.deep_view(),
                choice_model(c, report.deep_view()),
            ),
        decreases profiles@.len() - i,
    {
        assert(all[i as int] == profiles@[i as int].deep_view());
        choose_profile(&mut c, &profiles[i], owner, report);
        i = i + 1;
    }
    c
}

fn list_ids(list: &Vec<(&Profile, String)>) -> (r: Vec<String>)
    ensures
        r.deep_view() == quoted_ids(list.deep_view()),
{
    let ghost all = list.deep_view();
    let mut out: Vec<String> = none_of();
    let mut i: usize = 0;
    while i < list.len()
        invariant
            all == list.deep_view(),
            i <= list@.len(),
            out.deep_view() =~= quoted_ids(all).take(i as int),
        decreases list@.len() - i,
    {
        assert(all[i as int] == (list@[i as int].0.deep_view(), list@[i as int].1@));
        put(&mut out, cat3("`", list[i].0.id.as_str(), "`"));
        i = i + 1;
    }
    assert(quoted_ids(all).take(i as int) =~= quoted_ids(all));
    out
}

fn tell_defaults(
    list: &Vec<&Profile>,
    ids: &str,
    owner: Option<&str>,
    report: &mut Report,
)
    ensures
        final(report).deep_view() == defaults_told(
            list.deep_view(),
            0,
            ids@,
            owner.deep_view(),
            old(report).deep_view(),
        ),
{
    let ghost all = list.deep_view();
    let ghost start = report.deep_view();
    let mut i: usize = 0;
    while i < list.len()
        invariant
            all == list.deep_view(),
            i <= list@.len(),
            defaults_told(all, 0, ids@, owner.deep_view(), start) == defaults_told(
                all,
                i as int,
                ids@,
                owner.deep_view(),
                report.deep_view(),
            ),
        decreases list@.len() - i,
    {
        assert(all[i as int] == list@[i as int].deep_view());
        report.skipped(
            cat4(
                show_profile(list[i].id.as_str(), owner).as_str(),
                " — active by default, but a plain `mvn` build activates ",
                ids,
                " instead, and Maven then leaves the default ones out",
            ),
        );
        i = i + 1;
    }
}

fn mark_default<'a>(list: &Vec<&'a Profile>) -> (r: Vec<(&'a Profile, String)>)
    ensures
        r.deep_view() == as_default(list.deep_view()),
{
    let ghost all = list.deep_view();
    let mut out: Vec<(&'a Profile, String)> = none_of();
    let mut i: usize = 0;
    while i < list.len()
        invariant
            all == list.deep_view(),
            i <= list@.len(),
            out.deep_view() =~= as_default(all).take(i as int),
        decreases list@.len() - i,
    {
        assert(all[i as int] == list@[i as int].deep_view());
        put(&mut out, (list[i], "active by default".to_owned()));
        i = i + 1;
    }
    assert(as_default(all).take(i as int) =~= as_default(all));
    out
}

fn merge_profiles(
    list: &Vec<(&Profile, String)>,
    conditional: &Vec<String>,
    owner: Option<&str>,
    root: &mut Element,
    report: &mut Report,
)
    ensures
        (final(root).deep_view(), final(report).deep_view()) == merged_from(
            list.deep_view(),
            0,
            conditional.deep_view(),
            owner.deep_view(),
            old(root).deep_view(),
            old(report).deep_view(),
        ),
{
    let ghost all = list.deep_view();
    let ghost cs = conditional.deep_view();
    let ghost start = (root.deep_view(), report.deep_view());
    let mut i: usize = 0;
    while i < list.len()
        invariant
            all == list.deep_view(),
            cs == conditional.deep_view(),
            i <= list@.len(),
            merged_from(all, 0, cs, owner.deep_view(), start.0, start.1) == merged_from(
                all,
                i as int,
                cs,
                owner.deep_view(),
                root.deep_view(),
                report.deep_view(),
            ),
        decreases list@.len() - i,
    {
        assert(all[i as int] == (list@[i as int].0.deep_view(), list@[i as int].1@));
        let name = show_profile(list[i].0.id.as_str(), owner);
        inject(root, &list[i].0.element);
        report.migrated(
            cat4(
                name.as_str(),
                " — ",
                list[i].1.as_str(),
                " in a plain `mvn` build; merged in",
            ),
        );
        if conditional.len() > 0 {
            report.review(
                cat4(
                    name.as_str(),
                    " was merged in, but Maven drops it whenever ",
                    join(conditional, " or ").as_str(),
                    " activates; jrs.toml keeps it",
                ),
            );
        }
        i = i + 1;
    }
}

/// Every profile of `pom`, merged in when a plain build activates it, with a
/// report line each. `owner` names the POM for a parent's profiles, and is
/// `None` for the project's own.
pub fn apply(pom: Pom, owner: Option<&str>, report: &mut Report) -> (r: Pom)
    ensures
        (r.deep_view(), final(report).deep_view()) == applied(
            pom.deep_view(),
            owner.deep_view(),
            old(report).deep_view(),
        ),
{
    let c = choose_profiles(&pom.profiles, owner, report);
    assert(c.active.deep_view().len() == c.active@.len());
    let merged = if c.active.len() == 0 {
        mark_default(&c.by_default)
    } else {
        let ids = join(&list_ids(&c.active), ", ");
        tell_defaults(&c.by_default, ids.as_str(), owner, report);
        c.active
    };
    assert(merged.deep_view().len() == merged@.len());
    if merged.len() == 0 {
        return pom;
    }
    let mut root = pom.root.duplicate();
    merge_profiles(&merged, &c.conditional, owner, &mut root, report);
    Pom::from_element(root)
}

// ---- laws ------------------------------------------------------------------

/// A POM without profiles stays as it is, and nothing is told of it.
pub proof fn no_profiles_change_nothing(pom: PomModel, owner: Option<Seq<char>>, told: ReportModel)
    requires
        pom.profiles.len() == 0,
    ensures
        applied(pom, owner, told) == (pom, told),
{
    let c = ChoiceModel { active: seq![], by_default: seq![], conditional: seq![], told };
    assert(choice_from(pom.profiles, 0, owner, c) == c);
    assert(as_default(seq![]).len() == 0);
}

/// A profile's property wins over the project's.
pub proof fn profile_properties_win(list: Seq<ElementModel>, item: ElementModel)
    ensures
        ({
            let after = with_item(list, Key::Name, item);
            keyed_place(after, Key::Name, item.name, 0) matches Some(k) && 0 <= k < after.len()
                && after[k] == item
        }),
{
    lemma_keyed(list, item, 0);
}

proof fn lemma_keyed(list: Seq<ElementModel>, item: ElementModel, i: int)
    requires
        0 <= i <= list.len(),
        forall|j: int| 0 <= j < i ==> (#[trigger] list[j]).name != item.name,
    ensures
        ({
            let place = keyed_place(list, Key::Name, item.name, i);
            let after = match place {
                Some(k) => list.update(k, item),
                None => list.push(item),
            };
            let k = keyed_place(after, Key::Name, item.name, i);
            &&& place matches Some(p) ==> i <= p < list.len()
            &&& k matches Some(k) && i <= k < after.len() && after[k] == item
        }),
    decreases list.len() - i,
{
    if i < list.len() && list[i].name != item.name {
        lemma_keyed(list, item, i + 1);
    } else if i == list.len() {
        assert(list.push(item)[i] == item);
    }
}

/// The profiles, from the `i`th on, whose activation holds in a plain build.
pub open spec fn holders(profiles: Seq<ProfileModel>, i: int) -> Seq<ProfileModel>
    decreases profiles.len() - i,
{
    if i < 0 || i >= profiles.len() {
        seq![]
    } else if plain_of(profiles[i].element) is Holds {
        seq![profiles[i]] + holders(profiles, i + 1)
    } else {
        holders(profiles, i + 1)
    }
}

/// A project with each of the profiles, from the `i`th on, merged in.
pub open spec fn all_injected(root: ElementModel, profiles: Seq<ProfileModel>, i: int) -> ElementModel
    decreases profiles.len() - i,
{
    if i < 0 || i >= profiles.len() {
        root
    } else {
        all_injected(injected_from(root, profiles[i].element.children, 0), profiles, i + 1)
    }
}

/// Profiles without why they are active.
spec fn chosen(list: Seq<(ProfileModel, Seq<char>)>) -> Seq<ProfileModel> {
    Seq::new(list.len(), |i: int| list[i].0)
}

proof fn lemma_choice(profiles: Seq<ProfileModel>, i: int, owner: Option<Seq<char>>, c: ChoiceModel)
    requires
        0 <= i <= profiles.len(),
    ensures
        ({
            let after = choice_from(profiles, i, owner, c);
            &&& chosen(after.active) == chosen(c.active) + holders(profiles, i)
            &&& after.active.len() + after.by_default.len() + after.told.not_migrated.len()
                == c.active.len() + c.by_default.len() + c.told.not_migrated.len()
                + profiles.len() - i
            &&& after.told.migrated == c.told.migrated
        }),
    decreases profiles.len() - i,
{
    if i < profiles.len() {
        let next = with_profile(c, profiles[i], owner);
        lemma_choice(profiles, i + 1, owner, next);
        if plain_of(profiles[i].element) is Holds {
            assert(chosen(next.active) =~= chosen(c.active).push(profiles[i]));
            assert(chosen(c.active).push(profiles[i]) + holders(profiles, i + 1) =~= chosen(
                c.active,
            ) + (seq![profiles[i]] + holders(profiles, i + 1)));
        }
    } else {
        assert(chosen(c.active) + Seq::<ProfileModel>::empty() =~= chosen(c.active));
    }
}

proof fn lemma_defaults_told(
    list: Seq<ProfileModel>,
    i: int,
    ids: Seq<char>,
    owner: Option<Seq<char>>,
    told: ReportModel,
)
    requires
        0 <= i <= list.len(),
    ensures
        ({
            let after = defaults_told(list, i, ids, owner, told);
            &&& after.not_migrated.len() == told.not_migrated.len() + list.len() - i
            &&& after.migrated == told.migrated
        }),
    decreases list.len() - i,
{
    if i < list.len() {
        lemma_defaults_told(
            list,
            i + 1,
            ids,
            owner,
            told.with_skipped(
                profile_shown(list[i].id, owner)
                    + " — active by default, but a plain `mvn` build activates "@ + ids
                    + " instead, and Maven then leaves the default ones out"@,
            ),
        );
    }
}

proof fn lemma_merged(
    list: Seq<(ProfileModel, Seq<char>)>,
    i: int,
    conditional: Seq<Seq<char>>,
    owner: Option<Seq<char>>,
    root: ElementModel,
    told: ReportModel,
)
    requires
        0 <= i <= list.len(),
    ensures
        ({
            let (after, said) = merged_from(list, i, conditional, owner, root, told);
            &&& after == all_injected(root, chosen(list), i)
            &&& said.migrated.len() == told.migrated.len() + list.len() - i
            &&& said.not_migrated == told.not_migrated
        }),
    decreases list.len() - i,
{
    if i < list.len() {
        let (p, why) = list[i];
        let said = told.with_migrated(
            profile_shown(p.id, owner) + " — "@ + why + " in a plain `mvn` build; merged in"@,
        );
        let said = if conditional.len() > 0 {
            said.with_review(
                profile_shown(p.id, owner) + " was merged in, but Maven drops it whenever "@
                    + joined(conditional, " or "@) + " activates; jrs.toml keeps it"@,
            )
        } else {
            said
        };
        assert(chosen(list)[i] == p);
        lemma_merged(
            list,
            i + 1,
            conditional,
            owner,
            injected_from(root, p.element.children, 0),
            said,
        );
    }
}

/// What became of every profile is told: each is migrated or is not.
pub proof fn every_profile_is_told_of(pom: PomModel, owner: Option<Seq<char>>, told: ReportModel)
    ensures
        ({
            let said = applied(pom, owner, told).1;
            said.migrated.len() + said.not_migrated.len() == told.migrated.len()
                + told.not_migrated.len() + pom.profiles.len()
        }),
{
    let c0 = ChoiceModel { active: seq![], by_default: seq![], conditional: seq![], told };
    let c = choice_from(pom.profiles, 0, owner, c0);
    lemma_choice(pom.profiles, 0, owner, c0);
    let ids = joined(quoted_ids(c.active), ", "@);
    lemma_defaults_told(c.by_default, 0, ids, owner, c.told);
    lemma_merged(as_default(c.by_default), 0, c.conditional, owner, pom.root, c.told);
    lemma_merged(
        c.active,
        0,
        c.conditional,
        owner,
        pom.root,
        defaults_told(c.by_default, 0, ids, owner, c.told),
    );
}

/// Where the activation of a profile holds, the profiles whose activation
/// holds are merged in, and no others: those that are active by default give
/// way.
pub proof fn defaults_give_way(
    pom: PomModel,
    owner: Option<Seq<char>>,
    told: ReportModel,
)
    requires
        holders(pom.profiles, 0).len() > 0,
    ensures
        applied(pom, owner, told).0 == pom_of(
            all_injected(pom.root, holders(pom.profiles, 0), 0),
        ),
{
    let c0 = ChoiceModel { active: seq![], by_default: seq![], conditional: seq![], told };
    let c = choice_from(pom.profiles, 0, owner, c0);
    lemma_choice(pom.profiles, 0, owner, c0);
    assert(chosen(c0.active) =~= seq![]);
    assert(chosen(c.active) =~= holders(pom.profiles, 0));
    lemma_merged(
        c.active,
        0,
        c.conditional,
        owner,
        pom.root,
        defaults_told(c.by_default, 0, joined(quoted_ids(c.active), ", "@), owner, c.told),
    );
}

} // verus!
