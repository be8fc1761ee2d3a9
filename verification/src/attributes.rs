//! The attributes that `[package.manifest]` adds to a jar.

use crate::chars::{alphanumeric, is_alphanumeric};
use crate::error::{Fault, JrsError};
use crate::template::{template_of, Placeholder, Template, TemplateModel};
use crate::text::{
    cat2, cat3, cat4, cat5, chars, decimal, has_char, includes, none_of, outcome, put, same, show,
    small, to_small,
};
use crate::value::{entry, Entries, Table};
use vstd::prelude::*;

verus! {

/// The same but for the case of ASCII letters.
pub open spec fn alike(a: Seq<char>, b: Seq<char>) -> bool {
    small(a) == small(b)
}

/// Whether two texts are the same but for the case of ASCII letters.
pub fn same_ignoring_case(a: &str, b: &str) -> (r: bool)
    ensures
        r == alike(a@, b@),
{
    same(to_small(a).as_str(), to_small(b).as_str())
}

pub open spec fn attribute_char(c: char) -> bool {
    alphanumeric(c) || c == '-' || c == '_'
}

/// Why a name is not a main-section attribute's, when it is not: an ASCII
/// letter or digit, then letters, digits, `-` and `_`, 70 at most.
pub open spec fn attribute_name_fault(name: Seq<char>) -> Option<Seq<char>> {
    if name.len() == 0 || !alphanumeric(name[0]) || !(forall|i: int|
        1 <= i < name.len() ==> attribute_char(#[trigger] name[i])) {
        Some(
            "an attribute name is an ASCII letter or digit followed by letters, digits, `-` and `_`"@,
        )
    } else if name.len() > 70 {
        Some(
            "an attribute name is at most 70 bytes (this one is "@ + decimal(name.len()) + ")"@,
        )
    } else {
        None
    }
}

/// Why `name` is not a main-section attribute's, when it is not.
pub fn validate_attribute_name(name: &str) -> (r: Option<String>)
    ensures
        r.deep_view() == attribute_name_fault(name@),
{
    let cs = chars(name);
    let mut fine: bool = cs.len() > 0 && is_alphanumeric(cs[0]);
    let mut i: usize = 1;
    while i < cs.len() && fine
        invariant
            cs@ == name@,
            1 <= i,
            fine ==> cs@.len() > 0 && alphanumeric(cs@[0]) && forall|j: int|
                1 <= j < i && j < cs@.len() ==> attribute_char(#[trigger] cs@[j]),
            !fine ==> (cs@.len() == 0 || !alphanumeric(cs@[0]) || exists|j: int|
                1 <= j < cs@.len() && !attribute_char(#[trigger] cs@[j])),
        decreases cs@.len() - i,
    {
        let c: char = cs[i];
        if !(is_alphanumeric(c) || c == '-' || c == '_') {
            assert(!attribute_char(cs@[i as int]));
            fine = false;
        }
        i = i + 1;
    }
    if !fine {
        return Some(
            "an attribute name is an ASCII letter or digit followed by letters, digits, `-` and `_`".to_owned(),
        );
    }
    if cs.len() > 70 {
        return Some(
            cat3(
                "an attribute name is at most 70 bytes (this one is ",
                show(cs.len() as u128).as_str(),
                ")",
            ),
        );
    }
    None
}

/// The `MANIFEST.MF` main attribute that jrs writes itself and that `name`
/// names. `Name` is here too: it starts a per-entry section, and jrs writes
/// the main section only.
pub open spec fn owned_attribute(name: Seq<char>) -> Option<Seq<char>> {
    if alike("Manifest-Version"@, name) {
        Some("Manifest-Version"@)
    } else if alike("Created-By"@, name) {
        Some("Created-By"@)
    } else if alike("Main-Class"@, name) {
        Some("Main-Class"@)
    } else if alike("Class-Path"@, name) {
        Some("Class-Path"@)
    } else if alike("Name"@, name) {
        Some("Name"@)
    } else {
        None
    }
}

fn owned(name: &str) -> (r: Option<&'static str>)
    ensures
        r.deep_view() == owned_attribute(name@),
{
    if same_ignoring_case("Manifest-Version", name) {
        Some("Manifest-Version")
    } else if same_ignoring_case("Created-By", name) {
        Some("Created-By")
    } else if same_ignoring_case("Main-Class", name) {
        Some("Main-Class")
    } else if same_ignoring_case("Class-Path", name) {
        Some("Class-Path")
    } else if same_ignoring_case("Name", name) {
        Some("Name")
    } else {
        None
    }
}

pub open spec fn owned_hint(attribute: Seq<char>) -> Seq<char> {
    if attribute == "Main-Class"@ {
        "set `project.main-class` instead"@
    } else if attribute == "Class-Path"@ {
        "it is written from the runtime classpath (see `jrs package --portable`)"@
    } else if attribute == "Name"@ {
        "it starts a per-entry section, and jrs writes the main section only"@
    } else {
        "jrs writes it itself"@
    }
}

/// The first placeholder from `i` on that a jar attribute cannot use.
pub open spec fn foreign_placeholder_from(ps: Seq<Placeholder>, i: int) -> Option<Placeholder>
    decreases ps.len() - i,
{
    if i < 0 || i >= ps.len() {
        None
    } else if !(ps[i] is ProjectName) && !(ps[i] is ProjectVersion) {
        Some(ps[i])
    } else {
        foreign_placeholder_from(ps, i + 1)
    }
}

fn foreign_placeholder(t: &Template) -> (r: Option<Placeholder>)
    ensures
        r == foreign_placeholder_from(t.deep_view().placeholders(), 0),
{
    let ps = t.placeholders();
    let mut i: usize = 0;
    while i < ps.len()
        invariant
            ps@ == t.deep_view().placeholders(),
            i <= ps@.len(),
            foreign_placeholder_from(ps@, 0) == foreign_placeholder_from(ps@, i as int),
        decreases ps@.len() - i,
    {
        if ps[i] != Placeholder::ProjectName && ps[i] != Placeholder::ProjectVersion {
            return Some(ps[i]);
        }
        i = i + 1;
    }
    None
}

/// The value of the attribute `name` that `raw` is.
pub open spec fn attribute_of(name: Seq<char>, raw: Seq<char>) -> Result<TemplateModel, Fault> {
    let start = "`package.manifest."@ + name + "`: "@;
    match attribute_name_fault(name) {
        Some(why) => Err(Fault::Manifest(start + why)),
        None => match owned_attribute(name) {
            Some(own) => Err(
                Fault::Manifest(
                    start + "`"@ + own + "` belongs to jrs; "@ + owned_hint(own),
                ),
            ),
            None => if includes(raw, '\n') || includes(raw, '\r') || includes(raw, '\0') {
                Err(
                    Fault::Manifest(
                        start + "an attribute value must be one line, with no NUL"@,
                    ),
                )
            } else {
                match template_of(raw) {
                    Err(e) => Err(Fault::Manifest(start + e)),
                    Ok(t) => match foreign_placeholder_from(t.placeholders(), 0) {
                        Some(p) => Err(
                            Fault::Manifest(
                                start + "`{"@ + p.word()
                                    + "}` is not known when a jar is written; an attribute can use `{project.name}` and `{project.version}`"@,
                            ),
                        ),
                        None => Ok(t),
                    },
                }
            },
        },
    }
}

/// One `[package.manifest]` attribute, checked as the parser checks it — a
/// name the jar specification allows, not one jrs writes itself, and a
/// one-line value whose only placeholders are `{project.name}` and
/// `{project.version}` — and its value parsed. The error names
/// `package.manifest.<name>`.
pub fn jar_attribute(name: &str, raw: &str) -> (r: Result<Template, JrsError>)
    ensures
        outcome(r) == attribute_of(name@, raw@),
{
    let start_text = cat3("`package.manifest.", name, "`: ");
    let start = start_text.as_str();
    if let Some(why) = validate_attribute_name(name) {
        return Err(JrsError::Manifest(cat2(start, why.as_str())));
    }
    if let Some(own) = owned(name) {
        let hint: &str = if same(own, "Main-Class") {
            "set `project.main-class` instead"
        } else if same(own, "Class-Path") {
            "it is written from the runtime classpath (see `jrs package --portable`)"
        } else if same(own, "Name") {
            "it starts a per-entry section, and jrs writes the main section only"
        } else {
            "jrs writes it itself"
        };
        return Err(JrsError::Manifest(cat5(start, "`", own, "` belongs to jrs; ", hint)));
    }
    if has_char(raw, '\n') || has_char(raw, '\r') || has_char(raw, '\0') {
        return Err(
            JrsError::Manifest(cat2(start, "an attribute value must be one line, with no NUL")),
        );
    }
    let template = match Template::parse(raw) {
        Ok(t) => t,
        Err(e) => {
            return Err(JrsError::Manifest(cat2(start, e.as_str())));
        },
    };
    if let Some(p) = foreign_placeholder(&template) {
        return Err(
            JrsError::Manifest(
                cat4(
                    start,
                    "`{",
                    p.name(),
                    "}` is not known when a jar is written; an attribute can use `{project.name}` and `{project.version}`",
                ),
            ),
        );
    }
    Ok(template)
}

/// The first name of the list that is `name` but for its case.
pub open spec fn name_alike(list: Seq<(Seq<char>, TemplateModel)>, name: Seq<char>, i: int) -> Option<
    Seq<char>,
>
    decreases list.len() - i,
{
    if i < 0 || i >= list.len() {
        None
    } else if alike(list[i].0, name) {
        Some(list[i].0)
    } else {
        name_alike(list, name, i + 1)
    }
}

pub fn find_alike<'a>(list: &'a Vec<(String, Template)>, name: &str) -> (r: Option<&'a str>)
    ensures
        r.deep_view() == name_alike(list.deep_view(), name@, 0),
{
    let ghost all = list.deep_view();
    let mut i: usize = 0;
    while i < list.len()
        invariant
            all == list.deep_view(),
            i <= list@.len(),
            name_alike(all, name@, 0) == name_alike(all, name@, i as int),
        decreases list@.len() - i,
    {
        assert(all[i as int].0 == list@[i as int].0@);
        if same_ignoring_case(list[i].0.as_str(), name) {
            return Some(list[i].0.as_str());
        }
        i = i + 1;
    }
    None
}

pub open spec fn attributes_from(t: Entries, i: int, out: Seq<(Seq<char>, TemplateModel)>) -> Result<
    Seq<(Seq<char>, TemplateModel)>,
    Fault,
>
    decreases t.len() - i,
{
    if i < 0 || i >= t.len() {
        Ok(out)
    } else {
        let (name, value) = t[i];
        match name_alike(out, name, 0) {
            Some(earlier) => Err(
                Fault::Manifest(
                    "`package.manifest."@ + name + "`: `"@ + earlier
                        + "` is already set; attribute names are case-insensitive"@,
                ),
            ),
            None => match value.text() {
                None => Err(
                    Fault::Manifest("`package.manifest."@ + name + "` must be a string"@),
                ),
                Some(raw) => match attribute_of(name, raw) {
                    Err(e) => Err(e),
                    Ok(template) => attributes_from(t, i + 1, out.push((name, template))),
                },
            },
        }
    }
}

/// `[package.manifest]`, from the `[package]` table.
pub open spec fn attribute_table(t: Entries) -> Result<Seq<(Seq<char>, TemplateModel)>, Fault> {
    match entry(t, "manifest"@) {
        None => Ok(seq![]),
        Some(v) => match v.table() {
            None => Err(
                Fault::Manifest(
                    "`package.manifest` must be a table of attribute names to strings, e.g.\n\n    [package.manifest]\n    Implementation-Title = \"My App\""@,
                ),
            ),
            Some(inner) => attributes_from(inner, 0, seq![]),
        },
    }
}

/// `[package.manifest]`: attribute names to string values, in declaration
/// order. Each name is checked against the jar specification and against the
/// attributes jrs writes itself, and each value may use `{project.name}` and
/// `{project.version}` — nothing else is known when a jar is written.
pub fn parse_jar_attributes(t: &Table) -> (r: Result<Vec<(String, Template)>, JrsError>)
    ensures
        outcome(r) == attribute_table(t.deep_view()),
{
    let Some(value) = t.get("manifest") else {
        return Ok(none_of());
    };
    let Some(table) = value.as_table() else {
        return Err(
            JrsError::Manifest(
                "`package.manifest` must be a table of attribute names to strings, e.g.\n\n    [package.manifest]\n    Implementation-Title = \"My App\"".to_owned(),
            ),
        );
    };
    let ghost all = table.deep_view();
    let mut out: Vec<(String, Template)> = none_of();
    let mut i: usize = 0;
    while i < table.entries.len()
        invariant
            all == table.deep_view(),
            i <= table.entries@.len(),
            attribute_table(t.deep_view()) == attributes_from(all, i as int, out.deep_view()),
        decreases table.entries@.len() - i,
    {
        let (name, v) = &table.entries[i];
        assert(all[i as int] == (name@, v.deep_view()));
        if let Some(earlier) = find_alike(&out, name.as_str()) {
            return Err(
                JrsError::Manifest(
                    cat5(
                        "`package.manifest.",
                        name.as_str(),
                        "`: `",
                        earlier,
                        "` is already set; attribute names are case-insensitive",
                    ),
                ),
            );
        }
        let Some(raw) = v.as_str() else {
            return Err(
                JrsError::Manifest(
                    cat3("`package.manifest.", name.as_str(), "` must be a string"),
                ),
            );
        };
        match jar_attribute(name.as_str(), raw) {
            Err(e) => {
                return Err(e);
            },
            Ok(template) => {
                put(&mut out, (name.clone(), template));
            },
        }
        i = i + 1;
    }
    Ok(out)
}

proof fn lemma_no_foreign(ps: Seq<Placeholder>, i: int, k: int)
    requires
        0 <= i <= k < ps.len(),
        foreign_placeholder_from(ps, i) is None,
    ensures
        ps[k] is ProjectName || ps[k] is ProjectVersion,
    decreases k - i,
{
    if i < k {
        lemma_no_foreign(ps, i + 1, k);
    }
}

/// An attribute that is accepted uses no placeholder but the project's name
/// and version, so that it can always be expanded.
pub proof fn attributes_can_be_expanded(name: Seq<char>, raw: Seq<char>, p: Placeholder)
    ensures
        attribute_of(name, raw) matches Ok(t) ==> (t.uses(p) ==> p is ProjectName
            || p is ProjectVersion),
{
    if let Ok(t) = attribute_of(name, raw) {
        if t.uses(p) {
            let ps = t.placeholders();
            let k = choose|k: int| 0 <= k < ps.len() && ps[k] == p;
            lemma_no_foreign(ps, 0, k);
        }
    }
}

} // verus!
