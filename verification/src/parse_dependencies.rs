//! Reading dependencies, managed versions and repositories.

use crate::chars::{digit, is_alphanumeric, is_digit};
use crate::coord::{is_range, range};
use crate::dependency::{
    good_pattern, group_char, local_jar, open_repository, plain_dependency, valid_group_pattern,
    Dependency, DependencyModel, Exclusion, Managed, ManagedModel, Repository, RepositoryModel,
    CENTRAL_NAME, CENTRAL_URL,
};
use crate::error::{Fault, JrsError};
use crate::keys::{
    among, bool_key, first_unknown, optional_string, optional_text, string_array, switch_of,
    text_list, unknown_key,
};
use crate::text::{
    cat2, cat3, cat4, cat5, cat6, cat7, chars, cut, drop_run, ends, ends_with, includes, has_char,
    none_of, outcome, pieces, put, replace, replaced, same, sans_tail, split, split_once, starts,
    starts_with, trim, trimmed, Class,
};
use crate::value::{entry, Datum, Entries, Table, Tree, TreeKind};
use vstd::prelude::*;

verus! {

// ---- coordinates -----------------------------------------------------------

/// `group:artifact`, or `group:artifact:classifier`. A third part that starts
/// with a digit is a version, not a classifier.
pub open spec fn coordinate(key: Seq<char>, section: Seq<char>) -> Result<
    (Seq<char>, Seq<char>, Option<Seq<char>>),
    Fault,
> {
    let parts = pieces(key, ':');
    if parts.len() == 2 && parts[0].len() > 0 && parts[1].len() > 0 {
        Ok((parts[0], parts[1], None))
    } else if parts.len() == 3 && parts[0].len() > 0 && parts[1].len() > 0 && parts[2].len() > 0
        && !digit(parts[2][0]) {
        Ok((parts[0], parts[1], Some(parts[2])))
    } else {
        Err(
            Fault::Manifest(
                "`"@ + section + ".\""@ + key
                    + "\"`: dependency keys must be `group:artifact` (the version belongs on the right-hand side)"@,
            ),
        )
    }
}

pub fn split_coordinate(key: &str, section: &str) -> (r: Result<
    (String, String, Option<String>),
    JrsError,
>)
    ensures
        outcome(r) == coordinate(key@, section@),
{
    let parts = split(key, ':');
    let ghost all = parts.deep_view();
    if parts.len() == 2 {
        assert(all[0] == parts@[0]@ && all[1] == parts@[1]@);
        if !parts[0].is_empty() && !parts[1].is_empty() {
            return Ok((parts[0].to_owned(), parts[1].to_owned(), None));
        }
    } else if parts.len() == 3 {
        assert(all[0] == parts@[0]@ && all[1] == parts@[1]@ && all[2] == parts@[2]@);
        if !parts[0].is_empty() && !parts[1].is_empty() && !parts[2].is_empty() && !is_digit(
            parts[2].get_char(0),
        ) {
            return Ok((parts[0].to_owned(), parts[1].to_owned(), Some(parts[2].to_owned())));
        }
    }
    Err(
        JrsError::Manifest(
            cat5(
                "`",
                section,
                ".\"",
                key,
                "\"`: dependency keys must be `group:artifact` (the version belongs on the right-hand side)",
            ),
        ),
    )
}

/// `section."key"`.
pub open spec fn entry_name(section: Seq<char>, key: Seq<char>) -> Seq<char> {
    section + ".\""@ + key + "\""@
}

/// `` `section."key".field` ``.
pub open spec fn field_name(section: Seq<char>, key: Seq<char>, field: Seq<char>) -> Seq<char> {
    "`"@ + section + ".\""@ + key + "\"."@ + field + "`"@
}

fn name_field(section: &str, key: &str, field: &str) -> (r: String)
    ensures
        r@ == field_name(section@, key@, field@),
{
    cat7("`", section, ".\"", key, "\".", field, "`")
}

// ---- one dependency --------------------------------------------------------

pub open spec fn one_classpath_fault(dep: DependencyModel, section: Seq<char>) -> Option<Fault> {
    if dep.compile_only && dep.runtime_only {
        Some(
            Fault::Manifest(
                "`"@ + section + ".\""@ + dep.key()
                    + "\"` is both `compile-only` and `runtime-only`, which is what a plain dependency is; drop both"@,
            ),
        )
    } else {
        None
    }
}

/// What is wrong with a dependency that would be on one classpath only, twice.
fn check_one_classpath(dep: &Dependency, section: &str) -> (r: Option<JrsError>)
    ensures
        r.deep_view() == one_classpath_fault(dep.deep_view(), section@),
{
    if dep.compile_only && dep.runtime_only {
        return Some(
            JrsError::Manifest(
                cat5(
                    "`",
                    section,
                    ".\"",
                    dep.key().as_str(),
                    "\"` is both `compile-only` and `runtime-only`, which is what a plain dependency is; drop both",
                ),
            ),
        );
    }
    None
}

/// The dependency with the switches that its table sets.
pub open spec fn with_switches(
    dep: DependencyModel,
    key: Seq<char>,
    t: Entries,
    section: Seq<char>,
) -> Result<DependencyModel, Fault> {
    match switch_of(t, "compile-only"@, field_name(section, key, "compile-only"@)) {
        Err(e) => Err(e),
        Ok(compile_only) => match switch_of(
            t,
            "runtime-only"@,
            field_name(section, key, "runtime-only"@),
        ) {
            Err(e) => Err(e),
            Ok(runtime_only) => {
                let done = DependencyModel { compile_only, runtime_only, ..dep };
                match one_classpath_fault(done, section) {
                    Some(e) => Err(e),
                    None => Ok(done),
                }
            },
        },
    }
}

fn set_switches(dep: Dependency, key: &str, t: &Table, section: &str) -> (r: Result<
    Dependency,
    JrsError,
>)
    ensures
        outcome(r) == with_switches(dep.deep_view(), key@, t.deep_view(), section@),
{
    let compile_only = match bool_key(
        t,
        "compile-only",
        name_field(section, key, "compile-only").as_str(),
    ) {
        Ok(b) => b,
        Err(e) => {
            return Err(e);
        },
    };
    let runtime_only = match bool_key(
        t,
        "runtime-only",
        name_field(section, key, "runtime-only").as_str(),
    ) {
        Ok(b) => b,
        Err(e) => {
            return Err(e);
        },
    };
    let mut done = dep;
    done.compile_only = compile_only;
    done.runtime_only = runtime_only;
    match check_one_classpath(&done, section) {
        Some(e) => Err(e),
        None => Ok(done),
    }
}

/// A character of a local jar's name: a letter, a digit, `.`, `-` or `_`.
pub open spec fn jar_key(key: Seq<char>) -> bool {
    key.len() > 0 && forall|i: int| 0 <= i < key.len() ==> group_char(#[trigger] key[i])
}

pub fn is_jar_key(key: &str) -> (r: bool)
    ensures
        r == jar_key(key@),
{
    let cs = chars(key);
    if cs.len() == 0 {
        return false;
    }
    let mut i: usize = 0;
    while i < cs.len()
        invariant
            cs@ == key@,
            i <= cs@.len(),
            forall|j: int| 0 <= j < i ==> group_char(#[trigger] cs@[j]),
        decreases cs@.len() - i,
    {
        let c: char = cs[i];
        if !(is_alphanumeric(c) || c == '.' || c == '-' || c == '_') {
            assert(!group_char(key@[i as int]));
            return false;
        }
        i = i + 1;
    }
    true
}

pub open spec fn local_keys() -> Seq<Seq<char>> {
    seq!["path"@, "compile-only"@, "runtime-only"@]
}

pub open spec fn stray_local_key(section: Seq<char>, key: Seq<char>, k: Seq<char>) -> Seq<char> {
    let why = if k == "version"@ || k == "classifier"@ || k == "exclusions"@ {
        " — a local jar is taken as it is: it has no coordinate and no transitive graph"@
    } else {
        ""@
    };
    "`"@ + section + ".\""@ + key + "\"`: `"@ + k + "` does not go with `path`"@ + why
        + " (expected `path`, `compile-only` or `runtime-only`)"@
}

/// A path inside the project that names a file.
pub open spec fn inside(path: Seq<char>) -> bool {
    &&& trimmed(path).len() > 0
    &&& !starts(path, "/"@)
    &&& !pieces(path, '/').contains(".."@)
    &&& !ends(path, "/"@)
}

/// Whether `path` is inside the project and names a file.
pub fn is_inside(path: &str) -> (r: bool)
    ensures
        r == inside(path@),
{
    if trim(path).is_empty() || starts_with(path, "/") || ends_with(path, "/") {
        return false;
    }
    let parts = split(path, '/');
    !among(&parts, "..")
}

/// `name = { path = "libs/driver.jar" }`: a jar taken as it is, from inside
/// the project.
pub open spec fn local_of(key: Seq<char>, t: Entries, section: Seq<char>) -> Result<
    DependencyModel,
    Fault,
> {
    if !jar_key(key) {
        Err(
            Fault::Manifest(
                "`"@ + section + ".\""@ + key
                    + "\"` has a `path`, so it is a local jar, and its key is a name of its own: letters, digits, `.`, `-` and `_`, such as `oracle-driver`"@,
            ),
        )
    } else {
        match first_unknown(t, local_keys(), 0) {
            Some(k) => Err(Fault::Manifest(stray_local_key(section, key, k))),
            None => match optional_text(t, "path"@, entry_name(section, key)) {
                Err(e) => Err(e),
                Ok(given) => {
                    let raw = match given {
                        Some(s) => s,
                        None => seq![],
                    };
                    let path = replaced(raw, "\\"@, "/"@);
                    if !inside(path) {
                        Err(
                            Fault::Manifest(
                                field_name(section, key, "path"@)
                                    + " must name a jar file inside the project, relative to its root (got `"@
                                    + raw + "`)"@,
                            ),
                        )
                    } else {
                        with_switches(local_jar(key, path), key, t, section)
                    }
                },
            },
        }
    }
}

pub fn parse_local_jar(key: &str, t: &Table, section: &str) -> (r: Result<Dependency, JrsError>)
    ensures
        outcome(r) == local_of(key@, t.deep_view(), section@),
{
    if !is_jar_key(key) {
        return Err(
            JrsError::Manifest(
                cat5(
                    "`",
                    section,
                    ".\"",
                    key,
                    "\"` has a `path`, so it is a local jar, and its key is a name of its own: letters, digits, `.`, `-` and `_`, such as `oracle-driver`",
                ),
            ),
        );
    }
    let known: Vec<&str> = vec!["path", "compile-only", "runtime-only"];
    assert(known.deep_view() =~= local_keys());
    if let Some(k) = unknown_key(t, &known) {
        let why: &str = if same(k, "version") || same(k, "classifier") || same(k, "exclusions") {
            " — a local jar is taken as it is: it has no coordinate and no transitive graph"
        } else {
            ""
        };
        let start = cat5("`", section, ".\"", key, "\"`: `");
        return Err(
            JrsError::Manifest(
                cat5(
                    start.as_str(),
                    k,
                    "` does not go with `path`",
                    why,
                    " (expected `path`, `compile-only` or `runtime-only`)",
                ),
            ),
        );
    }
    let raw = match optional_string(t, "path", cat4(section, ".\"", key, "\"").as_str()) {
        Err(e) => {
            return Err(e);
        },
        Ok(Some(s)) => s,
        Ok(None) => String::new(),
    };
    proof {
        reveal_strlit("\\");
        if optional_text(t.deep_view(), "path"@, entry_name(section@, key@)) == Ok::<
            Option<Seq<char>>,
            Fault,
        >(None) {
            assert(raw@ =~= seq![]);
        }
    }
    let path = replace(raw.as_str(), "\\", "/");
    if !is_inside(path.as_str()) {
        return Err(
            JrsError::Manifest(
                cat4(
                    name_field(section, key, "path").as_str(),
                    " must name a jar file inside the project, relative to its root (got `",
                    raw.as_str(),
                    "`)",
                ),
            ),
        );
    }
    set_switches(Dependency::local(key, path.as_str()), key, t, section)
}

pub open spec fn dependency_keys() -> Seq<Seq<char>> {
    seq!["version"@, "classifier"@, "exclusions"@, "compile-only"@, "runtime-only"@, "path"@]
}

/// The version of the long form; empty when it is left to `[managed]`.
pub open spec fn long_version(key: Seq<char>, t: Entries, section: Seq<char>) -> Result<
    Seq<char>,
    Fault,
> {
    match entry(t, "version"@) {
        None => Ok(""@),
        Some(v) => match v.text() {
            Some(s) => if trimmed(s).len() > 0 {
                Ok(s)
            } else {
                Err(
                    Fault::Manifest(
                        "`"@ + section + ".\""@ + key
                            + "\"` has an empty version; leave `version` out to take it from [managed]"@,
                    ),
                )
            },
            None => Err(
                Fault::Manifest(
                    field_name(section, key, "version"@) + " must be a version string"@,
                ),
            ),
        },
    }
}

fn read_version(key: &str, t: &Table, section: &str) -> (r: Result<String, JrsError>)
    ensures
        outcome(r) == long_version(key@, t.deep_view(), section@),
{
    match t.get("version") {
        None => Ok("".to_owned()),
        Some(v) => match v.as_str() {
            Some(s) => if !trim(s).is_empty() {
                Ok(s.to_owned())
            } else {
                Err(
                    JrsError::Manifest(
                        cat5(
                            "`",
                            section,
                            ".\"",
                            key,
                            "\"` has an empty version; leave `version` out to take it from [managed]",
                        ),
                    ),
                )
            },
            None => Err(
                JrsError::Manifest(
                    cat2(
                        name_field(section, key, "version").as_str(),
                        " must be a version string",
                    ),
                ),
            ),
        },
    }
}

/// The classifier of the long form, which the key may have named already.
pub open spec fn long_classifier(
    key: Seq<char>,
    in_key: Option<Seq<char>>,
    t: Entries,
    section: Seq<char>,
) -> Result<Option<Seq<char>>, Fault> {
    match optional_text(t, "classifier"@, entry_name(section, key)) {
        Err(e) => Err(e),
        Ok(None) => Ok(in_key),
        Ok(Some(c)) => if in_key is Some && in_key->0 != c {
            Err(
                Fault::Manifest(
                    field_name(section, key, "classifier"@) + " says `"@ + c
                        + "`, but the key names another classifier"@,
                ),
            )
        } else if c.len() == 0 {
            Ok(None)
        } else {
            Ok(Some(c))
        },
    }
}

fn read_classifier(key: &str, in_key: Option<String>, t: &Table, section: &str) -> (r: Result<
    Option<String>,
    JrsError,
>)
    ensures
        outcome(r) == long_classifier(key@, in_key.deep_view(), t.deep_view(), section@),
{
    match optional_string(t, "classifier", cat4(section, ".\"", key, "\"").as_str()) {
        Err(e) => Err(e),
        Ok(None) => Ok(in_key),
        Ok(Some(c)) => {
            if let Some(k) = &in_key {
                if !same(k.as_str(), c.as_str()) {
                    return Err(
                        JrsError::Manifest(
                            cat4(
                                name_field(section, key, "classifier").as_str(),
                                " says `",
                                c.as_str(),
                                "`, but the key names another classifier",
                            ),
                        ),
                    );
                }
            }
            if c.as_str().is_empty() {
                Ok(None)
            } else {
                Ok(Some(c))
            }
        },
    }
}

/// A `group:artifact` pattern of `exclusions`.
pub open spec fn exclusion_of(pattern: Seq<char>) -> Option<(Seq<char>, Seq<char>)> {
    match cut(pattern, ":"@) {
        Some((g, a)) => if g.len() > 0 && a.len() > 0 && !includes(a, ':') {
            Some((g, a))
        } else {
            None
        },
        None => None,
    }
}

/// The exclusions that the patterns from `i` on name, after those before it.
pub open spec fn exclusions_from(
    patterns: Seq<Seq<char>>,
    i: int,
    out: Seq<(Seq<char>, Seq<char>)>,
    name: Seq<char>,
) -> Result<Seq<(Seq<char>, Seq<char>)>, Fault>
    decreases patterns.len() - i,
{
    if i < 0 || i >= patterns.len() {
        Ok(out)
    } else {
        match exclusion_of(patterns[i]) {
            Some(e) => exclusions_from(patterns, i + 1, out.push(e), name),
            None => Err(
                Fault::Manifest(
                    name + ": `"@ + patterns[i]
                        + "` is not a `group:artifact` pattern (`*` may stand for either half)"@,
                ),
            ),
        }
    }
}

/// The exclusions of the long form.
pub open spec fn long_exclusions(key: Seq<char>, t: Entries, section: Seq<char>) -> Result<
    Seq<(Seq<char>, Seq<char>)>,
    Fault,
> {
    match text_list(t, "exclusions"@, entry_name(section, key)) {
        Err(e) => Err(e),
        Ok(patterns) => exclusions_from(
            patterns,
            0,
            seq![],
            field_name(section, key, "exclusions"@),
        ),
    }
}

fn read_exclusions(key: &str, t: &Table, section: &str) -> (r: Result<Vec<Exclusion>, JrsError>)
    ensures
        outcome(r) == long_exclusions(key@, t.deep_view(), section@),
{
    let patterns = match string_array(t, "exclusions", cat4(section, ".\"", key, "\"").as_str()) {
        Ok(p) => p,
        Err(e) => {
            return Err(e);
        },
    };
    let name = name_field(section, key, "exclusions");
    let ghost all = patterns.deep_view();
    let mut out: Vec<Exclusion> = none_of();
    let mut i: usize = 0;
    while i < patterns.len()
        invariant
            all == patterns.deep_view(),
            name@ == field_name(section@, key@, "exclusions"@),
            i <= patterns@.len(),
            long_exclusions(key@, t.deep_view(), section@) == exclusions_from(
                all,
                i as int,
                out.deep_view(),
                name@,
            ),
        decreases patterns@.len() - i,
    {
        let pattern = patterns[i].as_str();
        assert(all[i as int] == pattern@);
        if let Some((g, a)) = split_once(pattern, ":") {
            if !g.is_empty() && !a.is_empty() && !has_char(a, ':') {
                put(&mut out, Exclusion { group: g.to_owned(), artifact: a.to_owned() });
                i = i + 1;
                continue ;
            }
        }
        return Err(
            JrsError::Manifest(
                cat4(
                    name.as_str(),
                    ": `",
                    pattern,
                    "` is not a `group:artifact` pattern (`*` may stand for either half)",
                ),
            ),
        );
    }
    Ok(out)
}

/// The long form: a table with a version and what goes with it.
pub open spec fn long_form(
    key: Seq<char>,
    coordinate: (Seq<char>, Seq<char>, Option<Seq<char>>),
    t: Entries,
    section: Seq<char>,
) -> Result<DependencyModel, Fault> {
    match first_unknown(t, dependency_keys(), 0) {
        Some(k) => Err(
            Fault::Manifest(
                "`"@ + section + ".\""@ + key + "\"`: unknown key `"@ + k
                    + "` (expected `version`, `classifier`, `exclusions`, `compile-only`, `runtime-only` or `path`)"@,
            ),
        ),
        None => match long_version(key, t, section) {
            Err(e) => Err(e),
            Ok(version) => match long_classifier(key, coordinate.2, t, section) {
                Err(e) => Err(e),
                Ok(classifier) => match long_exclusions(key, t, section) {
                    Err(e) => Err(e),
                    Ok(exclusions) => with_switches(
                        DependencyModel {
                            classifier,
                            exclusions,
                            ..plain_dependency(coordinate.0, coordinate.1, version)
                        },
                        key,
                        t,
                        section,
                    ),
                },
            },
        },
    }
}

fn read_long_form(
    key: &str,
    coordinate: (String, String, Option<String>),
    t: &Table,
    section: &str,
) -> (r: Result<Dependency, JrsError>)
    ensures
        outcome(r) == long_form(key@, coordinate.deep_view(), t.deep_view(), section@),
{
    let known: Vec<&str> = vec![
        "version",
        "classifier",
        "exclusions",
        "compile-only",
        "runtime-only",
        "path",
    ];
    assert(known.deep_view() =~= dependency_keys());
    if let Some(k) = unknown_key(t, &known) {
        return Err(
            JrsError::Manifest(
                cat7(
                    "`",
                    section,
                    ".\"",
                    key,
                    "\"`: unknown key `",
                    k,
                    "` (expected `version`, `classifier`, `exclusions`, `compile-only`, `runtime-only` or `path`)",
                ),
            ),
        );
    }
    let version = match read_version(key, t, section) {
        Ok(v) => v,
        Err(e) => {
            return Err(e);
        },
    };
    let (group, artifact, in_key) = coordinate;
    let classifier = match read_classifier(key, in_key, t, section) {
        Ok(c) => c,
        Err(e) => {
            return Err(e);
        },
    };
    let exclusions = match read_exclusions(key, t, section) {
        Ok(x) => x,
        Err(e) => {
            return Err(e);
        },
    };
    let mut dep = Dependency::new(group.as_str(), artifact.as_str(), version.as_str());
    dep.classifier = classifier;
    dep.exclusions = exclusions;
    set_switches(dep, key, t, section)
}

/// The dependency that the entry `key` of a table declares.
pub open spec fn dependency_of(key: Seq<char>, v: Tree, section: Seq<char>) -> Result<
    DependencyModel,
    Fault,
> {
    if v.table() is Some && entry(v.table()->0, "path"@) is Some {
        local_of(key, v.table()->0, section)
    } else {
        match coordinate(key, section) {
            Err(e) => Err(e),
            Ok(c) => match v.kind {
                TreeKind::Text(version) => if trimmed(version).len() == 0 {
                    Err(
                        Fault::Manifest(
                            "`"@ + section + ".\""@ + key
                                + "\"` has an empty version; write `{}` to take it from [managed]"@,
                        ),
                    )
                } else {
                    Ok(
                        DependencyModel {
                            classifier: c.2,
                            ..plain_dependency(c.0, c.1, version)
                        },
                    )
                },
                TreeKind::Table(t) => long_form(key, c, t, section),
                _ => Err(
                    Fault::Manifest(
                        "`"@ + section + ".\""@ + key
                            + "\"` must be a version string or a table with a `version` key"@,
                    ),
                ),
            },
        }
    }
}

fn read_dependency(key: &str, v: &Datum, section: &str) -> (r: Result<Dependency, JrsError>)
    ensures
        outcome(r) == dependency_of(key@, v.deep_view(), section@),
{
    if let Some(t) = v.as_table() {
        if t.contains_key("path") {
            return parse_local_jar(key, t, section);
        }
    }
    let c = match split_coordinate(key, section) {
        Ok(c) => c,
        Err(e) => {
            return Err(e);
        },
    };
    if let Some(version) = v.as_str() {
        if trim(version).is_empty() {
            return Err(
                JrsError::Manifest(
                    cat5(
                        "`",
                        section,
                        ".\"",
                        key,
                        "\"` has an empty version; write `{}` to take it from [managed]",
                    ),
                ),
            );
        }
        let mut dep = Dependency::new(c.0.as_str(), c.1.as_str(), version);
        dep.classifier = c.2;
        return Ok(dep);
    }
    if let Some(t) = v.as_table() {
        return read_long_form(key, c, t, section);
    }
    Err(
        JrsError::Manifest(
            cat5(
                "`",
                section,
                ".\"",
                key,
                "\"` must be a version string or a table with a `version` key",
            ),
        ),
    )
}

// ---- a table of dependencies -----------------------------------------------

/// Some dependency of the list has the key.
pub open spec fn keyed(list: Seq<DependencyModel>, key: Seq<char>) -> bool {
    exists|i: int| 0 <= i < list.len() && (#[trigger] list[i]).key() == key
}

/// Whether some dependency of the list has the key.
pub fn has_key(list: &Vec<Dependency>, key: &str) -> (r: bool)
    ensures
        r == keyed(list.deep_view(), key@),
{
    let ghost all = list.deep_view();
    let mut i: usize = 0;
    while i < list.len()
        invariant
            all == list.deep_view(),
            i <= list@.len(),
            forall|j: int| 0 <= j < i ==> (#[trigger] all[j]).key() != key@,
        decreases list@.len() - i,
    {
        assert(all[i as int] == list@[i as int].deep_view());
        if same(list[i].key().as_str(), key) {
            return true;
        }
        i = i + 1;
    }
    false
}

/// The dependencies that the entries from `i` on declare, after those before.
pub open spec fn dependencies_from(
    t: Entries,
    section: Seq<char>,
    i: int,
    out: Seq<DependencyModel>,
) -> Result<Seq<DependencyModel>, Fault>
    decreases t.len() - i,
{
    if i < 0 || i >= t.len() {
        Ok(out)
    } else {
        match dependency_of(t[i].0, t[i].1, section) {
            Err(e) => Err(e),
            Ok(dep) => if keyed(out, dep.key()) {
                Err(Fault::Manifest("`"@ + section + "` declares `"@ + dep.key() + "` twice"@))
            } else {
                dependencies_from(t, section, i + 1, out.push(dep))
            },
        }
    }
}

/// The dependencies that a table declares, in order.
pub open spec fn dependency_table(value: Option<Tree>, section: Seq<char>) -> Result<
    Seq<DependencyModel>,
    Fault,
> {
    match value {
        None => Ok(seq![]),
        Some(v) => match v.table() {
            None => Err(Fault::Manifest("`"@ + section + "` must be a table"@)),
            Some(t) => dependencies_from(t, section, 0, seq![]),
        },
    }
}

/// A table of dependencies; `section` is how messages name it.
pub fn parse_dependency_table(value: Option<&Datum>, section: &str) -> (r: Result<
    Vec<Dependency>,
    JrsError,
>)
    ensures
        outcome(r) == dependency_table(value.deep_view(), section@),
{
    let Some(given) = value else {
        return Ok(none_of());
    };
    let Some(deps) = given.as_table() else {
        return Err(JrsError::Manifest(cat3("`", section, "` must be a table")));
    };
    let ghost all = deps.deep_view();
    let mut out: Vec<Dependency> = none_of();
    let mut i: usize = 0;
    while i < deps.entries.len()
        invariant
            all == deps.deep_view(),
            i <= deps.entries@.len(),
            dependency_table(value.deep_view(), section@) == dependencies_from(
                all,
                section@,
                i as int,
                out.deep_view(),
            ),
        decreases deps.entries@.len() - i,
    {
        let (key, v) = &deps.entries[i];
        assert(all[i as int] == (key@, v.deep_view()));
        let dep = match read_dependency(key.as_str(), v, section) {
            Ok(dep) => dep,
            Err(e) => {
                return Err(e);
            },
        };
        let own = dep.key();
        if has_key(&out, own.as_str()) {
            return Err(
                JrsError::Manifest(cat5("`", section, "` declares `", own.as_str(), "` twice")),
            );
        }
        put(&mut out, dep);
        i = i + 1;
    }
    Ok(out)
}

/// The table `section` of dependencies.
pub fn parse_dependencies(table: &Table, section: &str) -> (r: Result<Vec<Dependency>, JrsError>)
    ensures
        outcome(r) == dependency_table(entry(table.deep_view(), section@), section@),
{
    parse_dependency_table(table.get(section), section)
}

/// Every key comes once.
pub open spec fn keys_distinct(list: Seq<DependencyModel>) -> bool {
    forall|i: int, j: int|
        0 <= i < j < list.len() ==> (#[trigger] list[i]).key() != (#[trigger] list[j]).key()
}

proof fn lemma_distinct_from(t: Entries, section: Seq<char>, i: int, out: Seq<DependencyModel>)
    requires
        0 <= i,
        keys_distinct(out),
    ensures
        dependencies_from(t, section, i, out) matches Ok(list) ==> keys_distinct(list)
            && out.len() <= list.len() && list.take(out.len() as int) == out && (i <= t.len()
            ==> list.len() == out.len() + t.len() - i),
    decreases t.len() - i,
{
    if i < t.len() {
        match dependency_of(t[i].0, t[i].1, section) {
            Ok(dep) => {
                if !keyed(out, dep.key()) {
                    let next = out.push(dep);
                    assert forall|a: int, b: int| 0 <= a < b < next.len() implies (
                    #[trigger] next[a]).key() != (#[trigger] next[b]).key() by {
                        assert(next[a] == out[a]);
                        if b < out.len() {
                            assert(next[b] == out[b]);
                        }
                    }
                    lemma_distinct_from(t, section, i + 1, next);
                    if let Ok(list) = dependencies_from(t, section, i + 1, next) {
                        assert(list.take(out.len() as int) =~= list.take(
                            next.len() as int,
                        ).take(out.len() as int));
                        assert(next.take(out.len() as int) =~= out);
                    }
                }
            },
            Err(_) => {},
        }
    } else {
        assert(out.take(out.len() as int) =~= out);
    }
}

/// A table that is read declares each key once, and as many dependencies as it
/// has entries.
pub proof fn dependency_keys_are_unique(value: Option<Tree>, section: Seq<char>)
    ensures
        dependency_table(value, section) matches Ok(list) ==> keys_distinct(list) && list.len() == (
        match value {
            Some(v) => v.table()->0.len(),
            None => 0,
        }),
{
    if let Some(v) = value {
        if let Some(t) = v.table() {
            lemma_distinct_from(t, section, 0, seq![]);
        }
    }
}

// ---- managed versions ------------------------------------------------------

pub open spec fn managed_keys() -> Seq<Seq<char>> {
    seq!["version"@, "bom"@]
}

/// The version and the kind that the value of a `[managed]` entry says.
pub open spec fn managed_value(key: Seq<char>, v: Tree) -> Result<(Seq<char>, bool), Fault> {
    match v.kind {
        TreeKind::Text(version) => Ok((version, false)),
        TreeKind::Table(t) => match first_unknown(t, managed_keys(), 0) {
            Some(k) => Err(
                Fault::Manifest(
                    "`managed.\""@ + key + "\"`: unknown key `"@ + k
                        + "` (expected `version` or `bom`)"@,
                ),
            ),
            None => match optional_text(t, "version"@, "managed.\""@ + key + "\""@) {
                Err(e) => Err(e),
                Ok(None) => Err(
                    Fault::Manifest(
                        "`managed.\""@ + key + "\"` is missing a `version` string"@,
                    ),
                ),
                Ok(Some(version)) => match switch_of(
                    t,
                    "bom"@,
                    "`managed.\""@ + key + "\".bom`"@,
                ) {
                    Err(e) => Err(e),
                    Ok(bom) => Ok((version, bom)),
                },
            },
        },
        _ => Err(
            Fault::Manifest(
                "`managed.\""@ + key
                    + "\"` must be a version string, or a table with `version` and `bom = true`"@,
            ),
        ),
    }
}

/// What the `[managed]` entry `key` says.
pub open spec fn managed_of(key: Seq<char>, v: Tree) -> Result<ManagedModel, Fault> {
    match coordinate(key, "managed"@) {
        Err(e) => Err(e),
        Ok((group, artifact, classifier)) => if classifier is Some {
            Err(
                Fault::Manifest(
                    "`managed.\""@ + key
                        + "\"`: a managed version applies to every classifier of `group:artifact`, so the key names no classifier"@,
                ),
            )
        } else {
            match managed_value(key, v) {
                Err(e) => Err(e),
                Ok((given, bom)) => {
                    let version = trimmed(given);
                    if version.len() == 0 {
                        Err(
                            Fault::Manifest("`managed.\""@ + key + "\"` has an empty version"@),
                        )
                    } else if range(version) {
                        Err(
                            Fault::Manifest(
                                "`managed.\""@ + key + "\"` is the range `"@ + version
                                    + "`; a managed version is exact, like every other"@,
                            ),
                        )
                    } else {
                        Ok(ManagedModel { group, artifact, version, bom })
                    }
                },
            }
        },
    }
}

/// Some entry of the list manages `group:artifact`.
pub open spec fn manages(list: Seq<ManagedModel>, group: Seq<char>, artifact: Seq<char>) -> bool {
    exists|i: int|
        0 <= i < list.len() && (#[trigger] list[i]).group == group && list[i].artifact == artifact
}

pub open spec fn managed_from(t: Entries, i: int, out: Seq<ManagedModel>) -> Result<
    Seq<ManagedModel>,
    Fault,
>
    decreases t.len() - i,
{
    if i < 0 || i >= t.len() {
        Ok(out)
    } else {
        match managed_of(t[i].0, t[i].1) {
            Err(e) => Err(e),
            Ok(m) => if manages(out, m.group, m.artifact) {
                Err(Fault::Manifest("`managed` names `"@ + t[i].0 + "` twice"@))
            } else {
                managed_from(t, i + 1, out.push(m))
            },
        }
    }
}

/// `[managed]`, in order.
pub open spec fn managed_table(table: Entries) -> Result<Seq<ManagedModel>, Fault> {
    match entry(table, "managed"@) {
        None => Ok(seq![]),
        Some(v) => match v.table() {
            None => Err(Fault::Manifest("`managed` must be a table"@)),
            Some(t) => managed_from(t, 0, seq![]),
        },
    }
}

fn read_managed_value(key: &str, v: &Datum) -> (r: Result<(String, bool), JrsError>)
    ensures
        outcome(r) == managed_value(key@, v.deep_view()),
{
    if let Some(version) = v.as_str() {
        return Ok((version.to_owned(), false));
    }
    let Some(t) = v.as_table() else {
        return Err(
            JrsError::Manifest(
                cat3(
                    "`managed.\"",
                    key,
                    "\"` must be a version string, or a table with `version` and `bom = true`",
                ),
            ),
        );
    };
    let known: Vec<&str> = vec!["version", "bom"];
    assert(known.deep_view() =~= managed_keys());
    if let Some(k) = unknown_key(t, &known) {
        return Err(
            JrsError::Manifest(
                cat5(
                    "`managed.\"",
                    key,
                    "\"`: unknown key `",
                    k,
                    "` (expected `version` or `bom`)",
                ),
            ),
        );
    }
    match optional_string(t, "version", cat3("managed.\"", key, "\"").as_str()) {
        Err(e) => Err(e),
        Ok(None) => Err(
            JrsError::Manifest(cat3("`managed.\"", key, "\"` is missing a `version` string")),
        ),
        Ok(Some(version)) => match bool_key(
            t,
            "bom",
            cat3("`managed.\"", key, "\".bom`").as_str(),
        ) {
            Err(e) => Err(e),
            Ok(bom) => Ok((version, bom)),
        },
    }
}

fn read_managed_entry(key: &str, v: &Datum) -> (r: Result<Managed, JrsError>)
    ensures
        outcome(r) == managed_of(key@, v.deep_view()),
{
    let (group, artifact, classifier) = match split_coordinate(key, "managed") {
        Ok(c) => c,
        Err(e) => {
            return Err(e);
        },
    };
    if classifier.is_some() {
        return Err(
            JrsError::Manifest(
                cat3(
                    "`managed.\"",
                    key,
                    "\"`: a managed version applies to every classifier of `group:artifact`, so the key names no classifier",
                ),
            ),
        );
    }
    let (given, bom) = match read_managed_value(key, v) {
        Ok(x) => x,
        Err(e) => {
            return Err(e);
        },
    };
    let version: &str = trim(given.as_str());
    if version.is_empty() {
        return Err(JrsError::Manifest(cat3("`managed.\"", key, "\"` has an empty version")));
    }
    if is_range(version) {
        return Err(
            JrsError::Manifest(
                cat5(
                    "`managed.\"",
                    key,
                    "\"` is the range `",
                    version,
                    "`; a managed version is exact, like every other",
                ),
            ),
        );
    }
    Ok(Managed { group, artifact, version: version.to_owned(), bom })
}

/// Whether some entry of the list manages `group:artifact`.
pub fn is_managed(list: &Vec<Managed>, group: &str, artifact: &str) -> (r: bool)
    ensures
        r == manages(list.deep_view(), group@, artifact@),
{
    let ghost all = list.deep_view();
    let mut i: usize = 0;
    while i < list.len()
        invariant
            all == list.deep_view(),
            i <= list@.len(),
            forall|j: int|
                0 <= j < i ==> !((#[trigger] all[j]).group == group@ && all[j].artifact
                    == artifact@),
        decreases list@.len() - i,
    {
        assert(all[i as int] == list@[i as int].deep_view());
        if same(list[i].group.as_str(), group) && same(list[i].artifact.as_str(), artifact) {
            return true;
        }
        i = i + 1;
    }
    false
}

/// `[managed]`: `"group:artifact" = "version"` pins a version wherever the
/// artifact turns up in the graph; `{ version = "...", bom = true }` imports a
/// BOM's managed versions. Order is kept: the first BOM to manage an artifact
/// wins.
pub fn parse_managed(table: &Table) -> (r: Result<Vec<Managed>, JrsError>)
    ensures
        outcome(r) == managed_table(table.deep_view()),
{
    let Some(value) = table.get("managed") else {
        return Ok(none_of());
    };
    let Some(entries) = value.as_table() else {
        return Err(JrsError::Manifest("`managed` must be a table".to_owned()));
    };
    let ghost all = entries.deep_view();
    let mut out: Vec<Managed> = none_of();
    let mut i: usize = 0;
    while i < entries.entries.len()
        invariant
            all == entries.deep_view(),
            i <= entries.entries@.len(),
            managed_table(table.deep_view()) == managed_from(all, i as int, out.deep_view()),
        decreases entries.entries@.len() - i,
    {
        let (key, v) = &entries.entries[i];
        assert(all[i as int] == (key@, v.deep_view()));
        let m = match read_managed_entry(key.as_str(), v) {
            Ok(m) => m,
            Err(e) => {
                return Err(e);
            },
        };
        if is_managed(&out, m.group.as_str(), m.artifact.as_str()) {
            return Err(JrsError::Manifest(cat3("`managed` names `", key.as_str(), "` twice")));
        }
        put(&mut out, m);
        i = i + 1;
    }
    Ok(out)
}

/// Some entry of the list is a BOM.
pub open spec fn has_bom(list: Seq<ManagedModel>) -> bool {
    exists|i: int| 0 <= i < list.len() && (#[trigger] list[i]).bom
}

/// Whether some entry of the list is a BOM.
pub fn any_bom(list: &Vec<Managed>) -> (r: bool)
    ensures
        r == has_bom(list.deep_view()),
{
    let ghost all = list.deep_view();
    let mut i: usize = 0;
    while i < list.len()
        invariant
            all == list.deep_view(),
            i <= list@.len(),
            forall|j: int| 0 <= j < i ==> !(#[trigger] all[j]).bom,
        decreases list@.len() - i,
    {
        assert(all[i as int] == list@[i as int].deep_view());
        if list[i].bom {
            return true;
        }
        i = i + 1;
    }
    false
}

pub open spec fn versionless_message(
    section: Seq<char>,
    d: DependencyModel,
    managed: Seq<ManagedModel>,
) -> Seq<char> {
    let what = if managed.len() == 0 {
        "there is no [managed] table"@
    } else {
        "[managed] does not name it"@
    };
    "`"@ + section + ".\""@ + d.key() + "\"` has no version, and "@ + what
        + "\n\ngive it a version, or manage it:\n\n    [managed]\n    \""@ + d.group + ":"@
        + d.artifact + "\" = \"<version>\""@
}

/// The first of the dependencies from `i` on that has no version and that
/// nothing manages.
pub open spec fn versionless_from(
    list: Seq<DependencyModel>,
    section: Seq<char>,
    managed: Seq<ManagedModel>,
    i: int,
) -> Option<Fault>
    decreases list.len() - i,
{
    if i < 0 || i >= list.len() {
        None
    } else if list[i].managed() && !manages(managed, list[i].group, list[i].artifact) {
        Some(Fault::Manifest(versionless_message(section, list[i], managed)))
    } else {
        versionless_from(list, section, managed, i + 1)
    }
}

/// What is wrong where a dependency leaves its version out.
pub open spec fn versionless_fault(
    dependencies: Seq<DependencyModel>,
    dev_dependencies: Seq<DependencyModel>,
    managed: Seq<ManagedModel>,
) -> Option<Fault> {
    if has_bom(managed) {
        None
    } else {
        match versionless_from(dependencies, "dependencies"@, managed, 0) {
            Some(e) => Some(e),
            None => versionless_from(dev_dependencies, "dev-dependencies"@, managed, 0),
        }
    }
}

fn find_versionless(list: &Vec<Dependency>, section: &str, managed: &Vec<Managed>) -> (r: Option<
    JrsError,
>)
    ensures
        r.deep_view() == versionless_from(list.deep_view(), section@, managed.deep_view(), 0),
{
    let ghost all = list.deep_view();
    let mut i: usize = 0;
    while i < list.len()
        invariant
            all == list.deep_view(),
            i <= list@.len(),
            versionless_from(all, section@, managed.deep_view(), 0) == versionless_from(
                all,
                section@,
                managed.deep_view(),
                i as int,
            ),
        decreases list@.len() - i,
    {
        let d = &list[i];
        assert(all[i as int] == d.deep_view());
        if d.is_managed() && !is_managed(managed, d.group.as_str(), d.artifact.as_str()) {
            let what: &str = if managed.len() == 0 {
                "there is no [managed] table"
            } else {
                "[managed] does not name it"
            };
            let start = cat6(
                "`",
                section,
                ".\"",
                d.key().as_str(),
                "\"` has no version, and ",
                what,
            );
            return Some(
                JrsError::Manifest(
                    cat6(
                        start.as_str(),
                        "\n\ngive it a version, or manage it:\n\n    [managed]\n    \"",
                        d.group.as_str(),
                        ":",
                        d.artifact.as_str(),
                        "\" = \"<version>\"",
                    ),
                ),
            );
        }
        i = i + 1;
    }
    None
}

/// A dependency that leaves its version out takes it from `[managed]`. With a
/// BOM there, whether it covers the artifact is only known once the BOM is
/// read, at resolution; without one, the table has to name it.
pub fn check_versionless(
    dependencies: &Vec<Dependency>,
    dev_dependencies: &Vec<Dependency>,
    managed: &Vec<Managed>,
) -> (r: Option<JrsError>)
    ensures
        r.deep_view() == versionless_fault(
            dependencies.deep_view(),
            dev_dependencies.deep_view(),
            managed.deep_view(),
        ),
{
    if any_bom(managed) {
        return None;
    }
    match find_versionless(dependencies, "dependencies", managed) {
        Some(e) => Some(e),
        None => find_versionless(dev_dependencies, "dev-dependencies", managed),
    }
}

// ---- repositories ----------------------------------------------------------

pub open spec fn repository_keys() -> Seq<Seq<char>> {
    seq!["url"@, "groups"@]
}

/// The first pattern from `i` on that is not a group.
pub open spec fn bad_pattern_from(groups: Seq<Seq<char>>, i: int) -> Option<Seq<char>>
    decreases groups.len() - i,
{
    if i < 0 || i >= groups.len() {
        None
    } else if !good_pattern(groups[i]) {
        Some(groups[i])
    } else {
        bad_pattern_from(groups, i + 1)
    }
}

fn bad_pattern(groups: &Vec<String>) -> (r: Option<&str>)
    ensures
        r.deep_view() == bad_pattern_from(groups.deep_view(), 0),
{
    let ghost all = groups.deep_view();
    let mut i: usize = 0;
    while i < groups.len()
        invariant
            all == groups.deep_view(),
            i <= groups@.len(),
            bad_pattern_from(all, 0) == bad_pattern_from(all, i as int),
        decreases groups@.len() - i,
    {
        assert(all[i as int] == groups@[i as int]@);
        if !valid_group_pattern(groups[i].as_str()) {
            return Some(groups[i].as_str());
        }
        i = i + 1;
    }
    None
}

/// The URL and the groups of the long form.
pub open spec fn long_repository(name: Seq<char>, t: Entries) -> Result<
    (Seq<char>, Seq<Seq<char>>),
    Fault,
> {
    let section = "repositories."@ + name;
    match first_unknown(t, repository_keys(), 0) {
        Some(k) => Err(
            Fault::Manifest(
                "`"@ + section + "`: unknown key `"@ + k + "` (expected `url` or `groups`)"@,
            ),
        ),
        None => {
            let url = match entry(t, "url"@) {
                Some(v) => match v.text() {
                    Some(u) => if trimmed(u).len() > 0 {
                        Some(u)
                    } else {
                        None
                    },
                    None => None,
                },
                None => None,
            };
            match url {
                None => Err(Fault::Manifest("`"@ + section + "` needs a `url` string"@)),
                Some(u) => match text_list(t, "groups"@, section) {
                    Err(e) => Err(e),
                    Ok(groups) => if entry(t, "groups"@) is Some && groups.len() == 0 {
                        Err(
                            Fault::Manifest(
                                "`"@ + section
                                    + ".groups` is empty, so the repository would serve nothing; leave `groups` out to ask it for every group"@,
                            ),
                        )
                    } else {
                        match bad_pattern_from(groups, 0) {
                            Some(p) => Err(
                                Fault::Manifest(
                                    "`"@ + section + ".groups`: `"@ + p
                                        + "` is not a group; write `com.acme` for that group, or `com.acme.*` for the groups under it"@,
                                ),
                            ),
                            None => Ok((u, groups)),
                        }
                    },
                },
            }
        },
    }
}

/// `internal = { url = "...", groups = ["com.acme", "com.acme.*"] }`: a
/// repository confined to the groups it serves. The keys are checked, not
/// warned about: a misspelt `groups` would silently open the repository to
/// every group, which is the hole the key exists to close.
pub fn repository_long_form(name: &str, t: &Table) -> (r: Result<(String, Vec<String>), JrsError>)
    ensures
        outcome(r) == long_repository(name@, t.deep_view()),
{
    let section = cat2("repositories.", name);
    let known: Vec<&str> = vec!["url", "groups"];
    assert(known.deep_view() =~= repository_keys());
    if let Some(k) = unknown_key(t, &known) {
        return Err(
            JrsError::Manifest(
                cat5(
                    "`",
                    section.as_str(),
                    "`: unknown key `",
                    k,
                    "` (expected `url` or `groups`)",
                ),
            ),
        );
    }
    let mut url: Option<String> = None;
    if let Some(v) = t.get("url") {
        if let Some(u) = v.as_str() {
            if !trim(u).is_empty() {
                url = Some(u.to_owned());
            }
        }
    }
    let Some(u) = url else {
        return Err(JrsError::Manifest(cat3("`", section.as_str(), "` needs a `url` string")));
    };
    let groups = match string_array(t, "groups", section.as_str()) {
        Ok(g) => g,
        Err(e) => {
            return Err(e);
        },
    };
    if t.contains_key("groups") && groups.len() == 0 {
        return Err(
            JrsError::Manifest(
                cat3(
                    "`",
                    section.as_str(),
                    ".groups` is empty, so the repository would serve nothing; leave `groups` out to ask it for every group",
                ),
            ),
        );
    }
    if let Some(p) = bad_pattern(&groups) {
        return Err(
            JrsError::Manifest(
                cat5(
                    "`",
                    section.as_str(),
                    ".groups`: `",
                    p,
                    "` is not a group; write `com.acme` for that group, or `com.acme.*` for the groups under it",
                ),
            ),
        );
    }
    Ok((u, groups))
}

/// The repository that the entry `name` declares.
pub open spec fn repository_of(name: Seq<char>, v: Tree) -> Result<RepositoryModel, Fault> {
    let found = match v.table() {
        Some(t) => long_repository(name, t),
        None => match v.text() {
            Some(u) => Ok((u, seq![])),
            None => Err(
                Fault::Manifest(
                    "`repositories."@ + name
                        + "` must be a URL string, or a table with `url` and `groups`"@,
                ),
            ),
        },
    };
    match found {
        Err(e) => Err(e),
        Ok((url, groups)) => Ok(
            RepositoryModel { name, url: sans_tail(url, Class::One('/')), groups },
        ),
    }
}

fn read_repository(name: &str, v: &Datum) -> (r: Result<Repository, JrsError>)
    ensures
        outcome(r) == repository_of(name@, v.deep_view()),
{
    let (url, groups): (String, Vec<String>) = if let Some(t) = v.as_table() {
        match repository_long_form(name, t) {
            Ok(x) => x,
            Err(e) => {
                return Err(e);
            },
        }
    } else if let Some(u) = v.as_str() {
        (u.to_owned(), none_of())
    } else {
        return Err(
            JrsError::Manifest(
                cat3(
                    "`repositories.",
                    name,
                    "` must be a URL string, or a table with `url` and `groups`",
                ),
            ),
        );
    };
    Ok(
        Repository {
            name: name.to_owned(),
            url: drop_run(url.as_str(), Class::One('/')).to_owned(),
            groups,
        },
    )
}

/// A repository that is Maven Central, asked for every group.
pub open spec fn whole_central(r: RepositoryModel) -> bool {
    r.url == CENTRAL_URL@ && r.groups.len() == 0
}

/// The repositories that the entries from the `i`th on declare, after those
/// before. Maven Central has its own place, which a declaration of it does not
/// change.
pub open spec fn repositories_from(t: Entries, i: int, out: Seq<RepositoryModel>) -> Result<
    Seq<RepositoryModel>,
    Fault,
>
    decreases t.len() - i,
{
    if i < 0 || i >= t.len() {
        Ok(out)
    } else {
        match repository_of(t[i].0, t[i].1) {
            Err(e) => Err(e),
            Ok(repo) => if whole_central(repo) {
                repositories_from(t, i + 1, out)
            } else {
                repositories_from(t, i + 1, out.push(repo))
            },
        }
    }
}

/// The declared repositories, with Maven Central last.
pub open spec fn with_central(list: Seq<RepositoryModel>) -> Seq<RepositoryModel> {
    list.push(open_repository(CENTRAL_NAME@, CENTRAL_URL@))
}

/// `[repositories]`, in order.
pub open spec fn repository_table(table: Entries) -> Result<Seq<RepositoryModel>, Fault> {
    match entry(table, "repositories"@) {
        None => Ok(with_central(seq![])),
        Some(v) => match v.table() {
            None => Err(Fault::Manifest("`repositories` must be a table"@)),
            Some(t) => match repositories_from(t, 0, seq![]) {
                Err(e) => Err(e),
                Ok(list) => Ok(with_central(list)),
            },
        },
    }
}

/// `[repositories]`, in order. Maven Central is implicit and always last.
pub fn parse_repositories(table: &Table) -> (r: Result<Vec<Repository>, JrsError>)
    ensures
        outcome(r) == repository_table(table.deep_view()),
{
    let mut out: Vec<Repository> = none_of();
    if let Some(value) = table.get("repositories") {
        let Some(t) = value.as_table() else {
            return Err(JrsError::Manifest("`repositories` must be a table".to_owned()));
        };
        let ghost all = t.deep_view();
        let mut i: usize = 0;
        while i < t.entries.len()
            invariant
                all == t.deep_view(),
                entry(table.deep_view(), "repositories"@) is Some,
                entry(table.deep_view(), "repositories"@)->0.table() == Some(all),
                i <= t.entries@.len(),
                repositories_from(all, 0, seq![]) == repositories_from(
                    all,
                    i as int,
                    out.deep_view(),
                ),
            decreases t.entries@.len() - i,
        {
            let (name, v) = &t.entries[i];
            assert(all[i as int] == (name@, v.deep_view()));
            match read_repository(name.as_str(), v) {
                Ok(repo) => {
                    assert(repo.deep_view().groups.len() == repo.groups@.len());
                    if !(same(repo.url.as_str(), CENTRAL_URL) && repo.groups.len() == 0) {
                        put(&mut out, repo);
                    }
                },
                Err(e) => {
                    return Err(e);
                },
            }
            i = i + 1;
        }
    }
    put(&mut out, Repository::new(CENTRAL_NAME, CENTRAL_URL));
    Ok(out)
}

proof fn lemma_declared_apart(t: Entries, i: int, out: Seq<RepositoryModel>)
    requires
        0 <= i <= t.len(),
        forall|k: int| 0 <= k < out.len() ==> !whole_central(#[trigger] out[k]),
    ensures
        repositories_from(t, i, out) matches Ok(list) ==> forall|k: int|
            0 <= k < list.len() ==> !whole_central(#[trigger] list[k]),
    decreases t.len() - i,
{
    if i < t.len() {
        if let Ok(repo) = repository_of(t[i].0, t[i].1) {
            if whole_central(repo) {
                lemma_declared_apart(t, i + 1, out);
            } else {
                lemma_declared_apart(t, i + 1, out.push(repo));
            }
        }
    }
}

/// Maven Central is always the last repository, asked for every group, and
/// no other before it is.
pub proof fn central_is_always_last(table: Entries)
    ensures
        repository_table(table) matches Ok(list) ==> {
            &&& list.len() > 0
            &&& list.last() == open_repository(CENTRAL_NAME@, CENTRAL_URL@)
            &&& list.last().url == CENTRAL_URL@
            &&& forall|k: int| 0 <= k < list.len() - 1 ==> !whole_central(#[trigger] list[k])
        },
{
    if let Some(v) = entry(table, "repositories"@) {
        if let Some(t) = v.table() {
            lemma_declared_apart(t, 0, seq![]);
        }
    }
}

proof fn lemma_in_place(t: Entries, section: Seq<char>, i: int, out: Seq<DependencyModel>, k: int)
    requires
        0 <= i <= t.len(),
        out.len() == i,
        0 <= k < t.len(),
        k < i ==> dependency_of(t[k].0, t[k].1, section) == Ok::<DependencyModel, Fault>(out[k]),
    ensures
        dependencies_from(t, section, i, out) matches Ok(list) ==> list.len() == t.len()
            && dependency_of(t[k].0, t[k].1, section) == Ok::<DependencyModel, Fault>(list[k]),
    decreases t.len() - i,
{
    if i < t.len() {
        if let Ok(d) = dependency_of(t[i].0, t[i].1, section) {
            lemma_in_place(t, section, i + 1, out.push(d), k);
        }
    }
}

/// Dependencies come in the order of their declarations.
pub proof fn dependencies_keep_their_order(t: Entries, section: Seq<char>, k: int)
    requires
        0 <= k < t.len(),
    ensures
        dependencies_from(t, section, 0, seq![]) matches Ok(list) ==> list.len() == t.len()
            && dependency_of(t[k].0, t[k].1, section) == Ok::<DependencyModel, Fault>(list[k]),
{
    lemma_in_place(t, section, 0, seq![], k);
}

} // verus!
