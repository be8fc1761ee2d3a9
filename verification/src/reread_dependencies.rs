//! What dependencies, managed versions and repositories say when they are
//! read again.

use crate::coord::{ga_text, range};
use crate::dependency::{
    local_jar, open_repository, DependencyModel, ManagedModel, RepositoryModel, CENTRAL_NAME,
    CENTRAL_URL,
};
use crate::error::Fault;
use crate::keys::{first_unknown, optional_text, text_list};
use crate::parse_dependencies::{
    bad_pattern_from, coordinate, dependencies_from, dependency_keys, dependency_of,
    dependency_table, entry_name, exclusion_of, exclusions_from, field_name, inside, jar_key, keyed,
    keys_distinct, local_keys, long_classifier, long_exclusions, long_form, long_repository,
    long_version, managed_from, managed_keys, managed_of, managed_table, managed_value, manages,
    repositories_from, repository_keys, repository_of, repository_table, central_is_always_last,
    whole_central, with_central,
};
use crate::render::{extra, entry_of, gas, key_classifier, table_classifier};
use crate::reread::{
    begins, lemma_first_piece, lemma_one_piece, lemma_pieces_apart, lemma_replaced_once, lemma_slot,
    lemma_tail_once, lemma_texts, lemma_trim_once, slot_value,
};
use crate::reread_settings::lemma_ga_pieces;
use crate::sheet::{block_is, fields_are, plain_is, scalar_is, Key, Plain, Scalar};
use crate::sheet_of::{
    bare_key, dependency_block, dependency_plain, dependency_plain_line, extras, lined, lines_of,
    local_plain, long_plain, managed_block, managed_plain, managed_plain_line, repository_block,
    repository_plain, repository_plain_line, repository_plain_lines, switched, Slots,
};
use crate::text::{
    at, found, includes, lemma_first_at, pieces, replaced, sans_tail, trimmed, Class,
};
use crate::value::{entry, entry_from, Entries, Tree, TreeKind};
use crate::writable_dependencies::entries_apart;
use vstd::prelude::*;

verus! {

// ---- dependencies ----------------------------------------------------------

/// A name between colons.
pub open spec fn segment(s: Seq<char>) -> bool {
    s.len() > 0 && !includes(s, ':')
}

/// A dependency whose words a table can hold: the path of a jar in the project
/// under the jar's name, or coordinates with a version, or none, and what they
/// leave out.
pub open spec fn spelled_out(d: DependencyModel) -> bool {
    match d.path {
        Some(path) => {
            &&& d == DependencyModel {
                compile_only: d.compile_only,
                runtime_only: d.runtime_only,
                ..local_jar(d.artifact, path)
            }
            &&& jar_key(d.artifact)
            &&& inside(path)
            &&& replaced(path, "\\"@, "/"@) == path
        },
        None => {
            &&& segment(d.group)
            &&& segment(d.artifact)
            &&& d.classifier matches Some(c) ==> c.len() > 0
            &&& d.version.len() == 0 || trimmed(d.version).len() > 0
            &&& forall|i: int|
                0 <= i < d.exclusions.len() ==> exclusion_of(
                    ga_text((#[trigger] d.exclusions[i]).0, d.exclusions[i].1),
                ) == Some(d.exclusions[i])
        },
    }
}

/// A dependency that an entry can declare.
pub open spec fn good_dependency(d: DependencyModel) -> bool {
    !(d.compile_only && d.runtime_only) && spelled_out(d)
}

/// A dependency whose key says what it is: a classifier in it has no colon.
pub open spec fn plain_keyed(d: DependencyModel) -> bool {
    d.path is None ==> (key_classifier(d) matches Some(c) ==> !includes(c, ':'))
}

proof fn lemma_good_coordinate(key: Seq<char>, section: Seq<char>)
    ensures
        coordinate(key, section) matches Ok((g, a, c)) ==> segment(g) && segment(a) && (
        c matches Some(c) ==> c.len() > 0),
{
    let parts = pieces(key, ':');
    if parts.len() == 2 || parts.len() == 3 {
        lemma_pieces_apart(key, ':', 0);
        lemma_pieces_apart(key, ':', 1);
    }
}

proof fn lemma_exclusion(pattern: Seq<char>)
    ensures
        exclusion_of(pattern) matches Some((g, a)) ==> pattern == ga_text(g, a),
{
    lemma_first_at(pattern, ":"@, 0);
    reveal_strlit(":");
    if let Some(i) = found(pattern, ":"@) {
        assert(at(pattern, ":"@, i));
        assert(pattern =~= pattern.take(i) + pattern.subrange(i, i + 1) + pattern.skip(i + 1));
    }
}

proof fn lemma_good_exclusions(
    patterns: Seq<Seq<char>>,
    i: int,
    out: Seq<(Seq<char>, Seq<char>)>,
    name: Seq<char>,
)
    requires
        0 <= i <= patterns.len(),
        forall|k: int|
            0 <= k < out.len() ==> exclusion_of(ga_text((#[trigger] out[k]).0, out[k].1)) == Some(
                out[k],
            ),
    ensures
        exclusions_from(patterns, i, out, name) matches Ok(list) ==> forall|k: int|
            0 <= k < list.len() ==> exclusion_of(ga_text((#[trigger] list[k]).0, list[k].1))
                == Some(list[k]),
    decreases patterns.len() - i,
{
    if i < patterns.len() {
        if let Some(e) = exclusion_of(patterns[i]) {
            lemma_exclusion(patterns[i]);
            lemma_good_exclusions(patterns, i + 1, out.push(e), name);
        }
    }
}

proof fn lemma_good_dependency(key: Seq<char>, v: Tree, section: Seq<char>)
    ensures
        dependency_of(key, v, section) matches Ok(d) ==> good_dependency(d),
{
    lemma_good_coordinate(key, section);
    if v.table() is Some && entry(v.table()->0, "path"@) is Some {
        let t = v.table()->0;
        if let Ok(given) = optional_text(t, "path"@, entry_name(section, key)) {
            let raw = match given {
                Some(s) => s,
                None => seq![],
            };
            reveal_strlit("\\");
            reveal_strlit("/");
            assert("\\"@ =~= seq!['\\']);
            assert("/"@ =~= seq!['/']);
            lemma_replaced_once(raw, '\\', '/');
        }
    } else if let TreeKind::Table(t) = v.kind {
        if let Ok(patterns) = text_list(t, "exclusions"@, entry_name(section, key)) {
            lemma_good_exclusions(patterns, 0, seq![], field_name(section, key, "exclusions"@));
        }
        reveal_strlit("");
    } else if let TreeKind::Text(version) = v.kind {
        lemma_trim_once(version);
    }
}

// ---- the fields of a dependency --------------------------------------------

/// Fields as lines.
pub open spec fn wrapped(fields: Seq<(Key, Scalar)>) -> Seq<(Key, Plain)> {
    Seq::new(fields.len(), |i: int| (fields[i].0, Plain::One(fields[i].1)))
}

pub open spec fn flag_value(on: bool) -> Option<Plain> {
    if on {
        Some(Plain::One(Scalar::Flag(true)))
    } else {
        None
    }
}

pub open spec fn long_slots(d: DependencyModel) -> Slots {
    seq![
        (
            "version"@,
            if d.managed() {
                None
            } else {
                Some(Plain::One(Scalar::Text(d.version)))
            },
        ),
        (
            "classifier"@,
            match table_classifier(d) {
                Some(c) => Some(Plain::One(Scalar::Text(c))),
                None => None,
            },
        ),
        (
            "exclusions"@,
            if d.exclusions.len() > 0 {
                Some(Plain::One(Scalar::Texts(gas(d.exclusions))))
            } else {
                None
            },
        ),
        ("compile-only"@, flag_value(d.compile_only)),
        ("runtime-only"@, flag_value(d.runtime_only)),
    ]
}

pub open spec fn local_slots(d: DependencyModel, path: Seq<char>) -> Slots {
    seq![
        ("path"@, Some(Plain::One(Scalar::Text(path)))),
        ("compile-only"@, flag_value(d.compile_only)),
        ("runtime-only"@, flag_value(d.runtime_only)),
    ]
}

proof fn lemma_wrapped(fields: Seq<(Key, Scalar)>, f: (Key, Scalar))
    ensures
        wrapped(fields.push(f)) == wrapped(fields).push((f.0, Plain::One(f.1))),
{
    assert(wrapped(fields.push(f)) =~= wrapped(fields).push((f.0, Plain::One(f.1))));
}

proof fn lemma_wrapped_switch(slots: Slots, n: int, fields: Seq<(Key, Scalar)>, on: bool)
    requires
        0 < n <= slots.len(),
        wrapped(fields) == lines_of(slots, n - 1),
        slots[n - 1].1 == flag_value(on),
    ensures
        wrapped(switched(fields, on, slots[n - 1].0)) == lines_of(slots, n),
{
    if on {
        lemma_wrapped(fields, (bare_key(slots[n - 1].0), Scalar::Flag(true)));
    }
}

pub proof fn lemma_long_lines(d: DependencyModel)
    ensures
        wrapped(long_plain(d)) == lines_of(long_slots(d), 5),
{
    let slots = long_slots(d);
    let f0: Seq<(Key, Scalar)> = if d.managed() {
        seq![]
    } else {
        seq![(bare_key("version"@), Scalar::Text(d.version))]
    };
    assert(lines_of(slots, 0) =~= seq![]);
    assert(wrapped(f0) =~= lines_of(slots, 1));
    let f1 = match table_classifier(d) {
        Some(c) => f0.push((bare_key("classifier"@), Scalar::Text(c))),
        None => f0,
    };
    if let Some(c) = table_classifier(d) {
        lemma_wrapped(f0, (bare_key("classifier"@), Scalar::Text(c)));
    }
    assert(wrapped(f1) == lines_of(slots, 2));
    let f2 = if d.exclusions.len() > 0 {
        f1.push((bare_key("exclusions"@), Scalar::Texts(gas(d.exclusions))))
    } else {
        f1
    };
    lemma_wrapped(f1, (bare_key("exclusions"@), Scalar::Texts(gas(d.exclusions))));
    assert(wrapped(f2) == lines_of(slots, 3));
    lemma_wrapped_switch(slots, 4, f2, d.compile_only);
    let f3 = switched(f2, d.compile_only, "compile-only"@);
    lemma_wrapped_switch(slots, 5, f3, d.runtime_only);
}

pub proof fn lemma_local_lines(d: DependencyModel, path: Seq<char>)
    ensures
        wrapped(local_plain(d, path)) == lines_of(local_slots(d, path), 3),
{
    let slots = local_slots(d, path);
    let f0 = seq![(bare_key("path"@), Scalar::Text(path))];
    assert(lines_of(slots, 0) =~= seq![]);
    assert(wrapped(f0) =~= lines_of(slots, 1));
    lemma_wrapped_switch(slots, 2, f0, d.compile_only);
    lemma_wrapped_switch(slots, 3, switched(f0, d.compile_only, "compile-only"@), d.runtime_only);
}

proof fn lemma_long_slots(d: DependencyModel)
    ensures
        ({
            let slots = long_slots(d);
            &&& slot_value(slots, "version"@, 0) == slots[0].1
            &&& slot_value(slots, "classifier"@, 0) == slots[1].1
            &&& slot_value(slots, "exclusions"@, 0) == slots[2].1
            &&& slot_value(slots, "compile-only"@, 0) == slots[3].1
            &&& slot_value(slots, "runtime-only"@, 0) == slots[4].1
            &&& slot_value(slots, "path"@, 0) is None
        }),
{
    reveal_strlit("version");
    reveal_strlit("classifier");
    reveal_strlit("exclusions");
    reveal_strlit("compile-only");
    reveal_strlit("runtime-only");
    reveal_strlit("path");
    assert("version"@.len() == 7);
    assert("classifier"@.len() == 10 && "classifier"@[0] == 'c');
    assert("exclusions"@.len() == 10 && "exclusions"@[0] == 'e');
    assert("compile-only"@.len() == 12 && "compile-only"@[0] == 'c');
    assert("runtime-only"@.len() == 12 && "runtime-only"@[0] == 'r');
    assert("path"@.len() == 4);
    reveal_with_fuel(slot_value, 6);
}

proof fn lemma_local_slots(d: DependencyModel, path: Seq<char>)
    ensures
        ({
            let slots = local_slots(d, path);
            &&& slot_value(slots, "path"@, 0) == slots[0].1
            &&& slot_value(slots, "compile-only"@, 0) == slots[1].1
            &&& slot_value(slots, "runtime-only"@, 0) == slots[2].1
        }),
{
    reveal_strlit("path");
    reveal_strlit("compile-only");
    reveal_strlit("runtime-only");
    assert("path"@.len() == 4);
    assert("compile-only"@.len() == 12 && "compile-only"@[0] == 'c');
    assert("runtime-only"@.len() == 12 && "runtime-only"@[0] == 'r');
    reveal_with_fuel(slot_value, 4);
}

/// Every key of the lines is known.
proof fn lemma_all_known(slots: Slots, known: Seq<Seq<char>>, n: int)
    requires
        0 <= n <= slots.len(),
        forall|i: int| 0 <= i < slots.len() ==> known.contains((#[trigger] slots[i]).0),
    ensures
        forall|i: int|
            0 <= i < lines_of(slots, n).len() ==> known.contains(
                (#[trigger] lines_of(slots, n)[i]).0.name,
            ),
    decreases n,
{
    if n > 0 {
        lemma_all_known(slots, known, n - 1);
        let before = lines_of(slots, n - 1);
        let lines = lines_of(slots, n);
        assert forall|i: int| 0 <= i < lines.len() implies known.contains(
            (#[trigger] lines[i]).0.name,
        ) by {
            if i < before.len() {
                assert(lines[i] == before[i]);
                assert(known.contains(before[i].0.name));
            } else {
                assert(known.contains(slots[n - 1].0));
            }
        }
    }
}

proof fn lemma_none_unknown(t: Entries, known: Seq<Seq<char>>, i: int)
    requires
        0 <= i <= t.len(),
        forall|k: int| 0 <= k < t.len() ==> known.contains((#[trigger] t[k]).0),
    ensures
        first_unknown(t, known, i) is None,
    decreases t.len() - i,
{
    if i < t.len() {
        assert(known.contains(t[i].0));
        lemma_none_unknown(t, known, i + 1);
    }
}

/// What the slots of an inline table say is what its keys hold.
proof fn lemma_fields(
    t: Entries,
    fields: Seq<(Key, Scalar)>,
    slots: Slots,
    known: Seq<Seq<char>>,
)
    requires
        fields_are(t, fields),
        wrapped(fields) == lines_of(slots, slots.len() as int),
        forall|i: int| 0 <= i < slots.len() ==> known.contains((#[trigger] slots[i]).0),
    ensures
        first_unknown(t, known, 0) is None,
        begins(t, lines_of(slots, slots.len() as int)),
        forall|key: Seq<char>|
            match slot_value(slots, key, 0) {
                Some(p) => (#[trigger] entry(t, key)) is Some && plain_is(entry(t, key)->0, p),
                None => entry(t, key) is None,
            },
{
    let lines = lines_of(slots, slots.len() as int);
    lemma_all_known(slots, known, slots.len() as int);
    assert forall|k: int| 0 <= k < t.len() implies known.contains((#[trigger] t[k]).0) by {
        assert(lines[k] == wrapped(fields)[k]);
        assert(known.contains(lines[k].0.name));
    }
    lemma_none_unknown(t, known, 0);
    assert forall|i: int| 0 <= i < lines.len() implies (#[trigger] t[i]).0 == lines[i].0.name
        && plain_is(t[i].1, lines[i].1) by {
        assert(lines[i] == wrapped(fields)[i]);
    }
    assert forall|key: Seq<char>|
        match slot_value(slots, key, 0) {
            Some(p) => (#[trigger] entry(t, key)) is Some && plain_is(entry(t, key)->0, p),
            None => entry(t, key) is None,
        } by {
        lemma_slot(t, slots, key);
    }
}

// ---- one dependency --------------------------------------------------------

proof fn lemma_local_again(d: DependencyModel, v: Tree, section: Seq<char>)
    requires
        good_dependency(d),
        d.path is Some,
        plain_is(v, dependency_plain(d)),
    ensures
        dependency_of(entry_of(d).0, v, section) == Ok::<DependencyModel, Fault>(d),
{
    let path = d.path->0;
    let t = v.kind->Table_0;
    let slots = local_slots(d, path);
    lemma_local_lines(d, path);
    lemma_local_slots(d, path);
    let known = local_keys();
    assert(known[0] == "path"@ && known[1] == "compile-only"@ && known[2] == "runtime-only"@);
    lemma_fields(t, local_plain(d, path), slots, known);
    assert(entry(t, "path"@)->0.text() == Some(path));
    assert(entry(t, "compile-only"@) is Some <==> d.compile_only);
    assert(entry(t, "runtime-only"@) is Some <==> d.runtime_only);
}

/// A key is read again as the coordinate it was written from.
proof fn lemma_key_again(d: DependencyModel, section: Seq<char>)
    requires
        good_dependency(d),
        plain_keyed(d),
        d.path is None,
    ensures
        coordinate(entry_of(d).0, section) == Ok::<
            (Seq<char>, Seq<char>, Option<Seq<char>>),
            Fault,
        >((d.group, d.artifact, key_classifier(d))),
{
    reveal_strlit(":");
    assert(":"@ =~= seq![':']);
    match key_classifier(d) {
        Some(c) => {
            let rest = d.artifact + seq![':'] + c;
            lemma_first_piece(d.group, rest, ':');
            lemma_first_piece(d.artifact, c, ':');
            lemma_one_piece(c, ':');
            assert(d.group + ":"@ + d.artifact + ":"@ + c =~= d.group + seq![':'] + rest);
            assert(seq![d.group] + (seq![d.artifact] + seq![c]) =~= seq![d.group, d.artifact, c]);
        },
        None => {
            lemma_ga_pieces(d.group, d.artifact);
        },
    }
}

proof fn lemma_exclusions_from(
    list: Seq<(Seq<char>, Seq<char>)>,
    i: int,
    out: Seq<(Seq<char>, Seq<char>)>,
    name: Seq<char>,
)
    requires
        0 <= i <= list.len(),
        out == list.take(i),
        forall|k: int|
            0 <= k < list.len() ==> exclusion_of(ga_text((#[trigger] list[k]).0, list[k].1))
                == Some(list[k]),
    ensures
        exclusions_from(gas(list), i, out, name) == Ok::<Seq<(Seq<char>, Seq<char>)>, Fault>(list),
    decreases list.len() - i,
{
    if i < list.len() {
        assert(exclusion_of(ga_text(list[i].0, list[i].1)) == Some(list[i]));
        assert(gas(list)[i] == ga_text(list[i].0, list[i].1));
        assert(list.take(i + 1) =~= out.push(list[i]));
        lemma_exclusions_from(list, i + 1, out.push(list[i]), name);
    } else {
        assert(list.take(i) =~= list);
    }
}

proof fn lemma_long_again(d: DependencyModel, t: Entries, section: Seq<char>)
    requires
        good_dependency(d),
        plain_keyed(d),
        d.path is None,
        fields_are(t, long_plain(d)),
    ensures
        entry(t, "path"@) is None,
        long_form(
            entry_of(d).0,
            (d.group, d.artifact, key_classifier(d)),
            t,
            section,
        ) == Ok::<DependencyModel, Fault>(d),
{
    let key = entry_of(d).0;
    let slots = long_slots(d);
    lemma_long_lines(d);
    lemma_long_slots(d);
    let known = dependency_keys();
    assert(known[0] == "version"@ && known[1] == "classifier"@ && known[2] == "exclusions"@
        && known[3] == "compile-only"@ && known[4] == "runtime-only"@);
    lemma_fields(t, long_plain(d), slots, known);
    assert(entry(t, "path"@) is None);
    assert(entry(t, "compile-only"@) is Some <==> d.compile_only);
    assert(entry(t, "runtime-only"@) is Some <==> d.runtime_only);
    reveal_strlit("");
    if d.managed() {
        assert(entry(t, "version"@) is None);
        assert(d.version =~= ""@);
    } else {
        assert(entry(t, "version"@)->0.text() == Some(d.version));
    }
    assert(long_version(key, t, section) == Ok::<Seq<char>, Fault>(d.version));
    if let Some(c) = table_classifier(d) {
        assert(entry(t, "classifier"@)->0.text() == Some(c));
    } else {
        assert(entry(t, "classifier"@) is None);
    }
    assert(long_classifier(key, key_classifier(d), t, section) == Ok::<Option<Seq<char>>, Fault>(
        d.classifier,
    ));
    assert(entry(t, "exclusions"@) is Some <==> d.exclusions.len() > 0);
    lemma_texts(t, "exclusions"@, entry_name(section, key), gas(d.exclusions));
    assert(d.exclusions.take(0) =~= seq![]);
    lemma_exclusions_from(d.exclusions, 0, seq![], field_name(section, key, "exclusions"@));
    assert(long_exclusions(key, t, section) == Ok::<Seq<(Seq<char>, Seq<char>)>, Fault>(
        d.exclusions,
    ));
}

/// A dependency is read again as it was.
pub proof fn lemma_dependency_again(d: DependencyModel, v: Tree, section: Seq<char>)
    requires
        good_dependency(d),
        plain_keyed(d),
        plain_is(v, dependency_plain(d)),
    ensures
        dependency_of(entry_of(d).0, v, section) == Ok::<DependencyModel, Fault>(d),
{
    if d.path is Some {
        lemma_local_again(d, v, section);
    } else {
        lemma_key_again(d, section);
        if d.plain() && table_classifier(d) is None && !d.managed() {
            assert(v.kind == TreeKind::Text(d.version));
            assert(d.exclusions =~= seq![]);
        } else {
            lemma_long_again(d, v.kind->Table_0, section);
        }
    }
}

// ---- tables of them --------------------------------------------------------

proof fn lemma_good_dependencies(
    t: Entries,
    section: Seq<char>,
    i: int,
    out: Seq<DependencyModel>,
)
    requires
        0 <= i <= t.len(),
        forall|k: int| 0 <= k < out.len() ==> good_dependency(#[trigger] out[k]),
    ensures
        dependencies_from(t, section, i, out) matches Ok(list) ==> forall|k: int|
            0 <= k < list.len() ==> good_dependency(#[trigger] list[k]),
    decreases t.len() - i,
{
    if i < t.len() {
        if let Ok(d) = dependency_of(t[i].0, t[i].1, section) {
            lemma_good_dependency(t[i].0, t[i].1, section);
            lemma_good_dependencies(t, section, i + 1, out.push(d));
        }
    }
}

/// The dependencies of a table are.
pub proof fn lemma_dependencies_are_good(value: Option<Tree>, section: Seq<char>)
    ensures
        dependency_table(value, section) matches Ok(list) ==> forall|k: int|
            0 <= k < list.len() ==> good_dependency(#[trigger] list[k]),
{
    if let Some(v) = value {
        if let Some(t) = v.table() {
            lemma_good_dependencies(t, section, 0, seq![]);
        }
    }
}

proof fn lemma_dependencies_from(
    t: Entries,
    list: Seq<DependencyModel>,
    section: Seq<char>,
    i: int,
    out: Seq<DependencyModel>,
)
    requires
        0 <= i <= list.len(),
        block_is(t, dependency_block(list)),
        out == list.take(i),
        keys_distinct(list),
        forall|k: int|
            0 <= k < list.len() ==> good_dependency(#[trigger] list[k]) && plain_keyed(list[k]),
    ensures
        dependencies_from(t, section, i, out) == Ok::<Seq<DependencyModel>, Fault>(list),
    decreases list.len() - i,
{
    if i < list.len() {
        let b = dependency_block(list);
        assert(t[i].0 == b.lines[i].0.name);
        assert(b.lines[i] == dependency_plain_line(list[i]));
        lemma_dependency_again(list[i], t[i].1, section);
        assert(!keyed(out, list[i].key())) by {
            if keyed(out, list[i].key()) {
                let k = choose|k: int|
                    0 <= k < out.len() && (#[trigger] out[k]).key() == list[i].key();
                assert(out[k] == list[k]);
            }
        }
        assert(list.take(i + 1) =~= out.push(list[i]));
        lemma_dependencies_from(t, list, section, i + 1, out.push(list[i]));
    } else {
        assert(list.take(i) =~= list);
    }
}

/// Dependencies that a table can declare: each once, under keys of their own.
pub open spec fn good_dependencies(list: Seq<DependencyModel>) -> bool {
    &&& forall|k: int| 0 <= k < list.len() ==> good_dependency(#[trigger] list[k])
    &&& keys_distinct(list)
    &&& entries_apart(list)
}

/// Dependencies are read again as they were.
pub proof fn lemma_dependencies_again(
    value: Option<Tree>,
    section: Seq<char>,
    list: Seq<DependencyModel>,
)
    requires
        good_dependencies(list),
        forall|k: int| 0 <= k < list.len() ==> plain_keyed(#[trigger] list[k]),
        if list.len() > 0 {
            value is Some && value->0.kind is Table && block_is(
                value->0.kind->Table_0,
                dependency_block(list),
            )
        } else {
            value is None
        },
    ensures
        dependency_table(value, section) == Ok::<Seq<DependencyModel>, Fault>(list),
{
    if list.len() > 0 {
        assert(list.take(0) =~= seq![]);
        lemma_dependencies_from(value->0.kind->Table_0, list, section, 0, seq![]);
    } else {
        assert(list =~= seq![]);
    }
}

// ---- managed versions ------------------------------------------------------

/// A managed version that an entry can declare.
pub open spec fn good_managed(m: ManagedModel) -> bool {
    &&& segment(m.group)
    &&& segment(m.artifact)
    &&& m.version.len() > 0
    &&& trimmed(m.version) == m.version
    &&& !range(m.version)
}

proof fn lemma_managed_again(m: ManagedModel, v: Tree)
    requires
        good_managed(m),
        plain_is(v, managed_plain(m)),
    ensures
        managed_of(ga_text(m.group, m.artifact), v) == Ok::<ManagedModel, Fault>(m),
{
    let key = ga_text(m.group, m.artifact);
    lemma_ga_pieces(m.group, m.artifact);
    if m.bom {
        let t = v.kind->Table_0;
        let fields = managed_plain(m)->Fields_0;
        reveal_strlit("version");
        reveal_strlit("bom");
        assert("version"@.len() == 7);
        assert("bom"@.len() == 3);
        assert(t[0].0 == fields[0].0.name && t[1].0 == fields[1].0.name);
        let known = managed_keys();
        assert(known[0] == "version"@ && known[1] == "bom"@);
        assert forall|k: int| 0 <= k < t.len() implies known.contains((#[trigger] t[k]).0) by {
            assert(known.contains(known[k]));
        }
        lemma_none_unknown(t, known, 0);
        reveal_with_fuel(entry_from, 3);
        assert(scalar_is(t[0].1, fields[0].1));
        assert(scalar_is(t[1].1, fields[1].1));
        assert(entry(t, "version"@) == Some(t[0].1));
        assert(entry(t, "bom"@) == Some(t[1].1));
        assert(t[0].1.text() == Some(m.version));
    }
    assert(managed_value(key, v) == Ok::<(Seq<char>, bool), Fault>((m.version, m.bom)));
}

/// Each is managed once.
pub open spec fn managed_apart(list: Seq<ManagedModel>) -> bool {
    forall|i: int, j: int|
        0 <= i < j < list.len() ==> (#[trigger] list[i]).group != (#[trigger] list[j]).group
            || list[i].artifact != list[j].artifact
}

proof fn lemma_good_managed(t: Entries, i: int, out: Seq<ManagedModel>)
    requires
        0 <= i <= t.len(),
        forall|k: int| 0 <= k < out.len() ==> good_managed(#[trigger] out[k]),
        managed_apart(out),
    ensures
        managed_from(t, i, out) matches Ok(list) ==> managed_apart(list) && forall|k: int|
            0 <= k < list.len() ==> good_managed(#[trigger] list[k]),
    decreases t.len() - i,
{
    if i < t.len() {
        if let Ok(m) = managed_of(t[i].0, t[i].1) {
            lemma_good_coordinate(t[i].0, "managed"@);
            if let Ok((given, _)) = managed_value(t[i].0, t[i].1) {
                lemma_trim_once(given);
            }
            if !manages(out, m.group, m.artifact) {
                let more = out.push(m);
                assert forall|a: int, b: int| 0 <= a < b < more.len() implies (
                #[trigger] more[a]).group != (#[trigger] more[b]).group || more[a].artifact
                    != more[b].artifact by {
                    assert(more[a] == out[a]);
                    if b < out.len() {
                        assert(more[b] == out[b]);
                    }
                }
                lemma_good_managed(t, i + 1, more);
            }
        }
    }
}

/// The managed versions of a table are.
pub proof fn lemma_managed_are_good(table: Entries)
    ensures
        managed_table(table) matches Ok(list) ==> managed_apart(list) && forall|k: int|
            0 <= k < list.len() ==> good_managed(#[trigger] list[k]),
{
    if let Some(v) = entry(table, "managed"@) {
        if let Some(t) = v.table() {
            lemma_good_managed(t, 0, seq![]);
        }
    }
}

proof fn lemma_managed_from(t: Entries, list: Seq<ManagedModel>, i: int, out: Seq<ManagedModel>)
    requires
        0 <= i <= list.len(),
        block_is(t, lined(Seq::new(list.len(), |k: int| managed_plain_line(list[k])))),
        out == list.take(i),
        managed_apart(list),
        forall|k: int| 0 <= k < list.len() ==> good_managed(#[trigger] list[k]),
    ensures
        managed_from(t, i, out) == Ok::<Seq<ManagedModel>, Fault>(list),
    decreases list.len() - i,
{
    if i < list.len() {
        let lines = Seq::new(list.len(), |k: int| managed_plain_line(list[k]));
        assert(t[i].0 == lined(lines).lines[i].0.name);
        assert(lines[i] == managed_plain_line(list[i]));
        lemma_managed_again(list[i], t[i].1);
        assert(!manages(out, list[i].group, list[i].artifact)) by {
            if manages(out, list[i].group, list[i].artifact) {
                let k = choose|k: int|
                    0 <= k < out.len() && (#[trigger] out[k]).group == list[i].group
                        && out[k].artifact == list[i].artifact;
                assert(out[k] == list[k]);
            }
        }
        assert(list.take(i + 1) =~= out.push(list[i]));
        lemma_managed_from(t, list, i + 1, out.push(list[i]));
    } else {
        assert(list.take(i) =~= list);
    }
}

/// Versions that `[managed]` can declare, each once.
pub open spec fn good_managed_list(list: Seq<ManagedModel>) -> bool {
    managed_apart(list) && forall|k: int| 0 <= k < list.len() ==> good_managed(#[trigger] list[k])
}

/// Managed versions are read again as they were.
pub proof fn lemma_managed_table_again(table: Entries, list: Seq<ManagedModel>)
    requires
        good_managed_list(list),
        match managed_block(list) {
            Some(b) => entry(table, "managed"@) is Some && entry(table, "managed"@)->0.kind is Table
                && block_is(entry(table, "managed"@)->0.kind->Table_0, b),
            None => entry(table, "managed"@) is None,
        },
    ensures
        managed_table(table) == Ok::<Seq<ManagedModel>, Fault>(list),
{
    if list.len() > 0 {
        assert(list.take(0) =~= seq![]);
        lemma_managed_from(entry(table, "managed"@)->0.kind->Table_0, list, 0, seq![]);
    } else {
        assert(list =~= seq![]);
    }
}

// ---- repositories ----------------------------------------------------------

/// A repository that an entry can declare.
pub open spec fn good_repository(r: RepositoryModel) -> bool {
    &&& sans_tail(r.url, Class::One('/')) == r.url
    &&& bad_pattern_from(r.groups, 0) is None
}

/// A repository of some groups has a URL.
pub open spec fn addressed(r: RepositoryModel) -> bool {
    r.groups.len() > 0 ==> trimmed(r.url).len() > 0
}

proof fn lemma_good_repository(name: Seq<char>, v: Tree)
    ensures
        repository_of(name, v) matches Ok(r) ==> good_repository(r),
{
    if let Some(t) = v.table() {
        if let Ok((u, groups)) = long_repository(name, t) {
            lemma_tail_once(u, Class::One('/'));
        }
    } else if let Some(u) = v.text() {
        lemma_tail_once(u, Class::One('/'));
    }
}

proof fn lemma_good_repositories(t: Entries, i: int, out: Seq<RepositoryModel>)
    requires
        0 <= i <= t.len(),
        forall|k: int| 0 <= k < out.len() ==> good_repository(#[trigger] out[k]),
    ensures
        repositories_from(t, i, out) matches Ok(list) ==> forall|k: int|
            0 <= k < list.len() ==> good_repository(#[trigger] list[k]),
    decreases t.len() - i,
{
    if i < t.len() {
        if let Ok(r) = repository_of(t[i].0, t[i].1) {
            lemma_good_repository(t[i].0, t[i].1);
            lemma_good_repositories(t, i + 1, out);
            lemma_good_repositories(t, i + 1, out.push(r));
        }
    }
}

proof fn lemma_repository_again(r: RepositoryModel, v: Tree)
    requires
        good_repository(r),
        addressed(r),
        plain_is(v, repository_plain(r)),
    ensures
        repository_of(r.name, v) == Ok::<RepositoryModel, Fault>(r),
{
    if r.groups.len() > 0 {
        let t = v.kind->Table_0;
        let fields = repository_plain(r)->Fields_0;
        reveal_strlit("url");
        reveal_strlit("groups");
        assert("url"@.len() == 3);
        assert("groups"@.len() == 6);
        assert(t[0].0 == fields[0].0.name && t[1].0 == fields[1].0.name);
        let known = repository_keys();
        assert(known[0] == "url"@ && known[1] == "groups"@);
        assert forall|k: int| 0 <= k < t.len() implies known.contains((#[trigger] t[k]).0) by {
            assert(known.contains(known[k]));
        }
        lemma_none_unknown(t, known, 0);
        reveal_with_fuel(entry_from, 3);
        assert(scalar_is(t[0].1, fields[0].1));
        assert(scalar_is(t[1].1, fields[1].1));
        assert(entry(t, "url"@) == Some(t[0].1));
        assert(entry(t, "groups"@) == Some(t[1].1));
        assert(t[0].1.text() == Some(r.url));
        lemma_texts(t, "groups"@, "repositories."@ + r.name, r.groups);
        assert(long_repository(r.name, t) == Ok::<(Seq<char>, Seq<Seq<char>>), Fault>(
            (r.url, r.groups),
        ));
    } else {
        assert(v.text() == Some(r.url));
        assert(r.groups =~= seq![]);
    }
}

proof fn lemma_repositories_from(
    t: Entries,
    list: Seq<RepositoryModel>,
    i: int,
    out: Seq<RepositoryModel>,
)
    requires
        0 <= i <= list.len(),
        block_is(t, lined(repository_plain_lines(list))),
        out == list.take(i),
        forall|k: int|
            0 <= k < list.len() ==> good_repository(#[trigger] list[k]) && addressed(list[k])
                && !whole_central(list[k]),
    ensures
        repositories_from(t, i, out) == Ok::<Seq<RepositoryModel>, Fault>(list),
    decreases list.len() - i,
{
    if i < list.len() {
        let lines = repository_plain_lines(list);
        assert(t[i].0 == lined(lines).lines[i].0.name);
        assert(lines[i] == repository_plain_line(list[i]));
        lemma_repository_again(list[i], t[i].1);
        assert(list.take(i + 1) =~= out.push(list[i]));
        lemma_repositories_from(t, list, i + 1, out.push(list[i]));
    } else {
        assert(list.take(i) =~= list);
    }
}

/// Every repository but Maven Central, which comes last, has to be named.
proof fn lemma_extras(list: Seq<RepositoryModel>, n: int)
    requires
        0 <= n <= list.len(),
        forall|k: int|
            0 <= k < list.len() - 1 ==> good_repository(#[trigger] list[k]) && !whole_central(
                list[k],
            ),
    ensures
        n < list.len() ==> extras(list, n) == list.take(n),
        n == list.len() && n > 0 && !extra(list.last()) ==> extras(list, n) == list.drop_last(),
    decreases n,
{
    if n > 0 {
        lemma_extras(list, n - 1);
        if n < list.len() {
            assert(extra(list[n - 1]));
            assert(list.take(n - 1).push(list[n - 1]) =~= list.take(n));
        } else {
            assert(list.take(n - 1) =~= list.drop_last());
        }
    } else {
        assert(list.take(0) =~= seq![]);
    }
}

proof fn lemma_good_central()
    ensures
        good_repository(open_repository(CENTRAL_NAME@, CENTRAL_URL@)),
{
    let url = CENTRAL_URL@;
    reveal_strlit("https://repo1.maven.org/maven2");
    assert(url.len() == 30 && url[29] == '2');
    assert(url.take(30) =~= url);
    reveal_with_fuel(crate::text::run_start, 2);
}

/// Every repository of some groups has a URL.
pub open spec fn all_addressed(list: Seq<RepositoryModel>) -> bool {
    forall|k: int| 0 <= k < list.len() ==> addressed(#[trigger] list[k])
}

/// Names of their own.
pub open spec fn repositories_apart(list: Seq<RepositoryModel>) -> bool {
    forall|i: int, j: int|
        0 <= i < j < list.len() ==> (#[trigger] list[i]).name != (#[trigger] list[j]).name
}

/// Repositories that a table can declare, with Maven Central, which comes last
/// and only there.
pub open spec fn good_repositories(list: Seq<RepositoryModel>) -> bool {
    &&& list.len() > 0
    &&& list.last() == open_repository(CENTRAL_NAME@, CENTRAL_URL@)
    &&& forall|k: int|
        0 <= k < list.len() - 1 ==> good_repository(#[trigger] list[k]) && !whole_central(list[k])
    &&& repositories_apart(list.drop_last())
}

/// The repositories that have to be named are all but the last.
pub proof fn lemma_named_repositories(list: Seq<RepositoryModel>)
    requires
        good_repositories(list),
    ensures
        extras(list, list.len() as int) == list.drop_last(),
{
    lemma_good_central();
    lemma_extras(list, list.len() as int);
}

/// The repositories of a table are, apart from their names.
pub proof fn lemma_repositories_are_good(table: Entries)
    ensures
        repository_table(table) matches Ok(list) ==> {
            &&& list.len() > 0
            &&& list.last() == open_repository(CENTRAL_NAME@, CENTRAL_URL@)
            &&& forall|k: int|
                0 <= k < list.len() - 1 ==> good_repository(#[trigger] list[k]) && !whole_central(
                    list[k],
                )
        },
{
    central_is_always_last(table);
    if let Some(v) = entry(table, "repositories"@) {
        if let Some(t) = v.table() {
            lemma_good_repositories(t, 0, seq![]);
        }
    }
}

/// Repositories are read again as they were.
pub proof fn lemma_repositories_again(table: Entries, list: Seq<RepositoryModel>)
    requires
        good_repositories(list),
        all_addressed(list),
        match repository_block(list) {
            Some(b) => entry(table, "repositories"@) is Some && entry(
                table,
                "repositories"@,
            )->0.kind is Table && block_is(entry(table, "repositories"@)->0.kind->Table_0, b),
            None => entry(table, "repositories"@) is None,
        },
    ensures
        repository_table(table) == Ok::<Seq<RepositoryModel>, Fault>(list),
{
    lemma_named_repositories(list);
    let named = extras(list, list.len() as int);
    assert(with_central(named) =~= list);
    if named.len() > 0 {
        assert(named.take(0) =~= seq![]);
        lemma_repositories_from(entry(table, "repositories"@)->0.kind->Table_0, named, 0, seq![]);
    } else {
        assert(named =~= seq![]);
    }
}

} // verus!
