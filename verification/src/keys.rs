//! Reading single keys of a table.

use crate::chars::{is_unicode_alphanumeric, unicode_alphanumeric};
use crate::coverage::{
    basis_points, counter_named, ten_thousandths, unit_bits, CoverageCounter, CoverageMinimum,
};
use crate::error::{Fault, JrsError};
use crate::text::{
    cat2, cat3, cat4, cat5, cat7, chars, contains, has_char, includes, none_of, number, outcome,
    parse_number, put, same, sans_all, show_signed, signed_decimal, starts, starts_with, strip_all,
    trim, trimmed, within,
};
use crate::value::{entry, Datum, Entries, Kind, Table, Tree, TreeKind};
use vstd::prelude::*;

verus! {

// ---- unknown keys ----------------------------------------------------------

pub open spec fn unknown_key_message(prefix: Seq<char>, key: Seq<char>) -> Seq<char> {
    "unknown key `"@ + prefix + key + "` in jrs.toml (ignored)"@
}

/// A warning for each of the first `n` keys of `t` that is not among `known`.
pub open spec fn unknown_keys(
    t: Entries,
    known: Seq<Seq<char>>,
    prefix: Seq<char>,
    n: int,
) -> Seq<Seq<char>>
    decreases n,
{
    if n <= 0 {
        seq![]
    } else {
        let before = unknown_keys(t, known, prefix, n - 1);
        if known.contains(t[n - 1].0) {
            before
        } else {
            before.push(unknown_key_message(prefix, t[n - 1].0))
        }
    }
}

/// A warning for each key of `t` that is not among `known`.
pub open spec fn key_warnings(t: Entries, known: Seq<Seq<char>>, prefix: Seq<char>) -> Seq<
    Seq<char>,
> {
    unknown_keys(t, known, prefix, t.len() as int)
}

/// Whether `key` is one of `known`.
pub fn among(known: &Vec<&str>, key: &str) -> (r: bool)
    ensures
        r == known.deep_view().contains(key@),
{
    let mut i: usize = 0;
    while i < known.len()
        invariant
            i <= known@.len(),
            forall|j: int| 0 <= j < i ==> known.deep_view()[j] != key@,
        decreases known@.len() - i,
    {
        if same(known[i], key) {
            assert(known.deep_view()[i as int] == key@);
            return true;
        }
        i = i + 1;
    }
    false
}

/// Adds a warning for each key of `t` that is not among `known`.
pub fn warn_unknown(t: &Table, known: &Vec<&str>, prefix: &str, warnings: &mut Vec<String>)
    ensures
        final(warnings).deep_view() == old(warnings).deep_view() + key_warnings(
            t.deep_view(),
            known.deep_view(),
            prefix@,
        ),
{
    let ghost before = warnings.deep_view();
    let ghost all = t.deep_view();
    let mut i: usize = 0;
    assert(before + unknown_keys(all, known.deep_view(), prefix@, 0) =~= before);
    while i < t.entries.len()
        invariant
            all == t.deep_view(),
            i <= t.entries@.len(),
            warnings.deep_view() == before + unknown_keys(
                all,
                known.deep_view(),
                prefix@,
                i as int,
            ),
        decreases t.entries@.len() - i,
    {
        let key = &t.entries[i].0;
        assert(all[i as int].0 == key@);
        if !among(known, key.as_str()) {
            put(
                warnings,
                cat4("unknown key `", prefix, key.as_str(), "` in jrs.toml (ignored)"),
            );
        }
        assert(warnings.deep_view() =~= before + unknown_keys(
            all,
            known.deep_view(),
            prefix@,
            i + 1,
        ));
        i = i + 1;
    }
}

/// The first key of `t` from `i` on that is not among `known`.
pub open spec fn first_unknown(t: Entries, known: Seq<Seq<char>>, i: int) -> Option<Seq<char>>
    decreases t.len() - i,
{
    if i < 0 || i >= t.len() {
        None
    } else if !known.contains(t[i].0) {
        Some(t[i].0)
    } else {
        first_unknown(t, known, i + 1)
    }
}

/// The first key of `t` that is not among `known`.
pub fn unknown_key<'a>(t: &'a Table, known: &Vec<&str>) -> (r: Option<&'a str>)
    ensures
        r.deep_view() == first_unknown(t.deep_view(), known.deep_view(), 0),
{
    let ghost all = t.deep_view();
    let mut i: usize = 0;
    while i < t.entries.len()
        invariant
            all == t.deep_view(),
            i <= t.entries@.len(),
            first_unknown(all, known.deep_view(), 0) == first_unknown(
                all,
                known.deep_view(),
                i as int,
            ),
        decreases t.entries@.len() - i,
    {
        assert(all[i as int].0 == t.entries@[i as int].0@);
        if !among(known, t.entries[i].0.as_str()) {
            return Some(t.entries[i].0.as_str());
        }
        i = i + 1;
    }
    None
}

// ---- strings ---------------------------------------------------------------

/// `` `section.key` ``.
pub open spec fn named(section: Seq<char>, key: Seq<char>) -> Seq<char> {
    "`"@ + section + "."@ + key + "`"@
}

pub open spec fn not_a_string<T>(section: Seq<char>, key: Seq<char>) -> Result<T, Fault> {
    Err(Fault::Manifest("`"@ + section + "."@ + key + "` must be a string"@))
}

/// What `key` must hold: a string.
pub open spec fn required_text(t: Entries, key: Seq<char>, section: Seq<char>) -> Result<
    Seq<char>,
    Fault,
> {
    match entry(t, key) {
        None => Err(Fault::Manifest("missing required key `"@ + section + "."@ + key + "`"@)),
        Some(v) => match v.text() {
            Some(s) => Ok(s),
            None => not_a_string(section, key),
        },
    }
}

/// What `key` may hold: a string.
pub open spec fn optional_text(t: Entries, key: Seq<char>, section: Seq<char>) -> Result<
    Option<Seq<char>>,
    Fault,
> {
    match entry(t, key) {
        None => Ok(None),
        Some(v) => match v.text() {
            Some(s) => Ok(Some(s)),
            None => not_a_string(section, key),
        },
    }
}

pub fn required_string(t: &Table, key: &str, section: &str) -> (r: Result<String, JrsError>)
    ensures
        outcome(r) == required_text(t.deep_view(), key@, section@),
{
    match t.get(key) {
        None => Err(JrsError::Manifest(cat5("missing required key `", section, ".", key, "`"))),
        Some(v) => match v.as_str() {
            Some(s) => Ok(s.to_owned()),
            None => Err(JrsError::Manifest(cat5("`", section, ".", key, "` must be a string"))),
        },
    }
}

pub fn optional_string(t: &Table, key: &str, section: &str) -> (r: Result<Option<String>, JrsError>)
    ensures
        outcome(r) == optional_text(t.deep_view(), key@, section@),
{
    match t.get(key) {
        None => Ok(None),
        Some(v) => match v.as_str() {
            Some(s) => Ok(Some(s.to_owned())),
            None => Err(JrsError::Manifest(cat5("`", section, ".", key, "` must be a string"))),
        },
    }
}

/// The strings of an array from `i` on, after those before it, when all are
/// strings.
pub open spec fn strings_from(a: Seq<Tree>, i: int, out: Seq<Seq<char>>) -> Option<Seq<Seq<char>>>
    decreases a.len() - i,
{
    if i < 0 || i >= a.len() {
        Some(out)
    } else {
        match a[i].text() {
            Some(s) => strings_from(a, i + 1, out.push(s)),
            None => None,
        }
    }
}

/// What `key` may hold: an array of strings.
pub open spec fn text_list(t: Entries, key: Seq<char>, section: Seq<char>) -> Result<
    Seq<Seq<char>>,
    Fault,
> {
    let bad = Err(
        Fault::Manifest("`"@ + section + "."@ + key + "` must be an array of strings"@),
    );
    match entry(t, key) {
        None => Ok(seq![]),
        Some(v) => match v.array() {
            None => bad,
            Some(a) => match strings_from(a, 0, seq![]) {
                Some(out) => Ok(out),
                None => bad,
            },
        },
    }
}

fn strings(a: &Vec<Datum>) -> (r: Option<Vec<String>>)
    ensures
        r.deep_view() == strings_from(a.deep_view(), 0, seq![]),
{
    let ghost all = a.deep_view();
    let mut out: Vec<String> = none_of();
    let mut i: usize = 0;
    while i < a.len()
        invariant
            all == a.deep_view(),
            i <= a@.len(),
            strings_from(all, 0, seq![]) == strings_from(all, i as int, out.deep_view()),
        decreases a@.len() - i,
    {
        assert(all[i as int] == a@[i as int].deep_view());
        match a[i].as_str() {
            Some(s) => {
                put(&mut out, s.to_owned());
            },
            None => {
                return None;
            },
        }
        i = i + 1;
    }
    Some(out)
}

pub fn string_array(t: &Table, key: &str, section: &str) -> (r: Result<Vec<String>, JrsError>)
    ensures
        outcome(r) == text_list(t.deep_view(), key@, section@),
{
    match t.get(key) {
        None => Ok(none_of()),
        Some(v) => {
            if let Some(a) = v.as_array() {
                if let Some(out) = strings(a) {
                    return Ok(out);
                }
            }
            Err(JrsError::Manifest(cat5("`", section, ".", key, "` must be an array of strings")))
        },
    }
}

// ---- paths, numbers, switches ----------------------------------------------

/// What `key` may hold: a relative path inside the project.
pub open spec fn path_text(
    t: Entries,
    key: Seq<char>,
    default: Seq<char>,
    section: Seq<char>,
) -> Result<Seq<char>, Fault> {
    match optional_text(t, key, section) {
        Err(e) => Err(e),
        Ok(given) => {
            let raw = match given {
                Some(s) => s,
                None => default,
            };
            if starts(raw, "/"@) || within(raw, ".."@) {
                Err(
                    Fault::Manifest(
                        "`"@ + section + "."@ + key
                            + "` must be a relative path inside the project (got `"@ + raw + "`)"@,
                    ),
                )
            } else {
                Ok(raw)
            }
        },
    }
}

pub fn path_or(t: &Table, key: &str, default: &str, section: &str) -> (r: Result<String, JrsError>)
    ensures
        outcome(r) == path_text(t.deep_view(), key@, default@, section@),
{
    let raw = match optional_string(t, key, section) {
        Err(e) => {
            return Err(e);
        },
        Ok(Some(s)) => s,
        Ok(None) => default.to_owned(),
    };
    if starts_with(raw.as_str(), "/") || contains(raw.as_str(), "..") {
        return Err(
            JrsError::Manifest(
                cat7(
                    "`",
                    section,
                    ".",
                    key,
                    "` must be a relative path inside the project (got `",
                    raw.as_str(),
                    "`)",
                ),
            ),
        );
    }
    Ok(raw)
}

pub open spec fn not_a_release<T>(key: Seq<char>, shown: Seq<char>) -> Result<T, Fault> {
    Err(Fault::Manifest("`java."@ + key + "`: `"@ + shown + "` is not a Java release number"@))
}

/// What a key of `[java]` may hold: a release, as a number or a string.
pub open spec fn release_of(t: Entries, key: Seq<char>) -> Result<Option<u32>, Fault> {
    match entry(t, key) {
        None => Ok(None),
        Some(v) => match v.kind {
            TreeKind::Integer(n) => if n > u32::MAX {
                not_a_release(key, signed_decimal(n as int))
            } else if n > 0 {
                Ok(Some(n as u32))
            } else {
                Err(Fault::Manifest("`java."@ + key + "` must be a release number, e.g. `21`"@))
            },
            TreeKind::Text(s) => match number(
                sans_all(trimmed(s), "1."@),
                u32::MAX as nat,
            ) {
                Some(n) => Ok(Some(n as u32)),
                None => not_a_release(key, s),
            },
            _ => Err(Fault::Manifest("`java."@ + key + "` must be a release number, e.g. `21`"@)),
        },
    }
}

/// `java.source` / `java.target` / `java.jdk` accept both `21` and `"21"`.
pub fn optional_release(t: &Table, key: &str) -> (r: Result<Option<u32>, JrsError>)
    ensures
        outcome(r) == release_of(t.deep_view(), key@),
{
    match t.get(key) {
        None => Ok(None),
        Some(v) => match &v.kind {
            Kind::Integer(n) => if *n > u32::MAX as i64 {
                Err(
                    JrsError::Manifest(
                        cat5(
                            "`java.",
                            key,
                            "`: `",
                            show_signed(*n).as_str(),
                            "` is not a Java release number",
                        ),
                    ),
                )
            } else if *n > 0 {
                Ok(Some(*n as u32))
            } else {
                Err(
                    JrsError::Manifest(
                        cat3("`java.", key, "` must be a release number, e.g. `21`"),
                    ),
                )
            },
            Kind::Text(s) => {
                proof {
                    reveal_strlit("1.");
                }
                let digits: &str = strip_all(trim(s.as_str()), "1.");
                match parse_number(digits, u32::MAX as u64) {
                    Some(n) => {
                        assert(n <= u32::MAX);
                        Ok(Some(n as u32))
                    },
                    None => Err(
                        JrsError::Manifest(
                            cat5(
                                "`java.",
                                key,
                                "`: `",
                                s.as_str(),
                                "` is not a Java release number",
                            ),
                        ),
                    ),
                }
            },
            _ => Err(
                JrsError::Manifest(cat3("`java.", key, "` must be a release number, e.g. `21`")),
            ),
        },
    }
}

/// What `key` may hold: how often something is done.
pub open spec fn count_of(t: Entries, key: Seq<char>, section: Seq<char>) -> Result<u32, Fault> {
    match entry(t, key) {
        None => Ok(0),
        Some(v) => match v.kind {
            TreeKind::Integer(n) => if 0 <= n <= u32::MAX {
                Ok(n as u32)
            } else {
                Err(
                    Fault::Manifest(
                        "`"@ + section + "."@ + key + "` must be a whole number, 0 or more (got "@
                            + signed_decimal(n as int) + ")"@,
                    ),
                )
            },
            _ => Err(
                Fault::Manifest(
                    "`"@ + section + "."@ + key + "` must be a whole number, e.g. `2`"@,
                ),
            ),
        },
    }
}

/// A whole number of times, `0` when absent: `test.retries`.
pub fn optional_count(t: &Table, key: &str, section: &str) -> (r: Result<u32, JrsError>)
    ensures
        outcome(r) == count_of(t.deep_view(), key@, section@),
{
    match t.get(key) {
        None => Ok(0),
        Some(v) => match &v.kind {
            Kind::Integer(n) => if 0 <= *n && *n <= u32::MAX as i64 {
                Ok(*n as u32)
            } else {
                Err(
                    JrsError::Manifest(
                        cat7(
                            "`",
                            section,
                            ".",
                            key,
                            "` must be a whole number, 0 or more (got ",
                            show_signed(*n).as_str(),
                            ")",
                        ),
                    ),
                )
            },
            _ => Err(
                JrsError::Manifest(
                    cat5("`", section, ".", key, "` must be a whole number, e.g. `2`"),
                ),
            ),
        },
    }
}

/// What a switch holds; `name` is how a message names it.
pub open spec fn switch_of(t: Entries, key: Seq<char>, name: Seq<char>) -> Result<bool, Fault> {
    match entry(t, key) {
        None => Ok(false),
        Some(v) => match v.kind {
            TreeKind::Boolean(b) => Ok(b),
            _ => Err(Fault::Manifest(name + " must be `true` or `false`"@)),
        },
    }
}

/// A `true`/`false` key of a long form; `name` is how a message names it.
pub fn bool_key(t: &Table, key: &str, name: &str) -> (r: Result<bool, JrsError>)
    ensures
        outcome(r) == switch_of(t.deep_view(), key@, name@),
{
    match t.get(key) {
        None => Ok(false),
        Some(v) => match &v.kind {
            Kind::Boolean(b) => Ok(*b),
            _ => Err(JrsError::Manifest(cat2(name, " must be `true` or `false`"))),
        },
    }
}

/// The sub-table `name`, when there is one.
pub open spec fn subtable(t: Entries, name: Seq<char>) -> Result<Option<Entries>, Fault> {
    match entry(t, name) {
        None => Ok(None),
        Some(v) => match v.table() {
            Some(inner) => Ok(Some(inner)),
            None => Err(Fault::Manifest("`"@ + name + "` must be a table"@)),
        },
    }
}

/// The warnings that reading the sub-table `name` gives.
pub open spec fn subtable_warnings(t: Entries, name: Seq<char>, known: Seq<Seq<char>>) -> Seq<
    Seq<char>,
> {
    match subtable(t, name) {
        Ok(Some(inner)) => key_warnings(inner, known, name + "."@),
        _ => seq![],
    }
}

/// An optional sub-table, with its unknown keys turned into warnings.
pub fn section<'a>(
    table: &'a Table,
    name: &str,
    known: &Vec<&str>,
    warnings: &mut Vec<String>,
) -> (r: Result<Option<&'a Table>, JrsError>)
    ensures
        outcome(r) == subtable(table.deep_view(), name@),
        final(warnings).deep_view() == old(warnings).deep_view() + subtable_warnings(
            table.deep_view(),
            name@,
            known.deep_view(),
        ),
{
    let ghost before = warnings.deep_view();
    assert(before + Seq::<Seq<char>>::empty() =~= before);
    let Some(value) = table.get(name) else {
        return Ok(None);
    };
    let Some(t) = value.as_table() else {
        return Err(JrsError::Manifest(cat3("`", name, "` must be a table")));
    };
    warn_unknown(t, known, cat2(name, ".").as_str(), warnings);
    Ok(Some(t))
}

// ---- coverage --------------------------------------------------------------

pub open spec fn counter_words() -> Seq<Seq<char>> {
    seq!["instruction"@, "branch"@, "line"@, "complexity"@, "method"@, "class"@]
}

pub open spec fn out_of_range<T>(key: Seq<char>, shown: Seq<char>) -> Result<T, Fault> {
    Err(
        Fault::Manifest(
            "`test.coverage-minimum."@ + key + "` is "@ + shown
                + ", but a minimum is a ratio from 0 to 1 (write 0.8 for 80%)"@,
        ),
    )
}

/// The ratio that the value of the counter `key` is, in basis points.
pub open spec fn ratio_of(key: Seq<char>, v: Tree) -> Result<u32, Fault> {
    match v.kind {
        TreeKind::Integer(n) => if n == 0 {
            Ok(0)
        } else if n == 1 {
            Ok(10000)
        } else {
            out_of_range(key, signed_decimal(n as int))
        },
        TreeKind::Float(bits, plain) => if unit_bits(bits) {
            Ok(ten_thousandths(bits) as u32)
        } else {
            out_of_range(key, plain)
        },
        _ => Err(
            Fault::Manifest(
                "`test.coverage-minimum."@ + key + "` must be a number from 0 to 1, e.g. `0.8`"@,
            ),
        ),
    }
}

/// The minimums of a table from `i` on, after those before it.
pub open spec fn minimums_from(t: Entries, i: int, out: Seq<CoverageMinimum>) -> Result<
    Seq<CoverageMinimum>,
    Fault,
>
    decreases t.len() - i,
{
    if i < 0 || i >= t.len() {
        Ok(out)
    } else {
        match counter_named(t[i].0) {
            None => minimums_from(t, i + 1, out),
            Some(counter) => match ratio_of(t[i].0, t[i].1) {
                Err(e) => Err(e),
                Ok(basis_points) => minimums_from(
                    t,
                    i + 1,
                    out.push(CoverageMinimum { counter, basis_points }),
                ),
            },
        }
    }
}

/// `test.coverage-minimum`, from the `[test]` table.
pub open spec fn minimums(t: Entries) -> Result<Seq<CoverageMinimum>, Fault> {
    match entry(t, "coverage-minimum"@) {
        None => Ok(seq![]),
        Some(v) => match v.table() {
            None => Err(
                Fault::Manifest(
                    "`test.coverage-minimum` must be a table of ratios, e.g. `{ line = 0.80, branch = 0.70 }`"@,
                ),
            ),
            Some(inner) => minimums_from(inner, 0, seq![]),
        },
    }
}

/// The warnings that reading `test.coverage-minimum` gives.
pub open spec fn minimum_warnings(t: Entries) -> Seq<Seq<char>> {
    match entry(t, "coverage-minimum"@) {
        Some(v) => match v.table() {
            Some(inner) => key_warnings(inner, counter_words(), "test.coverage-minimum."@),
            None => seq![],
        },
        None => seq![],
    }
}

fn ratio(key: &str, v: &Datum) -> (r: Result<u32, JrsError>)
    ensures
        outcome(r) == ratio_of(key@, v.deep_view()),
{
    match &v.kind {
        Kind::Integer(n) => if *n == 0 {
            Ok(0)
        } else if *n == 1 {
            Ok(10000)
        } else {
            Err(
                JrsError::Manifest(
                    cat5(
                        "`test.coverage-minimum.",
                        key,
                        "` is ",
                        show_signed(*n).as_str(),
                        ", but a minimum is a ratio from 0 to 1 (write 0.8 for 80%)",
                    ),
                ),
            )
        },
        Kind::Float(bits, plain) => if *bits <= 0x3ff0_0000_0000_0000 || *bits
            == 0x8000_0000_0000_0000 {
            Ok(basis_points(*bits))
        } else {
            Err(
                JrsError::Manifest(
                    cat5(
                        "`test.coverage-minimum.",
                        key,
                        "` is ",
                        plain.as_str(),
                        ", but a minimum is a ratio from 0 to 1 (write 0.8 for 80%)",
                    ),
                ),
            )
        },
        _ => Err(
            JrsError::Manifest(
                cat3(
                    "`test.coverage-minimum.",
                    key,
                    "` must be a number from 0 to 1, e.g. `0.8`",
                ),
            ),
        ),
    }
}

/// `test.coverage-minimum = { line = 0.80, branch = 0.70 }`: a ratio from 0 to
/// 1 per `JaCoCo` counter. An unknown counter is a warning, like any unknown
/// key; a value that is not a ratio is an error naming its key.
pub fn coverage_minimum(t: &Table, warnings: &mut Vec<String>) -> (r: Result<
    Vec<CoverageMinimum>,
    JrsError,
>)
    ensures
        outcome(r) == minimums(t.deep_view()),
        final(warnings).deep_view() == old(warnings).deep_view() + minimum_warnings(t.deep_view()),
{
    let ghost before = warnings.deep_view();
    assert(before + Seq::<Seq<char>>::empty() =~= before);
    let Some(value) = t.get("coverage-minimum") else {
        return Ok(none_of());
    };
    let Some(table) = value.as_table() else {
        return Err(
            JrsError::Manifest(
                "`test.coverage-minimum` must be a table of ratios, e.g. `{ line = 0.80, branch = 0.70 }`".to_owned(),
            ),
        );
    };
    let known: Vec<&str> = vec!["instruction", "branch", "line", "complexity", "method", "class"];
    assert(known.deep_view() =~= counter_words());
    warn_unknown(table, &known, "test.coverage-minimum.", warnings);
    let ghost all = table.deep_view();
    let mut out: Vec<CoverageMinimum> = none_of();
    let mut i: usize = 0;
    while i < table.entries.len()
        invariant
            all == table.deep_view(),
            i <= table.entries@.len(),
            minimums_from(all, 0, seq![]) == minimums_from(all, i as int, out.deep_view()),
            minimums(t.deep_view()) == minimums_from(all, 0, seq![]),
            before == old(warnings).deep_view(),
            warnings.deep_view() == before + minimum_warnings(t.deep_view()),
        decreases table.entries@.len() - i,
    {
        let (key, value) = &table.entries[i];
        assert(all[i as int] == (key@, value.deep_view()));
        if let Some(counter) = CoverageCounter::from_key(key.as_str()) {
            match ratio(key.as_str(), value) {
                Err(e) => {
                    return Err(e);
                },
                Ok(basis_points) => {
                    put(&mut out, CoverageMinimum { counter, basis_points });
                },
            }
        }
        i = i + 1;
    }
    Ok(out)
}

// ---- names -----------------------------------------------------------------

pub open spec fn name_fault(name: Seq<char>) -> Option<Fault> {
    if trimmed(name).len() == 0 {
        Some(Fault::Manifest("`project.name` must not be empty"@))
    } else if includes(name, '/') || includes(name, '\\') || includes(name, ':') || includes(name, '\0') || name
        == "."@ || name == ".."@ {
        Some(
            Fault::Manifest(
                "`project.name` must be a valid file name (got `"@ + name
                    + "`); it is used for the jar file"@,
            ),
        )
    } else {
        None
    }
}

/// What is wrong with a project's name.
pub fn validate_name(name: &str) -> (r: Option<JrsError>)
    ensures
        r.deep_view() == name_fault(name@),
{
    if trim(name).is_empty() {
        return Some(JrsError::Manifest("`project.name` must not be empty".to_owned()));
    }
    if has_char(name, '/') || has_char(name, '\\') || has_char(name, ':') || has_char(name, '\0')
        || same(name, ".") || same(name, "..") {
        return Some(
            JrsError::Manifest(
                cat3(
                    "`project.name` must be a valid file name (got `",
                    name,
                    "`); it is used for the jar file",
                ),
            ),
        );
    }
    None
}

/// A fully-qualified class name: letters, numbers, `_` and `$`, and dots
/// between them.
pub open spec fn class_name(class: Seq<char>) -> bool {
    &&& class.len() > 0
    &&& class[0] != '.'
    &&& class.last() != '.'
    &&& !within(class, ".."@)
    &&& forall|i: int|
        0 <= i < class.len() ==> unicode_alphanumeric(#[trigger] class[i]) || class[i] == '.'
            || class[i] == '_' || class[i] == '$'
}

fn is_class_name(class: &str) -> (r: bool)
    ensures
        r == class_name(class@),
{
    let cs = chars(class);
    if cs.len() == 0 || cs[0] == '.' || cs[cs.len() - 1] == '.' || contains(class, "..") {
        return false;
    }
    let mut i: usize = 0;
    while i < cs.len()
        invariant
            cs@ == class@,
            i <= cs@.len(),
            forall|j: int|
                0 <= j < i ==> unicode_alphanumeric(#[trigger] cs@[j]) || cs@[j] == '.' || cs@[j]
                    == '_' || cs@[j] == '$',
        decreases cs@.len() - i,
    {
        let c: char = cs[i];
        if !(is_unicode_alphanumeric(c) || c == '.' || c == '_' || c == '$') {
            assert(!unicode_alphanumeric(class@[i as int]));
            return false;
        }
        i = i + 1;
    }
    true
}

pub open spec fn class_fault(class: Seq<char>, key: Seq<char>) -> Option<Fault> {
    if class_name(class) {
        None
    } else {
        Some(
            Fault::Manifest(
                "`"@ + key + "` must be a fully-qualified class name (got `"@ + class + "`)"@,
            ),
        )
    }
}

/// What is wrong with a class name. `key` is how the message names the value:
/// `project.main-class`.
pub fn validate_class_name(class: &str, key: &str) -> (r: Option<JrsError>)
    ensures
        r.deep_view() == class_fault(class@, key@),
{
    if is_class_name(class) {
        None
    } else {
        Some(
            JrsError::Manifest(
                cat5("`", key, "` must be a fully-qualified class name (got `", class, "`)"),
            ),
        )
    }
}

} // verus!
