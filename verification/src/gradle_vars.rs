//! Version variables in a Gradle build.
//!
//! A build that keeps a version in a variable upgrades a family of artifacts
//! with one line. A manifest has no variables, so migration writes the value
//! into each declaration, and a review line names the variable it came from.
//!
//! Only a value jrs can know without running Gradle is used: a variable
//! assigned exactly once, to a string literal or to another variable that is,
//! outside a conditional, a loop or any block jrs does not run. The script's
//! `ext`, `def`, `val` and `extra` assignments are read, and so is the
//! `gradle.properties` beside it. Anything else is reported with the
//! variable's name, and the declaration is left out rather than written
//! without its version.

use crate::gradle_assign::{
    assignment, assignment_of, ext_header, is_ext_block, reference, referred, unguard, unguarded,
    unterminate, unterminated,
};
use crate::gradle_generated::{add_each, with_each};
use crate::gradle_scan::{
    interpolated_at, interpolation, only_literal, pieces, pieces_of, whole_literal, Piece,
    PieceModel,
};
use crate::order::{ascending, place, placed, placing_keeps_order};
use crate::report::{Report, ReportModel};
use crate::task::once_more;
use crate::text::{
    after_prefix, cat2, cat3, cat5, cat7, chars, decimal, dense, ends, ends_with, has_char,
    includes, join, joined, left, line_seq, lines, listed, none_of, one_of, outcome, put, same,
    show, skip, starts, starts_with, strip_prefix, take, trim, trim_start, trimmed, without_space,
};
use vstd::prelude::*;

verus! {

/// What one assignment gives a variable.
#[derive(Debug)]
pub enum Given {
    Literal(String),
    /// `"$other"`, `"${other}"`, `other`: another variable's value.
    Alias(String),
    /// Anything else, as written: concatenation, a method call, `System.getenv`.
    Expression(String),
}

/// What one assignment gives a variable.
pub enum GivenModel {
    Literal(Seq<char>),
    Alias(Seq<char>),
    Expression(Seq<char>),
}

impl DeepView for Given {
    type V = GivenModel;

    open spec fn deep_view(&self) -> GivenModel {
        match self {
            Given::Literal(s) => GivenModel::Literal(s@),
            Given::Alias(s) => GivenModel::Alias(s@),
            Given::Expression(s) => GivenModel::Expression(s@),
        }
    }
}

/// One assignment.
#[derive(Debug)]
pub struct Assigned {
    pub name: String,
    pub value: Given,
    /// Made inside a conditional, a loop, or a block jrs does not run.
    pub guarded: bool,
}

/// One assignment.
pub struct AssignedModel {
    pub name: Seq<char>,
    pub value: GivenModel,
    pub guarded: bool,
}

impl DeepView for Assigned {
    type V = AssignedModel;

    open spec fn deep_view(&self) -> AssignedModel {
        AssignedModel {
            name: self.name@,
            value: self.value.deep_view(),
            guarded: self.guarded,
        }
    }
}

/// A variable whose value was taken: by a plugin, or by a dependency.
#[derive(Debug)]
pub struct Taken {
    pub name: String,
    pub plugin: Option<String>,
}

/// A variable whose value was taken.
pub struct TakenModel {
    pub name: Seq<char>,
    pub plugin: Option<Seq<char>>,
}

impl DeepView for Taken {
    type V = TakenModel;

    open spec fn deep_view(&self) -> TakenModel {
        TakenModel { name: self.name@, plugin: self.plugin.deep_view() }
    }
}

/// The build's variables, and which of them migration took a version from.
#[derive(Debug)]
pub struct Variables {
    /// Every assignment, in order.
    pub assigned: Vec<Assigned>,
    /// The Kotlin DSL, where `"$a.b"` is `a` followed by `.b`.
    pub kotlin: bool,
    /// Whether the script has an `ext { }` block, the names it assigns, in
    /// order, and whether it holds anything but assignments.
    pub ext_block: bool,
    pub ext_names: Vec<String>,
    pub ext_opaque: bool,
    /// By the name the declaration used, in order.
    pub taken: Vec<Taken>,
    /// Every variable a used one was followed through.
    pub used: Vec<String>,
}

/// The build's variables.
pub struct VarsModel {
    pub assigned: Seq<AssignedModel>,
    pub kotlin: bool,
    pub ext_block: bool,
    pub ext_names: Seq<Seq<char>>,
    pub ext_opaque: bool,
    pub taken: Seq<TakenModel>,
    pub used: Seq<Seq<char>>,
}

impl DeepView for Variables {
    type V = VarsModel;

    open spec fn deep_view(&self) -> VarsModel {
        VarsModel {
            assigned: self.assigned.deep_view(),
            kotlin: self.kotlin,
            ext_block: self.ext_block,
            ext_names: self.ext_names.deep_view(),
            ext_opaque: self.ext_opaque,
            taken: self.taken.deep_view(),
            used: self.used.deep_view(),
        }
    }
}

/// A build without variables.
pub open spec fn no_variables(kotlin: bool) -> VarsModel {
    VarsModel {
        assigned: seq![],
        kotlin,
        ext_block: false,
        ext_names: seq![],
        ext_opaque: false,
        taken: seq![],
        used: seq![],
    }
}

impl VarsModel {
    /// With one more assignment.
    pub open spec fn with_assigned(self, name: Seq<char>, value: GivenModel, guarded: bool) -> VarsModel {
        VarsModel { assigned: self.assigned.push(AssignedModel { name, value, guarded }), ..self }
    }
}

// ---- following a variable --------------------------------------------------

/// How often `name` is assigned from the `i`th assignment on.
pub open spec fn times(assigned: Seq<AssignedModel>, name: Seq<char>, i: int) -> nat
    decreases assigned.len() - i,
{
    if i < 0 || i >= assigned.len() {
        0
    } else {
        times(assigned, name, i + 1) + (if assigned[i].name == name {
            1nat
        } else {
            0nat
        })
    }
}

/// The first assignment of `name` from the `i`th on.
pub open spec fn first_given(assigned: Seq<AssignedModel>, name: Seq<char>, i: int) -> Option<
    AssignedModel,
>
    decreases assigned.len() - i,
{
    if i < 0 || i >= assigned.len() {
        None
    } else if assigned[i].name == name {
        Some(assigned[i])
    } else {
        first_given(assigned, name, i + 1)
    }
}

/// How many assignments from the `i`th on are of variables not in `chain`.
pub open spec fn unvisited(assigned: Seq<AssignedModel>, chain: Seq<Seq<char>>, i: int) -> nat
    decreases assigned.len() - i,
{
    if i < 0 || i >= assigned.len() {
        0
    } else {
        unvisited(assigned, chain, i + 1) + (if chain.contains(assigned[i].name) {
            0nat
        } else {
            1nat
        })
    }
}

/// A chain that grows leaves fewer to visit.
pub proof fn lemma_visit(
    assigned: Seq<AssignedModel>,
    chain: Seq<Seq<char>>,
    name: Seq<char>,
    i: int,
)
    requires
        0 <= i,
        !chain.contains(name),
    ensures
        unvisited(assigned, chain.push(name), i) <= unvisited(assigned, chain, i),
        first_given(assigned, name, i) is Some ==> unvisited(assigned, chain.push(name), i)
            < unvisited(assigned, chain, i),
    decreases assigned.len() - i,
{
    if i < assigned.len() {
        lemma_visit(assigned, chain, name, i + 1);
        assert(chain.push(name)[chain.len() as int] == name);
        assert forall|x: Seq<char>| chain.contains(x) implies chain.push(name).contains(x) by {
            let k = choose|k: int| 0 <= k < chain.len() && chain[k] == x;
            assert(chain.push(name)[k] == x);
        }
    }
}

/// A variable's value or why it has none that can be read, and the variables
/// it was followed through after those of `chain`.
pub open spec fn follow_from(
    assigned: Seq<AssignedModel>,
    current: Seq<char>,
    chain: Seq<Seq<char>>,
) -> (Result<Seq<char>, Seq<char>>, Seq<Seq<char>>)
    decreases unvisited(assigned, chain, 0),
{
    if chain.contains(current) {
        (Err("`"@ + current + "` refers back to itself"@), chain)
    } else {
        let c = chain.push(current);
        match first_given(assigned, current, 0) {
            None => (
                Err(
                    "`"@ + current
                        + "` is set neither in the build script nor in gradle.properties"@,
                ),
                c,
            ),
            Some(one) => if times(assigned, current, 0) > 1 {
                (Err("`"@ + current + "` is assigned more than once"@), c)
            } else if one.guarded {
                (
                    Err(
                        "`"@ + current
                            + "` is set inside a conditional, a loop or a block jrs does not run"@,
                    ),
                    c,
                )
            } else {
                match one.value {
                    GivenModel::Literal(v) => if trimmed(v).len() == 0 {
                        (Err("`"@ + current + "` is empty"@), c)
                    } else {
                        (Ok(v), c)
                    },
                    GivenModel::Alias(next) => {
                        proof {
                            lemma_visit(assigned, chain, current, 0);
                        }
                        follow_from(assigned, next, c)
                    },
                    GivenModel::Expression(e) => (
                        Err("`"@ + current + "` is `"@ + e + "`, not a string literal"@),
                        c,
                    ),
                }
            },
        }
    }
}

/// A variable's value, and the variables it was followed through.
pub open spec fn resolution(assigned: Seq<AssignedModel>, name: Seq<char>) -> Result<
    (Seq<char>, Seq<Seq<char>>),
    Seq<char>,
> {
    match follow_from(assigned, name, seq![]) {
        (Ok(v), chain) => Ok((v, chain)),
        (Err(why), chain) => if chain.len() > 1 {
            Err("`"@ + name + "` takes its value from `"@ + chain.last() + "`, and "@ + why)
        } else {
            Err(why)
        },
    }
}

// ---- values ----------------------------------------------------------------

/// Another variable's value, or an expression.
pub open spec fn alias_or(inner: Seq<char>, expression: Seq<char>) -> GivenModel {
    match referred(inner) {
        Some(name) => GivenModel::Alias(name),
        None => GivenModel::Expression(expression),
    }
}

/// What the right-hand side of an assignment gives its variable.
pub open spec fn given_of(expression: Seq<char>, kotlin: bool) -> GivenModel {
    let e = unterminated(expression);
    match only_literal(e) {
        Some((quote, text)) => if quote != '"' || !includes(text, '$') {
            GivenModel::Literal(text)
        } else {
            match interpolated_at(text, 0, kotlin) {
                Some((inner, next)) if next == text.len() => alias_or(inner, e),
                _ => GivenModel::Expression(e),
            }
        },
        None => alias_or(e, e),
    }
}

fn read_alias(inner: &str, expression: &str) -> (r: Given)
    ensures
        r.deep_view() == alias_or(inner@, expression@),
{
    match reference(inner) {
        Some(name) => Given::Alias(name),
        None => Given::Expression(expression.to_owned()),
    }
}

/// An expression that is none that jrs reads.
pub open spec fn not_evaluated(expression: Seq<char>) -> Seq<char> {
    "`"@ + expression + "` is an expression, which jrs does not evaluate"@
}

/// The text from `i` on with each variable's value in its place, after what
/// came before, and the variables it named.
pub open spec fn interpolated_from(
    v: VarsModel,
    cs: Seq<char>,
    i: int,
    out: Seq<char>,
    names: Seq<Seq<char>>,
) -> Result<(Seq<char>, Seq<Seq<char>>), Seq<char>>
    decreases cs.len() - i,
{
    if i < 0 || i >= cs.len() {
        Ok((out, names))
    } else if cs[i] == '\\' && i + 1 < cs.len() {
        interpolated_from(v, cs, i + 2, out.push(cs[i + 1]), names)
    } else if cs[i] == '$' {
        match interpolated_at(cs, i, v.kotlin) {
            None => interpolated_from(v, cs, i + 1, out.push('$'), names),
            Some((expression, next)) => match referred(expression) {
                None => Err(not_evaluated(expression)),
                Some(name) => match resolution(v.assigned, name) {
                    Err(why) => Err(why),
                    Ok((value, _)) => if i < next <= cs.len() {
                        interpolated_from(v, cs, next, out + value, names.push(name))
                    } else {
                        Ok((out, names))
                    },
                },
            },
        }
    } else {
        interpolated_from(v, cs, i + 1, out.push(cs[i]), names)
    }
}

/// A double-quoted literal's text with each variable's value in its place.
pub open spec fn interpolated(v: VarsModel, text: Seq<char>) -> Result<
    (Seq<char>, Seq<Seq<char>>),
    Seq<char>,
> {
    interpolated_from(v, text, 0, seq![], seq![])
}

/// A value as a declaration writes it, and the variables it named.
pub open spec fn evaluated(v: VarsModel, expression: Seq<char>) -> Result<
    (Seq<char>, Seq<Seq<char>>),
    Seq<char>,
> {
    let e = trimmed(expression);
    match only_literal(e) {
        Some((quote, text)) => if quote == '"' {
            interpolated(v, text)
        } else {
            Ok((text, seq![]))
        },
        None => match referred(e) {
            Some(name) => match resolution(v.assigned, name) {
                Ok((value, _)) => Ok((value, seq![name])),
                Err(why) => Err(why),
            },
            None => Err(not_evaluated(e)),
        },
    }
}

// ---- properties ------------------------------------------------------------

/// Where a property's key ends that reaches `i`.
pub open spec fn key_end(line: Seq<char>, i: int) -> int
    decreases line.len() - i,
{
    if 0 <= i < line.len() && line[i] != '=' && line[i] != ':' && line[i] != ' ' && line[i] != '\t' {
        key_end(line, i + 1)
    } else {
        i
    }
}

fn find_key_end(line: &str) -> (r: usize)
    ensures
        r == key_end(line@, 0),
        r <= line@.len(),
{
    let cs = chars(line);
    let mut i: usize = 0;
    while i < cs.len() && cs[i] != '=' && cs[i] != ':' && cs[i] != ' ' && cs[i] != '\t'
        invariant
            cs@ == line@,
            i <= cs@.len(),
            key_end(line@, 0) == key_end(line@, i as int),
        decreases cs@.len() - i,
    {
        i = i + 1;
    }
    i
}

/// What follows a property's key, without its separator.
pub open spec fn property_value(rest: Seq<char>) -> Seq<char> {
    trimmed(
        match after_prefix(left(rest), "="@) {
            Some(v) => v,
            None => match after_prefix(left(rest), ":"@) {
                Some(v) => v,
                None => rest,
            },
        },
    )
}

fn read_property_value(rest: &str) -> (r: &str)
    ensures
        r@ == property_value(rest@),
{
    trim(
        match strip_prefix(trim_start(rest), "=") {
            Some(v) => v,
            None => match strip_prefix(trim_start(rest), ":") {
                Some(v) => v,
                None => rest,
            },
        },
    )
}

/// The variables with the property that a line sets.
pub open spec fn with_property_line(v: VarsModel, raw: Seq<char>) -> VarsModel {
    let line = trimmed(raw);
    if line.len() == 0 || starts(line, "#"@) || starts(line, "!"@) {
        v
    } else {
        let end = key_end(line, 0);
        let key = trimmed(line.take(end));
        let value = property_value(line.skip(end));
        if key.len() == 0 {
            v
        } else {
            v.with_assigned(
                key,
                if ends(value, "\\"@) {
                    GivenModel::Expression(value)
                } else {
                    GivenModel::Literal(value)
                },
                false,
            )
        }
    }
}

/// The variables with the properties that the lines from `i` on set.
pub open spec fn properties_from(lines: Seq<Seq<char>>, i: int, v: VarsModel) -> VarsModel
    decreases lines.len() - i,
{
    if i < 0 || i >= lines.len() {
        v
    } else {
        properties_from(lines, i + 1, with_property_line(v, lines[i]))
    }
}

// ---- scripts ---------------------------------------------------------------

/// A block that jrs runs: `buildscript { }`, or one of extra properties.
pub open spec fn runs(header: Seq<char>) -> bool {
    dense(header) == "buildscript"@ || ext_header(header)
}

/// One of the blocks is none that jrs runs.
pub open spec fn guarded_by(blocks: Seq<Seq<char>>) -> bool {
    exists|i: int| 0 <= i < blocks.len() && !runs(#[trigger] blocks[i])
}

fn is_guarded(blocks: &Vec<String>) -> (r: bool)
    ensures
        r == guarded_by(blocks.deep_view()),
{
    let ghost all = blocks.deep_view();
    let mut i: usize = 0;
    while i < blocks.len()
        invariant
            all == blocks.deep_view(),
            i <= blocks@.len(),
            forall|j: int| 0 <= j < i ==> runs(#[trigger] all[j]),
        decreases blocks@.len() - i,
    {
        assert(all[i as int] == blocks@[i as int]@);
        let b = blocks[i].as_str();
        if !(same(without_space(b).as_str(), "buildscript") || is_ext_block(b)) {
            assert(!runs(all[i as int]));
            return true;
        }
        i = i + 1;
    }
    false
}

/// The innermost block is one of extra properties.
pub open spec fn inside_ext(blocks: Seq<Seq<char>>) -> bool {
    blocks.len() > 0 && ext_header(blocks.last())
}

/// The variables once a block opens.
pub open spec fn with_open(v: VarsModel, blocks: Seq<Seq<char>>, header: Seq<char>) -> VarsModel {
    let in_ext = inside_ext(blocks);
    let seen = VarsModel {
        ext_opaque: v.ext_opaque || in_ext,
        ext_block: v.ext_block || ext_header(header),
        ..v
    };
    match assignment_of(header, in_ext) {
        Some((name, _)) => seen.with_assigned(
            name,
            GivenModel::Expression(header + " { … }"@),
            guarded_by(blocks),
        ),
        None => seen,
    }
}

/// The variables once a statement is read.
pub open spec fn with_statement(v: VarsModel, blocks: Seq<Seq<char>>, statement: Seq<char>) -> VarsModel {
    let in_ext = inside_ext(blocks);
    let (bare, conditional) = unguarded(statement);
    match assignment_of(bare, in_ext) {
        Some((name, expression)) => {
            let named = VarsModel {
                ext_names: if in_ext {
                    once_more(v.ext_names, name)
                } else {
                    v.ext_names
                },
                ..v
            };
            named.with_assigned(
                name,
                given_of(expression, v.kotlin),
                guarded_by(blocks) || conditional,
            )
        },
        None => VarsModel { ext_opaque: v.ext_opaque || in_ext, ..v },
    }
}

/// The variables once the pieces from `i` on are read, inside `blocks`.
pub open spec fn script_from(
    pieces: Seq<PieceModel>,
    i: int,
    blocks: Seq<Seq<char>>,
    v: VarsModel,
) -> VarsModel
    decreases pieces.len() - i,
{
    if i < 0 || i >= pieces.len() {
        v
    } else {
        match pieces[i] {
            PieceModel::Open(header) => script_from(
                pieces,
                i + 1,
                blocks.push(header),
                with_open(v, blocks, header),
            ),
            PieceModel::Close => script_from(
                pieces,
                i + 1,
                if blocks.len() > 0 {
                    blocks.drop_last()
                } else {
                    blocks
                },
                v,
            ),
            PieceModel::Statement(s) => script_from(
                pieces,
                i + 1,
                blocks,
                with_statement(v, blocks, s),
            ),
        }
    }
}

/// The variables with those that a script assigns.
pub open spec fn with_script(v: VarsModel, script: Seq<char>) -> VarsModel {
    script_from(pieces_of(script), 0, seq![], v)
}

/// The variables of a script and of the properties beside it.
pub open spec fn variables_of(
    script: Seq<char>,
    properties: Option<Seq<char>>,
    kotlin: bool,
) -> VarsModel {
    let v = match properties {
        Some(text) => properties_from(line_seq(text), 0, no_variables(kotlin)),
        None => no_variables(kotlin),
    };
    with_script(v, script)
}

// ---- uses ------------------------------------------------------------------

/// The variables, `name` among those taken.
pub open spec fn with_taken(v: VarsModel, name: Seq<char>, plugin: Option<Seq<char>>) -> VarsModel {
    VarsModel {
        taken: v.taken.push(TakenModel { name, plugin }),
        used: match resolution(v.assigned, name) {
            Ok((_, chain)) => with_each(v.used, chain, 0),
            Err(_) => v.used,
        },
        ..v
    }
}

/// The variables, the names from the `i`th on among those taken.
pub open spec fn all_taken(
    v: VarsModel,
    names: Seq<Seq<char>>,
    i: int,
    plugin: Option<Seq<char>>,
) -> VarsModel
    decreases names.len() - i,
{
    if i < 0 || i >= names.len() {
        v
    } else {
        all_taken(with_taken(v, names[i], plugin), names, i + 1, plugin)
    }
}

/// How many dependencies, from the `i`th taking on, took a value of `name`.
pub open spec fn dependency_uses(taken: Seq<TakenModel>, name: Seq<char>, i: int) -> nat
    decreases taken.len() - i,
{
    if i < 0 || i >= taken.len() {
        0
    } else {
        dependency_uses(taken, name, i + 1) + (if taken[i].name == name && taken[i].plugin is None {
            1nat
        } else {
            0nat
        })
    }
}

/// The plugins, from the `i`th taking on, that took a value of `name`.
pub open spec fn plugin_uses(
    taken: Seq<TakenModel>,
    name: Seq<char>,
    i: int,
    out: Seq<Seq<char>>,
) -> Seq<Seq<char>>
    decreases taken.len() - i,
{
    if i < 0 || i >= taken.len() {
        out
    } else {
        match taken[i].plugin {
            Some(id) => if taken[i].name == name {
                plugin_uses(taken, name, i + 1, out.push("plugin `"@ + id + "`"@))
            } else {
                plugin_uses(taken, name, i + 1, out)
            },
            None => plugin_uses(taken, name, i + 1, out),
        }
    }
}

/// The names of the variables taken, in order, each once.
pub open spec fn taken_names(taken: Seq<TakenModel>, i: int, out: Seq<Seq<char>>) -> Seq<Seq<char>>
    decreases taken.len() - i,
{
    if i < 0 || i >= taken.len() {
        out
    } else {
        taken_names(taken, i + 1, placed(out, taken[i].name))
    }
}

/// The dependencies that took a value.
pub open spec fn counted(n: nat) -> Seq<Seq<char>> {
    if n == 0 {
        seq![]
    } else if n == 1 {
        seq!["1 dependency"@]
    } else {
        seq![decimal(n) + " dependencies"@]
    }
}

/// What a variable's value was written into.
pub open spec fn use_line(v: VarsModel, name: Seq<char>, value: Seq<char>, chain: Seq<Seq<char>>) -> Seq<
    char,
> {
    let n = dependency_uses(v.taken, name, 0);
    let into = plugin_uses(v.taken, name, 0, counted(n));
    let plugins = into.len() - counted(n).len();
    name + " = "@ + value + (if chain.len() > 1 {
        " (from `"@ + chain.last() + "`)"@
    } else {
        ""@
    }) + " → "@ + joined(into, " and "@) + (if n + plugins > 1 {
        " — the manifest writes the version into each, so they no longer move together"@
    } else {
        ""@
    })
}

/// The report with a line for each of the names from the `i`th on.
pub open spec fn uses_reported(
    v: VarsModel,
    names: Seq<Seq<char>>,
    i: int,
    told: ReportModel,
) -> ReportModel
    decreases names.len() - i,
{
    if i < 0 || i >= names.len() {
        told
    } else {
        match resolution(v.assigned, names[i]) {
            Ok((value, chain)) => uses_reported(
                v,
                names,
                i + 1,
                told.with_review(use_line(v, names[i], value, chain)),
            ),
            Err(_) => uses_reported(v, names, i + 1, told),
        }
    }
}

/// The names of an `ext { }` block, from the `i`th on, that nothing took.
pub open spec fn unused_from(names: Seq<Seq<char>>, used: Seq<Seq<char>>, i: int, out: Seq<Seq<char>>) -> Seq<
    Seq<char>,
>
    decreases names.len() - i,
{
    if i < 0 || i >= names.len() {
        out
    } else if used.contains(names[i]) {
        unused_from(names, used, i + 1, out)
    } else {
        unused_from(names, used, i + 1, out.push("`"@ + names[i] + "`"@))
    }
}

/// The report of the `ext { }` block.
pub open spec fn ext_reported(v: VarsModel, told: ReportModel) -> ReportModel {
    if !v.ext_block {
        told
    } else {
        let unused = unused_from(v.ext_names, v.used, 0, seq![]);
        if unused.len() == 0 {
            if v.ext_opaque {
                told.with_skipped(
                    "`ext { }` — it holds more than variables set to literals, which jrs cannot evaluate"@,
                )
            } else {
                told
            }
        } else if unused.len() == 1 {
            told.with_skipped(
                "`ext { }` — "@ + unused[0] + " is not used by anything jrs migrated"@,
            )
        } else {
            told.with_skipped(
                "`ext { }` — "@ + joined(unused, ", "@)
                    + " are not used by anything jrs migrated"@,
            )
        }
    }
}

/// What is told of the variables.
pub open spec fn variables_reported(v: VarsModel, told: ReportModel) -> ReportModel {
    ext_reported(v, uses_reported(v, taken_names(v.taken, 0, seq![]), 0, told))
}

impl Variables {
    /// A build without variables.
    pub fn empty(kotlin: bool) -> (r: Variables)
        ensures
            r.deep_view() == no_variables(kotlin),
    {
        Variables {
            assigned: none_of(),
            kotlin,
            ext_block: false,
            ext_names: none_of(),
            ext_opaque: false,
            taken: none_of(),
            used: none_of(),
        }
    }

    /// The variables `script` assigns, and the properties of the
    /// `gradle.properties` beside it. `kotlin` is the Kotlin DSL.
    pub fn read(script: &str, properties: Option<&str>, kotlin: bool) -> (r: Variables)
        ensures
            r.deep_view() == variables_of(script@, properties.deep_view(), kotlin),
    {
        let mut vars = Variables::empty(kotlin);
        if let Some(text) = properties {
            vars.read_properties(text);
        }
        vars.read_script(script);
        vars
    }

    fn assign(&mut self, name: &str, value: Given, guarded: bool)
        ensures
            final(self).deep_view() == old(self).deep_view().with_assigned(
                name@,
                value.deep_view(),
                guarded,
            ),
    {
        put(&mut self.assigned, Assigned { name: name.to_owned(), value, guarded });
    }

    /// `key=value`, `key: value` or `key value`, as `java.util.Properties`
    /// reads them. A value continued on the next line is not read.
    pub fn read_properties(&mut self, text: &str)
        ensures
            final(self).deep_view() == properties_from(line_seq(text@), 0, old(self).deep_view()),
    {
        let list = lines(text);
        let ghost all = list.deep_view();
        let ghost start = self.deep_view();
        let mut i: usize = 0;
        while i < list.len()
            invariant
                all == list.deep_view(),
                i <= list@.len(),
                properties_from(all, 0, start) == properties_from(all, i as int, self.deep_view()),
            decreases list@.len() - i,
        {
            assert(all[i as int] == list@[i as int]@);
            let line = trim(list[i]);
            if !(line.is_empty() || starts_with(line, "#") || starts_with(line, "!")) {
                let end: usize = find_key_end(line);
                let key = trim(take(line, end));
                let value = read_property_value(skip(line, end));
                if !key.is_empty() {
                    let given = if ends_with(value, "\\") {
                        Given::Expression(value.to_owned())
                    } else {
                        Given::Literal(value.to_owned())
                    };
                    self.assign(key, given, false);
                }
            }
            i = i + 1;
        }
    }

    fn open_block(&mut self, blocks: &Vec<String>, header: &str)
        ensures
            final(self).deep_view() == with_open(old(self).deep_view(), blocks.deep_view(), header@),
    {
        let guarded = is_guarded(blocks);
        let in_ext = is_inside_ext(blocks);
        if in_ext {
            self.ext_opaque = true;
        }
        if is_ext_block(header) {
            self.ext_block = true;
        }
        // `val x = list.map { ... }`: an assignment of nothing jrs can read.
        if let Some((name, _)) = assignment(header, in_ext) {
            self.assign(name.as_str(), Given::Expression(cat2(header, " { … }")), guarded);
        }
    }

    fn read_statement(&mut self, blocks: &Vec<String>, statement: &str)
        ensures
            final(self).deep_view() == with_statement(
                old(self).deep_view(),
                blocks.deep_view(),
                statement@,
            ),
    {
        let guarded = is_guarded(blocks);
        let in_ext = is_inside_ext(blocks);
        let (bare, conditional) = unguard(statement);
        match assignment(bare, in_ext) {
            Some((name, expression)) => {
                if in_ext && !listed(&self.ext_names, name.as_str()) {
                    put(&mut self.ext_names, name.clone());
                }
                let value = self.value(expression.as_str());
                self.assign(name.as_str(), value, guarded || conditional);
            },
            None => {
                if in_ext {
                    self.ext_opaque = true;
                }
            },
        }
    }

    /// The variables that `script` assigns.
    pub fn read_script(&mut self, script: &str)
        ensures
            final(self).deep_view() == with_script(old(self).deep_view(), script@),
    {
        let list = pieces(script);
        let ghost all = list.deep_view();
        let ghost start = self.deep_view();
        // The headers of the blocks the scan is inside, outermost first.
        let mut blocks: Vec<String> = none_of();
        let mut i: usize = 0;
        while i < list.len()
            invariant
                all == list.deep_view(),
                i <= list@.len(),
                script_from(all, 0, seq![], start) == script_from(
                    all,
                    i as int,
                    blocks.deep_view(),
                    self.deep_view(),
                ),
            decreases list@.len() - i,
        {
            assert(all[i as int] == list@[i as int].deep_view());
            match &list[i] {
                Piece::Open(header) => {
                    self.open_block(&blocks, header.as_str());
                    put(&mut blocks, header.clone());
                },
                Piece::Close => {
                    let ghost before = blocks.deep_view();
                    if blocks.len() > 0 {
                        let _closed = blocks.pop();
                        assert(blocks.deep_view() =~= before.drop_last());
                    }
                },
                Piece::Statement(statement) => {
                    self.read_statement(&blocks, statement.as_str());
                },
            }
            i = i + 1;
        }
    }

    /// What the right-hand side of an assignment gives its variable.
    pub fn value(&self, expression: &str) -> (r: Given)
        ensures
            r.deep_view() == given_of(expression@, self.kotlin),
    {
        let e = unterminate(expression);
        if let Some((quote, text)) = whole_literal(e) {
            if quote != '"' || !has_char(text.as_str(), '$') {
                return Given::Literal(text);
            }
            let cs = chars(text.as_str());
            return match interpolation(&cs, 0, self.kotlin) {
                Some((inner, next)) => if next == cs.len() {
                    read_alias(inner.as_str(), e)
                } else {
                    Given::Expression(e.to_owned())
                },
                None => Given::Expression(e.to_owned()),
            };
        }
        read_alias(e, e)
    }

    /// The place of the first assignment of `name`, and whether there is more
    /// than one.
    fn find(&self, name: &str) -> (r: Option<(usize, bool)>)
        ensures
            r is Some <==> first_given(self.deep_view().assigned, name@, 0) is Some,
            r matches Some((i, more)) ==> i < self.assigned@.len() && first_given(
                self.deep_view().assigned,
                name@,
                0,
            ) == Some(self.assigned@[i as int].deep_view()) && more == (times(
                self.deep_view().assigned,
                name@,
                0,
            ) > 1),
    {
        let ghost all = self.assigned.deep_view();
        let mut i: usize = 0;
        while i < self.assigned.len()
            invariant
                all == self.assigned.deep_view(),
                i <= self.assigned@.len(),
                first_given(all, name@, 0) == first_given(all, name@, i as int),
                times(all, name@, 0) == times(all, name@, i as int),
            decreases self.assigned@.len() - i,
        {
            assert(all[i as int] == self.assigned@[i as int].deep_view());
            if same(self.assigned[i].name.as_str(), name) {
                let mut k: usize = i + 1;
                while k < self.assigned.len()
                    invariant
                        all == self.assigned.deep_view(),
                        i < k <= self.assigned@.len(),
                        first_given(all, name@, 0) == Some(self.assigned@[i as int].deep_view()),
                        times(all, name@, 0) == 1 + times(all, name@, k as int),
                    decreases self.assigned@.len() - k,
                {
                    assert(all[k as int] == self.assigned@[k as int].deep_view());
                    if same(self.assigned[k].name.as_str(), name) {
                        return Some((i, true));
                    }
                    k = k + 1;
                }
                return Some((i, false));
            }
            i = i + 1;
        }
        None
    }

    /// A variable's value or why it has none, and the variables it was
    /// followed through.
    fn follow(&self, name: &str) -> (r: (Result<String, String>, Vec<String>))
        ensures
            (outcome(r.0), r.1.deep_view()) == follow_from(
                self.deep_view().assigned,
                name@,
                seq![],
            ),
    {
        let ghost all = self.deep_view().assigned;
        let mut chain: Vec<String> = none_of();
        let mut current = name.to_owned();
        loop
            invariant
                all == self.deep_view().assigned,
                follow_from(all, name@, seq![]) == follow_from(all, current@, chain.deep_view()),
            decreases unvisited(all, chain.deep_view(), 0),
        {
            let c = current.as_str();
            if listed(&chain, c) {
                return (Err(cat3("`", c, "` refers back to itself")), chain);
            }
            let ghost before = chain.deep_view();
            put(&mut chain, current.clone());
            proof {
                lemma_visit(all, before, current@, 0);
            }
            let Some((i, more)) = self.find(c) else {
                return (
                    Err(
                        cat3(
                            "`",
                            c,
                            "` is set neither in the build script nor in gradle.properties",
                        ),
                    ),
                    chain,
                );
            };
            if more {
                return (Err(cat3("`", c, "` is assigned more than once")), chain);
            }
            if self.assigned[i].guarded {
                return (
                    Err(
                        cat3(
                            "`",
                            c,
                            "` is set inside a conditional, a loop or a block jrs does not run",
                        ),
                    ),
                    chain,
                );
            }
            match &self.assigned[i].value {
                Given::Literal(v) => {
                    if trim(v.as_str()).is_empty() {
                        return (Err(cat3("`", c, "` is empty")), chain);
                    }
                    return (Ok(v.clone()), chain);
                },
                Given::Alias(next) => {
                    current = next.clone();
                },
                Given::Expression(e) => {
                    return (
                        Err(cat5("`", c, "` is `", e.as_str(), "`, not a string literal")),
                        chain,
                    );
                },
            }
        }
    }

    /// A variable's value, and the variables it was followed through, from
    /// `name` to the one assigned the literal.
    pub fn resolve(&self, name: &str) -> (r: Result<(String, Vec<String>), String>)
        ensures
            outcome(r) == resolution(self.deep_view().assigned, name@),
    {
        let (found, chain) = self.follow(name);
        match found {
            Ok(v) => Ok((v, chain)),
            Err(why) => if chain.len() > 1 {
                assert(chain.deep_view().last() == chain@.last()@);
                Err(
                    crate::text::cat6(
                        "`",
                        name,
                        "` takes its value from `",
                        chain[chain.len() - 1].as_str(),
                        "`, and ",
                        why.as_str(),
                    ),
                )
            } else {
                Err(why)
            },
        }
    }

    /// A double-quoted literal's `text` with each `$name` and `${...}` in it
    /// replaced by the variable's value, and the variables it named.
    pub fn interpolate(&self, text: &str) -> (r: Result<(String, Vec<String>), String>)
        ensures
            outcome(r) == interpolated(self.deep_view(), text@),
    {
        let cs = chars(text);
        let ghost v = self.deep_view();
        let mut out = String::new();
        let mut names: Vec<String> = none_of();
        let mut i: usize = 0;
        assert(out@ =~= seq![]);
        while i < cs.len()
            invariant
                cs@ == text@,
                v == self.deep_view(),
                i <= cs@.len(),
                interpolated(v, text@) == interpolated_from(
                    v,
                    text@,
                    i as int,
                    out@,
                    names.deep_view(),
                ),
            decreases cs@.len() - i,
        {
            let c: char = cs[i];
            if c == '\\' && cs.len() - i > 1 {
                out.push(cs[i + 1]);
                i = i + 2;
            } else if c == '$' {
                match interpolation(&cs, i, self.kotlin) {
                    None => {
                        out.push('$');
                        i = i + 1;
                    },
                    Some((expression, next)) => {
                        let Some(name) = reference(expression.as_str()) else {
                            return Err(
                                cat3(
                                    "`",
                                    expression.as_str(),
                                    "` is an expression, which jrs does not evaluate",
                                ),
                            );
                        };
                        match self.resolve(name.as_str()) {
                            Err(why) => {
                                return Err(why);
                            },
                            Ok((value, _)) => {
                                out.append(value.as_str());
                            },
                        }
                        put(&mut names, name);
                        i = next;
                    },
                }
            } else {
                out.push(c);
                i = i + 1;
            }
        }
        Ok((out, names))
    }

    /// A value as a declaration writes it: a string literal, interpolated
    /// when double-quoted, or a variable by name. The value, and the
    /// variables it named.
    pub fn evaluate(&self, expression: &str) -> (r: Result<(String, Vec<String>), String>)
        ensures
            outcome(r) == evaluated(self.deep_view(), expression@),
    {
        let e = trim(expression);
        if let Some((quote, text)) = whole_literal(e) {
            return if quote == '"' {
                self.interpolate(text.as_str())
            } else {
                Ok((text, none_of()))
            };
        }
        match reference(e) {
            Some(name) => match self.resolve(name.as_str()) {
                Ok((value, _)) => Ok((value, one_of(name))),
                Err(why) => Err(why),
            },
            None => Err(cat3("`", e, "` is an expression, which jrs does not evaluate")),
        }
    }

    fn take_value(&mut self, name: &str, plugin: Option<String>)
        ensures
            final(self).deep_view() == with_taken(
                old(self).deep_view(),
                name@,
                plugin.deep_view(),
            ),
    {
        if let Ok((_, chain)) = self.resolve(name) {
            add_each(&mut self.used, &chain);
        }
        put(&mut self.taken, Taken { name: name.to_owned(), plugin });
    }

    /// Note that a dependency took a value from each of `names`.
    pub fn used_by_dependency(&mut self, names: &Vec<String>)
        ensures
            final(self).deep_view() == all_taken(
                old(self).deep_view(),
                names.deep_view(),
                0,
                None,
            ),
    {
        let ghost all = names.deep_view();
        let ghost start = self.deep_view();
        let mut i: usize = 0;
        while i < names.len()
            invariant
                all == names.deep_view(),
                i <= names@.len(),
                all_taken(start, all, 0, None) == all_taken(self.deep_view(), all, i as int, None),
            decreases names@.len() - i,
        {
            assert(all[i as int] == names@[i as int]@);
            self.take_value(names[i].as_str(), None);
            i = i + 1;
        }
    }

    /// Note that plugin `id` took its version from `names`.
    pub fn used_by_plugin(&mut self, names: &Vec<String>, id: &str)
        ensures
            final(self).deep_view() == all_taken(
                old(self).deep_view(),
                names.deep_view(),
                0,
                Some(id@),
            ),
    {
        let ghost all = names.deep_view();
        let ghost start = self.deep_view();
        let mut i: usize = 0;
        while i < names.len()
            invariant
                all == names.deep_view(),
                i <= names@.len(),
                all_taken(start, all, 0, Some(id@)) == all_taken(
                    self.deep_view(),
                    all,
                    i as int,
                    Some(id@),
                ),
            decreases names@.len() - i,
        {
            assert(all[i as int] == names@[i as int]@);
            self.take_value(names[i].as_str(), Some(id.to_owned()));
            i = i + 1;
        }
    }

    fn list_taken(&self) -> (r: Vec<String>)
        ensures
            r.deep_view() == taken_names(self.deep_view().taken, 0, seq![]),
    {
        let ghost all = self.taken.deep_view();
        let mut out: Vec<String> = none_of();
        let mut i: usize = 0;
        while i < self.taken.len()
            invariant
                all == self.taken.deep_view(),
                i <= self.taken@.len(),
                taken_names(all, 0, seq![]) == taken_names(all, i as int, out.deep_view()),
            decreases self.taken@.len() - i,
        {
            assert(all[i as int] == self.taken@[i as int].deep_view());
            place(&mut out, self.taken[i].name.as_str());
            i = i + 1;
        }
        out
    }

    fn count_dependencies(&self, name: &str) -> (r: usize)
        ensures
            r == dependency_uses(self.deep_view().taken, name@, 0),
    {
        let ghost all = self.taken.deep_view();
        let mut n: usize = 0;
        let size: usize = self.taken.len();
        let mut i: usize = size;
        while i > 0
            invariant
                all == self.taken.deep_view(),
                size == self.taken@.len(),
                i <= self.taken@.len(),
                n <= self.taken@.len() - i,
                n == dependency_uses(all, name@, i as int),
            decreases i,
        {
            i = i - 1;
            assert(all[i as int] == self.taken@[i as int].deep_view());
            if same(self.taken[i].name.as_str(), name) && self.taken[i].plugin.is_none() {
                n = n + 1;
            }
        }
        n
    }

    fn add_plugins(&self, name: &str, into: &mut Vec<String>)
        ensures
            final(into).deep_view() == plugin_uses(
                self.deep_view().taken,
                name@,
                0,
                old(into).deep_view(),
            ),
            final(into)@.len() >= old(into)@.len(),
    {
        let ghost all = self.taken.deep_view();
        let ghost start = into.deep_view();
        let ghost n = into@.len();
        let mut i: usize = 0;
        while i < self.taken.len()
            invariant
                all == self.taken.deep_view(),
                i <= self.taken@.len(),
                into@.len() >= n,
                plugin_uses(all, name@, 0, start) == plugin_uses(
                    all,
                    name@,
                    i as int,
                    into.deep_view(),
                ),
            decreases self.taken@.len() - i,
        {
            assert(all[i as int] == self.taken@[i as int].deep_view());
            if let Some(id) = &self.taken[i].plugin {
                if same(self.taken[i].name.as_str(), name) {
                    put(into, cat3("plugin `", id.as_str(), "`"));
                }
            }
            i = i + 1;
        }
    }

    fn describe_use(&self, name: &str, value: &str, chain: &Vec<String>) -> (r: String)
        ensures
            r@ == use_line(self.deep_view(), name@, value@, chain.deep_view()),
    {
        let n: usize = self.count_dependencies(name);
        let mut into: Vec<String> = if n == 0 {
            none_of()
        } else if n == 1 {
            one_of("1 dependency".to_owned())
        } else {
            one_of(cat2(show(n as u128).as_str(), " dependencies"))
        };
        let first: usize = into.len();
        assert(into.deep_view() =~= counted(n as nat));
        self.add_plugins(name, &mut into);
        let plugins: usize = into.len() - first;
        let from = if chain.len() > 1 {
            assert(chain.deep_view().last() == chain@.last()@);
            cat3(" (from `", chain[chain.len() - 1].as_str(), "`)")
        } else {
            "".to_owned()
        };
        let together = if n > 1 || plugins > 1 || (n == 1 && plugins == 1) {
            " — the manifest writes the version into each, so they no longer move together"
        } else {
            ""
        };
        cat7(
            name,
            " = ",
            value,
            from.as_str(),
            " → ",
            join(&into, " and ").as_str(),
            together,
        )
    }

    fn list_unused(&self) -> (r: Vec<String>)
        ensures
            r.deep_view() == unused_from(
                self.deep_view().ext_names,
                self.deep_view().used,
                0,
                seq![],
            ),
    {
        let ghost all = self.ext_names.deep_view();
        let ghost used = self.used.deep_view();
        let mut out: Vec<String> = none_of();
        let mut i: usize = 0;
        while i < self.ext_names.len()
            invariant
                all == self.ext_names.deep_view(),
                used == self.used.deep_view(),
                i <= self.ext_names@.len(),
                unused_from(all, used, 0, seq![]) == unused_from(
                    all,
                    used,
                    i as int,
                    out.deep_view(),
                ),
            decreases self.ext_names@.len() - i,
        {
            assert(all[i as int] == self.ext_names@[i as int]@);
            let name = self.ext_names[i].as_str();
            if !listed(&self.used, name) {
                put(&mut out, cat3("`", name, "`"));
            }
            i = i + 1;
        }
        out
    }

    /// A review line for each variable a value was taken from, since the
    /// manifest no longer shows what moved together; and the `ext { }` block,
    /// unless everything in it was used.
    pub fn report(&self, report: &mut Report)
        ensures
            final(report).deep_view() == variables_reported(
                self.deep_view(),
                old(report).deep_view(),
            ),
    {
        let names = self.list_taken();
        let ghost all = names.deep_view();
        let ghost v = self.deep_view();
        let ghost start = report.deep_view();
        let mut i: usize = 0;
        while i < names.len()
            invariant
                all == names.deep_view(),
                v == self.deep_view(),
                i <= names@.len(),
                uses_reported(v, all, 0, start) == uses_reported(
                    v,
                    all,
                    i as int,
                    report.deep_view(),
                ),
            decreases names@.len() - i,
        {
            assert(all[i as int] == names@[i as int]@);
            if let Ok((value, chain)) = self.resolve(names[i].as_str()) {
                report.review(self.describe_use(names[i].as_str(), value.as_str(), &chain));
            }
            i = i + 1;
        }
        if !self.ext_block {
            return ;
        }
        let unused = self.list_unused();
        if unused.len() == 0 {
            if self.ext_opaque {
                report.skipped(
                    "`ext { }` — it holds more than variables set to literals, which jrs cannot evaluate".to_owned(),
                );
            }
        } else if unused.len() == 1 {
            assert(unused.deep_view()[0] == unused@[0]@);
            report.skipped(
                cat3(
                    "`ext { }` — ",
                    unused[0].as_str(),
                    " is not used by anything jrs migrated",
                ),
            );
        } else {
            report.skipped(
                cat3(
                    "`ext { }` — ",
                    join(&unused, ", ").as_str(),
                    " are not used by anything jrs migrated",
                ),
            );
        }
    }
}

fn is_inside_ext(blocks: &Vec<String>) -> (r: bool)
    ensures
        r == inside_ext(blocks.deep_view()),
{
    if blocks.len() > 0 {
        assert(blocks.deep_view().last() == blocks@.last()@);
        is_ext_block(blocks[blocks.len() - 1].as_str())
    } else {
        false
    }
}

// ---- laws ------------------------------------------------------------------

/// The report names the variables in their order, each once.
pub proof fn variables_are_reported_in_order(taken: Seq<TakenModel>)
    ensures
        ascending(taken_names(taken, 0, seq![])),
{
    lemma_taken_in_order(taken, 0, seq![]);
}

proof fn lemma_taken_in_order(taken: Seq<TakenModel>, i: int, out: Seq<Seq<char>>)
    requires
        0 <= i,
        ascending(out),
    ensures
        ascending(taken_names(taken, i, out)),
    decreases taken.len() - i,
{
    if i < taken.len() {
        placing_keeps_order(out, taken[i].name);
        lemma_taken_in_order(taken, i + 1, placed(out, taken[i].name));
    }
}

/// A variable whose value is used is assigned once, and so is each that it
/// was followed through: outside conditionals, the last to a literal that is
/// not blank.
pub proof fn used_values_are_certain(assigned: Seq<AssignedModel>, name: Seq<char>)
    ensures
        resolution(assigned, name) matches Ok((value, chain)) ==> {
            &&& chain.len() > 0
            &&& chain[0] == name
            &&& trimmed(value).len() > 0
            &&& forall|i: int|
                0 <= i < chain.len() ==> times(assigned, #[trigger] chain[i], 0) == 1 && first_given(
                    assigned,
                    chain[i],
                    0,
                ) is Some && !first_given(assigned, chain[i], 0)->0.guarded
            &&& first_given(assigned, chain.last(), 0)->0.value == GivenModel::Literal(value)
        },
{
    lemma_followed(assigned, name, seq![]);
}

proof fn lemma_given_once(assigned: Seq<AssignedModel>, name: Seq<char>, i: int)
    requires
        0 <= i,
    ensures
        first_given(assigned, name, i) is Some <==> times(assigned, name, i) > 0,
    decreases assigned.len() - i,
{
    if i < assigned.len() {
        lemma_given_once(assigned, name, i + 1);
    }
}

proof fn lemma_followed(assigned: Seq<AssignedModel>, current: Seq<char>, chain: Seq<Seq<char>>)
    ensures
        ({
            let (r, c) = follow_from(assigned, current, chain);
            r matches Ok(value) ==> {
                &&& c.len() > chain.len()
                &&& c.take(chain.len() as int) =~= chain
                &&& c[chain.len() as int] == current
                &&& trimmed(value).len() > 0
                &&& forall|i: int|
                    chain.len() <= i < c.len() ==> times(assigned, #[trigger] c[i], 0) == 1
                        && first_given(assigned, c[i], 0) is Some && !first_given(
                        assigned,
                        c[i],
                        0,
                    )->0.guarded
                &&& first_given(assigned, c.last(), 0)->0.value == GivenModel::Literal(value)
            }
        }),
    decreases unvisited(assigned, chain, 0),
{
    if !chain.contains(current) {
        lemma_given_once(assigned, current, 0);
        let d = chain.push(current);
        assert(d.take(chain.len() as int) =~= chain);
        if let Some(one) = first_given(assigned, current, 0) {
            if times(assigned, current, 0) <= 1 && !one.guarded {
                if let GivenModel::Alias(next) = one.value {
                    lemma_visit(assigned, chain, current, 0);
                    lemma_followed(assigned, next, d);
                    let (r, c) = follow_from(assigned, next, d);
                    if r is Ok {
                        assert(c.take(chain.len() as int) =~= c.take(d.len() as int).take(
                            chain.len() as int,
                        ));
                        assert(c[chain.len() as int] == c.take(d.len() as int)[chain.len() as int]);
                    }
                }
            }
        }
    }
}

} // verus!
