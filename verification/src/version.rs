//! The jrs that a project needs.

use crate::error::{Fault, JrsError};
use crate::text::{
    all, all_of, cat3, cat7, head, number, outcome, parse_number, pieces, split, take_run, Class,
};
use crate::render::{quote, quoted};
use crate::value::{entry, Entries, Table};
use vstd::prelude::*;

verus! {

/// Where jrs releases are published, for a project that needs a newer one.
pub const RELEASES_URL: &'static str = "https://github.com/pwittchen/jrs/releases";

/// The version of this jrs.
pub const VERSION: &'static str = "0.1.0";

/// A part of a release: digits, and nothing else.
pub open spec fn release_number(part: Seq<char>) -> Option<nat> {
    if all(part, Class::Digit) {
        number(part, u64::MAX as nat)
    } else {
        None
    }
}

/// `0.9` or `0.9.1` as `(0, 9, 0)` and `(0, 9, 1)`; anything else is none.
pub open spec fn release(version: Seq<char>) -> Option<(nat, nat, nat)> {
    let parts = pieces(version, '.');
    if parts.len() == 2 {
        match (release_number(parts[0]), release_number(parts[1])) {
            (Some(a), Some(b)) => Some((a, b, 0)),
            _ => None,
        }
    } else if parts.len() == 3 {
        match (release_number(parts[0]), release_number(parts[1]), release_number(parts[2])) {
            (Some(a), Some(b), Some(c)) => Some((a, b, c)),
            _ => None,
        }
    } else {
        None
    }
}

/// `have` is `needed` or newer.
pub open spec fn at_least(have: (nat, nat, nat), needed: (nat, nat, nat)) -> bool {
    ||| have.0 > needed.0
    ||| have.0 == needed.0 && have.1 > needed.1
    ||| have.0 == needed.0 && have.1 == needed.1 && have.2 >= needed.2
}

fn read_number(part: &str) -> (r: Option<u64>)
    ensures
        r is Some <==> release_number(part@) is Some,
        r matches Some(n) ==> release_number(part@) == Some(n as nat),
{
    if all_of(part, Class::Digit) {
        parse_number(part, u64::MAX)
    } else {
        None
    }
}

/// `0.9` or `0.9.1` as its three numbers; anything else is `None`.
pub fn release_parts(version: &str) -> (r: Option<(u64, u64, u64)>)
    ensures
        r is Some <==> release(version@) is Some,
        r matches Some(p) ==> release(version@) == Some((p.0 as nat, p.1 as nat, p.2 as nat)),
{
    let parts = split(version, '.');
    let ghost all = parts.deep_view();
    if parts.len() == 2 {
        assert(all[0] == parts@[0]@ && all[1] == parts@[1]@);
        match (read_number(parts[0]), read_number(parts[1])) {
            (Some(a), Some(b)) => Some((a, b, 0)),
            _ => None,
        }
    } else if parts.len() == 3 {
        assert(all[0] == parts@[0]@ && all[1] == parts@[1]@ && all[2] == parts@[2]@);
        match (read_number(parts[0]), read_number(parts[1]), read_number(parts[2])) {
            (Some(a), Some(b), Some(c)) => Some((a, b, c)),
            _ => None,
        }
    } else {
        None
    }
}

/// A version without the pre-release or build suffix: `0.9.0-dev` is 0.9.0.
pub open spec fn bare_version(running: Seq<char>) -> Seq<char> {
    head(running, Class::Neither('-', '+'))
}

pub open spec fn too_old_message(required: Seq<char>, running: Seq<char>, path: Seq<char>) -> Seq<
    char,
> {
    path + " needs jrs "@ + required + " or newer (`project.jrs-version`), but this is jrs "@
        + running + "\n\ninstall a newer release from "@ + RELEASES_URL@
}

/// What is wrong where `running` is older than `required`. A version that is
/// not a release passes.
pub open spec fn version_fault(required: Seq<char>, running: Seq<char>, path: Seq<char>) -> Option<
    Fault,
> {
    match (release(required), release(bare_version(running))) {
        (Some(needed), Some(have)) => if at_least(have, needed) {
            None
        } else {
            Some(Fault::Manifest(too_old_message(required, running, path)))
        },
        _ => None,
    }
}

/// Fail unless `running` is at least `required`, naming both and where newer
/// releases are. A version that is not a release passes.
pub fn check_jrs_version(required: &str, running: &str, path: &str) -> (r: Result<(), JrsError>)
    ensures
        outcome(r) == (match version_fault(required@, running@, path@) {
            Some(e) => Err::<(), Fault>(e),
            None => Ok(()),
        }),
{
    let numeric = take_run(running, Class::Neither('-', '+'));
    match (release_parts(required), release_parts(numeric)) {
        (Some(needed), Some(have)) => {
            if have.0 > needed.0 || (have.0 == needed.0 && (have.1 > needed.1 || (have.1
                == needed.1 && have.2 >= needed.2))) {
                return Ok(());
            }
            Err(
                JrsError::Manifest(
                    cat7(
                        path,
                        " needs jrs ",
                        required,
                        " or newer (`project.jrs-version`), but this is jrs ",
                        running,
                        "\n\ninstall a newer release from ",
                        RELEASES_URL,
                    ),
                ),
            )
        },
        _ => Ok(()),
    }
}

pub open spec fn bad_version_message(got: Seq<char>) -> Seq<char> {
    "`project.jrs-version` must be a jrs version as `MAJOR.MINOR` or `MAJOR.MINOR.PATCH`, like \"0.9\" or \"0.9.1\" (got "@
        + got + ")"@
}

/// `project.jrs-version`, where this jrs is new enough for it.
pub open spec fn jrs_version_of(project: Entries, path: Seq<char>) -> Result<
    Option<Seq<char>>,
    Fault,
> {
    match entry(project, "jrs-version"@) {
        None => Ok(None),
        Some(v) => match v.text() {
            None => Err(Fault::Manifest(bad_version_message("`"@ + v.shown + "`"@))),
            Some(required) => if release(required) is None {
                Err(Fault::Manifest(bad_version_message(quoted(required))))
            } else {
                match version_fault(required, VERSION@, path) {
                    Some(e) => Err(e),
                    None => Ok(Some(required)),
                }
            },
        },
    }
}

/// `project.jrs-version`: the oldest jrs the project builds with. A jrs older
/// than that stops here, before it reads a key it might not know.
pub fn parse_jrs_version(project: &Table, path: &str) -> (r: Result<Option<String>, JrsError>)
    ensures
        outcome(r) == jrs_version_of(project.deep_view(), path@),
{
    let Some(value) = project.get("jrs-version") else {
        return Ok(None);
    };
    let Some(required) = value.as_str() else {
        let got = cat3("`", value.shown.as_str(), "`");
        return Err(
            JrsError::Manifest(
                cat3(
                    "`project.jrs-version` must be a jrs version as `MAJOR.MINOR` or `MAJOR.MINOR.PATCH`, like \"0.9\" or \"0.9.1\" (got ",
                    got.as_str(),
                    ")",
                ),
            ),
        );
    };
    if release_parts(required).is_none() {
        let got = quote(required);
        return Err(
            JrsError::Manifest(
                cat3(
                    "`project.jrs-version` must be a jrs version as `MAJOR.MINOR` or `MAJOR.MINOR.PATCH`, like \"0.9\" or \"0.9.1\" (got ",
                    got.as_str(),
                    ")",
                ),
            ),
        );
    }
    match check_jrs_version(required, VERSION, path) {
        Ok(()) => Ok(Some(required.to_owned())),
        Err(e) => Err(e),
    }
}

/// Every jrs builds what needs that very release.
pub proof fn a_release_satisfies_itself(version: Seq<char>, path: Seq<char>)
    requires
        bare_version(version) == version,
    ensures
        version_fault(version, version, path) is None,
{
}

/// A jrs that builds a project builds whatever needs no newer one; a newer jrs
/// builds it too.
pub proof fn newer_releases_build_more(
    required: (nat, nat, nat),
    running: (nat, nat, nat),
    older: (nat, nat, nat),
    newer: (nat, nat, nat),
)
    requires
        at_least(running, required),
        at_least(required, older),
        at_least(newer, running),
    ensures
        at_least(newer, older),
{
}

/// Of two releases one is the other or newer, and both ways only where they
/// are the same.
pub proof fn releases_are_ordered(a: (nat, nat, nat), b: (nat, nat, nat))
    ensures
        at_least(a, b) || at_least(b, a),
        at_least(a, b) && at_least(b, a) ==> a == b,
{
}

} // verus!
