//! Maven coordinates.

use crate::text::{cat3, includes, has_char, Duplicate};
use vstd::prelude::*;

verus! {

/// A `group:artifact`.
#[derive(Debug, PartialEq, Eq)]
pub struct Ga {
    pub group: String,
    pub artifact: String,
}

impl DeepView for Ga {
    type V = (Seq<char>, Seq<char>);

    open spec fn deep_view(&self) -> (Seq<char>, Seq<char>) {
        (self.group@, self.artifact@)
    }
}

impl Duplicate for Ga {
    fn duplicate(&self) -> Ga {
        Ga { group: self.group.clone(), artifact: self.artifact.clone() }
    }
}

/// `group:artifact`.
pub open spec fn ga_text(group: Seq<char>, artifact: Seq<char>) -> Seq<char> {
    group + ":"@ + artifact
}

impl Ga {
    pub fn new(group: &str, artifact: &str) -> (r: Ga)
        ensures
            r.deep_view() == (group@, artifact@),
    {
        Ga { group: group.to_owned(), artifact: artifact.to_owned() }
    }

    /// `group:artifact`.
    pub fn to_text(&self) -> (r: String)
        ensures
            r@ == ga_text(self.group@, self.artifact@),
    {
        cat3(self.group.as_str(), ":", self.artifact.as_str())
    }
}

/// A version that is a range: it holds a bracket or a comma.
pub open spec fn range(version: Seq<char>) -> bool {
    includes(version, '[') || includes(version, '(') || includes(version, ']') || includes(version, ')') || includes(
        version,
        ',',
    )
}

/// Whether `version` is a range rather than one version.
pub fn is_range(version: &str) -> (r: bool)
    ensures
        r == range(version@),
{
    has_char(version, '[') || has_char(version, '(') || has_char(version, ']') || has_char(
        version,
        ')',
    ) || has_char(version, ',')
}

} // verus!
