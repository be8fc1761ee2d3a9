//! What a migration tells about itself.

use crate::text::{none_of, put, put_all};
use vstd::prelude::*;

verus! {

/// What became of a build: what was migrated, what to look at, what was left
/// out.
#[derive(Debug, PartialEq, Eq)]
pub struct Report {
    /// What to say before everything else.
    pub preamble: Option<String>,
    pub migrated: Vec<String>,
    pub needs_review: Vec<String>,
    pub not_migrated: Vec<String>,
}

/// What a report says.
pub struct ReportModel {
    pub preamble: Option<Seq<char>>,
    pub migrated: Seq<Seq<char>>,
    pub needs_review: Seq<Seq<char>>,
    pub not_migrated: Seq<Seq<char>>,
}

impl DeepView for Report {
    type V = ReportModel;

    open spec fn deep_view(&self) -> ReportModel {
        ReportModel {
            preamble: self.preamble.deep_view(),
            migrated: self.migrated.deep_view(),
            needs_review: self.needs_review.deep_view(),
            not_migrated: self.not_migrated.deep_view(),
        }
    }
}

impl ReportModel {
    pub open spec fn with_migrated(self, text: Seq<char>) -> ReportModel {
        ReportModel { migrated: self.migrated.push(text), ..self }
    }

    pub open spec fn with_review(self, text: Seq<char>) -> ReportModel {
        ReportModel { needs_review: self.needs_review.push(text), ..self }
    }

    pub open spec fn with_skipped(self, text: Seq<char>) -> ReportModel {
        ReportModel { not_migrated: self.not_migrated.push(text), ..self }
    }

    /// With what another report says after what this one does.
    pub open spec fn with_report(self, other: ReportModel) -> ReportModel {
        ReportModel {
            preamble: self.preamble,
            migrated: self.migrated + other.migrated,
            needs_review: self.needs_review + other.needs_review,
            not_migrated: self.not_migrated + other.not_migrated,
        }
    }
}

/// A report that says nothing yet.
pub open spec fn empty_report() -> ReportModel {
    ReportModel { preamble: None, migrated: seq![], needs_review: seq![], not_migrated: seq![] }
}

impl Default for Report {
    fn default() -> (r: Report)
        ensures
            r.deep_view() == empty_report(),
    {
        Report {
            preamble: None,
            migrated: none_of(),
            needs_review: none_of(),
            not_migrated: none_of(),
        }
    }
}

impl Report {
    /// Something was migrated.
    pub fn migrated(&mut self, text: String)
        ensures
            final(self).deep_view() == old(self).deep_view().with_migrated(text@),
    {
        put(&mut self.migrated, text);
    }

    /// Something was migrated that is to be looked at.
    pub fn review(&mut self, text: String)
        ensures
            final(self).deep_view() == old(self).deep_view().with_review(text@),
    {
        put(&mut self.needs_review, text);
    }

    /// Something was left out.
    pub fn skipped(&mut self, text: String)
        ensures
            final(self).deep_view() == old(self).deep_view().with_skipped(text@),
    {
        put(&mut self.not_migrated, text);
    }

    /// Say what another report says, after what this one does.
    pub fn append(&mut self, other: Report)
        ensures
            final(self).deep_view() == old(self).deep_view().with_report(other.deep_view()),
    {
        put_all(&mut self.migrated, other.migrated);
        put_all(&mut self.needs_review, other.needs_review);
        put_all(&mut self.not_migrated, other.not_migrated);
    }
}

impl ReportModel {
    /// How many things the report says.
    pub open spec fn count(self) -> nat {
        self.migrated.len() + self.needs_review.len() + self.not_migrated.len()
    }
}

} // verus!
