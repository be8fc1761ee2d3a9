//! Text as Rust's `Debug` shows it.

use crate::text::{cat3, join, joined, none_of, put};
use vstd::prelude::*;

verus! {

/// What `Debug` makes of a string: quoted, with its escapes.
pub uninterp spec fn debug_form(s: Seq<char>) -> Seq<char>;

/// `Debug` of a `str`. The claim is that the outcome depends on the text
/// alone; which characters it escapes is not stated.
#[verifier::external_body]
pub(crate) fn debug(s: &str) -> (r: String)
    ensures
        r@ == debug_form(s@),
{
    format!("{:?}", s)
}

/// What `Debug` makes of each.
pub open spec fn debug_forms(list: Seq<Seq<char>>) -> Seq<Seq<char>> {
    Seq::new(list.len(), |i: int| debug_form(list[i]))
}

/// A list as `Debug` shows it.
pub open spec fn debug_list_form(list: Seq<Seq<char>>) -> Seq<char> {
    "["@ + joined(debug_forms(list), ", "@) + "]"@
}

/// A list as `Debug` shows it.
pub fn debug_list(list: &Vec<String>) -> (r: String)
    ensures
        r@ == debug_list_form(list.deep_view()),
{
    let ghost all = list.deep_view();
    let mut out: Vec<String> = none_of();
    let mut i: usize = 0;
    while i < list.len()
        invariant
            all == list.deep_view(),
            i <= list@.len(),
            out.deep_view() =~= debug_forms(all).take(i as int),
        decreases list@.len() - i,
    {
        put(&mut out, debug(list[i].as_str()));
        i = i + 1;
    }
    assert(debug_forms(all).take(i as int) =~= debug_forms(all));
    cat3("[", join(&out, ", ").as_str(), "]")
}

} // verus!
