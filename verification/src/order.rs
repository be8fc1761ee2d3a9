//! The order of texts, character by character.

use crate::text::{chars, same};
use vstd::prelude::*;

verus! {

/// `a` comes before `b`, where they are alike up to `i`.
pub open spec fn precedes_from(a: Seq<char>, b: Seq<char>, i: int) -> bool
    decreases a.len() - i,
{
    if i < 0 || i >= b.len() {
        false
    } else if i >= a.len() {
        true
    } else if a[i] != b[i] {
        a[i] < b[i]
    } else {
        precedes_from(a, b, i + 1)
    }
}

/// `a` comes before `b`.
pub open spec fn precedes(a: Seq<char>, b: Seq<char>) -> bool {
    precedes_from(a, b, 0)
}

/// Whether `a` comes before `b`.
pub fn is_before(a: &str, b: &str) -> (r: bool)
    ensures
        r == precedes(a@, b@),
{
    let x = chars(a);
    let y = chars(b);
    let mut i: usize = 0;
    while i < x.len() && i < y.len()
        invariant
            x@ == a@,
            y@ == b@,
            i <= x@.len(),
            i <= y@.len(),
            precedes(a@, b@) == precedes_from(a@, b@, i as int),
        decreases x@.len() - i,
    {
        if x[i] != y[i] {
            return x[i] < y[i];
        }
        i = i + 1;
    }
    i < y.len()
}

/// Of two texts that differ one comes first.
pub proof fn texts_compare(a: Seq<char>, b: Seq<char>)
    ensures
        a != b ==> precedes(a, b) != precedes(b, a),
        a == b ==> !precedes(a, b),
{
    lemma_compare(a, b, 0);
}

proof fn lemma_compare(a: Seq<char>, b: Seq<char>, i: int)
    requires
        0 <= i <= a.len(),
        i <= b.len(),
        forall|j: int| 0 <= j < i ==> a[j] == b[j],
    ensures
        a != b ==> precedes_from(a, b, i) != precedes_from(b, a, i),
        a == b ==> !precedes_from(a, b, i),
    decreases a.len() - i,
{
    if i < a.len() && i < b.len() && a[i] == b[i] {
        lemma_compare(a, b, i + 1);
    } else if i == a.len() && i == b.len() {
        assert(a =~= b);
    }
}

/// What comes before something comes before all that comes after it.
pub proof fn order_is_transitive(a: Seq<char>, b: Seq<char>, c: Seq<char>)
    requires
        precedes(a, b),
        precedes(b, c),
    ensures
        precedes(a, c),
{
    lemma_transitive(a, b, c, 0);
}

proof fn lemma_transitive(a: Seq<char>, b: Seq<char>, c: Seq<char>, i: int)
    requires
        precedes_from(a, b, i),
        precedes_from(b, c, i),
    ensures
        precedes_from(a, c, i),
    decreases a.len() - i,
{
    if i < a.len() && a[i] == b[i] && b[i] == c[i] {
        lemma_transitive(a, b, c, i + 1);
    }
}

/// Each comes before those after it.
pub open spec fn ascending(list: Seq<Seq<char>>) -> bool {
    forall|i: int, j: int|
        0 <= i < j < list.len() ==> precedes(#[trigger] list[i], #[trigger] list[j])
}

/// The first place, from the `i`th on, whose text does not come before `s`.
pub open spec fn slot(list: Seq<Seq<char>>, s: Seq<char>, i: int) -> int
    decreases list.len() - i,
{
    if 0 <= i < list.len() && precedes(list[i], s) {
        slot(list, s, i + 1)
    } else {
        i
    }
}

/// The list with `s` at its place, unless it is there.
pub open spec fn placed(list: Seq<Seq<char>>, s: Seq<char>) -> Seq<Seq<char>> {
    let k = slot(list, s, 0);
    if k < list.len() && list[k] == s {
        list
    } else {
        list.insert(k, s)
    }
}

/// Put `s` at its place, unless it is there.
pub fn place(list: &mut Vec<String>, s: &str)
    ensures
        final(list).deep_view() == placed(old(list).deep_view(), s@),
{
    let ghost all = list.deep_view();
    let mut k: usize = 0;
    while k < list.len() && is_before(list[k].as_str(), s)
        invariant
            list == old(list),
            all == list.deep_view(),
            k <= list@.len(),
            slot(all, s@, 0) == slot(all, s@, k as int),
        decreases list@.len() - k,
    {
        assert(all[k as int] == list@[k as int]@);
        k = k + 1;
    }
    if k < list.len() {
        assert(all[k as int] == list@[k as int]@);
        if same(list[k].as_str(), s) {
            return ;
        }
    }
    list.insert(k, s.to_owned());
    assert(list.deep_view() =~= all.insert(k as int, s@));
}

pub proof fn lemma_slot(list: Seq<Seq<char>>, s: Seq<char>, i: int)
    requires
        0 <= i <= list.len(),
        forall|j: int| 0 <= j < i ==> precedes(#[trigger] list[j], s),
    ensures
        i <= slot(list, s, i) <= list.len(),
        forall|j: int| 0 <= j < slot(list, s, i) ==> precedes(#[trigger] list[j], s),
        slot(list, s, i) < list.len() ==> !precedes(list[slot(list, s, i)], s),
    decreases list.len() - i,
{
    if i < list.len() && precedes(list[i], s) {
        lemma_slot(list, s, i + 1);
    }
}

/// A list in order is so with one more in its place.
pub proof fn placing_keeps_order(list: Seq<Seq<char>>, s: Seq<char>)
    requires
        ascending(list),
    ensures
        ascending(placed(list, s)),
        placed(list, s).contains(s),
{
    lemma_slot(list, s, 0);
    let k = slot(list, s, 0);
    if k < list.len() && list[k] == s {
        assert(list.contains(s));
    } else {
        let out = list.insert(k, s);
        assert(out[k] == s);
        if k < list.len() {
            texts_compare(list[k], s);
        }
        assert forall|i: int, j: int| 0 <= i < j < out.len() implies precedes(
            #[trigger] out[i],
            #[trigger] out[j],
        ) by {
            if i == k {
                assert(out[j] == list[j - 1]);
                if j - 1 > k {
                    assert(precedes(list[k], list[j - 1]));
                    order_is_transitive(s, list[k], list[j - 1]);
                }
            } else if j == k {
                assert(out[i] == list[i]);
            } else {
                let x = if i < k {
                    i
                } else {
                    i - 1
                };
                let y = if j < k {
                    j
                } else {
                    j - 1
                };
                assert(out[i] == list[x] && out[j] == list[y]);
            }
        }
    }
}

} // verus!
