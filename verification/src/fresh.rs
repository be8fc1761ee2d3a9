//! Names that nothing else has.

use crate::text::{cat3, decimal, digit_char, listed, show};
use vstd::prelude::*;

verus! {

/// `base-n`.
pub open spec fn numbered(base: Seq<char>, n: nat) -> Seq<char> {
    base + "-"@ + decimal(n)
}

/// `s` is `base-k` for some `k` from `n` on.
pub open spec fn numbered_from(s: Seq<char>, base: Seq<char>, n: nat) -> bool {
    exists|k: nat| k >= n && s == #[trigger] numbered(base, k)
}

/// How many of the names from the `i`th on are `base-k`, `k` from `n` on.
pub open spec fn rivals(taken: Seq<Seq<char>>, base: Seq<char>, n: nat, i: int) -> nat
    decreases taken.len() - i,
{
    if i < 0 || i >= taken.len() {
        0
    } else {
        rivals(taken, base, n, i + 1) + (if numbered_from(taken[i], base, n) {
            1nat
        } else {
            0nat
        })
    }
}

/// The first of `base-n`, `base-(n + 1)` and so on that is not taken.
pub open spec fn fresh_from(taken: Seq<Seq<char>>, base: Seq<char>, n: nat) -> Seq<char>
    decreases rivals(taken, base, n, 0),
{
    if taken.contains(numbered(base, n)) {
        proof {
            lemma_rival(taken, base, n);
        }
        fresh_from(taken, base, n + 1)
    } else {
        numbered(base, n)
    }
}

/// `base`, or where it is taken the first of `base-2`, `base-3` and so on that
/// is not.
pub open spec fn fresh(taken: Seq<Seq<char>>, base: Seq<char>) -> Seq<char> {
    if taken.contains(base) {
        fresh_from(taken, base, 2)
    } else {
        base
    }
}

/// Two numbers are not written alike.
pub proof fn lemma_decimal(a: nat, b: nat)
    requires
        decimal(a) == decimal(b),
    ensures
        a == b,
    decreases a,
{
    let x = decimal(a);
    assert(x.last() == digit_char(a % 10)) by {
        if a < 10 {
            assert(a % 10 == a);
        }
    }
    assert(x.last() == digit_char(b % 10)) by {
        if b < 10 {
            assert(b % 10 == b);
        }
    }
    assert(a % 10 == b % 10);
    if a < 10 {
        assert(x.len() == 1);
        if b >= 10 {
            lemma_decimal_len(b / 10);
        }
    } else {
        lemma_decimal_len(a / 10);
        assert(x.drop_last() =~= decimal(a / 10));
        if b >= 10 {
            assert(x.drop_last() =~= decimal(b / 10));
            lemma_decimal(a / 10, b / 10);
        }
    }
}

proof fn lemma_decimal_len(n: nat)
    ensures
        decimal(n).len() > 0,
{
}

proof fn lemma_numbered(base: Seq<char>, a: nat, b: nat)
    requires
        numbered(base, a) == numbered(base, b),
    ensures
        a == b,
{
    reveal_strlit("-");
    let k = (base + "-"@).len() as int;
    assert(numbered(base, a).skip(k) =~= decimal(a));
    assert(numbered(base, b).skip(k) =~= decimal(b));
    lemma_decimal(a, b);
}

/// A name that is taken is one rival less for the next.
pub proof fn lemma_rival(taken: Seq<Seq<char>>, base: Seq<char>, n: nat)
    requires
        taken.contains(numbered(base, n)),
    ensures
        rivals(taken, base, n + 1, 0) < rivals(taken, base, n, 0),
{
    let k = choose|k: int| 0 <= k < taken.len() && taken[k] == numbered(base, n);
    lemma_rivals(taken, base, n, 0, k);
}

proof fn lemma_rivals(taken: Seq<Seq<char>>, base: Seq<char>, n: nat, i: int, k: int)
    requires
        0 <= i,
        0 <= k < taken.len(),
        taken[k] == numbered(base, n),
    ensures
        rivals(taken, base, n + 1, i) <= rivals(taken, base, n, i),
        i <= k ==> rivals(taken, base, n + 1, i) < rivals(taken, base, n, i),
    decreases taken.len() - i,
{
    if i < taken.len() {
        lemma_rivals(taken, base, n, i + 1, k);
        if numbered_from(taken[i], base, n + 1) {
            let m = choose|m: nat| m >= n + 1 && taken[i] == #[trigger] numbered(base, m);
            assert(m >= n && taken[i] == numbered(base, m));
            if i == k {
                lemma_numbered(base, n, m);
            }
        }
        if i == k {
            assert(n >= n && taken[i] == numbered(base, n));
        }
    }
}

proof fn lemma_rivals_bound(taken: Seq<Seq<char>>, base: Seq<char>, n: nat, i: int)
    requires
        0 <= i <= taken.len(),
    ensures
        rivals(taken, base, n, i) <= taken.len() - i,
    decreases taken.len() - i,
{
    if i < taken.len() {
        lemma_rivals_bound(taken, base, n, i + 1);
    }
}

/// `base`, or where it is taken the first of `base-2`, `base-3` and so on that
/// is not.
pub fn fresh_name(taken: &Vec<String>, base: &str) -> (r: String)
    ensures
        r@ == fresh(taken.deep_view(), base@),
{
    if !listed(taken, base) {
        return base.to_owned();
    }
    let ghost all = taken.deep_view();
    let size: usize = taken.len();
    let mut n: u128 = 2;
    proof {
        lemma_rivals_bound(all, base@, 2, 0);
    }
    loop
        invariant
            all == taken.deep_view(),
            size == taken@.len(),
            all.contains(base@),
            n + rivals(all, base@, n as nat, 0) <= 2 + size,
            fresh_from(all, base@, 2) == fresh_from(all, base@, n as nat),
        decreases rivals(all, base@, n as nat, 0),
    {
        let name = cat3(base, "-", show(n).as_str());
        if !listed(taken, name.as_str()) {
            return name;
        }
        proof {
            lemma_rival(all, base@, n as nat);
        }
        n = n + 1;
    }
}

/// A fresh name is not taken.
pub proof fn fresh_names_are_free(taken: Seq<Seq<char>>, base: Seq<char>)
    ensures
        !taken.contains(fresh(taken, base)),
{
    lemma_free(taken, base, 2);
}

proof fn lemma_free(taken: Seq<Seq<char>>, base: Seq<char>, n: nat)
    ensures
        !taken.contains(fresh_from(taken, base, n)),
    decreases rivals(taken, base, n, 0),
{
    if taken.contains(numbered(base, n)) {
        lemma_rival(taken, base, n);
        lemma_free(taken, base, n + 1);
    }
}

} // verus!
