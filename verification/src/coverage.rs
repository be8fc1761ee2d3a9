//! The coverage that `jrs test --coverage` asks for.

use crate::text::{
    cat2, decimal, drop_run, ends, ends_with, same, sans_tail, show, Class, Duplicate,
};
use vstd::arithmetic::power2::{
    lemma2_to64, lemma2_to64_rest, lemma_pow2_adds, lemma_pow2_pos, lemma_pow2_strictly_increases,
    lemma_pow2_unfold, pow2,
};
use vstd::prelude::*;

verus! {

/// A `JaCoCo` counter `test.coverage-minimum` can set a minimum for.
#[derive(Debug, Clone, Copy, PartialEq, Eq, Structural)]
pub enum CoverageCounter {
    Instruction,
    Branch,
    Line,
    Complexity,
    Method,
    Class,
}

impl DeepView for CoverageCounter {
    type V = CoverageCounter;

    open spec fn deep_view(&self) -> CoverageCounter {
        *self
    }
}

/// The counter that `key` names.
pub open spec fn counter_named(key: Seq<char>) -> Option<CoverageCounter> {
    if key == "instruction"@ {
        Some(CoverageCounter::Instruction)
    } else if key == "branch"@ {
        Some(CoverageCounter::Branch)
    } else if key == "line"@ {
        Some(CoverageCounter::Line)
    } else if key == "complexity"@ {
        Some(CoverageCounter::Complexity)
    } else if key == "method"@ {
        Some(CoverageCounter::Method)
    } else if key == "class"@ {
        Some(CoverageCounter::Class)
    } else {
        None
    }
}

impl CoverageCounter {
    pub open spec fn word(self) -> Seq<char> {
        match self {
            CoverageCounter::Instruction => "instruction"@,
            CoverageCounter::Branch => "branch"@,
            CoverageCounter::Line => "line"@,
            CoverageCounter::Complexity => "complexity"@,
            CoverageCounter::Method => "method"@,
            CoverageCounter::Class => "class"@,
        }
    }

    /// Its key in `test.coverage-minimum`: `line`.
    pub fn key(self) -> (r: &'static str)
        ensures
            r@ == self.word(),
    {
        match self {
            CoverageCounter::Instruction => "instruction",
            CoverageCounter::Branch => "branch",
            CoverageCounter::Line => "line",
            CoverageCounter::Complexity => "complexity",
            CoverageCounter::Method => "method",
            CoverageCounter::Class => "class",
        }
    }

    /// The `type` of its `<counter>` in `jacoco.xml`: `LINE`.
    pub fn jacoco_type(self) -> (r: &'static str)
        ensures
            r@ == (match self {
                CoverageCounter::Instruction => "INSTRUCTION"@,
                CoverageCounter::Branch => "BRANCH"@,
                CoverageCounter::Line => "LINE"@,
                CoverageCounter::Complexity => "COMPLEXITY"@,
                CoverageCounter::Method => "METHOD"@,
                CoverageCounter::Class => "CLASS"@,
            }),
    {
        match self {
            CoverageCounter::Instruction => "INSTRUCTION",
            CoverageCounter::Branch => "BRANCH",
            CoverageCounter::Line => "LINE",
            CoverageCounter::Complexity => "COMPLEXITY",
            CoverageCounter::Method => "METHOD",
            CoverageCounter::Class => "CLASS",
        }
    }

    /// The counter that `key` names.
    pub fn from_key(key: &str) -> (r: Option<CoverageCounter>)
        ensures
            r == counter_named(key@),
    {
        if same(key, "instruction") {
            Some(CoverageCounter::Instruction)
        } else if same(key, "branch") {
            Some(CoverageCounter::Branch)
        } else if same(key, "line") {
            Some(CoverageCounter::Line)
        } else if same(key, "complexity") {
            Some(CoverageCounter::Complexity)
        } else if same(key, "method") {
            Some(CoverageCounter::Method)
        } else if same(key, "class") {
            Some(CoverageCounter::Class)
        } else {
            None
        }
    }
}

/// Every counter is found by its key, and by no other.
pub proof fn counter_keys_are_their_own(c: CoverageCounter, key: Seq<char>)
    ensures
        counter_named(key) == Some(c) <==> key == c.word(),
{
    reveal_strlit("instruction");
    reveal_strlit("branch");
    reveal_strlit("line");
    reveal_strlit("complexity");
    reveal_strlit("method");
    reveal_strlit("class");
    assert("instruction"@.len() == 11);
    assert("branch"@.len() == 6);
    assert("line"@.len() == 4);
    assert("complexity"@.len() == 10);
    assert("method"@.len() == 6);
    assert("class"@.len() == 5);
    assert("branch"@[0] != "method"@[0]);
}

/// One entry of `test.coverage-minimum`: the covered ratio a counter's total
/// must reach, kept in hundredths of a percent (`0.8` is `8000`) so that the
/// comparison with `JaCoCo`'s counts is exact.
#[derive(Debug, Clone, Copy, PartialEq, Eq, Structural)]
pub struct CoverageMinimum {
    pub counter: CoverageCounter,
    pub basis_points: u32,
}

impl DeepView for CoverageMinimum {
    type V = CoverageMinimum;

    open spec fn deep_view(&self) -> CoverageMinimum {
        *self
    }
}

impl Duplicate for CoverageMinimum {
    fn duplicate(&self) -> CoverageMinimum {
        *self
    }
}

/// `n`, below ten thousand, in four digits.
pub open spec fn four_digits(n: nat) -> Seq<char> {
    (if n < 10 {
        "000"@
    } else if n < 100 {
        "00"@
    } else if n < 1000 {
        "0"@
    } else {
        ""@
    }) + decimal(n)
}

/// `n` ten-thousandths as a decimal fraction, with no zero at its end but one
/// right after the point.
pub open spec fn ratio_text(n: nat) -> Seq<char> {
    let digits = decimal(n / 10000) + "."@ + four_digits(n % 10000);
    let short = sans_tail(digits, Class::One('0'));
    if ends(short, "."@) {
        short + "0"@
    } else {
        short
    }
}

impl CoverageMinimum {
    /// The ratio as the manifest writes it: `0.8`, `0.755`, `1.0`.
    pub fn ratio(&self) -> (r: String)
        ensures
            r@ == ratio_text(self.basis_points as nat),
    {
        let mut digits = cat2(show((self.basis_points / 10000) as u128).as_str(), ".");
        let low: u32 = self.basis_points % 10000;
        let zeros: &str = if low < 10 {
            "000"
        } else if low < 100 {
            "00"
        } else if low < 1000 {
            "0"
        } else {
            ""
        };
        let last = cat2(zeros, show(low as u128).as_str());
        digits.append(last.as_str());
        let short: &str = drop_run(digits.as_str(), Class::One('0'));
        if ends_with(short, ".") {
            cat2(short, "0")
        } else {
            short.to_owned()
        }
    }
}

// ---- ratios read from binary floating point --------------------------------
//
// A binary64 number that is not negative, below two, has the bits of an
// exponent `e` above those of a fraction `f` of 52 bits. It stands for
// `(2^52 + f) * 2^(e - 1075)`, or for `f * 2^-1074` where `e` is zero.

/// The number with these bits is from 0 to 1.
pub open spec fn unit_bits(bits: u64) -> bool {
    bits <= 0x3ff0_0000_0000_0000 || bits == 0x8000_0000_0000_0000
}

/// The significand of the number.
pub open spec fn significand(bits: u64) -> nat {
    let f = bits as nat % 0x10_0000_0000_0000;
    if bits < 0x10_0000_0000_0000 {
        f
    } else {
        0x10_0000_0000_0000 + f
    }
}

/// How often the significand is halved to give the number.
pub open spec fn halvings(bits: u64) -> nat {
    let e = bits as nat / 0x10_0000_0000_0000;
    if e == 0 {
        1074
    } else {
        (1075 - e) as nat
    }
}

/// `n / d`, to the nearest whole number; a half goes to the even one.
pub open spec fn nearest_even(n: nat, d: nat) -> nat {
    let q = n / d;
    let r = n % d;
    if 2 * r > d || (2 * r == d && q % 2 == 1) {
        q + 1
    } else {
        q
    }
}

/// How many bits of `n` are beyond the 53 that a significand holds.
pub open spec fn excess(n: nat) -> nat
    decreases n,
{
    if n < 0x20_0000_0000_0000 {
        0
    } else {
        excess(n / 2) + 1
    }
}

/// The number with these bits, times ten thousand, as binary64 rounds the
/// product, to the nearest whole number; a half goes up.
pub open spec fn ten_thousandths(bits: u64) -> nat {
    if bits > 0x3ff0_0000_0000_0000 {
        0
    } else {
        let n = significand(bits) * 10000;
        let s = excess(n);
        let product = nearest_even(n, pow2(s));
        let d = pow2((halvings(bits) - s) as nat);
        (2 * product + d) / (2 * d)
    }
}


/// `2^k`, for a `k` that a machine word holds it for.
fn power(k: u64) -> (r: u128)
    requires
        k < 64,
    ensures
        r == pow2(k as nat),
        r <= 0x8000_0000_0000_0000,
{
    let mut i: u64 = 0;
    let mut r: u128 = 1;
    proof {
        lemma2_to64();
        lemma2_to64_rest();
    }
    while i < k
        invariant
            i <= k < 64,
            r == pow2(i as nat),
            pow2(63) == 0x8000_0000_0000_0000,
        decreases k - i,
    {
        proof {
            lemma_pow2_unfold((i + 1) as nat);
            lemma_pow2_strictly_increases(i as nat, 63);
        }
        r = r * 2;
        i = i + 1;
    }
    proof {
        if k < 63 {
            lemma_pow2_strictly_increases(k as nat, 63);
        }
    }
    r
}

/// How many bits of `n` are beyond the 53 that a significand holds.
fn excess_of(n: u128) -> (r: u64)
    requires
        n < 0x80_0000_0000_0000_0000,
    ensures
        r == excess(n as nat),
        r <= 18,
        n < 0x20_0000_0000_0000 * pow2(r as nat),
{
    let mut m: u128 = n;
    let mut s: u64 = 0;
    let ghost mut d: nat = 1;
    proof {
        lemma2_to64();
        lemma2_to64_rest();
    }
    while m >= 0x20_0000_0000_0000
        invariant
            n < 0x80_0000_0000_0000_0000,
            excess(n as nat) == s + excess(m as nat),
            d == pow2(s as nat),
            d >= 1,
            s <= 18,
            m * d <= n < (m + 1) * d,
            pow2(18) == 0x40000,
            pow2(0) == 1,
        decreases m,
    {
        proof {
            lemma_pow2_unfold((s + 1) as nat);
            let half = m / 2;
            assert(half * (2 * d) <= m * d) by (nonlinear_arith)
                requires
                    2 * half <= m,
                    d >= 1,
            ;
            assert((m + 1) * d <= (half + 1) * (2 * d)) by (nonlinear_arith)
                requires
                    m <= 2 * half + 1,
                    d >= 1,
            ;
            if s == 18 {
                assert(m * d >= 0x20_0000_0000_0000 * 0x40000) by (nonlinear_arith)
                    requires
                        m >= 0x20_0000_0000_0000,
                        d == 0x40000,
                ;
                assert(false);
            }
            d = 2 * d;
        }
        m = m / 2;
        s = s + 1;
    }
    proof {
        assert((m + 1) * d <= 0x20_0000_0000_0000 * d) by (nonlinear_arith)
            requires
                m + 1 <= 0x20_0000_0000_0000,
                d >= 1,
        ;
    }
    s
}

proof fn lemma_small_product(n: nat, s: nat)
    requires
        n < 0x20_0000_0000_0000 * pow2(s),
    ensures
        nearest_even(n, pow2(s)) <= 0x20_0000_0000_0000,
{
    let d = pow2(s);
    vstd::arithmetic::power2::lemma_pow2_pos(s);
    assert(n / d < 0x20_0000_0000_0000) by (nonlinear_arith)
        requires
            n < 0x20_0000_0000_0000 * d,
            d > 0,
    ;
}

/// The number with these bits, times ten thousand, to the nearest whole number.
pub fn basis_points(bits: u64) -> (r: u32)
    requires
        unit_bits(bits),
    ensures
        r == ten_thousandths(bits),
{
    if bits > 0x3ff0_0000_0000_0000 {
        return 0;
    }
    let f: u64 = bits % 0x10_0000_0000_0000;
    let e: u64 = bits / 0x10_0000_0000_0000;
    let m: u64 = if e == 0 {
        f
    } else {
        0x10_0000_0000_0000 + f
    };
    let n: u128 = (m as u128) * 10000;
    let s: u64 = excess_of(n);
    let h: u64 = if e == 0 {
        1074
    } else {
        1075 - e
    };
    let unit: u128 = power(s);
    proof {
        vstd::arithmetic::power2::lemma_pow2_pos(s as nat);
        lemma_small_product(n as nat, s as nat);
    }
    let q: u128 = n / unit;
    let rest: u128 = n % unit;
    let product: u128 = if 2 * rest > unit || (2 * rest == unit && q % 2 == 1) {
        q + 1
    } else {
        q
    };
    assert(product == nearest_even(n as nat, pow2(s as nat)));
    let k: u64 = h - s;
    let ghost dd: int = pow2(k as nat) as int;
    if k >= 60 {
        proof {
            lemma2_to64();
            lemma2_to64_rest();
            if k > 60 {
                lemma_pow2_strictly_increases(60, k as nat);
            }
            assert((2 * product + dd) / (2 * dd) == 0) by (nonlinear_arith)
                requires
                    2 * product < dd,
                    dd > 0,
            ;
        }
        return 0;
    }
    let d: u128 = power(k);
    proof {
        lemma2_to64();
        lemma2_to64_rest();
        if k > 34 {
            lemma_pow2_strictly_increases(34, k as nat);
        }
        assert((2 * product + dd) / (2 * dd) <= 0x100000) by (nonlinear_arith)
            requires
                product <= 0x20_0000_0000_0000,
                dd >= 0x4_0000_0000,
        ;
    }
    ((2 * product + d) / (2 * d)) as u32
}

// ---- ratios as decimals ----------------------------------------------------

/// The number with these bits is, of those from 0 to 1, the nearest to `n`
/// ten-thousandths: no further from it than half of what its last bit counts.
pub open spec fn nearest_to(bits: u64, n: nat) -> bool {
    &&& bits <= 0x3ff0_0000_0000_0000
    &&& significand(bits) * 10000 <= n * pow2(halvings(bits)) + 5000
    &&& n * pow2(halvings(bits)) <= significand(bits) * 10000 + 5000
}

/// A number of 66 or 67 bits has 13 or 14 beyond 53.
proof fn lemma_excess(n: nat)
    requires
        0x10_0000_0000_0000 * 10000 <= n < 0x20_0000_0000_0000 * 10000,
    ensures
        excess(n) == 13 || excess(n) == 14,
{
    reveal_with_fuel(excess, 16);
    let a = n / 2;
    let b = a / 2;
    let c = b / 2;
    let d = c / 2;
    let e = d / 2;
    let f = e / 2;
    let g = f / 2;
    let h = g / 2;
    let i = h / 2;
    let j = i / 2;
    let k = j / 2;
    let l = k / 2;
    let m = l / 2;
    let o = m / 2;
    assert(l >= 0x20_0000_0000_0000);
    assert(o < 0x20_0000_0000_0000);
}

/// Rounding moves a quotient by half of the divisor at most.
proof fn lemma_rounded(n: nat, p: nat)
    requires
        p > 0,
    ensures
        2 * (nearest_even(n, p) * p) <= 2 * n + p,
        2 * n <= 2 * (nearest_even(n, p) * p) + p,
{
    let q = n / p;
    let r = n % p;
    assert(n == q * p + r && r < p) by (nonlinear_arith)
        requires
            p > 0,
            q == n / p,
            r == n % p,
    ;
    assert((q + 1) * p == q * p + p) by (nonlinear_arith);
}

/// What is next to a multiple of `d`, or is one, is nearest to it.
proof fn lemma_near_multiple(product: nat, n: nat, d: nat)
    requires
        d > 4,
        product <= n * d + 1,
        n * d <= product + 1,
    ensures
        (2 * product + d) / (2 * d) == n,
{
    let rest = 2 * product + d - n * (2 * d);
    assert(n * (2 * d) == 2 * (n * d)) by (nonlinear_arith);
    assert(0 <= rest < 2 * d);
    assert((2 * product + d) / (2 * d) == n) by (nonlinear_arith)
        requires
            2 * product + d == n * (2 * d) + rest,
            0 <= rest < 2 * d,
            d > 0,
    ;
}

/// The number nearest to a ratio in ten-thousandths is that many of them.
pub proof fn nearest_ratios_are_read(bits: u64, n: nat)
    requires
        n <= 10000,
        nearest_to(bits, n),
    ensures
        unit_bits(bits),
        ten_thousandths(bits) == n,
{
    let sig = significand(bits);
    let h = halvings(bits);
    lemma2_to64();
    lemma2_to64_rest();
    if n == 0 {
        assert(n * pow2(h) == 0) by (nonlinear_arith)
            requires
                n == 0,
        ;
        assert(sig == 0);
        assert(bits == 0);
        assert(excess(0) == 0);
        lemma_pow2_pos(1074);
        lemma_near_zero(pow2(1074));
    } else {
        if bits < 0x10_0000_0000_0000 {
            lemma_pow2_strictly_increases(63, 1074);
            assert(n * pow2(1074) >= pow2(1074)) by (nonlinear_arith)
                requires
                    n >= 1,
            ;
            lemma_pow2_adds(63, 63);
            lemma_pow2_strictly_increases(126, 1074);
            assert(false);
        }
        let big = sig * 10000;
        lemma_excess(big);
        let s = excess(big);
        assert(h >= 52);
        let p = pow2(s);
        let d = pow2((h - s) as nat);
        lemma_pow2_adds(s, (h - s) as nat);
        assert(p == 8192 || p == 16384);
        if h - s > 37 {
            lemma_pow2_strictly_increases(37, (h - s) as nat);
        }
        assert(d > 4);
        let product = nearest_even(big, p);
        lemma_rounded(big, p);
        assert(n * pow2(h) == (n * d) * p) by (nonlinear_arith)
            requires
                pow2(h) == p * d,
        ;
        let target = n * d;
        assert(product <= target + 1 && target <= product + 1) by (nonlinear_arith)
            requires
                p == 8192 || p == 16384,
                2 * (product * p) <= 2 * big + p,
                2 * big <= 2 * (product * p) + p,
                big <= target * p + 5000,
                target * p <= big + 5000,
        ;
        lemma_near_multiple(product, n, d);
    }
}

proof fn lemma_near_zero(d: nat)
    requires
        d > 0,
    ensures
        (2 * nearest_even(0, 1) + d) / (2 * d) == 0,
{
    assert(nearest_even(0, 1) == 0);
    assert(d / (2 * d) == 0) by (nonlinear_arith)
        requires
            d > 0,
    ;
}

proof fn lemma_excess_at_most(n: nat, k: nat)
    requires
        n < 0x20_0000_0000_0000 * pow2(k),
    ensures
        excess(n) <= k,
    decreases k,
{
    lemma2_to64();
    if k > 0 {
        lemma_pow2_unfold(k);
        let half = pow2((k - 1) as nat);
        assert(n < 0x20_0000_0000_0000 * (2 * half));
        assert(n / 2 < 0x20_0000_0000_0000 * half);
        lemma_excess_at_most(n / 2, (k - 1) as nat);
    }
}

/// A number from 0 to 1 is ten thousand ten-thousandths at most.
pub proof fn ratios_are_at_most_one(bits: u64)
    requires
        unit_bits(bits),
    ensures
        ten_thousandths(bits) <= 10000,
{
    if bits <= 0x3ff0_0000_0000_0000 {
        let sig = significand(bits);
        let h = halvings(bits);
        let n = sig * 10000;
        lemma2_to64();
        lemma2_to64_rest();
        if h > 53 {
            lemma_pow2_strictly_increases(53, h);
        }
        assert(sig <= pow2(h));
        lemma_excess_at_most(n, 14);
        let s = excess(n);
        let p = pow2(s);
        let d = pow2((h - s) as nat);
        lemma_pow2_adds(s, (h - s) as nat);
        lemma_pow2_pos(s);
        lemma_pow2_pos((h - s) as nat);
        let top = 10000 * d;
        assert(n <= top * p) by (nonlinear_arith)
            requires
                n == sig * 10000,
                sig <= pow2(h),
                pow2(h) == p * d,
                top == 10000 * d,
        ;
        let q = n / p;
        let r = n % p;
        assert(n == q * p + r && r < p) by (nonlinear_arith)
            requires
                p > 0,
                q == n / p,
                r == n % p,
        ;
        assert(q <= top && (q == top ==> r == 0)) by (nonlinear_arith)
            requires
                n == q * p + r,
                n <= top * p,
                p > 0,
                r >= 0,
        ;
        let product = nearest_even(n, p);
        assert(product <= top);
        assert((2 * product + d) / (2 * d) <= 10000) by (nonlinear_arith)
            requires
                product <= 10000 * d,
                d > 0,
        ;
    }
}

} // verus!
