//! Text as a sequence of characters: searching, cutting, joining.
//!
//! Every function here is stated over the characters of its arguments. An
//! index into a text counts characters.

use crate::chars::{
    alphanumeric, digit, is_alphanumeric, is_digit, is_space, lowered, raised, space, to_lower,
    to_upper, is_unicode_alphanumeric, unicode_alphanumeric,
};
use vstd::prelude::*;

verus! {

/// A result by what its two sides stand for.
pub open spec fn outcome<T: DeepView, E: DeepView>(r: Result<T, E>) -> Result<T::V, E::V> {
    match r {
        Ok(t) => Ok(t.deep_view()),
        Err(e) => Err(e.deep_view()),
    }
}

// ---- occurrences -----------------------------------------------------------

/// `p` stands in `s` at `i`.
pub open spec fn at(s: Seq<char>, p: Seq<char>, i: int) -> bool {
    0 <= i && i + p.len() <= s.len() && s.subrange(i, i + p.len()) == p
}

pub open spec fn starts(s: Seq<char>, p: Seq<char>) -> bool {
    at(s, p, 0)
}

pub open spec fn ends(s: Seq<char>, p: Seq<char>) -> bool {
    at(s, p, s.len() - p.len())
}

/// The first index from `i` on at which `p` stands in `s`.
pub open spec fn first_at(s: Seq<char>, p: Seq<char>, i: int) -> Option<int>
    decreases s.len() + 1 - i,
{
    if i < 0 || i > s.len() {
        None
    } else if at(s, p, i) {
        Some(i)
    } else {
        first_at(s, p, i + 1)
    }
}

/// The last index up to `i` at which `p` stands in `s`.
pub open spec fn last_at(s: Seq<char>, p: Seq<char>, i: int) -> Option<int>
    decreases i + 1,
{
    if i < 0 {
        None
    } else if at(s, p, i) {
        Some(i)
    } else {
        last_at(s, p, i - 1)
    }
}

/// Where `p` first stands in `s`.
pub open spec fn found(s: Seq<char>, p: Seq<char>) -> Option<int> {
    first_at(s, p, 0)
}

/// Where `p` last stands in `s`.
pub open spec fn found_last(s: Seq<char>, p: Seq<char>) -> Option<int> {
    last_at(s, p, s.len() - p.len())
}

/// `p` stands somewhere in `s`.
pub open spec fn within(s: Seq<char>, p: Seq<char>) -> bool {
    found(s, p) is Some
}

pub proof fn lemma_first_at(s: Seq<char>, p: Seq<char>, i: int)
    requires
        0 <= i,
    ensures
        first_at(s, p, i) matches Some(j) ==> i <= j && at(s, p, j) && (forall|k: int|
            i <= k < j ==> !at(s, p, k)),
        first_at(s, p, i) is None ==> forall|k: int| i <= k ==> !at(s, p, k),
    decreases s.len() + 1 - i,
{
    if i <= s.len() && !at(s, p, i) {
        lemma_first_at(s, p, i + 1);
    }
}

pub proof fn lemma_last_at(s: Seq<char>, p: Seq<char>, i: int)
    ensures
        last_at(s, p, i) matches Some(j) ==> 0 <= j <= i && at(s, p, j) && (forall|k: int|
            j < k <= i ==> !at(s, p, k)),
        last_at(s, p, i) is None ==> forall|k: int| 0 <= k <= i ==> !at(s, p, k),
    decreases i + 1,
{
    if i >= 0 && !at(s, p, i) {
        lemma_last_at(s, p, i - 1);
    }
}

/// `s` without `p` at its start, when it starts so.
pub open spec fn after_prefix(s: Seq<char>, p: Seq<char>) -> Option<Seq<char>> {
    if starts(s, p) {
        Some(s.skip(p.len() as int))
    } else {
        None
    }
}

/// `s` without `p` at its end, when it ends so.
pub open spec fn before_suffix(s: Seq<char>, p: Seq<char>) -> Option<Seq<char>> {
    if ends(s, p) {
        Some(s.take(s.len() - p.len()))
    } else {
        None
    }
}

/// `s` without `p` at its start, if it starts so.
pub open spec fn sans_prefix(s: Seq<char>, p: Seq<char>) -> Seq<char> {
    if starts(s, p) {
        s.skip(p.len() as int)
    } else {
        s
    }
}

/// `s` without `p` at its end, if it ends so.
pub open spec fn sans_suffix(s: Seq<char>, p: Seq<char>) -> Seq<char> {
    if ends(s, p) {
        s.take(s.len() - p.len())
    } else {
        s
    }
}

/// What stands before and after the first `p` in `s`.
pub open spec fn cut(s: Seq<char>, p: Seq<char>) -> Option<(Seq<char>, Seq<char>)> {
    match found(s, p) {
        Some(i) => Some((s.take(i), s.skip(i + p.len()))),
        None => None,
    }
}

/// What stands before and after the last `p` in `s`.
pub open spec fn cut_last(s: Seq<char>, p: Seq<char>) -> Option<(Seq<char>, Seq<char>)> {
    match found_last(s, p) {
        Some(i) => Some((s.take(i), s.skip(i + p.len()))),
        None => None,
    }
}

// ---- runs of a class -------------------------------------------------------

/// A class of characters.
#[derive(Clone, Copy, PartialEq, Eq, Structural)]
pub enum Class {
    /// White space.
    Space,
    /// ASCII digits.
    Digit,
    /// ASCII letters, digits and `_`.
    Word,
    /// ASCII letters, digits, `_` and `.`.
    Dotted,
    /// One character.
    One(char),
    /// One of two characters.
    Either(char, char),
    /// Every character but one.
    Not(char),
    /// Every character but two.
    Neither(char, char),
    /// Every character but three.
    NoneOf(char, char, char),
    /// One of four characters.
    OneOf(char, char, char, char),
    /// Unicode's letters and numbers, and `_`.
    Name,
    /// Unicode's letters and numbers, `_`, `.` and `-`.
    Alias,
}

impl Class {
    pub open spec fn has(self, c: char) -> bool {
        match self {
            Class::Space => space(c),
            Class::Digit => digit(c),
            Class::Word => alphanumeric(c) || c == '_',
            Class::Dotted => alphanumeric(c) || c == '_' || c == '.',
            Class::One(a) => c == a,
            Class::Either(a, b) => c == a || c == b,
            Class::Not(a) => c != a,
            Class::Neither(a, b) => c != a && c != b,
            Class::NoneOf(x, y, z) => c != x && c != y && c != z,
            Class::OneOf(w, x, y, z) => c == w || c == x || c == y || c == z,
            Class::Name => unicode_alphanumeric(c) || c == '_',
            Class::Alias => unicode_alphanumeric(c) || c == '_' || c == '.' || c == '-',
        }
    }

    pub fn holds(self, c: char) -> (r: bool)
        ensures
            r == self.has(c),
    {
        match self {
            Class::Space => is_space(c),
            Class::Digit => is_digit(c),
            Class::Word => is_alphanumeric(c) || c == '_',
            Class::Dotted => is_alphanumeric(c) || c == '_' || c == '.',
            Class::One(a) => c == a,
            Class::Either(a, b) => c == a || c == b,
            Class::Not(a) => c != a,
            Class::Neither(a, b) => c != a && c != b,
            Class::NoneOf(x, y, z) => c != x && c != y && c != z,
            Class::OneOf(w, x, y, z) => c == w || c == x || c == y || c == z,
            Class::Name => is_unicode_alphanumeric(c) || c == '_',
            Class::Alias => is_unicode_alphanumeric(c) || c == '_' || c == '.' || c == '-',
        }
    }
}

/// Where the run of `k` that begins at `i` ends.
pub open spec fn run_end(s: Seq<char>, k: Class, i: int) -> int
    decreases s.len() - i,
{
    if 0 <= i < s.len() && k.has(s[i]) {
        run_end(s, k, i + 1)
    } else {
        i
    }
}

/// Where the run of `k` that ends at `i` begins.
pub open spec fn run_start(s: Seq<char>, k: Class, i: int) -> int
    decreases i,
{
    if 0 < i <= s.len() && k.has(s[i - 1]) {
        run_start(s, k, i - 1)
    } else {
        i
    }
}

pub proof fn lemma_run_end(s: Seq<char>, k: Class, i: int)
    requires
        0 <= i <= s.len(),
    ensures
        i <= run_end(s, k, i) <= s.len(),
        forall|j: int| i <= j < run_end(s, k, i) ==> k.has(#[trigger] s[j]),
        run_end(s, k, i) < s.len() ==> !k.has(s[run_end(s, k, i)]),
    decreases s.len() - i,
{
    if i < s.len() && k.has(s[i]) {
        lemma_run_end(s, k, i + 1);
    }
}

pub proof fn lemma_run_start(s: Seq<char>, k: Class, i: int)
    requires
        0 <= i <= s.len(),
    ensures
        0 <= run_start(s, k, i) <= i,
        forall|j: int| run_start(s, k, i) <= j < i ==> k.has(#[trigger] s[j]),
        run_start(s, k, i) > 0 ==> !k.has(s[run_start(s, k, i) - 1]),
    decreases i,
{
    if i > 0 && k.has(s[i - 1]) {
        lemma_run_start(s, k, i - 1);
    }
}

/// The longest start of `s` that is all `k`.
pub open spec fn head(s: Seq<char>, k: Class) -> Seq<char> {
    s.take(run_end(s, k, 0))
}

/// `s` without the run of `k` at its start.
pub open spec fn sans_head(s: Seq<char>, k: Class) -> Seq<char> {
    s.skip(run_end(s, k, 0))
}

/// `s` without the run of `k` at its end.
pub open spec fn sans_tail(s: Seq<char>, k: Class) -> Seq<char> {
    s.take(run_start(s, k, s.len() as int))
}

/// `s` without the white space at its start.
pub open spec fn left(s: Seq<char>) -> Seq<char> {
    sans_head(s, Class::Space)
}

/// `s` without the white space at its end.
pub open spec fn right(s: Seq<char>) -> Seq<char> {
    sans_tail(s, Class::Space)
}

/// `s` without the white space around it.
pub open spec fn trimmed(s: Seq<char>) -> Seq<char> {
    right(left(s))
}

/// Every character of `s` is `k`.
pub open spec fn all(s: Seq<char>, k: Class) -> bool {
    forall|i: int| 0 <= i < s.len() ==> k.has(#[trigger] s[i])
}

/// Some character of `s` is `c`.
pub open spec fn includes(s: Seq<char>, c: char) -> bool {
    exists|i: int| 0 <= i < s.len() && #[trigger] s[i] == c
}

// ---- pieces ----------------------------------------------------------------

/// `s` cut at every `sep`: one piece more than there are separators.
pub open spec fn pieces(s: Seq<char>, sep: char) -> Seq<Seq<char>>
    decreases s.len(),
{
    let i = run_end(s, Class::Not(sep), 0);
    if 0 <= i < s.len() {
        seq![s.take(i)] + pieces(s.skip(i + 1), sep)
    } else {
        seq![s]
    }
}

/// A line without its ending: `\n`, or `\r\n`.
pub open spec fn bare_line(s: Seq<char>) -> Seq<char> {
    sans_suffix(s, seq!['\r'])
}

/// The lines of `s`, without their endings.
pub open spec fn line_seq(s: Seq<char>) -> Seq<Seq<char>>
    decreases s.len(),
{
    let i = run_end(s, Class::Not('\n'), 0);
    if s.len() == 0 {
        seq![]
    } else if 0 <= i < s.len() {
        seq![bare_line(s.take(i))] + line_seq(s.skip(i + 1))
    } else {
        seq![s]
    }
}

/// The parts, with `sep` between each two.
pub open spec fn joined(parts: Seq<Seq<char>>, sep: Seq<char>) -> Seq<char>
    decreases parts.len(),
{
    if parts.len() == 0 {
        seq![]
    } else if parts.len() == 1 {
        parts[0]
    } else {
        joined(parts.drop_last(), sep) + sep + parts.last()
    }
}

/// `s` with every `from` in it, from the left, made `to`.
pub open spec fn replaced(s: Seq<char>, from: Seq<char>, to: Seq<char>) -> Seq<char>
    decreases s.len(),
{
    match found(s, from) {
        Some(i) => if from.len() > 0 && 0 <= i && i + from.len() <= s.len() {
            s.take(i) + to + replaced(s.skip(i + from.len()), from, to)
        } else {
            s
        },
        None => s,
    }
}

/// `s` with its ASCII capitals made small.
pub open spec fn small(s: Seq<char>) -> Seq<char> {
    s.map_values(|c: char| lowered(c))
}

/// `s` with its ASCII small letters made capitals.
pub open spec fn capital(s: Seq<char>) -> Seq<char> {
    s.map_values(|c: char| raised(c))
}

/// `s` without its white space.
pub open spec fn dense(s: Seq<char>) -> Seq<char>
    decreases s.len(),
{
    if s.len() == 0 {
        s
    } else if space(s.last()) {
        dense(s.drop_last())
    } else {
        dense(s.drop_last()).push(s.last())
    }
}

// ---- numbers ---------------------------------------------------------------

/// The digit of `n`, which is below ten.
pub open spec fn digit_char(n: nat) -> char {
    ('0' as u32 + n) as char
}

/// `n` in decimal.
pub open spec fn decimal(n: nat) -> Seq<char>
    decreases n,
{
    if n < 10 {
        seq![digit_char(n)]
    } else {
        decimal(n / 10).push(digit_char(n % 10))
    }
}

/// `n` in decimal, with its sign when it is negative.
pub open spec fn signed_decimal(n: int) -> Seq<char> {
    if n < 0 {
        seq!['-'] + decimal((-n) as nat)
    } else {
        decimal(n as nat)
    }
}

/// The number that decimal digits stand for.
pub open spec fn digits_value(s: Seq<char>) -> nat
    decreases s.len(),
{
    if s.len() == 0 {
        0
    } else {
        10 * digits_value(s.drop_last()) + (s.last() as u32 - '0' as u32) as nat
    }
}

/// The number that `s` is in decimal, when it is one, at most `max`: digits,
/// after a `+` or not.
pub open spec fn number(s: Seq<char>, max: nat) -> Option<nat> {
    let d = if s.len() > 1 && s[0] == '+' {
        s.skip(1)
    } else {
        s
    };
    if d.len() > 0 && all(d, Class::Digit) && digits_value(d) <= max {
        Some(digits_value(d))
    } else {
        None
    }
}

// ---- executable ------------------------------------------------------------

/// `String::push`: the character goes behind those that are there.
pub assume_specification[ String::push ](s: &mut String, c: char)
    ensures
        final(s)@ == old(s)@.push(c),
;

/// An empty list.
pub fn none_of<T: DeepView>() -> (r: Vec<T>)
    ensures
        r@ == Seq::<T>::empty(),
        r.deep_view() == Seq::<T::V>::empty(),
{
    let r: Vec<T> = Vec::new();
    assert(r.deep_view() =~= Seq::<T::V>::empty());
    r
}

/// A list of one.
pub fn one_of<T: DeepView>(x: T) -> (r: Vec<T>)
    ensures
        r@ == seq![x],
        r.deep_view() == seq![x.deep_view()],
{
    let mut r: Vec<T> = Vec::new();
    r.push(x);
    assert(r.deep_view() =~= seq![x.deep_view()]);
    r
}

/// Puts `x` behind what is in `v`.
pub fn put<T: DeepView>(v: &mut Vec<T>, x: T)
    ensures
        final(v)@ == old(v)@.push(x),
        final(v).deep_view() == old(v).deep_view().push(x.deep_view()),
{
    v.push(x);
    assert(v.deep_view() =~= old(v).deep_view().push(x.deep_view()));
}

/// Puts all of `more` behind what is in `v`.
pub fn put_all<T: DeepView>(v: &mut Vec<T>, mut more: Vec<T>)
    ensures
        final(v)@ == old(v)@ + more@,
        final(v).deep_view() == old(v).deep_view() + more.deep_view(),
{
    let ghost tail = more;
    v.append(&mut more);
    assert(v.deep_view() =~= old(v).deep_view() + tail.deep_view());
}

/// The characters of `s`.
pub fn chars(s: &str) -> (r: Vec<char>)
    ensures
        r@ == s@,
{
    let mut out: Vec<char> = Vec::new();
    for c in it: s.chars()
        invariant
            out@ == it.seq().take(it.index() as int),
            it.seq() == s@,
    {
        out.push(c);
    }
    out
}

/// The string of the characters `i` to `j` of `s`.
pub fn string_of(s: &Vec<char>, i: usize, j: usize) -> (r: String)
    requires
        i <= j <= s@.len(),
    ensures
        r@ == s@.subrange(i as int, j as int),
{
    let mut out = String::new();
    let mut k: usize = i;
    while k < j
        invariant
            i <= k <= j <= s@.len(),
            out@ == s@.subrange(i as int, k as int),
        decreases j - k,
    {
        out.push(s[k]);
        k = k + 1;
    }
    out
}

/// Whether two texts are the same.
pub fn same(a: &str, b: &str) -> (r: bool)
    ensures
        r == (a@ == b@),
{
    a.to_owned() == b.to_owned()
}

/// Values that can be had twice.
pub trait Duplicate: DeepView + Sized {
    /// A second value that stands for the same.
    fn duplicate(&self) -> (r: Self)
        ensures
            r.deep_view() == self.deep_view(),
    ;
}

impl Duplicate for String {
    fn duplicate(&self) -> String {
        self.clone()
    }
}

impl<T: Duplicate> Duplicate for Option<T> {
    fn duplicate(&self) -> Option<T> {
        match self {
            Some(x) => Some(x.duplicate()),
            None => None,
        }
    }
}

impl<T: Duplicate> Duplicate for Vec<T> {
    fn duplicate(&self) -> Vec<T> {
        let mut out: Vec<T> = none_of();
        let mut i: usize = 0;
        while i < self.len()
            invariant
                i <= self@.len(),
                out.deep_view() =~= self.deep_view().take(i as int),
            decreases self@.len() - i,
        {
            put(&mut out, self[i].duplicate());
            i = i + 1;
        }
        assert(self.deep_view().take(i as int) =~= self.deep_view());
        out
    }
}

impl<A: Duplicate, B: Duplicate> Duplicate for (A, B) {
    fn duplicate(&self) -> (A, B) {
        (self.0.duplicate(), self.1.duplicate())
    }
}

/// Whether the lists are the same.
pub fn same_list(a: &Vec<String>, b: &Vec<String>) -> (r: bool)
    ensures
        r == (a.deep_view() == b.deep_view()),
{
    let ghost x = a.deep_view();
    let ghost y = b.deep_view();
    assert(x.len() == a@.len() && y.len() == b@.len());
    if a.len() != b.len() {
        return false;
    }
    let mut i: usize = 0;
    while i < a.len()
        invariant
            x == a.deep_view(),
            y == b.deep_view(),
            x.len() == y.len(),
            i <= a@.len(),
            a@.len() == b@.len(),
            forall|k: int| 0 <= k < i ==> x[k] == y[k],
        decreases a@.len() - i,
    {
        assert(x[i as int] == a@[i as int]@ && y[i as int] == b@[i as int]@);
        if !same(a[i].as_str(), b[i].as_str()) {
            return false;
        }
        i = i + 1;
    }
    assert(x =~= y);
    true
}

/// Whether `s` is one of `v`.
pub fn listed(v: &Vec<String>, s: &str) -> (r: bool)
    ensures
        r == v.deep_view().contains(s@),
{
    let mut i: usize = 0;
    while i < v.len()
        invariant
            i <= v@.len(),
            forall|j: int| 0 <= j < i ==> v.deep_view()[j] != s@,
        decreases v@.len() - i,
    {
        if same(v[i].as_str(), s) {
            assert(v.deep_view()[i as int] == s@);
            return true;
        }
        i = i + 1;
    }
    false
}

/// Whether `p` stands in `s` at `i`.
pub fn stands(s: &Vec<char>, p: &Vec<char>, i: usize) -> (r: bool)
    ensures
        r == at(s@, p@, i as int),
{
    if i > s.len() || s.len() - i < p.len() {
        return false;
    }
    let n: usize = s.len();
    let mut k: usize = 0;
    while k < p.len()
        invariant
            n == s@.len(),
            i + p@.len() <= s@.len(),
            k <= p@.len(),
            forall|j: int| 0 <= j < k ==> s@[i + j] == #[trigger] p@[j],
        decreases p@.len() - k,
    {
        if s[i + k] != p[k] {
            assert(s@.subrange(i as int, i + p@.len())[k as int] != p@[k as int]);
            return false;
        }
        k = k + 1;
    }
    assert(s@.subrange(i as int, i + p@.len()) =~= p@);
    true
}

pub fn starts_with(s: &str, p: &str) -> (r: bool)
    ensures
        r == starts(s@, p@),
{
    stands(&chars(s), &chars(p), 0)
}

pub fn ends_with(s: &str, p: &str) -> (r: bool)
    ensures
        r == ends(s@, p@),
{
    let (a, b) = (chars(s), chars(p));
    a.len() >= b.len() && stands(&a, &b, a.len() - b.len())
}

pub fn find(s: &str, p: &str) -> (r: Option<usize>)
    ensures
        r is Some <==> found(s@, p@) is Some,
        r matches Some(i) ==> found(s@, p@) == Some(i as int) && i + p@.len() <= s@.len(),
{
    let (a, b) = (chars(s), chars(p));
    let mut i: usize = 0;
    loop
        invariant
            a@ == s@,
            b@ == p@,
            i <= a@.len(),
            first_at(s@, p@, 0) == first_at(s@, p@, i as int),
        decreases a@.len() - i,
    {
        if stands(&a, &b, i) {
            return Some(i);
        }
        if i == a.len() {
            assert(first_at(s@, p@, i + 1) is None);
            return None;
        }
        i = i + 1;
    }
}

pub fn find_last(s: &str, p: &str) -> (r: Option<usize>)
    ensures
        r is Some <==> found_last(s@, p@) is Some,
        r matches Some(i) ==> found_last(s@, p@) == Some(i as int) && i + p@.len() <= s@.len(),
{
    let (a, b) = (chars(s), chars(p));
    if a.len() < b.len() {
        return None;
    }
    let mut i: usize = a.len() - b.len();
    loop
        invariant
            a@ == s@,
            b@ == p@,
            i <= a@.len() - b@.len(),
            found_last(s@, p@) == last_at(s@, p@, i as int),
        decreases i,
    {
        if stands(&a, &b, i) {
            return Some(i);
        }
        if i == 0 {
            assert(last_at(s@, p@, -1) is None);
            return None;
        }
        i = i - 1;
    }
}

pub fn contains(s: &str, p: &str) -> (r: bool)
    ensures
        r == within(s@, p@),
{
    find(s, p).is_some()
}

/// Whether some character of `s` is `c`.
pub fn has_char(s: &str, c: char) -> (r: bool)
    ensures
        r == includes(s@, c),
{
    let a = chars(s);
    let mut i: usize = 0;
    while i < a.len()
        invariant
            a@ == s@,
            i <= a@.len(),
            forall|j: int| 0 <= j < i ==> #[trigger] s@[j] != c,
        decreases a@.len() - i,
    {
        if a[i] == c {
            assert(s@[i as int] == c);
            return true;
        }
        i = i + 1;
    }
    false
}

/// The characters `i` to `j` of `s`.
pub fn slice(s: &str, i: usize, j: usize) -> (r: &str)
    requires
        i <= j <= s@.len(),
    ensures
        r@ == s@.subrange(i as int, j as int),
{
    s.substring_char(i, j)
}

/// The first `n` characters of `s`.
pub fn take(s: &str, n: usize) -> (r: &str)
    requires
        n <= s@.len(),
    ensures
        r@ == s@.take(n as int),
{
    s.substring_char(0, n)
}

/// `s` without its first `n` characters.
pub fn skip(s: &str, n: usize) -> (r: &str)
    requires
        n <= s@.len(),
    ensures
        r@ == s@.skip(n as int),
{
    s.substring_char(n, s.unicode_len())
}

pub fn strip_prefix<'a>(s: &'a str, p: &str) -> (r: Option<&'a str>)
    ensures
        r.deep_view() == after_prefix(s@, p@),
{
    if starts_with(s, p) {
        Some(skip(s, p.unicode_len()))
    } else {
        None
    }
}

pub fn strip_suffix<'a>(s: &'a str, p: &str) -> (r: Option<&'a str>)
    ensures
        r.deep_view() == before_suffix(s@, p@),
{
    if ends_with(s, p) {
        Some(take(s, s.unicode_len() - p.unicode_len()))
    } else {
        None
    }
}

/// `s` without `p` at its start, if it starts so.
pub fn without_prefix<'a>(s: &'a str, p: &str) -> (r: &'a str)
    ensures
        r@ == sans_prefix(s@, p@),
{
    if starts_with(s, p) {
        skip(s, p.unicode_len())
    } else {
        s
    }
}

/// `s` without `p` at its end, if it ends so.
pub fn without_suffix<'a>(s: &'a str, p: &str) -> (r: &'a str)
    ensures
        r@ == sans_suffix(s@, p@),
{
    if ends_with(s, p) {
        take(s, s.unicode_len() - p.unicode_len())
    } else {
        s
    }
}

pub fn split_once<'a>(s: &'a str, p: &str) -> (r: Option<(&'a str, &'a str)>)
    ensures
        r.deep_view() == cut(s@, p@),
{
    let n: usize = s.unicode_len();
    match find(s, p) {
        Some(i) => Some((take(s, i), slice(s, i + p.unicode_len(), n))),
        None => None,
    }
}

pub fn rsplit_once<'a>(s: &'a str, p: &str) -> (r: Option<(&'a str, &'a str)>)
    ensures
        r.deep_view() == cut_last(s@, p@),
{
    let n: usize = s.unicode_len();
    match find_last(s, p) {
        Some(i) => Some((take(s, i), slice(s, i + p.unicode_len(), n))),
        None => None,
    }
}

/// The length of the run of `k` at the start of `s`.
pub fn run(s: &str, k: Class) -> (r: usize)
    ensures
        r == run_end(s@, k, 0),
        r <= s@.len(),
{
    let a = chars(s);
    let mut i: usize = 0;
    while i < a.len() && k.holds(a[i])
        invariant
            a@ == s@,
            i <= a@.len(),
            run_end(s@, k, 0) == run_end(s@, k, i as int),
        decreases a@.len() - i,
    {
        i = i + 1;
    }
    i
}

/// Where the run of `k` at the end of `s` begins.
pub fn run_back(s: &str, k: Class) -> (r: usize)
    ensures
        r == run_start(s@, k, s@.len() as int),
        r <= s@.len(),
{
    let a = chars(s);
    let mut i: usize = a.len();
    while i > 0 && k.holds(a[i - 1])
        invariant
            a@ == s@,
            i <= a@.len(),
            run_start(s@, k, s@.len() as int) == run_start(s@, k, i as int),
        decreases i,
    {
        i = i - 1;
    }
    i
}

pub fn take_run(s: &str, k: Class) -> (r: &str)
    ensures
        r@ == head(s@, k),
{
    take(s, run(s, k))
}

pub fn skip_run(s: &str, k: Class) -> (r: &str)
    ensures
        r@ == sans_head(s@, k),
{
    skip(s, run(s, k))
}

pub fn drop_run(s: &str, k: Class) -> (r: &str)
    ensures
        r@ == sans_tail(s@, k),
{
    take(s, run_back(s, k))
}

pub fn trim_start(s: &str) -> (r: &str)
    ensures
        r@ == left(s@),
{
    skip_run(s, Class::Space)
}

pub fn trim_end(s: &str) -> (r: &str)
    ensures
        r@ == right(s@),
{
    drop_run(s, Class::Space)
}

pub fn trim(s: &str) -> (r: &str)
    ensures
        r@ == trimmed(s@),
{
    trim_end(trim_start(s))
}

/// Whether every character of `s` is `k`.
pub fn all_of(s: &str, k: Class) -> (r: bool)
    ensures
        r == all(s@, k),
{
    let n: usize = run(s, k);
    proof {
        lemma_run_end(s@, k, 0);
    }
    n == s.unicode_len()
}

pub proof fn lemma_run_bounds(s: Seq<char>, k: Class)
    ensures
        0 <= run_end(s, k, 0) <= s.len(),
        0 <= run_start(s, k, s.len() as int) <= s.len(),
{
    lemma_run_end(s, k, 0);
    lemma_run_start(s, k, s.len() as int);
}

/// `s` cut at every `sep`.
pub fn split(s: &str, sep: char) -> (r: Vec<&str>)
    ensures
        r.deep_view() == pieces(s@, sep),
{
    let mut out: Vec<&str> = Vec::new();
    let mut rest: &str = s;
    loop
        invariant
            out.deep_view() + pieces(rest@, sep) == pieces(s@, sep),
        decreases rest@.len(),
    {
        let i: usize = run(rest, Class::Not(sep));
        if i == rest.unicode_len() {
            out.push(rest);
            assert(out.deep_view() == pieces(s@, sep));
            return out;
        }
        let ghost before = out.deep_view();
        out.push(take(rest, i));
        proof {
            assert(out.deep_view() =~= before.push(rest@.take(i as int)));
            assert(before + (seq![rest@.take(i as int)] + pieces(rest@.skip(i + 1), sep)) =~= out.deep_view() + pieces(rest@.skip(i + 1), sep));
        }
        rest = skip(rest, i + 1);
    }
}

/// The lines of `s`.
pub fn lines(s: &str) -> (r: Vec<&str>)
    ensures
        r.deep_view() == line_seq(s@),
{
    let mut out: Vec<&str> = Vec::new();
    let mut rest: &str = s;
    while !rest.is_empty()
        invariant
            out.deep_view() + line_seq(rest@) == line_seq(s@),
        decreases rest@.len(),
    {
        let i: usize = run(rest, Class::Not('\n'));
        let ghost before = out.deep_view();
        if i == rest.unicode_len() {
            out.push(rest);
            assert(out.deep_view() == line_seq(s@)) by {
                assert(out.deep_view() =~= before + seq![rest@]);
            }
            return out;
        }
        proof {
            reveal_strlit("\r");
            assert("\r"@ =~= seq!['\r']);
        }
        let line: &str = without_suffix(take(rest, i), "\r");
        out.push(line);
        proof {
            assert(out.deep_view() =~= before.push(line@));
            assert(before + (seq![line@] + line_seq(rest@.skip(i + 1))) =~= out.deep_view() + line_seq(
                rest@.skip(i + 1),
            ));
        }
        rest = skip(rest, i + 1);
    }
    assert(out.deep_view() + line_seq(rest@) =~= out.deep_view());
    out
}

/// The parts, with `sep` between each two.
pub fn join(parts: &Vec<String>, sep: &str) -> (r: String)
    ensures
        r@ == joined(parts.deep_view(), sep@),
{
    let mut out = String::new();
    let mut i: usize = 0;
    let ghost all = parts.deep_view();
    while i < parts.len()
        invariant
            i <= parts@.len(),
            all == parts.deep_view(),
            out@ == joined(all.take(i as int), sep@),
        decreases parts@.len() - i,
    {
        if i > 0 {
            out.append(sep);
        }
        out.append(parts[i].as_str());
        proof {
            let next = all.take(i + 1);
            assert(next.drop_last() =~= all.take(i as int));
            assert(next.last() == parts@[i as int]@);
            if i == 0 {
                assert(all.take(0) =~= seq![]);
                assert(out@ =~= next[0]);
            }
        }
        i = i + 1;
    }
    assert(all.take(i as int) =~= all);
    out
}

/// `s` with every `from` in it made `to`.
pub fn replace(s: &str, from: &str, to: &str) -> (r: String)
    requires
        from@.len() > 0,
    ensures
        r@ == replaced(s@, from@, to@),
{
    let mut out = String::new();
    let mut rest: &str = s;
    loop
        invariant
            from@.len() > 0,
            out@ + replaced(rest@, from@, to@) == replaced(s@, from@, to@),
        decreases rest@.len(),
    {
        match find(rest, from) {
            None => {
                out.append(rest);
                return out;
            },
            Some(i) => {
                let ghost before = out@;
                let ghost tail = replaced(rest@.skip(i + from@.len()), from@, to@);
                out.append(take(rest, i));
                out.append(to);
                assert(before + (rest@.take(i as int) + to@ + tail) =~= out@ + tail);
                let n: usize = rest.unicode_len();
                rest = slice(rest, i + from.unicode_len(), n);
            },
        }
    }
}

pub fn to_small(s: &str) -> (r: String)
    ensures
        r@ == small(s@),
{
    let a = chars(s);
    let mut out = String::new();
    let mut i: usize = 0;
    while i < a.len()
        invariant
            a@ == s@,
            i <= a@.len(),
            out@ == small(s@).take(i as int),
        decreases a@.len() - i,
    {
        out.push(to_lower(a[i]));
        i = i + 1;
    }
    assert(small(s@).take(i as int) =~= small(s@));
    out
}

pub fn to_capital(s: &str) -> (r: String)
    ensures
        r@ == capital(s@),
{
    let a = chars(s);
    let mut out = String::new();
    let mut i: usize = 0;
    while i < a.len()
        invariant
            a@ == s@,
            i <= a@.len(),
            out@ == capital(s@).take(i as int),
        decreases a@.len() - i,
    {
        out.push(to_upper(a[i]));
        i = i + 1;
    }
    assert(capital(s@).take(i as int) =~= capital(s@));
    out
}

/// `s` without its white space.
pub fn without_space(s: &str) -> (r: String)
    ensures
        r@ == dense(s@),
{
    let a = chars(s);
    let mut out = String::new();
    let mut i: usize = 0;
    while i < a.len()
        invariant
            a@ == s@,
            i <= a@.len(),
            out@ == dense(s@.take(i as int)),
        decreases a@.len() - i,
    {
        assert(s@.take(i + 1).drop_last() =~= s@.take(i as int));
        if !is_space(a[i]) {
            out.push(a[i]);
        }
        i = i + 1;
    }
    assert(s@.take(i as int) =~= s@);
    out
}

/// `n` in decimal.
pub fn show(n: u128) -> (r: String)
    ensures
        r@ == decimal(n as nat),
    decreases n,
{
    let d: char = (48u8 + (n % 10) as u8) as char;
    assert(d == digit_char((n % 10) as nat));
    if n < 10 {
        let mut out = String::new();
        out.push(d);
        assert(out@ =~= seq![d]);
        out
    } else {
        let mut out = show(n / 10);
        out.push(d);
        out
    }
}

/// `n` in decimal, with its sign when it is negative.
pub fn show_signed(n: i64) -> (r: String)
    ensures
        r@ == signed_decimal(n as int),
{
    if n < 0 {
        let m: u128 = (-(n as i128)) as u128;
        let mut out = String::new();
        out.push('-');
        out.append(show(m).as_str());
        assert(out@ =~= seq!['-'] + decimal((-n) as nat));
        out
    } else {
        show(n as u128)
    }
}

proof fn lemma_digits_grow(s: Seq<char>, i: int)
    requires
        0 <= i <= s.len(),
        all(s, Class::Digit),
    ensures
        digits_value(s.take(i)) <= digits_value(s),
    decreases s.len() - i,
{
    if i < s.len() {
        lemma_digits_grow(s, i + 1);
        assert(s.take(i + 1).drop_last() =~= s.take(i));
        assert(digit(s[i]));
    } else {
        assert(s.take(i) =~= s);
    }
}

/// The number that `s` is in decimal, when it is one, at most `max`.
pub fn parse_number(s: &str, max: u64) -> (r: Option<u64>)
    ensures
        r is Some <==> number(s@, max as nat) is Some,
        r matches Some(n) ==> number(s@, max as nat) == Some(n as nat),
{
    let mut d: &str = s;
    if s.unicode_len() > 1 && s.get_char(0) == '+' {
        d = skip(s, 1);
    }
    if d.is_empty() || !all_of(d, Class::Digit) {
        return None;
    }
    let a = chars(d);
    let mut n: u64 = 0;
    let mut i: usize = 0;
    while i < a.len()
        invariant
            a@ == d@,
            all(d@, Class::Digit),
            i <= a@.len(),
            n <= max,
            n as nat == digits_value(d@.take(i as int)),
            d@ == (if s@.len() > 1 && s@[0] == '+' {
                s@.skip(1)
            } else {
                s@
            }),
        decreases a@.len() - i,
    {
        assert(digit(a@[i as int]));
        proof {
            assert(d@.take(i + 1).drop_last() =~= d@.take(i as int));
            lemma_digits_grow(d@, i + 1);
        }
        let next: u128 = (n as u128) * 10 + ((a[i] as u32) - ('0' as u32)) as u128;
        if next > max as u128 {
            return None;
        }
        n = next as u64;
        i = i + 1;
    }
    assert(d@.take(i as int) =~= d@);
    Some(n)
}

pub fn cat2(a: &str, b: &str) -> (r: String)
    ensures
        r@ == a@ + b@,
{
    let mut s = String::from_str(a);
    s.append(b);
    s
}

pub fn cat3(a: &str, b: &str, c: &str) -> (r: String)
    ensures
        r@ == a@ + b@ + c@,
{
    let mut s = cat2(a, b);
    s.append(c);
    s
}

pub fn cat4(a: &str, b: &str, c: &str, d: &str) -> (r: String)
    ensures
        r@ == a@ + b@ + c@ + d@,
{
    let mut s = cat3(a, b, c);
    s.append(d);
    s
}

pub fn cat5(a: &str, b: &str, c: &str, d: &str, e: &str) -> (r: String)
    ensures
        r@ == a@ + b@ + c@ + d@ + e@,
{
    let mut s = cat4(a, b, c, d);
    s.append(e);
    s
}

pub fn cat6(a: &str, b: &str, c: &str, d: &str, e: &str, f: &str) -> (r: String)
    ensures
        r@ == a@ + b@ + c@ + d@ + e@ + f@,
{
    let mut s = cat5(a, b, c, d, e);
    s.append(f);
    s
}

pub fn cat7(a: &str, b: &str, c: &str, d: &str, e: &str, f: &str, g: &str) -> (r: String)
    ensures
        r@ == a@ + b@ + c@ + d@ + e@ + f@ + g@,
{
    let mut s = cat6(a, b, c, d, e, f);
    s.append(g);
    s
}

/// The parts of `s` between the characters that are not of `k`.
pub open spec fn parts_of(s: Seq<char>, k: Class) -> Seq<Seq<char>>
    decreases s.len(),
{
    let h = head(s, k);
    if h.len() >= s.len() {
        seq![s]
    } else {
        seq![h] + parts_of(s.skip(h.len() as int + 1), k)
    }
}

/// The parts of `s` between the characters that are not of `k`.
pub fn split_by(s: &str, k: Class) -> (r: Vec<&str>)
    ensures
        r.deep_view() == parts_of(s@, k),
{
    let mut out: Vec<&str> = none_of();
    let mut rest: &str = s;
    loop
        invariant
            parts_of(s@, k) =~= out.deep_view() + parts_of(rest@, k),
        decreases rest@.len(),
    {
        proof {
            lemma_run_bounds(rest@, k);
        }
        let h = take_run(rest, k);
        let n: usize = h.unicode_len();
        if n >= rest.unicode_len() {
            put(&mut out, rest);
            assert(parts_of(s@, k) =~= out.deep_view());
            return out;
        }
        put(&mut out, h);
        rest = skip(rest, n + 1);
    }
}

/// `s` without every `p` at its start.
pub open spec fn sans_all(s: Seq<char>, p: Seq<char>) -> Seq<char>
    decreases s.len(),
{
    if p.len() > 0 && starts(s, p) {
        sans_all(s.skip(p.len() as int), p)
    } else {
        s
    }
}

/// `s` without every `p` at its start.
pub fn strip_all<'a>(s: &'a str, p: &str) -> (r: &'a str)
    requires
        p@.len() > 0,
    ensures
        r@ == sans_all(s@, p@),
{
    let mut rest: &'a str = s;
    loop
        invariant
            p@.len() > 0,
            sans_all(s@, p@) == sans_all(rest@, p@),
        decreases rest@.len(),
    {
        match strip_prefix(rest, p) {
            Some(next) => {
                assert(next@ == rest@.skip(p@.len() as int));
                rest = next;
            },
            None => {
                return rest;
            },
        }
    }
}

} // verus!
