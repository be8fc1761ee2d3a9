//! Looking things up in what a plain document reads as.

use crate::keys::{strings_from, text_list};
use crate::sheet::{block_is, blocks_are, plain_is, scalar_is, Block, Key, Plain, Scalar};
use crate::sheet_of::{blocks_of, lines_of, table_of, Slots, Tops};
use crate::text::{
    at, found, includes, lemma_first_at, lemma_run_end, lemma_run_start, left, pieces, replaced,
    right, run_end, run_start, sans_tail, trimmed, Class,
};
use crate::value::{entry, entry_from, Entries, Tree, TreeKind};
use vstd::prelude::*;

verus! {

// ---- slots -----------------------------------------------------------------

/// What the first slot from the `i`th on that is called `key` and is written
/// says.
pub open spec fn slot_value(slots: Slots, key: Seq<char>, i: int) -> Option<Plain>
    decreases slots.len() - i,
{
    if i < 0 || i >= slots.len() {
        None
    } else if slots[i].0 == key && slots[i].1 is Some {
        slots[i].1
    } else {
        slot_value(slots, key, i + 1)
    }
}

/// The entries begin with the lines.
pub open spec fn begins(t: Entries, lines: Seq<(Key, Plain)>) -> bool {
    &&& t.len() >= lines.len()
    &&& forall|i: int|
        0 <= i < lines.len() ==> (#[trigger] t[i]).0 == lines[i].0.name && plain_is(
            t[i].1,
            lines[i].1,
        )
}

proof fn lemma_lines_grow(slots: Slots, i: int, n: int)
    requires
        0 <= i <= n <= slots.len(),
    ensures
        lines_of(slots, i).len() <= lines_of(slots, n).len(),
        forall|k: int|
            0 <= k < lines_of(slots, i).len() ==> #[trigger] lines_of(slots, n)[k] == lines_of(
                slots,
                i,
            )[k],
    decreases n - i,
{
    if i < n {
        lemma_lines_grow(slots, i, n - 1);
    }
}

proof fn lemma_slot_from(t: Entries, slots: Slots, key: Seq<char>, i: int)
    requires
        0 <= i <= slots.len(),
        begins(t, lines_of(slots, slots.len() as int)),
    ensures
        ({
            let n = lines_of(slots, slots.len() as int).len() as int;
            let c = lines_of(slots, i).len() as int;
            match slot_value(slots, key, i) {
                Some(p) => entry_from(t, key, c) is Some && plain_is(
                    entry_from(t, key, c)->0,
                    p,
                ),
                None => entry_from(t, key, c) == entry_from(t, key, n),
            }
        }),
    decreases slots.len() - i,
{
    let lines = lines_of(slots, slots.len() as int);
    let c = lines_of(slots, i).len() as int;
    if i < slots.len() {
        lemma_slot_from(t, slots, key, i + 1);
        lemma_lines_grow(slots, i + 1, slots.len() as int);
        if slots[i].1 is Some {
            let more = lines_of(slots, i + 1);
            assert(more.len() == c + 1);
            assert(lines[c] == more[c]);
            assert(t[c].0 == slots[i].0);
        }
    }
}

/// What a key holds is what its slot says, or what comes after the lines.
pub proof fn lemma_slot(t: Entries, slots: Slots, key: Seq<char>)
    requires
        begins(t, lines_of(slots, slots.len() as int)),
    ensures
        match slot_value(slots, key, 0) {
            Some(p) => entry(t, key) is Some && plain_is(entry(t, key)->0, p),
            None => entry(t, key) == entry_from(
                t,
                key,
                lines_of(slots, slots.len() as int).len() as int,
            ),
        },
{
    lemma_slot_from(t, slots, key, 0);
}

/// The same for a table of nothing but slots.
pub proof fn lemma_in_table(t: Entries, slots: Slots, key: Seq<char>)
    requires
        block_is(t, table_of(slots)),
    ensures
        begins(t, lines_of(slots, slots.len() as int)),
        match slot_value(slots, key, 0) {
            Some(p) => entry(t, key) is Some && plain_is(entry(t, key)->0, p),
            None => entry(t, key) is None,
        },
{
    assert(begins(t, lines_of(slots, slots.len() as int)));
    lemma_slot(t, slots, key);
}

// ---- tables ----------------------------------------------------------------

/// The first table from the `i`th on that is called `key` and is written.
pub open spec fn top_value(tops: Tops, key: Seq<char>, i: int) -> Option<Block>
    decreases tops.len() - i,
{
    if i < 0 || i >= tops.len() {
        None
    } else if tops[i].0 == key && tops[i].1 is Some {
        tops[i].1
    } else {
        top_value(tops, key, i + 1)
    }
}

proof fn lemma_blocks_grow(tops: Tops, i: int, n: int)
    requires
        0 <= i <= n <= tops.len(),
    ensures
        blocks_of(tops, i).len() <= blocks_of(tops, n).len(),
        forall|k: int|
            0 <= k < blocks_of(tops, i).len() ==> #[trigger] blocks_of(tops, n)[k] == blocks_of(
                tops,
                i,
            )[k],
    decreases n - i,
{
    if i < n {
        lemma_blocks_grow(tops, i, n - 1);
    }
}

proof fn lemma_top_from(t: Entries, tops: Tops, key: Seq<char>, i: int)
    requires
        0 <= i <= tops.len(),
        blocks_are(t, blocks_of(tops, tops.len() as int)),
    ensures
        ({
            let c = blocks_of(tops, i).len() as int;
            match top_value(tops, key, i) {
                Some(b) => entry_from(t, key, c) is Some && entry_from(t, key, c)->0.kind is Table
                    && block_is(entry_from(t, key, c)->0.kind->Table_0, b),
                None => entry_from(t, key, c) is None,
            }
        }),
    decreases tops.len() - i,
{
    let all = blocks_of(tops, tops.len() as int);
    let c = blocks_of(tops, i).len() as int;
    if i < tops.len() {
        lemma_top_from(t, tops, key, i + 1);
        lemma_blocks_grow(tops, i + 1, tops.len() as int);
        if tops[i].1 is Some {
            let more = blocks_of(tops, i + 1);
            assert(more.len() == c + 1);
            assert(all[c] == more[c]);
            assert(t[c].0 == tops[i].0);
        }
    }
}

/// A table of the document is the one that was written.
pub proof fn lemma_top(t: Entries, tops: Tops, key: Seq<char>)
    requires
        blocks_are(t, blocks_of(tops, tops.len() as int)),
    ensures
        match top_value(tops, key, 0) {
            Some(b) => entry(t, key) is Some && entry(t, key)->0.kind is Table && block_is(
                entry(t, key)->0.kind->Table_0,
                b,
            ),
            None => entry(t, key) is None,
        },
{
    lemma_top_from(t, tops, key, 0);
}

// ---- values ----------------------------------------------------------------

proof fn lemma_strings(a: Seq<Tree>, items: Seq<Seq<char>>, i: int, out: Seq<Seq<char>>)
    requires
        0 <= i <= a.len(),
        a.len() == items.len(),
        forall|j: int| 0 <= j < a.len() ==> (#[trigger] a[j]).kind == TreeKind::Text(items[j]),
        out == items.take(i),
    ensures
        strings_from(a, i, out) == Some(items),
    decreases a.len() - i,
{
    if i < a.len() {
        assert(a[i].text() == Some(items[i]));
        assert(items.take(i + 1) =~= out.push(items[i]));
        lemma_strings(a, items, i + 1, out.push(items[i]));
    } else {
        assert(items.take(i) =~= items);
    }
}

/// A list that was written is read.
pub proof fn lemma_texts(t: Entries, key: Seq<char>, section: Seq<char>, items: Seq<Seq<char>>)
    requires
        items.len() > 0 ==> entry(t, key) is Some && scalar_is(
            entry(t, key)->0,
            Scalar::Texts(items),
        ),
        items.len() == 0 ==> entry(t, key) is None || scalar_is(
            entry(t, key)->0,
            Scalar::Texts(items),
        ),
    ensures
        text_list(t, key, section) == Ok::<Seq<Seq<char>>, crate::error::Fault>(items),
{
    if let Some(v) = entry(t, key) {
        let a = v.kind->Array_0;
        assert(items.take(0) =~= seq![]);
        lemma_strings(a, items, 0, seq![]);
    } else {
        assert(items =~= seq![]);
    }
}

// ---- text ------------------------------------------------------------------

/// A text without the separator is one piece.
pub proof fn lemma_one_piece(s: Seq<char>, sep: char)
    requires
        !includes(s, sep),
    ensures
        pieces(s, sep) == seq![s],
{
    lemma_run_end(s, Class::Not(sep), 0);
    let i = run_end(s, Class::Not(sep), 0);
    if i < s.len() {
        assert(s[i] == sep);
    }
}

/// What stands before the first separator is the first piece.
pub proof fn lemma_first_piece(a: Seq<char>, rest: Seq<char>, sep: char)
    requires
        !includes(a, sep),
    ensures
        pieces(a + seq![sep] + rest, sep) == seq![a] + pieces(rest, sep),
{
    let s = a + seq![sep] + rest;
    lemma_run_end(s, Class::Not(sep), 0);
    let i = run_end(s, Class::Not(sep), 0);
    if i < a.len() {
        assert(s[i] == a[i]);
        assert(a[i] == sep);
    }
    assert(s[a.len() as int] == sep);
    if i > a.len() {
        assert(Class::Not(sep).has(s[a.len() as int]));
    }
    assert(s.take(i) =~= a);
    assert(s.skip(i + 1) =~= rest);
}

/// No piece holds the separator.
pub proof fn lemma_pieces_apart(s: Seq<char>, sep: char, k: int)
    requires
        0 <= k < pieces(s, sep).len(),
    ensures
        !includes(pieces(s, sep)[k], sep),
    decreases s.len(),
{
    lemma_run_end(s, Class::Not(sep), 0);
    let i = run_end(s, Class::Not(sep), 0);
    let first = s.take(i);
    assert forall|j: int| 0 <= j < first.len() implies #[trigger] first[j] != sep by {
        assert(Class::Not(sep).has(s[j]));
    }
    if i < s.len() {
        if k > 0 {
            lemma_pieces_apart(s.skip(i + 1), sep, k - 1);
        }
    } else {
        assert(first =~= s);
    }
}

/// A text is as long as it is without the run at its end, or longer.
proof fn lemma_tail(s: Seq<char>, k: Class)
    ensures
        sans_tail(s, k).len() <= s.len(),
        s.len() > 0 && !k.has(s.last()) ==> sans_tail(s, k) == s,
        sans_tail(s, k).len() > 0 ==> !k.has(sans_tail(s, k).last()),
{
    let n = s.len() as int;
    lemma_run_start(s, k, n);
    let i = run_start(s, k, n);
    if n > 0 && !k.has(s.last()) {
        if i < n {
            assert(k.has(s[n - 1]));
        }
        assert(s.take(n) =~= s);
    }
    if i > 0 {
        assert(s.take(i).last() == s[i - 1]);
    }
}

/// Taking the run at the end off takes all of it off.
pub proof fn lemma_tail_once(s: Seq<char>, k: Class)
    ensures
        sans_tail(sans_tail(s, k), k) == sans_tail(s, k),
{
    lemma_tail(s, k);
    let r = sans_tail(s, k);
    lemma_tail(r, k);
    if r.len() == 0 {
        assert(sans_tail(r, k) =~= r);
    }
}

/// Trimming once is trimming.
pub proof fn lemma_trim_once(s: Seq<char>)
    ensures
        trimmed(trimmed(s)) == trimmed(s),
        trimmed(s).len() <= s.len(),
{
    let k = Class::Space;
    let l = left(s);
    lemma_run_end(s, k, 0);
    let r = right(l);
    lemma_tail(l, k);
    lemma_run_end(r, k, 0);
    if r.len() > 0 {
        assert(!k.has(r.last()));
        lemma_run_start(l, k, l.len() as int);
        assert(r[0] == l[0]);
        assert(l[0] == s[run_end(s, k, 0)]);
        assert(!k.has(r[0]));
        assert(run_end(r, k, 0) == 0);
        assert(left(r) =~= r);
        lemma_tail(r, k);
    } else {
        assert(left(r) =~= r);
        lemma_tail(r, k);
        assert(right(r) =~= r);
    }
}

/// What was replaced by something else is no longer there to be replaced.
pub proof fn lemma_replaced_once(s: Seq<char>, from: char, to: char)
    requires
        from != to,
    ensures
        !includes(replaced(s, seq![from], seq![to]), from),
        replaced(replaced(s, seq![from], seq![to]), seq![from], seq![to]) == replaced(
            s,
            seq![from],
            seq![to],
        ),
    decreases s.len(),
{
    lemma_none_left(s, from, to);
    lemma_nothing_replaced(replaced(s, seq![from], seq![to]), from, to);
}

proof fn lemma_none_left(s: Seq<char>, from: char, to: char)
    requires
        from != to,
    ensures
        !includes(replaced(s, seq![from], seq![to]), from),
    decreases s.len(),
{
    lemma_first_at(s, seq![from], 0);
    let r = replaced(s, seq![from], seq![to]);
    match found(s, seq![from]) {
        Some(i) => {
            lemma_none_left(s.skip(i + 1), from, to);
            let rest = replaced(s.skip(i + 1), seq![from], seq![to]);
            assert(r == s.take(i) + seq![to] + rest);
            assert forall|j: int| 0 <= j < r.len() implies #[trigger] r[j] != from by {
                if j < i {
                    if s[j] == from {
                        assert(s.subrange(j, j + 1) =~= seq![from]);
                        assert(at(s, seq![from], j));
                    }
                } else if j > i {
                    assert(r[j] == rest[j - i - 1]);
                }
            }
        },
        None => {
            assert forall|j: int| 0 <= j < r.len() implies #[trigger] r[j] != from by {
                if s[j] == from {
                    assert(s.subrange(j, j + 1) =~= seq![from]);
                    assert(at(s, seq![from], j));
                }
            }
        },
    }
}

proof fn lemma_nothing_replaced(s: Seq<char>, from: char, to: char)
    requires
        !includes(s, from),
    ensures
        replaced(s, seq![from], seq![to]) == s,
{
    lemma_first_at(s, seq![from], 0);
    if let Some(i) = found(s, seq![from]) {
        assert(s.subrange(i, i + 1)[0] == s[i]);
        assert(s[i] == from);
    }
}

} // verus!
