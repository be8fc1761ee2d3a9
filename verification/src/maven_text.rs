//! The text of an execution names no classpath.

use crate::maven_exec::{exec_template_of, exec_text_from, exec_text_of, known_property, MAX_DEPTH};
use crate::parse_tasks::classpath_from;
use crate::pom::{property, Properties};
use crate::reread_settings::good_template;
use crate::template::{
    escaped, placeholder_named, placeholder_names_are_their_own, placeholders_of, read_template,
    template_of, with_text, Placeholder, SegmentModel,
};
use crate::text::{at, cut, found, lemma_first_at, lemma_run_end, run_end, trimmed, Class};
use vstd::prelude::*;

verus! {

/// The placeholder of `name` is there, and is no classpath.
pub open spec fn harmless(name: Seq<char>) -> bool {
    placeholder_named(name) matches Some(p) && !p.on_classpath()
}

/// From `i` on, a brace is doubled or, unless the text is `plain`, one of a
/// placeholder that is no classpath.
pub open spec fn tidy(s: Seq<char>, i: int, plain: bool) -> bool
    decreases s.len() - i,
{
    if i < 0 || i >= s.len() {
        i == s.len()
    } else if (s[i] == '{' || s[i] == '}') && i + 1 < s.len() && s[i + 1] == s[i] {
        tidy(s, i + 2, plain)
    } else if s[i] == '{' {
        let end = run_end(s, Class::Not('}'), i + 1);
        !plain && i < end < s.len() && harmless(s.subrange(i + 1, end)) && tidy(s, end + 1, plain)
    } else {
        s[i] != '}' && tidy(s, i + 1, plain)
    }
}

proof fn lemma_looser(s: Seq<char>, i: int)
    requires
        tidy(s, i, true),
    ensures
        tidy(s, i, false),
    decreases s.len() - i,
{
    if 0 <= i < s.len() {
        if (s[i] == '{' || s[i] == '}') && i + 1 < s.len() && s[i + 1] == s[i] {
            lemma_looser(s, i + 2);
        } else {
            lemma_looser(s, i + 1);
        }
    }
}

/// A run ends where it ends, whatever stands before it.
proof fn lemma_run_behind(a: Seq<char>, b: Seq<char>, k: Class, i: int)
    requires
        0 <= i <= b.len(),
    ensures
        run_end(a + b, k, a.len() + i) == a.len() + run_end(b, k, i),
    decreases b.len() - i,
{
    if i < b.len() {
        assert((a + b)[a.len() + i] == b[i]);
        if k.has(b[i]) {
            lemma_run_behind(a, b, k, i + 1);
        }
    }
}

/// A run that ends inside a text ends there, whatever follows.
proof fn lemma_run_before(a: Seq<char>, b: Seq<char>, k: Class, i: int)
    requires
        0 <= i <= a.len(),
        run_end(a, k, i) < a.len(),
    ensures
        run_end(a + b, k, i) == run_end(a, k, i),
    decreases a.len() - i,
{
    if i < a.len() {
        assert((a + b)[i] == a[i]);
        if k.has(a[i]) {
            lemma_run_before(a, b, k, i + 1);
        }
    }
}

proof fn lemma_behind(a: Seq<char>, b: Seq<char>, i: int, plain: bool)
    requires
        0 <= i,
        tidy(b, i, plain),
    ensures
        tidy(a + b, a.len() + i, plain),
    decreases b.len() - i,
{
    if i < b.len() {
        let s = a + b;
        let n = a.len() as int;
        assert(s[n + i] == b[i]);
        if i + 1 < b.len() {
            assert(s[n + i + 1] == b[i + 1]);
        }
        if (b[i] == '{' || b[i] == '}') && i + 1 < b.len() && b[i + 1] == b[i] {
            lemma_behind(a, b, i + 2, plain);
        } else if b[i] == '{' {
            let k = Class::Not('}');
            let end = run_end(b, k, i + 1);
            lemma_run_behind(a, b, k, i + 1);
            assert(s.subrange(n + i + 1, n + end) =~= b.subrange(i + 1, end));
            lemma_behind(a, b, end + 1, plain);
        } else {
            lemma_behind(a, b, i + 1, plain);
        }
    }
}

proof fn lemma_beside(a: Seq<char>, b: Seq<char>, i: int, plain: bool)
    requires
        0 <= i,
        tidy(a, i, plain),
        tidy(b, 0, plain),
    ensures
        tidy(a + b, i, plain),
    decreases a.len() - i,
{
    if i >= a.len() {
        lemma_behind(a, b, 0, plain);
    } else {
        let s = a + b;
        assert(s[i] == a[i]);
        if i + 1 < a.len() {
            assert(s[i + 1] == a[i + 1]);
        }
        if (a[i] == '{' || a[i] == '}') && i + 1 < a.len() && a[i + 1] == a[i] {
            lemma_beside(a, b, i + 2, plain);
        } else if a[i] == '{' {
            let k = Class::Not('}');
            let end = run_end(a, k, i + 1);
            lemma_run_before(a, b, k, i + 1);
            assert(s.subrange(i + 1, end) =~= a.subrange(i + 1, end));
            lemma_beside(a, b, end + 1, plain);
        } else {
            lemma_beside(a, b, i + 1, plain);
        }
    }
}

/// Tidy texts are tidy side by side.
proof fn lemma_both(a: Seq<char>, b: Seq<char>, plain: bool)
    requires
        tidy(a, 0, plain),
        tidy(b, 0, plain),
    ensures
        tidy(a + b, 0, plain),
{
    lemma_beside(a, b, 0, plain);
}

proof fn lemma_escaped(text: Seq<char>)
    ensures
        tidy(escaped(text), 0, true),
    decreases text.len(),
{
    if text.len() > 0 {
        let c = text.last();
        let before = escaped(text.drop_last());
        lemma_escaped(text.drop_last());
        if c == '{' || c == '}' {
            let pair = seq![c, c];
            assert(tidy(pair, 2, true));
            lemma_both(before, pair, true);
            assert(before + pair =~= before.push(c).push(c));
        } else {
            let one = seq![c];
            assert(tidy(one, 1, true));
            lemma_both(before, one, true);
            assert(before + one =~= before.push(c));
        }
    }
}

/// What stands before a plain character, and after it, is tidy.
proof fn lemma_part_at(s: Seq<char>, i: int, j: int)
    requires
        0 <= i <= j < s.len(),
        tidy(s, i, true),
        s[j] != '{' && s[j] != '}',
    ensures
        tidy(s.take(j), i, true),
        tidy(s, j + 1, true),
    decreases j - i,
{
    let t = s.take(j);
    if i < j {
        assert(t[i] == s[i]);
        if (s[i] == '{' || s[i] == '}') {
            assert(i + 1 < s.len() && s[i + 1] == s[i]);
            assert(i + 2 <= j);
            assert(t[i + 1] == s[i + 1]);
            lemma_part_at(s, i + 2, j);
        } else {
            lemma_part_at(s, i + 1, j);
        }
    }
}

/// What stands after the first closing braces is tidy.
proof fn lemma_part_closed(s: Seq<char>, i: int, k: int)
    requires
        0 <= i <= k,
        k + 2 <= s.len(),
        tidy(s, i, true),
        s[k] == '}' && s[k + 1] == '}',
        forall|p: int| i <= p < k ==> !(s[p] == '}' && #[trigger] s[p + 1] == '}'),
    ensures
        tidy(s, k + 2, true),
    decreases k - i,
{
    if i < k {
        if s[i] == '{' {
            assert(s[i + 1] == '{');
            lemma_part_closed(s, i + 2, k);
        } else if s[i] == '}' {
            assert(s[i + 1] == '}');
        } else {
            lemma_part_closed(s, i + 1, k);
        }
    }
}

proof fn lemma_skipped(s: Seq<char>, j: int)
    requires
        0 <= j <= s.len(),
        tidy(s, j, true),
    ensures
        tidy(s.skip(j), 0, true),
{
    lemma_skipped_at(s, j, 0);
}

proof fn lemma_skipped_at(s: Seq<char>, j: int, i: int)
    requires
        0 <= j <= s.len(),
        0 <= i,
        tidy(s, j + i, true),
    ensures
        tidy(s.skip(j), i, true),
    decreases s.len() - i,
{
    let t = s.skip(j);
    if j + i < s.len() {
        assert(t[i] == s[j + i]);
        if i + 1 < t.len() {
            assert(t[i + 1] == s[j + i + 1]);
        }
        if (t[i] == '{' || t[i] == '}') && i + 1 < t.len() && t[i + 1] == t[i] {
            lemma_skipped_at(s, j, i + 2);
        } else {
            lemma_skipped_at(s, j, i + 1);
        }
    }
}

/// A property's braces part a tidy text in tidy ones.
proof fn lemma_cut_open(rest: Seq<char>)
    requires
        tidy(rest, 0, true),
    ensures
        cut(rest, "${{"@) matches Some((before, after)) ==> tidy(before, 0, true) && tidy(
            after,
            0,
            true,
        ),
{
    reveal_strlit("${{");
    lemma_first_at(rest, "${{"@, 0);
    if let Some(j) = found(rest, "${{"@) {
        assert(at(rest, "${{"@, j));
        let sub = rest.subrange(j, j + 3);
        assert(rest[j] == sub[0] && rest[j + 1] == sub[1] && rest[j + 2] == sub[2]);
        lemma_part_at(rest, 0, j);
        assert(tidy(rest, j + 3, true));
        lemma_skipped(rest, j + 3);
    }
}

proof fn lemma_cut_close(after: Seq<char>)
    requires
        tidy(after, 0, true),
    ensures
        cut(after, "}}"@) matches Some((_, tail)) ==> tidy(tail, 0, true),
{
    reveal_strlit("}}");
    lemma_first_at(after, "}}"@, 0);
    if let Some(k) = found(after, "}}"@) {
        assert(at(after, "}}"@, k));
        let sub = after.subrange(k, k + 2);
        assert(after[k] == sub[0] && after[k + 1] == sub[1]);
        assert forall|p: int| 0 <= p < k implies !(after[p] == '}' && #[trigger] after[p + 1]
            == '}') by {
            assert(!at(after, "}}"@, p));
            if after[p] == '}' && after[p + 1] == '}' {
                assert(after.subrange(p, p + 2) =~= "}}"@);
            }
        }
        lemma_part_closed(after, 0, k);
        lemma_skipped(after, k + 2);
    }
}

/// A placeholder that is no classpath, alone, is tidy.
proof fn lemma_wrapped(name: Seq<char>, text: Seq<char>)
    requires
        text.len() == name.len() + 2,
        name.len() > 0,
        text[0] == '{' && text[1] != '{' && text.last() == '}',
        text.subrange(1, text.len() - 1) == name,
        harmless(name),
        forall|k: int| 0 <= k < name.len() ==> #[trigger] name[k] != '}',
    ensures
        tidy(text, 0, false),
{
    let n = text.len() as int;
    lemma_run_end(text, Class::Not('}'), 1);
    let end = run_end(text, Class::Not('}'), 1);
    if end < n - 1 {
        assert(text[end] == name[end - 1]);
    }
    if end > n - 1 {
        assert(Class::Not('}').has(text[n - 1]));
    }
    assert(tidy(text, n, false));
}

proof fn lemma_known(name: Seq<char>)
    ensures
        known_property(name) matches Some(v) ==> tidy(v, 0, false),
{
    reveal_strlit("{root}");
    reveal_strlit("{target}");
    reveal_strlit("{classes}");
    reveal_strlit("{project.version}");
    reveal_strlit("{project.name}");
    reveal_strlit("root");
    reveal_strlit("target");
    reveal_strlit("classes");
    reveal_strlit("project.version");
    reveal_strlit("project.name");
    placeholder_names_are_their_own(Placeholder::Root, "root"@);
    placeholder_names_are_their_own(Placeholder::Target, "target"@);
    placeholder_names_are_their_own(Placeholder::Classes, "classes"@);
    placeholder_names_are_their_own(Placeholder::ProjectVersion, "project.version"@);
    placeholder_names_are_their_own(Placeholder::ProjectName, "project.name"@);
    assert("{root}"@.subrange(1, 5) =~= "root"@);
    lemma_wrapped("root"@, "{root}"@);
    assert("{target}"@.subrange(1, 7) =~= "target"@);
    lemma_wrapped("target"@, "{target}"@);
    assert("{classes}"@.subrange(1, 8) =~= "classes"@);
    lemma_wrapped("classes"@, "{classes}"@);
    assert("{project.version}"@.subrange(1, 16) =~= "project.version"@);
    lemma_wrapped("project.version"@, "{project.version}"@);
    assert("{project.name}"@.subrange(1, 13) =~= "project.name"@);
    lemma_wrapped("project.name"@, "{project.name}"@);
}

proof fn lemma_text_of(raw: Seq<char>, props: Properties, depth: int)
    ensures
        exec_text_of(raw, props, depth) matches Ok(text) ==> tidy(text, 0, false),
    decreases MAX_DEPTH + 1 - depth, 1int, 0nat,
{
    lemma_escaped(raw);
    lemma_text_from(raw, escaped(raw), props, depth, seq![]);
}

proof fn lemma_text_from(
    raw: Seq<char>,
    rest: Seq<char>,
    props: Properties,
    depth: int,
    out: Seq<char>,
)
    requires
        tidy(rest, 0, true),
        tidy(out, 0, false),
    ensures
        exec_text_from(raw, rest, props, depth, out) matches Ok(text) ==> tidy(text, 0, false),
    decreases MAX_DEPTH + 1 - depth, 0int, rest.len(),
{
    lemma_cut_open(rest);
    match cut(rest, "${{"@) {
        None => {
            lemma_looser(rest, 0);
            lemma_both(out, rest, false);
        },
        Some((before, after)) => {
            lemma_cut_close(after);
            if let Some((name, tail)) = cut(after, "}}"@) {
                lemma_known(name);
                let value: Result<Seq<char>, Seq<char>> = match known_property(name) {
                    Some(v) => Ok(v),
                    None => match property(props, name) {
                        Some(v) => if depth < MAX_DEPTH {
                            exec_text_of(v, props, depth + 1)
                        } else {
                            Err("`${"@ + name + "}` is a property jrs cannot evaluate"@)
                        },
                        None => Err("`${"@ + name + "}` is a property jrs cannot evaluate"@),
                    },
                };
                if known_property(name) is None && property(props, name) is Some && depth < MAX_DEPTH {
                    lemma_text_of(property(props, name)->0, props, depth + 1);
                }
                if let Ok(v) = value {
                    lemma_looser(before, 0);
                    lemma_both(out, before, false);
                    lemma_both(out + before, v, false);
                    if tail.len() < rest.len() {
                        lemma_text_from(raw, tail, props, depth, out + before + v);
                    }
                }
            }
        },
    }
}

/// No placeholder of the segments is a classpath.
pub open spec fn pathless(segments: Seq<SegmentModel>) -> bool {
    forall|k: int|
        0 <= k < segments.len() ==> ((#[trigger] segments[k]) matches SegmentModel::Placeholder(p)
            ==> !p.on_classpath())
}

proof fn lemma_read(raw: Seq<char>, i: int, segments: Seq<SegmentModel>, text: Seq<char>)
    requires
        0 <= i <= raw.len(),
        tidy(raw, i, false),
        pathless(segments),
    ensures
        read_template(raw, i, segments, text) matches Ok(list) ==> pathless(list),
    decreases raw.len() - i,
{
    if i < raw.len() {
        if (raw[i] == '{' || raw[i] == '}') && i + 1 < raw.len() && raw[i + 1] == raw[i] {
            lemma_read(raw, i + 2, segments, text.push(raw[i]));
        } else if raw[i] == '{' {
            let end = run_end(raw, Class::Not('}'), i + 1);
            lemma_run_end(raw, Class::Not('}'), i + 1);
            let p = placeholder_named(raw.subrange(i + 1, end))->0;
            let more = with_text(segments, text).push(SegmentModel::Placeholder(p));
            lemma_read(raw, end + 1, more, seq![]);
        } else {
            lemma_read(raw, i + 1, segments, text.push(raw[i]));
        }
    }
}

proof fn lemma_pathless(segments: Seq<SegmentModel>)
    requires
        pathless(segments),
    ensures
        forall|k: int|
            0 <= k < placeholders_of(segments).len() ==> !(
            #[trigger] placeholders_of(segments)[k]).on_classpath(),
    decreases segments.len(),
{
    if segments.len() > 0 {
        let before = segments.drop_last();
        assert forall|k: int| 0 <= k < before.len() implies ((
        #[trigger] before[k]) matches SegmentModel::Placeholder(p) ==> !p.on_classpath()) by {
            assert(before[k] == segments[k]);
        }
        lemma_pathless(before);
        assert(segments[segments.len() - 1] == segments.last());
        let all = placeholders_of(segments);
        let first = placeholders_of(before);
        assert forall|k: int| 0 <= k < all.len() implies !(#[trigger] all[k]).on_classpath() by {
            if k < first.len() {
                assert(all[k] == first[k]);
            }
        }
    }
}

proof fn lemma_no_classpath(ps: Seq<Placeholder>, i: int)
    requires
        0 <= i,
        forall|k: int| 0 <= k < ps.len() ==> !(#[trigger] ps[k]).on_classpath(),
    ensures
        classpath_from(ps, i) is None,
    decreases ps.len() - i,
{
    if i < ps.len() {
        lemma_no_classpath(ps, i + 1);
    }
}

/// A template of an execution's text is what its text says, and names no
/// classpath.
pub proof fn lemma_exec_template(raw: Seq<char>, props: Properties)
    ensures
        exec_template_of(raw, props) matches Ok(t) ==> good_template(t) && classpath_from(
            t.placeholders(),
            0,
        ) is None,
{
    lemma_text_of(trimmed(raw), props, 0);
    if let Ok(text) = exec_text_of(trimmed(raw), props, 0) {
        lemma_read(text, 0, seq![], seq![]);
        if let Ok(t) = template_of(text) {
            lemma_pathless(t.segments);
            lemma_no_classpath(t.placeholders(), 0);
        }
    }
}

} // verus!
