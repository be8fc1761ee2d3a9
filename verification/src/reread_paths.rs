//! Directories that are written and read again name the same directory.

use crate::error::Fault;
use crate::keys::path_text;
use crate::paths::{components, names, resources_beside, same_dir, slashed, spelled, under};
use crate::reread::{lemma_first_piece, lemma_one_piece, lemma_pieces_apart};
use crate::text::{
    at, includes, joined, lemma_first_at, lemma_run_end, pieces, run_end, starts, within, Class,
};
use crate::value::{entry, Entries};
use vstd::prelude::*;

verus! {

// ---- names -----------------------------------------------------------------

/// A part that names something.
pub open spec fn naming(part: Seq<char>) -> bool {
    part.len() > 0 && part != "."@
}

pub proof fn lemma_names(parts: Seq<Seq<char>>, k: int)
    requires
        0 <= k < names(parts).len(),
    ensures
        naming(names(parts)[k]),
        exists|j: int| 0 <= j < parts.len() && #[trigger] parts[j] == names(parts)[k],
    decreases parts.len(),
{
    let before = names(parts.drop_last());
    if k < before.len() {
        lemma_names(parts.drop_last(), k);
        let j = choose|j: int|
            0 <= j < parts.drop_last().len() && #[trigger] parts.drop_last()[j] == before[k];
        assert(parts[j] == before[k]);
    } else {
        assert(parts[parts.len() - 1] == names(parts)[k]);
    }
}

proof fn lemma_all_names(parts: Seq<Seq<char>>)
    requires
        forall|k: int| 0 <= k < parts.len() ==> naming(#[trigger] parts[k]),
    ensures
        names(parts) == parts,
    decreases parts.len(),
{
    if parts.len() > 0 {
        lemma_all_names(parts.drop_last());
        assert(naming(parts[parts.len() - 1]));
        assert(parts.drop_last().push(parts.last()) =~= parts);
    } else {
        assert(parts =~= seq![]);
    }
}

/// A `.` before names names nothing.
proof fn lemma_dot_names(parts: Seq<Seq<char>>)
    requires
        forall|k: int| 0 <= k < parts.len() ==> naming(#[trigger] parts[k]),
    ensures
        names(seq!["."@] + parts) == parts,
    decreases parts.len(),
{
    let all = seq!["."@] + parts;
    if parts.len() > 0 {
        lemma_dot_names(parts.drop_last());
        assert(all.drop_last() =~= seq!["."@] + parts.drop_last());
        assert(naming(parts[parts.len() - 1]));
        assert(all.last() == parts.last());
        assert(parts.drop_last().push(parts.last()) =~= parts);
    } else {
        assert(all =~= seq!["."@]);
        assert(all.drop_last() =~= seq![]);
        reveal_with_fuel(names, 2);
        assert(parts =~= seq![]);
    }
}

// ---- joining and splitting -------------------------------------------------

proof fn lemma_joined_front(parts: Seq<Seq<char>>, sep: Seq<char>)
    requires
        parts.len() >= 2,
    ensures
        joined(parts, sep) == parts[0] + sep + joined(parts.skip(1), sep),
    decreases parts.len(),
{
    reveal_with_fuel(joined, 2);
    let rest = parts.skip(1);
    if parts.len() == 2 {
        assert(parts.drop_last() =~= seq![parts[0]]);
        assert(rest =~= seq![parts[1]]);
    } else {
        lemma_joined_front(parts.drop_last(), sep);
        assert(parts.drop_last().skip(1) =~= rest.drop_last());
        assert(joined(parts, sep) =~= parts[0] + sep + joined(rest, sep));
    }
}

/// Parts with `/` between them, split at it, are the parts.
proof fn lemma_split_joined(parts: Seq<Seq<char>>)
    requires
        parts.len() > 0,
        forall|k: int| 0 <= k < parts.len() ==> !includes(#[trigger] parts[k], '/'),
    ensures
        pieces(joined(parts, "/"@), '/') == parts,
    decreases parts.len(),
{
    reveal_strlit("/");
    assert("/"@ =~= seq!['/']);
    assert(!includes(parts[0], '/'));
    if parts.len() == 1 {
        lemma_one_piece(parts[0], '/');
        assert(seq![parts[0]] =~= parts);
    } else {
        let rest = parts.skip(1);
        assert forall|k: int| 0 <= k < rest.len() implies !includes(#[trigger] rest[k], '/') by {
            assert(rest[k] == parts[k + 1]);
        }
        lemma_split_joined(rest);
        lemma_joined_front(parts, "/"@);
        lemma_first_piece(parts[0], joined(rest, "/"@), '/');
        assert(seq![parts[0]] + rest =~= parts);
    }
}

/// What parts begin with, they begin with joined.
pub proof fn lemma_joined_first(parts: Seq<Seq<char>>)
    requires
        parts.len() > 0,
        parts[0].len() > 0,
    ensures
        joined(parts, "/"@).len() > 0,
        joined(parts, "/"@)[0] == parts[0][0],
{
    if parts.len() >= 2 {
        lemma_joined_front(parts, "/"@);
    }
}

// ---- components ------------------------------------------------------------

/// A path below some directory.
pub open spec fn relative(path: Seq<char>) -> bool {
    !starts(path, "/"@)
}

pub proof fn lemma_starts_slash(s: Seq<char>)
    ensures
        starts(s, "/"@) <==> s.len() > 0 && s[0] == '/',
{
    reveal_strlit("/");
    assert("/"@ =~= seq!['/']);
    if s.len() > 0 {
        assert(s.subrange(0, 1) =~= seq![s[0]]);
        if s[0] == '/' {
            assert(s.subrange(0, 1) =~= "/"@);
        } else {
            assert("/"@[0] != s.subrange(0, 1)[0]);
        }
    }
}

/// The components of a relative path: names, behind a `.` at most.
proof fn lemma_components(path: Seq<char>)
    requires
        relative(path),
    ensures
        ({
            let c = components(path);
            &&& forall|k: int|
                0 <= k < c.len() ==> (#[trigger] c[k]).len() > 0 && !includes(c[k], '/')
            &&& forall|k: int| 1 <= k < c.len() ==> naming(#[trigger] c[k])
            &&& forall|k: int|
                0 <= k < c.len() ==> #[trigger] c[k] == "."@ || exists|j: int|
                    0 <= j < pieces(path, '/').len() && #[trigger] pieces(path, '/')[j] == c[k]
        }),
{
    let parts = pieces(path, '/');
    let c = components(path);
    let ns = names(parts);
    reveal_strlit(".");
    assert(!includes("."@, '/')) by {
        assert("."@.len() == 1 && "."@[0] == '.');
    }
    let shift: int = c.len() - ns.len();
    assert forall|k: int| 0 <= k < c.len() implies (#[trigger] c[k]).len() > 0 && !includes(
        c[k],
        '/',
    ) && (k >= 1 ==> naming(c[k])) && (c[k] == "."@ || exists|j: int|
        0 <= j < parts.len() && #[trigger] parts[j] == c[k]) by {
        if k >= shift {
            assert(c[k] == ns[k - shift]);
            lemma_names(parts, k - shift);
            let j = choose|j: int| 0 <= j < parts.len() && #[trigger] parts[j] == ns[k - shift];
            lemma_pieces_apart(path, '/', j);
        }
    }
}

/// A relative path, spelled by its components, has the same components.
pub proof fn lemma_slashed(path: Seq<char>)
    requires
        relative(path),
    ensures
        components(slashed(path)) == components(path),
        relative(slashed(path)),
{
    let c = components(path);
    let text = slashed(path);
    lemma_components(path);
    lemma_starts_slash(text);
    if c.len() == 0 {
        assert(text =~= seq![]);
        assert(!includes(text, '/'));
        lemma_one_piece(text, '/');
        reveal_strlit(".");
        assert(pieces(text, '/')[0].len() == 0);
        reveal_with_fuel(names, 2);
        assert(pieces(text, '/').drop_last() =~= seq![]);
        assert(components(text) =~= c);
    } else {
        assert(c[0].len() > 0 && !includes(c[0], '/'));
        assert(c[0][0] != '/');
        lemma_joined_first(c);
        lemma_split_joined(c);
        if c[0] == "."@ {
            let rest = c.skip(1);
            assert forall|k: int| 0 <= k < rest.len() implies naming(#[trigger] rest[k]) by {
                assert(rest[k] == c[k + 1]);
            }
            lemma_dot_names(rest);
            assert(seq!["."@] + rest =~= c);
        } else {
            assert forall|k: int| 0 <= k < c.len() implies naming(#[trigger] c[k]) by {}
            lemma_all_names(c);
        }
        assert(components(text) =~= c);
    }
}

// ---- no way up -------------------------------------------------------------

/// Two dots stand side by side in the text.
spec fn dotted(s: Seq<char>) -> bool {
    exists|i: int| 0 <= i < s.len() - 1 && #[trigger] s[i] == '.' && s[i + 1] == '.'
}

proof fn lemma_dotted(s: Seq<char>)
    ensures
        within(s, ".."@) <==> dotted(s),
{
    reveal_strlit("..");
    assert(".."@ =~= seq!['.', '.']);
    lemma_first_at(s, ".."@, 0);
    if within(s, ".."@) {
        let i = crate::text::found(s, ".."@)->0;
        assert(s.subrange(i, i + 2)[0] == s[i]);
        assert(s.subrange(i, i + 2)[1] == s[i + 1]);
    }
    if dotted(s) {
        let i = choose|i: int| 0 <= i < s.len() - 1 && #[trigger] s[i] == '.' && s[i + 1] == '.';
        assert(s.subrange(i, i + 2) =~= ".."@);
        assert(at(s, ".."@, i));
    }
}

proof fn lemma_dotted_part(parts: Seq<Seq<char>>)
    requires
        dotted(joined(parts, "/"@)),
    ensures
        exists|k: int| 0 <= k < parts.len() && dotted(#[trigger] parts[k]),
    decreases parts.len(),
{
    reveal_strlit("/");
    let text = joined(parts, "/"@);
    let i = choose|i: int|
        0 <= i < text.len() - 1 && #[trigger] text[i] == '.' && text[i + 1] == '.';
    if parts.len() == 1 {
        assert(dotted(parts[0]));
    } else if parts.len() >= 2 {
        let rest = parts.skip(1);
        let below = joined(rest, "/"@);
        lemma_joined_front(parts, "/"@);
        let n = parts[0].len() as int;
        assert(text[n] == '/');
        if i + 1 < n {
            assert(parts[0][i] == '.' && parts[0][i + 1] == '.');
            assert(dotted(parts[0]));
        } else {
            assert(i > n);
            assert(below[i - n - 1] == '.' && below[i - n - 1 + 1] == '.');
            assert(dotted(below));
            lemma_dotted_part(rest);
            let k = choose|k: int| 0 <= k < rest.len() && dotted(#[trigger] rest[k]);
            assert(dotted(parts[k + 1]));
        }
    }
}

proof fn lemma_dotted_piece(s: Seq<char>, k: int)
    requires
        0 <= k < pieces(s, '/').len(),
        dotted(pieces(s, '/')[k]),
    ensures
        dotted(s),
    decreases s.len(),
{
    lemma_run_end(s, Class::Not('/'), 0);
    let end = run_end(s, Class::Not('/'), 0);
    if end < s.len() {
        if k == 0 {
            let p = s.take(end);
            let i = choose|i: int|
                0 <= i < p.len() - 1 && #[trigger] p[i] == '.' && p[i + 1] == '.';
            assert(s[i] == '.' && s[i + 1] == '.');
        } else {
            let rest = s.skip(end + 1);
            lemma_dotted_piece(rest, k - 1);
            let i = choose|i: int|
                0 <= i < rest.len() - 1 && #[trigger] rest[i] == '.' && rest[i + 1] == '.';
            assert(s[i + end + 1] == '.' && s[i + end + 1 + 1] == '.');
        }
    }
}

/// A path that never goes up does not when it is spelled by its components.
proof fn lemma_stays_inside(path: Seq<char>)
    requires
        relative(path),
        !within(path, ".."@),
    ensures
        !within(slashed(path), ".."@),
{
    lemma_dotted(path);
    lemma_dotted(slashed(path));
    if dotted(slashed(path)) {
        let c = components(path);
        lemma_dotted_part(c);
        let k = choose|k: int| 0 <= k < c.len() && dotted(#[trigger] c[k]);
        lemma_components(path);
        reveal_strlit(".");
        if c[k] != "."@ {
            let j = choose|j: int|
                0 <= j < pieces(path, '/').len() && #[trigger] pieces(path, '/')[j] == c[k];
            lemma_dotted_piece(path, j);
        }
    }
}

// ---- directories of a manifest ---------------------------------------------

/// A directory that a key can name: one inside the project.
pub open spec fn good_dir(dir: Seq<char>) -> bool {
    relative(dir) && !within(dir, ".."@)
}

/// A directory is read again as its components spell it.
pub proof fn lemma_path_again(
    t: Entries,
    key: Seq<char>,
    default: Seq<char>,
    section: Seq<char>,
    dir: Seq<char>,
)
    requires
        good_dir(dir),
        entry(t, key) is None ==> default == slashed(dir),
        entry(t, key) matches Some(v) ==> v.text() == Some(slashed(dir)),
    ensures
        path_text(t, key, default, section) == Ok::<Seq<char>, Fault>(slashed(dir)),
        same_dir(slashed(dir), dir),
{
    lemma_slashed(dir);
    lemma_stays_inside(dir);
}

/// The directory beside the tests depends on the components alone, and is a
/// relative path where the tests' is.
pub proof fn lemma_beside(test_dir: Seq<char>)
    requires
        relative(test_dir),
    ensures
        relative(resources_beside(test_dir)),
        resources_beside(slashed(test_dir)) == resources_beside(test_dir),
{
    lemma_slashed(test_dir);
    lemma_components(test_dir);
    let c = components(test_dir);
    lemma_starts_slash(resources_beside(test_dir));
    if c.len() >= 2 {
        let up = c.drop_last();
        assert(up[0] == c[0]);
        assert(c[0].len() > 0 && !includes(c[0], '/'));
        assert(c[0][0] != '/');
        lemma_joined_first(up);
        lemma_starts_slash(c[0]);
        reveal_strlit("/");
        assert(up[0] != "/"@);
        reveal_strlit("resources");
        lemma_starts_slash("resources"@);
        let base = spelled(up);
        assert(under(base, "resources"@)[0] == base[0]);
    } else {
        reveal_strlit("src/test/resources");
    }
}

/// Directories that are spelled alike are the same.
pub proof fn lemma_same_spelling(a: Seq<char>, b: Seq<char>)
    requires
        relative(a),
        relative(b),
        slashed(a) == slashed(b),
    ensures
        same_dir(a, b),
{
    lemma_slashed(a);
    lemma_slashed(b);
}

} // verus!
