//! Paths as `/`-separated text.

use crate::text::{
    cat2, cat3, ends, ends_with, join, joined, none_of, pieces, put, same, same_list, split, starts,
    starts_with,
};
use vstd::prelude::*;

verus! {

/// The parts that name something: neither empty nor `.`.
pub open spec fn names(parts: Seq<Seq<char>>) -> Seq<Seq<char>>
    decreases parts.len(),
{
    if parts.len() == 0 {
        seq![]
    } else {
        let before = names(parts.drop_last());
        if parts.last().len() == 0 || parts.last() == "."@ {
            before
        } else {
            before.push(parts.last())
        }
    }
}

/// The components of a path: its root or a leading `.`, then its names.
pub open spec fn components(path: Seq<char>) -> Seq<Seq<char>> {
    let parts = pieces(path, '/');
    if starts(path, "/"@) {
        seq!["/"@] + names(parts)
    } else if parts[0] == "."@ {
        seq!["."@] + names(parts)
    } else {
        names(parts)
    }
}

/// The paths are the same, whatever slashes and dots they are written with.
pub open spec fn same_dir(a: Seq<char>, b: Seq<char>) -> bool {
    components(a) == components(b)
}

/// A path as its components with `/` between them.
pub open spec fn slashed(path: Seq<char>) -> Seq<char> {
    joined(components(path), "/"@)
}

/// `path` seen from `base`: below it, unless `path` has a root of its own.
pub open spec fn under(base: Seq<char>, path: Seq<char>) -> Seq<char> {
    if starts(path, "/"@) || base.len() == 0 {
        path
    } else if ends(base, "/"@) {
        base + path
    } else {
        base + "/"@ + path
    }
}

/// The components of a path.
pub fn split_path(path: &str) -> (r: Vec<String>)
    ensures
        r.deep_view() == components(path@),
{
    let parts = split(path, '/');
    let ghost all = parts.deep_view();
    assert(all.len() > 0);
    let mut out: Vec<String> = none_of();
    if starts_with(path, "/") {
        put(&mut out, "/".to_owned());
    } else if same(parts[0], ".") {
        assert(all[0] == parts@[0]@);
        put(&mut out, ".".to_owned());
    }
    assert(all[0] == parts@[0]@);
    let ghost lead = out.deep_view();
    let mut i: usize = 0;
    while i < parts.len()
        invariant
            all == parts.deep_view(),
            i <= parts@.len(),
            out.deep_view() =~= lead + names(all.take(i as int)),
        decreases parts@.len() - i,
    {
        assert(all.take(i + 1).drop_last() =~= all.take(i as int));
        assert(all.take(i + 1).last() == parts@[i as int]@);
        if !parts[i].is_empty() && !same(parts[i], ".") {
            put(&mut out, parts[i].to_owned());
        }
        i = i + 1;
    }
    assert(all.take(i as int) =~= all);
    assert(out.deep_view() =~= components(path@));
    out
}

/// Whether the paths are the same, whatever slashes and dots they are written
/// with.
pub fn is_same_dir(a: &str, b: &str) -> (r: bool)
    ensures
        r == same_dir(a@, b@),
{
    same_list(&split_path(a), &split_path(b))
}

/// A path as its components with `/` between them.
pub fn to_slash(path: &str) -> (r: String)
    ensures
        r@ == slashed(path@),
{
    join(&split_path(path), "/")
}

/// `path` seen from `base`: below it, unless `path` has a root of its own.
pub fn join_path(base: &str, path: &str) -> (r: String)
    ensures
        r@ == under(base@, path@),
{
    if starts_with(path, "/") || base.is_empty() {
        path.to_owned()
    } else if ends_with(base, "/") {
        cat2(base, path)
    } else {
        cat3(base, "/", path)
    }
}

/// What a path's components spell.
pub open spec fn spelled(parts: Seq<Seq<char>>) -> Seq<char> {
    if parts.len() > 0 && parts[0] == "/"@ {
        "/"@ + joined(parts.skip(1), "/"@)
    } else {
        joined(parts, "/"@)
    }
}

/// The text that components spell.
pub fn spell(parts: &Vec<String>, n: usize) -> (r: String)
    requires
        n <= parts@.len(),
    ensures
        r@ == spelled(parts.deep_view().take(n as int)),
{
    let ghost all = parts.deep_view();
    let rooted: bool = n > 0 && same(parts[0].as_str(), "/");
    proof {
        if n > 0 {
            assert(all[0] == parts@[0]@);
        }
    }
    let first: usize = if rooted {
        1
    } else {
        0
    };
    let mut kept: Vec<String> = none_of();
    let mut i: usize = first;
    while i < n
        invariant
            all == parts.deep_view(),
            n <= parts@.len(),
            first <= i,
            first <= n,
            i <= n,
            kept.deep_view() =~= all.subrange(first as int, i as int),
        decreases n - i,
    {
        assert(all[i as int] == parts@[i as int]@);
        put(&mut kept, parts[i].clone());
        i = i + 1;
    }
    if rooted {
        assert(all.take(n as int).skip(1) =~= all.subrange(1, n as int));
    }
    assert(all.take(n as int) =~= all.subrange(0, n as int));
    if rooted {
        cat2("/", join(&kept, "/").as_str())
    } else {
        join(&kept, "/")
    }
}

/// The directory a path is in. A root is in none, and neither is a path
/// without a name.
pub open spec fn parent(path: Seq<char>) -> Option<Seq<char>> {
    let parts = components(path);
    if parts.len() == 0 || (parts.len() == 1 && parts[0] == "/"@) {
        None
    } else {
        Some(spelled(parts.drop_last()))
    }
}

/// The directory a path is in.
pub fn parent_of(path: &str) -> (r: Option<String>)
    ensures
        r.deep_view() == parent(path@),
{
    let parts = split_path(path);
    let ghost all = parts.deep_view();
    if parts.len() == 0 {
        return None;
    }
    assert(all[0] == parts@[0]@);
    if parts.len() == 1 && same(parts[0].as_str(), "/") {
        return None;
    }
    assert(all.take(all.len() - 1) =~= all.drop_last());
    Some(spell(&parts, parts.len() - 1))
}

/// `src/test/resources` for `src/test/java`: the directory beside the tests.
pub open spec fn resources_beside(test_dir: Seq<char>) -> Seq<char> {
    let parts = components(test_dir);
    if parts.len() >= 2 {
        under(spelled(parts.drop_last()), "resources"@)
    } else {
        "src/test/resources"@
    }
}

/// `src/test/resources` for `src/test/java`: the directory beside the tests.
pub fn default_test_resource_dir(test_dir: &str) -> (r: String)
    ensures
        r@ == resources_beside(test_dir@),
{
    let parts = split_path(test_dir);
    if parts.len() >= 2 {
        let ghost all = parts.deep_view();
        assert(all.take(all.len() - 1) =~= all.drop_last());
        let text = spell(&parts, parts.len() - 1);
        join_path(text.as_str(), "resources")
    } else {
        "src/test/resources".to_owned()
    }
}

} // verus!
