//! Where a project's `jrs.toml` is.

use crate::error::{Fault, JrsError};
use crate::manifest::{Manifest, MANIFEST_FILE};
use crate::parse::text_manifest;
use crate::paths::{components, join_path, parent, parent_of, spell, spelled, split_path, under};
use crate::reread_manifest::{from_document, good_manifest, reads_back};
use crate::text::{cat3, listed, none_of, outcome, put, same, starts, starts_with};
use vstd::prelude::*;

verus! {

/// What a missing manifest is answered with.
pub open spec fn missing_message(path: Seq<char>) -> Seq<char> {
    "no `jrs.toml` found at "@ + path
        + "\n\nrun `jrs init` to create one, or `jrs migrate` to convert an existing Maven or Gradle build"@
}

/// The project's directory: the one its manifest is in.
pub open spec fn root_of(path: Seq<char>) -> Seq<char> {
    match parent(path) {
        Some(dir) => if dir.len() == 0 {
            "."@
        } else {
            dir
        },
        None => "."@,
    }
}

/// A directory's components, followed by those of a relative path from the
/// `i`th on: `.` stays and `..` goes up.
pub open spec fn walked(base: Seq<Seq<char>>, parts: Seq<Seq<char>>, i: int) -> Seq<Seq<char>>
    decreases parts.len() - i,
{
    if i < 0 || i >= parts.len() {
        base
    } else if parts[i] == "."@ {
        walked(base, parts, i + 1)
    } else if parts[i] == ".."@ {
        if base.len() == 0 || (base.len() == 1 && base[0] == "/"@) {
            walked(base, parts, i + 1)
        } else {
            walked(base.drop_last(), parts, i + 1)
        }
    } else {
        walked(base.push(parts[i]), parts, i + 1)
    }
}

/// The components of the directory a search starts in.
pub open spec fn start_parts(start: Seq<char>, directory: Seq<char>) -> Seq<Seq<char>> {
    if starts(start, "/"@) {
        components(start)
    } else {
        walked(components(directory), components(start), 0)
    }
}

/// The directory a search starts in.
pub open spec fn start_text(start: Seq<char>, directory: Seq<char>) -> Seq<char> {
    if starts(start, "/"@) {
        start
    } else {
        spelled(start_parts(start, directory))
    }
}

/// The manifest of the directory that the first `n` components are.
pub open spec fn file_at(parts: Seq<Seq<char>>, n: int) -> Seq<char> {
    under(spelled(parts.take(n)), MANIFEST_FILE@)
}

/// The manifests of a directory and of those above it, nearest first.
pub open spec fn files_up(parts: Seq<Seq<char>>) -> Seq<Seq<char>> {
    Seq::new(parts.len(), |i: int| file_at(parts, parts.len() - i))
}

/// The first of the files, from the `i`th on, that is there.
pub open spec fn nearest(files: Seq<Seq<char>>, present: Seq<Seq<char>>, i: int) -> Option<Seq<char>>
    decreases files.len() - i,
{
    if i < 0 || i >= files.len() {
        None
    } else if present.contains(files[i]) {
        Some(files[i])
    } else {
        nearest(files, present, i + 1)
    }
}

fn walk(directory: &str, start: &str) -> (r: Vec<String>)
    ensures
        r.deep_view() == walked(components(directory@), components(start@), 0),
{
    let mut base = split_path(directory);
    let parts = split_path(start);
    let ghost first = base.deep_view();
    let ghost all = parts.deep_view();
    let mut i: usize = 0;
    while i < parts.len()
        invariant
            all == parts.deep_view(),
            i <= parts@.len(),
            walked(first, all, 0) == walked(base.deep_view(), all, i as int),
        decreases parts@.len() - i,
    {
        assert(all[i as int] == parts@[i as int]@);
        if same(parts[i].as_str(), ".") {
        } else if same(parts[i].as_str(), "..") {
            let ghost before = base.deep_view();
            proof {
                if before.len() > 0 {
                    assert(before[0] == base@[0]@);
                }
            }
            if !(base.len() == 0 || (base.len() == 1 && same(base[0].as_str(), "/"))) {
                base.pop();
                assert(base.deep_view() =~= before.drop_last());
            }
        } else {
            put(&mut base, parts[i].clone());
        }
        i = i + 1;
    }
    base
}

fn find_start(start: &str, directory: &str) -> (r: Vec<String>)
    ensures
        r.deep_view() == start_parts(start@, directory@),
{
    if starts_with(start, "/") {
        split_path(start)
    } else {
        walk(directory, start)
    }
}

impl Manifest {
    /// Read the manifest at `path`, whose text is `text` where there is one.
    pub fn load(path: &str, text: Option<&str>) -> (r: Result<Manifest, JrsError>)
        ensures
            outcome(r) == (match text {
                None => Err(Fault::Manifest(missing_message(path@))),
                Some(text) => text_manifest(text@, path@, root_of(path@)),
            }),
            text matches Some(text) ==> reads_back(text@, path@, root_of(path@), outcome(r)),
            r matches Ok(m) ==> from_document(m.deep_view()) && good_manifest(m.deep_view()),
    {
        let Some(text) = text else {
            return Err(
                JrsError::Manifest(
                    cat3(
                        "no `jrs.toml` found at ",
                        path,
                        "\n\nrun `jrs init` to create one, or `jrs migrate` to convert an existing Maven or Gradle build",
                    ),
                ),
            );
        };
        let root = match parent_of(path) {
            Some(dir) => if dir.as_str().is_empty() {
                ".".to_owned()
            } else {
                dir
            },
            None => ".".to_owned(),
        };
        Manifest::parse(text, path, root.as_str())
    }

    /// Where the manifest for `start` is looked for: there, and in each
    /// directory above. A relative `start` is seen from `directory`.
    pub fn candidates(start: &str, directory: &str) -> (r: Vec<String>)
        ensures
            r.deep_view() == files_up(start_parts(start@, directory@)),
    {
        let parts = find_start(start, directory);
        let ghost all = parts.deep_view();
        let mut out: Vec<String> = none_of();
        let mut n: usize = parts.len();
        while n > 0
            invariant
                all == parts.deep_view(),
                n <= parts@.len(),
                out.deep_view() =~= files_up(all).take(all.len() - n),
            decreases n,
        {
            let dir = spell(&parts, n);
            put(&mut out, join_path(dir.as_str(), MANIFEST_FILE));
            n = n - 1;
        }
        assert(files_up(all).take(all.len() as int) =~= files_up(all));
        out
    }

    /// Find the manifest for `start`, walking up until one is found. `present`
    /// are the files that are there.
    pub fn discover(start: &str, directory: &str, present: &Vec<String>) -> (r: Result<
        String,
        JrsError,
    >)
        ensures
            outcome(r) == (match nearest(
                files_up(start_parts(start@, directory@)),
                present.deep_view(),
                0,
            ) {
                Some(file) => Ok::<Seq<char>, Fault>(file),
                None => Err(
                    Fault::Manifest(
                        "no `jrs.toml` in "@ + start_text(start@, directory@)
                            + " or any parent directory\n\nrun `jrs init` to create one, or `jrs migrate` to convert an existing Maven or Gradle build"@,
                    ),
                ),
            }),
    {
        let files = Manifest::candidates(start, directory);
        let ghost all = files.deep_view();
        let ghost there = present.deep_view();
        let mut i: usize = 0;
        while i < files.len()
            invariant
                all == files.deep_view(),
                all == files_up(start_parts(start@, directory@)),
                there == present.deep_view(),
                i <= files@.len(),
                nearest(all, there, 0) == nearest(all, there, i as int),
            decreases files@.len() - i,
        {
            assert(all[i as int] == files@[i as int]@);
            if listed(present, files[i].as_str()) {
                return Ok(files[i].clone());
            }
            i = i + 1;
        }
        let from = if starts_with(start, "/") {
            start.to_owned()
        } else {
            let parts = find_start(start, directory);
            assert(parts.deep_view().take(parts@.len() as int) =~= parts.deep_view());
            spell(&parts, parts.len())
        };
        Err(
            JrsError::Manifest(
                cat3(
                    "no `jrs.toml` in ",
                    from.as_str(),
                    " or any parent directory\n\nrun `jrs init` to create one, or `jrs migrate` to convert an existing Maven or Gradle build",
                ),
            ),
        )
    }
}

proof fn lemma_nearest(files: Seq<Seq<char>>, present: Seq<Seq<char>>, i: int, k: int)
    requires
        0 <= i <= k < files.len(),
        present.contains(files[k]),
    ensures
        nearest(files, present, i) is Some,
        exists|j: int|
            i <= j <= k && #[trigger] files[j] == nearest(files, present, i)->0 && present.contains(
                files[j],
            ),
    decreases k - i,
{
    if present.contains(files[i]) {
        assert(files[i] == nearest(files, present, i)->0);
    } else {
        lemma_nearest(files, present, i + 1, k);
    }
}

/// The manifest found is the nearest: where one is there, one at least as near
/// is found.
pub proof fn the_nearest_manifest_is_found(
    start: Seq<char>,
    directory: Seq<char>,
    present: Seq<Seq<char>>,
    k: int,
)
    requires
        0 <= k < files_up(start_parts(start, directory)).len(),
        present.contains(files_up(start_parts(start, directory))[k]),
    ensures
        exists|j: int|
            0 <= j <= k && nearest(files_up(start_parts(start, directory)), present, 0) == Some(
                #[trigger] files_up(start_parts(start, directory))[j],
            ),
{
    lemma_nearest(files_up(start_parts(start, directory)), present, 0, k);
}

} // verus!
