//! Gradle's `files(...)` and `fileTree(...)` in a `dependencies { }` block:
//! jars kept in the project, which become local jars in `jrs.toml`
//! (`name = { path = "libs/driver.jar" }`).
//!
//! Only literals translate. `jrs.toml` names jars, not directories, so a
//! `fileTree` is expanded to the jars it holds when jrs migrates, one entry
//! each, and the report says so: a jar added there later needs an entry of its
//! own. A local jar is named after its file.

use crate::chars::{
    alphanumeric, is_alphanumeric, is_space, is_unicode_alphanumeric, space, unicode_alphanumeric,
};
use crate::dependency::{local_jar, Dependency, DependencyModel};
use crate::gradle_paths::{join_tidy, tidy};
use crate::order::{is_before, slot};
use crate::report::{Report, ReportModel};
use crate::text::{
    after_prefix, at, before_suffix, cat2, cat3, cat4, cat5, chars, cut_last, decimal, drop_run,
    ends, ends_with, first_at, has_char, includes, listed, none_of, one_of, pieces, put, put_all,
    replace, replaced, rsplit_once, run_end, same, sans_all, sans_tail, show, skip, slice, small,
    split, stands, starts, starts_with, string_of, strip_all, strip_prefix, strip_suffix, take,
    to_small, Class, Duplicate,
};
use vstd::prelude::*;

verus! {

/// What is in the project's directory: its directories and its files, by
/// their paths below it, `/` separated.
#[derive(Debug)]
pub struct Files {
    pub dirs: Vec<String>,
    pub files: Vec<String>,
}

/// What is in the project's directory.
pub struct FilesModel {
    pub dirs: Seq<Seq<char>>,
    pub files: Seq<Seq<char>>,
}

impl DeepView for Files {
    type V = FilesModel;

    open spec fn deep_view(&self) -> FilesModel {
        FilesModel { dirs: self.dirs.deep_view(), files: self.files.deep_view() }
    }
}

impl FilesModel {
    /// The path is a directory's.
    pub open spec fn has_dir(self, path: Seq<char>) -> bool {
        let p = tidy("."@, path);
        p == "."@ || self.dirs.contains(p)
    }

    /// The path is a file's.
    pub open spec fn has_file(self, path: Seq<char>) -> bool {
        let last = match cut_last(path, "/"@) {
            Some((_, l)) => l,
            None => path,
        };
        last.len() > 0 && last != "."@ && self.files.contains(tidy("."@, path))
    }
}

impl Files {
    /// Whether the path is a directory's.
    pub fn has_dir(&self, path: &str) -> (r: bool)
        ensures
            r == self.deep_view().has_dir(path@),
    {
        let p = join_tidy(".", path);
        same(p.as_str(), ".") || listed(&self.dirs, p.as_str())
    }

    /// Whether the path is a file's.
    pub fn has_file(&self, path: &str) -> (r: bool)
        ensures
            r == self.deep_view().has_file(path@),
    {
        let last = match rsplit_once(path, "/") {
            Some((_, l)) => l,
            None => path,
        };
        let p = join_tidy(".", path);
        !last.is_empty() && !same(last, ".") && listed(&self.files, p.as_str())
    }
}

// ---- calls -----------------------------------------------------------------

/// Where the bracket closes that `depth` brackets before `i` hold open.
pub open spec fn close_from(s: Seq<char>, i: int, depth: int, quote: Option<char>) -> Option<int>
    decreases s.len() - i,
{
    if i < 0 || i >= s.len() {
        None
    } else {
        let c = s[i];
        match quote {
            Some(q) => close_from(
                s,
                i + 1,
                depth,
                if c == q {
                    None
                } else {
                    quote
                },
            ),
            None => if c == '\'' || c == '"' {
                close_from(s, i + 1, depth, Some(c))
            } else if c == '(' {
                close_from(s, i + 1, depth + 1, None)
            } else if c == ')' {
                if depth == 1 {
                    Some(i)
                } else {
                    close_from(s, i + 1, depth - 1, None)
                }
            } else {
                close_from(s, i + 1, depth, None)
            },
        }
    }
}

fn find_close(cs: &Vec<char>, from: usize) -> (r: Option<usize>)
    requires
        from <= cs@.len(),
    ensures
        r is Some <==> close_from(cs@, from as int, 1, None) is Some,
        r matches Some(i) ==> from <= i < cs@.len() && close_from(cs@, from as int, 1, None)
            == Some(i as int),
{
    let mut depth: u128 = 1;
    let mut quote: Option<char> = None;
    let mut i: usize = from;
    while i < cs.len()
        invariant
            from <= i <= cs@.len(),
            1 <= depth <= 1 + i,
            close_from(cs@, from as int, 1, None) == close_from(
                cs@,
                i as int,
                depth as int,
                quote,
            ),
        decreases cs@.len() - i,
    {
        let c: char = cs[i];
        match quote {
            Some(q) => {
                if c == q {
                    quote = None;
                }
            },
            None => {
                if c == '\'' || c == '"' {
                    quote = Some(c);
                } else if c == '(' {
                    depth = depth + 1;
                } else if c == ')' {
                    if depth == 1 {
                        return Some(i);
                    }
                    depth = depth - 1;
                }
            },
        }
        i = i + 1;
    }
    None
}

/// The call of `name` from `i` on: what stands between its parentheses, and
/// what follows them.
pub open spec fn call_from(line: Seq<char>, name: Seq<char>, i: int) -> Option<
    (Seq<char>, Seq<char>),
>
    decreases line.len() - i,
{
    match first_at(line, name, i) {
        None => None,
        Some(k) => {
            let start = k + name.len();
            if k > 0 && (unicode_alphanumeric(line[k - 1]) || line[k - 1] == '_') {
                if i < start <= line.len() {
                    call_from(line, name, start)
                } else {
                    None
                }
            } else {
                match close_from(line, start, 1, None) {
                    Some(j) => Some((line.subrange(start, j), line.skip(j + 1))),
                    None => None,
                }
            }
        },
    }
}

/// The text between the parentheses of the first call to `name` (which ends
/// in `(`) that is not the tail of a longer identifier, and what follows the
/// closing one.
fn call_arguments<'a>(line: &'a str, name: &str) -> (r: Option<(&'a str, &'a str)>)
    requires
        name@.len() > 0,
    ensures
        r.deep_view() == call_from(line@, name@, 0),
{
    let cs = chars(line);
    let word = chars(name);
    let mut from: usize = 0;
    loop
        invariant
            cs@ == line@,
            word@ == name@,
            name@.len() > 0,
            from <= cs@.len(),
            call_from(line@, name@, 0) == call_from(line@, name@, from as int),
        decreases cs@.len() - from,
    {
        let mut k: usize = from;
        while k < cs.len() && !stands(&cs, &word, k)
            invariant
                cs@ == line@,
                word@ == name@,
                name@.len() > 0,
                from <= k <= cs@.len(),
                first_at(line@, name@, from as int) == first_at(line@, name@, k as int),
            decreases cs@.len() - k,
        {
            k = k + 1;
        }
        if k >= cs.len() {
            assert(!at(line@, name@, k as int));
            assert(first_at(line@, name@, k + 1) is None);
            return None;
        }
        let start: usize = k + word.len();
        if k > 0 && (is_unicode_alphanumeric(cs[k - 1]) || cs[k - 1] == '_') {
            from = start;
        } else {
            return match find_close(&cs, start) {
                Some(j) => Some((slice(line, start, j), skip(line, j + 1))),
                None => None,
            };
        }
    }
}

/// The literals from `i` on, after those before, where commas separate them
/// and nothing else stands between.
pub open spec fn plain_literals_from(s: Seq<char>, i: int, out: Seq<Seq<char>>) -> Option<
    Seq<Seq<char>>,
>
    decreases s.len() - i,
{
    if i < 0 || i >= s.len() {
        Some(out)
    } else if s[i] == '\'' || s[i] == '"' {
        let end = run_end(s, Class::Not(s[i]), i + 1);
        if !(i < end < s.len()) || includes(s.subrange(i + 1, end), '$') {
            None
        } else {
            plain_literals_from(s, end + 1, out.push(s.subrange(i + 1, end)))
        }
    } else if space(s[i]) || s[i] == ',' {
        plain_literals_from(s, i + 1, out)
    } else {
        None
    }
}

/// Literals separated by commas, and nothing else.
pub open spec fn plain_literals(inner: Seq<char>) -> Option<Seq<Seq<char>>> {
    match plain_literals_from(inner, 0, seq![]) {
        Some(list) if list.len() > 0 => Some(list),
        _ => None,
    }
}

/// Where the literal that opens before `i` closes.
fn literal_close(cs: &Vec<char>, i: usize, quote: char) -> (r: usize)
    requires
        i <= cs@.len(),
    ensures
        r == run_end(cs@, Class::Not(quote), i as int),
        i <= r <= cs@.len(),
{
    let mut end: usize = i;
    while end < cs.len() && cs[end] != quote
        invariant
            i <= end <= cs@.len(),
            run_end(cs@, Class::Not(quote), i as int) == run_end(
                cs@,
                Class::Not(quote),
                end as int,
            ),
        decreases cs@.len() - end,
    {
        end = end + 1;
    }
    end
}

/// Quoted literals separated by commas, and nothing else; `None` for anything
/// computed, an interpolated `$` included.
pub fn literals_only(inner: &str) -> (r: Option<Vec<String>>)
    ensures
        r.deep_view() == plain_literals(inner@),
{
    let cs = chars(inner);
    let mut out: Vec<String> = none_of();
    let mut i: usize = 0;
    while i < cs.len()
        invariant
            cs@ == inner@,
            i <= cs@.len(),
            plain_literals_from(inner@, 0, seq![]) == plain_literals_from(
                inner@,
                i as int,
                out.deep_view(),
            ),
        decreases cs@.len() - i,
    {
        let c: char = cs[i];
        if c == '\'' || c == '"' {
            let end: usize = literal_close(&cs, i + 1, c);
            let value = string_of(&cs, i + 1, end);
            if end >= cs.len() || has_char(value.as_str(), '$') {
                return None;
            }
            put(&mut out, value);
            i = end + 1;
        } else if is_space(c) || c == ',' {
            i = i + 1;
        } else {
            return None;
        }
    }
    if out.len() > 0 {
        Some(out)
    } else {
        None
    }
}

// ---- arguments -------------------------------------------------------------

/// The first place from `i` on that holds no white space.
pub open spec fn past_space(cs: Seq<char>, i: int) -> int
    decreases cs.len() - i,
{
    if 0 <= i < cs.len() && space(cs[i]) {
        past_space(cs, i + 1)
    } else {
        i
    }
}

/// The place past what follows a key: `:`, `=` (not `==`), or Kotlin's infix
/// `to`.
pub open spec fn past_separator(cs: Seq<char>, i: int) -> Option<int> {
    let k = past_space(cs, i);
    if k >= cs.len() {
        None
    } else if cs[k] == ':' {
        Some(k + 1)
    } else if cs[k] == '=' && !(k + 1 < cs.len() && cs[k + 1] == '=') {
        Some(k + 1)
    } else if cs[k] == 't' && k + 1 < cs.len() && cs[k + 1] == 'o' && !(k + 2 < cs.len()
        && unicode_alphanumeric(cs[k + 2])) {
        Some(k + 2)
    } else {
        None
    }
}

/// What follows a key: `:`, `=` (not `==`), or Kotlin's infix `to`. The index
/// just past it.
fn separator(cs: &Vec<char>, i: usize) -> (r: Option<usize>)
    requires
        i <= cs@.len(),
    ensures
        r is Some <==> past_separator(cs@, i as int) is Some,
        r matches Some(k) ==> i < k <= cs@.len() && past_separator(cs@, i as int) == Some(
            k as int,
        ),
{
    let n: usize = cs.len();
    let mut k: usize = i;
    while k < n && is_space(cs[k])
        invariant
            n == cs@.len(),
            i <= k <= n,
            past_space(cs@, i as int) == past_space(cs@, k as int),
        decreases n - k,
    {
        k = k + 1;
    }
    if k >= n {
        None
    } else if cs[k] == ':' {
        Some(k + 1)
    } else if cs[k] == '=' && !(n - k > 1 && cs[k + 1] == '=') {
        Some(k + 1)
    } else if cs[k] == 't' && n - k > 1 && cs[k + 1] == 'o' && !(n - k > 2
        && is_unicode_alphanumeric(cs[k + 2])) {
        Some(k + 2)
    } else {
        None
    }
}

/// A call's arguments: keys, and the literals after each.
pub type Segments = Seq<(Seq<char>, Seq<Seq<char>>)>;

/// The segments with one more literal in the last.
pub open spec fn with_literal(out: Segments, value: Seq<char>) -> Segments {
    if out.len() == 0 {
        out
    } else {
        out.update(out.len() - 1, (out.last().0, out.last().1.push(value)))
    }
}

/// The segments from `i` on, after those before.
pub open spec fn segments_from(s: Seq<char>, i: int, out: Segments) -> Option<Segments>
    decreases s.len() - i,
{
    if i < 0 || i >= s.len() {
        Some(out)
    } else if s[i] == '\'' || s[i] == '"' {
        let end = run_end(s, Class::Not(s[i]), i + 1);
        let value = s.subrange(i + 1, end);
        if !(i < end < s.len()) || includes(value, '$') {
            None
        } else {
            match past_separator(s, end + 1) {
                Some(next) => if end < next <= s.len() {
                    segments_from(s, next, out.push((value, seq![])))
                } else {
                    None
                },
                None => segments_from(s, end + 1, with_literal(out, value)),
            }
        }
    } else if unicode_alphanumeric(s[i]) || s[i] == '_' {
        let end = run_end(s, Class::Name, i);
        let word = s.subrange(i, end);
        if !(i < end <= s.len()) {
            None
        } else {
            match past_separator(s, end) {
                Some(next) if word != "to"@ => if end < next <= s.len() {
                    segments_from(s, next, out.push((word, seq![])))
                } else {
                    None
                },
                _ => segments_from(s, end, out),
            }
        }
    } else {
        segments_from(s, i + 1, out)
    }
}

/// A call's arguments as keys and the literals after each; those before any
/// key go under an empty one.
pub open spec fn segments_of(inner: Seq<char>) -> Option<Segments> {
    segments_from(inner, 0, seq![(seq![], seq![])])
}

fn add_literal(out: &mut Vec<(String, Vec<String>)>, value: String)
    ensures
        final(out).deep_view() == with_literal(old(out).deep_view(), value@),
{
    let ghost before = out.deep_view();
    match out.pop() {
        Some((key, mut list)) => {
            assert(before.last() == (key@, list.deep_view()));
            put(&mut list, value);
            let ghost changed = (key@, list.deep_view());
            out.push((key, list));
            assert(out.deep_view() =~= before.update(before.len() - 1, changed));
        },
        None => {
            assert(out.deep_view() =~= before);
        },
    }
}

fn name_close(cs: &Vec<char>, i: usize) -> (r: usize)
    requires
        i <= cs@.len(),
    ensures
        r == run_end(cs@, Class::Name, i as int),
        i <= r <= cs@.len(),
        i < cs@.len() && (unicode_alphanumeric(cs@[i as int]) || cs@[i as int] == '_') ==> i < r,
{
    let mut end: usize = i;
    while end < cs.len() && (is_unicode_alphanumeric(cs[end]) || cs[end] == '_')
        invariant
            i <= end <= cs@.len(),
            run_end(cs@, Class::Name, i as int) == run_end(cs@, Class::Name, end as int),
        decreases cs@.len() - end,
    {
        end = end + 1;
    }
    end
}

/// A call's arguments as `(key, literals)` runs: `dir: 'libs'` and
/// `"dir" to "libs"` give `("dir", ["libs"])`; literals before any key go
/// under `""`. `None` when a literal is interpolated or unclosed.
pub fn segments(inner: &str) -> (r: Option<Vec<(String, Vec<String>)>>)
    ensures
        r.deep_view() == segments_of(inner@),
{
    let cs = chars(inner);
    let mut out: Vec<(String, Vec<String>)> = one_of((String::new(), none_of()));
    assert(out.deep_view() =~= seq![(seq![], seq![])]);
    let mut i: usize = 0;
    while i < cs.len()
        invariant
            cs@ == inner@,
            i <= cs@.len(),
            segments_of(inner@) == segments_from(inner@, i as int, out.deep_view()),
        decreases cs@.len() - i,
    {
        let c: char = cs[i];
        if c == '\'' || c == '"' {
            let end: usize = literal_close(&cs, i + 1, c);
            let value = string_of(&cs, i + 1, end);
            if end >= cs.len() || has_char(value.as_str(), '$') {
                return None;
            }
            match separator(&cs, end + 1) {
                Some(next) => {
                    put(&mut out, (value, none_of()));
                    i = next;
                },
                None => {
                    add_literal(&mut out, value);
                    i = end + 1;
                },
            }
        } else if is_unicode_alphanumeric(c) || c == '_' {
            let end: usize = name_close(&cs, i);
            let word = string_of(&cs, i, end);
            match separator(&cs, end) {
                Some(next) => {
                    if same(word.as_str(), "to") {
                        i = end;
                    } else {
                        put(&mut out, (word, none_of()));
                        i = next;
                    }
                },
                None => {
                    i = end;
                },
            }
        } else {
            i = i + 1;
        }
    }
    Some(out)
}

// ---- jars ------------------------------------------------------------------

/// A path written in the build leaves the project.
pub open spec fn outside_project(path: Seq<char>) -> bool {
    path.len() == 0 || starts(path, "/"@) || includes(path, ':') || pieces(path, '/').contains(
        ".."@,
    )
}

/// Whether a path written in the build leaves the project.
pub fn escapes(path: &str) -> (r: bool)
    ensures
        r == outside_project(path@),
{
    if path.is_empty() || starts_with(path, "/") || has_char(path, ':') {
        return true;
    }
    let parts = split(path, '/');
    let ghost all = parts.deep_view();
    let mut i: usize = 0;
    while i < parts.len()
        invariant
            all == parts.deep_view(),
            all == pieces(path@, '/'),
            i <= parts@.len(),
            forall|j: int| 0 <= j < i ==> all[j] != ".."@,
        decreases parts@.len() - i,
    {
        assert(all[i as int] == parts@[i as int]@);
        if same(parts[i], "..") {
            assert(pieces(path@, '/').contains(".."@)) by {
                assert(all[i as int] == ".."@);
            }
            return true;
        }
        i = i + 1;
    }
    false
}

/// A character that a manifest key has.
pub open spec fn key_char(c: char) -> bool {
    alphanumeric(c) || c == '-' || c == '_' || c == '.'
}

/// A file's name without its extension.
pub open spec fn jar_stem(path: Seq<char>) -> Seq<char> {
    let file = match cut_last(path, "/"@) {
        Some((_, f)) => f,
        None => path,
    };
    match before_suffix(file, ".jar"@) {
        Some(s) => s,
        None => match before_suffix(file, ".JAR"@) {
            Some(s) => s,
            None => file,
        },
    }
}

/// `s` with `-` for what a manifest key does not have.
pub open spec fn key_text(s: Seq<char>) -> Seq<char> {
    Seq::new(
        s.len(),
        |i: int|
            if key_char(s[i]) {
                s[i]
            } else {
                '-'
            },
    )
}

/// The file's name, as a manifest key.
pub open spec fn jar_key(path: Seq<char>) -> Seq<char> {
    let name = key_text(jar_stem(path));
    if name.len() == 0 {
        "local"@
    } else {
        name
    }
}

/// `libs/ojdbc11.jar` → `ojdbc11`: the file's name, as a manifest key.
pub fn jar_name(path: &str) -> (r: String)
    ensures
        r@ == jar_key(path@),
{
    let file = match rsplit_once(path, "/") {
        Some((_, f)) => f,
        None => path,
    };
    let stem = match strip_suffix(file, ".jar") {
        Some(s) => s,
        None => match strip_suffix(file, ".JAR") {
            Some(s) => s,
            None => file,
        },
    };
    let cs = chars(stem);
    if cs.len() == 0 {
        return "local".to_owned();
    }
    let mut out = String::new();
    let mut i: usize = 0;
    while i < cs.len()
        invariant
            cs@ == stem@,
            i <= cs@.len(),
            out@ =~= key_text(stem@).take(i as int),
        decreases cs@.len() - i,
    {
        let c: char = cs[i];
        if is_alphanumeric(c) || c == '-' || c == '_' || c == '.' {
            out.push(c);
        } else {
            out.push('-');
        }
        i = i + 1;
    }
    assert(key_text(stem@).take(i as int) =~= key_text(stem@));
    out
}

/// What is told of a line.
pub open spec fn of_line(line: Seq<char>, why: Seq<char>) -> Seq<char> {
    "`"@ + line + "` — "@ + why
}

/// One jar of a `files(...)`, and the report.
pub open spec fn named_jar(
    line: Seq<char>,
    raw: Seq<char>,
    files: FilesModel,
    told: ReportModel,
) -> (Option<DependencyModel>, ReportModel) {
    let path = sans_all(replaced(raw, "\\"@, "/"@), "./"@);
    if outside_project(path) {
        (
            None,
            told.with_skipped(
                of_line(
                    line,
                    "`"@ + raw + "` is outside the project; jrs.toml names jars inside it"@,
                ),
            ),
        )
    } else if files.has_dir(path) {
        (
            None,
            told.with_skipped(
                of_line(
                    line,
                    "`"@ + raw + "` is a directory; jrs takes jars, one entry per jar"@,
                ),
            ),
        )
    } else {
        (
            Some(local_jar(jar_key(path), path)),
            if files.has_file(path) {
                told
            } else {
                told.with_review(
                    of_line(
                        line,
                        "`"@ + path + "` is not there now; jrs builds fail until it is"@,
                    ),
                )
            },
        )
    }
}

/// One jar of a `files(...)`, as a local jar, unless it cannot be one.
fn read_jar(line: &str, raw: &str, files: &Files, report: &mut Report) -> (r: Option<Dependency>)
    ensures
        (r.deep_view(), final(report).deep_view()) == named_jar(
            line@,
            raw@,
            files.deep_view(),
            old(report).deep_view(),
        ),
{
    proof {
        reveal_strlit("\\");
        reveal_strlit("./");
    }
    let slashed = replace(raw, "\\", "/");
    let path = strip_all(slashed.as_str(), "./");
    if escapes(path) {
        let why = cat3("`", raw, "` is outside the project; jrs.toml names jars inside it");
        report.skipped(cat4("`", line, "` — ", why.as_str()));
        return None;
    }
    if files.has_dir(path) {
        let why = cat3("`", raw, "` is a directory; jrs takes jars, one entry per jar");
        report.skipped(cat4("`", line, "` — ", why.as_str()));
        return None;
    }
    if !files.has_file(path) {
        let why = cat3("`", path, "` is not there now; jrs builds fail until it is");
        report.review(cat4("`", line, "` — ", why.as_str()));
    }
    Some(Dependency::local(jar_name(path).as_str(), path))
}

/// The jars from the `i`th on, after those before, and the report.
pub open spec fn named_jars_from(
    line: Seq<char>,
    paths: Seq<Seq<char>>,
    i: int,
    files: FilesModel,
    out: Seq<DependencyModel>,
    told: ReportModel,
) -> (Seq<DependencyModel>, ReportModel)
    decreases paths.len() - i,
{
    if i < 0 || i >= paths.len() {
        (out, told)
    } else {
        match named_jar(line, paths[i], files, told) {
            (Some(d), told) => named_jars_from(line, paths, i + 1, files, out.push(d), told),
            (None, told) => named_jars_from(line, paths, i + 1, files, out, told),
        }
    }
}

// ---- file trees ------------------------------------------------------------

/// A path to order by: what is in a directory comes before what only starts
/// like it.
pub open spec fn path_key(path: Seq<char>) -> Seq<char> {
    Seq::new(
        path.len(),
        |i: int|
            if path[i] == '/' {
                '\u{0}'
            } else {
                path[i]
            },
    )
}

fn write_path_key(path: &str) -> (r: String)
    ensures
        r@ == path_key(path@),
{
    let cs = chars(path);
    let mut out = String::new();
    let mut i: usize = 0;
    while i < cs.len()
        invariant
            cs@ == path@,
            i <= cs@.len(),
            out@ =~= path_key(path@).take(i as int),
        decreases cs@.len() - i,
    {
        if cs[i] == '/' {
            out.push('\u{0}');
        } else {
            out.push(cs[i]);
        }
        i = i + 1;
    }
    assert(path_key(path@).take(i as int) =~= path_key(path@));
    out
}

/// What the paths are ordered by.
pub open spec fn path_keys(list: Seq<Seq<char>>) -> Seq<Seq<char>> {
    Seq::new(list.len(), |i: int| path_key(list[i]))
}

/// The paths with one more at its place.
pub open spec fn with_path(list: Seq<Seq<char>>, path: Seq<char>) -> Seq<Seq<char>> {
    list.insert(slot(path_keys(list), path_key(path), 0), path)
}

pub fn add_path(list: &mut Vec<String>, path: String)
    ensures
        final(list).deep_view() == with_path(old(list).deep_view(), path@),
{
    let ghost all = list.deep_view();
    let ghost keys = path_keys(all);
    let key = write_path_key(path.as_str());
    let mut k: usize = 0;
    while k < list.len() && is_before(write_path_key(list[k].as_str()).as_str(), key.as_str())
        invariant
            list == old(list),
            all == list.deep_view(),
            keys == path_keys(all),
            key@ == path_key(path@),
            k <= list@.len(),
            slot(keys, key@, 0) == slot(keys, key@, k as int),
        decreases list@.len() - k,
    {
        assert(keys[k as int] == path_key(list@[k as int]@));
        k = k + 1;
    }
    if k < list.len() {
        assert(keys[k as int] == path_key(list@[k as int]@));
    }
    let ghost added = path@;
    list.insert(k, path);
    assert(list.deep_view() =~= all.insert(k as int, added));
}

/// What follows the directory in a path below it.
pub open spec fn below(dir: Seq<char>, file: Seq<char>) -> Option<Seq<char>> {
    if dir == "."@ {
        Some(file)
    } else {
        after_prefix(file, dir + "/"@)
    }
}

/// The file is a jar in the directory, or where `deep` below it.
pub open spec fn jar_below(dir: Seq<char>, deep: bool, file: Seq<char>) -> Option<Seq<char>> {
    match below(dir, file) {
        Some(rest) => if (deep || !includes(rest, '/')) && ends(small(rest), ".jar"@) {
            Some(rest)
        } else {
            None
        },
        None => None,
    }
}

fn find_jar_below<'a>(dir: &str, deep: bool, file: &'a str) -> (r: Option<&'a str>)
    ensures
        r.deep_view() == jar_below(dir@, deep, file@),
{
    let rest = if same(dir, ".") {
        Some(file)
    } else {
        strip_prefix(file, cat2(dir, "/").as_str())
    };
    match rest {
        Some(rest) => if (deep || !has_char(rest, '/')) && ends_with(
            to_small(rest).as_str(),
            ".jar",
        ) {
            Some(rest)
        } else {
            None
        },
        None => None,
    }
}

/// The jars among the files from `i` on that are in the directory, or where
/// `deep` below it, as `prefix/<name>` paths in order, with those before.
pub open spec fn jars_from(
    files: Seq<Seq<char>>,
    dir: Seq<char>,
    deep: bool,
    prefix: Seq<char>,
    i: int,
    out: Seq<Seq<char>>,
) -> Seq<Seq<char>>
    decreases files.len() - i,
{
    if i < 0 || i >= files.len() {
        out
    } else {
        match jar_below(dir, deep, files[i]) {
            Some(rest) => jars_from(
                files,
                dir,
                deep,
                prefix,
                i + 1,
                with_path(out, prefix + "/"@ + rest),
            ),
            None => jars_from(files, dir, deep, prefix, i + 1, out),
        }
    }
}

/// The jars in the directory, or where `deep` below it, as `prefix/<name>`
/// paths in order.
pub open spec fn jars_below(files: FilesModel, prefix: Seq<char>, deep: bool) -> Seq<Seq<char>> {
    jars_from(files.files, tidy("."@, prefix), deep, prefix, 0, seq![])
}

/// The jars in `dir`, in sorted order, as `dir/<name>` paths.
pub fn jars_in(files: &Files, dir: &str, recursive: bool) -> (r: Vec<String>)
    ensures
        r.deep_view() == jars_below(files.deep_view(), dir@, recursive),
{
    let at = join_tidy(".", dir);
    let ghost all = files.files.deep_view();
    let mut out: Vec<String> = none_of();
    let mut i: usize = 0;
    while i < files.files.len()
        invariant
            all == files.files.deep_view(),
            at@ == tidy("."@, dir@),
            i <= files.files@.len(),
            jars_from(all, at@, recursive, dir@, 0, seq![]) == jars_from(
                all,
                at@,
                recursive,
                dir@,
                i as int,
                out.deep_view(),
            ),
        decreases files.files@.len() - i,
    {
        assert(all[i as int] == files.files@[i as int]@);
        if let Some(rest) = find_jar_below(at.as_str(), recursive, files.files[i].as_str()) {
            add_path(&mut out, cat3(dir, "/", rest));
        }
        i = i + 1;
    }
    out
}

/// What the arguments of a `fileTree` say.
pub struct TreeArgs {
    pub dir: Option<String>,
    pub includes: Vec<String>,
}

/// What the arguments of a `fileTree` say.
pub struct TreeArgsModel {
    pub dir: Option<Seq<char>>,
    pub includes: Seq<Seq<char>>,
}

impl DeepView for TreeArgs {
    type V = TreeArgsModel;

    open spec fn deep_view(&self) -> TreeArgsModel {
        TreeArgsModel { dir: self.dir.deep_view(), includes: self.includes.deep_view() }
    }
}

/// What the segments from the `i`th on say, after what those before say, or
/// the argument that jrs does not read.
pub open spec fn tree_args_from(segments: Segments, i: int, a: TreeArgsModel) -> Result<
    TreeArgsModel,
    Seq<char>,
>
    decreases segments.len() - i,
{
    if i < 0 || i >= segments.len() {
        Ok(a)
    } else {
        let (key, literals) = segments[i];
        if (key == ""@ || key == "dir"@) && literals.len() == 1 && a.dir is None {
            tree_args_from(segments, i + 1, TreeArgsModel { dir: Some(literals[0]), ..a })
        } else if key == ""@ && literals.len() == 0 {
            tree_args_from(segments, i + 1, a)
        } else if key == "include"@ || key == "includes"@ {
            tree_args_from(
                segments,
                i + 1,
                TreeArgsModel { includes: a.includes + literals, ..a },
            )
        } else if key == ""@ {
            Err("arguments"@)
        } else {
            Err(key)
        }
    }
}

/// What the arguments of a `fileTree` say, or the one jrs does not read.
pub open spec fn tree_args(segments: Segments) -> Result<TreeArgsModel, Seq<char>> {
    tree_args_from(segments, 0, TreeArgsModel { dir: None, includes: seq![] })
}

fn read_tree_args(list: &Vec<(String, Vec<String>)>) -> (r: Result<TreeArgs, String>)
    ensures
        crate::text::outcome(r) == tree_args(list.deep_view()),
{
    let ghost all = list.deep_view();
    let mut a = TreeArgs { dir: None, includes: none_of() };
    let mut i: usize = 0;
    while i < list.len()
        invariant
            all == list.deep_view(),
            i <= list@.len(),
            tree_args(all) == tree_args_from(all, i as int, a.deep_view()),
        decreases list@.len() - i,
    {
        let key = list[i].0.as_str();
        let literals = &list[i].1;
        assert(all[i as int] == (key@, literals.deep_view()));
        if (same(key, "") || same(key, "dir")) && literals.len() == 1 && a.dir.is_none() {
            assert(literals.deep_view()[0] == literals@[0]@);
            a.dir = Some(literals[0].clone());
        } else if same(key, "") && literals.len() == 0 {
        } else if same(key, "include") || same(key, "includes") {
            put_all(&mut a.includes, literals.duplicate());
        } else if same(key, "") {
            return Err("arguments".to_owned());
        } else {
            return Err(key.to_owned());
        }
        i = i + 1;
    }
    Ok(a)
}

/// The patterns name jars alone.
pub open spec fn jar_patterns(patterns: Seq<Seq<char>>) -> bool {
    forall|i: int|
        0 <= i < patterns.len() ==> #[trigger] patterns[i] == "*.jar"@ || patterns[i]
            == "**/*.jar"@
}

fn are_jar_patterns(patterns: &Vec<String>) -> (r: bool)
    ensures
        r == jar_patterns(patterns.deep_view()),
{
    let ghost all = patterns.deep_view();
    let mut i: usize = 0;
    while i < patterns.len()
        invariant
            all == patterns.deep_view(),
            i <= patterns@.len(),
            forall|j: int|
                0 <= j < i ==> #[trigger] all[j] == "*.jar"@ || all[j] == "**/*.jar"@,
        decreases patterns@.len() - i,
    {
        assert(all[i as int] == patterns@[i as int]@);
        if !(same(patterns[i].as_str(), "*.jar") || same(patterns[i].as_str(), "**/*.jar")) {
            assert(all[i as int] != "*.jar"@ && all[i as int] != "**/*.jar"@);
            return false;
        }
        i = i + 1;
    }
    true
}

/// Ant patterns: `*.jar` is the directory itself, `**/*.jar` everything under
/// it. With no include, Gradle takes every file; jrs takes the jars.
pub open spec fn recursion_of(includes: Seq<Seq<char>>) -> Option<bool> {
    if includes.len() == 0 {
        Some(true)
    } else if jar_patterns(includes) {
        Some(includes.contains("**/*.jar"@))
    } else {
        None
    }
}

/// The directory and whether to look below it, or why a `fileTree` cannot be
/// read.
pub open spec fn tree_of(inner: Seq<char>, rest: Seq<char>) -> Result<(Seq<char>, bool), Seq<char>> {
    if includes(rest, '{') {
        Err("a `fileTree` closure, which jrs cannot evaluate without running Gradle"@)
    } else {
        match segments_of(inner) {
            None => Err("a `fileTree` built from a variable or an expression"@),
            Some(segments) => match tree_args(segments) {
                Err(what) => Err(
                    "its `"@ + what
                        + "` is more than jrs reads of a `fileTree` (a `dir` and `*.jar` includes)"@,
                ),
                Ok(a) => match a.dir {
                    None => Err("a `fileTree` without a literal `dir`"@),
                    Some(dir) => match recursion_of(a.includes) {
                        None => Err("an `include` pattern other than `*.jar` or `**/*.jar`"@),
                        Some(deep) => Ok(
                            (sans_tail(replaced(dir, "\\"@, "/"@), Class::One('/')), deep),
                        ),
                    },
                },
            },
        }
    }
}

fn read_tree(inner: &str, rest: &str) -> (r: Result<(String, bool), String>)
    ensures
        crate::text::outcome(r) == tree_of(inner@, rest@),
{
    if has_char(rest, '{') {
        return Err(
            "a `fileTree` closure, which jrs cannot evaluate without running Gradle".to_owned(),
        );
    }
    let Some(list) = segments(inner) else {
        return Err("a `fileTree` built from a variable or an expression".to_owned());
    };
    let a = match read_tree_args(&list) {
        Ok(a) => a,
        Err(what) => {
            return Err(
                cat3(
                    "its `",
                    what.as_str(),
                    "` is more than jrs reads of a `fileTree` (a `dir` and `*.jar` includes)",
                ),
            );
        },
    };
    let Some(dir) = a.dir else {
        return Err("a `fileTree` without a literal `dir`".to_owned());
    };
    let deep = if a.includes.len() == 0 {
        true
    } else if are_jar_patterns(&a.includes) {
        listed(&a.includes, "**/*.jar")
    } else {
        return Err("an `include` pattern other than `*.jar` or `**/*.jar`".to_owned());
    };
    proof {
        reveal_strlit("\\");
    }
    let slashed = replace(dir.as_str(), "\\", "/");
    Ok((drop_run(slashed.as_str(), Class::One('/')).to_owned(), deep))
}

/// The paths as local jars.
pub open spec fn local_jars(paths: Seq<Seq<char>>) -> Seq<DependencyModel> {
    Seq::new(paths.len(), |i: int| local_jar(jar_key(paths[i]), paths[i]))
}

fn make_local_jars(paths: &Vec<String>) -> (r: Vec<Dependency>)
    ensures
        r.deep_view() == local_jars(paths.deep_view()),
{
    let ghost all = paths.deep_view();
    let mut out: Vec<Dependency> = none_of();
    let mut i: usize = 0;
    while i < paths.len()
        invariant
            all == paths.deep_view(),
            i <= paths@.len(),
            out.deep_view() =~= local_jars(all).take(i as int),
        decreases paths@.len() - i,
    {
        let p = paths[i].as_str();
        put(&mut out, Dependency::local(jar_name(p).as_str(), p));
        i = i + 1;
    }
    assert(local_jars(all).take(i as int) =~= local_jars(all));
    out
}

/// The jars of a `fileTree`, and the report.
pub open spec fn file_tree_of(
    line: Seq<char>,
    inner: Seq<char>,
    rest: Seq<char>,
    files: FilesModel,
    told: ReportModel,
) -> (Seq<DependencyModel>, ReportModel) {
    match tree_of(inner, rest) {
        Err(why) => (
            seq![],
            told.with_skipped(of_line(line, why + "; list the jars with `files(...)`"@)),
        ),
        Ok((dir, deep)) => if outside_project(dir) {
            (
                seq![],
                told.with_skipped(
                    of_line(
                        line,
                        "`"@ + dir + "` is outside the project; jrs.toml names jars inside it"@,
                    ),
                ),
            )
        } else if !files.has_dir(dir) {
            (
                seq![],
                told.with_skipped(
                    of_line(
                        line,
                        "`"@ + dir + "` does not exist, so there are no jars to list"@,
                    ),
                ),
            )
        } else {
            let paths = jars_below(files, dir, deep);
            if paths.len() == 0 {
                (
                    seq![],
                    told.with_skipped(of_line(line, "`"@ + dir + "` holds no jars"@)),
                )
            } else {
                (
                    local_jars(paths),
                    told.with_review(
                        of_line(
                            line,
                            "expanded to the "@ + decimal(paths.len()) + " jars in "@ + dir
                                + "/ as it is now; a jar added there later needs an entry of its own in jrs.toml"@,
                        ),
                    ),
                )
            }
        },
    }
}

/// `fileTree(dir: 'libs', include: ['*.jar'])`, `fileTree('libs')`, or the
/// Kotlin DSL's `fileTree(mapOf("dir" to "libs", "include" to listOf("*.jar")))`.
pub fn file_tree(line: &str, inner: &str, rest: &str, files: &Files, report: &mut Report) -> (r: Vec<
    Dependency,
>)
    ensures
        (r.deep_view(), final(report).deep_view()) == file_tree_of(
            line@,
            inner@,
            rest@,
            files.deep_view(),
            old(report).deep_view(),
        ),
{
    let (dir, deep) = match read_tree(inner, rest) {
        Ok(x) => x,
        Err(why) => {
            let what = cat2(why.as_str(), "; list the jars with `files(...)`");
            report.skipped(cat4("`", line, "` — ", what.as_str()));
            return none_of();
        },
    };
    let d = dir.as_str();
    if escapes(d) {
        let why = cat3("`", d, "` is outside the project; jrs.toml names jars inside it");
        report.skipped(cat4("`", line, "` — ", why.as_str()));
        return none_of();
    }
    if !files.has_dir(d) {
        let why = cat3("`", d, "` does not exist, so there are no jars to list");
        report.skipped(cat4("`", line, "` — ", why.as_str()));
        return none_of();
    }
    let paths = jars_in(files, d, deep);
    if paths.len() == 0 {
        let why = cat3("`", d, "` holds no jars");
        report.skipped(cat4("`", line, "` — ", why.as_str()));
        return none_of();
    }
    let what = cat5(
        "expanded to the ",
        show(paths.len() as u128).as_str(),
        " jars in ",
        d,
        "/ as it is now; a jar added there later needs an entry of its own in jrs.toml",
    );
    report.review(cat4("`", line, "` — ", what.as_str()));
    make_local_jars(&paths)
}

/// The local jars that a dependency line names, and the report.
pub open spec fn files_read(line: Seq<char>, files: FilesModel, told: ReportModel) -> (
    Option<Seq<DependencyModel>>,
    ReportModel,
) {
    match call_from(line, "fileTree("@, 0) {
        Some((inner, rest)) => {
            let (jars, told) = file_tree_of(line, inner, rest, files, told);
            (Some(jars), told)
        },
        None => match call_from(line, "files("@, 0) {
            None => (None, told),
            Some((inner, _)) => match plain_literals(inner) {
                None => (
                    Some(seq![]),
                    told.with_skipped(
                        of_line(
                            line,
                            "`files(...)` built from a variable or an expression, which jrs cannot evaluate without running Gradle"@,
                        ),
                    ),
                ),
                Some(paths) => {
                    let (jars, told) = named_jars_from(line, paths, 0, files, seq![], told);
                    (Some(jars), told)
                },
            },
        },
    }
}

/// The local jars a dependency line names, when it is a `files(...)` or
/// `fileTree(...)` one: `None` for any other line, and an empty list when it
/// is one but nothing in it could be translated, which is then reported.
pub fn read(line: &str, files: &Files, report: &mut Report) -> (r: Option<Vec<Dependency>>)
    ensures
        (r.deep_view(), final(report).deep_view()) == files_read(
            line@,
            files.deep_view(),
            old(report).deep_view(),
        ),
{
    proof {
        reveal_strlit("fileTree(");
        reveal_strlit("files(");
    }
    if let Some((inner, rest)) = call_arguments(line, "fileTree(") {
        return Some(file_tree(line, inner, rest, files, report));
    }
    let Some((inner, _)) = call_arguments(line, "files(") else {
        return None;
    };
    let Some(paths) = literals_only(inner) else {
        report.skipped(
            cat4(
                "`",
                line,
                "` — ",
                "`files(...)` built from a variable or an expression, which jrs cannot evaluate without running Gradle",
            ),
        );
        return Some(none_of());
    };
    let ghost all = paths.deep_view();
    let ghost fs = files.deep_view();
    let ghost start = report.deep_view();
    let mut out: Vec<Dependency> = none_of();
    let mut i: usize = 0;
    while i < paths.len()
        invariant
            all == paths.deep_view(),
            fs == files.deep_view(),
            i <= paths@.len(),
            named_jars_from(line@, all, 0, fs, seq![], start) == named_jars_from(
                line@,
                all,
                i as int,
                fs,
                out.deep_view(),
                report.deep_view(),
            ),
        decreases paths@.len() - i,
    {
        assert(all[i as int] == paths@[i as int]@);
        if let Some(d) = read_jar(line, paths[i].as_str(), files, report) {
            put(&mut out, d);
        }
        i = i + 1;
    }
    Some(out)
}

// ---- what a tree holds -----------------------------------------------------

proof fn lemma_with_path(list: Seq<Seq<char>>, path: Seq<char>, x: Seq<char>)
    ensures
        with_path(list, path).contains(x) <==> list.contains(x) || x == path,
{
    let at = slot(path_keys(list), path_key(path), 0);
    lemma_slot_within(path_keys(list), path_key(path), 0);
    let more = list.insert(at, path);
    assert(more[at] == path);
    if list.contains(x) {
        let k = choose|k: int| 0 <= k < list.len() && list[k] == x;
        if k < at {
            assert(more[k] == x);
        } else {
            assert(more[k + 1] == x);
        }
    }
    if more.contains(x) && x != path {
        let k = choose|k: int| 0 <= k < more.len() && more[k] == x;
        if k < at {
            assert(list[k] == x);
        } else {
            assert(list[k - 1] == x);
        }
    }
}

proof fn lemma_slot_within(list: Seq<Seq<char>>, s: Seq<char>, i: int)
    requires
        0 <= i <= list.len(),
    ensures
        i <= slot(list, s, i) <= list.len(),
    decreases list.len() - i,
{
    if i < list.len() {
        lemma_slot_within(list, s, i + 1);
    }
}

/// The path of a jar of the tree, by its file.
pub open spec fn jar_of(
    file: Seq<char>,
    dir: Seq<char>,
    deep: bool,
    prefix: Seq<char>,
    path: Seq<char>,
) -> bool {
    jar_below(dir, deep, file) matches Some(rest) && path == prefix + "/"@ + rest
}

proof fn lemma_jars(
    files: Seq<Seq<char>>,
    dir: Seq<char>,
    deep: bool,
    prefix: Seq<char>,
    i: int,
    out: Seq<Seq<char>>,
    path: Seq<char>,
)
    requires
        0 <= i <= files.len(),
    ensures
        jars_from(files, dir, deep, prefix, i, out).contains(path) <==> out.contains(path)
            || exists|k: int|
            i <= k < files.len() && jar_of(#[trigger] files[k], dir, deep, prefix, path),
    decreases files.len() - i,
{
    if i < files.len() {
        match jar_below(dir, deep, files[i]) {
            Some(rest) => {
                let found = prefix + "/"@ + rest;
                lemma_with_path(out, found, path);
                lemma_jars(files, dir, deep, prefix, i + 1, with_path(out, found), path);
                if path == found {
                    assert(jar_of(files[i], dir, deep, prefix, path));
                }
            },
            None => {
                lemma_jars(files, dir, deep, prefix, i + 1, out, path);
            },
        }
    }
}

/// A tree lists the jars of its directory, and nothing else.
pub proof fn trees_list_their_jars(
    files: FilesModel,
    prefix: Seq<char>,
    deep: bool,
    path: Seq<char>,
)
    ensures
        jars_below(files, prefix, deep).contains(path) <==> exists|k: int|
            0 <= k < files.files.len() && jar_of(
                #[trigger] files.files[k],
                tidy("."@, prefix),
                deep,
                prefix,
                path,
            ),
{
    lemma_jars(files.files, tidy("."@, prefix), deep, prefix, 0, seq![], path);
}

proof fn lemma_named_jars(
    line: Seq<char>,
    paths: Seq<Seq<char>>,
    i: int,
    files: FilesModel,
    out: Seq<DependencyModel>,
    told: ReportModel,
)
    requires
        0 <= i <= paths.len(),
    ensures
        ({
            let (jars, said) = named_jars_from(line, paths, i, files, out, told);
            said.count() + jars.len() >= told.count() + out.len() + paths.len() - i && said.count()
                >= told.count()
        }),
    decreases paths.len() - i,
{
    if i < paths.len() {
        let (jar, said) = named_jar(line, paths[i], files, told);
        match jar {
            Some(d) => lemma_named_jars(line, paths, i + 1, files, out.push(d), said),
            None => lemma_named_jars(line, paths, i + 1, files, out, said),
        }
    }
}

/// A call that names files gives a jar, or the report says more.
pub proof fn named_files_are_told(line: Seq<char>, files: FilesModel, told: ReportModel)
    ensures
        ({
            let (jars, said) = files_read(line, files, told);
            &&& said.count() >= told.count()
            &&& jars is None ==> said == told
            &&& jars matches Some(jars) ==> jars.len() > 0 || said.count() > told.count()
        }),
{
    if let Some((inner, _)) = call_from(line, "files("@, 0) {
        if let Some(paths) = plain_literals(inner) {
            lemma_named_jars(line, paths, 0, files, seq![], told);
        }
    }
}

} // verus!
