//! Gradle's `repositories { }` → `[repositories]`, with what `content { }`
//! and `exclusiveContent { }` say about groups turned into `groups`.
//!
//! jrs's `groups` are always exclusive: a group a repository claims is looked
//! up nowhere else. That is exactly what `exclusiveContent` means. A plain
//! `content { includeGroup }` is weaker in Gradle, which still asks the other
//! repositories for those groups, so its translation is flagged for review.
//! Only group filters translate; module, version and exclude filters are
//! reported.

use crate::chars::{alphanumeric, is_alphanumeric};
use crate::dependency::{
    good_pattern, open_repository, valid_group_pattern, CENTRAL_NAME, CENTRAL_URL, Repository,
    RepositoryModel,
};
use crate::fresh::{fresh, fresh_name};
use crate::gradle_generated::{add_each, with_each};
use crate::gradle_text::{
    block_lines, deeper, depth_after, first_of, first_quoted, first_word, leading_word, literals_of,
    name_of_url, quoted, repository_name, top_lines,
};
use crate::manifest::{Manifest, ManifestModel};
use crate::report::{Report, ReportModel};
use crate::text::{
    before_suffix, cat2, cat3, cat5, chars, contains, cut, drop_run, join, joined, left, none_of,
    one_of, parts_of, put, put_all, replace, replaced, same, sans_prefix, sans_suffix, sans_tail,
    split_by, split_once, starts, starts_with, strip_suffix, trim, trim_start, trimmed, within,
    without_prefix, without_suffix, Class,
};
use vstd::prelude::*;

verus! {

// ---- regular expressions ---------------------------------------------------

/// A part of a group's name, with nothing of a regular expression in it.
pub open spec fn group_part(s: Seq<char>) -> bool {
    s.len() > 0 && forall|i: int|
        0 <= i < s.len() ==> alphanumeric(#[trigger] s[i]) || s[i] == '-' || s[i] == '_'
}

fn is_group_part(s: &str) -> (r: bool)
    ensures
        r == group_part(s@),
{
    let cs = chars(s);
    if cs.len() == 0 {
        return false;
    }
    let mut i: usize = 0;
    while i < cs.len()
        invariant
            cs@ == s@,
            i <= cs@.len(),
            forall|j: int|
                0 <= j < i ==> alphanumeric(#[trigger] s@[j]) || s@[j] == '-' || s@[j] == '_',
        decreases cs@.len() - i,
    {
        let c: char = cs[i];
        if !(is_alphanumeric(c) || c == '-' || c == '_') {
            assert(!alphanumeric(s@[i as int]));
            return false;
        }
        i = i + 1;
    }
    true
}

/// Every dot is escaped and nothing else is regex syntax.
pub open spec fn escaped_group(s: Seq<char>) -> bool
    decreases s.len(),
{
    match cut(s, "\\."@) {
        None => group_part(s),
        Some((a, b)) => group_part(a) && b.len() < s.len() && escaped_group(b),
    }
}

/// The group that an escaped one names.
pub open spec fn group_of(escaped: Seq<char>) -> Option<Seq<char>> {
    if escaped_group(escaped) {
        Some(replaced(escaped, "\\."@, "."@))
    } else {
        None
    }
}

/// `com\.acme` → `com.acme`, when every dot is escaped and nothing else is
/// regex syntax.
pub fn literal_group(escaped: &str) -> (r: Option<String>)
    ensures
        r.deep_view() == group_of(escaped@),
{
    proof {
        reveal_strlit("\\.");
    }
    let mut rest: &str = escaped;
    loop
        invariant
            "\\."@.len() == 2,
            escaped_group(escaped@) == escaped_group(rest@),
        decreases rest@.len(),
    {
        match split_once(rest, "\\.") {
            None => {
                return if is_group_part(rest) {
                    Some(replace(escaped, "\\.", "."))
                } else {
                    None
                };
            },
            Some((a, b)) => {
                proof {
                    crate::text::lemma_first_at(rest@, "\\."@, 0);
                }
                if !is_group_part(a) {
                    return None;
                }
                rest = b;
            },
        }
    }
}

/// The group and those under it.
pub open spec fn group_and_below(g: Seq<char>) -> Seq<Seq<char>> {
    seq![g, g + ".*"@]
}

/// The groups that a regular expression names, and whether it named more.
pub open spec fn regex_groups(raw: Seq<char>) -> Option<(Seq<Seq<char>>, bool)> {
    let r = sans_suffix(sans_prefix(replaced(raw, "\\\\"@, "\\"@), "^"@), "$"@);
    match before_suffix(r, "(\\..*)?"@) {
        Some(base) => match group_of(base) {
            Some(g) => Some((group_and_below(g), false)),
            None => None,
        },
        None => match before_suffix(r, "\\..*"@) {
            Some(base) => match group_of(base) {
                Some(g) => Some((seq![g + ".*"@], false)),
                None => None,
            },
            None => match before_suffix(r, ".*"@) {
                Some(base) => match group_of(base) {
                    Some(g) => Some((group_and_below(g), true)),
                    None => None,
                },
                None => match group_of(r) {
                    Some(g) => Some((seq![g], false)),
                    None => None,
                },
            },
        },
    }
}

fn list_group_and_below(g: String) -> (r: Vec<String>)
    ensures
        r.deep_view() == group_and_below(g@),
{
    let below = cat2(g.as_str(), ".*");
    let mut out = one_of(g);
    put(&mut out, below);
    assert(out.deep_view() =~= group_and_below(g@));
    out
}

/// `includeGroupByRegex` in the shapes that name whole groups: `com\.acme`,
/// `com\.acme\..*` (the groups under it), `com\.acme(\..*)?` (both), and
/// `com\.acme.*`, read as both but flagged, since it also matched `com.acmex`.
/// The flag is the second value.
pub fn groups_from_regex(raw: &str) -> (r: Option<(Vec<String>, bool)>)
    ensures
        r.deep_view() == regex_groups(raw@),
{
    proof {
        reveal_strlit("\\\\");
    }
    // Groovy and Kotlin string escapes: `\\.` in the source is the regex `\.`.
    let unescaped = replace(raw, "\\\\", "\\");
    let r = without_suffix(without_prefix(unescaped.as_str(), "^"), "$");
    if let Some(base) = strip_suffix(r, "(\\..*)?") {
        return match literal_group(base) {
            Some(g) => Some((list_group_and_below(g), false)),
            None => None,
        };
    }
    if let Some(base) = strip_suffix(r, "\\..*") {
        return match literal_group(base) {
            Some(g) => Some((one_of(cat2(g.as_str(), ".*")), false)),
            None => None,
        };
    }
    if let Some(base) = strip_suffix(r, ".*") {
        return match literal_group(base) {
            Some(g) => Some((list_group_and_below(g), true)),
            None => None,
        };
    }
    match literal_group(r) {
        Some(g) => Some((one_of(g), false)),
        None => None,
    }
}

// ---- filters ---------------------------------------------------------------

/// What a statement of a filter says.
pub enum Filter {
    /// It is none.
    Other,
    /// It names more or less than whole groups.
    Unread,
    /// The group patterns it includes, and whether it included more.
    Groups(Vec<String>, bool),
}

/// What a statement of a filter says.
pub enum FilterModel {
    Other,
    Unread,
    Groups(Seq<Seq<char>>, bool),
}

impl DeepView for Filter {
    type V = FilterModel;

    open spec fn deep_view(&self) -> FilterModel {
        match self {
            Filter::Other => FilterModel::Other,
            Filter::Unread => FilterModel::Unread,
            Filter::Groups(g, approx) => FilterModel::Groups(g.deep_view(), *approx),
        }
    }
}

/// The groups and those under each, from the `i`th on, after those before.
pub open spec fn with_below(values: Seq<Seq<char>>, i: int, out: Seq<Seq<char>>) -> Seq<Seq<char>>
    decreases values.len() - i,
{
    if i < 0 || i >= values.len() {
        out
    } else {
        with_below(values, i + 1, out.push(values[i]).push(values[i] + ".*"@))
    }
}

fn add_below(values: &Vec<String>) -> (r: Vec<String>)
    ensures
        r.deep_view() == with_below(values.deep_view(), 0, seq![]),
{
    let ghost all = values.deep_view();
    let mut out: Vec<String> = none_of();
    let mut i: usize = 0;
    while i < values.len()
        invariant
            all == values.deep_view(),
            i <= values@.len(),
            with_below(all, 0, seq![]) == with_below(all, i as int, out.deep_view()),
        decreases values@.len() - i,
    {
        assert(all[i as int] == values@[i as int]@);
        put(&mut out, values[i].clone());
        put(&mut out, cat2(values[i].as_str(), ".*"));
        i = i + 1;
    }
    out
}

/// What a statement of a filter says.
pub open spec fn filter_of(line: Seq<char>) -> FilterModel {
    match first_word(line) {
        None => FilterModel::Other,
        Some(word) => if word == "includeGroup"@ {
            FilterModel::Groups(literals_of(line), false)
        } else if word == "includeGroupAndSubgroups"@ {
            FilterModel::Groups(with_below(literals_of(line), 0, seq![]), false)
        } else if word == "includeGroupByRegex"@ {
            match first_of(line) {
                Some(raw) => match regex_groups(raw) {
                    Some((groups, approx)) => FilterModel::Groups(groups, approx),
                    None => FilterModel::Unread,
                },
                None => FilterModel::Unread,
            }
        } else if starts(word, "include"@) || starts(word, "exclude"@) || word == "releasesOnly"@
            || word == "snapshotsOnly"@ || word == "onlyForConfigurations"@ || word
            == "notForConfigurations"@ {
            FilterModel::Unread
        } else {
            FilterModel::Other
        },
    }
}

fn read_filter(line: &str) -> (r: Filter)
    ensures
        r.deep_view() == filter_of(line@),
{
    let Some(word) = leading_word(line) else {
        return Filter::Other;
    };
    if same(word, "includeGroup") {
        Filter::Groups(quoted(line), false)
    } else if same(word, "includeGroupAndSubgroups") {
        Filter::Groups(add_below(&quoted(line)), false)
    } else if same(word, "includeGroupByRegex") {
        match first_quoted(line) {
            Some(raw) => match groups_from_regex(raw.as_str()) {
                Some((groups, approx)) => Filter::Groups(groups, approx),
                None => Filter::Unread,
            },
            None => Filter::Unread,
        }
    } else if starts_with(word, "include") || starts_with(word, "exclude") || same(
        word,
        "releasesOnly",
    ) || same(word, "snapshotsOnly") || same(word, "onlyForConfigurations") || same(
        word,
        "notForConfigurations",
    ) {
        Filter::Unread
    } else {
        Filter::Other
    }
}

/// Each is a pattern that a manifest takes.
pub open spec fn all_good(patterns: Seq<Seq<char>>) -> bool {
    forall|i: int| 0 <= i < patterns.len() ==> good_pattern(#[trigger] patterns[i])
}

fn are_good(patterns: &Vec<String>) -> (r: bool)
    ensures
        r == all_good(patterns.deep_view()),
{
    let ghost all = patterns.deep_view();
    let mut i: usize = 0;
    while i < patterns.len()
        invariant
            all == patterns.deep_view(),
            i <= patterns@.len(),
            forall|j: int| 0 <= j < i ==> good_pattern(#[trigger] all[j]),
        decreases patterns@.len() - i,
    {
        assert(all[i as int] == patterns@[i as int]@);
        if !valid_group_pattern(patterns[i].as_str()) {
            assert(!good_pattern(all[i as int]));
            return false;
        }
        i = i + 1;
    }
    true
}

/// What reading a filter has come to.
pub struct GroupsModel {
    pub groups: Seq<Seq<char>>,
    /// The lines that were read only approximately.
    pub approximate: Seq<Seq<char>>,
    pub told: ReportModel,
}

/// Once one statement of the filter of `name` is read.
pub open spec fn with_filter(g: GroupsModel, line: Seq<char>, name: Seq<char>) -> GroupsModel {
    let unread = "`"@ + line + "` in the `"@ + name
        + "` repository's filter — jrs.toml's `groups` include whole groups only"@;
    match filter_of(line) {
        FilterModel::Other => g,
        FilterModel::Unread => GroupsModel { told: g.told.with_skipped(unread), ..g },
        FilterModel::Groups(patterns, approx) => {
            let approximate = if approx {
                g.approximate.push(line)
            } else {
                g.approximate
            };
            if patterns.len() > 0 && all_good(patterns) {
                GroupsModel { groups: with_each(g.groups, patterns, 0), approximate, told: g.told }
            } else {
                GroupsModel { approximate, told: g.told.with_skipped(unread), ..g }
            }
        },
    }
}

/// Once the statements from the `i`th on are read.
pub open spec fn filters_from(
    statements: Seq<Seq<char>>,
    i: int,
    name: Seq<char>,
    g: GroupsModel,
) -> GroupsModel
    decreases statements.len() - i,
{
    if i < 0 || i >= statements.len() {
        g
    } else {
        filters_from(statements, i + 1, name, with_filter(g, trimmed(statements[i]), name))
    }
}

/// The statements of the lines from `i` on, after those before.
pub open spec fn statements_from(lines: Seq<Seq<char>>, i: int, out: Seq<Seq<char>>) -> Seq<
    Seq<char>,
>
    decreases lines.len() - i,
{
    if i < 0 || i >= lines.len() {
        out
    } else {
        statements_from(lines, i + 1, out + parts_of(lines[i], Class::NoneOf('{', '}', ';')))
    }
}

/// The statements of some lines.
pub fn split_statements<'a>(lines: &Vec<&'a str>) -> (r: Vec<&'a str>)
    ensures
        r.deep_view() == statements_from(lines.deep_view(), 0, seq![]),
{
    let ghost all = lines.deep_view();
    let mut out: Vec<&'a str> = none_of();
    let mut i: usize = 0;
    while i < lines.len()
        invariant
            all == lines.deep_view(),
            i <= lines@.len(),
            statements_from(all, 0, seq![]) == statements_from(all, i as int, out.deep_view()),
        decreases lines@.len() - i,
    {
        assert(all[i as int] == lines@[i as int]@);
        put_all(&mut out, split_by(lines[i], Class::NoneOf('{', '}', ';')));
        i = i + 1;
    }
    out
}

/// What the filter of `name` says.
pub open spec fn groups_of(lines: Seq<Seq<char>>, name: Seq<char>, told: ReportModel) -> GroupsModel {
    filters_from(
        statements_from(lines, 0, seq![]),
        0,
        name,
        GroupsModel { groups: seq![], approximate: seq![], told },
    )
}

/// The group patterns a statement's filter includes, and the regex lines read
/// only approximately. What names more or less than whole groups is reported.
fn read_groups(lines: &Vec<&str>, name: &str, report: &mut Report) -> (r: (Vec<String>, Vec<String>))
    ensures
        (GroupsModel {
            groups: r.0.deep_view(),
            approximate: r.1.deep_view(),
            told: final(report).deep_view(),
        }) == groups_of(lines.deep_view(), name@, old(report).deep_view()),
{
    // One statement a piece: `filter { includeGroup 'x' }` is written on one
    // line as often as on three.
    let statements = split_statements(lines);
    let ghost all = statements.deep_view();
    let ghost start = GroupsModel {
        groups: seq![],
        approximate: seq![],
        told: report.deep_view(),
    };
    let mut groups: Vec<String> = none_of();
    let mut approximate: Vec<String> = none_of();
    let mut i: usize = 0;
    while i < statements.len()
        invariant
            all == statements.deep_view(),
            i <= statements@.len(),
            filters_from(all, 0, name@, start) == filters_from(
                all,
                i as int,
                name@,
                GroupsModel {
                    groups: groups.deep_view(),
                    approximate: approximate.deep_view(),
                    told: report.deep_view(),
                },
            ),
        decreases statements@.len() - i,
    {
        assert(all[i as int] == statements@[i as int]@);
        let line = trim(statements[i]);
        let mut unread = false;
        match read_filter(line) {
            Filter::Other => {},
            Filter::Unread => {
                unread = true;
            },
            Filter::Groups(patterns, approx) => {
                if approx {
                    put(&mut approximate, line.to_owned());
                }
                if patterns.len() > 0 && are_good(&patterns) {
                    add_each(&mut groups, &patterns);
                } else {
                    unread = true;
                }
            },
        }
        if unread {
            report.skipped(
                cat5(
                    "`",
                    line,
                    "` in the `",
                    name,
                    "` repository's filter — jrs.toml's `groups` include whole groups only",
                ),
            );
        }
        i = i + 1;
    }
    (groups, approximate)
}

// ---- entries ---------------------------------------------------------------

/// The lines from `i` on, one group per top-level statement, after those
/// before.
pub open spec fn entries_from(
    lines: Seq<Seq<char>>,
    i: int,
    depth: int,
    out: Seq<Seq<Seq<char>>>,
) -> Seq<Seq<Seq<char>>>
    decreases lines.len() - i,
{
    if i < 0 || i >= lines.len() {
        out
    } else {
        entries_from(
            lines,
            i + 1,
            deeper(depth, lines[i]),
            if depth == 0 || out.len() == 0 {
                out.push(seq![lines[i]])
            } else {
                out.update(out.len() - 1, out.last().push(lines[i]))
            },
        )
    }
}

/// The block's lines, one group per top-level statement: `mavenCentral()`, a
/// `maven { ... }` block, an `exclusiveContent { ... }` block.
fn entries<'a>(lines: &Vec<&'a str>) -> (r: Vec<Vec<&'a str>>)
    ensures
        r.deep_view() == entries_from(lines.deep_view(), 0, 0, seq![]),
{
    let ghost all = lines.deep_view();
    let mut out: Vec<Vec<&'a str>> = none_of();
    let mut depth: u128 = 0;
    let mut i: usize = 0;
    while i < lines.len()
        invariant
            all == lines.deep_view(),
            i <= lines@.len(),
            depth <= i * 0xffff_ffff_ffff_ffff,
            entries_from(all, 0, 0, seq![]) == entries_from(
                all,
                i as int,
                depth as int,
                out.deep_view(),
            ),
        decreases lines@.len() - i,
    {
        assert(all[i as int] == lines@[i as int]@);
        let ghost before = out.deep_view();
        let last: Option<Vec<&'a str>> = if depth == 0 {
            None
        } else {
            out.pop()
        };
        match last {
            None => {
                assert(out.deep_view() =~= before);
                put(&mut out, one_of(lines[i]));
            },
            Some(mut entry) => {
                assert(before.last() == entry.deep_view());
                put(&mut entry, lines[i]);
                let ghost changed = entry.deep_view();
                put(&mut out, entry);
                assert(out.deep_view() =~= before.update(before.len() - 1, changed));
            },
        }
        depth = depth_after(depth, lines[i]);
        i = i + 1;
    }
    out
}

/// The first line, from the `i`th on, that names a URL.
pub open spec fn url_line_from(lines: Seq<Seq<char>>, i: int) -> Option<Seq<char>>
    decreases lines.len() - i,
{
    if i < 0 || i >= lines.len() {
        None
    } else if within(trimmed(lines[i]), "url"@) {
        Some(trimmed(lines[i]))
    } else {
        url_line_from(lines, i + 1)
    }
}

fn find_url_line<'a>(lines: &Vec<&'a str>) -> (r: Option<&'a str>)
    ensures
        r.deep_view() == url_line_from(lines.deep_view(), 0),
{
    let ghost all = lines.deep_view();
    let mut i: usize = 0;
    while i < lines.len()
        invariant
            all == lines.deep_view(),
            i <= lines@.len(),
            url_line_from(all, 0) == url_line_from(all, i as int),
        decreases lines@.len() - i,
    {
        assert(all[i as int] == lines@[i as int]@);
        if contains(trim(lines[i]), "url") {
            return Some(trim(lines[i]));
        }
        i = i + 1;
    }
    None
}

/// The statement is an `exclusiveContent { }`.
pub open spec fn exclusive(lines: Seq<Seq<char>>) -> bool {
    lines.len() > 0 && starts(left(lines[0]), "exclusiveContent"@)
}

/// The report with a line for each of the approximate ones from the `i`th on.
pub open spec fn approximate_told(
    lines: Seq<Seq<char>>,
    i: int,
    name: Seq<char>,
    told: ReportModel,
) -> ReportModel
    decreases lines.len() - i,
{
    if i < 0 || i >= lines.len() {
        told
    } else {
        approximate_told(
            lines,
            i + 1,
            name,
            told.with_review(
                "`"@ + lines[i] + "` in the `"@ + name
                    + "` repository's filter — read as the group and the groups under it; the regex also matched groups that merely start the same"@,
            ),
        )
    }
}

fn tell_approximate(lines: &Vec<String>, name: &str, report: &mut Report)
    ensures
        final(report).deep_view() == approximate_told(
            lines.deep_view(),
            0,
            name@,
            old(report).deep_view(),
        ),
{
    let ghost all = lines.deep_view();
    let ghost start = report.deep_view();
    let mut i: usize = 0;
    while i < lines.len()
        invariant
            all == lines.deep_view(),
            i <= lines@.len(),
            approximate_told(all, 0, name@, start) == approximate_told(
                all,
                i as int,
                name@,
                report.deep_view(),
            ),
        decreases lines@.len() - i,
    {
        assert(all[i as int] == lines@[i as int]@);
        report.review(
            cat5(
                "`",
                lines[i].as_str(),
                "` in the `",
                name,
                "` repository's filter — read as the group and the groups under it; the regex also matched groups that merely start the same",
            ),
        );
        i = i + 1;
    }
}

/// The repository of a URL with the groups of its filter, and the report.
pub open spec fn repository_of(lines: Seq<Seq<char>>, url: Seq<char>, told: ReportModel) -> (
    RepositoryModel,
    ReportModel,
) {
    let name = name_of_url(url);
    let g = groups_of(lines, name, told);
    let listed = joined(g.groups, ", "@);
    if g.groups.len() == 0 {
        (
            RepositoryModel { name, url, groups: seq![] },
            g.told.with_migrated("repository "@ + url),
        )
    } else if url == CENTRAL_URL@ {
        (
            RepositoryModel { name, url, groups: seq![] },
            g.told.with_skipped(
                "the filter on Maven Central ("@ + listed
                    + ") — jrs asks Central for whatever no other repository claims, so it has no `groups`"@,
            ).with_migrated("repository "@ + url),
        )
    } else {
        let served = g.told.with_migrated("repository "@ + url + ", serving "@ + listed);
        let reviewed = if exclusive(lines) {
            served
        } else {
            served.with_review(
                "repository `"@ + name
                    + "` — Gradle's `content { }` still lets other repositories serve "@ + listed
                    + "; jrs's `groups` are exclusive, so those are looked up in "@ + url
                    + " only"@,
            )
        };
        (
            RepositoryModel { name, url, groups: g.groups },
            approximate_told(g.approximate, 0, name, reviewed),
        )
    }
}

fn read_repository(lines: &Vec<&str>, url: &str, report: &mut Report) -> (r: Repository)
    ensures
        (r.deep_view(), final(report).deep_view()) == repository_of(
            lines.deep_view(),
            url@,
            old(report).deep_view(),
        ),
{
    let name = repository_name(url);
    let (groups, approximate) = read_groups(lines, name.as_str(), report);
    let listed = join(&groups, ", ");
    if groups.len() == 0 {
        report.migrated(cat2("repository ", url));
        return Repository { name, url: url.to_owned(), groups: none_of() };
    }
    if same(url, CENTRAL_URL) {
        report.skipped(
            cat3(
                "the filter on Maven Central (",
                listed.as_str(),
                ") — jrs asks Central for whatever no other repository claims, so it has no `groups`",
            ),
        );
        report.migrated(cat2("repository ", url));
        return Repository { name, url: url.to_owned(), groups: none_of() };
    }
    report.migrated(crate::text::cat4("repository ", url, ", serving ", listed.as_str()));
    let only = if lines.len() > 0 {
        assert(lines.deep_view()[0] == lines@[0]@);
        starts_with(trim_start(lines[0]), "exclusiveContent")
    } else {
        false
    };
    if !only {
        report.review(
            crate::text::cat7(
                "repository `",
                name.as_str(),
                "` — Gradle's `content { }` still lets other repositories serve ",
                listed.as_str(),
                "; jrs's `groups` are exclusive, so those are looked up in ",
                url,
                " only",
            ),
        );
    }
    tell_approximate(&approximate, name.as_str(), report);
    Repository { name, url: url.to_owned(), groups }
}

/// One statement's repository, and the report.
pub open spec fn entry_of(lines: Seq<Seq<char>>, told: ReportModel) -> (
    Option<RepositoryModel>,
    ReportModel,
) {
    match url_line_from(lines, 0) {
        None => (
            None,
            if exclusive(lines) {
                told.with_skipped(
                    "`exclusiveContent` for a repository with no `url` — only a `maven { url }` repository can have `groups` in jrs.toml; Maven Central is asked for whatever no other repository claims"@,
                )
            } else {
                told
            },
        ),
        Some(line) => match first_of(line) {
            None => (
                None,
                told.with_skipped("`"@ + line + "` — repository URL built from an expression"@),
            ),
            Some(url) => {
                let (repo, told) = repository_of(lines, sans_tail(url, Class::One('/')), told);
                (Some(repo), told)
            },
        },
    }
}

/// One statement's repository: its URL and the groups its filter includes.
/// `None` for a statement with no URL, such as `mavenCentral()`.
fn read_entry(lines: &Vec<&str>, report: &mut Report) -> (r: Option<Repository>)
    ensures
        (r.deep_view(), final(report).deep_view()) == entry_of(
            lines.deep_view(),
            old(report).deep_view(),
        ),
{
    let Some(line) = find_url_line(lines) else {
        if lines.len() > 0 {
            assert(lines.deep_view()[0] == lines@[0]@);
            if starts_with(trim_start(lines[0]), "exclusiveContent") {
                report.skipped(
                    "`exclusiveContent` for a repository with no `url` — only a `maven { url }` repository can have `groups` in jrs.toml; Maven Central is asked for whatever no other repository claims".to_owned(),
                );
            }
        }
        return None;
    };
    let Some(url) = first_quoted(line) else {
        report.skipped(cat3("`", line, "` — repository URL built from an expression"));
        return None;
    };
    let bare = drop_run(url.as_str(), Class::One('/'));
    Some(read_repository(lines, bare, report))
}

/// The names of the repositories.
pub open spec fn names_of(repos: Seq<RepositoryModel>) -> Seq<Seq<char>> {
    Seq::new(repos.len(), |i: int| repos[i].name)
}

fn list_names(repos: &Vec<Repository>) -> (r: Vec<String>)
    ensures
        r.deep_view() == names_of(repos.deep_view()),
{
    let ghost all = repos.deep_view();
    let mut out: Vec<String> = none_of();
    let mut i: usize = 0;
    while i < repos.len()
        invariant
            all == repos.deep_view(),
            i <= repos@.len(),
            out.deep_view() =~= names_of(all).take(i as int),
        decreases repos@.len() - i,
    {
        put(&mut out, repos[i].name.clone());
        i = i + 1;
    }
    assert(names_of(all).take(i as int) =~= names_of(all));
    out
}

/// The repositories with one more, under a name that no other has.
pub open spec fn with_repository(repos: Seq<RepositoryModel>, repo: RepositoryModel) -> Seq<
    RepositoryModel,
> {
    repos.push(RepositoryModel { name: fresh(names_of(repos), repo.name), ..repo })
}

/// The repositories of the entries from the `i`th on, after those before, and
/// the report.
pub open spec fn repositories_from(
    entries: Seq<Seq<Seq<char>>>,
    i: int,
    repos: Seq<RepositoryModel>,
    told: ReportModel,
) -> (Seq<RepositoryModel>, ReportModel)
    decreases entries.len() - i,
{
    if i < 0 || i >= entries.len() {
        (repos, told)
    } else {
        let (repo, told) = entry_of(entries[i], told);
        match repo {
            Some(repo) if repo.url != CENTRAL_URL@ => repositories_from(
                entries,
                i + 1,
                with_repository(repos, repo),
                told,
            ),
            _ => repositories_from(entries, i + 1, repos, told),
        }
    }
}

/// The repositories of a script, Maven Central last, and the report.
pub open spec fn repositories_of(script: Seq<char>, told: ReportModel) -> (
    Seq<RepositoryModel>,
    ReportModel,
) {
    let lines = top_lines("repositories"@, script);
    let (repos, told) = repositories_from(entries_from(lines, 0, 0, seq![]), 0, seq![], told);
    (repos.push(open_repository(CENTRAL_NAME@, CENTRAL_URL@)), told)
}

/// Read the script's `repositories { }` into `out.repositories`, Maven Central
/// last.
pub fn read(script: &str, out: &mut Manifest, report: &mut Report)
    ensures
        ({
            let (repositories, told) = repositories_of(script@, old(report).deep_view());
            &&& final(out).deep_view() == (ManifestModel { repositories, ..old(out).deep_view() })
            &&& final(report).deep_view() == told
        }),
{
    let list = entries(&block_lines(script, "repositories"));
    let ghost all = list.deep_view();
    let ghost start = report.deep_view();
    let mut repos: Vec<Repository> = none_of();
    let mut i: usize = 0;
    while i < list.len()
        invariant
            all == list.deep_view(),
            i <= list@.len(),
            repositories_from(all, 0, seq![], start) == repositories_from(
                all,
                i as int,
                repos.deep_view(),
                report.deep_view(),
            ),
        decreases list@.len() - i,
    {
        assert(all[i as int] == list@[i as int].deep_view());
        if let Some(repo) = read_entry(&list[i], report) {
            if !same(repo.url.as_str(), CENTRAL_URL) {
                let name = fresh_name(&list_names(&repos), repo.name.as_str());
                put(&mut repos, Repository { name, url: repo.url, groups: repo.groups });
            }
        }
        i = i + 1;
    }
    put(&mut repos, Repository::new(CENTRAL_NAME, CENTRAL_URL));
    out.repositories = repos;
}

// ---- laws ------------------------------------------------------------------

proof fn lemma_apart(
    entries: Seq<Seq<Seq<char>>>,
    i: int,
    repos: Seq<RepositoryModel>,
    told: ReportModel,
)
    requires
        0 <= i,
        names_of(repos).no_duplicates(),
    ensures
        names_of(repositories_from(entries, i, repos, told).0).no_duplicates(),
    decreases entries.len() - i,
{
    if i < entries.len() {
        let (repo, next) = entry_of(entries[i], told);
        if repo is Some && repo->0.url != CENTRAL_URL@ {
            let more = with_repository(repos, repo->0);
            let name = fresh(names_of(repos), repo->0.name);
            crate::fresh::fresh_names_are_free(names_of(repos), repo->0.name);
            assert(names_of(more) =~= names_of(repos).push(name));
            lemma_apart(entries, i + 1, more, next);
        } else {
            lemma_apart(entries, i + 1, repos, next);
        }
    }
}

/// No two of the repositories that a script declares share a name, and Maven
/// Central is asked last.
pub proof fn declared_repositories_are_apart(script: Seq<char>, told: ReportModel)
    ensures
        ({
            let repos = repositories_of(script, told).0;
            &&& repos.len() > 0
            &&& names_of(repos.drop_last()).no_duplicates()
            &&& repos.last() == open_repository(CENTRAL_NAME@, CENTRAL_URL@)
        }),
{
    let lines = top_lines("repositories"@, script);
    let all = entries_from(lines, 0, 0, seq![]);
    lemma_apart(all, 0, seq![], told);
    let repos = repositories_of(script, told).0;
    assert(repos.drop_last() =~= repositories_from(all, 0, seq![], told).0);
}

} // verus!
