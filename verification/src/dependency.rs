//! Declared dependencies, managed versions and repositories.

use crate::coord::ga_text;
use crate::text::{
    cat3, cat4, cat5, contains, none_of, same, strip_prefix, strip_suffix, without_suffix,
    Duplicate, before_suffix, ends, sans_suffix, starts, within, chars,
};
use crate::chars::{alphanumeric, is_alphanumeric};
use vstd::prelude::*;

verus! {

/// A declared dependency: a `group:artifact` key and an exact version, plus
/// what the long table form adds.
#[derive(Debug, PartialEq, Eq, PartialOrd, Ord)]
pub struct Dependency {
    pub group: String,
    pub artifact: String,
    pub version: String,
    /// `natives-linux`, `tests`, ...: a file published beside the main jar.
    pub classifier: Option<String>,
    /// Transitive dependencies not to walk, as `group:artifact` (`*` allowed).
    pub exclusions: Vec<Exclusion>,
    /// On the compile and test classpaths, but not the runtime one.
    pub compile_only: bool,
    /// On the runtime and test classpaths, but not the one the main sources
    /// compile against.
    pub runtime_only: bool,
    /// A jar in the project rather than in a repository, relative to the
    /// project root and `/`-separated. A local jar has no coordinate: its name
    /// is in `artifact`, and `group` and `version` are empty.
    pub path: Option<String>,
}

/// An exclusion from a dependency's transitive graph.
#[derive(Debug, PartialEq, Eq, PartialOrd, Ord)]
pub struct Exclusion {
    pub group: String,
    pub artifact: String,
}

/// What a dependency says.
pub struct DependencyModel {
    pub group: Seq<char>,
    pub artifact: Seq<char>,
    pub version: Seq<char>,
    pub classifier: Option<Seq<char>>,
    pub exclusions: Seq<(Seq<char>, Seq<char>)>,
    pub compile_only: bool,
    pub runtime_only: bool,
    pub path: Option<Seq<char>>,
}

impl DeepView for Exclusion {
    type V = (Seq<char>, Seq<char>);

    open spec fn deep_view(&self) -> (Seq<char>, Seq<char>) {
        (self.group@, self.artifact@)
    }
}

impl DeepView for Dependency {
    type V = DependencyModel;

    open spec fn deep_view(&self) -> DependencyModel {
        DependencyModel {
            group: self.group@,
            artifact: self.artifact@,
            version: self.version@,
            classifier: self.classifier.deep_view(),
            exclusions: self.exclusions.deep_view(),
            compile_only: self.compile_only,
            runtime_only: self.runtime_only,
            path: self.path.deep_view(),
        }
    }
}

impl Duplicate for Exclusion {
    fn duplicate(&self) -> Exclusion {
        Exclusion { group: self.group.clone(), artifact: self.artifact.clone() }
    }
}

impl Duplicate for Dependency {
    fn duplicate(&self) -> Dependency {
        Dependency {
            group: self.group.clone(),
            artifact: self.artifact.clone(),
            version: self.version.clone(),
            classifier: self.classifier.duplicate(),
            exclusions: self.exclusions.duplicate(),
            compile_only: self.compile_only,
            runtime_only: self.runtime_only,
            path: self.path.duplicate(),
        }
    }
}

impl Exclusion {
    /// `group:artifact`.
    pub fn to_text(&self) -> (r: String)
        ensures
            r@ == ga_text(self.group@, self.artifact@),
    {
        cat3(self.group.as_str(), ":", self.artifact.as_str())
    }
}

/// A coordinate and nothing else.
pub open spec fn plain_dependency(
    group: Seq<char>,
    artifact: Seq<char>,
    version: Seq<char>,
) -> DependencyModel {
    DependencyModel {
        group,
        artifact,
        version,
        classifier: None,
        exclusions: seq![],
        compile_only: false,
        runtime_only: false,
        path: None,
    }
}

/// The jar called `name` at `path`.
pub open spec fn local_jar(name: Seq<char>, path: Seq<char>) -> DependencyModel {
    DependencyModel { path: Some(path), ..plain_dependency(""@, name, ""@) }
}

impl DependencyModel {
    /// A jar in the project rather than a coordinate.
    pub open spec fn local(self) -> bool {
        self.path is Some
    }

    /// What names it within a table.
    pub open spec fn key(self) -> Seq<char> {
        if self.local() {
            self.artifact
        } else {
            match self.classifier {
                Some(c) => self.group + ":"@ + self.artifact + ":"@ + c,
                None => self.group + ":"@ + self.artifact,
            }
        }
    }

    /// The short form says everything.
    pub open spec fn plain(self) -> bool {
        self.exclusions.len() == 0 && !self.compile_only && !self.runtime_only && !self.local()
    }

    /// A coordinate that leaves its version to `[managed]`.
    pub open spec fn managed(self) -> bool {
        !self.local() && self.version.len() == 0
    }

    /// As it is shown.
    pub open spec fn shown(self) -> Seq<char> {
        match self.path {
            Some(path) => self.artifact + " ("@ + path + ")"@,
            None => {
                let base = self.group + ":"@ + self.artifact;
                let base = if self.version.len() > 0 {
                    base + ":"@ + self.version
                } else {
                    base
                };
                match self.classifier {
                    Some(c) => base + ":"@ + c,
                    None => base,
                }
            },
        }
    }
}

impl Dependency {
    pub fn new(group: &str, artifact: &str, version: &str) -> (r: Dependency)
        ensures
            r.deep_view() == plain_dependency(group@, artifact@, version@),
    {
        Dependency {
            group: group.to_owned(),
            artifact: artifact.to_owned(),
            version: version.to_owned(),
            classifier: None,
            exclusions: none_of(),
            compile_only: false,
            runtime_only: false,
            path: None,
        }
    }

    /// A local jar called `name`, at `path` relative to the project root.
    pub fn local(name: &str, path: &str) -> (r: Dependency)
        ensures
            r.deep_view() == local_jar(name@, path@),
    {
        let mut dep = Dependency::new("", name, "");
        dep.path = Some(path.to_owned());
        dep
    }

    /// Whether this is a jar in the project rather than a Maven coordinate.
    pub fn is_local(&self) -> (r: bool)
        ensures
            r == self.deep_view().local(),
    {
        self.path.is_some()
    }

    /// `group:artifact`, or `group:artifact:classifier` — unique within a
    /// table. A local jar's key is its name.
    pub fn key(&self) -> (r: String)
        ensures
            r@ == self.deep_view().key(),
    {
        if self.is_local() {
            return self.artifact.clone();
        }
        match &self.classifier {
            Some(c) => cat5(self.group.as_str(), ":", self.artifact.as_str(), ":", c.as_str()),
            None => cat3(self.group.as_str(), ":", self.artifact.as_str()),
        }
    }

    /// True when the short `"g:a" = "version"` form says everything.
    pub fn is_plain(&self) -> (r: bool)
        ensures
            r == self.deep_view().plain(),
    {
        self.exclusions.len() == 0 && !self.compile_only && !self.runtime_only && !self.is_local()
    }

    /// A coordinate that leaves its version to `[managed]`.
    pub fn is_managed(&self) -> (r: bool)
        ensures
            r == self.deep_view().managed(),
    {
        !self.is_local() && self.version.as_str().is_empty()
    }

    /// `group:artifact:version:classifier`, or a local jar's name and path.
    pub fn to_text(&self) -> (r: String)
        ensures
            r@ == self.deep_view().shown(),
    {
        if let Some(path) = &self.path {
            return cat4(self.artifact.as_str(), " (", path.as_str(), ")");
        }
        let mut s = cat3(self.group.as_str(), ":", self.artifact.as_str());
        if !self.version.as_str().is_empty() {
            s.append(":");
            s.append(self.version.as_str());
        }
        if let Some(c) = &self.classifier {
            s.append(":");
            s.append(c.as_str());
        }
        s
    }
}

/// One `[managed]` entry: a version for an artifact wherever it turns up in
/// the graph, or a BOM whose managed versions do.
#[derive(Debug, PartialEq, Eq)]
pub struct Managed {
    pub group: String,
    pub artifact: String,
    pub version: String,
    /// Import this POM's managed versions rather than manage the artifact.
    pub bom: bool,
}

/// What a `[managed]` entry says.
pub struct ManagedModel {
    pub group: Seq<char>,
    pub artifact: Seq<char>,
    pub version: Seq<char>,
    pub bom: bool,
}

impl DeepView for Managed {
    type V = ManagedModel;

    open spec fn deep_view(&self) -> ManagedModel {
        ManagedModel {
            group: self.group@,
            artifact: self.artifact@,
            version: self.version@,
            bom: self.bom,
        }
    }
}

impl Duplicate for Managed {
    fn duplicate(&self) -> Managed {
        Managed {
            group: self.group.clone(),
            artifact: self.artifact.clone(),
            version: self.version.clone(),
            bom: self.bom,
        }
    }
}

impl Managed {
    pub fn new(group: &str, artifact: &str, version: &str) -> (r: Managed)
        ensures
            r.deep_view() == (ManagedModel {
                group: group@,
                artifact: artifact@,
                version: version@,
                bom: false,
            }),
    {
        Managed {
            group: group.to_owned(),
            artifact: artifact.to_owned(),
            version: version.to_owned(),
            bom: false,
        }
    }

    /// A BOM at `version`.
    pub fn bom(group: &str, artifact: &str, version: &str) -> (r: Managed)
        ensures
            r.deep_view() == (ManagedModel {
                group: group@,
                artifact: artifact@,
                version: version@,
                bom: true,
            }),
    {
        let mut m = Managed::new(group, artifact, version);
        m.bom = true;
        m
    }

    /// `group:artifact`, as the table's key.
    pub fn key(&self) -> (r: String)
        ensures
            r@ == ga_text(self.group@, self.artifact@),
    {
        cat3(self.group.as_str(), ":", self.artifact.as_str())
    }
}

#[derive(Debug, PartialEq, Eq)]
pub struct Repository {
    pub name: String,
    pub url: String,
    /// The groups this repository serves: `com.acme` for that group,
    /// `com.acme.*` for the groups under it. Empty for a repository asked for
    /// everything.
    pub groups: Vec<String>,
}

/// What a repository entry says.
pub struct RepositoryModel {
    pub name: Seq<char>,
    pub url: Seq<char>,
    pub groups: Seq<Seq<char>>,
}

impl DeepView for Repository {
    type V = RepositoryModel;

    open spec fn deep_view(&self) -> RepositoryModel {
        RepositoryModel { name: self.name@, url: self.url@, groups: self.groups.deep_view() }
    }
}

impl Duplicate for Repository {
    fn duplicate(&self) -> Repository {
        Repository {
            name: self.name.clone(),
            url: self.url.clone(),
            groups: self.groups.duplicate(),
        }
    }
}

/// A repository asked for every group.
pub open spec fn open_repository(name: Seq<char>, url: Seq<char>) -> RepositoryModel {
    RepositoryModel { name, url, groups: seq![] }
}

pub const CENTRAL_NAME: &'static str = "central";

pub const CENTRAL_URL: &'static str = "https://repo1.maven.org/maven2";

/// `pattern` names `group`: the group itself, or before `.*` a group that
/// `group` is under.
pub open spec fn matches_group(pattern: Seq<char>, group: Seq<char>) -> bool {
    match before_suffix(pattern, ".*"@) {
        Some(prefix) => starts(group, prefix) && group.len() > prefix.len() + 1
            && group[prefix.len() as int] == '.',
        None => pattern == group,
    }
}

impl RepositoryModel {
    /// One of its `groups` names `group`.
    pub open spec fn claims(self, group: Seq<char>) -> bool {
        exists|i: int|
            0 <= i < self.groups.len() && #[trigger] matches_group(self.groups[i], group)
    }
}

impl Repository {
    /// A repository asked for every group.
    pub fn new(name: &str, url: &str) -> (r: Repository)
        ensures
            r.deep_view() == open_repository(name@, url@),
    {
        Repository { name: name.to_owned(), url: url.to_owned(), groups: none_of() }
    }

    /// Whether this repository's `groups` name `group`. A repository without
    /// `groups` claims nothing: it is asked for what no other claims.
    pub fn claims(&self, group: &str) -> (r: bool)
        ensures
            r == self.deep_view().claims(group@),
    {
        let mut i: usize = 0;
        while i < self.groups.len()
            invariant
                i <= self.groups@.len(),
                forall|j: int|
                    0 <= j < i ==> !matches_group(self.deep_view().groups[j], group@),
            decreases self.groups@.len() - i,
        {
            if group_matches(self.groups[i].as_str(), group) {
                assert(matches_group(self.deep_view().groups[i as int], group@));
                return true;
            }
            i = i + 1;
        }
        false
    }
}

/// A character of a group: a letter, a digit, `.`, `-` or `_`.
pub open spec fn group_char(c: char) -> bool {
    alphanumeric(c) || c == '.' || c == '-' || c == '_'
}

/// `pattern` is a group, or a group followed by `.*`.
pub open spec fn good_pattern(pattern: Seq<char>) -> bool {
    let base = sans_suffix(pattern, ".*"@);
    &&& base.len() > 0
    &&& base[0] != '.'
    &&& base.last() != '.'
    &&& !within(base, ".."@)
    &&& forall|i: int| 0 <= i < base.len() ==> group_char(#[trigger] base[i])
}

/// Whether `pattern` is something `groups` can hold: a group (`com.acme`), or
/// a group followed by `.*` for the groups under it. No other wildcard.
pub fn valid_group_pattern(pattern: &str) -> (r: bool)
    ensures
        r == good_pattern(pattern@),
{
    let base: &str = without_suffix(pattern, ".*");
    let cs = chars(base);
    if cs.len() == 0 || cs[0] == '.' || cs[cs.len() - 1] == '.' || contains(base, "..") {
        return false;
    }
    let mut i: usize = 0;
    while i < cs.len()
        invariant
            cs@ == base@,
            base@ == sans_suffix(pattern@, ".*"@),
            i <= cs@.len(),
            forall|j: int| 0 <= j < i ==> group_char(#[trigger] cs@[j]),
        decreases cs@.len() - i,
    {
        let c: char = cs[i];
        if !(is_alphanumeric(c) || c == '.' || c == '-' || c == '_') {
            assert(!group_char(base@[i as int]));
            return false;
        }
        i = i + 1;
    }
    true
}

/// `com.acme` matches that group alone; `com.acme.*` matches the groups below
/// it (`com.acme.billing`), but not `com.acme` itself.
pub fn group_matches(pattern: &str, group: &str) -> (r: bool)
    ensures
        r == matches_group(pattern@, group@),
{
    match strip_suffix(pattern, ".*") {
        Some(prefix) => match strip_prefix(group, prefix) {
            Some(rest) => rest.unicode_len() > 1 && rest.get_char(0) == '.',
            None => false,
        },
        None => same(pattern, group),
    }
}

/// A group is claimed by its own pattern, and by the pattern of no other group
/// that is not above it.
pub proof fn plain_patterns_match_one_group(pattern: Seq<char>, group: Seq<char>)
    requires
        !ends(pattern, ".*"@),
    ensures
        matches_group(pattern, group) <==> pattern == group,
{
}

/// `com.acme.*` does not claim `com.acme` itself.
pub proof fn wildcard_excludes_its_base(base: Seq<char>)
    ensures
        !matches_group(base + ".*"@, base),
{
    reveal_strlit(".*");
    let pattern = base + ".*"@;
    assert(pattern.subrange(pattern.len() - 2, pattern.len() as int) =~= ".*"@);
    assert(pattern.take(pattern.len() - 2) =~= base);
}

/// `com.acme.*` claims every group under `com.acme`.
pub proof fn wildcard_claims_what_is_under_it(base: Seq<char>, rest: Seq<char>)
    requires
        rest.len() > 0,
    ensures
        matches_group(base + ".*"@, base + "."@ + rest),
{
    reveal_strlit(".*");
    reveal_strlit(".");
    let pattern = base + ".*"@;
    let group = base + "."@ + rest;
    assert(pattern.subrange(pattern.len() - 2, pattern.len() as int) =~= ".*"@);
    assert(pattern.take(pattern.len() - 2) =~= base);
    assert(group.subrange(0, base.len() as int) =~= base);
}

} // verus!
