//! POMs: what one says, and what a chain of them says together.

use crate::element::{
    empty_element, lemma_children, parse_xml, parsed, Element, ElementModel,
};
use crate::error::{Fault, JrsError};
use crate::order::{is_before, precedes};
use crate::text::{
    cat3, cut, lemma_first_at, none_of, outcome, put, same, split_once, trimmed, Duplicate,
};
use vstd::prelude::*;

verus! {

// ---- properties ------------------------------------------------------------

/// Properties: names and values.
pub type Properties = Seq<(Seq<char>, Seq<char>)>;

/// The value of the property `name`, from the `i`th on.
pub open spec fn property_from(props: Properties, name: Seq<char>, i: int) -> Option<Seq<char>>
    decreases props.len() - i,
{
    if i < 0 || i >= props.len() {
        None
    } else if props[i].0 == name {
        Some(props[i].1)
    } else {
        property_from(props, name, i + 1)
    }
}

/// The value of the property `name`.
pub open spec fn property(props: Properties, name: Seq<char>) -> Option<Seq<char>> {
    property_from(props, name, 0)
}

/// The value of the property `name`.
pub fn find_property<'a>(props: &'a Vec<(String, String)>, name: &str) -> (r: Option<&'a str>)
    ensures
        r.deep_view() == property(props.deep_view(), name@),
{
    let ghost all = props.deep_view();
    let mut i: usize = 0;
    while i < props.len()
        invariant
            all == props.deep_view(),
            i <= props@.len(),
            property(all, name@) == property_from(all, name@, i as int),
        decreases props@.len() - i,
    {
        assert(all[i as int] == (props@[i as int].0@, props@[i as int].1@));
        if same(props[i].0.as_str(), name) {
            return Some(props[i].1.as_str());
        }
        i = i + 1;
    }
    None
}

/// The place of the property `name`, from the `i`th on.
pub open spec fn property_place(props: Properties, name: Seq<char>, i: int) -> Option<int>
    decreases props.len() - i,
{
    if i < 0 || i >= props.len() {
        None
    } else if props[i].0 == name {
        Some(i)
    } else {
        property_place(props, name, i + 1)
    }
}

/// The properties with `name` set to `value`.
pub open spec fn with_property(props: Properties, name: Seq<char>, value: Seq<char>) -> Properties {
    match property_place(props, name, 0) {
        Some(i) => props.update(i, (name, value)),
        None => props.push((name, value)),
    }
}

fn set_property(props: &mut Vec<(String, String)>, name: &str, value: &str)
    ensures
        final(props).deep_view() == with_property(old(props).deep_view(), name@, value@),
{
    let ghost all = props.deep_view();
    let mut i: usize = 0;
    while i < props.len()
        invariant
            props == old(props),
            all == props.deep_view(),
            i <= props@.len(),
            property_place(all, name@, 0) == property_place(all, name@, i as int),
        decreases props@.len() - i,
    {
        assert(all[i as int] == (props@[i as int].0@, props@[i as int].1@));
        if same(props[i].0.as_str(), name) {
            let _old = props.remove(i);
            props.insert(i, (name.to_owned(), value.to_owned()));
            assert(props.deep_view() =~= all.update(i as int, (name@, value@)));
            return ;
        }
        i = i + 1;
    }
    put(props, (name.to_owned(), value.to_owned()));
}

/// The properties with those from the `i`th on set.
pub open spec fn with_properties(props: Properties, more: Properties, i: int) -> Properties
    decreases more.len() - i,
{
    if i < 0 || i >= more.len() {
        props
    } else {
        with_properties(with_property(props, more[i].0, more[i].1), more, i + 1)
    }
}

fn set_properties(props: &mut Vec<(String, String)>, more: &Vec<(String, String)>)
    ensures
        final(props).deep_view() == with_properties(old(props).deep_view(), more.deep_view(), 0),
{
    let ghost all = more.deep_view();
    let ghost start = props.deep_view();
    let mut i: usize = 0;
    while i < more.len()
        invariant
            all == more.deep_view(),
            i <= more@.len(),
            with_properties(start, all, 0) == with_properties(props.deep_view(), all, i as int),
        decreases more@.len() - i,
    {
        assert(all[i as int] == (more@[i as int].0@, more@[i as int].1@));
        set_property(props, more[i].0.as_str(), more[i].1.as_str());
        i = i + 1;
    }
}

/// How many properties may name one another before jrs gives up.
pub const MAX_DEPTH: usize = 16;

/// `text` with the values of its properties in their places, `depth` deep; a
/// property without a value stays as it is.
pub open spec fn filled(text: Seq<char>, props: Properties, depth: int) -> Seq<char>
    decreases MAX_DEPTH - depth, text.len(),
{
    match cut(text, "${"@) {
        None => text,
        Some((before, rest)) => match cut(rest, "}"@) {
            None => text,
            Some((name, after)) => {
                let value = match property(props, name) {
                    Some(v) => if depth < MAX_DEPTH {
                        filled(v, props, depth + 1)
                    } else {
                        "${"@ + name + "}"@
                    },
                    None => "${"@ + name + "}"@,
                };
                if after.len() < text.len() {
                    before + value + filled(after, props, depth)
                } else {
                    text
                }
            },
        },
    }
}

/// `text` with the values of its properties in their places.
pub open spec fn interpolated(text: Seq<char>, props: Properties) -> Seq<char> {
    filled(text, props, 0)
}

fn fill(text: &str, props: &Vec<(String, String)>, depth: usize) -> (r: String)
    requires
        depth <= MAX_DEPTH,
    ensures
        r@ == filled(text@, props.deep_view(), depth as int),
    decreases MAX_DEPTH - depth,
{
    let ghost p = props.deep_view();
    let mut out = String::new();
    let mut rest: &str = text;
    proof {
        reveal_strlit("${");
        reveal_strlit("}");
    }
    loop
        invariant
            p == props.deep_view(),
            depth <= MAX_DEPTH,
            "${"@.len() == 2,
            "}"@.len() == 1,
            filled(text@, p, depth as int) =~= out@ + filled(rest@, p, depth as int),
        decreases rest@.len(),
    {
        proof {
            lemma_first_at(rest@, "${"@, 0);
        }
        let Some((before, tail)) = split_once(rest, "${") else {
            out.append(rest);
            return out;
        };
        proof {
            lemma_first_at(tail@, "}"@, 0);
        }
        let Some((name, after)) = split_once(tail, "}") else {
            out.append(rest);
            return out;
        };
        let value = match find_property(props, name) {
            Some(v) => if depth < MAX_DEPTH {
                fill(v, props, depth + 1)
            } else {
                cat3("${", name, "}")
            },
            None => cat3("${", name, "}"),
        };
        out.append(before);
        out.append(value.as_str());
        rest = after;
    }
}

/// `text` with each `${name}` replaced by the property's value; one without a
/// value stays as it is.
pub fn interpolate(text: &str, props: &Vec<(String, String)>) -> (r: String)
    ensures
        r@ == interpolated(text@, props.deep_view()),
{
    fill(text, props, 0)
}

// ---- dependencies ----------------------------------------------------------

/// A dependency's scope.
#[derive(Debug, Clone, Copy, PartialEq, Eq, Structural)]
pub enum Scope {
    Compile,
    Runtime,
    Provided,
    Test,
    System,
    Import,
}

/// The scope of that name; without one, or with another, `compile`.
pub open spec fn scope_named(name: Option<Seq<char>>) -> Scope {
    match name {
        None => Scope::Compile,
        Some(n) => if n == "runtime"@ {
            Scope::Runtime
        } else if n == "provided"@ {
            Scope::Provided
        } else if n == "test"@ {
            Scope::Test
        } else if n == "system"@ {
            Scope::System
        } else if n == "import"@ {
            Scope::Import
        } else {
            Scope::Compile
        },
    }
}

impl Scope {
    pub open spec fn word(self) -> Seq<char> {
        match self {
            Scope::Compile => "compile"@,
            Scope::Runtime => "runtime"@,
            Scope::Provided => "provided"@,
            Scope::Test => "test"@,
            Scope::System => "system"@,
            Scope::Import => "import"@,
        }
    }

    /// Its name.
    pub fn as_str(self) -> (r: &'static str)
        ensures
            r@ == self.word(),
    {
        match self {
            Scope::Compile => "compile",
            Scope::Runtime => "runtime",
            Scope::Provided => "provided",
            Scope::Test => "test",
            Scope::System => "system",
            Scope::Import => "import",
        }
    }
}

/// A `<dependency>`.
#[derive(Debug, PartialEq, Eq)]
pub struct PomDependency {
    pub group: String,
    pub artifact: String,
    pub version: Option<String>,
    pub scope: Option<String>,
    pub optional: bool,
    /// `<type>`.
    pub kind: String,
    pub classifier: Option<String>,
    pub exclusions: Vec<(String, String)>,
}

/// A `<dependency>`.
pub struct PomDependencyModel {
    pub group: Seq<char>,
    pub artifact: Seq<char>,
    pub version: Option<Seq<char>>,
    pub scope: Option<Seq<char>>,
    pub optional: bool,
    pub kind: Seq<char>,
    pub classifier: Option<Seq<char>>,
    pub exclusions: Seq<(Seq<char>, Seq<char>)>,
}

impl DeepView for PomDependency {
    type V = PomDependencyModel;

    open spec fn deep_view(&self) -> PomDependencyModel {
        PomDependencyModel {
            group: self.group@,
            artifact: self.artifact@,
            version: self.version.deep_view(),
            scope: self.scope.deep_view(),
            optional: self.optional,
            kind: self.kind@,
            classifier: self.classifier.deep_view(),
            exclusions: self.exclusions.deep_view(),
        }
    }
}

impl Duplicate for PomDependency {
    fn duplicate(&self) -> PomDependency {
        PomDependency {
            group: self.group.clone(),
            artifact: self.artifact.clone(),
            version: self.version.duplicate(),
            scope: self.scope.duplicate(),
            optional: self.optional,
            kind: self.kind.clone(),
            classifier: self.classifier.duplicate(),
            exclusions: self.exclusions.duplicate(),
        }
    }
}

impl PomDependency {
    /// Its scope.
    pub fn scope(&self) -> (r: Scope)
        ensures
            r == scope_named(self.deep_view().scope),
    {
        match &self.scope {
            None => Scope::Compile,
            Some(n) => {
                let n = n.as_str();
                if same(n, "runtime") {
                    Scope::Runtime
                } else if same(n, "provided") {
                    Scope::Provided
                } else if same(n, "test") {
                    Scope::Test
                } else if same(n, "system") {
                    Scope::System
                } else if same(n, "import") {
                    Scope::Import
                } else {
                    Scope::Compile
                }
            },
        }
    }
}

/// The text of an option, or another.
pub open spec fn text_or(s: Option<Seq<char>>, other: Seq<char>) -> Seq<char> {
    match s {
        Some(s) => s,
        None => other,
    }
}

fn owned_or(s: Option<&str>, other: &str) -> (r: String)
    ensures
        r@ == text_or(s.deep_view(), other@),
{
    match s {
        Some(s) => s.to_owned(),
        None => other.to_owned(),
    }
}

fn owned(s: Option<&str>) -> (r: Option<String>)
    ensures
        r.deep_view() == s.deep_view(),
{
    match s {
        Some(s) => Some(s.to_owned()),
        None => None,
    }
}

/// An `<exclusion>`.
pub open spec fn exclusion_of(e: ElementModel) -> (Seq<char>, Seq<char>) {
    (text_or(e.text_of("groupId"@), "*"@), text_or(e.text_of("artifactId"@), "*"@))
}

pub open spec fn exclusions_of(list: Seq<ElementModel>) -> Seq<(Seq<char>, Seq<char>)> {
    Seq::new(list.len(), |i: int| exclusion_of(list[i]))
}

fn read_exclusions(list: &Vec<&Element>) -> (r: Vec<(String, String)>)
    ensures
        r.deep_view() == exclusions_of(list.deep_view()),
{
    let ghost all = list.deep_view();
    let mut out: Vec<(String, String)> = none_of();
    let mut i: usize = 0;
    while i < list.len()
        invariant
            all == list.deep_view(),
            i <= list@.len(),
            out.deep_view() =~= exclusions_of(all).take(i as int),
        decreases list@.len() - i,
    {
        let e = list[i];
        assert(all[i as int] == e.deep_view());
        put(
            &mut out,
            (owned_or(e.text_of("groupId"), "*"), owned_or(e.text_of("artifactId"), "*")),
        );
        i = i + 1;
    }
    assert(exclusions_of(all).take(i as int) =~= exclusions_of(all));
    out
}

/// The dependency that an element is.
pub open spec fn dependency_of(e: ElementModel) -> PomDependencyModel {
    PomDependencyModel {
        group: text_or(e.text_of("groupId"@), ""@),
        artifact: text_or(e.text_of("artifactId"@), ""@),
        version: e.text_of("version"@),
        scope: e.text_of("scope"@),
        optional: e.text_of("optional"@) == Some("true"@),
        kind: text_or(e.text_of("type"@), "jar"@),
        classifier: e.text_of("classifier"@),
        exclusions: exclusions_of(e.list("exclusions"@, "exclusion"@)),
    }
}

fn is_text(s: Option<&str>, other: &str) -> (r: bool)
    ensures
        r == (s.deep_view() == Some(other@)),
{
    match s {
        Some(s) => same(s, other),
        None => false,
    }
}

fn read_dependency(e: &Element) -> (r: PomDependency)
    ensures
        r.deep_view() == dependency_of(e.deep_view()),
{
    PomDependency {
        group: owned_or(e.text_of("groupId"), ""),
        artifact: owned_or(e.text_of("artifactId"), ""),
        version: owned(e.text_of("version")),
        scope: owned(e.text_of("scope")),
        optional: is_text(e.text_of("optional"), "true"),
        kind: owned_or(e.text_of("type"), "jar"),
        classifier: owned(e.text_of("classifier")),
        exclusions: read_exclusions(&e.list("exclusions", "exclusion")),
    }
}

pub open spec fn dependencies_of(list: Seq<ElementModel>) -> Seq<PomDependencyModel> {
    Seq::new(list.len(), |i: int| dependency_of(list[i]))
}

fn read_dependencies(list: &Vec<&Element>) -> (r: Vec<PomDependency>)
    ensures
        r.deep_view() == dependencies_of(list.deep_view()),
{
    let ghost all = list.deep_view();
    let mut out: Vec<PomDependency> = none_of();
    let mut i: usize = 0;
    while i < list.len()
        invariant
            all == list.deep_view(),
            i <= list@.len(),
            out.deep_view() =~= dependencies_of(all).take(i as int),
        decreases list@.len() - i,
    {
        assert(all[i as int] == list@[i as int].deep_view());
        put(&mut out, read_dependency(list[i]));
        i = i + 1;
    }
    assert(dependencies_of(all).take(i as int) =~= dependencies_of(all));
    out
}

// ---- plugins ---------------------------------------------------------------

/// A `<plugin>`, without its version.
#[derive(Debug)]
pub struct PluginInfo {
    pub artifact: String,
    pub configuration: Option<Element>,
    pub executions: Vec<Element>,
}

/// A `<plugin>`, without its version.
pub struct PluginModel {
    pub artifact: Seq<char>,
    pub configuration: Option<ElementModel>,
    pub executions: Seq<ElementModel>,
}

impl DeepView for PluginInfo {
    type V = PluginModel;

    open spec fn deep_view(&self) -> PluginModel {
        PluginModel {
            artifact: self.artifact@,
            configuration: self.configuration.deep_view(),
            executions: self.executions.deep_view(),
        }
    }
}

/// The plugin that an element is.
pub open spec fn plugin_of(e: ElementModel) -> PluginModel {
    PluginModel {
        artifact: text_or(e.text_of("artifactId"@), ""@),
        configuration: e.child("configuration"@),
        executions: e.list("executions"@, "execution"@),
    }
}

fn copy_elements(list: &Vec<&Element>) -> (r: Vec<Element>)
    ensures
        r.deep_view() == list.deep_view(),
{
    let ghost all = list.deep_view();
    let mut out: Vec<Element> = none_of();
    let mut i: usize = 0;
    while i < list.len()
        invariant
            all == list.deep_view(),
            i <= list@.len(),
            out.deep_view() =~= all.take(i as int),
        decreases list@.len() - i,
    {
        assert(all[i as int] == list@[i as int].deep_view());
        put(&mut out, list[i].duplicate());
        i = i + 1;
    }
    assert(all.take(i as int) =~= all);
    out
}

fn read_plugin(e: &Element) -> (r: PluginInfo)
    ensures
        r.deep_view() == plugin_of(e.deep_view()),
{
    PluginInfo {
        artifact: owned_or(e.text_of("artifactId"), ""),
        configuration: match e.child("configuration") {
            Some(c) => Some(c.duplicate()),
            None => None,
        },
        executions: copy_elements(&e.list("executions", "execution")),
    }
}

pub open spec fn plugins_of(list: Seq<ElementModel>) -> Seq<PluginModel> {
    Seq::new(list.len(), |i: int| plugin_of(list[i]))
}

fn read_plugins(list: &Vec<&Element>) -> (r: Vec<PluginInfo>)
    ensures
        r.deep_view() == plugins_of(list.deep_view()),
{
    let ghost all = list.deep_view();
    let mut out: Vec<PluginInfo> = none_of();
    let mut i: usize = 0;
    while i < list.len()
        invariant
            all == list.deep_view(),
            i <= list@.len(),
            out.deep_view() =~= plugins_of(all).take(i as int),
        decreases list@.len() - i,
    {
        assert(all[i as int] == list@[i as int].deep_view());
        put(&mut out, read_plugin(list[i]));
        i = i + 1;
    }
    assert(plugins_of(all).take(i as int) =~= plugins_of(all));
    out
}

// ---- the POM ---------------------------------------------------------------

/// A `<parent>`.
#[derive(Debug)]
pub struct ParentRef {
    pub group: String,
    pub artifact: String,
    pub version: String,
    /// `<relativePath>`, empty where it is there and empty.
    pub relative_path: Option<String>,
}

/// A `<parent>`.
pub struct ParentModel {
    pub group: Seq<char>,
    pub artifact: Seq<char>,
    pub version: Seq<char>,
    pub relative_path: Option<Seq<char>>,
}

impl DeepView for ParentRef {
    type V = ParentModel;

    open spec fn deep_view(&self) -> ParentModel {
        ParentModel {
            group: self.group@,
            artifact: self.artifact@,
            version: self.version@,
            relative_path: self.relative_path.deep_view(),
        }
    }
}

/// A `<profile>`.
#[derive(Debug)]
pub struct Profile {
    pub id: String,
    pub element: Element,
}

/// A `<profile>`.
pub struct ProfileModel {
    pub id: Seq<char>,
    pub element: ElementModel,
}

impl DeepView for Profile {
    type V = ProfileModel;

    open spec fn deep_view(&self) -> ProfileModel {
        ProfileModel { id: self.id@, element: self.element.deep_view() }
    }
}

/// What `<build>` says.
#[derive(Debug)]
pub struct Build {
    pub source_directory: Option<String>,
    pub test_source_directory: Option<String>,
    pub directory: Option<String>,
    pub resource_directories: Vec<String>,
    pub plugins: Vec<PluginInfo>,
}

/// What `<build>` says.
pub struct BuildModel {
    pub source_directory: Option<Seq<char>>,
    pub test_source_directory: Option<Seq<char>>,
    pub directory: Option<Seq<char>>,
    pub resource_directories: Seq<Seq<char>>,
    pub plugins: Seq<PluginModel>,
}

impl DeepView for Build {
    type V = BuildModel;

    open spec fn deep_view(&self) -> BuildModel {
        BuildModel {
            source_directory: self.source_directory.deep_view(),
            test_source_directory: self.test_source_directory.deep_view(),
            directory: self.directory.deep_view(),
            resource_directories: self.resource_directories.deep_view(),
            plugins: self.plugins.deep_view(),
        }
    }
}

/// A POM.
#[derive(Debug)]
pub struct Pom {
    pub root: Element,
    pub parent: Option<ParentRef>,
    pub group: Option<String>,
    pub artifact: String,
    pub version: Option<String>,
    pub properties: Vec<(String, String)>,
    pub dependencies: Vec<PomDependency>,
    /// `<dependencyManagement>`.
    pub managed: Vec<PomDependency>,
    pub repositories: Vec<(String, String)>,
    pub modules: Vec<String>,
    pub profiles: Vec<Profile>,
    pub build: Build,
}

/// A POM.
pub struct PomModel {
    pub root: ElementModel,
    pub parent: Option<ParentModel>,
    pub group: Option<Seq<char>>,
    pub artifact: Seq<char>,
    pub version: Option<Seq<char>>,
    pub properties: Properties,
    pub dependencies: Seq<PomDependencyModel>,
    pub managed: Seq<PomDependencyModel>,
    pub repositories: Seq<(Seq<char>, Seq<char>)>,
    pub modules: Seq<Seq<char>>,
    pub profiles: Seq<ProfileModel>,
    pub build: BuildModel,
}

impl DeepView for Pom {
    type V = PomModel;

    open spec fn deep_view(&self) -> PomModel {
        PomModel {
            root: self.root.deep_view(),
            parent: self.parent.deep_view(),
            group: self.group.deep_view(),
            artifact: self.artifact@,
            version: self.version.deep_view(),
            properties: self.properties.deep_view(),
            dependencies: self.dependencies.deep_view(),
            managed: self.managed.deep_view(),
            repositories: self.repositories.deep_view(),
            modules: self.modules.deep_view(),
            profiles: self.profiles.deep_view(),
            build: self.build.deep_view(),
        }
    }
}

/// The parent that an element is.
pub open spec fn parent_of(e: ElementModel) -> ParentModel {
    ParentModel {
        group: text_or(e.text_of("groupId"@), ""@),
        artifact: text_or(e.text_of("artifactId"@), ""@),
        version: text_or(e.text_of("version"@), ""@),
        relative_path: match e.child("relativePath"@) {
            Some(c) => Some(trimmed(c.text)),
            None => None,
        },
    }
}

fn read_parent(e: &Element) -> (r: ParentRef)
    ensures
        r.deep_view() == parent_of(e.deep_view()),
{
    ParentRef {
        group: owned_or(e.text_of("groupId"), ""),
        artifact: owned_or(e.text_of("artifactId"), ""),
        version: owned_or(e.text_of("version"), ""),
        relative_path: match e.child("relativePath") {
            Some(c) => Some(c.trimmed().to_owned()),
            None => None,
        },
    }
}

/// The properties of the elements from the `i`th on, after those before.
pub open spec fn properties_from(list: Seq<ElementModel>, i: int, out: Properties) -> Properties
    decreases list.len() - i,
{
    if i < 0 || i >= list.len() {
        out
    } else {
        properties_from(list, i + 1, with_property(out, list[i].name, trimmed(list[i].text)))
    }
}

fn read_properties(e: &Element) -> (r: Vec<(String, String)>)
    ensures
        r.deep_view() == properties_from(e.deep_view().children, 0, seq![]),
{
    let ghost all = e.children.deep_view();
    proof {
        lemma_children(*e);
    }
    let mut out: Vec<(String, String)> = none_of();
    let mut i: usize = 0;
    while i < e.children.len()
        invariant
            all == e.children.deep_view(),
            i <= e.children@.len(),
            properties_from(all, 0, seq![]) == properties_from(all, i as int, out.deep_view()),
        decreases e.children@.len() - i,
    {
        assert(all[i as int] == e.children@[i as int].deep_view());
        proof {
            lemma_children(e.children@[i as int]);
        }
        set_property(&mut out, e.children[i].name.as_str(), e.children[i].trimmed());
        i = i + 1;
    }
    out
}

/// The repositories of the elements from the `i`th on, after those before.
pub open spec fn repositories_from(
    list: Seq<ElementModel>,
    i: int,
    out: Seq<(Seq<char>, Seq<char>)>,
) -> Seq<(Seq<char>, Seq<char>)>
    decreases list.len() - i,
{
    if i < 0 || i >= list.len() {
        out
    } else {
        match (list[i].text_of("id"@), list[i].text_of("url"@)) {
            (Some(id), Some(url)) => repositories_from(list, i + 1, out.push((id, url))),
            _ => repositories_from(list, i + 1, out),
        }
    }
}

fn read_repositories(list: &Vec<&Element>) -> (r: Vec<(String, String)>)
    ensures
        r.deep_view() == repositories_from(list.deep_view(), 0, seq![]),
{
    let ghost all = list.deep_view();
    let mut out: Vec<(String, String)> = none_of();
    let mut i: usize = 0;
    while i < list.len()
        invariant
            all == list.deep_view(),
            i <= list@.len(),
            repositories_from(all, 0, seq![]) == repositories_from(all, i as int, out.deep_view()),
        decreases list@.len() - i,
    {
        assert(all[i as int] == list@[i as int].deep_view());
        match (list[i].text_of("id"), list[i].text_of("url")) {
            (Some(id), Some(url)) => {
                put(&mut out, (id.to_owned(), url.to_owned()));
            },
            _ => {},
        }
        i = i + 1;
    }
    out
}

/// The texts of elements.
pub open spec fn texts_of(list: Seq<ElementModel>) -> Seq<Seq<char>> {
    Seq::new(list.len(), |i: int| trimmed(list[i].text))
}

/// The texts of elements.
pub fn read_texts(list: &Vec<&Element>) -> (r: Vec<String>)
    ensures
        r.deep_view() == texts_of(list.deep_view()),
{
    let ghost all = list.deep_view();
    let mut out: Vec<String> = none_of();
    let mut i: usize = 0;
    while i < list.len()
        invariant
            all == list.deep_view(),
            i <= list@.len(),
            out.deep_view() =~= texts_of(all).take(i as int),
        decreases list@.len() - i,
    {
        assert(all[i as int] == list@[i as int].deep_view());
        put(&mut out, list[i].trimmed().to_owned());
        i = i + 1;
    }
    assert(texts_of(all).take(i as int) =~= texts_of(all));
    out
}

pub open spec fn profile_of(e: ElementModel) -> ProfileModel {
    ProfileModel { id: text_or(e.text_of("id"@), "default"@), element: e }
}

pub open spec fn profiles_of(list: Seq<ElementModel>) -> Seq<ProfileModel> {
    Seq::new(list.len(), |i: int| profile_of(list[i]))
}

fn read_profiles(list: &Vec<&Element>) -> (r: Vec<Profile>)
    ensures
        r.deep_view() == profiles_of(list.deep_view()),
{
    let ghost all = list.deep_view();
    let mut out: Vec<Profile> = none_of();
    let mut i: usize = 0;
    while i < list.len()
        invariant
            all == list.deep_view(),
            i <= list@.len(),
            out.deep_view() =~= profiles_of(all).take(i as int),
        decreases list@.len() - i,
    {
        assert(all[i as int] == list@[i as int].deep_view());
        put(
            &mut out,
            Profile {
                id: owned_or(list[i].text_of("id"), "default"),
                element: list[i].duplicate(),
            },
        );
        i = i + 1;
    }
    assert(profiles_of(all).take(i as int) =~= profiles_of(all));
    out
}

/// The directories of `<resource>`s, from the `i`th on, after those before.
pub open spec fn resources_from(list: Seq<ElementModel>, i: int, out: Seq<Seq<char>>) -> Seq<
    Seq<char>,
>
    decreases list.len() - i,
{
    if i < 0 || i >= list.len() {
        out
    } else {
        match list[i].text_of("directory"@) {
            Some(d) => resources_from(list, i + 1, out.push(d)),
            None => resources_from(list, i + 1, out),
        }
    }
}

fn read_resources(list: &Vec<&Element>) -> (r: Vec<String>)
    ensures
        r.deep_view() == resources_from(list.deep_view(), 0, seq![]),
{
    let ghost all = list.deep_view();
    let mut out: Vec<String> = none_of();
    let mut i: usize = 0;
    while i < list.len()
        invariant
            all == list.deep_view(),
            i <= list@.len(),
            resources_from(all, 0, seq![]) == resources_from(all, i as int, out.deep_view()),
        decreases list@.len() - i,
    {
        assert(all[i as int] == list@[i as int].deep_view());
        if let Some(d) = list[i].text_of("directory") {
            put(&mut out, d.to_owned());
        }
        i = i + 1;
    }
    out
}

/// What `<build>` says.
pub open spec fn build_of(e: ElementModel) -> BuildModel {
    BuildModel {
        source_directory: e.text_of("sourceDirectory"@),
        test_source_directory: e.text_of("testSourceDirectory"@),
        directory: e.text_of("directory"@),
        resource_directories: resources_from(e.list("resources"@, "resource"@), 0, seq![]),
        plugins: plugins_of(e.list("plugins"@, "plugin"@)),
    }
}

fn read_build(e: &Element) -> (r: Build)
    ensures
        r.deep_view() == build_of(e.deep_view()),
{
    Build {
        source_directory: owned(e.text_of("sourceDirectory")),
        test_source_directory: owned(e.text_of("testSourceDirectory")),
        directory: owned(e.text_of("directory")),
        resource_directories: read_resources(&e.list("resources", "resource")),
        plugins: read_plugins(&e.list("plugins", "plugin")),
    }
}

/// The POM that a `<project>` is.
pub open spec fn pom_of(root: ElementModel) -> PomModel {
    PomModel {
        root,
        parent: match root.child("parent"@) {
            Some(p) => Some(parent_of(p)),
            None => None,
        },
        group: root.text_of("groupId"@),
        artifact: text_or(root.text_of("artifactId"@), ""@),
        version: root.text_of("version"@),
        properties: match root.child("properties"@) {
            Some(p) => properties_from(p.children, 0, seq![]),
            None => seq![],
        },
        dependencies: dependencies_of(root.list("dependencies"@, "dependency"@)),
        managed: match root.child("dependencyManagement"@) {
            Some(d) => dependencies_of(d.list("dependencies"@, "dependency"@)),
            None => seq![],
        },
        repositories: repositories_from(root.list("repositories"@, "repository"@), 0, seq![]),
        modules: texts_of(root.list("modules"@, "module"@)),
        profiles: profiles_of(root.list("profiles"@, "profile"@)),
        build: match root.child("build"@) {
            Some(b) => build_of(b),
            None => build_of(empty_element("build"@)),
        },
    }
}

impl Pom {
    /// The POM that a `<project>` is.
    pub fn from_element(root: Element) -> (r: Pom)
        ensures
            r.deep_view() == pom_of(root.deep_view()),
    {
        let parent = match root.child("parent") {
            Some(p) => Some(read_parent(p)),
            None => None,
        };
        let properties = match root.child("properties") {
            Some(p) => read_properties(p),
            None => none_of(),
        };
        let managed = match root.child("dependencyManagement") {
            Some(d) => read_dependencies(&d.list("dependencies", "dependency")),
            None => none_of(),
        };
        let build = match root.child("build") {
            Some(b) => read_build(b),
            None => read_build(&Element::empty("build")),
        };
        let group = owned(root.text_of("groupId"));
        let artifact = owned_or(root.text_of("artifactId"), "");
        let version = owned(root.text_of("version"));
        let dependencies = read_dependencies(&root.list("dependencies", "dependency"));
        let repositories = read_repositories(&root.list("repositories", "repository"));
        let modules = read_texts(&root.list("modules", "module"));
        let profiles = read_profiles(&root.list("profiles", "profile"));
        Pom {
            root,
            parent,
            group,
            artifact,
            version,
            properties,
            dependencies,
            managed,
            repositories,
            modules,
            profiles,
            build,
        }
    }

    /// The POM that a text is.
    pub fn parse(text: &str) -> (r: Result<Pom, String>)
        ensures
            outcome(r) == (match parsed(text@) {
                Ok(root) => if root.name == "project"@ {
                    Ok::<PomModel, Seq<char>>(pom_of(root))
                } else {
                    Err("<"@ + root.name + "> is not a <project>"@)
                },
                Err(e) => Err(e),
            }),
    {
        let root = match parse_xml(text) {
            Ok(root) => root,
            Err(e) => {
                return Err(e);
            },
        };
        proof {
            lemma_children(root);
        }
        if !same(root.name.as_str(), "project") {
            return Err(cat3("<", root.name.as_str(), "> is not a <project>"));
        }
        Ok(Pom::from_element(root))
    }

    /// Its group, or else its parent's.
    pub fn group_id(&self) -> (r: Option<&str>)
        ensures
            r.deep_view() == self.deep_view().group_id(),
    {
        match &self.group {
            Some(g) => Some(g.as_str()),
            None => match &self.parent {
                Some(p) => Some(p.group.as_str()),
                None => None,
            },
        }
    }

    /// Its version, or else its parent's.
    pub fn version_id(&self) -> (r: Option<&str>)
        ensures
            r.deep_view() == self.deep_view().version_id(),
    {
        match &self.version {
            Some(v) => Some(v.as_str()),
            None => match &self.parent {
                Some(p) => Some(p.version.as_str()),
                None => None,
            },
        }
    }

    /// The value of the property `name`.
    pub fn property(&self, name: &str) -> (r: Option<&str>)
        ensures
            r.deep_view() == property(self.deep_view().properties, name@),
    {
        find_property(&self.properties, name)
    }
}

impl PomModel {
    /// Its group, or else its parent's.
    pub open spec fn group_id(self) -> Option<Seq<char>> {
        match self.group {
            Some(g) => Some(g),
            None => match self.parent {
                Some(p) => Some(p.group),
                None => None,
            },
        }
    }

    /// Its version, or else its parent's.
    pub open spec fn version_id(self) -> Option<Seq<char>> {
        match self.version {
            Some(v) => Some(v),
            None => match self.parent {
                Some(p) => Some(p.version),
                None => None,
            },
        }
    }
}

// ---- a chain of POMs -------------------------------------------------------

/// What a POM says with the parents that were read.
#[derive(Debug)]
pub struct Effective {
    pub group: String,
    pub artifact: String,
    pub version: String,
    pub properties: Vec<(String, String)>,
    /// The versions it manages, by group and artifact in order.
    pub managed: Vec<PomDependency>,
    /// The BOMs it imports.
    pub imports: Vec<PomDependency>,
    pub dependencies: Vec<PomDependency>,
    pub repositories: Vec<(String, String)>,
}

/// What a POM says with the parents that were read.
pub struct EffectiveModel {
    pub group: Seq<char>,
    pub artifact: Seq<char>,
    pub version: Seq<char>,
    pub properties: Properties,
    pub managed: Seq<PomDependencyModel>,
    pub imports: Seq<PomDependencyModel>,
    pub dependencies: Seq<PomDependencyModel>,
    pub repositories: Seq<(Seq<char>, Seq<char>)>,
}

impl DeepView for Effective {
    type V = EffectiveModel;

    open spec fn deep_view(&self) -> EffectiveModel {
        EffectiveModel {
            group: self.group@,
            artifact: self.artifact@,
            version: self.version@,
            properties: self.properties.deep_view(),
            managed: self.managed.deep_view(),
            imports: self.imports.deep_view(),
            dependencies: self.dependencies.deep_view(),
            repositories: self.repositories.deep_view(),
        }
    }
}

/// An option's text, interpolated.
pub open spec fn option_filled(s: Option<Seq<char>>, props: Properties) -> Option<Seq<char>> {
    match s {
        Some(s) => Some(interpolated(s, props)),
        None => None,
    }
}

fn fill_option(s: &Option<String>, props: &Vec<(String, String)>) -> (r: Option<String>)
    ensures
        r.deep_view() == option_filled(s.deep_view(), props.deep_view()),
{
    match s {
        Some(s) => Some(interpolate(s.as_str(), props)),
        None => None,
    }
}

/// A dependency with the values of its properties.
pub open spec fn dependency_filled(d: PomDependencyModel, props: Properties) -> PomDependencyModel {
    PomDependencyModel {
        group: interpolated(d.group, props),
        artifact: interpolated(d.artifact, props),
        version: option_filled(d.version, props),
        scope: option_filled(d.scope, props),
        kind: interpolated(d.kind, props),
        classifier: option_filled(d.classifier, props),
        ..d
    }
}

fn fill_dependency(d: &PomDependency, props: &Vec<(String, String)>) -> (r: PomDependency)
    ensures
        r.deep_view() == dependency_filled(d.deep_view(), props.deep_view()),
{
    PomDependency {
        group: interpolate(d.group.as_str(), props),
        artifact: interpolate(d.artifact.as_str(), props),
        version: fill_option(&d.version, props),
        scope: fill_option(&d.scope, props),
        optional: d.optional,
        kind: interpolate(d.kind.as_str(), props),
        classifier: fill_option(&d.classifier, props),
        exclusions: d.exclusions.duplicate(),
    }
}

/// Two name the same file.
pub open spec fn same_file(a: PomDependencyModel, b: PomDependencyModel) -> bool {
    a.group == b.group && a.artifact == b.artifact && a.kind == b.kind && a.classifier
        == b.classifier
}

fn is_same_file(a: &PomDependency, b: &PomDependency) -> (r: bool)
    ensures
        r == same_file(a.deep_view(), b.deep_view()),
{
    let classifier = match (&a.classifier, &b.classifier) {
        (Some(x), Some(y)) => same(x.as_str(), y.as_str()),
        (None, None) => true,
        _ => false,
    };
    same(a.group.as_str(), b.group.as_str()) && same(a.artifact.as_str(), b.artifact.as_str())
        && same(a.kind.as_str(), b.kind.as_str()) && classifier
}

/// The file of `d` is among those of the list.
pub open spec fn has_file(list: Seq<PomDependencyModel>, d: PomDependencyModel) -> bool {
    exists|i: int| 0 <= i < list.len() && same_file(#[trigger] list[i], d)
}

fn lists_file(list: &Vec<PomDependency>, d: &PomDependency) -> (r: bool)
    ensures
        r == has_file(list.deep_view(), d.deep_view()),
{
    let ghost all = list.deep_view();
    let mut i: usize = 0;
    while i < list.len()
        invariant
            all == list.deep_view(),
            i <= list@.len(),
            forall|j: int| 0 <= j < i ==> !same_file(#[trigger] all[j], d.deep_view()),
        decreases list@.len() - i,
    {
        assert(all[i as int] == list@[i as int].deep_view());
        if is_same_file(&list[i], d) {
            return true;
        }
        i = i + 1;
    }
    false
}

/// The dependencies from the `i`th on, with the values of their properties,
/// after those before: a parent adds what is not there.
pub open spec fn inherited_from(
    list: Seq<PomDependencyModel>,
    i: int,
    props: Properties,
    out: Seq<PomDependencyModel>,
) -> Seq<PomDependencyModel>
    decreases list.len() - i,
{
    if i < 0 || i >= list.len() {
        out
    } else {
        let d = dependency_filled(list[i], props);
        inherited_from(
            list,
            i + 1,
            props,
            if has_file(out, d) {
                out
            } else {
                out.push(d)
            },
        )
    }
}

/// `a` comes before `b`, by group and artifact.
pub open spec fn before_ga(a: PomDependencyModel, b: PomDependencyModel) -> bool {
    precedes(a.group, b.group) || (a.group == b.group && precedes(a.artifact, b.artifact))
}

/// The place for `d` among dependencies in order, from the `i`th on.
pub open spec fn ga_slot(list: Seq<PomDependencyModel>, d: PomDependencyModel, i: int) -> int
    decreases list.len() - i,
{
    if 0 <= i < list.len() && before_ga(list[i], d) {
        ga_slot(list, d, i + 1)
    } else {
        i
    }
}

/// Two have one group and artifact.
pub open spec fn same_ga(a: PomDependencyModel, b: PomDependencyModel) -> bool {
    a.group == b.group && a.artifact == b.artifact
}

/// The managed versions with one more, unless there is one.
pub open spec fn with_managed(list: Seq<PomDependencyModel>, d: PomDependencyModel) -> Seq<
    PomDependencyModel,
> {
    let k = ga_slot(list, d, 0);
    if k < list.len() && same_ga(list[k], d) {
        list
    } else {
        list.insert(k, d)
    }
}

fn add_managed(list: &mut Vec<PomDependency>, d: PomDependency)
    ensures
        final(list).deep_view() == with_managed(old(list).deep_view(), d.deep_view()),
{
    let ghost all = list.deep_view();
    let ghost dm = d.deep_view();
    let mut k: usize = 0;
    while k < list.len() && (is_before(list[k].group.as_str(), d.group.as_str()) || (same(
        list[k].group.as_str(),
        d.group.as_str(),
    ) && is_before(list[k].artifact.as_str(), d.artifact.as_str())))
        invariant
            list == old(list),
            all == list.deep_view(),
            dm == d.deep_view(),
            k <= list@.len(),
            ga_slot(all, dm, 0) == ga_slot(all, dm, k as int),
        decreases list@.len() - k,
    {
        assert(all[k as int] == list@[k as int].deep_view());
        k = k + 1;
    }
    if k < list.len() {
        assert(all[k as int] == list@[k as int].deep_view());
        if same(list[k].group.as_str(), d.group.as_str()) && same(
            list[k].artifact.as_str(),
            d.artifact.as_str(),
        ) {
            return ;
        }
    }
    list.insert(k, d);
    assert(list.deep_view() =~= all.insert(k as int, dm));
}

/// The managed versions and the imports from the `i`th on, after those before.
pub open spec fn managed_from(
    list: Seq<PomDependencyModel>,
    i: int,
    props: Properties,
    managed: Seq<PomDependencyModel>,
    imports: Seq<PomDependencyModel>,
) -> (Seq<PomDependencyModel>, Seq<PomDependencyModel>)
    decreases list.len() - i,
{
    if i < 0 || i >= list.len() {
        (managed, imports)
    } else {
        let d = dependency_filled(list[i], props);
        if scope_named(d.scope) == Scope::Import {
            managed_from(list, i + 1, props, managed, imports.push(d))
        } else {
            managed_from(list, i + 1, props, with_managed(managed, d), imports)
        }
    }
}

/// The repositories from the `i`th on, after those before: a parent adds what
/// is not there.
pub open spec fn more_repositories(
    list: Seq<(Seq<char>, Seq<char>)>,
    i: int,
    props: Properties,
    out: Seq<(Seq<char>, Seq<char>)>,
) -> Seq<(Seq<char>, Seq<char>)>
    decreases list.len() - i,
{
    if i < 0 || i >= list.len() {
        out
    } else {
        more_repositories(
            list,
            i + 1,
            props,
            if property(out, list[i].0) is Some {
                out
            } else {
                out.push((list[i].0, interpolated(list[i].1, props)))
            },
        )
    }
}

/// The properties of the POMs before the `n`th, the nearest winning.
pub open spec fn chain_properties(chain: Seq<PomModel>, n: int, props: Properties) -> Properties
    decreases n,
{
    if n <= 0 {
        props
    } else {
        chain_properties(chain, n - 1, with_properties(props, chain[n - 1].properties, 0))
    }
}

/// What the POMs from the `i`th on add to what those before say.
pub open spec fn chained(chain: Seq<PomModel>, i: int, e: EffectiveModel) -> EffectiveModel
    decreases chain.len() - i,
{
    if i < 0 || i >= chain.len() {
        e
    } else {
        let (managed, imports) = managed_from(
            chain[i].managed,
            0,
            e.properties,
            e.managed,
            e.imports,
        );
        chained(
            chain,
            i + 1,
            EffectiveModel {
                managed,
                imports,
                dependencies: inherited_from(
                    chain[i].dependencies,
                    0,
                    e.properties,
                    e.dependencies,
                ),
                repositories: more_repositories(
                    chain[i].repositories,
                    0,
                    e.properties,
                    e.repositories,
                ),
                ..e
            },
        )
    }
}

/// The properties that a project has of itself.
pub open spec fn own_properties(
    props: Properties,
    group: Seq<char>,
    artifact: Seq<char>,
    version: Seq<char>,
) -> Properties {
    with_property(
        with_property(
            with_property(props, "project.groupId"@, group),
            "project.artifactId"@,
            artifact,
        ),
        "project.version"@,
        version,
    )
}

/// What a POM says with the parents that were read, nearest first.
pub open spec fn effective_of(chain: Seq<PomModel>) -> Result<EffectiveModel, Fault> {
    let own = chain[0];
    match (own.group_id(), own.version_id()) {
        (Some(group), Some(version)) => {
            let declared = chain_properties(chain, chain.len() as int, seq![]);
            let v = interpolated(version, declared);
            let props = own_properties(declared, group, own.artifact, v);
            Ok(
                chained(
                    chain,
                    0,
                    EffectiveModel {
                        group,
                        artifact: own.artifact,
                        version: v,
                        properties: props,
                        managed: seq![],
                        imports: seq![],
                        dependencies: seq![],
                        repositories: seq![],
                    },
                ),
            )
        },
        (None, _) => Err(
            Fault::Resolve(
                own.artifact + " has no groupId, and neither has its parent"@,
            ),
        ),
        (_, None) => Err(
            Fault::Resolve(
                own.artifact + " has no version, and neither has its parent"@,
            ),
        ),
    }
}

fn inherit(
    list: &Vec<PomDependency>,
    props: &Vec<(String, String)>,
    out: &mut Vec<PomDependency>,
)
    ensures
        final(out).deep_view() == inherited_from(
            list.deep_view(),
            0,
            props.deep_view(),
            old(out).deep_view(),
        ),
{
    let ghost all = list.deep_view();
    let ghost p = props.deep_view();
    let ghost start = out.deep_view();
    let mut i: usize = 0;
    while i < list.len()
        invariant
            all == list.deep_view(),
            p == props.deep_view(),
            i <= list@.len(),
            inherited_from(all, 0, p, start) == inherited_from(all, i as int, p, out.deep_view()),
        decreases list@.len() - i,
    {
        assert(all[i as int] == list@[i as int].deep_view());
        let d = fill_dependency(&list[i], props);
        if !lists_file(out, &d) {
            put(out, d);
        }
        i = i + 1;
    }
}

fn manage_all(
    list: &Vec<PomDependency>,
    props: &Vec<(String, String)>,
    managed: &mut Vec<PomDependency>,
    imports: &mut Vec<PomDependency>,
)
    ensures
        (final(managed).deep_view(), final(imports).deep_view()) == managed_from(
            list.deep_view(),
            0,
            props.deep_view(),
            old(managed).deep_view(),
            old(imports).deep_view(),
        ),
{
    let ghost all = list.deep_view();
    let ghost p = props.deep_view();
    let ghost start = (managed.deep_view(), imports.deep_view());
    let mut i: usize = 0;
    while i < list.len()
        invariant
            all == list.deep_view(),
            p == props.deep_view(),
            i <= list@.len(),
            managed_from(all, 0, p, start.0, start.1) == managed_from(
                all,
                i as int,
                p,
                managed.deep_view(),
                imports.deep_view(),
            ),
        decreases list@.len() - i,
    {
        assert(all[i as int] == list@[i as int].deep_view());
        let d = fill_dependency(&list[i], props);
        if d.scope() == Scope::Import {
            put(imports, d);
        } else {
            add_managed(managed, d);
        }
        i = i + 1;
    }
}

fn add_repositories(
    list: &Vec<(String, String)>,
    props: &Vec<(String, String)>,
    out: &mut Vec<(String, String)>,
)
    ensures
        final(out).deep_view() == more_repositories(
            list.deep_view(),
            0,
            props.deep_view(),
            old(out).deep_view(),
        ),
{
    let ghost all = list.deep_view();
    let ghost p = props.deep_view();
    let ghost start = out.deep_view();
    let mut i: usize = 0;
    while i < list.len()
        invariant
            all == list.deep_view(),
            p == props.deep_view(),
            i <= list@.len(),
            more_repositories(all, 0, p, start) == more_repositories(
                all,
                i as int,
                p,
                out.deep_view(),
            ),
        decreases list@.len() - i,
    {
        assert(all[i as int] == (list@[i as int].0@, list@[i as int].1@));
        if find_property(out, list[i].0.as_str()).is_none() {
            put(out, (list[i].0.clone(), interpolate(list[i].1.as_str(), props)));
        }
        i = i + 1;
    }
}

fn gather_properties(chain: &Vec<Pom>) -> (r: Vec<(String, String)>)
    ensures
        r.deep_view() == chain_properties(chain.deep_view(), chain@.len() as int, seq![]),
{
    let ghost all = chain.deep_view();
    let mut props: Vec<(String, String)> = none_of();
    let mut n: usize = chain.len();
    while n > 0
        invariant
            all == chain.deep_view(),
            n <= chain@.len(),
            chain_properties(all, all.len() as int, seq![]) == chain_properties(
                all,
                n as int,
                props.deep_view(),
            ),
        decreases n,
    {
        n = n - 1;
        assert(all[n as int] == chain@[n as int].deep_view());
        set_properties(&mut props, &chain[n].properties);
    }
    props
}

/// What a POM says with the parents that were read, nearest first.
pub fn effective(chain: &Vec<Pom>) -> (r: Result<Effective, JrsError>)
    requires
        chain@.len() > 0,
    ensures
        outcome(r) == effective_of(chain.deep_view()),
{
    let ghost all = chain.deep_view();
    assert(all[0] == chain@[0].deep_view());
    let own = &chain[0];
    let Some(group) = own.group_id() else {
        return Err(
            JrsError::Resolve(
                crate::text::cat2(
                    own.artifact.as_str(),
                    " has no groupId, and neither has its parent",
                ),
            ),
        );
    };
    let Some(version) = own.version_id() else {
        return Err(
            JrsError::Resolve(
                crate::text::cat2(
                    own.artifact.as_str(),
                    " has no version, and neither has its parent",
                ),
            ),
        );
    };
    let mut props = gather_properties(chain);
    assert(all.len() == chain@.len());
    let v = interpolate(version, &props);
    set_property(&mut props, "project.groupId", group);
    set_property(&mut props, "project.artifactId", own.artifact.as_str());
    set_property(&mut props, "project.version", v.as_str());
    let mut e = Effective {
        group: group.to_owned(),
        artifact: own.artifact.clone(),
        version: v,
        properties: props,
        managed: none_of(),
        imports: none_of(),
        dependencies: none_of(),
        repositories: none_of(),
    };
    let ghost start = e.deep_view();
    assert(effective_of(all) == Ok::<EffectiveModel, Fault>(chained(all, 0, start)));
    let mut i: usize = 0;
    while i < chain.len()
        invariant
            all == chain.deep_view(),
            i <= chain@.len(),
            effective_of(all) == Ok::<EffectiveModel, Fault>(chained(all, 0, start)),
            chained(all, 0, start) == chained(all, i as int, e.deep_view()),
        decreases chain@.len() - i,
    {
        assert(all[i as int] == chain@[i as int].deep_view());
        manage_all(&chain[i].managed, &e.properties, &mut e.managed, &mut e.imports);
        inherit(&chain[i].dependencies, &e.properties, &mut e.dependencies);
        add_repositories(&chain[i].repositories, &e.properties, &mut e.repositories);
        i = i + 1;
    }
    Ok(e)
}

/// The managed dependency of one group and artifact, from the `i`th on.
pub open spec fn managed_named(
    list: Seq<PomDependencyModel>,
    group: Seq<char>,
    artifact: Seq<char>,
    i: int,
) -> Option<PomDependencyModel>
    decreases list.len() - i,
{
    if i < 0 || i >= list.len() {
        None
    } else if list[i].group == group && list[i].artifact == artifact {
        Some(list[i])
    } else {
        managed_named(list, group, artifact, i + 1)
    }
}

/// The first that is there.
pub open spec fn either(a: Option<Seq<char>>, b: Option<Seq<char>>) -> Option<Seq<char>> {
    match a {
        Some(_) => a,
        None => b,
    }
}

impl EffectiveModel {
    /// A dependency with what is managed of it.
    pub open spec fn managing(self, d: PomDependencyModel) -> PomDependencyModel {
        match managed_named(self.managed, d.group, d.artifact, 0) {
            Some(m) => PomDependencyModel {
                version: either(d.version, m.version),
                scope: either(d.scope, m.scope),
                exclusions: if d.exclusions.len() > 0 {
                    d.exclusions
                } else {
                    m.exclusions
                },
                ..d
            },
            None => d,
        }
    }
}

impl Effective {
    /// The managed dependency of one group and artifact.
    pub fn find_managed(&self, group: &str, artifact: &str) -> (r: Option<&PomDependency>)
        ensures
            r.deep_view() == managed_named(self.deep_view().managed, group@, artifact@, 0),
    {
        let ghost all = self.managed.deep_view();
        let mut i: usize = 0;
        while i < self.managed.len()
            invariant
                all == self.managed.deep_view(),
                i <= self.managed@.len(),
                managed_named(all, group@, artifact@, 0) == managed_named(
                    all,
                    group@,
                    artifact@,
                    i as int,
                ),
            decreases self.managed@.len() - i,
        {
            assert(all[i as int] == self.managed@[i as int].deep_view());
            if same(self.managed[i].group.as_str(), group) && same(
                self.managed[i].artifact.as_str(),
                artifact,
            ) {
                return Some(&self.managed[i]);
            }
            i = i + 1;
        }
        None
    }

    /// A dependency with what is managed of it: its version and scope where it
    /// has none, and its exclusions.
    pub fn manage(&self, d: &PomDependency) -> (r: PomDependency)
        ensures
            r.deep_view() == self.deep_view().managing(d.deep_view()),
    {
        let mut out = d.duplicate();
        if let Some(m) = self.find_managed(d.group.as_str(), d.artifact.as_str()) {
            if out.version.is_none() {
                out.version = m.version.duplicate();
            }
            if out.scope.is_none() {
                out.scope = m.scope.duplicate();
            }
            if out.exclusions.len() == 0 {
                out.exclusions = m.exclusions.duplicate();
            }
        }
        out
    }

    /// The value of the property `name`.
    pub fn property(&self, name: &str) -> (r: Option<&str>)
        ensures
            r.deep_view() == property(self.deep_view().properties, name@),
    {
        find_property(&self.properties, name)
    }
}

} // verus!
