//! Strings with placeholders in them.

use crate::error::JrsError;
use crate::text::{
    cat3, chars, lemma_run_end, none_of, one_of, put, run_end, same, string_of, Class, Duplicate,
};
use vstd::prelude::*;

verus! {

/// A `{placeholder}` in a value, expanded by jrs before a process starts.
#[derive(Debug, Clone, Copy, PartialEq, Eq, Hash, Structural)]
pub enum Placeholder {
    Root,
    Target,
    ProjectName,
    ProjectVersion,
    Classes,
    TestClasses,
    Classpath,
    RuntimeClasspath,
    TestClasspath,
    ClasspathArgfile,
    Jar,
}

impl DeepView for Placeholder {
    type V = Placeholder;

    open spec fn deep_view(&self) -> Placeholder {
        *self
    }
}

impl Placeholder {
    /// The name between the braces.
    pub open spec fn word(self) -> Seq<char> {
        match self {
            Placeholder::Root => "root"@,
            Placeholder::Target => "target"@,
            Placeholder::ProjectName => "project.name"@,
            Placeholder::ProjectVersion => "project.version"@,
            Placeholder::Classes => "classes"@,
            Placeholder::TestClasses => "test-classes"@,
            Placeholder::Classpath => "classpath"@,
            Placeholder::RuntimeClasspath => "runtime-classpath"@,
            Placeholder::TestClasspath => "test-classpath"@,
            Placeholder::ClasspathArgfile => "classpath-argfile"@,
            Placeholder::Jar => "jar"@,
        }
    }

    /// Its value needs the resolved dependency graph.
    pub open spec fn on_classpath(self) -> bool {
        self is Classpath || self is RuntimeClasspath || self is TestClasspath
            || self is ClasspathArgfile
    }

    /// The name between the braces.
    pub fn name(self) -> (r: &'static str)
        ensures
            r@ == self.word(),
    {
        match self {
            Placeholder::Root => "root",
            Placeholder::Target => "target",
            Placeholder::ProjectName => "project.name",
            Placeholder::ProjectVersion => "project.version",
            Placeholder::Classes => "classes",
            Placeholder::TestClasses => "test-classes",
            Placeholder::Classpath => "classpath",
            Placeholder::RuntimeClasspath => "runtime-classpath",
            Placeholder::TestClasspath => "test-classpath",
            Placeholder::ClasspathArgfile => "classpath-argfile",
            Placeholder::Jar => "jar",
        }
    }

    /// The ones whose value needs the resolved dependency graph.
    pub fn is_classpath(self) -> (r: bool)
        ensures
            r == self.on_classpath(),
    {
        matches!(
            self,
            Placeholder::Classpath | Placeholder::RuntimeClasspath | Placeholder::TestClasspath
            | Placeholder::ClasspathArgfile
        )
    }

    /// The placeholder called `name`.
    pub fn named(name: &str) -> (r: Option<Placeholder>)
        ensures
            r == placeholder_named(name@),
    {
        if same(name, "root") {
            Some(Placeholder::Root)
        } else if same(name, "target") {
            Some(Placeholder::Target)
        } else if same(name, "project.name") {
            Some(Placeholder::ProjectName)
        } else if same(name, "project.version") {
            Some(Placeholder::ProjectVersion)
        } else if same(name, "classes") {
            Some(Placeholder::Classes)
        } else if same(name, "test-classes") {
            Some(Placeholder::TestClasses)
        } else if same(name, "classpath") {
            Some(Placeholder::Classpath)
        } else if same(name, "runtime-classpath") {
            Some(Placeholder::RuntimeClasspath)
        } else if same(name, "test-classpath") {
            Some(Placeholder::TestClasspath)
        } else if same(name, "classpath-argfile") {
            Some(Placeholder::ClasspathArgfile)
        } else if same(name, "jar") {
            Some(Placeholder::Jar)
        } else {
            None
        }
    }
}

/// The placeholder called `name`.
pub open spec fn placeholder_named(name: Seq<char>) -> Option<Placeholder> {
    if name == "root"@ {
        Some(Placeholder::Root)
    } else if name == "target"@ {
        Some(Placeholder::Target)
    } else if name == "project.name"@ {
        Some(Placeholder::ProjectName)
    } else if name == "project.version"@ {
        Some(Placeholder::ProjectVersion)
    } else if name == "classes"@ {
        Some(Placeholder::Classes)
    } else if name == "test-classes"@ {
        Some(Placeholder::TestClasses)
    } else if name == "classpath"@ {
        Some(Placeholder::Classpath)
    } else if name == "runtime-classpath"@ {
        Some(Placeholder::RuntimeClasspath)
    } else if name == "test-classpath"@ {
        Some(Placeholder::TestClasspath)
    } else if name == "classpath-argfile"@ {
        Some(Placeholder::ClasspathArgfile)
    } else if name == "jar"@ {
        Some(Placeholder::Jar)
    } else {
        None
    }
}

/// Every placeholder is found by its name, and by no other.
pub proof fn placeholder_names_are_their_own(p: Placeholder, name: Seq<char>)
    ensures
        placeholder_named(name) == Some(p) <==> name == p.word(),
{
    reveal_strlit("root");
    reveal_strlit("target");
    reveal_strlit("project.name");
    reveal_strlit("project.version");
    reveal_strlit("classes");
    reveal_strlit("test-classes");
    reveal_strlit("classpath");
    reveal_strlit("runtime-classpath");
    reveal_strlit("test-classpath");
    reveal_strlit("classpath-argfile");
    reveal_strlit("jar");
    assert("root"@.len() == 4);
    assert("target"@.len() == 6);
    assert("project.name"@.len() == 12);
    assert("project.version"@.len() == 15);
    assert("classes"@.len() == 7);
    assert("test-classes"@.len() == 12);
    assert("classpath"@.len() == 9);
    assert("runtime-classpath"@.len() == 17);
    assert("test-classpath"@.len() == 14);
    assert("classpath-argfile"@.len() == 17);
    assert("jar"@.len() == 3);
    assert("runtime-classpath"@[0] != "classpath-argfile"@[0]);
    assert("project.name"@[0] != "test-classes"@[0]);
}

#[derive(Debug, PartialEq, Eq)]
pub enum Segment {
    Text(String),
    Placeholder(Placeholder),
}

/// What a segment is.
pub enum SegmentModel {
    Text(Seq<char>),
    Placeholder(Placeholder),
}

/// A string that may hold placeholders, parsed once when the manifest loads
/// so that a typo fails then rather than as a baffling tool error.
#[derive(Debug, PartialEq, Eq)]
pub struct Template {
    /// As written in `jrs.toml`.
    pub raw: String,
    pub segments: Vec<Segment>,
}

/// What a template is.
pub struct TemplateModel {
    pub raw: Seq<char>,
    pub segments: Seq<SegmentModel>,
}

impl DeepView for Segment {
    type V = SegmentModel;

    open spec fn deep_view(&self) -> SegmentModel {
        match self {
            Segment::Text(t) => SegmentModel::Text(t@),
            Segment::Placeholder(p) => SegmentModel::Placeholder(*p),
        }
    }
}

impl DeepView for Template {
    type V = TemplateModel;

    open spec fn deep_view(&self) -> TemplateModel {
        TemplateModel { raw: self.raw@, segments: self.segments.deep_view() }
    }
}

impl Duplicate for Segment {
    fn duplicate(&self) -> Segment {
        match self {
            Segment::Text(t) => Segment::Text(t.clone()),
            Segment::Placeholder(p) => Segment::Placeholder(*p),
        }
    }
}

impl Duplicate for Template {
    fn duplicate(&self) -> Template {
        Template { raw: self.raw.clone(), segments: self.segments.duplicate() }
    }
}

/// The segments, and the text after them when there is any.
pub open spec fn with_text(segments: Seq<SegmentModel>, text: Seq<char>) -> Seq<SegmentModel> {
    if text.len() > 0 {
        segments.push(SegmentModel::Text(text))
    } else {
        segments
    }
}

pub open spec fn unclosed_message(raw: Seq<char>) -> Seq<char> {
    "`"@ + raw + "` has an unclosed `{`; write `{{` for a literal brace"@
}

pub open spec fn stray_message(raw: Seq<char>) -> Seq<char> {
    "`"@ + raw + "` has a stray `}`; write `}}` for a literal brace"@
}

pub open spec fn unknown_message(name: Seq<char>) -> Seq<char> {
    "unknown placeholder `{"@ + name
        + "}` (known: `{root}`, `{target}`, `{project.name}`, `{project.version}`, `{classes}`, `{test-classes}`, `{classpath}`, `{runtime-classpath}`, `{test-classpath}`, `{classpath-argfile}`, `{jar}`)"@
}

/// What the rest of `raw` from `i` on reads as, after the segments and the
/// text that stand before it: `{{` and `}}` are braces, `{name}` is a
/// placeholder, any other brace is an error.
pub open spec fn read_template(
    raw: Seq<char>,
    i: int,
    segments: Seq<SegmentModel>,
    text: Seq<char>,
) -> Result<Seq<SegmentModel>, Seq<char>>
    decreases raw.len() - i,
    when 0 <= i <= raw.len()
{
    if i == raw.len() {
        Ok(with_text(segments, text))
    } else if (raw[i] == '{' || raw[i] == '}') && i + 1 < raw.len() && raw[i + 1] == raw[i] {
        read_template(raw, i + 2, segments, text.push(raw[i]))
    } else if raw[i] == '{' {
        let end = run_end(raw, Class::Not('}'), i + 1);
        proof {
            lemma_run_end(raw, Class::Not('}'), i + 1);
        }
        if end >= raw.len() {
            Err(unclosed_message(raw))
        } else {
            match placeholder_named(raw.subrange(i + 1, end)) {
                None => Err(unknown_message(raw.subrange(i + 1, end))),
                Some(p) => read_template(
                    raw,
                    end + 1,
                    with_text(segments, text).push(SegmentModel::Placeholder(p)),
                    seq![],
                ),
            }
        }
    } else if raw[i] == '}' {
        Err(stray_message(raw))
    } else {
        read_template(raw, i + 1, segments, text.push(raw[i]))
    }
}

/// The template that `raw` is, or why it is none.
pub open spec fn template_of(raw: Seq<char>) -> Result<TemplateModel, Seq<char>> {
    match read_template(raw, 0, seq![], seq![]) {
        Ok(segments) => Ok(TemplateModel { raw, segments }),
        Err(e) => Err(e),
    }
}

/// `text` with its braces doubled.
pub open spec fn escaped(text: Seq<char>) -> Seq<char>
    decreases text.len(),
{
    if text.len() == 0 {
        text
    } else {
        let c = text.last();
        let before = escaped(text.drop_last());
        if c == '{' || c == '}' {
            before.push(c).push(c)
        } else {
            before.push(c)
        }
    }
}

/// The template that is `text` and nothing else.
pub open spec fn literal_template(text: Seq<char>) -> TemplateModel {
    TemplateModel { raw: escaped(text), segments: with_text(seq![], text) }
}

impl TemplateModel {
    /// Its placeholders, in order.
    pub open spec fn placeholders(self) -> Seq<Placeholder> {
        placeholders_of(self.segments)
    }

    /// It holds `p`.
    pub open spec fn uses(self, p: Placeholder) -> bool {
        self.placeholders().contains(p)
    }
}

pub open spec fn placeholders_of(segments: Seq<SegmentModel>) -> Seq<Placeholder>
    decreases segments.len(),
{
    if segments.len() == 0 {
        seq![]
    } else {
        let before = placeholders_of(segments.drop_last());
        match segments.last() {
            SegmentModel::Text(_) => before,
            SegmentModel::Placeholder(p) => before.push(p),
        }
    }
}

/// One text after another.
pub open spec fn run_together(parts: Seq<Seq<char>>) -> Seq<char>
    decreases parts.len(),
{
    if parts.len() == 0 {
        seq![]
    } else {
        run_together(parts.drop_last()) + parts.last()
    }
}

/// `part` is what `value` makes of `segment`.
pub open spec fn expands<F: Fn(Placeholder) -> Result<String, JrsError>>(
    value: F,
    segment: SegmentModel,
    part: Seq<char>,
) -> bool {
    match segment {
        SegmentModel::Text(t) => part == t,
        SegmentModel::Placeholder(p) => exists|s: String|
            #![auto]
            call_ensures(value, (p,), Ok(s)) && s@ == part,
    }
}

/// `value` makes something of `segment`.
pub open spec fn given<F: Fn(Placeholder) -> Result<String, JrsError>>(
    value: F,
    segment: SegmentModel,
) -> bool {
    match segment {
        SegmentModel::Text(_) => true,
        SegmentModel::Placeholder(p) => exists|s: String|
            #[trigger] call_ensures(value, (p,), Ok(s)),
    }
}

/// `segment` is a placeholder for which `value` gives the error.
pub open spec fn fails<F: Fn(Placeholder) -> Result<String, JrsError>>(
    value: F,
    segment: SegmentModel,
    e: JrsError,
) -> bool {
    match segment {
        SegmentModel::Text(_) => false,
        SegmentModel::Placeholder(p) => call_ensures(value, (p,), Err(e)),
    }
}

impl Template {
    /// Parse `raw`. `{{` and `}}` are literal braces. An unknown placeholder,
    /// an unclosed `{` or a stray `}` is an error, its message without the
    /// key, which the caller knows.
    pub fn parse(raw: &str) -> (r: Result<Template, String>)
        ensures
            crate::text::outcome(r) == template_of(raw@),
    {
        let cs = chars(raw);
        let n: usize = cs.len();
        let mut segments: Vec<Segment> = none_of();
        let mut text = String::new();
        let mut i: usize = 0;
        while i < n
            invariant
                cs@ == raw@,
                n == cs@.len(),
                i <= n,
                read_template(raw@, 0, seq![], seq![]) == read_template(
                    raw@,
                    i as int,
                    segments.deep_view(),
                    text@,
                ),
            decreases n - i,
        {
            let c: char = cs[i];
            if (c == '{' || c == '}') && i + 1 < n && cs[i + 1] == c {
                text.push(c);
                i = i + 2;
            } else if c == '{' {
                let mut end: usize = i + 1;
                while end < n && cs[end] != '}'
                    invariant
                        cs@ == raw@,
                        n == cs@.len(),
                        i < end <= n,
                        run_end(raw@, Class::Not('}'), i + 1) == run_end(
                            raw@,
                            Class::Not('}'),
                            end as int,
                        ),
                    decreases n - end,
                {
                    end = end + 1;
                }
                if end == n {
                    return Err(
                        cat3("`", raw, "` has an unclosed `{`; write `{{` for a literal brace"),
                    );
                }
                let name = string_of(&cs, i + 1, end);
                match Placeholder::named(name.as_str()) {
                    None => {
                        return Err(
                            cat3(
                                "unknown placeholder `{",
                                name.as_str(),
                                "}` (known: `{root}`, `{target}`, `{project.name}`, `{project.version}`, `{classes}`, `{test-classes}`, `{classpath}`, `{runtime-classpath}`, `{test-classpath}`, `{classpath-argfile}`, `{jar}`)",
                            ),
                        );
                    },
                    Some(p) => {
                        if !text.as_str().is_empty() {
                            put(&mut segments, Segment::Text(text));
                        }
                        put(&mut segments, Segment::Placeholder(p));
                        text = String::new();
                        assert(text@ =~= seq![]);
                    },
                }
                i = end + 1;
            } else if c == '}' {
                return Err(cat3("`", raw, "` has a stray `}`; write `}}` for a literal brace"));
            } else {
                text.push(c);
                i = i + 1;
            }
        }
        if !text.as_str().is_empty() {
            put(&mut segments, Segment::Text(text));
        }
        Ok(Template { raw: raw.to_owned(), segments })
    }

    /// A template that is all text: braces in `text` are escaped, so nothing
    /// in it reads as a placeholder.
    pub fn literal(text: &str) -> (r: Template)
        ensures
            r.deep_view() == literal_template(text@),
    {
        let cs = chars(text);
        let mut raw = String::new();
        let mut i: usize = 0;
        while i < cs.len()
            invariant
                cs@ == text@,
                i <= cs@.len(),
                raw@ == escaped(text@.take(i as int)),
            decreases cs@.len() - i,
        {
            assert(text@.take(i + 1).drop_last() =~= text@.take(i as int));
            let c: char = cs[i];
            raw.push(c);
            if c == '{' || c == '}' {
                raw.push(c);
            }
            i = i + 1;
        }
        assert(text@.take(i as int) =~= text@);
        let segments: Vec<Segment> = if text.is_empty() {
            none_of()
        } else {
            one_of(Segment::Text(text.to_owned()))
        };
        assert(segments.deep_view() =~= with_text(seq![], text@));
        Template { raw, segments }
    }

    /// Whether both are written alike and read alike.
    pub fn is(&self, other: &Template) -> (r: bool)
        ensures
            r == (self.deep_view() == other.deep_view()),
    {
        assert(self.deep_view().segments.len() == self.segments@.len());
        assert(other.deep_view().segments.len() == other.segments@.len());
        if !same(self.raw.as_str(), other.raw.as_str()) || self.segments.len()
            != other.segments.len() {
            return false;
        }
        let mut i: usize = 0;
        while i < self.segments.len()
            invariant
                self.segments@.len() == other.segments@.len(),
                i <= self.segments@.len(),
                forall|j: int|
                    0 <= j < i ==> self.deep_view().segments[j] == other.deep_view().segments[j],
            decreases self.segments@.len() - i,
        {
            assert(self.deep_view().segments[i as int] == self.segments@[i as int].deep_view());
            assert(other.deep_view().segments[i as int] == other.segments@[i as int].deep_view());
            let alike = match (&self.segments[i], &other.segments[i]) {
                (Segment::Text(a), Segment::Text(b)) => same(a.as_str(), b.as_str()),
                (Segment::Placeholder(a), Segment::Placeholder(b)) => *a == *b,
                _ => false,
            };
            if !alike {
                return false;
            }
            i = i + 1;
        }
        assert(self.deep_view().segments =~= other.deep_view().segments);
        true
    }

    /// Its placeholders, in order.
    pub fn placeholders(&self) -> (r: Vec<Placeholder>)
        ensures
            r@ == self.deep_view().placeholders(),
    {
        let mut out: Vec<Placeholder> = Vec::new();
        let mut i: usize = 0;
        let ghost all = self.segments.deep_view();
        while i < self.segments.len()
            invariant
                all == self.segments.deep_view(),
                i <= self.segments@.len(),
                out@ == placeholders_of(all.take(i as int)),
            decreases self.segments@.len() - i,
        {
            assert(all.take(i + 1).drop_last() =~= all.take(i as int));
            match &self.segments[i] {
                Segment::Placeholder(p) => out.push(*p),
                Segment::Text(_) => {},
            }
            i = i + 1;
        }
        assert(all.take(i as int) =~= all);
        out
    }

    /// Substitute every placeholder, from the left, with what `value` says it
    /// is. The error is what `value` returns for the first it cannot supply.
    pub fn expand<F: Fn(Placeholder) -> Result<String, JrsError>>(&self, value: F) -> (r: Result<
        String,
        JrsError,
    >)
        requires
            forall|p: Placeholder| call_requires(value, (p,)),
        ensures
            match r {
                Ok(s) => exists|parts: Seq<Seq<char>>|
                    {
                        &&& parts.len() == self.segments@.len()
                        &&& s@ == #[trigger] run_together(parts)
                        &&& forall|i: int|
                            0 <= i < parts.len() ==> expands(
                                value,
                                self.segments.deep_view()[i],
                                #[trigger] parts[i],
                            )
                    },
                Err(e) => exists|k: int|
                    {
                        &&& 0 <= k < self.segments@.len()
                        &&& #[trigger] fails(value, self.segments.deep_view()[k], e)
                        &&& forall|i: int|
                            0 <= i < k ==> given(value, #[trigger] self.segments.deep_view()[i])
                    },
            },
    {
        let mut out = String::new();
        let ghost mut parts: Seq<Seq<char>> = seq![];
        let ghost all = self.segments.deep_view();
        let mut i: usize = 0;
        while i < self.segments.len()
            invariant
                forall|p: Placeholder| call_requires(value, (p,)),
                all == self.segments.deep_view(),
                i <= self.segments@.len(),
                parts.len() == i,
                out@ == run_together(parts),
                forall|j: int|
                    0 <= j < i ==> expands(value, all[j], #[trigger] parts[j]),
            decreases self.segments@.len() - i,
        {
            match &self.segments[i] {
                Segment::Text(t) => {
                    out.append(t.as_str());
                    proof {
                        assert(parts.push(t@).drop_last() =~= parts);
                        parts = parts.push(t@);
                    }
                },
                Segment::Placeholder(p) => {
                    match value(*p) {
                        Ok(s) => {
                            out.append(s.as_str());
                            proof {
                                assert(parts.push(s@).drop_last() =~= parts);
                                parts = parts.push(s@);
                            }
                        },
                        Err(e) => {
                            assert(fails(value, all[i as int], e));
                            assert forall|j: int| 0 <= j < i implies given(
                                value,
                                #[trigger] all[j],
                            ) by {
                                assert(expands(value, all[j], parts[j]));
                            }
                            return Err(e);
                        },
                    }
                },
            }
            i = i + 1;
        }
        Ok(out)
    }
}

pub proof fn lemma_placeholder_listed(segments: Seq<SegmentModel>, i: int)
    requires
        0 <= i < segments.len(),
        segments[i] is Placeholder,
    ensures
        placeholders_of(segments).contains(segments[i]->Placeholder_0),
    decreases segments.len(),
{
    let p = segments[i]->Placeholder_0;
    let before = placeholders_of(segments.drop_last());
    if i == segments.len() - 1 {
        assert(placeholders_of(segments)[before.len() as int] == p);
    } else {
        lemma_placeholder_listed(segments.drop_last(), i);
        let k = choose|k: int| 0 <= k < before.len() && before[k] == p;
        assert(placeholders_of(segments)[k] == p);
    }
}

/// Text without braces stands as it is.
pub proof fn plain_text_is_not_escaped(text: Seq<char>)
    requires
        forall|i: int| 0 <= i < text.len() ==> text[i] != '{' && text[i] != '}',
    ensures
        escaped(text) == text,
    decreases text.len(),
{
    if text.len() > 0 {
        plain_text_is_not_escaped(text.drop_last());
        assert(text.drop_last().push(text.last()) =~= text);
    } else {
        assert(text =~= seq![]);
    }
}

proof fn lemma_escaped_prefix(text: Seq<char>, k: int)
    requires
        0 <= k <= text.len(),
    ensures
        escaped(text).len() >= escaped(text.take(k)).len(),
        escaped(text).take(escaped(text.take(k)).len() as int) == escaped(text.take(k)),
    decreases text.len(),
{
    if k == text.len() {
        assert(text.take(k) =~= text);
        assert(escaped(text).take(escaped(text).len() as int) =~= escaped(text));
    } else {
        lemma_escaped_prefix(text.drop_last(), k);
        assert(text.drop_last().take(k) =~= text.take(k));
        let n = escaped(text.take(k)).len() as int;
        assert(escaped(text).take(n) =~= escaped(text.drop_last()).take(n));
    }
}

proof fn lemma_literal_read(text: Seq<char>, k: int)
    requires
        0 <= k <= text.len(),
    ensures
        read_template(
            escaped(text),
            escaped(text.take(k)).len() as int,
            seq![],
            text.take(k),
        ) == Ok::<Seq<SegmentModel>, Seq<char>>(with_text(seq![], text)),
        escaped(text.take(k)).len() <= escaped(text).len(),
    decreases text.len() - k,
{
    lemma_escaped_prefix(text, k);
    if k == text.len() {
        assert(text.take(k) =~= text);
    } else {
        lemma_literal_read(text, k + 1);
        lemma_escaped_prefix(text, k + 1);
        assert(text.take(k + 1).drop_last() =~= text.take(k));
        assert(text.take(k + 1) =~= text.take(k).push(text[k]));
        let i = escaped(text.take(k)).len() as int;
        let next = escaped(text.take(k + 1));
        assert(escaped(text).take(next.len() as int)[i] == next[i]);
        assert(next[i] == text[k]);
        if text[k] == '{' || text[k] == '}' {
            assert(escaped(text).take(next.len() as int)[i + 1] == next[i + 1]);
        }
    }
}

/// A literal, written and read again, is the text it was made from, and holds
/// no placeholder.
pub proof fn literals_read_back(text: Seq<char>)
    ensures
        template_of(literal_template(text).raw) == Ok::<TemplateModel, Seq<char>>(
            literal_template(text),
        ),
        literal_template(text).placeholders().len() == 0,
{
    lemma_literal_read(text, 0);
    assert(text.take(0) =~= seq![]);
    assert(escaped(seq![]) =~= Seq::<char>::empty());
    reveal_with_fuel(placeholders_of, 2);
    assert(with_text(seq![], text).len() <= 1);
    if text.len() > 0 {
        assert(with_text(seq![], text).drop_last() =~= seq![]);
    }
}

} // verus!
