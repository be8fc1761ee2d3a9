//! What the configuration of an obfuscation says, line by line.

use crate::obfuscate::{
    config_of, config_start, config_to_main, config_to_providers, entry_of, jmod_path, main_line,
    section_line, with_section, FIXED, JMOD_FILTER, ObfuscationModel, Section,
};
use crate::text::{bare_line, ends, includes, lemma_run_end, line_seq, run_end, Class};
use vstd::prelude::*;

verus! {

/// A text that stays on its line.
pub open spec fn one_line(s: Seq<char>) -> bool {
    !includes(s, '\n') && !includes(s, '\r')
}

/// Texts that stay on their lines.
pub open spec fn one_line_each(list: Seq<Seq<char>>) -> bool {
    forall|k: int| 0 <= k < list.len() ==> one_line(#[trigger] list[k])
}

/// Nothing, or lines that are all ended.
pub open spec fn ended(s: Seq<char>) -> bool {
    s.len() == 0 || s.last() == '\n'
}

proof fn lemma_run_to(s: Seq<char>, i: int, j: int)
    requires
        0 <= i <= j < s.len(),
        s[j] == '\n',
        forall|k: int| i <= k < j ==> #[trigger] s[k] != '\n',
    ensures
        run_end(s, Class::Not('\n'), i) == j,
    decreases j - i,
{
    if i < j {
        lemma_run_to(s, i + 1, j);
    }
}

/// A line at the end of a text that is ended is the last of its lines.
pub proof fn lemma_last_line(s: Seq<char>, l: Seq<char>)
    requires
        ended(s),
        one_line(l),
    ensures
        line_seq(s + l + "\n"@) == line_seq(s).push(l),
        ended(s + l + "\n"@),
    decreases s.len(),
{
    reveal_strlit("\n");
    let t = s + l + "\n"@;
    let k = Class::Not('\n');
    if s.len() == 0 {
        let n = l.len() as int;
        assert(t[n] == '\n');
        assert forall|i: int| 0 <= i < n implies #[trigger] t[i] != '\n' by {
            assert(t[i] == l[i]);
        }
        lemma_run_to(t, 0, n);
        assert(t.take(n) =~= l);
        assert(t.skip(n + 1) =~= seq![]);
        if ends(l, seq!['\r']) {
            assert(l.subrange(n - 1, n)[0] == l[n - 1]);
        }
        assert(bare_line(l) == l);
        assert(line_seq(t.skip(n + 1)) =~= seq![]);
        assert(line_seq(t) =~= seq![l]);
        assert(line_seq(s) =~= seq![]);
    } else {
        lemma_run_end(s, k, 0);
        let i = run_end(s, k, 0);
        if i == s.len() {
            assert(k.has(s[s.len() - 1]));
        }
        assert(t[i] == '\n');
        assert forall|j: int| 0 <= j < i implies #[trigger] t[j] != '\n' by {
            assert(t[j] == s[j]);
            assert(k.has(s[j]));
        }
        lemma_run_to(t, 0, i);
        let rest = s.skip(i + 1);
        assert(t.take(i) =~= s.take(i));
        assert(t.skip(i + 1) =~= rest + l + "\n"@);
        if rest.len() > 0 {
            assert(rest.last() == s.last());
        }
        lemma_last_line(rest, l);
        assert(line_seq(t) =~= seq![bare_line(s.take(i))] + line_seq(rest).push(l));
        assert(line_seq(s) =~= seq![bare_line(s.take(i))] + line_seq(rest));
    }
    assert(t.last() == '\n');
}

proof fn lemma_quoted(path: Seq<char>)
    requires
        one_line(path),
    ensures
        one_line(entry_of(path)),
{
    reveal_strlit("\"");
    reveal_strlit("(");
    reveal_strlit(")");
    reveal_strlit("!**.jar;!module-info.class");
    let quote = "\""@ + path + "\""@;
    assert forall|i: int| 0 <= i < quote.len() implies quote[i] != '\n' && quote[i] != '\r' by {
        if 0 < i < quote.len() - 1 {
            assert(quote[i] == path[i - 1]);
        }
    }
    let quoted = if includes(path, ' ') || includes(path, '\t') {
        quote
    } else {
        path
    };
    assert(one_line(quoted));
    let f = JMOD_FILTER@;
    assert(f =~= "!**.jar;!module-info.class"@);
    assert(one_line(f));
    let filtered = quoted + "("@ + f + ")"@;
    assert forall|i: int| 0 <= i < filtered.len() implies filtered[i] != '\n'
        && filtered[i] != '\r' by {
        let n = quoted.len() as int;
        if i < n {
            assert(filtered[i] == quoted[i]);
        } else if n < i < filtered.len() - 1 {
            assert(filtered[i] == f[i - n - 1]);
        }
    }
}

proof fn lemma_two(a: Seq<char>, b: Seq<char>)
    requires
        one_line(a),
        one_line(b),
    ensures
        one_line(a + b),
{
    let s = a + b;
    assert forall|i: int| 0 <= i < s.len() implies s[i] != '\n' && s[i] != '\r' by {
        if i < a.len() {
            assert(s[i] == a[i]);
        } else {
            assert(s[i] == b[i - a.len()]);
        }
    }
}

/// The lines of a section whose items take one line each.
proof fn lemma_section(s: Seq<char>, section: Section, items: Seq<Seq<char>>, i: int)
    requires
        0 <= i <= items.len(),
        ended(s),
        one_line_each(items),
        !(section is Provider),
    ensures
        ({
            let lines = line_seq(with_section(s, section, items, i));
            let n = line_seq(s).len() as int;
            &&& ended(with_section(s, section, items, i))
            &&& lines.len() == n + items.len() - i
            &&& lines.take(n) == line_seq(s)
            &&& section is Library ==> forall|k: int|
                i <= k < items.len() ==> lines[n + k - i] == "-libraryjars "@ + entry_of(
                    #[trigger] items[k],
                )
            &&& section is Keep ==> forall|k: int|
                i <= k < items.len() ==> lines[n + k - i] == "-keep class "@ + #[trigger] items[k]
            &&& section is Argument ==> forall|k: int|
                i <= k < items.len() ==> lines[n + k - i] == #[trigger] items[k]
        }),
    decreases items.len() - i,
{
    reveal_strlit("-libraryjars ");
    reveal_strlit("-keep class ");
    reveal_strlit("\n");
    let n = line_seq(s).len() as int;
    assert(line_seq(s).take(n) =~= line_seq(s));
    if i < items.len() {
        let item = items[i];
        lemma_quoted(item);
        let l = match section {
            Section::Library => "-libraryjars "@ + entry_of(item),
            Section::Keep => "-keep class "@ + item,
            _ => item,
        };
        lemma_two("-libraryjars "@, entry_of(item));
        lemma_two("-keep class "@, item);
        assert(section_line(section, item) =~= l + "\n"@);
        let next = s + section_line(section, item);
        assert(next =~= s + l + "\n"@);
        lemma_last_line(s, l);
        lemma_section(next, section, items, i + 1);
        let lines = line_seq(with_section(s, section, items, i));
        assert(lines.take(n + 1) == line_seq(s).push(l));
        assert(lines.take(n) =~= lines.take(n + 1).take(n));
        assert(line_seq(s).push(l).take(n) =~= line_seq(s));
        assert(lines[n] == lines.take(n + 1)[n]);
    }
}

/// The lines of the providers.
proof fn lemma_providers(s: Seq<char>, items: Seq<Seq<char>>, i: int)
    requires
        0 <= i <= items.len(),
        ended(s),
        one_line_each(items),
    ensures
        ({
            let lines = line_seq(with_section(s, Section::Provider, items, i));
            let n = line_seq(s).len() as int;
            &&& ended(with_section(s, Section::Provider, items, i))
            &&& lines.len() == n + 3 * (items.len() - i)
            &&& lines.take(n) == line_seq(s)
            &&& forall|k: int|
                i <= k < items.len() ==> lines[n + 3 * (k - i)] == "-keep class "@
                    + #[trigger] items[k] + " {"@ && lines[n + 3 * (k - i) + 1]
                    == "    <init>(...);"@ && lines[n + 3 * (k - i) + 2] == "}"@
        }),
    decreases items.len() - i,
{
    reveal_strlit("-keep class ");
    reveal_strlit(" {");
    reveal_strlit("    <init>(...);");
    reveal_strlit("}");
    reveal_strlit("\n");
    reveal_strlit(" {\n    <init>(...);\n}\n");
    let n = line_seq(s).len() as int;
    assert(line_seq(s).take(n) =~= line_seq(s));
    if i < items.len() {
        let item = items[i];
        let a = "-keep class "@ + item + " {"@;
        let b = "    <init>(...);"@;
        let c = "}"@;
        lemma_two("-keep class "@, item);
        lemma_two("-keep class "@ + item, " {"@);
        assert(one_line(b) && one_line(c));
        let s1 = s + a + "\n"@;
        let s2 = s1 + b + "\n"@;
        let s3 = s2 + c + "\n"@;
        lemma_last_line(s, a);
        lemma_last_line(s1, b);
        lemma_last_line(s2, c);
        let next = s + section_line(Section::Provider, item);
        assert(" {"@ + "\n"@ + b + "\n"@ + c + "\n"@ =~= " {\n    <init>(...);\n}\n"@);
        assert(next =~= s3);
        lemma_providers(next, items, i + 1);
        let lines = line_seq(with_section(s, Section::Provider, items, i));
        let four = line_seq(s).push(a).push(b).push(c);
        assert(lines.take(n + 3) == four);
        assert(lines.take(n) =~= lines.take(n + 3).take(n));
        assert(four.take(n) =~= line_seq(s));
        assert(lines[n] == lines.take(n + 3)[n]);
        assert(lines[n + 1] == lines.take(n + 3)[n + 1]);
        assert(lines[n + 2] == lines.take(n + 3)[n + 2]);
        assert forall|k: int| i <= k < items.len() implies lines[n + 3 * (k - i)] == "-keep class "@
            + #[trigger] items[k] + " {"@ && lines[n + 3 * (k - i) + 1] == "    <init>(...);"@
            && lines[n + 3 * (k - i) + 2] == "}"@ by {
            if k > i {
                assert(n + 3 * (k - i) == n + 3 + 3 * (k - (i + 1)));
            }
        }
    }
}

// ---- the configuration -----------------------------------------------------

proof fn lemma_fixed(s: Seq<char>)
    requires
        ended(s),
    ensures
        ended(s + FIXED@),
        line_seq(s + FIXED@) == line_seq(s) + seq![
            "-dontshrink"@,
            "-dontoptimize"@,
            "-keepattributes *Annotation*,Signature,EnclosingMethod,InnerClasses"@,
            "-dontnote"@,
        ],
{
    reveal_strlit("\n");
    reveal_strlit("-dontshrink");
    reveal_strlit("-dontoptimize");
    reveal_strlit("-keepattributes *Annotation*,Signature,EnclosingMethod,InnerClasses");
    reveal_strlit("-dontnote");
    reveal_strlit(
        "-dontshrink\n-dontoptimize\n-keepattributes *Annotation*,Signature,EnclosingMethod,InnerClasses\n-dontnote\n",
    );
    let a = "-dontshrink"@;
    let b = "-dontoptimize"@;
    let c = "-keepattributes *Annotation*,Signature,EnclosingMethod,InnerClasses"@;
    let d = "-dontnote"@;
    let e = "\n"@;
    assert(one_line(a) && one_line(b) && one_line(c) && one_line(d));
    lemma_last_line(s, a);
    lemma_last_line(s + a + e, b);
    lemma_last_line(s + a + e + b + e, c);
    lemma_last_line(s + a + e + b + e + c + e, d);
    assert(FIXED@ =~= a + e + b + e + c + e + d + e);
    assert(s + FIXED@ =~= s + a + e + b + e + c + e + d + e);
    assert(line_seq(s + FIXED@) =~= line_seq(s) + seq![a, b, c, d]);
}

proof fn lemma_main(s: Seq<char>, main: Seq<char>)
    requires
        ended(s),
        one_line(main),
    ensures
        ended(s + main_line(main)),
        line_seq(s + main_line(main)) == line_seq(s) + seq![
            "-keep public class "@ + main + " {"@,
            "    public static void main(java.lang.String[]);"@,
            "}"@,
        ],
{
    reveal_strlit("\n");
    reveal_strlit("-keep public class ");
    reveal_strlit(" {");
    reveal_strlit("    public static void main(java.lang.String[]);");
    reveal_strlit("}");
    reveal_strlit(" {\n    public static void main(java.lang.String[]);\n}\n");
    let a = "-keep public class "@ + main + " {"@;
    let b = "    public static void main(java.lang.String[]);"@;
    let c = "}"@;
    let e = "\n"@;
    lemma_two("-keep public class "@, main);
    lemma_two("-keep public class "@ + main, " {"@);
    assert(one_line(b) && one_line(c));
    lemma_last_line(s, a);
    lemma_last_line(s + a + e, b);
    lemma_last_line(s + a + e + b + e, c);
    assert(" {"@ + e + b + e + c
        + e =~= " {\n    public static void main(java.lang.String[]);\n}\n"@);
    assert(s + main_line(main) =~= s + a + e + b + e + c + e);
    assert(line_seq(s + main_line(main)) =~= line_seq(s) + seq![a, b, c]);
}

/// The texts of an obfuscation stay on their lines.
pub open spec fn one_line_texts(
    obf: ObfuscationModel,
    services: Seq<Seq<char>>,
    outjar: Seq<char>,
) -> bool {
    &&& one_line(obf.jar)
    &&& one_line(outjar)
    &&& one_line_each(obf.library_jars)
    &&& obf.main_class matches Some(main) ==> one_line(main)
    &&& one_line_each(services)
    &&& one_line_each(obf.keep)
    &&& one_line_each(obf.extra_args)
}

proof fn lemma_start(obf: ObfuscationModel, outjar: Seq<char>)
    requires
        one_line(obf.jar),
        one_line(outjar),
        one_line_each(obf.library_jars),
    ensures
        ended(config_start(obf, outjar)),
        ({
            let lines = line_seq(config_start(obf, outjar));
            let n = 2 + obf.library_jars.len() as int;
            &&& lines.len() == n + 4
            &&& lines[0] == "-injars "@ + entry_of(obf.jar)
            &&& lines[1] == "-outjars "@ + entry_of(outjar)
            &&& forall|k: int|
                0 <= k < obf.library_jars.len() ==> lines[2 + k] == "-libraryjars "@ + entry_of(
                    #[trigger] obf.library_jars[k],
                )
            &&& lines[n] == "-dontshrink"@
            &&& lines[n + 1] == "-dontoptimize"@
            &&& lines[n + 2]
                == "-keepattributes *Annotation*,Signature,EnclosingMethod,InnerClasses"@
            &&& lines[n + 3] == "-dontnote"@
        }),
{
    reveal_strlit("-injars ");
    reveal_strlit("-outjars ");
    let e = "\n"@;
    let a = "-injars "@ + entry_of(obf.jar);
    let b = "-outjars "@ + entry_of(outjar);
    lemma_quoted(obf.jar);
    lemma_quoted(outjar);
    lemma_two("-injars "@, entry_of(obf.jar));
    lemma_two("-outjars "@, entry_of(outjar));
    let none = Seq::<char>::empty();
    lemma_last_line(none, a);
    lemma_last_line(none + a + e, b);
    let s = "-injars "@ + entry_of(obf.jar) + "\n"@ + "-outjars "@ + entry_of(outjar) + "\n"@;
    assert(s =~= none + a + e + b + e);
    assert(line_seq(s) =~= seq![a, b]);
    lemma_section(s, Section::Library, obf.library_jars, 0);
    let t = with_section(s, Section::Library, obf.library_jars, 0);
    lemma_fixed(t);
    let lines = line_seq(config_start(obf, outjar));
    let before = line_seq(t);
    assert(before.take(2)[0] == before[0] && before.take(2)[1] == before[1]);
    assert forall|k: int| 0 <= k < obf.library_jars.len() implies lines[2 + k] == "-libraryjars "@
        + entry_of(#[trigger] obf.library_jars[k]) by {
        assert(lines[2 + k] == before[2 + k]);
        assert(before[2 + k - 0] == "-libraryjars "@ + entry_of(obf.library_jars[k]));
    }
}

/// The configuration says, on a line each and in this order: the jar; the jar
/// that is written; each library; that nothing is removed, reordered or lost of
/// what reflection reads; the entry point, where there is one; each provider;
/// each class to keep; and each further argument. It says nothing else.
pub proof fn the_configuration_is_these_lines(
    obf: ObfuscationModel,
    services: Seq<Seq<char>>,
    outjar: Seq<char>,
)
    requires
        one_line_texts(obf, services, outjar),
    ensures
        ({
            let lines = line_seq(config_of(obf, services, outjar));
            let fixed = 2 + obf.library_jars.len() as int;
            let main = fixed + 4;
            let provided = main + if obf.main_class is Some {
                3int
            } else {
                0int
            };
            let kept = provided + 3 * services.len() + if services.len() > 0 {
                1int
            } else {
                0int
            };
            let further = kept + obf.keep.len();
            &&& lines.len() == further + obf.extra_args.len()
            &&& lines[0] == "-injars "@ + entry_of(obf.jar)
            &&& lines[1] == "-outjars "@ + entry_of(outjar)
            &&& forall|k: int|
                0 <= k < obf.library_jars.len() ==> lines[2 + k] == "-libraryjars "@ + entry_of(
                    #[trigger] obf.library_jars[k],
                )
            &&& lines[fixed] == "-dontshrink"@
            &&& lines[fixed + 1] == "-dontoptimize"@
            &&& lines[fixed + 2]
                == "-keepattributes *Annotation*,Signature,EnclosingMethod,InnerClasses"@
            &&& lines[fixed + 3] == "-dontnote"@
            &&& obf.main_class matches Some(class) ==> lines[main] == "-keep public class "@ + class
                + " {"@ && lines[main + 1] == "    public static void main(java.lang.String[]);"@
                && lines[main + 2] == "}"@
            &&& forall|k: int|
                0 <= k < services.len() ==> lines[provided + 3 * k] == "-keep class "@
                    + #[trigger] services[k] + " {"@ && lines[provided + 3 * k + 1]
                    == "    <init>(...);"@ && lines[provided + 3 * k + 2] == "}"@
            &&& services.len() > 0 ==> lines[kept - 1]
                == "-adaptresourcefilecontents META-INF/services/**"@
            &&& forall|k: int|
                0 <= k < obf.keep.len() ==> lines[kept + k] == "-keep class "@
                    + #[trigger] obf.keep[k]
            &&& forall|k: int|
                0 <= k < obf.extra_args.len() ==> lines[further + k]
                    == #[trigger] obf.extra_args[k]
        }),
{
    reveal_strlit("\n");
    reveal_strlit("-adaptresourcefilecontents META-INF/services/**");
    reveal_strlit("-adaptresourcefilecontents META-INF/services/**\n");
    let a = config_start(obf, outjar);
    lemma_start(obf, outjar);
    let fixed = 2 + obf.library_jars.len() as int;
    let main = fixed + 4;
    let la = line_seq(a);
    if let Some(class) = obf.main_class {
        lemma_main(a, class);
    }
    let b = config_to_main(obf, outjar);
    let lb = line_seq(b);
    let provided = lb.len() as int;
    assert(lb.take(la.len() as int) =~= la);
    lemma_providers(b, services, 0);
    let p = with_section(b, Section::Provider, services, 0);
    let lp = line_seq(p);
    let adapt = "-adaptresourcefilecontents META-INF/services/**"@;
    assert(adapt + "\n"@ =~= "-adaptresourcefilecontents META-INF/services/**\n"@);
    let c = config_to_providers(obf, services, outjar);
    let lc = line_seq(c);
    if services.len() > 0 {
        assert(one_line(adapt));
        lemma_last_line(p, adapt);
        assert(c =~= p + adapt + "\n"@);
        assert(lc == lp.push(adapt));
    } else {
        assert(lc == lp);
    }
    assert(ended(c));
    assert(lc.take(lp.len() as int) =~= lp);
    let kept = lc.len() as int;
    lemma_section(c, Section::Keep, obf.keep, 0);
    let d = with_section(c, Section::Keep, obf.keep, 0);
    let ld = line_seq(d);
    lemma_section(d, Section::Argument, obf.extra_args, 0);
    let lines = line_seq(config_of(obf, services, outjar));
    let further = ld.len() as int;
    assert(forall|k: int| 0 <= k < further ==> lines.take(further)[k] == #[trigger] lines[k]);
    assert(forall|k: int| 0 <= k < kept ==> ld.take(kept)[k] == #[trigger] ld[k]);
    assert(forall|k: int| 0 <= k < lp.len() ==> lc.take(lp.len() as int)[k] == #[trigger] lc[k]);
    assert(forall|k: int| 0 <= k < provided ==> lp.take(provided)[k] == #[trigger] lp[k]);
    assert(forall|k: int| 0 <= k < la.len() ==> lb.take(la.len() as int)[k] == #[trigger] lb[k]);
    assert forall|k: int| 0 <= k < provided implies #[trigger] lines[k] == lb[k] by {
        assert(lines[k] == ld[k] && ld[k] == lc[k] && lc[k] == lp[k]);
    }
    assert forall|k: int| 0 <= k < la.len() implies #[trigger] lines[k] == la[k] by {
        assert(lines[k] == lb[k] && lb[k] == la[k]);
    }
    assert forall|k: int| 0 <= k < obf.library_jars.len() implies lines[2 + k] == "-libraryjars "@
        + entry_of(#[trigger] obf.library_jars[k]) by {
        assert(lines[2 + k] == la[2 + k]);
    }
    assert forall|k: int| 0 <= k < services.len() implies lines[provided + 3 * k] == "-keep class "@
        + #[trigger] services[k] + " {"@ && lines[provided + 3 * k + 1] == "    <init>(...);"@
        && lines[provided + 3 * k + 2] == "}"@ by {
        let at = provided + 3 * k;
        assert(lp[provided + 3 * (k - 0)] == "-keep class "@ + services[k] + " {"@);
        assert(lines[at] == ld[at] && ld[at] == lc[at] && lc[at] == lp[at]);
        assert(lines[at + 1] == ld[at + 1] && ld[at + 1] == lc[at + 1] && lc[at + 1] == lp[at + 1]);
        assert(lines[at + 2] == ld[at + 2] && ld[at + 2] == lc[at + 2] && lc[at + 2] == lp[at + 2]);
    }
    assert(services.len() > 0 ==> lines[kept - 1] == ld[kept - 1] && ld[kept - 1] == lc[kept - 1]);
    assert forall|k: int| 0 <= k < obf.keep.len() implies lines[kept + k] == "-keep class "@
        + #[trigger] obf.keep[k] by {
        assert(lines[kept + k] == ld[kept + k]);
        assert(ld[kept + k - 0] == "-keep class "@ + obf.keep[k]);
    }
    assert forall|k: int| 0 <= k < obf.extra_args.len() implies lines[further + k]
        == #[trigger] obf.extra_args[k] by {
        assert(lines[further + k - 0] == obf.extra_args[k]);
    }
}

/// A path stands in the configuration as it is, or in quotes where it has white
/// space in it; the modules of a JDK, and they alone, leave out what is no class
/// of theirs.
pub proof fn entries_are_their_paths(path: Seq<char>)
    ensures
        ({
            let whole = if includes(path, ' ') || includes(path, '\t') {
                seq!['"'] + path + seq!['"']
            } else {
                path
            };
            &&& !jmod_path(path) ==> entry_of(path) == whole
            &&& jmod_path(path) ==> entry_of(path) == whole + "(!**.jar;!module-info.class)"@
        }),
{
    reveal_strlit("\"");
    reveal_strlit("(");
    reveal_strlit(")");
    reveal_strlit("!**.jar;!module-info.class");
    reveal_strlit("(!**.jar;!module-info.class)");
    assert("\""@ =~= seq!['"']);
    let whole = if includes(path, ' ') || includes(path, '\t') {
        seq!['"'] + path + seq!['"']
    } else {
        path
    };
    assert("("@ + "!**.jar;!module-info.class"@ + ")"@ =~= "(!**.jar;!module-info.class)"@);
    assert(whole + "("@ + JMOD_FILTER@ + ")"@ =~= whole + ("("@ + JMOD_FILTER@ + ")"@));
}

} // verus!
