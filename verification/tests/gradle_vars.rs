use jrs::gradle_scan::{leading_value, literals, map_field, statements};
use jrs::gradle_vars::Variables;
use jrs::report::Report;

fn groovy(script: &str) -> Variables {
    let mut vars = Variables::empty(false);
    vars.read_script(script);
    vars
}

fn kotlin(script: &str) -> Variables {
    let mut vars = Variables::empty(true);
    vars.read_script(script);
    vars
}

fn value(vars: &Variables, name: &str) -> Result<String, String> {
    vars.resolve(name).map(|(v, _)| v)
}

#[test]
fn every_groovy_spelling_of_a_variable_is_read() {
    let vars = groovy(
        "buildscript {\n  ext {\n    bootVersion = '3.5.4'\n  }\n  ext.kotlinVersion = '2.2.0'\n}\n\
         ext {\n  guava = '33.4.8-jre'; slf4j = \"2.0.17\"\n  set('springCloud', '2025.0.0')\n}\n\
         ext.netty = '4.2.4.Final'\nproject.ext.jackson = '2.19.2'\next['junit'] = '5.13.4'\n\
         def lombok = '1.18.38'\nString h2 = '2.3.232'\n",
    );
    for (name, expected) in [
        ("bootVersion", "3.5.4"),
        ("kotlinVersion", "2.2.0"),
        ("guava", "33.4.8-jre"),
        ("slf4j", "2.0.17"),
        ("springCloud", "2025.0.0"),
        ("netty", "4.2.4.Final"),
        ("jackson", "2.19.2"),
        ("junit", "5.13.4"),
        ("lombok", "1.18.38"),
        ("h2", "2.3.232"),
    ] {
        assert_eq!(value(&vars, name).as_deref(), Ok(expected), "{name}");
    }
    assert_eq!(
        vars.ext_names,
        ["bootVersion", "guava", "slf4j", "springCloud"]
    );
    assert!(!vars.ext_opaque);
}

#[test]
fn every_kotlin_spelling_of_a_variable_is_read() {
    let vars = kotlin(
        "val guava = \"33.4.8-jre\"\nval slf4j: String = \"2.0.17\"\n\
         extra[\"netty\"] = \"4.2.4.Final\"\nval springCloud by extra(\"2025.0.0\")\n\
         val jackson: String by project\nvar h2 = \"2.3.232\"\n",
    );
    for (name, expected) in [
        ("guava", "33.4.8-jre"),
        ("slf4j", "2.0.17"),
        ("netty", "4.2.4.Final"),
        ("springCloud", "2025.0.0"),
        ("h2", "2.3.232"),
    ] {
        assert_eq!(value(&vars, name).as_deref(), Ok(expected), "{name}");
    }
    assert!(
        !vars.assigned.iter().any(|a| a.name == "jackson"),
        "`by project` reads gradle.properties, it assigns nothing"
    );
}

#[test]
fn gradle_properties_are_variables() {
    let mut vars = Variables::empty(false);
    vars.read_properties(
        "# a comment\norg.gradle.jvmargs=-Xmx2g\njackson = 2.19.2\nsnakeyaml: 2.4\n\
         multi=a\\\n  b\nempty=\n",
    );
    assert_eq!(value(&vars, "jackson").as_deref(), Ok("2.19.2"));
    assert_eq!(value(&vars, "snakeyaml").as_deref(), Ok("2.4"));
    assert_eq!(value(&vars, "org.gradle.jvmargs").as_deref(), Ok("-Xmx2g"));
    assert!(value(&vars, "multi").is_err());
    assert!(value(&vars, "empty").unwrap_err().contains("is empty"));
}

#[test]
fn a_variable_is_followed_through_another() {
    let vars = groovy(
        "ext {\n  bootVersion = '3.5.4'\n  springVersion = \"$bootVersion\"\n  \
         braced = \"${project.bootVersion}\"\n  bare = springVersion\n}\n",
    );
    assert_eq!(
        vars.resolve("bare"),
        Ok((
            "3.5.4".to_string(),
            vec![
                "bare".to_string(),
                "springVersion".to_string(),
                "bootVersion".to_string()
            ]
        ))
    );
    assert_eq!(value(&vars, "braced").as_deref(), Ok("3.5.4"));
}

#[test]
fn only_a_literal_assigned_once_outside_a_conditional_is_used() {
    let vars = groovy(
        "def twice = '1.0'\ntwice = '2.0'\n\
         def summed = '1.0'\nsummed += '.1'\n\
         def env = System.getenv('V') ?: '1.0'\n\
         def joined = '1.' + '0'\n\
         def templated = \"1.${minor}\"\n\
         if (ci) {\n  def guarded = '1.0'\n}\n\
         if (ci) unbraced = '1.0'\n\
         tasks.register('x') {\n  def inTask = '1.0'\n}\n\
         def mapped = ['a'].collect { it }\n\
         def loop = 'a'\ndef alias = loop\ndef loopBack = \"$loopBack\"\n\
         def number = 1.2\n",
    );
    for (name, why) in [
        ("twice", "assigned more than once"),
        ("summed", "assigned more than once"),
        ("env", "not a string literal"),
        ("joined", "not a string literal"),
        ("templated", "not a string literal"),
        ("guarded", "inside a conditional"),
        ("unbraced", "inside a conditional"),
        ("inTask", "inside a conditional"),
        ("mapped", "not a string literal"),
        ("loopBack", "refers back to itself"),
        ("number", "not a string literal"),
        (
            "missing",
            "set neither in the build script nor in gradle.properties",
        ),
    ] {
        let error = value(&vars, name).unwrap_err();
        assert!(error.contains(&format!("`{name}`")), "{name}: {error}");
        assert!(error.contains(why), "{name}: {error}");
    }
    assert_eq!(value(&vars, "alias").as_deref(), Ok("a"));
}

#[test]
fn a_broken_link_names_both_variables() {
    let vars = groovy("def base = System.getenv('V')\ndef derived = \"$base\"\n");
    let error = value(&vars, "derived").unwrap_err();
    assert!(
        error.starts_with("`derived` takes its value from `base`, and `base` is"),
        "{error}"
    );
}

#[test]
fn every_way_of_naming_a_variable_is_interpolated() {
    let vars = groovy("ext {\n  v = '1.2'\n}\n");
    for text in [
        "g:a:$v",
        "g:a:${v}",
        "g:a:${project.v}",
        "g:a:${rootProject.ext.v}",
        "g:a:${project.ext.v}",
        "g:a:${property('v')}",
        "g:a:${project.property(\"v\")}",
        "g:a:${extra[\"v\"]}",
        "g:a:${rootProject.extra[\"v\"] as String}",
    ] {
        assert_eq!(
            vars.interpolate(text),
            Ok(("g:a:1.2".to_string(), vec!["v".to_string()])),
            "{text}"
        );
    }
    assert!(vars.interpolate("g:a:${v.trim()}").is_err());
    assert!(
        vars.interpolate("g:a:$v.RELEASE")
            .unwrap_err()
            .contains("`v.RELEASE`"),
        "Groovy reads a property of `v` there"
    );
    let kts = kotlin("val v = \"1.2\"\n");
    assert_eq!(
        kts.interpolate("g:a:$v.RELEASE").unwrap().0,
        "g:a:1.2.RELEASE",
        "Kotlin does not"
    );
}

#[test]
fn a_value_is_a_literal_or_a_variable() {
    let vars = kotlin("val v = \"1.2\"\n");
    assert_eq!(vars.evaluate("'1.0'").unwrap().0, "1.0");
    assert_eq!(vars.evaluate("\"$v\"").unwrap().0, "1.2");
    assert_eq!(
        vars.evaluate("v").unwrap(),
        ("1.2".to_string(), vec!["v".to_string()])
    );
    assert_eq!(vars.evaluate("property(\"v\")").unwrap().0, "1.2");
    assert!(
        vars.evaluate("v + '.1'")
            .unwrap_err()
            .contains("an expression")
    );
}

#[test]
fn a_quote_inside_an_interpolation_does_not_end_the_literal() {
    assert_eq!(
        literals("mavenBom(\"g:a:${property(\"v\")}\") // 'x'"),
        [
            ('"', "g:a:${property(\"v\")}".to_string()),
            ('\'', "x".to_string())
        ]
    );
    assert_eq!(
        statements("imports { mavenBom \"g:a:${v}\" }; dependency 'x:y:1'"),
        ["imports", "mavenBom \"g:a:${v}\"", "dependency 'x:y:1'"]
    );
}

#[test]
fn map_fields_are_read_in_either_dsl() {
    let groovy = "group: 'g', name: 'a', version: lombokVersion, classifier: 'c'";
    assert_eq!(
        map_field(groovy, "version").as_deref(),
        Some("lombokVersion")
    );
    assert_eq!(map_field(groovy, "name").as_deref(), Some("'a'"));
    let kts = "(group = \"g\", name = \"a\", version = \"${property(\"v\")}\")";
    assert_eq!(
        map_field(kts, "version").as_deref(),
        Some("\"${property(\"v\")}\"")
    );
    assert_eq!(
        map_field("group: 'my.name: x'", "name"),
        None,
        "inside a literal"
    );
    assert_eq!(map_field("names: 'x'", "name"), None);
}

#[test]
fn leading_values_stop_where_the_value_does() {
    assert_eq!(leading_value("\"3.5.4\" apply false"), "\"3.5.4\"");
    assert_eq!(leading_value("bootVersion apply false"), "bootVersion");
    assert_eq!(leading_value("property(\"v\"))"), "property(\"v\")");
}

#[test]
fn the_ext_line_goes_once_every_variable_in_it_is_used() {
    let mut vars = groovy("ext {\n  a = '1'\n  b = '2'\n}\n");
    vars.used_by_dependency(&vec!["a".to_string()]);
    let mut report = Report::default();
    vars.report(&mut report);
    assert_eq!(report.needs_review, ["a = 1 → 1 dependency"]);
    assert_eq!(
        report.not_migrated,
        ["`ext { }` — `b` is not used by anything jrs migrated"]
    );

    vars.used_by_dependency(&vec!["b".to_string()]);
    vars.used_by_dependency(&vec!["b".to_string()]);
    let mut report = Report::default();
    vars.report(&mut report);
    assert!(report.not_migrated.is_empty(), "{:?}", report.not_migrated);
    assert!(
        report.needs_review[1].starts_with("b = 2 → 2 dependencies — the manifest"),
        "{:?}",
        report.needs_review
    );

    let mut opaque = groovy("ext {\n  a = '1'\n  configure()\n}\n");
    opaque.used_by_dependency(&vec!["a".to_string()]);
    let mut report = Report::default();
    opaque.report(&mut report);
    assert!(report.not_migrated[0].contains("more than variables"));
}
