use jrs::dependency::{Repository, CENTRAL_URL};
use jrs::gradle_repos::{groups_from_regex, read};
use jrs::manifest::blank;
use jrs::report::Report;

fn read_script(script: &str) -> (Vec<Repository>, Report) {
    let mut out = blank("app", "1", "/p");
    let mut report = Report::default();
    read(script, &mut out, &mut report);
    (out.repositories, report)
}

#[test]
fn content_and_exclusive_content_become_groups() {
    let (repos, report) = read_script(
        "repositories {\n\
         \x20   mavenCentral()\n\
         \x20   maven {\n\
         \x20       url 'https://acme.jfrog.io/artifactory/libs'\n\
         \x20       content {\n\
         \x20           includeGroup 'com.acme'\n\
         \x20           includeGroupByRegex 'com\\\\.acme\\\\..*'\n\
         \x20       }\n\
         \x20   }\n\
         \x20   exclusiveContent {\n\
         \x20       forRepository {\n\
         \x20           maven { url = uri(\"https://jitpack.io\") }\n\
         \x20       }\n\
         \x20       filter { includeGroupAndSubgroups(\"com.github.someone\") }\n\
         \x20   }\n\
         \x20   maven { url 'https://plain.example.com/m2' }\n\
         }\n",
    );
    assert_eq!(repos.len(), 4, "{repos:?}");
    assert_eq!(repos[0].name, "acme");
    assert_eq!(repos[0].groups, ["com.acme", "com.acme.*"]);
    assert_eq!(repos[1].name, "jitpack");
    assert_eq!(repos[1].url, "https://jitpack.io");
    assert_eq!(
        repos[1].groups,
        ["com.github.someone", "com.github.someone.*"]
    );
    assert!(repos[2].groups.is_empty());
    assert_eq!(repos[3].url, CENTRAL_URL);

    let review = report.needs_review.join("\n");
    assert!(review.contains("repository `acme`"), "{review}");
    assert!(
        !review.contains("jitpack"),
        "exclusiveContent is exact: {review}"
    );
}

#[test]
fn filters_that_are_not_whole_groups_are_reported() {
    let (repos, report) = read_script(
        "repositories {\n  maven {\n    url 'https://vendor.example.com/m2'\n    \
         content {\n      excludeGroup 'org.unwanted'\n      \
         includeModule 'com.vendor', 'sdk'\n      includeGroupByRegex 'com\\\\.v[a-z]+'\n    \
         }\n    mavenContent { releasesOnly() }\n  }\n}\n",
    );
    assert!(repos[0].groups.is_empty());
    let skipped = report.not_migrated.join("\n");
    for directive in [
        "excludeGroup",
        "includeModule",
        "includeGroupByRegex",
        "releasesOnly",
    ] {
        assert!(skipped.contains(directive), "{directive}: {skipped}");
    }
}

#[test]
fn simple_regexes_name_groups() {
    let g = |r: &str| groups_from_regex(r);
    assert_eq!(g("com\\\\.acme"), Some((vec!["com.acme".into()], false)));
    assert_eq!(
        g("^com\\.acme\\..*$"),
        Some((vec!["com.acme.*".into()], false))
    );
    assert_eq!(
        g("com\\.acme(\\..*)?"),
        Some((vec!["com.acme".into(), "com.acme.*".into()], false))
    );
    assert_eq!(
        g("com\\.acme.*"),
        Some((vec!["com.acme".into(), "com.acme.*".into()], true))
    );
    assert_eq!(g("com.acme"), None, "an unescaped dot is any character");
    assert_eq!(g("com\\.(acme|other)"), None);
}
