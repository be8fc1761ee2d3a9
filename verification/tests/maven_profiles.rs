use jrs::element::parse_xml;
use jrs::maven_profiles::{apply, merge_dom, plain_build, Plain};
use jrs::pom::Pom;
use jrs::report::Report;

fn pom(body: &str) -> Pom {
    Pom::parse(
        &format!(
            "<project><groupId>g</groupId><artifactId>app</artifactId>\
             <version>1.0.0</version>{body}</project>"
        ),
    )
    .unwrap()
}

fn applied(body: &str) -> (Pom, Report) {
    let mut report = Report::default();
    let pom = apply(pom(body), None, &mut report);
    (pom, report)
}

#[test]
fn a_default_profile_is_merged_the_rest_are_listed() {
    let (pom, report) = applied(
        "<properties><db>h2</db></properties>\
         <profiles>\
           <profile><id>postgres</id>\
             <activation><activeByDefault>true</activeByDefault></activation>\
             <properties><db>postgres</db></properties>\
             <dependencies><dependency><groupId>org.postgresql</groupId>\
               <artifactId>postgresql</artifactId><version>42.7.3</version>\
             </dependency></dependencies>\
           </profile>\
           <profile><id>h2</id></profile>\
           <profile><id>release</id><activation><property><name>performRelease</name>\
             <value>true</value></property></activation></profile>\
         </profiles>",
    );
    assert_eq!(pom.property("db").unwrap(), "postgres", "the profile is dominant");
    assert_eq!(pom.dependencies.len(), 1);
    assert_eq!(pom.dependencies[0].artifact, "postgresql");

    let migrated = report.migrated.join("\n");
    assert!(
        migrated.contains("<profile> postgres — active by default in a plain `mvn` build"),
        "{migrated}"
    );
    let skipped = report.not_migrated.join("\n");
    assert!(skipped.contains("<profile> h2 — active only when named with `-P h2`"));
    assert!(
        skipped.contains("<profile> release — activated by property `performRelease=true`"),
        "{skipped}"
    );
    let review = report.needs_review.join("\n");
    assert!(
        review.contains("Maven drops it whenever `release` (property `performRelease=true`)"),
        "{review}"
    );
}

#[test]
fn a_negated_property_activates_and_turns_the_defaults_off() {
    let (pom, report) = applied(
        "<profiles>\
           <profile><id>docs</id>\
             <activation><property><name>!skipDocs</name></property></activation>\
             <properties><docs>on</docs></properties></profile>\
           <profile><id>fallback</id>\
             <activation><activeByDefault>true</activeByDefault></activation>\
             <properties><fallback>on</fallback></properties></profile>\
           <profile><id>home</id>\
             <activation><property><name>!java.home</name></property></activation>\
           </profile>\
         </profiles>",
    );
    assert_eq!(pom.property("docs"), Some("on"));
    assert!(pom.property("fallback").is_none());
    let migrated = report.migrated.join("\n");
    assert!(
        migrated.contains("<profile> docs — activated by property `!skipDocs`"),
        "{migrated}"
    );
    let skipped = report.not_migrated.join("\n");
    assert!(
        skipped.contains(
            "<profile> fallback — active by default, but a plain `mvn` build activates `docs`"
        ),
        "{skipped}"
    );
    assert!(
        skipped.contains("<profile> home — activated by property `!java.home`"),
        "the JVM's own properties are always set: {skipped}"
    );
}

#[test]
fn plugins_merge_by_key_with_their_configuration_merged_element_by_element() {
    let (pom, _) = applied(
        "<build><plugins><plugin><artifactId>maven-surefire-plugin</artifactId>\
           <configuration><forkCount>2</forkCount><argLine>-Xmx1g</argLine>\
             <systemPropertyVariables><a>1</a></systemPropertyVariables>\
           </configuration>\
           <executions><execution><id>it</id><goals><goal>test</goal></goals>\
           </execution></executions>\
         </plugin></plugins></build>\
         <profiles><profile><id>ci</id>\
           <activation><activeByDefault>true</activeByDefault></activation>\
           <build><plugins>\
             <plugin><groupId>org.apache.maven.plugins</groupId>\
               <artifactId>maven-surefire-plugin</artifactId>\
               <configuration><argLine>-Xmx2g</argLine>\
                 <systemPropertyVariables><b>2</b></systemPropertyVariables>\
               </configuration>\
               <executions><execution><id>it</id><goals><goal>verify</goal></goals>\
               </execution></executions>\
             </plugin>\
             <plugin><artifactId>maven-antrun-plugin</artifactId></plugin>\
           </plugins></build>\
         </profile></profiles>",
    );
    let plugins = &pom.build.plugins;
    assert_eq!(plugins.len(), 2, "{plugins:?}");
    let config = plugins[0].configuration.as_ref().unwrap();
    assert_eq!(
        config.text_of("forkCount"),
        Some("2"),
        "kept from the project"
    );
    assert_eq!(
        config.text_of("argLine"),
        Some("-Xmx2g"),
        "the profile's wins"
    );
    let properties: Vec<&str> = config
        .child("systemPropertyVariables")
        .unwrap()
        .children
        .iter()
        .map(|c| c.name.as_str())
        .collect();
    assert_eq!(properties, ["b", "a"], "merged, the profile's first");
    let goals: Vec<&str> = plugins[0].executions[0]
        .child("goals")
        .unwrap()
        .children
        .iter()
        .map(|g| g.text.trim())
        .collect();
    assert_eq!(goals, ["test", "verify"]);
    assert_eq!(plugins[1].artifact, "maven-antrun-plugin");
}

#[test]
fn the_dom_merge_pairs_same_named_children_in_order() {
    let parse = |xml: &str| parse_xml(xml).unwrap();
    let merged = merge_dom(
        &parse("<c><arg>-a</arg></c>"),
        &parse("<c><arg>-x</arg><arg>-y</arg><only>1</only></c>"),
    );
    let children: Vec<(&str, &str)> = merged
        .children
        .iter()
        .map(|c| (c.name.as_str(), c.text.trim()))
        .collect();
    assert_eq!(
        children,
        [("arg", "-a"), ("only", "1")],
        "the second recessive <arg> has no partner and is dropped, as in Maven"
    );
}

#[test]
fn dependencies_and_repositories_merge_by_key() {
    let (pom, _) = applied(
        "<dependencies><dependency><groupId>g</groupId><artifactId>a</artifactId>\
           <version>1</version></dependency></dependencies>\
         <repositories><repository><id>corp</id><url>https://a</url></repository>\
         </repositories>\
         <profiles><profile><id>p</id>\
           <activation><activeByDefault>true</activeByDefault></activation>\
           <dependencies><dependency><groupId>g</groupId><artifactId>a</artifactId>\
             <version>2</version></dependency></dependencies>\
           <repositories><repository><id>corp</id><url>https://b</url></repository>\
           </repositories>\
         </profile></profiles>",
    );
    assert_eq!(pom.dependencies.len(), 1);
    assert_eq!(pom.dependencies[0].version.as_deref(), Some("2"));
    assert_eq!(pom.repositories, [("corp".into(), "https://b".into())]);
}

#[test]
fn conditions_are_described_and_all_must_hold() {
    let profile = |activation: &str| {
        parse_xml(
            &format!("<profile><activation>{activation}</activation></profile>"),
        )
        .unwrap()
    };
    assert_eq!(
        plain_build(&profile("<jdk>[21,)</jdk>")),
        Plain::Waits("JDK `[21,)`".into())
    );
    assert_eq!(
        plain_build(&profile("<os><family>windows</family></os>")),
        Plain::Waits("OS `family windows`".into())
    );
    assert_eq!(
        plain_build(&profile(
            "<property><name>!skip</name></property><file><exists>x</exists></file>"
        )),
        Plain::Waits("property `!skip` and file `exists x`".into()),
        "a negated property alone would hold; with a file it waits"
    );
    assert_eq!(
        plain_build(&profile("<activeByDefault>false</activeByDefault>")),
        Plain::Never
    );
}
