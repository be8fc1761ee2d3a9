use jrs::dependency::{Managed, CENTRAL_URL};
use jrs::error::JrsError;
use jrs::gradle_files::Files;
use jrs::language::Language;
use jrs::manifest::Manifest;
use jrs::maven::{follows, migrate, parent_sought, pom_named, PomFile, Project};
use jrs::maven_build::{parse_release, strip_basedir};
use jrs::maven_deps::lower_bound;
use jrs::maven_exec::{exec_text, split_arguments};
use jrs::migration::{application_class, Migration};
use jrs::task::Action;
use std::cell::RefCell;

/// A project's files, in memory.
struct Dir {
    files: RefCell<Vec<(String, String)>>,
}

impl Dir {
    fn new(_name: &str) -> Dir {
        Dir {
            files: RefCell::new(Vec::new()),
        }
    }

    fn write(&self, name: &str, contents: &str) -> String {
        let mut files = self.files.borrow_mut();
        files.retain(|(n, _)| n != name);
        files.push((name.to_string(), contents.to_string()));
        name.to_string()
    }

    fn read(&self, name: &str) -> Option<String> {
        let files = self.files.borrow();
        let found = files.iter().find(|(n, _)| n == name);
        found.map(|(_, text)| text.clone())
    }

    /// `a/../b` is `b`.
    fn plain(path: &str) -> String {
        let mut parts: Vec<&str> = Vec::new();
        for part in path.split('/') {
            match part {
                "" | "." => {}
                ".." => {
                    parts.pop();
                }
                _ => parts.push(part),
            }
        }
        parts.join("/")
    }

    fn migrate_file(&self, file: &str) -> Result<Migration, JrsError> {
        let mut poms = Vec::new();
        let mut next = Some(file.to_string());
        while let Some(path) = next.take() {
            let text = self.read(&path).unwrap();
            let parent_path = parent_sought(&path, &text)
                .map(|p| Dir::plain(&pom_named(&p, false)))
                .unwrap_or_default();
            let file = PomFile {
                path,
                text,
                parent_found: self.read(&parent_path).is_some(),
                parent_path,
            };
            if follows(&file, poms.len() + 1) {
                next = Some(file.parent_path.clone());
            }
            poms.push(file);
        }
        let files = self.files.borrow();
        migrate(&Project {
            poms,
            root: "/p".to_string(),
            files: Files {
                dirs: Vec::new(),
                files: files.iter().map(|(n, _)| n.clone()).collect(),
            },
            application: files
                .iter()
                .find_map(|(path, text)| application_class(path, text)),
        })
    }

    fn migrate(&self, pom: &str) -> Migration {
        let file = self.write("pom.xml", pom);
        self.migrate_file(&file).unwrap()
    }
}

const FULL: &str = r#"<project>
  <groupId>com.example</groupId>
  <artifactId>my-app</artifactId>
  <version>1.0.0</version>
  <properties>
    <maven.compiler.release>21</maven.compiler.release>
    <project.build.sourceEncoding>UTF-8</project.build.sourceEncoding>
    <guava.version>33.0.0-jre</guava.version>
  </properties>
  <dependencies>
    <dependency>
      <groupId>com.google.guava</groupId>
      <artifactId>guava</artifactId>
      <version>${guava.version}</version>
    </dependency>
    <dependency>
      <groupId>org.junit.jupiter</groupId>
      <artifactId>junit-jupiter</artifactId>
      <version>5.10.2</version>
      <scope>test</scope>
    </dependency>
    <dependency>
      <groupId>jakarta.servlet</groupId>
      <artifactId>jakarta.servlet-api</artifactId>
      <version>6.0.0</version>
      <scope>provided</scope>
    </dependency>
    <dependency>
      <groupId>org.projectlombok</groupId>
      <artifactId>lombok</artifactId>
      <version>1.18.30</version>
      <optional>true</optional>
    </dependency>
  </dependencies>
  <repositories>
    <repository><id>internal</id><url>https://nexus.example.com/maven/</url></repository>
  </repositories>
  <build>
    <plugins>
      <plugin>
        <artifactId>maven-jar-plugin</artifactId>
        <configuration><archive><manifest>
          <mainClass>com.example.Main</mainClass>
        </manifest></archive></configuration>
      </plugin>
      <plugin>
        <artifactId>maven-antrun-plugin</artifactId>
      </plugin>
    </plugins>
  </build>
</project>"#;

#[test]
fn the_basics_are_translated() {
    let dir = Dir::new("basics");
    let m = dir.migrate(FULL).manifest;
    assert_eq!(m.name, "my-app");
    assert_eq!(m.version, "1.0.0");
    assert_eq!(m.java.source, Some(21));
    assert_eq!(m.main_class.as_deref(), Some("com.example.Main"));
}

#[test]
fn jar_manifest_entries_become_package_manifest() {
    let dir = Dir::new("manifest-entries");
    let migration = dir.migrate(
        r"<project>
  <groupId>com.example</groupId><artifactId>my-app</artifactId><version>1.0.0</version>
  <build><plugins><plugin>
<artifactId>maven-jar-plugin</artifactId>
<configuration><archive>
  <manifest><mainClass>com.example.Main</mainClass></manifest>
  <manifestEntries>
    <Implementation-Title>${project.artifactId}</Implementation-Title>
    <Automatic-Module-Name>com.example.app</Automatic-Module-Name>
    <Built-By>${user.name}</Built-By>
    <Class-Path>extra.jar</Class-Path>
    <X-Braces>a{b}</X-Braces>
  </manifestEntries>
</archive></configuration>
  </plugin></plugins></build>
</project>",
    );
    let attributes: Vec<(&str, &str)> = migration
        .manifest
        .package
        .manifest
        .iter()
        .map(|(n, t)| (n.as_str(), t.raw.as_str()))
        .collect();
    assert_eq!(
        attributes,
        [
            ("Implementation-Title", "{project.name}"),
            ("Automatic-Module-Name", "com.example.app"),
            ("X-Braces", "a{{b}}"),
        ]
    );
    let skipped = migration.report.not_migrated.join("\n");
    assert!(skipped.contains("`Built-By`"), "{skipped}");
    assert!(skipped.contains("`Class-Path` belongs to jrs"), "{skipped}");
    assert_eq!(
        migration.manifest.main_class.as_deref(),
        Some("com.example.Main")
    );
}

#[test]
fn scopes_route_dependencies_to_the_right_table() {
    let dir = Dir::new("scopes");
    let migration = dir.migrate(FULL);
    let m = &migration.manifest;
    assert_eq!(m.dependencies.len(), 2);
    assert_eq!(
        m.dependencies[0].to_text(),
        "com.google.guava:guava:33.0.0-jre"
    );
    assert_eq!(m.dev_dependencies.len(), 1);
    assert_eq!(
        m.dev_dependencies[0].to_text(),
        "org.junit.jupiter:junit-jupiter:5.10.2"
    );

    // `provided` is what `compile-only` is for.
    let servlet = &m.dependencies[1];
    assert_eq!(servlet.artifact, "jakarta.servlet-api");
    assert!(servlet.compile_only);

    let skipped = migration.report.not_migrated.join("\n");
    assert!(skipped.contains("lombok"), "{skipped}");
    assert!(!skipped.contains("jakarta.servlet-api"), "{skipped}");
}

#[test]
fn runtime_scope_becomes_runtime_only() {
    let dir = Dir::new("runtime-scope");
    let migration = dir.migrate(
        "<project><groupId>g</groupId><artifactId>app</artifactId><version>1</version>\
         <dependencies><dependency><groupId>org.postgresql</groupId>\
         <artifactId>postgresql</artifactId><version>42.7.3</version>\
         <scope>runtime</scope></dependency></dependencies></project>",
    );
    let dep = &migration.manifest.dependencies[0];
    assert!(dep.runtime_only && !dep.compile_only);
    let migrated = migration.report.migrated.join("\n");
    assert!(migrated.contains("as runtime-only"), "{migrated}");
}

#[test]
fn classifiers_test_jars_and_system_scope() {
    let dir = Dir::new("classifiers");
    let migration = dir.migrate(
        "<project><groupId>g</groupId><artifactId>a</artifactId><version>1</version>\
         <dependencies>\
         <dependency><groupId>org.lwjgl</groupId><artifactId>lwjgl</artifactId>\
         <version>3.3.3</version><classifier>natives-linux</classifier></dependency>\
         <dependency><groupId>g</groupId><artifactId>core</artifactId>\
         <version>1.0</version><type>test-jar</type><scope>test</scope></dependency>\
         <dependency><groupId>g</groupId><artifactId>war</artifactId>\
         <version>1.0</version><type>war</type></dependency>\
         <dependency><groupId>g</groupId><artifactId>local</artifactId>\
         <version>1.0</version><scope>system</scope></dependency>\
         </dependencies></project>",
    );
    let m = &migration.manifest;
    assert_eq!(m.dependencies.len(), 1);
    assert_eq!(m.dependencies[0].key(), "org.lwjgl:lwjgl:natives-linux");
    assert_eq!(
        m.dev_dependencies[0].classifier.as_deref(),
        Some("tests"),
        "a test-jar is the jar classified `tests`"
    );
    let skipped = migration.report.not_migrated.join("\n");
    assert!(skipped.contains("<type>war</type>"), "{skipped}");
    assert!(skipped.contains("system"), "{skipped}");
}

#[test]
fn surefire_arguments_become_test_jvm_arguments() {
    let dir = Dir::new("surefire");
    let migration = dir.migrate(
        "<project><groupId>g</groupId><artifactId>a</artifactId><version>1</version>\
         <properties><heap>512m</heap></properties>\
         <build><plugins><plugin><artifactId>maven-surefire-plugin</artifactId>\
         <configuration><argLine>-Xmx${heap} -Dname=\"two words\"</argLine>\
         <systemPropertyVariables><env>test</env></systemPropertyVariables>\
         </configuration></plugin></plugins></build></project>",
    );
    assert_eq!(
        migration.manifest.test.jvm_args,
        vec!["-Xmx512m", "-Dname=two words", "-Denv=test"]
    );

    let jacoco = dir.migrate(
        "<project><groupId>g</groupId><artifactId>a</artifactId><version>1</version>\
         <build><plugins><plugin><artifactId>maven-surefire-plugin</artifactId>\
         <configuration><argLine>@{argLine} -Xmx1g</argLine></configuration>\
         </plugin></plugins></build></project>",
    );
    assert!(jacoco.manifest.test.jvm_args.is_empty());
    let skipped = jacoco.report.not_migrated.join("\n");
    assert!(skipped.contains("--coverage"), "{skipped}");
}

#[test]
fn annotation_processor_paths_become_compile_only_dependencies() {
    let dir = Dir::new("processors");
    let migration = dir.migrate(
        "<project><groupId>g</groupId><artifactId>a</artifactId><version>1</version>\
         <properties><maven.compiler.release>21</maven.compiler.release></properties>\
         <build><plugins><plugin><artifactId>maven-compiler-plugin</artifactId>\
         <configuration><annotationProcessorPaths><path>\
         <groupId>org.mapstruct</groupId><artifactId>mapstruct-processor</artifactId>\
         <version>1.5.5.Final</version></path></annotationProcessorPaths>\
         </configuration></plugin></plugins></build></project>",
    );
    let m = &migration.manifest;
    assert_eq!(m.dependencies[0].key(), "org.mapstruct:mapstruct-processor");
    assert!(m.dependencies[0].compile_only);
    assert_eq!(m.java.javac_args, vec!["-proc:full"]);
    let review = migration.report.needs_review.join("\n");
    assert!(review.contains("-proc:full"), "{review}");
}

#[test]
fn arguments_split_on_whitespace_outside_quotes() {
    assert_eq!(
        split_arguments(" -Xmx1g   -Da=\"b c\" -ea "),
        vec!["-Xmx1g", "-Da=b c", "-ea"]
    );
}

#[test]
fn unknown_plugins_are_named_in_the_report() {
    let dir = Dir::new("plugins");
    let migration = dir.migrate(FULL);
    let skipped = migration.report.not_migrated.join("\n");
    assert!(skipped.contains("maven-antrun-plugin"), "{skipped}");
    assert!(
        !skipped.contains("maven-jar-plugin"),
        "the jar plugin is understood: {skipped}"
    );
}

#[test]
fn repositories_are_carried_over_with_central_last() {
    let dir = Dir::new("repos");
    let m = dir.migrate(FULL).manifest;
    assert_eq!(m.repositories.len(), 2);
    assert_eq!(m.repositories[0].name, "internal");
    assert_eq!(m.repositories[0].url, "https://nexus.example.com/maven");
    assert_eq!(m.repositories[1].url, CENTRAL_URL);
}

#[test]
fn a_local_parent_is_followed() {
    let dir = Dir::new("parent");
    dir.write(
        "pom.xml",
        "<project><groupId>g</groupId><artifactId>parent</artifactId>\
         <version>2.0.0</version><packaging>pom</packaging>\
         <properties><maven.compiler.release>17</maven.compiler.release></properties>\
         <dependencyManagement><dependencies><dependency>\
         <groupId>com.google.guava</groupId><artifactId>guava</artifactId>\
         <version>32.1.3-jre</version></dependency></dependencies></dependencyManagement>\
         </project>",
    );
    let child = dir.write(
        "app/pom.xml",
        "<project><parent><groupId>g</groupId><artifactId>parent</artifactId>\
         <version>2.0.0</version></parent><artifactId>app</artifactId>\
         <dependencies><dependency><groupId>com.google.guava</groupId>\
         <artifactId>guava</artifactId></dependency></dependencies></project>",
    );
    let migration = dir.migrate_file(&child).unwrap();
    let m = &migration.manifest;
    assert_eq!(m.name, "app");
    assert_eq!(m.version, "2.0.0", "inherited from the parent");
    assert_eq!(m.java.source, Some(17));
    assert_eq!(m.dependencies[0].version, "32.1.3-jre");
}

#[test]
fn a_parent_that_is_not_on_disk_is_reported_not_guessed() {
    let dir = Dir::new("remote-parent");
    let migration = dir.migrate(
        "<project><parent><groupId>com.example</groupId>\
         <artifactId>corporate-parent</artifactId><version>3.2.0</version>\
         <relativePath/></parent><artifactId>app</artifactId>\
         <version>1.0.0</version></project>",
    );
    let skipped = migration.report.not_migrated.join("\n");
    assert!(skipped.contains("corporate-parent"), "{skipped}");
    assert!(skipped.contains("repository"), "{skipped}");
}

#[test]
fn spring_boots_starter_parent_becomes_its_bom() {
    let dir = Dir::new("boot-parent");
    dir.write(
        "src/main/java/com/example/App.java",
        "package com.example;\n\n@SpringBootApplication\npublic class App {}\n",
    );
    let migration = dir.migrate(
        "<project><parent><groupId>org.springframework.boot</groupId>\
         <artifactId>spring-boot-starter-parent</artifactId><version>3.2.0</version>\
         <relativePath/></parent><groupId>g</groupId><artifactId>app</artifactId>\
         <version>1.0.0</version><properties><java.version>21</java.version></properties>\
         <dependencies><dependency><groupId>org.springframework.boot</groupId>\
         <artifactId>spring-boot-starter-web</artifactId></dependency></dependencies>\
         </project>",
    );
    let m = &migration.manifest;
    assert_eq!(
        m.managed,
        vec![Managed::bom(
            "org.springframework.boot",
            "spring-boot-dependencies",
            "3.2.0"
        )]
    );
    assert!(m.dependencies[0].is_managed());
    assert_eq!(m.java.source, Some(21));
    assert_eq!(m.java.javac_args, vec!["-parameters"]);
    assert_eq!(m.main_class.as_deref(), Some("com.example.App"));
    assert!(
        migration.report.not_migrated.is_empty(),
        "{:?}",
        migration.report.not_migrated
    );
}

#[test]
fn modules_are_listed_rather_than_migrated() {
    let dir = Dir::new("modules");
    let migration = dir.migrate(
        "<project><groupId>g</groupId><artifactId>agg</artifactId><version>1</version>\
         <packaging>pom</packaging><modules><module>core</module><module>web</module>\
         </modules></project>",
    );
    let skipped = migration.report.not_migrated.join("\n");
    assert!(skipped.contains("core, web"), "{skipped}");
    assert!(skipped.contains("separately"), "{skipped}");
}

#[test]
fn a_non_default_layout_is_flagged_for_review() {
    let dir = Dir::new("layout");
    let migration = dir.migrate(
        "<project><groupId>g</groupId><artifactId>a</artifactId><version>1</version>\
         <build><sourceDirectory>${project.basedir}/java</sourceDirectory>\
         <directory>build</directory></build></project>",
    );
    assert_eq!(migration.manifest.source_dir, "java");
    assert_eq!(migration.manifest.target_dir, "build");
    let review = migration.report.needs_review.join("\n");
    assert!(review.contains("source-dir = java"), "{review}");
}

#[test]
fn a_default_layout_is_not_written_out() {
    let dir = Dir::new("default-layout");
    let migration = dir.migrate(
        "<project><groupId>g</groupId><artifactId>a</artifactId><version>1</version>\
         <build><sourceDirectory>src/main/java</sourceDirectory></build></project>",
    );
    assert!(migration.report.needs_review.is_empty());
    assert!(!migration.render_manifest().contains("source-dir"));
}

#[test]
fn a_version_range_is_clamped_and_flagged() {
    let dir = Dir::new("range");
    let migration = dir.migrate(
        "<project><groupId>g</groupId><artifactId>a</artifactId><version>1</version>\
         <dependencies><dependency><groupId>g</groupId><artifactId>lib</artifactId>\
         <version>[1.2,2.0)</version></dependency></dependencies></project>",
    );
    assert_eq!(migration.manifest.dependencies[0].version, "1.2");
    let review = migration.report.needs_review.join("\n");
    assert!(review.contains("clamped to 1.2"), "{review}");
}

#[test]
fn exclusions_are_carried_over() {
    let dir = Dir::new("exclusions");
    let migration = dir.migrate(
        "<project><groupId>g</groupId><artifactId>a</artifactId><version>1</version>\
         <dependencies><dependency><groupId>g</groupId><artifactId>lib</artifactId>\
         <version>1.0</version><exclusions><exclusion><groupId>x</groupId>\
         <artifactId>y</artifactId></exclusion></exclusions></dependency>\
         </dependencies></project>",
    );
    let dep = &migration.manifest.dependencies[0];
    assert_eq!(dep.exclusions.len(), 1);
    assert_eq!(dep.exclusions[0].to_text(), "x:y");
    assert!(migration.report.not_migrated.is_empty());
    assert!(
        migration
            .render_manifest()
            .contains(r#""g:lib" = { version = "1.0", exclusions = ["x:y"] }"#)
    );
}

#[test]
fn the_shade_plugins_main_class_is_found() {
    let dir = Dir::new("shade");
    let migration = dir.migrate(
        "<project><groupId>g</groupId><artifactId>a</artifactId><version>1</version>\
         <build><plugins><plugin><artifactId>maven-shade-plugin</artifactId>\
         <executions><execution><configuration><transformers><transformer>\
         <mainClass>com.example.Boot</mainClass></transformer></transformers>\
         </configuration></execution></executions></plugin></plugins></build></project>",
    );
    assert_eq!(
        migration.manifest.main_class.as_deref(),
        Some("com.example.Boot")
    );
}

#[test]
fn compiler_arguments_are_carried_over() {
    let dir = Dir::new("compiler-args");
    let migration = dir.migrate(
        "<project><groupId>g</groupId><artifactId>a</artifactId><version>1</version>\
         <build><plugins><plugin><artifactId>maven-compiler-plugin</artifactId>\
         <configuration><release>21</release><compilerArgs>\
         <arg>-Xlint:all</arg><arg>-Werror</arg></compilerArgs></configuration>\
         </plugin></plugins></build></project>",
    );
    assert_eq!(migration.manifest.java.source, Some(21));
    assert_eq!(
        migration.manifest.java.javac_args,
        vec!["-Xlint:all", "-Werror"]
    );
}

#[test]
fn kotlin_compiler_arguments_become_kotlinc_args() {
    let dir = Dir::new("kotlinc-args");
    let migration = dir.migrate(
        "<project><groupId>g</groupId><artifactId>a</artifactId><version>1</version>\
         <properties><kotlin.version>2.2.21</kotlin.version></properties>\
         <build><plugins><plugin><groupId>org.jetbrains.kotlin</groupId>\
         <artifactId>kotlin-maven-plugin</artifactId><version>${kotlin.version}</version>\
         <configuration><args><arg>-Xjsr305=strict</arg></args></configuration>\
         <executions><execution><id>compile</id><configuration><args>\
         <arg>-Xjsr305=strict</arg><arg>-Xcontext-parameters</arg></args>\
         </configuration></execution></executions></plugin></plugins></build></project>",
    );
    let kotlin = &migration.manifest.languages[0];
    assert_eq!(
        kotlin.compiler_args,
        ["-Xjsr305=strict", "-Xcontext-parameters"],
        "each argument once"
    );
}

#[test]
fn surefire_fork_settings_are_read() {
    let dir = Dir::new("forks");
    let surefire = |config: &str| {
        format!(
            "<project><groupId>g</groupId><artifactId>a</artifactId><version>1</version>\
             <build><plugins><plugin><artifactId>maven-surefire-plugin</artifactId>\
             <configuration>{config}</configuration></plugin></plugins></build></project>"
        )
    };
    let four = dir.migrate(&surefire("<forkCount>4</forkCount>"));
    assert_eq!(four.manifest.test.forks, 4);

    let per_core = dir.migrate(&surefire(
        "<forkCount>1C</forkCount><reuseForks>false</reuseForks>",
    ));
    assert_eq!(per_core.manifest.test.forks, 0);
    let skipped = per_core.report.not_migrated.join("\n");
    assert!(skipped.contains("per CPU core"), "{skipped}");
    assert!(
        skipped.contains("<reuseForks>false</reuseForks>"),
        "{skipped}"
    );

    let inside = dir.migrate(&surefire("<forkCount>0</forkCount>"));
    assert!(
        inside.report.needs_review[0].contains("inside Maven's own JVM"),
        "{:?}",
        inside.report.needs_review
    );
}

#[test]
fn default_profiles_are_merged_and_the_rest_listed() {
    let dir = Dir::new("profiles");
    let migration = dir.migrate(
        "<project><groupId>g</groupId><artifactId>a</artifactId><version>1</version>\
         <profiles><profile><id>ci</id></profile>\
         <profile><id>dev</id><activation><activeByDefault>true</activeByDefault>\
         </activation><dependencies><dependency><groupId>g</groupId>\
         <artifactId>dev-tools</artifactId><version>1.0</version></dependency>\
         </dependencies></profile></profiles></project>",
    );
    assert!(
        migration
            .report
            .not_migrated
            .iter()
            .any(|s| s.contains("<profile> ci"))
    );
    assert!(
        migration
            .report
            .migrated
            .iter()
            .any(|s| s.contains("<profile> dev — active by default"))
    );
    assert_eq!(migration.manifest.dependencies[0].artifact, "dev-tools");
}

#[test]
fn releases_parse_in_every_spelling_maven_accepts() {
    assert_eq!(parse_release("21"), Some(21));
    assert_eq!(parse_release("1.8"), Some(8));
    assert_eq!(parse_release(" 17 "), Some(17));
    assert_eq!(parse_release("nonsense"), None);
}

#[test]
fn basedir_prefixes_are_stripped() {
    assert_eq!(strip_basedir("${project.basedir}/src/gen"), "src/gen");
    assert_eq!(strip_basedir("${basedir}/src"), "src");
    assert_eq!(strip_basedir("./src"), "src");
    assert_eq!(strip_basedir("src/main/java"), "src/main/java");
}

#[test]
fn range_lower_bounds_are_extracted() {
    assert_eq!(lower_bound("[1.2,2.0)"), "1.2");
    assert_eq!(lower_bound("(1.0,]"), "1.0");
    assert_eq!(lower_bound("[1.5]"), "1.5");
}

#[test]
fn the_generated_manifest_parses_back() {
    let dir = Dir::new("round-trip");
    let migration = dir.migrate(FULL);
    let text = migration.render_manifest();
    let parsed = Manifest::parse(&text, "/p/jrs.toml", "/p").unwrap();
    assert_eq!(parsed.name, "my-app");
    assert_eq!(parsed.dependencies.len(), 2);
    assert_eq!(parsed.dev_dependencies.len(), 1);
    assert!(parsed.warnings.is_empty(), "{:?}", parsed.warnings);
}

#[test]
fn the_kotlin_version_can_come_from_plugin_management() {
    let dir = Dir::new("kotlin-managed");
    let migration = dir.migrate(
        "<project><groupId>g</groupId><artifactId>a</artifactId><version>1</version>\
         <properties><kotlin.version>2.2.0</kotlin.version></properties>\
         <dependencies><dependency><groupId>org.jetbrains.kotlin</groupId>\
         <artifactId>kotlin-stdlib</artifactId><version>2.1.0</version></dependency>\
         </dependencies>\
         <build><pluginManagement><plugins><plugin>\
         <groupId>org.jetbrains.kotlin</groupId><artifactId>kotlin-maven-plugin</artifactId>\
         <version>${kotlin.version}</version></plugin></plugins></pluginManagement>\
         <plugins><plugin><groupId>org.jetbrains.kotlin</groupId>\
         <artifactId>kotlin-maven-plugin</artifactId>\
         <executions><execution><goals><goal>kapt</goal></goals></execution></executions>\
         </plugin></plugins></build></project>",
    );
    let m = &migration.manifest;
    assert_eq!(m.language(Language::Kotlin).unwrap().version, "2.2.0");
    assert_eq!(
        m.dependencies[0].version, "2.1.0",
        "a stdlib at another version than the compiler is kept"
    );
    let review = migration.report.needs_review.join("\n");
    assert!(review.contains("kept at the version"), "{review}");
    let skipped = migration.report.not_migrated.join("\n");
    assert!(skipped.contains("`kapt` goal"), "{skipped}");
    assert!(!skipped.contains("no plugin system"), "{skipped}");
}

#[test]
fn a_compiler_jrs_cannot_drive_gets_no_table() {
    let dir = Dir::new("old-compilers");
    for (build, reason) in [
        (
            "<build><plugins><plugin><groupId>org.jetbrains.kotlin</groupId>\
             <artifactId>kotlin-maven-plugin</artifactId><version>1.9.24</version>\
             </plugin></plugins></build>",
            "Kotlin 2.0",
        ),
        (
            "<dependencies><dependency><groupId>org.scala-lang</groupId>\
             <artifactId>scala-library</artifactId><version>2.12.18</version>\
             </dependency></dependencies><build><plugins><plugin>\
             <groupId>net.alchim31.maven</groupId><artifactId>scala-maven-plugin</artifactId>\
             </plugin></plugins></build>",
            "2.12 is not supported",
        ),
        (
            "<dependencies><dependency><groupId>org.codehaus.groovy</groupId>\
             <artifactId>groovy</artifactId><version>3.0.22</version>\
             </dependency></dependencies><build><plugins><plugin>\
             <groupId>org.codehaus.gmavenplus</groupId><artifactId>gmavenplus-plugin</artifactId>\
             </plugin></plugins></build>",
            "org.apache.groovy",
        ),
    ] {
        let migration = dir.migrate(&format!(
            "<project><groupId>g</groupId><artifactId>a</artifactId><version>1</version>\
             {build}</project>"
        ));
        assert!(migration.manifest.languages.is_empty(), "{build}");
        let skipped = migration.report.not_migrated.join("\n");
        assert!(skipped.contains(reason), "{skipped}");
        let text = migration.render_manifest();
        Manifest::parse(&text, "/p/jrs.toml", "/p").unwrap();
    }
}

#[test]
fn a_language_root_as_source_directory_leaves_the_java_root_alone() {
    let dir = Dir::new("kotlin-layout");
    let migration = dir.migrate(
        "<project><groupId>g</groupId><artifactId>a</artifactId><version>1</version>\
         <build><sourceDirectory>${basedir}/src/main/kotlin</sourceDirectory>\
         <testSourceDirectory>src/test/scala</testSourceDirectory>\
         <plugins><plugin><groupId>org.jetbrains.kotlin</groupId>\
         <artifactId>kotlin-maven-plugin</artifactId><version>2.2.0</version>\
         </plugin></plugins></build></project>",
    );
    let m = &migration.manifest;
    assert_eq!(m.source_dir, "src/main/java");
    assert_eq!(
        m.test_dir,
        "src/test/scala",
        "Scala is not on, so its root is just a directory"
    );
    let migrated = migration.report.migrated.join("\n");
    assert!(migrated.contains("[kotlin]'s own root"), "{migrated}");
}

#[test]
fn properties_are_followed_a_few_levels_deep() {
    let props = vec![
        ("a".to_string(), "${b}/x".to_string()),
        ("b".to_string(), "${project.basedir}".to_string()),
        ("loop".to_string(), "${loop}".to_string()),
    ];
    assert_eq!(exec_text("{${a}}", &props, 0), Ok("{{{root}/x}}".to_string()));
    for depth in [8, 9, usize::MAX] {
        assert_eq!(
            exec_text("${a}", &props, depth),
            Err("`${a}` is a property jrs cannot evaluate".to_string())
        );
        assert_eq!(exec_text("plain", &props, depth), Ok("plain".to_string()));
    }
    assert!(exec_text("${loop}", &props, 0).is_err());
    assert!(exec_text("${nothing}", &props, 0).is_err());
}

fn executions(properties: &str, list: &str) -> String {
    format!(
        "<project><groupId>g</groupId><artifactId>a</artifactId><version>1</version>\
         <properties>{properties}</properties>\
         <build><plugins><plugin><artifactId>exec-maven-plugin</artifactId>\
         <executions>{list}</executions></plugin></plugins></build></project>"
    )
}

#[test]
fn an_execution_becomes_a_task_that_is_read_back() {
    let dir = Dir::new("exec");
    let migration = dir.migrate(&executions(
        "<tool>protoc</tool>",
        "<execution><id>gen</id><phase>generate-sources</phase>\
         <goals><goal>exec</goal></goals><configuration>\
         <executable>${tool}</executable>\
         <arguments><argument>{x}</argument><argument>${project.build.directory}/gen</argument></arguments>\
         <environmentVariables><A>1</A><B>x</B><A>2</A></environmentVariables>\
         <workingDirectory>${project.basedir}/src</workingDirectory>\
         </configuration></execution>",
    ));
    let m = &migration.manifest;
    let task = &m.tasks[0];
    assert_eq!(task.name, "gen");
    match &task.action {
        Some(Action::Run(argv)) => {
            let raw: Vec<&str> = argv.iter().map(|t| t.raw.as_str()).collect();
            assert_eq!(raw, ["protoc", "{{x}}", "{target}/gen"]);
        }
        other => panic!("{other:?}"),
    }
    let env: Vec<(&str, &str)> = task
        .env
        .iter()
        .map(|(name, t)| (name.as_str(), t.raw.as_str()))
        .collect();
    assert_eq!(env, [("B", "x"), ("A", "2")], "the last value is kept");
    assert_eq!(task.cwd.as_ref().unwrap().raw, "{root}/src");
    let again = Manifest::parse(&m.render(None), "/p/jrs.toml", "/p").unwrap();
    assert_eq!(again.tasks, m.tasks);
    assert_eq!(again.hooks, m.hooks);
}

#[test]
fn an_execution_of_a_blank_program_is_left_out() {
    let dir = Dir::new("blank");
    let migration = dir.migrate(&executions(
        "<empty></empty>",
        "<execution><id>none</id><goals><goal>exec</goal></goals><configuration>\
         <executable>${empty}</executable></configuration></execution>\
         <execution><id>own</id><goals><goal>exec</goal></goals><configuration>\
         <executable>x</executable><environmentVariables><jrs_x>1</jrs_x></environmentVariables>\
         </configuration></execution>",
    ));
    assert!(migration.manifest.tasks.is_empty());
    let skipped = migration.report.not_migrated.join("\n");
    assert!(
        skipped.contains("execution `none` — the program it runs is blank"),
        "{skipped}"
    );
    assert!(
        skipped.contains("execution `own` — its environment variable `jrs_x` is jrs's"),
        "{skipped}"
    );
}

#[test]
fn parents_are_sought_and_followed_as_their_poms_say() {
    let pom = |parent: &str| {
        format!(
            "<project>{parent}<groupId>g</groupId><artifactId>a</artifactId>\
             <version>1</version></project>"
        )
    };
    let parent = |path: &str| {
        pom(&format!(
            "<parent><groupId>g</groupId><artifactId>p</artifactId><version>1</version>{path}</parent>"
        ))
    };
    assert_eq!(parent_sought("a/b/pom.xml", &pom("")), None);
    assert_eq!(parent_sought("a/b/pom.xml", "not a POM"), None);
    assert_eq!(
        parent_sought("a/b/pom.xml", &parent("<relativePath/>")),
        None
    );
    assert_eq!(
        parent_sought("a/b/pom.xml", &parent("")),
        Some("a/b/../pom.xml".to_string())
    );
    assert_eq!(
        parent_sought("a/b/pom.xml", &parent("<relativePath>../up</relativePath>")),
        Some("a/b/../up".to_string())
    );
    assert_eq!(pom_named("a/up", true), "a/up/pom.xml");
    assert_eq!(pom_named("a/up.xml", false), "a/up.xml");

    let file = |text: String, found: bool| PomFile {
        path: "a/pom.xml".to_string(),
        text,
        parent_path: "pom.xml".to_string(),
        parent_found: found,
    };
    assert!(follows(&file(parent(""), true), 1));
    assert!(follows(&file(parent(""), true), 15));
    assert!(!follows(&file(parent(""), true), 16));
    assert!(!follows(&file(parent(""), false), 1));
    assert!(!follows(&file(parent("<relativePath/>"), true), 1));
    assert!(!follows(&file(pom(""), true), 1));
    assert!(!follows(&file("not a POM".to_string(), true), 1));
}
