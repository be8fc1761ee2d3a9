//! The model of a `jrs` build: its manifest, and what a Gradle or Maven build
//! becomes when it is migrated to one.

pub mod archive;
pub mod attributes;
pub mod chars;
pub mod check;
pub mod coord;
pub mod coverage;
pub mod debug;
pub mod dependency;
pub mod discover;
pub mod element;
pub mod error;
pub mod fresh;
pub mod gradle;
pub mod gradle_assign;
pub mod gradle_body;
pub mod gradle_catalog;
pub mod gradle_decl;
pub mod gradle_deps;
pub mod gradle_env;
pub mod gradle_files;
pub mod gradle_generated;
pub mod gradle_jar;
pub mod gradle_lex;
pub mod gradle_loads;
pub mod gradle_manifest;
pub mod gradle_managed;
pub mod gradle_openapi;
pub mod gradle_paths;
pub mod gradle_plugins;
pub mod gradle_repos;
pub mod gradle_says;
pub mod gradle_scan;
pub mod gradle_tasks;
pub mod gradle_text;
pub mod gradle_ties;
pub mod gradle_vars;
pub mod json;
pub mod keys;
pub mod language;
pub mod manifest;
pub mod manifest_says;
pub mod maven;
pub mod maven_build;
pub mod maven_deps;
pub mod maven_exec;
pub mod maven_loads;
pub mod maven_manifest;
pub mod maven_profiles;
pub mod maven_says;
pub mod maven_text;
pub mod migration;
pub mod migration_loads;
pub mod model;
pub mod model_says;
pub mod names_say;
pub mod native_image;
pub mod obfuscate;
pub mod obfuscate_lines;
pub mod order;
pub mod parse;
pub mod parse_dependencies;
pub mod parse_tasks;
pub mod paths;
pub mod pom;
pub mod reach;
pub mod render;
pub mod report;
pub mod reread;
pub mod reread_dependencies;
pub mod reread_manifest;
pub mod reread_paths;
pub mod reread_settings;
pub mod reread_tasks;
pub mod settings_say;
pub mod sheet;
pub mod sheet_of;
pub mod task;
pub mod tasks_say;
pub mod template;
pub mod text;
pub mod toolchain;
pub mod value;
pub mod version;
pub mod vocabulary;
pub mod writable;
pub mod writable_dependencies;
pub mod writable_settings;
pub mod writable_tasks;
