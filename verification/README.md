# jrs

The core of a JVM build system, verified with [Verus](https://github.com/verus-lang/verus).

A project is one `jrs.toml`. The library reads it, writes it, checks it, makes
the model of a project that editors read, and turns a Gradle or Maven build
into one.

## Layout

- `src/` — the library. Every function states what it does in its contract.
  - `manifest`, `parse*`, `render`, `discover`, `keys`, `value` — `jrs.toml`,
    its tables, how it is found, read and written.
  - `sheet`, `sheet_of`, `writable*`, `reread*` — that a manifest which a
    document can say (`good_manifest`), as every one that was read is, is read
    back the same once it is written, where its texts can be quoted and it says
    nothing that the form it is written in cannot (`readable`).
  - `dependency`, `coord`, `language`, `task`, `template`, `coverage`,
    `attributes`, `version`, `reach`, `check` — what a manifest is made of.
  - `gradle*` — a Gradle build, read without running it.
  - `maven*`, `pom`, `element` — a Maven build and the XML it is written in.
  - `migration`, `report`, `fresh`, `order` — what both migrations share.
  - `migration_loads`, `gradle_loads`, `gradle_manifest`, `maven_loads`,
    `maven_text`, `maven_manifest` — that what a build becomes can be loaded,
    where a manifest can hold the words that the build decides (`worded`).
  - `model`, `json` — the document that `jrs metadata` prints.
  - `obfuscate`, `native_image`, `toolchain`, `archive` — what is handed to
    ProGuard, to `native-image` and to the JDK's tools.
  - `text`, `chars`, `paths`, `debug` — text, and paths as text.
- `app/` — the program around it: arguments, files and processes.
- `tests/` — tests of the library.

Files and directories reach the library as values: a text that was read, or
the list of what is there. It does no I/O of its own.
