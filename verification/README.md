# cargo_compete (verified core of `cargo compete new`)

`cargo compete new` retrieves the problems of a contest and makes a Cargo package with
one binary per problem. This crate holds the decisions of that command, each with a
contract proved by Verus:

- `src/plan.rs`: what to retrieve for the arguments and the configured platform, the
  group (contest) the retrieved problems form, the problems keyed by index.
- `src/package.rs`: where the package goes, its binaries, the metadata table text, and
  the text edits of the manifest that `cargo new` writes.
- `src/manifest.rs`: the manifest of the new package, assembled with `toml_edit` from the
  manifest of `cargo new`, the layout, the dependencies and the profile.
- `src/group.rs`: contests and package names.
- `src/session.rs`: the command as steps: the library decides, the caller does the I/O.
- `src/credentials.rs`: where cookies and tokens are kept; the user name and password
  dialog.
- `src/toml_syntax.rs`, `src/toml_key.rs`: the TOML grammar of keys and strings as
  `toml_edit` reads them, and how keys are written.
- `src/text.rs`, `src/str_map.rs`: strings, and a map sorted as `BTreeMap<String, _>` is.
- `src/external.rs`: the calls into heck, toml, toml_edit, liquid, url, dirs and
  `std::path`, with the contracts they are trusted to meet.

`app/` holds the I/O around it (files, `cargo new`, reading and writing the manifest) and
the command-line types with their derives.
