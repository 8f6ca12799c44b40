# wine-winget

A small command line tool that installs Windows packages from a local clone of
https://github.com/microsoft/winget-pkgs with Wine, built around a library whose
lookups, choices and checks are verified with Verus.

- `src/` — the verified library:
  - `text` — ASCII case folding, substring search, splitting, ordering of texts;
  - `listing` — directory listings as plain values and case-insensitive lookups;
  - `package` — package names (`Vendor.Package`) and the walk to a package's
    directory `manifests/<letter>/<vendor>/<package>`;
  - `version` — SemVer versions and requirements (through the `semver` crate) and
    the choice of the newest acceptable version directory;
  - `install` — installer choice, download path, SHA-256 (through `sha2` and `hex`)
    and the checksum check;
  - `install_flow` — installing one package, step by step, as a state machine;
  - `search` — the search for vendors and packages by a part of their path below
    `manifests`, as a state machine;
  - `cli`, `schema`, `settings`, `error` — the commands, manifest types,
    configuration and errors as plain values.
- `app/` — the program: argument parsing, file system, network, processes, YAML and
  the configuration file. It performs what the library's state machines ask for.
- `tests/` — tests of the library on concrete values.
