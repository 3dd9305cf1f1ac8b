# odyn

Reproducible vendoring for Odin projects: `odyn get` clones a Git dependency into
`odyn_deps/` and pins its commit in `Odyn.lock`; `odyn sync` makes `odyn_deps/` match the
lockfile; `odyn status` reports what differs.

- `src/` is the library, verified with Verus: version strings and their order, the
  lockfile edits of `get`/`update`/`remove`, the `status` report, the decisions of `sync`,
  source and name resolution of `get`, reading `git` output and clone progress, the
  release, asset and checksum logic of `update-self`, the layout written by `init` and its
  `ols.json` migration (read and written through serde_json), the step-by-step restore of
  `sync`, and the texts the tool prints (as farben markup).
- `app/` is the command-line program around it: argument parsing (clap), the file system,
  git processes, HTTP (ureq), the TOML lockfile on disk (serde and toml) and terminal
  output (farben).
- `tests/` runs the library on concrete inputs.

Build-time details shown by `odyn --version` (`ODYN_INSTALL_METHOD`, `ODYN_GIT_HASH`,
`ODYN_BUILD_DATE`) are read from the build environment when set.
