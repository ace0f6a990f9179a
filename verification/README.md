# cargo_fdep

The verified core of `cargo fdep`, a cargo subcommand that runs the `fdep`
analyser on every library and binary target of a package or workspace.

- `src/` is the library, verified with Verus: flag scanning (`args`), target
  kinds and their checking order (`target`), the metadata model and package
  selection (`metadata`), the flag suggestions (`analysis`), the command plans
  (`plan`), JSON transport of fdep's arguments (`json`, through `serde_json`),
  calls into `std::path` (`paths`), and properties across them (`laws`).
- `app/main.rs` is the driver: it reads the command line, the environment and
  `cargo metadata`, runs cargo, rustc, sccache and fdep, and prints.
- `tests/` runs the library on concrete inputs.
