# hira

Hira lets a Rust crate describe its deployment next to its code: a module marked with
`#[hira(...)]` names the modules it builds on, and those modules, through capabilities
granted to them, write CloudFormation resources, deployment commands, files, runtimes and
code into the crate.

This crate is the logic of Hira, verified with Verus: the functions under `src/` state in
`requires` / `ensures`, over mathematical models (`Seq`, `Map`, views of the library's
types), what they return or change, and Verus proves the code against them. Where a result
comes from an outside crate whose answer depends on the build or the process (the lexer
that runs, the order of a map), the contract states what holds of every answer.

## Layout

- `src/module_text.rs`, `src/module_parse.rs`, `src/module_loading.rs`: reading a module
  definition (through `syn`, behind trusted wrappers), its level, dependencies, outputs and
  the checks on its config function; `src/module_driver.rs`: the steps of `#[hira]` on a
  module (which modules are kept, which crates a level-3 module needs).
- `src/capabilities.rs`, `src/code_capabilities.rs`, `src/outputs.rs`: the capability
  grants of the modules a level-3 module builds on, and what each capability does to the
  module (files, runtimes, read and written functions, diagnostics, outputs).
- `src/shared_files.rs`, `src/kv.rs`, `src/level0.rs`: the shared state the modules write.
- `src/registry.rs`, `src/registry_modules/`, `src/resources.rs`, `src/cfn_*.rs`: the
  modules of the registry (Lambda, S3, CloudFront, SQS, regions) and their templates.
- `src/level2/`: the level-2 modules (stacks, certificates, distributions, websites).
- `src/funcdef.rs`, `src/matchdef.rs`, `src/moddef.rs`, `src/tokens.rs`, `src/macros.rs`,
  `src/deploy_macros.rs`, `src/deploy.rs`: the item parsers and the deploy macros.
- `src/wasm_code.rs`, `src/module_scripting.rs`: the code compiled for a level-3 module and
  the checks on module scripts.
- `app/`: the edges that Verus does not see: token streams, files, the environment.
- `tests/`: the tests, run against the compiled library.

Outside crates (`proc-macro2`, `syn`, `quote`, `rhai`, `adler`) are called from `src/`
behind trusted items whose doc comments say what each one assumes of the call.
