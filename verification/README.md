# soroban-guard-core

Static analysis of Soroban smart contracts, written in Verus: the analysis
rules, the scoring, the reports and the contract model they read are proved
against their specifications.

## Layout

- `src/` — the verified library.
  - `parser/` — the contract model (`ast`), the Soroban call and type
    patterns (`patterns`), and `visitors::ContractVisitor`, which turns the
    constructs of a syntax walk into the model.
  - `analysis/` — the four rule families (reentrancy R-01..R-04, overflow
    O-01..O-05, access control A-01..A-05, storage S-01..S-05) and the
    `AnalysisEngine` that runs them and applies severity overrides.
  - `scoring.rs` — the 0–100 security score, grades and summary.
  - `report/` — findings, severities, per-contract reports, the combined
    report, severity filtering, the human-readable text and the SARIF log.
  - `config.rs` — configuration values, rule selection and option merging.
  - `text.rs`, `sorted.rs` — verified string, number and ordering helpers.
- `app/` — the `soroban-guard` command line: argument parsing, reading files
  and the configuration (TOML), the `syn` walk that feeds
  `ContractVisitor`, JSON/SARIF serialisation and the worker threads.
- `tests/` — tests of the library.

Each public function states its result in its `ensures` clause; the
properties that relate several functions are public proof functions named
`law_*` next to the code they speak of.

## Dependencies

`proc-macro2` is named only for its `span-locations` feature: with it, the
spans that `syn` hands to `app/parse.rs` carry line and column numbers, which
become the `line:column` of each finding's location.
