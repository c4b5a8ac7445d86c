# pinner

Hash-pins the dependencies of CI/CD workflows (GitHub Actions, GitLab CI,
Bitbucket Pipelines, CircleCI, Forgejo, Azure Pipelines, container images) to
immutable commit SHAs and image digests, upgrades them, verifies that they
are pinned, vetted and not compromised, and exports an SBOM.

The library under `src/` holds the decisions, each with a contract proved by
Verus:

- `scanner/`: finding dependencies in YAML files (tree-sitter queries over
  the YAML grammar) and turning them into update tasks;
- `resolver/`: which request each forge, registry or OSV query takes, what
  its replies mean, how tags are compared and which tag an upgrade picks;
- `patcher/`: rewriting a dependency in place while keeping the rest of the
  file, diffs and the console's messages;
- `pipeline/`: verification verdicts and reports, security scans, SBOM
  components, project initialisation and pull-request details;
- `config.rs`, `session.rs`, `cli.rs`: configuration merging and the options
  of a run.

Calls into outside crates (regex, semver, globset, similar, tree-sitter,
serde_json, base64, chrono, colored) go through small trusted wrappers whose
contracts name or state what the crate returns.

`app/` is the executable: argument parsing, configuration files, the file
system, HTTP requests and prompts. It hands the library plain values and
acts on what comes back.
