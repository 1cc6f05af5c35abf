# kumo

The verified core of Kumo, a security-first package manager for the npm ecosystem.

- `src/` is the library, verified with Verus: package ids and version ranges, resolution
  steps and the dependency-tree walk, lockfile and trust checks, typosquatting detection,
  script analysis, the sandbox and firewall decisions, the content-addressed store layout,
  credentials, publishing, runtime selection and the other decisions of the commands.
  `src/laws.rs` states properties that span several operations.
- `app/` is the command-line program around it: argument parsing, files, the network,
  processes and prompts. It hands the library plain values and acts on what comes back.
- `tests/` runs the library on concrete values.
