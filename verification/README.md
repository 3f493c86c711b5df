# Acre

Warm, reusable Git workspaces: every branch opened in an isolated worktree that reuses a
compatible dependency environment.

The crate is written in Verus. `src/` holds Acre's decisions and the parsers of what Git
prints: target resolution (with the suggestions for an unknown target), the warm pool and
its leases, how a slot is activated and when a workspace may be returned (with what undoes
either when it fails), which seed files and caches may be copied, environment fingerprints,
shell directives, and every line printed. Each function has a contract that Verus proves.
The few calls into other crates (hashing, random ids, time, Unicode segmentation and width,
JSON reading) sit behind small trusted wrappers whose contracts say only what those crates
document.

`app/` is the `acre` binary around the library: argument parsing, running Git and `gh`,
reading and writing the state files, moving and copying directories, and the terminal. It
gathers the facts the library's decisions take and carries out what they say.

Layout of `src/`:

- `git/` — the Git invocations Acre makes and parsers for what Git prints
- `target.rs`, `provider/` — resolving what the user named, pull requests included
- `pool/` — slot selection, activation, leases, return decisions, warming, maintenance
- `state/` — the persisted records, reconciled against Git
- `environment/` — ecosystem detection, fingerprints, cache roots, seed files
- `commands/`, `shell/`, `ui/` — command decisions, shell integration, output
