# libretto

The core of the Libretto package manager, written in Verus: Verus proves
every function in `src/` free of panics and overflow, and each against
the `requires`/`ensures` contract it states.

## Layout

- `src/` — the verified library.
  - `platform`, `cpu`, `io`, `path`, `fs`, `permissions`, `error`: the
    description of the running platform (OS, architecture, SIMD level,
    I/O backend, kernel version), cross-platform paths, permission bits and
    the platform error type.
  - `shell`, `process`, `signal`, `temp`, `tls`: shell command lines and
    argument escaping, process builders and environment edits, signal
    bookkeeping, temporary-file naming and tracking, TLS configuration with
    PEM loading and the rustls client configuration.
  - `plugin`: plugin metadata, capabilities, configuration, discovery from
    `composer.json` data, native plugin rules and the plugin event bus.
  - `repository`: repository configuration, Packagist metadata (including
    the expansion of minified version lists) and VCS provider detection.
  - `resolver`, `resolution`: resolver options, statistics and errors; the
    decisions of the streaming parallel fetch and of breadth-first
    transitive discovery, as state machines that `app/` drives; the
    dependency graph of a resolution and its installation order.
  - `pubgrub`: the PubGrub-style solver (unit propagation, decisions in the
    order of the resolution mode, backtracking on conflicts, conflict
    explanations), proved to return only selections that satisfy every root
    requirement and every requirement of every selected version. Versions
    and version constraints here are the library's own model: a version is
    a release number with a stability, a constraint a conjunction of
    alternatives of version ranges. Parsing Composer constraint strings into
    this model is not part of the library.
  - `text`: verified string and character helpers used throughout.
- `app/` — the operating-system side: reading the environment and files,
  spawning processes, signal handlers, scanning the vendor directory,
  sharing the event bus between threads, and running the fetch loops
  (awaiting requests, fetching batches on threads). It calls the library
  for every decision.
- `tests/` — tests of the library's public functions.

Calls into outside crates (`url`, `semver`, `nix`, `petgraph`, `rustls`,
`rustls-pemfile`, `webpki-roots`) go through small trusted wrappers whose
contracts state what the crates' documentation and source show.
