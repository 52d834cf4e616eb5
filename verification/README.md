# rl-core

The core of a Kubernetes cluster browser, written in Verus, with a thin
terminal front end around it: the program reads commands on standard input
and prints what the window model shows.

- `src/` is the library `rl_core`, written in Verus. Every function states
  what it returns or changes in `requires`/`ensures`, and Verus proves it.
  It holds the rules of the client: resource kinds and table rows, the watch
  store and per-scope caches, log tabs with their size limits, kubectl command
  lines and terminal launch plans, namespace memory per context, the window's
  answers to worker events and user actions (`window`, `actions`), and the
  background worker's decisions (`worker`). Laws that relate several
  operations are public proof functions named `law_*`.
- `app/` is ordinary Rust: the Kubernetes client (kube, k8s-openapi), the
  Tokio worker loop that performs the steps `rl_core::worker` plans, settings
  and caches on disk, external terminals and kubectl processes, and `main`.
- `tests/` runs the library on concrete values.

Calls into outside crates made by the library go through a few trusted
wrappers (`#[verifier::external_body]`), each documented at its definition.
