# deb_toolkit (verified core)

The logic of deb-toolkit's declarative session manifests and of its Debian
`control`/debsig policy file builders, written in Verus.

* `src/session/plan.rs` — the manifest document (`Plan`, `Step`) and each
  step's one-line summary.
* `src/session/apply.rs` — running a plan: path resolution, per-step
  decisions, dry-run checks, and the run itself as a state machine
  (`apply`) that asks its driver to perform session operations or probe
  local files.
* `src/session/laws.rs` — proved properties of whole runs: order, dry runs
  never touching the session, first failure ends the run, a concatenated
  plan runs as its parts, the description has no effect.
* `src/templates.rs` — the control stanza's property list and the minijinja
  rendering of both templates, with the laws of the list format.
* `src/text.rs` — trimming, joining, comma splitting and decimal rendering.
* `app/` — unverified glue: JSON manifest loading (serde), logging, and the
  driver that carries out a run's requests against a session.
