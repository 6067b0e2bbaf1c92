# fused_runtime

A runtime that carries a chat turn from a capability token to a signed receipt:
verify, authorize, admit against a budget, call the provider, run tools, commit
the round, settle the cost.

- `src/` is the verified library. Its state machines decide what a turn, a
  settlement, a receipt commit, a control operation and the evidence mirror do
  next; each says in its contract what follows from which event. The `*_laws`
  modules prove what holds of whole runs.
- `tests/` runs the library from outside, against ledgers, stores and logs in
  memory.
- `app/` performs what the library asks for: services, files, locks and the
  loops between them.

What the library trusts of other crates stands in `digest`, `encoding`, `text`,
`recall` and `control`, each with the outside function it speaks of.
