# crablet

Cognitive routing, reasoning and memory logic for the crablet agent, written
in Verus.

- `src/` is the verified library. Each module states its behaviour in
  `requires` / `ensures` over spec functions and views, and the laws that
  relate several operations are public proof functions. Calls into outside
  crates (regex, lru, sha2, data-encoding, base64, uuid, serde_json, anyhow,
  tiktoken-rs)
  go through small trusted wrappers whose contracts name what they return.
- `tests/` runs the library on concrete values.
- `app/` is the unverified shell: language-model HTTP clients, asynchronous
  state behind locks, the clock, and every component that scores in floating
  point. Loops that await a model, a tool or a message bus between decisions
  (the reasoning loops, the agent team, the optimizer round, the model
  fallback, the middleware pipeline) ask the library for each next step and
  carry it out; the scoring in floating point stays here.
