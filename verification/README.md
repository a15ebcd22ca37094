# de_ai_hilfer

The logic of a German-learning lookup service, verified with Verus: how a
query is resolved to a dictionary headword, in what order an analysis
request (plain or streamed) and an intelligent search take their steps, how
suggestions are ranked, how
dictionary entries become facts and excerpts for the models, how model
replies are repaired, checked and turned into a structured analysis, which
model is asked next when one fails, how phrase modules are attached to host
words, how a learning session schedules its cards, and how knowledge
snapshots are checked and restored.

- `src/` is the library. Every function carries a contract that Verus
  proves. Calls into `std` and `serde_json` whose results the library cannot
  compute itself go through a few small trusted wrappers (character classes,
  lower-casing, JSON parsing and string quoting), whose contracts state or
  name what they return.
- The request flows are state machines (`analyze_steps`, `search_steps`,
  `follow_up_flow`, `grounded_flow`): a step function takes what came of
  the last action and gives the next action, and its contract is the exact
  step.
- `tests/` runs the library on concrete inputs.
- `app/` is ordinary Rust around the library: JSON and wire formats with
  serde, the clock and the environment, and the loops that call models and
  stores, each step decided by the library.
