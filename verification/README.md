# pattern_guard

A behaviour anomaly guard: events go in, a recommended decision
(allow / warn / delay / block) comes out; callers enforce it.

## Layout

- `src/` — the library, verified with Verus.
  - `tracker` — per-actor memory of recent events, stamped with a monotonic
    clock, pruned on every record, optionally capped in the number of actors
    with an `lru::LruCache` (least recently recorded actor dropped first).
  - `config` — `[guard]` settings merged with per-actor overrides.
  - `guard` — a tracker sized for the configuration; records an event and
    hands back the actor's settings and window.
  - `analyzer` — exact overuse risks (burst, repetition, target hopping) as
    fractions in [0, 1], and the ordered timestamps of a window.
  - `decision` — risk bands to decisions.
  - `cli` — the runner's command-line grammar.
  - `numeric::Real` — thresholds and weights given as real numbers travel
    through the library as IEEE-754 bit patterns; the library never does
    arithmetic on them.
- `app/` — the runner: reads the TOML configuration, computes the
  floating-point risks (weighted overuse, interval regularity, combination,
  band comparisons) and runs the guarded command.
- `tests/` — tests of the library.
