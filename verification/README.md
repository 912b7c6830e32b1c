# test_better

Result-returning tests with `?`: composable matchers, structured failures that
keep their context, soft assertions, snapshot checks with redactions, a
property-search driver, and a runner that groups failures by what the test was
doing.

The library in `src/` is written in Verus: every function states what it
returns in its contract, and Verus proves it. The laws the library keeps are
public proof functions beside the code they are about, for example:

- `description`: double negation cancels; conjunction and disjunction flatten,
  so grouping does not matter.
- `combinators`: `not` inverts, `not(not(m))` is `m`, De Morgan for `all_of`
  and `any_of`.
- `accept`: the raw literal the accept step writes normalizes back to the
  recorded value (`lemma_literal_round_trip`); an accepted inline snapshot
  passes on the next run (`lemma_accepted_snapshot_passes`); grouping patches
  by file applies each exactly once, in order.
- `inline`: a pending patch parses back to its location and value.
- `runner`: a marker line a failing test writes reads back its payload;
  grouping failures by context keeps every failure exactly once, in scan
  order.
- `redact`, `color`, `collections`, `render`: see their `lemma_` functions.

Layout:

- `src/` — the verified library, one module per concern (matchers, errors and
  their rendering, snapshots and the accept step, the runner's output
  scanning, property search decisions, structural-matcher decisions).
- `tests/` — tests of the library on concrete values.
- `app/` — the parts that touch the process: caller locations, the color
  slot, the thread's trace, files, async timing, `proptest`/`quickcheck`
  drivers, float matchers, the wire (JSON) form of failures, macro
  expansions, and the `cargo test-better` runner.
