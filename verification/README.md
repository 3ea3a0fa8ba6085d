# dotlottie

The logic of a dotLottie runtime, written in Verus with its behaviour stated
in contracts and proved.

## Layout

- `src/` — the verified library.
  - `state_machine/`: inputs (declared and current values), guards and their
    evaluation on IEEE-754 bit patterns, transitions, states, actions (what
    each asks of the engine, and the URL whitelist), interactions, load-time
    validation of a definition, and identifier interning.
  - `state_machine_engine/`: the running engine (`engine.rs`): its state
    between calls and its pipeline as a step function — which transition
    fires, the global state first, how the cycle limit stops a run, what a
    tween holds back — with the host performing the changes it asks for;
    the engine's inputs, triggers, guards, which
    transition a state takes, how it changes state and what entering a state
    asks of the player, cycle detection, states, state slots,
    events, listeners and interactions (which events and layers the host must
    report), actions and the `open_url` policy and whitelist, its random
    number generator and its load-time checks.
  - `theming.rs`, `theme.rs`: theme rules turned into Lottie slot
    objects, over a JSON value model.
  - `string.rs`: `DotString` and its interner; `text.rs`, `url_pattern.rs`:
    text helpers with their specifications; `utils.rs`: base64;
    `stubs.rs`: `atoi`, for targets without a C library.
  - `time.rs`, `rng.rs`, `tween.rs`, `thorvg.rs`, `tools/`: clocks, a PCG
    generator, easing parameters, renderer result codes, memory statistics.
- `tests/` — tests run against the compiled library.
- `app/` — the unverified edge: JSON parsing and printing with serde, the
  loop that drives the engine's pipeline on a player, error types with
  `Display`, the global allocator, and floating-point helpers.

Numbers of type `f32` are held in the library as their bit patterns
(`u32`); arithmetic on them is done at the edge.
