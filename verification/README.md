# whipplescript

Decision logic of the WhippleScript workflow runtime and its owned agent
harness, written in Verus with its behaviour stated in `requires` / `ensures`
contracts and proved: expression evaluation, statechart navigation, the
interpreter's processing of one event (handler, steps, transitions with
entry and `always` steps, invariants, rollback on failure), what one event
commits to the store, durable coerce replay, coerce backend selection, turn
access and tool policy, governance envelopes and the exec protocol. The
model loop of an owned agent turn is not part of it.

- `src/` is the verified library. Each module opens with a short note on what
  it decides; `src/laws.rs` holds the properties that span several
  operations.
- `tests/` runs the library on concrete values.
- `app/` is the command-line host: files, processes, the network, the
  environment and the parsing of JSON text. It hands the library plain values
  and prints what comes back.

Outside code that the library calls is reached through a few small trusted
wrappers (`external_body`), each with a doc comment that says what its
contract claims of the crate it calls.
