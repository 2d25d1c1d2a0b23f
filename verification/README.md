# Blake2s round component witness

Verified witness generation for the Blake2s round component of a Cairo STARK
prover. Each trace row holds one Blake2s round: the input state, the round's
message schedule, the 16 message words read from memory (each split into the
pieces a range check and a memory lookup consume), the outputs of the eight G
steps, and an enabler column that marks padding rows.

Layout of `src/`:

- `m31.rs`: the Mersenne-31 base field.
- `qm31.rs`: the degree-4 secure field used by the interaction phase.
- `blake.rs`: the Blake2s schedule, the G function and the reference round.
- `memory.rs`: memory as address-to-id and id-to-limbs tables.
- `message.rs`: reading and re-splitting one message word.
- `round.rs`: one trace row, its lookups and sub-component inputs, and the
  round output.
- `component.rs`: the claim generator (collecting inputs, padding, writing
  the trace).
- `interaction.rs`: relation denominators, the interaction fractions of each
  row and the claimed sum.
