# transaction_status

A verified parser of vote-program instructions, and the decision logic of a
shred-sample request listener.

- `src/wire.rs` — the fixed-width little-endian encoding of instruction data
  (integers, options, length-prefixed lists and strings) and the compact
  encodings (short vector lengths, variable-length integers), each a spec
  decoder on bytes and an executable reader proved to agree with it.
- `src/vote_state.rs`, `src/vote_instruction.rs` — the vote instructions, their
  models, and their decoding; bytes after an instruction are ignored.
- `src/keys.rs` — account keys, compiled instructions, and the Base58 text of
  keys and hashes.
- `src/json.rs` — the JSON documents that parsed instructions are given as.
- `src/parse_instruction.rs`, `src/parse_vote.rs` — `parse_vote`, whose
  contract gives its result, or its error, for every input.
- `src/shred_sample.rs` — how many request packets the listener buffers, which
  packets it takes on (looking up the sender and checking signatures) and how
  it counts them, and which requests it keeps when
  there are more than one round serves.
- `app/` — conversions to and from `serde_json` and `solana_sdk` types, and the
  listener's threads.
