# aoxcore

Core primitives of the AOXC chain as a Verus-verified library: actor
identities, certificates and a certificate authority, handshakes,
revocation and registries, seeds, mnemonics and key derivation, quorum and
threshold-signature envelopes, protocol message envelopes, the mempool and
the transaction pool, receipts, accounts and world state, the native token
policy and the canonical core identity.

Layout:

- `src/` — the library. Contracts are stated over spec-level models
  (`Seq`, `Map`, `Set`, views); laws that relate several operations are
  public `proof fn`s named `law_*`. Keys are held as bytes in library types.
  `src/crypto.rs` and `src/platform.rs` hold the only calls into outside
  crates (hashes, signatures, BIP-39, randomness, clocks), each behind a
  small trusted wrapper. Where a call's result depends only on its inputs,
  the wrapper's contract names it; for key generation and randomized
  signing it states what holds of every outcome (lengths, that generated
  keys form a pair, that a signature verifies under the matching key); for
  randomness and clocks it claims nothing about the values.
- `tests/` — scenario tests, run against the compiled library with the real
  outside crates.
- `app/` — JSON persistence (serde copies of passports, proof envelopes and
  revocation lists) around the library.
