# echo_authority_core

A verified library for the Echo Authority Protocol: a human-rooted authorization layer in
which an agent may propose an action, but executing it requires a bounded grant signed by a
trusted human key.

The library is written in Verus. Every function in `src/` carries a contract that Verus
proves; the few calls into `sha2`, `ed25519-dalek` and std that Verus cannot see through are
wrapped in small trusted functions whose contracts are stated over named results.

Layout:

| Path | What it holds |
|---|---|
| `src/border.rs` | The border decision, its checks in protocol order, and the state transition that consumes an allowed invocation, with the laws that no invocation is allowed twice and that budgets hold |
| `src/attenuation.rs` | Delegation checks: a child grant may only narrow its parent; narrowing composes |
| `src/canonical.rs` | Length-prefixed signing encodings, content-derived ids, and the proof that the encoding is unambiguous |
| `src/receipt.rs` | Gateway-signed receipts and their verification against pinned gateway keys |
| `src/signing.rs` | Signing grants and invocations with a seed; reading seeds from hex |
| `src/resource.rs` | Resource containment and its transitivity |
| `src/crypto.rs` | SHA-256 and Ed25519 behind trusted wrappers; signature checks over base64 |
| `src/base64.rs`, `src/hex.rs` | Encoders and decoders with round-trip proofs |
| `src/collections.rs` | Sets and maps keyed by text, with no key stored twice |
| `src/model.rs`, `src/text.rs`, `src/verdict.rs` | Protocol types, text helpers, JSON verdicts and defaults |
| `app/` | The command-line tool: JSON reading and writing, key generation, fixtures, the WebAssembly ABI |

`authorize_and_record` must run inside one database transaction or lock in a shared
deployment, so that two callers cannot observe the same state before consumption.
