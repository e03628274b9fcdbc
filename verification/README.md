# CipherMesh

The core of an end-to-end encrypted peer-to-peer messenger, written in Verus: every
function of the library states what it returns or changes, and is proved to do that. Only of
the two functions that read the clock nothing is stated.

## Layout

- `src/` is the library.
  - Cryptography: `primitives` (what is relied on of the cryptographic crates), `ratchet`,
    `session`, `identity`, `device`, `party`.
  - Binary forms: `codec`, `wire`, `frames`, `states`, `events`.
  - What a client keeps: `sorted`, `records`, `history`, `storage`, `profile`,
    `mailbox_storage`.
  - Replicated conversations: `crdt`, `sync`.
  - Chats and deliveries: `chat`, `handshake`, `conversation`, `delivery`, `fanout`,
    `mailbox_node`.
  - Network decisions: `address`, `invite`, `rendezvous`, `service`, `pairing`, `relay`.
  - Interface: `args`, `menu`, and the scenes of the demonstrations in `demo`, `scenes` and
    `device_scenes`.
  - Laws over several operations stand beside the functions they are about, as public
    proof functions named `law_...`, or in a file of their own (`session_laws`,
    `party_laws`, `storage_laws`, `crdt_laws`).
- `tests/` runs the library on concrete values.
- `app/` is the program around it: terminal, SQLite files, QUIC and libp2p.

## What is relied on

Proofs rest on the contracts of the functions that call outside crates. They stand in
`primitives` (X25519, Ed25519, HKDF, ChaCha20-Poly1305, SHA-256, the random source and the
clock), `codec` (bincode of plain values), `address` (libp2p addresses and peer ids) and
`bytes` (two methods of `String`). Each says in its comment which outside function it
calls and what is claimed of it.
