# mpc_consensus

A threshold-signing chain, with its logic verified by Verus.

- `src/` is the verified library:
  - `mpc_pallet`, `htlc_pallet`: the on-chain modules that record requests
    for keys and signatures with their answers, and hash-time-locked token
    contracts; `mpc_laws` states what holds across their calls.
  - `mpc_peer`, `mpc_message`, `mpc_gossip`: the peer table, messages and
    gossip validator of the signing nodes.
  - `keygen`, `ecdsa`, `mpc_work`: the key generation state machine of a
    signing node over `multi-party-ecdsa`, and the decisions of its worker;
    `mpc_node_laws` states what holds across them.
  - `hbbft_peer`, `hbbft_message`, `hbbft_gossip`: the peer table, key
    generation messages and gossip validator of the consensus nodes.
  - `scale`, `bytes`, `runtime`: byte framing, byte order and dispatch
    origins shared by the above.
- `tests/` runs the library, with the outside crates linked; one test drives
  a full key generation among three nodes.
- `app/` holds the wire and storage forms of the types and the asynchronous
  drivers that run around the library.
