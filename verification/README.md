# OmniMesh

A peer-to-peer mesh networking node: Ed25519 identities, Noise_XX
handshakes, a ratcheting ChaCha20-Poly1305 channel, peer discovery over
libp2p, link-state routing and chat / RPC / publish-subscribe services.

## Layout

- `src/` — the library, written in Verus. Every function carries a
  `requires` / `ensures` contract that Verus proves; the calls into outside
  crates (`ed25519-dalek`, `chacha20poly1305`, `hkdf`, `snow`, `libp2p`,
  `dashmap`, ...) go through small trusted wrappers whose contracts say what
  those crates document.
  - identity: `types`, `keypair`, `peer_id`, `virtual_ip`, `keystore`,
    `key_conv`
  - cryptography: `kdf`, `aead`, `channel`, `noise`, `handshake`, `random`
  - networking: `net`, `wire`, `connection`, `cache`, `gossip`, `graph`
  - services and support: `service`, `session`, `retry`, `config`, `error`, `text`,
    `assoc`
- `tests/` — ordinary Rust tests of the library.
- `app/` — the node program around the library: the command line, files
  and environment, the QUIC transport, the libp2p swarm, the async session
  loops, logging, and the floating-point link metrics and route search.
