//! OmniMesh: identity, cryptographic channel, configuration and routing
//! primitives of a peer-to-peer mesh network, with their contracts.

pub mod text;
pub mod assoc;
pub mod error;
pub mod types;
pub mod net;
pub mod config;
pub mod kdf;
pub mod random;
pub mod aead;
pub mod channel;
pub mod noise;
pub mod handshake;
pub mod wire;
pub mod service;
pub mod keypair;
pub mod peer_id;
pub mod key_conv;
pub mod virtual_ip;
pub mod keystore;
pub mod connection;
pub mod cache;
pub mod gossip;
pub mod graph;
pub mod retry;
pub mod session;
