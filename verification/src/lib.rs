//! Verified core of a threshold-signing (MPC) chain: the on-chain modules
//! that record requests and answers, the gossip and key-generation state
//! machines of the signing nodes, and the peer tables of the consensus nodes.

pub mod bytes;
pub mod runtime;
pub mod scale;
pub mod mpc_primitives;
pub mod mpc_pallet;
pub mod mpc_laws;
pub mod mpc_peer;
pub mod mpc_message;
pub mod mpc_gossip;
pub mod ecdsa;
pub mod keygen;
pub mod mpc_work;
pub mod hbbft_peer;
pub mod hbbft_message;
pub mod hbbft_gossip;
pub mod htlc_pallet;
pub mod mpc_node_laws;
