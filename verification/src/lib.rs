//! Verified core of a lightweight Ethereum reconnaissance node: provider
//! rotation, block and header assembly from RPC replies, enode parsing, the
//! decisions of the node's poll loop, and transaction pricing and validation.

pub mod block_client;
pub mod tx;
pub mod reconnaissance;
