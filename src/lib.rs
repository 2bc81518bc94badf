//! Searches for Ed25519 key pairs whose base58 public key begins and/or ends
//! with chosen text. The library holds the verified logic of the search: the
//! matching policy, candidate derivation, the workers' bookkeeping, the
//! orchestrator's state, attempt and rate accounting, and the accelerator's
//! argument and result layout. Threads, devices and files are left to callers.

pub mod accelerator;
pub mod binary64;
pub mod encoding;
pub mod generator;
pub mod keys;
pub mod matcher;
pub mod orchestrator;
pub mod progress;
pub mod search;
pub mod stats;
pub mod text;
