//! Construction and signing of Bitcoin spending transactions for outputs
//! locked by keys, multi-signature thresholds, time locks and Taproot trees.
//!
//! Leaves first: `script` builds and parses scripts, `tx` and `decode`
//! serialize and parse transactions, `hashes` and `keys` hold the hash and
//! curve operations, `sighash` computes signature digests, `taproot` and
//! `tapscript` build Taproot trees and leaves, `policy` compiles spending
//! policies into output scripts and addresses, and `planner` signs spends.
//! `rpc` holds what the library decides about the node.
pub mod error;
pub mod script;
pub mod hashes;
pub mod keys;
pub mod tx;
pub mod decode;
pub mod sighash;
pub mod taproot;
pub mod tapscript;
pub mod text;
pub mod policy;
pub mod planner;
pub mod rpc;
pub mod classic_multisig;
pub mod timelock_cltv;
pub mod simple_taproot;
pub mod taproot_tree;
