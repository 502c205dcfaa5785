//! The verified core of the prover node of a key-transparency service.
//!
//! The node keeps an authenticated directory that maps account identifiers
//! to append-only histories of key operations, follows a data availability
//! layer height by height, checks every published epoch against its own
//! replay, and finalizes epochs of its own.
//!
//! * [`digest`], [`encoding`]: 32-byte digests and canonical byte strings.
//! * [`keys`]: verifying keys, signing keys and signatures of two schemes.
//! * [`operation`], [`hashchain`]: operations and the histories they form.
//! * [`tree`], [`merkle`], [`memory_tree`]: the authenticated directory.
//! * [`storage`]: the store of epochs, commitments and the sync height.
//! * [`epoch`]: finalized epochs and their signatures.
//! * [`config`], [`sync`], [`queue`], [`prover`], [`resume`]: the node, the
//!   order of its heights, its queue, and what a restart does to a sync.
//!
//! Whatever waits on the network, on a lock or on the proof system is left
//! to the program around this library.

pub mod config;
pub mod digest;
pub mod encoding;
pub mod epoch;
pub mod hashchain;
pub mod keys;
pub mod memory_tree;
pub mod merkle;
pub mod operation;
pub mod prover;
pub mod queue;
pub mod resume;
pub mod storage;
pub mod sync;
pub mod tree;
