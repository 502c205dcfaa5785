//! What a node is told to do: which services run, which key signs, and
//! where syncing starts.

use crate::keys::SigningKey;
use vstd::prelude::*;

verus! {

/// Calls `keystore_rs::create_signing_key`, which draws a fresh Ed25519
/// key from the operating system's random source, and takes its seed.
/// Nothing is claimed of the seed: it differs from call to call.
#[verifier::external_body]
fn fresh_signing_seed() -> (seed: [u8; 32]) {
    keystore_rs::create_signing_key().to_bytes()
}

/// Settings of the HTTP surface. The bind address and the like are the
/// server's own business; the node only needs to know whether it runs.
#[derive(Clone, Copy, Debug, PartialEq, Eq, Structural)]
pub struct WebServerConfig {
    /// Whether the HTTP surface is started.
    pub enabled: bool,
}

impl Default for WebServerConfig {
    fn default() -> (cfg: WebServerConfig)
        ensures
            cfg.enabled,
    {
        WebServerConfig { enabled: true }
    }
}

/// Settings of a node.
#[derive(Clone, Copy)]
pub struct Config {
    /// Enables producing finalized epochs and posting them to the data
    /// availability layer. Without it the node only follows the epochs
    /// that others publish.
    pub prover: bool,
    /// Enables accepting operations and posting batches of them. Without
    /// it the node rejects incoming operations.
    pub batcher: bool,
    /// Settings of the HTTP surface.
    pub webserver: WebServerConfig,
    /// The key that signs new finalized epochs.
    pub key: SigningKey,
    /// The height from which the node syncs when it has no record of an
    /// earlier sync.
    pub start_height: u64,
}

/// The long-lived tasks of a node.
#[derive(Clone, Copy, Debug, PartialEq, Eq, Structural)]
pub struct Services {
    /// The sync engine; it always runs.
    pub sync: bool,
    /// The task that posts pending operations.
    pub batcher: bool,
    /// The HTTP surface.
    pub webserver: bool,
}

/// Why a node stopped. A node never stops of its own accord: any task that
/// ends takes the node down with it.
#[derive(Clone, Copy, Debug, PartialEq, Eq, Structural)]
pub enum Shutdown {
    /// A task ended, with or without an error.
    ServiceExited,
    /// No task was left to wait for.
    AllServicesEnded,
}

impl Config {
    /// The settings of a node that runs every service, signs with `key`
    /// and syncs from height 1.
    pub fn with_key(key: SigningKey) -> (cfg: Config)
        ensures
            cfg.prover,
            cfg.batcher,
            cfg.webserver.enabled,
            cfg.key == key,
            cfg.start_height == 1,
    {
        Config {
            prover: true,
            batcher: true,
            webserver: WebServerConfig::default(),
            key,
            start_height: 1,
        }
    }

    /// The tasks that the node starts: always the sync engine, the batcher
    /// and the HTTP surface as configured.
    pub fn services(&self) -> (out: Services)
        ensures
            out == (Services {
                sync: true,
                batcher: self.batcher,
                webserver: self.webserver.enabled,
            }),
    {
        Services { sync: true, batcher: self.batcher, webserver: self.webserver.enabled }
    }
}

impl Default for Config {
    /// Every service enabled, a freshly drawn Ed25519 signing key, and
    /// syncing from height 1.
    fn default() -> (cfg: Config)
        ensures
            cfg.prover,
            cfg.batcher,
            cfg.webserver.enabled,
            cfg.key is Ed25519,
            cfg.start_height == 1,
    {
        Config::with_key(SigningKey::Ed25519(fresh_signing_seed()))
    }
}

/// What the node reports once the wait for its tasks is over: the first
/// task that ends, however it ends, stops the node; if there was none to
/// wait for, that is reported instead.
pub fn shutdown_reason(a_task_ended: bool) -> (out: Shutdown)
    ensures
        out == if a_task_ended {
            Shutdown::ServiceExited
        } else {
            Shutdown::AllServicesEnded
        },
{
    if a_task_ended {
        Shutdown::ServiceExited
    } else {
        Shutdown::AllServicesEnded
    }
}

} // verus!
