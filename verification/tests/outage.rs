use prism_prover::config::Config;
use prism_prover::digest::{Digest, DigestView};
use prism_prover::epoch::FinalizedEpoch;
use prism_prover::hashchain::message_to_sign;
use prism_prover::keys::{Signature, SigningKey};
use prism_prover::memory_tree::MemoryTree;
use prism_prover::operation::Operation;
use prism_prover::prover::{HeightStep, Prover, ProverError};
use prism_prover::storage::{Database, InMemoryDatabase, StorageError, StoreState};
use prism_prover::tree::{
    Directory, HashchainResponse, KeyHash, Proof, StateTree, TreeError,
};

/// A store that refuses every write after the first `writes_left`, and
/// every read while `reads_fail` is set.
struct Flaky {
    inner: InMemoryDatabase,
    writes_left: usize,
    reads_fail: bool,
}

impl Flaky {
    fn new(writes_left: usize) -> Self {
        Flaky { inner: InMemoryDatabase::new(), writes_left, reads_fail: false }
    }

    fn look(&self) -> Result<(), StorageError> {
        if self.reads_fail {
            return Err(StorageError::Unavailable);
        }
        Ok(())
    }

    fn spend(&mut self) -> Result<(), StorageError> {
        if self.writes_left == 0 {
            return Err(StorageError::Unavailable);
        }
        self.writes_left -= 1;
        Ok(())
    }
}

impl Database for Flaky {
    fn state(&self) -> StoreState {
        unreachable!("the state of a store is used in proofs only")
    }

    fn get_epoch(&self) -> Result<u64, StorageError> {
        self.look()?;
        self.inner.get_epoch()
    }

    fn set_epoch(&mut self, epoch: u64) -> Result<(), StorageError> {
        self.spend()?;
        self.inner.set_epoch(epoch)
    }

    fn get_commitment(&self, epoch: u64) -> Result<Digest, StorageError> {
        self.look()?;
        self.inner.get_commitment(epoch)
    }

    fn set_commitment(&mut self, epoch: u64, commitment: &Digest) -> Result<(), StorageError> {
        self.spend()?;
        self.inner.set_commitment(epoch, commitment)
    }

    fn get_last_synced_height(&self) -> Result<u64, StorageError> {
        self.look()?;
        self.inner.get_last_synced_height()
    }

    fn set_last_synced_height(&mut self, height: u64) -> Result<(), StorageError> {
        self.spend()?;
        self.inner.set_last_synced_height(height)
    }
}

/// A tree whose backing store fails for one account.
struct Patchy {
    inner: MemoryTree,
    broken: [u8; 32],
}

impl StateTree for Patchy {
    fn slots(&self) -> Directory {
        unreachable!("the directory of a tree is used in proofs only")
    }

    fn inv(&self) -> bool {
        unreachable!("the invariant of a tree is used in proofs only")
    }

    fn root_of(_slots: Directory) -> DigestView {
        unreachable!("the root of a directory is used in proofs only")
    }

    fn get_commitment(&self) -> Result<Digest, TreeError> {
        self.inner.get_commitment()
    }

    fn get(&self, key: KeyHash) -> Result<HashchainResponse, TreeError> {
        if key.0 == self.broken {
            return Err(TreeError::Storage);
        }
        self.inner.get(key)
    }

    fn process_operation(&mut self, operation: &Operation) -> Result<Proof, TreeError> {
        if KeyHash::of(&operation.id()).0 == self.broken {
            return Err(TreeError::Storage);
        }
        self.inner.process_operation(operation)
    }
}

fn key(seed: u8) -> SigningKey {
    SigningKey::Ed25519([seed; 32])
}

fn create_account(id: &str, key: &SigningKey) -> Operation {
    let unsigned = Operation::CreateAccount {
        id: id.to_string(),
        initial_key: key.verifying_key(),
        signature: Signature::Placeholder,
    };
    let signature = key.sign(&message_to_sign(&Digest::zero(), &unsigned));
    Operation::CreateAccount { id: id.to_string(), initial_key: key.verifying_key(), signature }
}

fn root_after(operations: &[Operation]) -> Digest {
    let mut tree = MemoryTree::new();
    for operation in operations {
        tree.process_operation(operation).unwrap();
    }
    tree.get_commitment().unwrap()
}

fn published(height: u64, prev: Digest, current: Digest) -> FinalizedEpoch {
    let mut epoch = FinalizedEpoch {
        height,
        prev_commitment: prev,
        current_commitment: current,
        proof: vec![],
        signature: None,
    };
    epoch.insert_signature(&key(100));
    epoch
}

#[test]
fn a_store_that_cannot_be_written_stops_the_setup() {
    let cfg = Config::with_key(key(100));
    let result = Prover::new(Flaky::new(0), MemoryTree::new(), &cfg);
    assert_eq!(result.err(), Some(ProverError::Storage(StorageError::Unavailable)));
}

#[test]
fn the_commitment_is_recorded_before_the_counter_advances() {
    let cfg = Config::with_key(key(100));
    // Three writes pass: the counter at setup, the commitment of epoch 0,
    // and the commitment of epoch 1. Advancing the counter fails.
    let mut node = Prover::new(Flaky::new(3), MemoryTree::new(), &cfg).unwrap();
    node.begin_sync().unwrap();
    let alice = create_account("alice", &key(1));
    let with_alice = root_after(&[alice.clone()]);
    let epoch = published(0, root_after(&[]), with_alice);
    let mut buffer = vec![alice];
    assert_eq!(
        node.process_epoch(&epoch, &mut buffer),
        Err(ProverError::Storage(StorageError::Unavailable))
    );
    assert_eq!(node.db.get_epoch(), Ok(0));
    assert_eq!(node.db.get_commitment(1), Ok(with_alice));
}

#[test]
fn a_missing_commitment_is_a_storage_error() {
    let cfg = Config::with_key(key(100));
    let mut node = Prover::new(InMemoryDatabase::new(), MemoryTree::new(), &cfg).unwrap();
    let empty = root_after(&[]);
    let epoch = published(0, empty, empty);
    let mut buffer = Vec::new();
    assert_eq!(
        node.process_epoch(&epoch, &mut buffer),
        Err(ProverError::Storage(StorageError::NotFound))
    );
}

#[test]
fn an_operation_that_the_tree_cannot_store_is_skipped_and_counted() {
    let cfg = Config::with_key(key(100));
    let tree = Patchy { inner: MemoryTree::new(), broken: KeyHash::of(&"bob".to_string()).0 };
    let mut node = Prover::new(InMemoryDatabase::new(), tree, &cfg).unwrap();
    let proofs = node.execute_block(vec![
        create_account("alice", &key(1)),
        create_account("bob", &key(2)),
        create_account("carol", &key(3)),
    ]);
    assert_eq!(proofs.len(), 2);
    assert_eq!(node.last_block.applied, 2);
    assert_eq!(node.last_block.rejected, 0);
    assert_eq!(node.last_block.unavailable, 1);
    assert_eq!(
        node.get_commitment(),
        Ok(root_after(&[create_account("alice", &key(1)), create_account("carol", &key(3))]))
    );
    assert_eq!(
        node.get_hashchain(&"bob".to_string()).err(),
        Some(ProverError::TreeUnavailable)
    );
    let unsigned = Operation::AddData {
        id: "bob".to_string(),
        payload: vec![1],
        signed_by: prism_prover::operation::SignedBy {
            key: key(2).verifying_key(),
            signature: Signature::Ed25519([1; 64]),
        },
    };
    assert_eq!(
        node.validate_and_queue_update(&unsigned),
        Err(ProverError::TreeUnavailable)
    );
    assert!(node.pending_operations.is_empty());
}

#[test]
fn a_height_whose_record_cannot_be_written_fails() {
    let cfg = Config::with_key(key(100));
    let mut node = Prover::new(Flaky::new(2), MemoryTree::new(), &cfg).unwrap();
    node.begin_sync().unwrap();
    let mut buffer = Vec::new();
    let outcome = node.process_da_height(1, vec![], None, &mut buffer, false);
    assert!(matches!(outcome, Err(ProverError::Storage(StorageError::Unavailable))));
    let mut fine = Prover::new(Flaky::new(3), MemoryTree::new(), &cfg).unwrap();
    fine.begin_sync().unwrap();
    assert!(matches!(
        fine.process_da_height(1, vec![], None, &mut buffer, false),
        Ok(HeightStep::Done)
    ));
}

#[test]
fn a_store_that_cannot_be_read_is_not_given_defaults() {
    let cfg = Config::with_key(key(100));
    let mut store = Flaky::new(10);
    store.inner.set_epoch(4).unwrap();
    store.reads_fail = true;
    let result = Prover::new(store, MemoryTree::new(), &cfg);
    assert_eq!(result.err(), Some(ProverError::Storage(StorageError::Unavailable)));

    let mut store = Flaky::new(10);
    store.inner.set_epoch(4).unwrap();
    store.inner.set_last_synced_height(9).unwrap();
    let mut node = Prover::new(store, MemoryTree::new(), &cfg).unwrap();
    assert_eq!(node.db.writes_left, 10);
    assert_eq!(node.db.get_epoch(), Ok(4));
    node.db.reads_fail = true;
    assert_eq!(
        node.initial_sync_height(),
        Err(ProverError::Storage(StorageError::Unavailable))
    );
    assert_eq!(node.db.writes_left, 10);
    node.db.reads_fail = false;
    assert_eq!(node.initial_sync_height(), Ok(9));
    assert_eq!(node.db.writes_left, 10);
    assert_eq!(node.db.get_last_synced_height(), Ok(9));
}

#[test]
fn a_failed_read_before_the_replay_changes_nothing() {
    let cfg = Config::with_key(key(100));
    let mut node = Prover::new(Flaky::new(10), MemoryTree::new(), &cfg).unwrap();
    node.begin_sync().unwrap();
    let alice = create_account("alice", &key(1));
    let epoch = published(0, root_after(&[]), root_after(&[alice.clone()]));
    let mut buffer = vec![alice];
    node.db.reads_fail = true;
    assert_eq!(
        node.process_epoch(&epoch, &mut buffer),
        Err(ProverError::Storage(StorageError::Unavailable))
    );
    assert_eq!(buffer.len(), 1);
    assert_eq!(node.get_commitment(), Ok(root_after(&[])));
    node.db.reads_fail = false;
    assert_eq!(node.db.get_epoch(), Ok(0));
    assert_eq!(node.process_epoch(&epoch, &mut buffer).map(|_| ()), Ok(()));
    assert_eq!(node.db.get_epoch(), Ok(1));
}
