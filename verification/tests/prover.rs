use prism_prover::config::Config;
use prism_prover::digest::Digest;
use prism_prover::epoch::{Batch, BatchError, FinalizedEpoch};
use prism_prover::hashchain::{message_to_sign, HashchainError};
use prism_prover::keys::{Signature, SigningKey, VerifyingKey};
use prism_prover::memory_tree::MemoryTree;
use prism_prover::operation::{Operation, OperationError, SignedBy};
use prism_prover::prover::{
    already_processed, check_against_lookup, check_epoch_end, check_epoch_start, resume_from,
    should_finalize, BlockStats, EpochOutcome, HeightStep, Prover, ProverError, Resumed,
};
use prism_prover::storage::{Database, InMemoryDatabase, StorageError};
use prism_prover::sync::{SyncAction, SyncEvent, SyncState};
use prism_prover::tree::{HashchainResponse, Proof, ProofError, StateTree};

type Node = Prover<InMemoryDatabase, MemoryTree>;

fn key(seed: u8) -> SigningKey {
    SigningKey::Ed25519([seed; 32])
}

fn config(prover: bool, batcher: bool) -> Config {
    let mut cfg = Config::with_key(key(100));
    cfg.prover = prover;
    cfg.batcher = batcher;
    cfg
}

fn node(prover: bool, batcher: bool) -> Node {
    Prover::new(InMemoryDatabase::new(), MemoryTree::new(), &config(prover, batcher)).unwrap()
}

fn register_service(id: &str, key: &SigningKey) -> Operation {
    let unsigned = Operation::RegisterService {
        id: id.to_string(),
        key: key.verifying_key(),
        signature: Signature::Placeholder,
    };
    let signature = key.sign(&message_to_sign(&Digest::zero(), &unsigned));
    Operation::RegisterService { id: id.to_string(), key: key.verifying_key(), signature }
}

fn create_account(id: &str, key: &SigningKey) -> Operation {
    let unsigned = Operation::CreateAccount {
        id: id.to_string(),
        initial_key: key.verifying_key(),
        signature: Signature::Placeholder,
    };
    let signature = key.sign(&message_to_sign(&Digest::zero(), &unsigned));
    Operation::CreateAccount { id: id.to_string(), initial_key: key.verifying_key(), signature }
}

fn add_key(previous: &Digest, id: &str, new_key: VerifyingKey, signer: &SigningKey) -> Operation {
    let unsigned = Operation::AddKey {
        id: id.to_string(),
        new_key,
        signed_by: SignedBy { key: signer.verifying_key(), signature: Signature::Placeholder },
    };
    let signature = signer.sign(&message_to_sign(previous, &unsigned));
    Operation::AddKey {
        id: id.to_string(),
        new_key,
        signed_by: SignedBy { key: signer.verifying_key(), signature },
    }
}

fn last_hash_of(node: &Node, id: &str) -> Digest {
    match node.get_hashchain(&id.to_string()).unwrap() {
        HashchainResponse::Found(chain, _) => chain.last_hash(),
        HashchainResponse::NotFound(_) => panic!("no such account"),
    }
}

fn root_after(operations: &[Operation]) -> Digest {
    let mut tree = MemoryTree::new();
    for operation in operations {
        tree.process_operation(operation).unwrap();
    }
    tree.get_commitment().unwrap()
}

fn published(height: u64, prev: Digest, current: Digest) -> FinalizedEpoch {
    let mut epoch = FinalizedEpoch {
        height,
        prev_commitment: prev,
        current_commitment: current,
        proof: vec![1, 2, 3],
        signature: None,
    };
    epoch.insert_signature(&key(100));
    epoch
}

/// What the layer holds at heights 1 to 5: a service at 2, an account at
/// 4, and at 5 the epoch that covers both.
fn fresh_layer(height: u64, flip_bit: bool) -> (Vec<Operation>, Option<FinalizedEpoch>) {
    let svc = register_service("svc", &key(9));
    let alice = create_account("alice", &key(1));
    match height {
        2 => (vec![svc], None),
        4 => (vec![alice], None),
        5 => {
            let mut current = root_after(&[svc, alice]);
            if flip_bit {
                current.0[7] ^= 0x10;
            }
            (vec![], Some(published(0, root_after(&[]), current)))
        }
        _ => (vec![], None),
    }
}

fn sync_historical(
    node: &mut Node,
    buffer: &mut Vec<Operation>,
    end_height: u64,
    flip_bit: bool,
) -> (SyncState, Result<(), ProverError>) {
    node.begin_sync().unwrap();
    let start_height = node.initial_sync_height().unwrap();
    let mut state = SyncState::new();
    let mut action = state.on_event(SyncEvent::Started { start_height, end_height });
    while let SyncAction::Process { height, is_real_time } = action {
        let (operations, epoch) = fresh_layer(height, flip_bit);
        match node.process_da_height(height, operations, epoch, buffer, is_real_time) {
            Ok(HeightStep::Done) => action = state.on_event(SyncEvent::HeightProcessed),
            Ok(HeightStep::Finalize { .. }) => panic!("no epoch is finalized while catching up"),
            Err(e) => {
                state.on_event(SyncEvent::Failed);
                return (state, Err(e));
            }
        }
    }
    (state, Ok(()))
}

#[test]
fn fresh_historical_sync_records_the_published_epoch() {
    let mut node = node(false, false);
    let mut buffer = Vec::new();
    let (state, result) = sync_historical(&mut node, &mut buffer, 5, false);
    assert_eq!(result, Ok(()));
    assert_eq!(state, SyncState::Live { expected_height: 6 });

    assert_eq!(node.db.get_epoch(), Ok(1));
    let expected = root_after(&[register_service("svc", &key(9)), create_account("alice", &key(1))]);
    assert_eq!(node.db.get_commitment(1), Ok(expected));
    assert_eq!(node.db.get_commitment(0), Ok(root_after(&[])));
    assert_eq!(node.get_commitment(), Ok(expected));
    assert_eq!(node.db.get_last_synced_height(), Ok(5));
    assert!(buffer.is_empty());
    assert_eq!(node.last_block, BlockStats { applied: 2, rejected: 0, unavailable: 0 });

    match node.get_hashchain(&"alice".to_string()).unwrap() {
        HashchainResponse::Found(chain, proof) => {
            assert_eq!(chain.len(), 1);
            assert!(matches!(chain.get(0).operation, Operation::CreateAccount { .. }));
            assert_eq!(proof.root, expected);
        }
        HashchainResponse::NotFound(_) => panic!("alice was created"),
    }
    assert!(matches!(
        node.get_hashchain(&"svc".to_string()).unwrap(),
        HashchainResponse::Found(..)
    ));
}

#[test]
fn a_commitment_that_differs_by_one_bit_aborts_the_sync() {
    let mut node = node(false, false);
    let mut buffer = Vec::new();
    let (state, result) = sync_historical(&mut node, &mut buffer, 5, true);
    assert_eq!(result, Err(ProverError::NewCommitmentMismatch { epoch: 0 }));
    assert!(state.is_fatal());
    assert_eq!(node.db.get_epoch(), Ok(0));
    assert_eq!(node.db.get_commitment(1), Err(StorageError::NotFound));
    assert_eq!(node.db.get_last_synced_height(), Ok(4));
}

#[test]
fn live_batcher_round_trip() {
    let mut node = node(true, true);
    let mut buffer = Vec::new();
    let (mut state, result) = sync_historical(&mut node, &mut buffer, 5, false);
    assert_eq!(result, Ok(()));
    let before = node.get_commitment().unwrap();

    let operation = add_key(&last_hash_of(&node, "alice"), "alice", key(2).verifying_key(), &key(1));
    assert_eq!(node.validate_and_queue_update(&operation), Ok(()));
    assert_eq!(node.pending_operations.len(), 1);
    assert_eq!(node.get_commitment(), Ok(before));

    let posted = node.next_batch().expect("one operation is pending");
    assert_eq!(posted.len(), 1);
    assert_eq!(posted[0].id(), "alice");
    assert!(node.pending_operations.is_empty());
    assert!(node.next_batch().is_none());

    assert_eq!(
        state.on_event(SyncEvent::HeightReceived { height: 6 }),
        SyncAction::Process { height: 6, is_real_time: true }
    );
    let step = node.process_da_height(6, posted, None, &mut buffer, true).unwrap();
    assert!(matches!(step, HeightStep::Done));
    assert_eq!(buffer.len(), 1);
    assert_eq!(node.db.get_last_synced_height(), Ok(6));
    assert_eq!(node.get_commitment(), Ok(before));
    assert_eq!(state.on_event(SyncEvent::HeightProcessed), SyncAction::AwaitHeight);

    assert_eq!(
        state.on_event(SyncEvent::HeightReceived { height: 7 }),
        SyncAction::Process { height: 7, is_real_time: true }
    );
    let step = node.process_da_height(7, vec![], None, &mut buffer, true).unwrap();
    let (epoch_height, batch) = match step {
        HeightStep::Finalize { epoch_height, batch } => (epoch_height, batch),
        HeightStep::Done => panic!("an operation was waiting"),
    };
    assert!(buffer.is_empty());
    assert_eq!(epoch_height, 1);
    assert_eq!(batch.prev_root, before);
    let after = node.get_commitment().unwrap();
    assert_eq!(batch.new_root, after);
    assert_ne!(before, after);
    assert_eq!(batch.proofs.len(), 1);
    assert!(matches!(batch.proofs[0], Proof::Update(_)));
    assert_eq!(batch.proofs[0].prior_commitment(), before);
    assert_eq!(batch.proofs[0].resulting_commitment(), after);
    assert_eq!(node.db.get_epoch(), Ok(1));
    assert_eq!(node.db.get_last_synced_height(), Ok(6));

    let epoch = node.prove_epoch(epoch_height, batch.prev_root, batch.new_root, vec![42]);
    assert_eq!(epoch.height, 1);
    assert_eq!(epoch.prev_commitment, before);
    assert_eq!(epoch.current_commitment, after);
    assert_eq!(epoch.proof, vec![42]);
    assert_eq!(epoch.verify(&key(100).verifying_key(), &before, &after), Ok(()));
    assert!(epoch.verify_signature(&key(1).verifying_key()).is_err());

    assert_eq!(node.record_finalized_epoch(epoch_height, &after, 7), Ok(()));
    assert_eq!(node.db.get_epoch(), Ok(2));
    assert_eq!(node.db.get_commitment(2), Ok(after));
    assert_eq!(node.db.get_last_synced_height(), Ok(7));
    assert_eq!(state.on_event(SyncEvent::HeightProcessed), SyncAction::AwaitHeight);

    let mut follower = self::node(false, false);
    let mut follower_buffer = Vec::new();
    sync_historical(&mut follower, &mut follower_buffer, 5, false).1.unwrap();
    let again = add_key(&last_hash_of(&follower, "alice"), "alice", key(2).verifying_key(), &key(1));
    follower.process_da_height(6, vec![again], None, &mut follower_buffer, true).unwrap();
    follower.process_da_height(7, vec![], None, &mut follower_buffer, true).unwrap();
    assert_eq!(follower.db.get_epoch(), Ok(1));
    let outcome = follower.process_da_height(8, vec![], Some(epoch), &mut follower_buffer, true);
    assert!(matches!(outcome, Ok(HeightStep::Done)));
    assert_eq!(follower.db.get_epoch(), Ok(2));
    assert_eq!(follower.db.get_commitment(2), Ok(after));
}

#[test]
fn an_operation_on_an_unknown_account_is_not_queued() {
    let mut node = node(true, true);
    let operation = add_key(&Digest::zero(), "bob", key(2).verifying_key(), &key(1));
    assert_eq!(node.validate_and_queue_update(&operation), Err(ProverError::NotFound));
    assert!(node.pending_operations.is_empty());
}

#[test]
fn a_disabled_batcher_takes_nothing() {
    let mut node = node(true, false);
    let operation = create_account("alice", &key(1));
    assert_eq!(node.validate_and_queue_update(&operation), Err(ProverError::Disabled));
    assert!(node.pending_operations.is_empty());
    assert!(node.next_batch().is_none());
}

#[test]
fn the_queue_checks_form_and_history_but_commits_nothing() {
    let mut node = node(true, true);
    let empty_id = create_account("", &key(1));
    assert_eq!(
        node.validate_and_queue_update(&empty_id),
        Err(ProverError::Invalid(HashchainError::Malformed(OperationError::EmptyId)))
    );
    let unsigned = Operation::CreateAccount {
        id: "alice".to_string(),
        initial_key: key(1).verifying_key(),
        signature: Signature::Placeholder,
    };
    assert_eq!(
        node.validate_and_queue_update(&unsigned),
        Err(ProverError::Invalid(HashchainError::Malformed(OperationError::MissingSignature)))
    );
    assert!(node.pending_operations.is_empty());

    let alice = create_account("alice", &key(1));
    assert_eq!(node.validate_and_queue_update(&alice), Ok(()));
    assert_eq!(node.validate_and_queue_update(&alice), Ok(()));
    assert_eq!(node.pending_operations.len(), 2);
    assert!(matches!(
        node.get_hashchain(&"alice".to_string()).unwrap(),
        HashchainResponse::NotFound(_)
    ));

    assert!(node.process_operation(&alice).is_ok());
    let by_stranger = add_key(&last_hash_of(&node, "alice"), "alice", key(3).verifying_key(), &key(2));
    assert_eq!(
        node.validate_and_queue_update(&by_stranger),
        Err(ProverError::Invalid(HashchainError::SignerNotValid))
    );
    let stale = add_key(&Digest::zero(), "alice", key(3).verifying_key(), &key(1));
    assert_eq!(
        node.validate_and_queue_update(&stale),
        Err(ProverError::Invalid(HashchainError::BadSignature))
    );
    let good = add_key(&last_hash_of(&node, "alice"), "alice", key(3).verifying_key(), &key(1));
    let before = node.get_commitment().unwrap();
    assert_eq!(node.validate_and_queue_update(&good), Ok(()));
    assert_eq!(node.pending_operations.len(), 3);
    assert_eq!(node.get_commitment(), Ok(before));
    assert_eq!(last_hash_of(&node, "alice"), last_hash_of(&node, "alice"));
}

#[test]
fn pushes_and_drains_lose_and_duplicate_nothing() {
    let mut node = node(true, true);
    let signature = Signature::Ed25519([1; 64]);
    let mut drained: Vec<Operation> = Vec::new();
    let mut batches = 0;
    for i in 0..1000 {
        let operation = Operation::CreateAccount {
            id: format!("account-{i}"),
            initial_key: key(1).verifying_key(),
            signature,
        };
        assert_eq!(node.validate_and_queue_update(&operation), Ok(()));
        if i % 20 == 19 {
            let batch = node.next_batch().expect("twenty operations are pending");
            assert_eq!(batch.len(), 20);
            drained.extend(batch);
            batches += 1;
            assert!(node.pending_operations.is_empty());
        }
    }
    assert_eq!(batches, 50);
    assert!(node.next_batch().is_none());
    assert_eq!(drained.len(), 1000);
    for (i, operation) in drained.iter().enumerate() {
        assert_eq!(operation.id(), format!("account-{i}"));
    }
}

#[test]
fn a_block_skips_what_the_directory_refuses() {
    let mut node = node(true, true);
    let alice = create_account("alice", &key(1));
    let orphan = add_key(&Digest::zero(), "bob", key(2).verifying_key(), &key(1));
    let proofs = node.execute_block(vec![alice.clone(), orphan, alice, create_account("bob", &key(2))]);
    assert_eq!(proofs.len(), 2);
    assert!(proofs.iter().all(|proof| matches!(proof, Proof::Insert(_))));
    assert_eq!(node.last_block, BlockStats { applied: 2, rejected: 2, unavailable: 0 });
    assert_eq!(proofs[0].resulting_commitment(), proofs[1].prior_commitment());
    assert_eq!(
        node.get_commitment(),
        Ok(root_after(&[create_account("alice", &key(1)), create_account("bob", &key(2))]))
    );
    assert!(node.execute_block(vec![]).is_empty());
    assert_eq!(node.last_block, BlockStats { applied: 0, rejected: 0, unavailable: 0 });
}

#[test]
fn published_epochs_are_checked_in_order() {
    let mut node = node(false, false);
    node.begin_sync().unwrap();
    let empty = root_after(&[]);
    let mut buffer = vec![create_account("alice", &key(1))];

    let future = published(1, empty, empty);
    assert_eq!(
        node.process_epoch(&future, &mut buffer),
        Err(ProverError::EpochHeightMismatch { expected: 0, got: 1 })
    );
    assert_eq!(buffer.len(), 1);

    let wrong_start = published(0, Digest::hash(b"elsewhere"), empty);
    assert_eq!(
        node.process_epoch(&wrong_start, &mut buffer),
        Err(ProverError::PrevCommitmentMismatch { epoch: 0 })
    );
    assert_eq!(buffer.len(), 1);
    assert_eq!(node.get_commitment(), Ok(empty));

    let with_alice = root_after(&[create_account("alice", &key(1))]);
    let good = published(0, empty, with_alice);
    assert_eq!(node.process_epoch(&good, &mut buffer), Ok(EpochOutcome::Applied));
    assert!(buffer.is_empty());
    assert_eq!(node.db.get_epoch(), Ok(1));
    assert_eq!(node.db.get_commitment(1), Ok(with_alice));

    buffer.push(create_account("bob", &key(2)));
    assert_eq!(node.process_epoch(&good, &mut buffer), Ok(EpochOutcome::AlreadyProcessed));
    assert_eq!(buffer.len(), 1);
    assert_eq!(node.db.get_epoch(), Ok(1));
    assert_eq!(node.get_commitment(), Ok(with_alice));

    let empty_epoch = published(1, with_alice, with_alice);
    let mut nothing = Vec::new();
    assert_eq!(node.process_epoch(&empty_epoch, &mut nothing), Ok(EpochOutcome::Applied));
    assert_eq!(node.db.get_epoch(), Ok(2));
    assert_eq!(node.db.get_commitment(2), Ok(with_alice));
}

#[test]
fn a_node_that_does_not_prove_only_buffers_in_real_time() {
    let mut node = node(false, true);
    node.begin_sync().unwrap();
    let mut buffer = Vec::new();
    let first = node.process_da_height(1, vec![create_account("alice", &key(1))], None, &mut buffer, true);
    assert!(matches!(first, Ok(HeightStep::Done)));
    let second = node.process_da_height(2, vec![], None, &mut buffer, true);
    assert!(matches!(second, Ok(HeightStep::Done)));
    assert_eq!(buffer.len(), 1);
    assert_eq!(node.get_commitment(), Ok(root_after(&[])));
    assert_eq!(node.db.get_last_synced_height(), Ok(2));
}

#[test]
fn a_fresh_store_starts_at_epoch_zero_and_the_configured_height() {
    let mut cfg = config(true, true);
    cfg.start_height = 12;
    let mut node: Node = Prover::new(InMemoryDatabase::new(), MemoryTree::new(), &cfg).unwrap();
    assert_eq!(node.db.get_epoch(), Ok(0));
    assert_eq!(node.db.get_commitment(0), Err(StorageError::NotFound));
    assert_eq!(node.begin_sync(), Ok(()));
    assert_eq!(node.db.get_commitment(0), Ok(root_after(&[])));
    assert_eq!(node.initial_sync_height(), Ok(12));
    assert_eq!(node.db.get_last_synced_height(), Ok(12));
    node.db.set_last_synced_height(40).unwrap();
    assert_eq!(node.initial_sync_height(), Ok(40));

    let mut db = InMemoryDatabase::new();
    db.set_epoch(3).unwrap();
    let mut resumed: Node = Prover::new(db, MemoryTree::new(), &cfg).unwrap();
    assert_eq!(resumed.db.get_epoch(), Ok(3));
    assert_eq!(resumed.begin_sync(), Ok(()));
    assert_eq!(resumed.db.get_commitment(0), Err(StorageError::NotFound));
}

#[test]
fn the_epoch_counter_cannot_pass_its_last_value() {
    let mut node = node(true, true);
    let root = node.get_commitment().unwrap();
    assert_eq!(
        node.record_finalized_epoch(u64::MAX, &root, 5),
        Err(ProverError::EpochOverflow)
    );
    assert_eq!(node.db.get_last_synced_height(), Err(StorageError::NotFound));
    node.db.set_epoch(u64::MAX).unwrap();
    node.db.set_commitment(u64::MAX, &root).unwrap();
    let last = published(u64::MAX, root, root);
    let mut buffer = Vec::new();
    assert_eq!(node.process_epoch(&last, &mut buffer), Err(ProverError::EpochOverflow));
    assert_eq!(node.db.get_epoch(), Ok(u64::MAX));
}

#[test]
fn resuming_after_an_applied_epoch_reaches_the_same_state() {
    let mut straight = node(false, false);
    let mut buffer = Vec::new();
    sync_historical(&mut straight, &mut buffer, 5, false).1.unwrap();
    let more = create_account("bob", &key(2));
    straight.process_da_height(6, vec![more.clone()], None, &mut buffer, false).unwrap();

    let mut stopped = node(false, false);
    let mut lost = Vec::new();
    sync_historical(&mut stopped, &mut lost, 5, false).1.unwrap();
    drop(lost);
    let mut after_restart = Vec::new();
    let resume_from = stopped.initial_sync_height().unwrap();
    assert_eq!(resume_from, 5);
    let (operations, epoch) = fresh_layer(5, false);
    let step = stopped.process_da_height(5, operations, epoch, &mut after_restart, false);
    assert!(matches!(step, Ok(HeightStep::Done)));
    stopped.process_da_height(6, vec![more], None, &mut after_restart, false).unwrap();

    assert_eq!(stopped.db.get_epoch(), straight.db.get_epoch());
    assert_eq!(stopped.db.get_commitment(0), straight.db.get_commitment(0));
    assert_eq!(stopped.db.get_commitment(1), straight.db.get_commitment(1));
    assert_eq!(stopped.get_commitment(), straight.get_commitment());
    assert_eq!(after_restart.len(), buffer.len());
}

#[test]
fn a_restart_while_operations_wait_loses_them() {
    let mut stopped = node(false, false);
    let mut lost = Vec::new();
    sync_historical(&mut stopped, &mut lost, 3, false).1.unwrap();
    assert_eq!(lost.len(), 1);
    drop(lost);

    let mut after_restart = Vec::new();
    let resume_from = stopped.initial_sync_height().unwrap();
    assert_eq!(resume_from, 3);
    let mut outcome = Ok(());
    for height in resume_from..=5 {
        let (operations, epoch) = fresh_layer(height, false);
        if let Err(e) = stopped.process_da_height(height, operations, epoch, &mut after_restart, false) {
            outcome = Err(e);
            break;
        }
    }
    assert_eq!(outcome, Err(ProverError::NewCommitmentMismatch { epoch: 0 }));
    assert_eq!(stopped.db.get_epoch(), Ok(0));
}

#[test]
fn an_epoch_is_due_when_its_number_and_its_start_match() {
    let start = Digest::hash(b"start");
    let end = Digest::hash(b"end");
    let epoch = published(4, start, end);
    assert_eq!(check_epoch_start(&epoch, 4, &start), Ok(()));
    assert_eq!(
        check_epoch_start(&epoch, 3, &start),
        Err(ProverError::EpochHeightMismatch { expected: 3, got: 4 })
    );
    assert_eq!(
        check_epoch_start(&epoch, 5, &end),
        Err(ProverError::EpochHeightMismatch { expected: 5, got: 4 })
    );
    assert_eq!(
        check_epoch_start(&epoch, 4, &end),
        Err(ProverError::PrevCommitmentMismatch { epoch: 4 })
    );
}

#[test]
fn a_replayed_epoch_advances_the_counter_by_one() {
    let start = Digest::hash(b"start");
    let end = Digest::hash(b"end");
    let epoch = published(4, start, end);
    assert_eq!(check_epoch_end(&epoch, 4, &end), Ok(5));
    assert_eq!(
        check_epoch_end(&epoch, 4, &start),
        Err(ProverError::NewCommitmentMismatch { epoch: 4 })
    );
    let last = published(u64::MAX, start, end);
    assert_eq!(check_epoch_end(&last, u64::MAX, &end), Err(ProverError::EpochOverflow));
    assert_eq!(
        check_epoch_end(&last, u64::MAX, &start),
        Err(ProverError::NewCommitmentMismatch { epoch: u64::MAX })
    );
    assert_eq!(check_epoch_end(&epoch, u64::MAX - 1, &end), Ok(u64::MAX));
}

#[test]
fn an_epoch_of_the_nodes_own_needs_all_four_conditions() {
    let proving = config(true, true);
    let following = config(false, true);
    assert!(should_finalize(&proving, true, false, 1));
    assert!(should_finalize(&proving, true, false, 1000));
    assert!(!should_finalize(&proving, false, false, 1));
    assert!(!should_finalize(&proving, true, true, 1));
    assert!(!should_finalize(&proving, true, false, 0));
    assert!(!should_finalize(&following, true, false, 1));
}

#[test]
fn a_lookup_decides_on_an_operation_that_continues_a_history() {
    let mut node = node(true, true);
    node.process_operation(&create_account("alice", &key(1))).unwrap();
    let found = node.get_hashchain(&"alice".to_string()).unwrap();
    let missing = node.get_hashchain(&"bob".to_string()).unwrap();
    let good = add_key(&last_hash_of(&node, "alice"), "alice", key(2).verifying_key(), &key(1));
    assert_eq!(check_against_lookup(&good, &found), Ok(()));
    assert_eq!(check_against_lookup(&good, &missing), Err(ProverError::NotFound));
    let by_stranger = add_key(&last_hash_of(&node, "alice"), "alice", key(2).verifying_key(), &key(2));
    assert_eq!(
        check_against_lookup(&by_stranger, &found),
        Err(ProverError::Invalid(HashchainError::SignerNotValid))
    );
}

#[test]
fn a_batch_of_the_nodes_own_verifies_and_a_broken_one_does_not() {
    let mut node = node(true, true);
    let before = node.get_commitment().unwrap();
    let orphan = add_key(&Digest::zero(), "carol", key(2).verifying_key(), &key(1));
    let operations = vec![
        create_account("alice", &key(1)),
        orphan,
        create_account("bob", &key(2)),
        register_service("svc", &key(9)),
    ];
    let mut batch = node.finalize_new_epoch(operations).unwrap();
    assert_eq!(batch.prev_root, before);
    assert_eq!(batch.new_root, node.get_commitment().unwrap());
    assert_eq!(batch.proofs.len(), 3);
    assert_eq!(batch.verify(), Ok(()));

    let honest_end = batch.new_root;
    batch.new_root = before;
    assert_eq!(batch.verify(), Err(BatchError::Gap { index: 3 }));
    batch.new_root = honest_end;

    batch.prev_root = honest_end;
    assert_eq!(batch.verify(), Err(BatchError::Gap { index: 0 }));
    batch.prev_root = before;

    let last = batch.proofs.pop().unwrap();
    assert_eq!(batch.verify(), Err(BatchError::Gap { index: 2 }));
    let middle = batch.proofs.pop().unwrap();
    batch.proofs.push(last);
    assert_eq!(batch.verify(), Err(BatchError::Gap { index: 1 }));
    batch.proofs.pop();
    batch.proofs.push(middle);
    assert_eq!(batch.verify(), Err(BatchError::Gap { index: 2 }));

    if let Proof::Insert(insert) = &mut batch.proofs[1] {
        insert.membership.path[0] ^= 0xff;
    }
    assert!(matches!(
        batch.verify(),
        Err(BatchError::InvalidProof { index: 1, reason: ProofError::InvalidPath })
    ));

    let empty = Batch { prev_root: before, new_root: before, proofs: vec![] };
    assert_eq!(empty.verify(), Ok(()));
    let moved = Batch { prev_root: before, new_root: honest_end, proofs: vec![] };
    assert_eq!(moved.verify(), Err(BatchError::Gap { index: 0 }));
}

#[test]
fn a_value_on_record_is_kept_and_a_missing_one_defaults() {
    assert_eq!(resume_from(Ok(7), 1), Ok(Resumed::Recorded(7)));
    assert_eq!(resume_from(Ok(0), 1), Ok(Resumed::Recorded(0)));
    assert_eq!(resume_from(Err(StorageError::NotFound), 1), Ok(Resumed::Fresh(1)));
    assert_eq!(
        resume_from(Err(StorageError::Unavailable), 1),
        Err(StorageError::Unavailable)
    );
}

#[test]
fn only_an_epoch_before_the_current_one_is_ignored() {
    let epoch = published(4, Digest::hash(b"start"), Digest::hash(b"end"));
    assert!(already_processed(&epoch, 5));
    assert!(already_processed(&epoch, u64::MAX));
    assert!(!already_processed(&epoch, 4));
    assert!(!already_processed(&epoch, 0));
}

#[test]
fn a_due_epoch_with_nothing_waiting_advances_the_counter() {
    let mut node = node(false, false);
    node.begin_sync().unwrap();
    let c0 = node.get_commitment().unwrap();
    let epoch = published(0, c0, c0);
    let mut buffer = Vec::new();
    assert_eq!(node.process_epoch(&epoch, &mut buffer), Ok(EpochOutcome::Applied));
    assert_eq!(node.db.get_epoch(), Ok(1));
    assert_eq!(node.db.get_commitment(1), Ok(c0));
    assert_eq!(node.db.get_commitment(0), Ok(c0));
    assert!(buffer.is_empty());
    assert_eq!(node.last_block, BlockStats { applied: 0, rejected: 0, unavailable: 0 });
}

#[test]
fn a_stale_epoch_at_a_live_height_starts_no_epoch_of_the_nodes_own() {
    let mut node = node(true, true);
    node.begin_sync().unwrap();
    let c0 = node.get_commitment().unwrap();
    let mut nothing = Vec::new();
    node.process_epoch(&published(0, c0, c0), &mut nothing).unwrap();
    let mut buffer = vec![create_account("alice", &key(1))];
    let stale = published(0, c0, c0);
    let step = node.process_da_height(
        9,
        vec![create_account("bob", &key(2))],
        Some(stale),
        &mut buffer,
        true,
    );
    assert!(matches!(step, Ok(HeightStep::Done)));
    assert_eq!(buffer.len(), 2);
    assert_eq!(buffer[0].id(), "alice");
    assert_eq!(buffer[1].id(), "bob");
    assert_eq!(node.get_commitment(), Ok(c0));
    assert_eq!(node.db.get_epoch(), Ok(1));
    assert_eq!(node.db.get_last_synced_height(), Ok(9));
}
