//! The prover node: it follows the data availability layer height by
//! height, replays the operations it finds there into the directory, checks
//! every published epoch against its own state, finalizes epochs of its own
//! when it is configured to, and queues the operations that clients submit.

use crate::config::Config;
use crate::digest::Digest;
use crate::epoch::{chained, lemma_chained_push, Batch, EpochView, FinalizedEpoch};
use crate::hashchain::{
    last_hash, lemma_rejection_iff_not_admissible, rejection, HashchainError,
};
use crate::keys::VerifyingKey;
use crate::operation::{Operation, OperationError, OperationView};
use crate::storage::{Database, StorageError, StoreState};
use crate::tree::{
    accepts, apply, chain_of, key_hash_of, position, replay, step, Directory, HashchainResponse,
    KeyHash, Proof, StateTree, TreeError,
};
use vstd::prelude::*;

verus! {

/// Why the node did not do what it was asked.
#[derive(Clone, Copy, Debug, PartialEq, Eq, Structural)]
pub enum ProverError {
    /// The batcher is disabled; the node takes no operations.
    Disabled,
    /// The operation continues a history that the directory does not hold.
    NotFound,
    /// The operation is not well formed, or the history does not take it.
    Invalid(HashchainError),
    /// The store could not be read or written.
    Storage(StorageError),
    /// The tree's backing store failed.
    TreeUnavailable,
    /// A published epoch is not the one that comes next.
    EpochHeightMismatch { expected: u64, got: u64 },
    /// A published epoch does not start from the commitment on record.
    PrevCommitmentMismatch { epoch: u64 },
    /// Replaying the operations did not lead to the published commitment.
    NewCommitmentMismatch { epoch: u64 },
    /// The epoch counter cannot be advanced any further.
    EpochOverflow,
}

impl ProverError {
    /// The error comes from the store or the tree's backing store, not
    /// from what was processed.
    pub open spec fn is_outage(self) -> bool {
        self is Storage || self is TreeUnavailable
    }
}

/// How the operations of the last executed block fared.
#[derive(Clone, Copy, Debug, PartialEq, Eq, Structural)]
pub struct BlockStats {
    /// Operations that the directory took.
    pub applied: usize,
    /// Operations that the directory refused; they were skipped.
    pub rejected: usize,
    /// Operations that were skipped because the tree's store failed.
    pub unavailable: usize,
}

/// What became of a published epoch.
#[derive(Clone, Copy, Debug, PartialEq, Eq, Structural)]
pub enum EpochOutcome {
    /// The epoch lies before the current one; it was ignored.
    AlreadyProcessed,
    /// The epoch was replayed and recorded; the counter advanced.
    Applied,
}

/// What is left to do for a height once its data was processed.
#[derive(Debug)]
pub enum HeightStep {
    /// Nothing: the height is recorded as synced.
    Done,
    /// An epoch of the node's own is to be proved, published and recorded.
    Finalize { epoch_height: u64, batch: Batch },
}

/// The operations of a sequence, each as a mathematical value.
pub open spec fn views(operations: Seq<Operation>) -> Seq<OperationView> {
    operations.map_values(|operation: Operation| operation@)
}

/// The pieces of evidence are those of a block: offered to the directory
/// `slots` in order, each operation that the directory took left one piece
/// of evidence, which records that operation, and each that it refused left
/// none.
pub open spec fn evidence_of(
    slots: Directory,
    operations: Seq<OperationView>,
    proofs: Seq<Proof>,
) -> bool
    decreases operations.len(),
{
    if operations.len() == 0 {
        proofs.len() == 0
    } else {
        let before = replay(slots, operations.drop_last());
        if accepts(before, operations.last()) {
            &&& proofs.len() > 0
            &&& proofs.last().records(
                operations.last(),
                before,
                apply(before, operations.last()),
            )
            &&& evidence_of(slots, operations.drop_last(), proofs.drop_last())
        } else {
            evidence_of(slots, operations.drop_last(), proofs)
        }
    }
}

/// The directory after the operations were offered to it in order, where
/// those marked in `lost` never reached it because the tree's store failed.
pub open spec fn replay_but(
    slots: Directory,
    operations: Seq<OperationView>,
    lost: Seq<bool>,
) -> Directory
    decreases operations.len(),
{
    if operations.len() == 0 {
        slots
    } else {
        let before = replay_but(slots, operations.drop_last(), lost.drop_last());
        if lost.last() {
            before
        } else {
            step(before, operations.last())
        }
    }
}

/// The pieces of evidence are those of a block of which the operations
/// marked in `lost` were lost: each other operation that the directory took
/// left one piece of evidence, which records that operation, in order.
pub open spec fn evidence_but(
    slots: Directory,
    operations: Seq<OperationView>,
    lost: Seq<bool>,
    proofs: Seq<Proof>,
) -> bool
    decreases operations.len(),
{
    if operations.len() == 0 {
        proofs.len() == 0
    } else {
        let before = replay_but(slots, operations.drop_last(), lost.drop_last());
        if !lost.last() && accepts(before, operations.last()) {
            &&& proofs.len() > 0
            &&& proofs.last().records(
                operations.last(),
                before,
                apply(before, operations.last()),
            )
            &&& evidence_but(slots, operations.drop_last(), lost.drop_last(), proofs.drop_last())
        } else {
            evidence_but(slots, operations.drop_last(), lost.drop_last(), proofs)
        }
    }
}

/// The number of marks in `lost`.
pub open spec fn count_lost(lost: Seq<bool>) -> nat
    decreases lost.len(),
{
    if lost.len() == 0 {
        0
    } else {
        count_lost(lost.drop_last()) + if lost.last() {
            1nat
        } else {
            0nat
        }
    }
}

/// A block came to this: of the operations offered to `slots`, those
/// marked in `lost` were lost to outages, as many as the statistics count;
/// the others were applied or refused in order, which led to `after` and
/// left `proofs`.
pub open spec fn block_outcome(
    slots: Directory,
    operations: Seq<OperationView>,
    lost: Seq<bool>,
    after: Directory,
    proofs: Seq<Proof>,
    stats: BlockStats,
) -> bool {
    &&& lost.len() == operations.len()
    &&& count_lost(lost) == stats.unavailable
    &&& after == replay_but(slots, operations, lost)
    &&& evidence_but(slots, operations, lost, proofs)
}

/// A block of which nothing was lost is a replay, with the replay's
/// evidence.
pub proof fn lemma_nothing_lost(
    slots: Directory,
    operations: Seq<OperationView>,
    lost: Seq<bool>,
    proofs: Seq<Proof>,
)
    requires
        lost.len() == operations.len(),
        count_lost(lost) == 0,
    ensures
        replay_but(slots, operations, lost) == replay(slots, operations),
        evidence_but(slots, operations, lost, proofs) == evidence_of(slots, operations, proofs),
    decreases operations.len(),
{
    if operations.len() > 0 {
        lemma_nothing_lost(slots, operations.drop_last(), lost.drop_last(), proofs);
        lemma_nothing_lost(slots, operations.drop_last(), lost.drop_last(), proofs.drop_last());
    }
}

/// What a node holds while it syncs: the store, the directory, and the
/// operations that wait for the next epoch.
pub struct SyncModel {
    pub store: StoreState,
    pub slots: Directory,
    pub buffer: Seq<OperationView>,
}

/// What the data availability layer holds at one height.
pub struct HeightData {
    pub height: u64,
    pub operations: Seq<OperationView>,
    pub epoch: Option<EpochView>,
}

/// Whether a published epoch may be replayed: it must be the epoch that
/// is due and start from the commitment on record for it.
pub open spec fn epoch_start_verdict(
    epoch: EpochView,
    current_epoch: u64,
    recorded: Seq<u8>,
) -> Result<(), ProverError> {
    if epoch.height != current_epoch {
        Err(ProverError::EpochHeightMismatch { expected: current_epoch, got: epoch.height })
    } else if epoch.prev_commitment != recorded {
        Err(ProverError::PrevCommitmentMismatch { epoch: current_epoch })
    } else {
        Ok(())
    }
}

/// Whether a replayed epoch may be recorded: the replay must have led to
/// the published commitment, and the counter must have a successor, which
/// is the number of the next epoch.
pub open spec fn epoch_end_verdict(
    epoch: EpochView,
    current_epoch: u64,
    replayed: Seq<u8>,
) -> Result<u64, ProverError> {
    if epoch.current_commitment != replayed {
        Err(ProverError::NewCommitmentMismatch { epoch: current_epoch })
    } else if current_epoch == u64::MAX {
        Err(ProverError::EpochOverflow)
    } else {
        Ok((current_epoch + 1) as u64)
    }
}

/// What a published epoch does to a node whose store answers: an epoch
/// before the current one is ignored; any other must be the current one
/// and start from the commitment on record; then the waiting operations are
/// replayed, and the result must be the published commitment, which is
/// recorded for the next epoch before the counter advances.
pub open spec fn epoch_step<T: StateTree>(model: SyncModel, epoch: EpochView) -> Result<
    SyncModel,
    ProverError,
> {
    match model.store.epoch {
        None => Err(ProverError::Storage(StorageError::NotFound)),
        Some(current) => {
            if epoch.height < current {
                Ok(model)
            } else if !model.store.commitments.contains_key(current) {
                Err(ProverError::Storage(StorageError::NotFound))
            } else {
                match epoch_start_verdict(epoch, current, model.store.commitments[current]) {
                    Err(e) => Err(e),
                    Ok(()) => {
                        let slots = replay(model.slots, model.buffer);
                        let root = T::root_of(slots);
                        match epoch_end_verdict(epoch, current, root) {
                            Err(e) => Err(e),
                            Ok(next) => Ok(
                                SyncModel {
                                    store: model.store.with_commitment(next, root).with_epoch(next),
                                    slots,
                                    buffer: Seq::empty(),
                                },
                            ),
                        }
                    },
                }
            }
        },
    }
}

/// The store has taken none, the first, or both of the two writes that
/// record an epoch: the commitment of the next epoch always goes first, so
/// whoever reads the advanced counter finds the commitment.
pub open spec fn epoch_write_progress(
    before: StoreState,
    after: StoreState,
    next: u64,
    commitment: Seq<u8>,
) -> bool {
    ||| after == before
    ||| after == before.with_commitment(next, commitment)
    ||| after == before.with_commitment(next, commitment).with_epoch(next)
}

/// The store after a published epoch was recorded: the epoch is the due
/// one, starts from the commitment on record and ends at `root`, and the
/// counter has a successor. `None` if one of these does not hold.
pub open spec fn recorded_store(store: StoreState, epoch: EpochView, root: Seq<u8>) -> Option<
    StoreState,
> {
    if store.epoch is Some && store.commitments.contains_key(store.epoch->Some_0) {
        let current = store.epoch->Some_0;
        if epoch_start_verdict(epoch, current, store.commitments[current]) is Ok {
            match epoch_end_verdict(epoch, current, root) {
                Ok(next) => Some(store.with_commitment(next, root).with_epoch(next)),
                Err(_) => None,
            }
        } else {
            None
        }
    } else {
        None
    }
}

/// The waiting operations were taken and offered to the directory. With
/// none waiting the directory is as before; with no operation lost to an
/// outage (`clean`) it is the replay of those that waited.
pub open spec fn buffer_replayed(before: SyncModel, after: SyncModel, clean: bool) -> bool {
    &&& after.buffer.len() == 0
    &&& before.buffer.len() == 0 ==> after.slots == before.slots
    &&& clean ==> after.slots == replay(before.slots, before.buffer)
}

/// A published epoch was refused with `error` by one of the node's own
/// checks. The store is as before. If the epoch is not the due one or does
/// not start from the commitment on record, nothing was taken or offered;
/// otherwise the waiting operations were replayed and did not lead to the
/// published commitment, or the counter has no successor.
pub open spec fn epoch_refused<T: StateTree>(
    before: SyncModel,
    after: SyncModel,
    epoch: EpochView,
    clean: bool,
    error: ProverError,
) -> bool {
    &&& before.store.epoch matches Some(current)
    &&& epoch.height >= current
    &&& before.store.commitments.contains_key(current)
    &&& after.store == before.store
    &&& match epoch_start_verdict(epoch, current, before.store.commitments[current]) {
        Err(reason) => {
            &&& error == reason
            &&& after.slots == before.slots
            &&& after.buffer == before.buffer
        },
        Ok(()) => {
            &&& epoch_end_verdict(epoch, current, T::root_of(after.slots)) == Err::<
                u64,
                ProverError,
            >(error)
            &&& buffer_replayed(before, after, clean)
        },
    }
}

/// Processing a published epoch was cut short by the store or by the
/// tree's backing store. Either nothing was done, or the epoch had passed
/// the checks before the replay and the waiting operations were replayed;
/// then the store is as before if the tree failed, and has taken at most
/// the commitment of the next epoch if the store failed.
pub open spec fn epoch_interrupted<T: StateTree>(
    before: SyncModel,
    after: SyncModel,
    epoch: EpochView,
    clean: bool,
    error: ProverError,
) -> bool {
    ||| after == before
    ||| {
        &&& before.store.epoch matches Some(current)
        &&& before.store.commitments.contains_key(current)
        &&& epoch_start_verdict(epoch, current, before.store.commitments[current]) is Ok
        &&& buffer_replayed(before, after, clean)
        &&& if error is TreeUnavailable {
            after.store == before.store
        } else {
            &&& epoch_end_verdict(epoch, current, T::root_of(after.slots)) matches Ok(next)
            &&& {
                ||| after.store == before.store
                ||| after.store == before.store.with_commitment(next, T::root_of(after.slots))
            }
        }
    }
}

/// What processing a published epoch comes to, for each result: an epoch
/// before the current one is ignored and nothing changes; an applied epoch
/// passed every check, the waiting operations were replayed, and the store
/// holds the commitment of the next epoch and the advanced counter; an
/// error is a refusal or an outage.
pub open spec fn epoch_outcome<T: StateTree>(
    before: SyncModel,
    after: SyncModel,
    epoch: EpochView,
    clean: bool,
    out: Result<EpochOutcome, ProverError>,
) -> bool {
    match out {
        Ok(EpochOutcome::AlreadyProcessed) => {
            &&& before.store.epoch matches Some(current)
            &&& epoch.height < current
            &&& after == before
        },
        Ok(EpochOutcome::Applied) => {
            &&& recorded_store(before.store, epoch, T::root_of(after.slots)) == Some(after.store)
            &&& buffer_replayed(before, after, clean)
        },
        Err(error) => if error.is_outage() {
            epoch_interrupted::<T>(before, after, epoch, clean, error)
        } else {
            epoch_refused::<T>(before, after, epoch, clean, error)
        },
    }
}

/// What processing a height comes to, for each result. `wants` says
/// whether an epoch of the node's own was due, `applied` how many
/// operations the last block applied.
pub open spec fn height_outcome<T: StateTree>(
    before: SyncModel,
    after: SyncModel,
    data: HeightData,
    wants: bool,
    applied: int,
    clean: bool,
    out: Result<HeightStep, ProverError>,
) -> bool {
    let queued = SyncModel {
        store: before.store.with_last_synced_height(data.height),
        slots: before.slots,
        buffer: before.buffer + data.operations,
    };
    match out {
        Ok(HeightStep::Done) => {
            &&& !wants
            &&& before.store.epoch matches Some(current)
            &&& match data.epoch {
                Some(epoch) => if epoch.height < current {
                    after == queued
                } else {
                    &&& recorded_store(before.store, epoch, T::root_of(after.slots)) matches Some(
                        store,
                    )
                    &&& after.store == store.with_last_synced_height(data.height)
                    &&& after.buffer == data.operations
                    &&& before.buffer.len() == 0 ==> after.slots == before.slots
                    &&& clean ==> after.slots == replay(before.slots, before.buffer)
                },
                None => after == queued,
            }
        },
        Ok(HeightStep::Finalize { epoch_height, batch }) => {
            &&& wants
            &&& before.store.epoch == Some(epoch_height)
            &&& after.store == before.store
            &&& after.buffer == data.operations
            &&& batch.prev_root@ == T::root_of(before.slots)
            &&& batch.new_root@ == T::root_of(after.slots)
            &&& batch.proofs@.len() == applied
            &&& batch.valid()
            &&& clean ==> after.slots == replay(before.slots, before.buffer) && evidence_of(
                before.slots,
                before.buffer,
                batch.proofs@,
            )
        },
        Err(error) => !error.is_outage() ==> {
            &&& data.epoch matches Some(epoch)
            &&& epoch_refused::<T>(before, after, epoch, clean, error)
        },
    }
}

/// What the layer holds at a height, from the values that were fetched.
pub open spec fn height_data(
    height: u64,
    operations: Seq<Operation>,
    epoch: Option<FinalizedEpoch>,
) -> HeightData {
    HeightData {
        height,
        operations: views(operations),
        epoch: match epoch {
            Some(epoch) => Some(epoch@),
            None => None,
        },
    }
}

/// What a height does to a node that finalizes no epoch of its own at it:
/// the published epoch, if there is one, is processed; the operations of
/// the height join the waiting ones; the height is recorded as synced.
pub open spec fn height_step<T: StateTree>(model: SyncModel, data: HeightData) -> Result<
    SyncModel,
    ProverError,
> {
    let after_epoch = match data.epoch {
        Some(epoch) => epoch_step::<T>(model, epoch),
        None => if model.store.epoch is Some {
            Ok(model)
        } else {
            Err(ProverError::Storage(StorageError::NotFound))
        },
    };
    match after_epoch {
        Err(e) => Err(e),
        Ok(m) => Ok(
            SyncModel {
                store: m.store.with_last_synced_height(data.height),
                slots: m.slots,
                buffer: m.buffer + data.operations,
            },
        ),
    }
}

/// Whether the node finalizes an epoch of its own at a height: it follows
/// the layer in real time, it is configured to prove, the height carries no
/// published epoch, and operations are waiting.
pub open spec fn wants_finalization(
    prover: bool,
    is_real_time: bool,
    epoch_published: bool,
    waiting: int,
) -> bool {
    is_real_time && prover && !epoch_published && waiting > 0
}

/// What the queue does with an operation once the directory was asked for
/// the history that the operation continues.
pub open spec fn lookup_verdict(operation: OperationView, response: HashchainResponse) -> Result<
    (),
    ProverError,
> {
    match response {
        HashchainResponse::NotFound(_) => Err(ProverError::NotFound),
        HashchainResponse::Found(chain, _) => match rejection(chain@, operation) {
            Some(e) => Err(ProverError::Invalid(e)),
            None => Ok(()),
        },
    }
}

/// What the queue does with an operation, given the directory: nothing
/// is taken while the batcher is disabled; an operation that is not well
/// formed is invalid; one that creates an account is taken as it is; one
/// that continues a history needs that history, and the history must take
/// it.
pub open spec fn queue_verdict(batcher: bool, slots: Directory, operation: OperationView) -> Result<
    (),
    ProverError,
> {
    if !batcher {
        Err(ProverError::Disabled)
    } else if operation.id().len() == 0 {
        Err(ProverError::Invalid(HashchainError::Malformed(OperationError::EmptyId)))
    } else if operation.signature() is Placeholder {
        Err(ProverError::Invalid(HashchainError::Malformed(OperationError::MissingSignature)))
    } else if operation.is_creation() {
        Ok(())
    } else if position(slots, key_hash_of(operation.id())) is None {
        Err(ProverError::NotFound)
    } else {
        match rejection(chain_of(slots, key_hash_of(operation.id())), operation) {
            Some(e) => Err(ProverError::Invalid(e)),
            None => Ok(()),
        }
    }
}

/// Where a value that the store keeps between runs comes from.
#[derive(Clone, Copy, Debug, PartialEq, Eq, Structural)]
pub enum Resumed {
    /// The value is on record and stays.
    Recorded(u64),
    /// Nothing is on record; the default is taken and has to be recorded.
    Fresh(u64),
}

/// What a read of the store comes to at set-up: a value on record is kept;
/// where the store reports that nothing is recorded, the default is taken;
/// any other failure is passed on.
pub fn resume_from(read: Result<u64, StorageError>, default: u64) -> (out: Result<
    Resumed,
    StorageError,
>)
    ensures
        out == match read {
            Ok(value) => Ok::<Resumed, StorageError>(Resumed::Recorded(value)),
            Err(StorageError::NotFound) => Ok(Resumed::Fresh(default)),
            Err(e) => Err(e),
        },
{
    match read {
        Ok(value) => Ok(Resumed::Recorded(value)),
        Err(StorageError::NotFound) => Ok(Resumed::Fresh(default)),
        Err(e) => Err(e),
    }
}

/// Whether a published epoch lies before the current one, so that it is
/// ignored.
pub fn already_processed(epoch: &FinalizedEpoch, current_epoch: u64) -> (out: bool)
    ensures
        out == (epoch@.height < current_epoch),
{
    epoch.height < current_epoch
}

/// Checks that a published epoch is the one that is due and starts from the
/// commitment on record.
pub fn check_epoch_start(epoch: &FinalizedEpoch, current_epoch: u64, recorded: &Digest) -> (out: Result<
    (),
    ProverError,
>)
    ensures
        out == epoch_start_verdict(epoch@, current_epoch, recorded@),
{
    if epoch.height != current_epoch {
        return Err(ProverError::EpochHeightMismatch { expected: current_epoch, got: epoch.height });
    }
    if epoch.prev_commitment != *recorded {
        return Err(ProverError::PrevCommitmentMismatch { epoch: current_epoch });
    }
    Ok(())
}

/// Checks that replaying led to the published commitment, and returns the
/// number of the next epoch.
pub fn check_epoch_end(epoch: &FinalizedEpoch, current_epoch: u64, replayed: &Digest) -> (out: Result<
    u64,
    ProverError,
>)
    ensures
        out == epoch_end_verdict(epoch@, current_epoch, replayed@),
{
    if epoch.current_commitment != *replayed {
        return Err(ProverError::NewCommitmentMismatch { epoch: current_epoch });
    }
    if current_epoch == u64::MAX {
        return Err(ProverError::EpochOverflow);
    }
    Ok(current_epoch + 1)
}

/// Whether the node starts an epoch of its own at a height.
pub fn should_finalize(
    cfg: &Config,
    is_real_time: bool,
    epoch_published: bool,
    waiting: usize,
) -> (out: bool)
    ensures
        out == wants_finalization(cfg.prover, is_real_time, epoch_published, waiting as int),
{
    is_real_time && !epoch_published && waiting > 0 && cfg.prover
}

/// Decides on an operation that continues a history, given what the
/// directory answered for its account: without a history it is refused as
/// not found; with one, it is tried on the history without changing it.
pub fn check_against_lookup(operation: &Operation, response: &HashchainResponse) -> (out: Result<
    (),
    ProverError,
>)
    ensures
        out == lookup_verdict(operation@, *response),
{
    match response {
        HashchainResponse::NotFound(_) => Err(ProverError::NotFound),
        HashchainResponse::Found(chain, _) => match chain.check_operation(operation) {
            Ok(()) => Ok(()),
            Err(e) => Err(ProverError::Invalid(e)),
        },
    }
}

/// A prover node over a store `D` and a tree `T`.
pub struct Prover<D: Database, T: StateTree> {
    /// The store of the epoch counter, the commitments and the sync height.
    pub db: D,
    /// The settings of the node.
    pub cfg: Config,
    /// The operations that were accepted from clients and have not been
    /// posted to the data availability layer yet, in the order of arrival.
    pub pending_operations: Vec<Operation>,
    /// How the last executed block fared.
    pub last_block: BlockStats,
    /// The authenticated directory.
    pub tree: T,
}

impl<D: Database, T: StateTree> Prover<D, T> {
    /// The tree is in order.
    pub open spec fn inv(&self) -> bool {
        self.tree.inv()
    }

    /// The directory.
    pub open spec fn slots(&self) -> Directory {
        self.tree.slots()
    }

    /// The state that syncing works on, with `buffer` as the operations
    /// that wait for the next epoch.
    pub open spec fn model(&self, buffer: Seq<Operation>) -> SyncModel {
        SyncModel { store: self.db.state(), slots: self.slots(), buffer: views(buffer) }
    }

    /// Sets up a node over `db` and `tree`. A counter on record is kept; if
    /// the store reports that none is recorded, the counter is written as
    /// 0. Any other failure of the store ends the set-up.
    pub fn new(db: D, tree: T, cfg: &Config) -> (out: Result<Prover<D, T>, ProverError>)
        requires
            tree.inv(),
        ensures
            match out {
                Ok(node) => {
                    &&& node.inv()
                    &&& node.slots() == tree.slots()
                    &&& node.cfg == *cfg
                    &&& node.pending_operations@.len() == 0
                    &&& node.last_block == (BlockStats { applied: 0, rejected: 0, unavailable: 0 })
                    &&& node.db.state() == if db.state().epoch is Some {
                        db.state()
                    } else {
                        db.state().with_epoch(0)
                    }
                },
                Err(e) => e is Storage,
            },
    {
        let mut db = db;
        match resume_from(db.get_epoch(), 0) {
            Ok(Resumed::Recorded(_)) => {},
            Ok(Resumed::Fresh(epoch)) => {
                match db.set_epoch(epoch) {
                    Ok(()) => {},
                    Err(e) => {
                        return Err(ProverError::Storage(e));
                    },
                }
            },
            Err(e) => {
                return Err(ProverError::Storage(e));
            },
        }
        Ok(
            Prover {
                db,
                cfg: *cfg,
                pending_operations: Vec::new(),
                last_block: BlockStats { applied: 0, rejected: 0, unavailable: 0 },
                tree,
            },
        )
    }

    /// The current root of the directory.
    pub fn get_commitment(&self) -> (out: Result<Digest, ProverError>)
        requires
            self.inv(),
        ensures
            match out {
                Ok(root) => root@ == T::root_of(self.slots()),
                Err(e) => e == ProverError::TreeUnavailable,
            },
    {
        match self.tree.get_commitment() {
            Ok(root) => Ok(root),
            Err(_) => Err(ProverError::TreeUnavailable),
        }
    }

    /// Looks up the history of the account `id`.
    pub fn get_hashchain(&self, id: &String) -> (out: Result<HashchainResponse, ProverError>)
        requires
            self.inv(),
        ensures
            match out {
                Ok(HashchainResponse::Found(chain, proof)) => {
                    &&& position(self.slots(), key_hash_of(id@)) is Some
                    &&& chain@ == chain_of(self.slots(), key_hash_of(id@))
                    &&& chain.wf()
                    &&& chain@.len() > 0
                    &&& proof.key@ == key_hash_of(id@)
                    &&& proof.root@ == T::root_of(self.slots())
                    &&& proof.value@ == last_hash(chain@)
                    &&& proof.valid()
                },
                Ok(HashchainResponse::NotFound(proof)) => {
                    &&& position(self.slots(), key_hash_of(id@)) is None
                    &&& proof.key@ == key_hash_of(id@)
                    &&& proof.root@ == T::root_of(self.slots())
                    &&& proof.valid()
                },
                Err(e) => e == ProverError::TreeUnavailable,
            },
    {
        let key_hash = KeyHash::of(id);
        match self.tree.get(key_hash) {
            Ok(response) => Ok(response),
            Err(_) => Err(ProverError::TreeUnavailable),
        }
    }

    /// Applies an operation to the directory.
    pub fn process_operation(&mut self, operation: &Operation) -> (out: Result<Proof, TreeError>)
        requires
            old(self).inv(),
        ensures
            final(self).inv(),
            final(self).db == old(self).db,
            final(self).cfg == old(self).cfg,
            final(self).pending_operations == old(self).pending_operations,
            final(self).last_block == old(self).last_block,
            match out {
                Ok(proof) => {
                    &&& accepts(old(self).slots(), operation@)
                    &&& final(self).slots() == apply(old(self).slots(), operation@)
                    &&& proof.old_root() == T::root_of(old(self).slots())
                    &&& proof.new_root() == T::root_of(final(self).slots())
                    &&& proof.valid()
                    &&& proof.records(operation@, old(self).slots(), final(self).slots())
                },
                Err(TreeError::Rejected(e)) => {
                    &&& rejection(
                        chain_of(old(self).slots(), key_hash_of(operation@.id())),
                        operation@,
                    ) == Some(e)
                    &&& final(self).slots() == old(self).slots()
                },
                Err(TreeError::Storage) => final(self).slots() == old(self).slots(),
            },
    {
        self.tree.process_operation(operation)
    }

    /// Takes an operation from a client into the queue of pending
    /// operations, if the batcher is enabled, the operation is well formed
    /// and, where it continues a history, that history exists and takes it.
    /// The history is only consulted, never changed. On any refusal the
    /// queue is left as it was.
    pub fn validate_and_queue_update(&mut self, incoming_operation: &Operation) -> (out: Result<
        (),
        ProverError,
    >)
        requires
            old(self).inv(),
        ensures
            final(self).inv(),
            final(self).slots() == old(self).slots(),
            final(self).db == old(self).db,
            final(self).cfg == old(self).cfg,
            final(self).last_block == old(self).last_block,
            out == queue_verdict(old(self).cfg.batcher, old(self).slots(), incoming_operation@)
                || out == Err::<(), ProverError>(ProverError::TreeUnavailable),
            out == Err::<(), ProverError>(ProverError::TreeUnavailable) ==> old(self).cfg.batcher
                && incoming_operation@.structurally_valid() && !incoming_operation@.is_creation(),
            match out {
                Ok(()) => views(final(self).pending_operations@) == views(
                    old(self).pending_operations@,
                ).push(incoming_operation@),
                Err(_) => final(self).pending_operations == old(self).pending_operations,
            },
    {
        if !self.cfg.batcher {
            return Err(ProverError::Disabled);
        }
        match incoming_operation.validate() {
            Ok(()) => {},
            Err(e) => {
                return Err(ProverError::Invalid(HashchainError::Malformed(e)));
            },
        }
        if !incoming_operation.is_creation() {
            let response = match self.get_hashchain(&incoming_operation.id()) {
                Ok(response) => response,
                Err(e) => {
                    return Err(e);
                },
            };
            match check_against_lookup(incoming_operation, &response) {
                Ok(()) => {
                    proof {
                        lemma_rejection_iff_not_admissible(
                            chain_of(self.slots(), key_hash_of(incoming_operation@.id())),
                            incoming_operation@,
                        );
                    }
                },
                Err(e) => {
                    return Err(e);
                },
            }
        }
        self.pending_operations.push(incoming_operation.clone());
        assert(views(self.pending_operations@) =~= views(old(self).pending_operations@).push(
            incoming_operation@,
        ));
        Ok(())
    }

    /// Takes the whole queue of pending operations and leaves an empty
    /// queue behind.
    pub fn take_pending(&mut self) -> (batch: Vec<Operation>)
        ensures
            batch == old(self).pending_operations,
            final(self).pending_operations@.len() == 0,
            final(self).db == old(self).db,
            final(self).cfg == old(self).cfg,
            final(self).last_block == old(self).last_block,
            final(self).tree == old(self).tree,
    {
        let mut batch: Vec<Operation> = Vec::new();
        core::mem::swap(&mut self.pending_operations, &mut batch);
        batch
    }

    /// What the batcher posts when a new height is announced: the whole
    /// queue, in the order of arrival, or nothing if the queue is empty.
    pub fn next_batch(&mut self) -> (out: Option<Vec<Operation>>)
        ensures
            final(self).pending_operations@.len() == 0,
            final(self).db == old(self).db,
            final(self).cfg == old(self).cfg,
            final(self).last_block == old(self).last_block,
            final(self).tree == old(self).tree,
            match out {
                Some(batch) => batch == old(self).pending_operations && batch@.len() > 0,
                None => old(self).pending_operations@.len() == 0,
            },
    {
        let batch = self.take_pending();
        if batch.len() == 0 {
            None
        } else {
            Some(batch)
        }
    }

    /// Offers the operations to the directory one after another. An
    /// operation that the directory refuses, or that is lost because the
    /// tree's store fails, is skipped. Returns the evidence for the
    /// operations that were applied, in order, and records how the block
    /// fared. The directory is what the operations that were not lost lead
    /// to, and each piece of evidence records one of them.
    pub fn execute_block(&mut self, operations: Vec<Operation>) -> (proofs: Vec<Proof>)
        requires
            old(self).inv(),
        ensures
            final(self).inv(),
            final(self).db == old(self).db,
            final(self).cfg == old(self).cfg,
            final(self).pending_operations == old(self).pending_operations,
            proofs@.len() == final(self).last_block.applied,
            final(self).last_block.applied + final(self).last_block.rejected
                + final(self).last_block.unavailable == operations@.len(),
            forall|i: int| 0 <= i < proofs@.len() ==> (#[trigger] proofs@[i]).valid(),
            chained(proofs@, T::root_of(old(self).slots()), T::root_of(final(self).slots())),
            final(self).last_block.unavailable == 0 ==> final(self).slots() == replay(
                old(self).slots(),
                views(operations@),
            ),
            final(self).last_block.unavailable == 0 ==> evidence_of(
                old(self).slots(),
                views(operations@),
                proofs@,
            ),
            exists|lost: Seq<bool>| #[trigger]
                block_outcome(
                    old(self).slots(),
                    views(operations@),
                    lost,
                    final(self).slots(),
                    proofs@,
                    final(self).last_block,
                ),
    {
        let mut proofs: Vec<Proof> = Vec::new();
        let ghost mut lost: Seq<bool> = Seq::empty();
        let mut stats = BlockStats { applied: 0, rejected: 0, unavailable: 0 };
        let mut i: usize = 0;
        assert(views(operations@).take(0) =~= Seq::<OperationView>::empty());
        while i < operations.len()
            invariant
                i <= operations@.len(),
                self.inv(),
                self.db == old(self).db,
                self.cfg == old(self).cfg,
                self.pending_operations == old(self).pending_operations,
                proofs@.len() == stats.applied,
                stats.applied + stats.rejected + stats.unavailable == i,
                forall|k: int| 0 <= k < proofs@.len() ==> (#[trigger] proofs@[k]).valid(),
                chained(proofs@, T::root_of(old(self).slots()), T::root_of(self.slots())),
                block_outcome(
                    old(self).slots(),
                    views(operations@).take(i as int),
                    lost,
                    self.slots(),
                    proofs@,
                    stats,
                ),
            decreases operations@.len() - i,
        {
            let ghost before = self.slots();
            let ghost offered = views(operations@);
            let ghost earlier = lost;
            proof {
                assert(offered.take(i + 1).drop_last() =~= offered.take(i as int));
                assert(offered.take(i + 1).last() == operations@[i as int]@);
                lemma_rejection_iff_not_admissible(
                    chain_of(before, key_hash_of(operations@[i as int]@.id())),
                    operations@[i as int]@,
                );
            }
            match self.tree.process_operation(&operations[i]) {
                Ok(proof) => {
                    proof {
                        lemma_chained_push(
                            proofs@,
                            T::root_of(old(self).slots()),
                            T::root_of(before),
                            proof,
                        );
                    }
                    let ghost collected = proofs@;
                    proofs.push(proof);
                    assert(proofs@.drop_last() =~= collected);
                    stats.applied += 1;
                    assert(self.slots() == step(before, operations@[i as int]@));
                    proof {
                        lost = earlier.push(false);
                    }
                },
                Err(TreeError::Rejected(_)) => {
                    stats.rejected += 1;
                    assert(self.slots() == step(before, operations@[i as int]@));
                    proof {
                        lost = earlier.push(false);
                    }
                },
                Err(TreeError::Storage) => {
                    stats.unavailable += 1;
                    proof {
                        lost = earlier.push(true);
                    }
                },
            }
            assert(lost.drop_last() =~= earlier);
            i += 1;
        }
        assert(views(operations@).take(i as int) =~= views(operations@));
        proof {
            if stats.unavailable == 0 {
                lemma_nothing_lost(old(self).slots(), views(operations@), lost, proofs@);
            }
        }
        self.last_block = stats;
        proofs
    }

    /// Processes a published epoch: checks that it is the one that comes
    /// next and that it starts from the commitment on record, replays the
    /// waiting operations, checks that this leads to the published
    /// commitment, records that commitment for the next epoch and advances
    /// the counter. An epoch before the current one is ignored.
    pub fn process_epoch(
        &mut self,
        epoch: &FinalizedEpoch,
        buffered_operations: &mut Vec<Operation>,
    ) -> (out: Result<EpochOutcome, ProverError>)
        requires
            old(self).inv(),
        ensures
            final(self).inv(),
            final(self).cfg == old(self).cfg,
            final(self).pending_operations == old(self).pending_operations,
            epoch_outcome::<T>(
                old(self).model(old(buffered_operations)@),
                final(self).model(final(buffered_operations)@),
                epoch@,
                final(self).last_block.unavailable == 0,
                out,
            ),
            old(buffered_operations)@.len() == 0 ==> final(self).last_block.unavailable == 0,
            match out {
                Ok(EpochOutcome::AlreadyProcessed)
                | Err(ProverError::EpochHeightMismatch { .. })
                | Err(ProverError::PrevCommitmentMismatch { .. }) => {
                    &&& final(buffered_operations)@ == old(buffered_operations)@
                    &&& final(self).last_block.unavailable == 0
                },
                _ => true,
            },
            final(self).last_block.unavailable == 0 ==> match out {
                Ok(_) => epoch_step::<T>(old(self).model(old(buffered_operations)@), epoch@) == Ok::<
                    SyncModel,
                    ProverError,
                >(final(self).model(final(buffered_operations)@)),
                Err(e) => e.is_outage() || epoch_step::<T>(
                    old(self).model(old(buffered_operations)@),
                    epoch@,
                ) == Err::<SyncModel, ProverError>(e),
            },
    {
        self.last_block = BlockStats { applied: 0, rejected: 0, unavailable: 0 };
        let current_epoch = match self.db.get_epoch() {
            Ok(current_epoch) => current_epoch,
            Err(e) => {
                return Err(ProverError::Storage(e));
            },
        };
        if already_processed(epoch, current_epoch) {
            return Ok(EpochOutcome::AlreadyProcessed);
        }
        let prev_commitment = match self.db.get_commitment(current_epoch) {
            Ok(prev_commitment) => prev_commitment,
            Err(e) => {
                return Err(ProverError::Storage(e));
            },
        };
        match check_epoch_start(epoch, current_epoch, &prev_commitment) {
            Ok(()) => {},
            Err(e) => {
                return Err(e);
            },
        }
        let mut all_ops: Vec<Operation> = Vec::new();
        core::mem::swap(buffered_operations, &mut all_ops);
        if all_ops.len() > 0 {
            self.execute_block(all_ops);
        } else {
            assert(views(all_ops@) =~= Seq::<OperationView>::empty());
        }
        let new_commitment = match self.get_commitment() {
            Ok(new_commitment) => new_commitment,
            Err(e) => {
                return Err(e);
            },
        };
        let next_epoch = match check_epoch_end(epoch, current_epoch, &new_commitment) {
            Ok(next_epoch) => next_epoch,
            Err(e) => {
                return Err(e);
            },
        };
        match self.db.set_commitment(next_epoch, &new_commitment) {
            Ok(()) => {},
            Err(e) => {
                return Err(ProverError::Storage(e));
            },
        }
        match self.db.set_epoch(next_epoch) {
            Ok(()) => {},
            Err(e) => {
                return Err(ProverError::Storage(e));
            },
        }
        assert(views(buffered_operations@) =~= Seq::<OperationView>::empty());
        Ok(EpochOutcome::Applied)
    }

    /// The first steps of finalizing an epoch of the node's own: replays
    /// the operations into the directory, skipping those that fail, and
    /// gathers the root before, the root after and the evidence in between
    /// for the proof system.
    pub fn finalize_new_epoch(&mut self, operations: Vec<Operation>) -> (out: Result<
        Batch,
        ProverError,
    >)
        requires
            old(self).inv(),
        ensures
            final(self).inv(),
            final(self).db == old(self).db,
            final(self).cfg == old(self).cfg,
            final(self).pending_operations == old(self).pending_operations,
            match out {
                Ok(batch) => {
                    &&& final(self).last_block.applied + final(self).last_block.rejected
                        + final(self).last_block.unavailable == operations@.len()
                    &&& exists|lost: Seq<bool>| #[trigger]
                        block_outcome(
                            old(self).slots(),
                            views(operations@),
                            lost,
                            final(self).slots(),
                            batch.proofs@,
                            final(self).last_block,
                        )
                    &&& final(self).last_block.unavailable == 0 ==> {
                        &&& final(self).slots() == replay(old(self).slots(), views(operations@))
                        &&& evidence_of(old(self).slots(), views(operations@), batch.proofs@)
                    }
                    &&& batch.prev_root@ == T::root_of(old(self).slots())
                    &&& batch.new_root@ == T::root_of(final(self).slots())
                    &&& batch.proofs@.len() == final(self).last_block.applied
                    &&& batch.valid()
                },
                Err(e) => e == ProverError::TreeUnavailable,
            },
    {
        let prev_root = match self.get_commitment() {
            Ok(root) => root,
            Err(e) => {
                return Err(e);
            },
        };
        let proofs = self.execute_block(operations);
        let new_root = match self.get_commitment() {
            Ok(root) => root,
            Err(e) => {
                return Err(e);
            },
        };
        Ok(Batch { prev_root, new_root, proofs })
    }

    /// Builds the record of a finalized epoch from the proof that the proof
    /// system returned for its batch, and signs it with the node's key.
    /// Every verifying key that belongs to the node's key accepts the
    /// record.
    pub fn prove_epoch(
        &self,
        epoch_height: u64,
        prev_commitment: Digest,
        new_commitment: Digest,
        proof: Vec<u8>,
    ) -> (epoch: FinalizedEpoch)
        ensures
            epoch@.height == epoch_height,
            epoch@.prev_commitment == prev_commitment@,
            epoch@.current_commitment == new_commitment@,
            epoch@.proof == proof@,
            epoch@.signature is Some,
            epoch@.signature->Some_0.bytes() == self.cfg.key.signature_bytes(epoch@.payload()),
            self.cfg.key is Ed25519 <==> epoch@.signature->Some_0 is Ed25519,
            forall|vk: VerifyingKey|
                vk.bytes() == self.cfg.key.public_bytes() && (vk is Ed25519 <==> self.cfg.key
                    is Ed25519) ==> #[trigger] epoch@.signed_by(vk),
    {
        let mut epoch = FinalizedEpoch {
            height: epoch_height,
            prev_commitment,
            current_commitment: new_commitment,
            proof,
            signature: None,
        };
        epoch.insert_signature(&self.cfg.key);
        epoch
    }

    /// The last step of finalizing an epoch of the node's own, once the
    /// record was published: records the new commitment for the next epoch,
    /// then advances the counter, then records the height as synced.
    pub fn record_finalized_epoch(
        &mut self,
        epoch_height: u64,
        new_commitment: &Digest,
        height: u64,
    ) -> (out: Result<(), ProverError>)
        ensures
            final(self).tree == old(self).tree,
            final(self).cfg == old(self).cfg,
            final(self).pending_operations == old(self).pending_operations,
            final(self).last_block == old(self).last_block,
            match out {
                Ok(()) => {
                    &&& epoch_height < u64::MAX
                    &&& final(self).db.state() == old(self).db.state().with_commitment(
                        (epoch_height + 1) as u64,
                        new_commitment@,
                    ).with_epoch((epoch_height + 1) as u64).with_last_synced_height(height)
                },
                Err(ProverError::EpochOverflow) => {
                    &&& epoch_height == u64::MAX
                    &&& final(self).db.state() == old(self).db.state()
                },
                Err(e) => {
                    &&& e is Storage
                    &&& epoch_height < u64::MAX
                    &&& epoch_write_progress(
                        old(self).db.state(),
                        final(self).db.state(),
                        (epoch_height + 1) as u64,
                        new_commitment@,
                    )
                },
            },
    {
        if epoch_height == u64::MAX {
            return Err(ProverError::EpochOverflow);
        }
        let new_epoch_height = epoch_height + 1;
        match self.db.set_commitment(new_epoch_height, new_commitment) {
            Ok(()) => {},
            Err(e) => {
                return Err(ProverError::Storage(e));
            },
        }
        match self.db.set_epoch(new_epoch_height) {
            Ok(()) => {},
            Err(e) => {
                return Err(ProverError::Storage(e));
            },
        }
        match self.db.set_last_synced_height(height) {
            Ok(()) => Ok(()),
            Err(e) => Err(ProverError::Storage(e)),
        }
    }

    /// Processes what the data availability layer holds at `height`: a
    /// published epoch is processed first; if there is none, the node
    /// follows the layer in real time, it is configured to prove and
    /// operations are waiting, the node starts an epoch of its own from
    /// them; then the operations of the height join the waiting ones. If no
    /// epoch of the node's own was started, the height is recorded as
    /// synced. If one was, recording waits until that epoch is published.
    pub fn process_da_height(
        &mut self,
        height: u64,
        operations: Vec<Operation>,
        epoch_result: Option<FinalizedEpoch>,
        buffered_operations: &mut Vec<Operation>,
        is_real_time: bool,
    ) -> (out: Result<HeightStep, ProverError>)
        requires
            old(self).inv(),
        ensures
            final(self).inv(),
            final(self).cfg == old(self).cfg,
            final(self).pending_operations == old(self).pending_operations,
            height_outcome::<T>(
                old(self).model(old(buffered_operations)@),
                final(self).model(final(buffered_operations)@),
                height_data(height, operations@, epoch_result),
                wants_finalization(
                    old(self).cfg.prover,
                    is_real_time,
                    epoch_result is Some,
                    old(buffered_operations)@.len() as int,
                ),
                final(self).last_block.applied as int,
                final(self).last_block.unavailable == 0,
                out,
            ),
            old(buffered_operations)@.len() == 0 ==> final(self).last_block.unavailable == 0,
            epoch_result is None && !wants_finalization(
                old(self).cfg.prover,
                is_real_time,
                false,
                old(buffered_operations)@.len() as int,
            ) ==> final(self).slots() == old(self).slots() && final(self).last_block.unavailable
                == 0,
            final(self).last_block.unavailable == 0 ==> match out {
                Ok(HeightStep::Done) => height_step::<T>(
                    old(self).model(old(buffered_operations)@),
                    height_data(height, operations@, epoch_result),
                ) == Ok::<SyncModel, ProverError>(final(self).model(final(buffered_operations)@)),
                Ok(HeightStep::Finalize { .. }) => true,
                Err(e) => e.is_outage() || height_step::<T>(
                    old(self).model(old(buffered_operations)@),
                    height_data(height, operations@, epoch_result),
                ) == Err::<SyncModel, ProverError>(e),
            },
    {
        self.last_block = BlockStats { applied: 0, rejected: 0, unavailable: 0 };
        let mut operations = operations;
        let current_epoch = match self.db.get_epoch() {
            Ok(current_epoch) => current_epoch,
            Err(e) => {
                return Err(ProverError::Storage(e));
            },
        };
        let mut draft: Option<Batch> = None;
        match &epoch_result {
            Some(epoch) => {
                match self.process_epoch(epoch, buffered_operations) {
                    Ok(_) => {},
                    Err(e) => {
                        return Err(e);
                    },
                }
            },
            None => {
                if should_finalize(&self.cfg, is_real_time, false, buffered_operations.len()) {
                    let mut all_ops: Vec<Operation> = Vec::new();
                    core::mem::swap(buffered_operations, &mut all_ops);
                    match self.finalize_new_epoch(all_ops) {
                        Ok(batch) => {
                            draft = Some(batch);
                        },
                        Err(e) => {
                            return Err(e);
                        },
                    }
                }
            },
        }
        let ghost waiting = views(buffered_operations@);
        let ghost arrived = views(operations@);
        buffered_operations.append(&mut operations);
        assert(views(buffered_operations@) =~= waiting + arrived);
        match draft {
            Some(batch) => {
                assert(waiting =~= Seq::<OperationView>::empty());
                assert(views(buffered_operations@) =~= arrived);
                Ok(HeightStep::Finalize { epoch_height: current_epoch, batch })
            },
            None => {
                match self.db.set_last_synced_height(height) {
                    Ok(()) => Ok(HeightStep::Done),
                    Err(e) => Err(ProverError::Storage(e)),
                }
            },
        }
    }

    /// Prepares the store for syncing: if the epoch counter stands at 0,
    /// the commitment of the directory as it is now is recorded for epoch 0.
    pub fn begin_sync(&mut self) -> (out: Result<(), ProverError>)
        requires
            old(self).inv(),
        ensures
            final(self).tree == old(self).tree,
            final(self).cfg == old(self).cfg,
            final(self).pending_operations == old(self).pending_operations,
            final(self).last_block == old(self).last_block,
            match out {
                Ok(()) => old(self).db.state().epoch is Some && final(self).db.state()
                    == if old(self).db.state().epoch == Some(0u64) {
                    old(self).db.state().with_commitment(0, T::root_of(old(self).slots()))
                } else {
                    old(self).db.state()
                },
                Err(e) => e.is_outage() && final(self).db.state() == old(self).db.state(),
            },
    {
        let saved_epoch = match self.db.get_epoch() {
            Ok(saved_epoch) => saved_epoch,
            Err(e) => {
                return Err(ProverError::Storage(e));
            },
        };
        if saved_epoch == 0 {
            let initial_commitment = match self.get_commitment() {
                Ok(initial_commitment) => initial_commitment,
                Err(e) => {
                    return Err(e);
                },
            };
            match self.db.set_commitment(0, &initial_commitment) {
                Ok(()) => {},
                Err(e) => {
                    return Err(ProverError::Storage(e));
                },
            }
        }
        Ok(())
    }

    /// The height from which syncing resumes: the last synced height on
    /// record, which is kept; or, if the store reports that none is
    /// recorded, the configured start height, which is then put on record.
    /// Any other failure of the store is passed on.
    pub fn initial_sync_height(&mut self) -> (out: Result<u64, ProverError>)
        ensures
            final(self).tree == old(self).tree,
            final(self).cfg == old(self).cfg,
            final(self).pending_operations == old(self).pending_operations,
            final(self).last_block == old(self).last_block,
            match out {
                Ok(height) => match old(self).db.state().last_synced_height {
                    Some(recorded) => {
                        &&& height == recorded
                        &&& final(self).db.state() == old(self).db.state()
                    },
                    None => {
                        &&& height == old(self).cfg.start_height
                        &&& final(self).db.state() == old(self).db.state().with_last_synced_height(
                            height,
                        )
                    },
                },
                Err(e) => e is Storage && final(self).db.state() == old(self).db.state(),
            },
    {
        match resume_from(self.db.get_last_synced_height(), self.cfg.start_height) {
            Ok(Resumed::Recorded(height)) => Ok(height),
            Ok(Resumed::Fresh(start_height)) => {
                match self.db.set_last_synced_height(start_height) {
                    Ok(()) => Ok(start_height),
                    Err(e) => Err(ProverError::Storage(e)),
                }
            },
            Err(e) => Err(ProverError::Storage(e)),
        }
    }
}

} // verus!
