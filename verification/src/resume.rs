//! Replaying a transcript of the data availability layer, and what a
//! restart between two heights does to the outcome.
//!
//! A node keeps the operations that wait for the next epoch in memory
//! only, and after a restart it processes the last height on record once
//! more. The laws below say when this leads to the state that an
//! uninterrupted run reaches.

use crate::prover::{epoch_step, height_step, HeightData, ProverError, SyncModel};
use crate::tree::StateTree;
use vstd::prelude::*;

verus! {

/// The node after the heights of `transcript` were processed in order,
/// or the first error on the way.
pub open spec fn sync_replay<T: StateTree>(model: SyncModel, transcript: Seq<HeightData>) -> Result<
    SyncModel,
    ProverError,
>
    decreases transcript.len(),
{
    if transcript.len() == 0 {
        Ok(model)
    } else {
        match sync_replay::<T>(model, transcript.drop_last()) {
            Ok(earlier) => height_step::<T>(earlier, transcript.last()),
            Err(e) => Err(e),
        }
    }
}

/// The node after a restart: what is on record and the directory stay, the
/// waiting operations are gone.
pub open spec fn restarted(model: SyncModel) -> SyncModel {
    SyncModel { store: model.store, slots: model.slots, buffer: Seq::empty() }
}

/// A height leaves nothing behind that a restart would lose: either no
/// operation was waiting when it was processed, or it carried the epoch
/// that was due, so that the waiting operations were replayed.
pub open spec fn restart_safe(model: SyncModel, data: HeightData) -> bool {
    model.buffer.len() == 0 || (data.epoch matches Some(epoch) && model.store.epoch == Some(
        epoch.height,
    ))
}

/// Replaying a transcript in two parts is replaying it as a whole.
pub proof fn lemma_sync_replay_concat<T: StateTree>(
    model: SyncModel,
    first: Seq<HeightData>,
    second: Seq<HeightData>,
)
    ensures
        sync_replay::<T>(model, first + second) == match sync_replay::<T>(model, first) {
            Ok(middle) => sync_replay::<T>(middle, second),
            Err(e) => Err(e),
        },
    decreases second.len(),
{
    if second.len() == 0 {
        assert(first + second =~= first);
    } else {
        lemma_sync_replay_concat::<T>(model, first, second.drop_last());
        assert((first + second).drop_last() =~= first + second.drop_last());
        assert((first + second).last() == second.last());
    }
}

/// Replaying is a function of the starting state and the transcript: two
/// runs from the same state over the same transcript end in the same state,
/// with the same epoch counter and the same commitment for every epoch.
pub proof fn lemma_sync_replay_deterministic<T: StateTree>(
    first: SyncModel,
    second: SyncModel,
    transcript: Seq<HeightData>,
)
    requires
        first.store == second.store,
        first.slots == second.slots,
        first.buffer == second.buffer,
    ensures
        sync_replay::<T>(first, transcript) == sync_replay::<T>(second, transcript),
        sync_replay::<T>(first, transcript) matches Ok(a) ==> sync_replay::<T>(
            second,
            transcript,
        ) matches Ok(b) && a.store.epoch == b.store.epoch && a.store.commitments
            == b.store.commitments,
{
}

/// After a height that is safe for a restart was processed, restarting and
/// processing that height once more changes nothing.
pub proof fn lemma_reprocessing_after_restart<T: StateTree>(model: SyncModel, data: HeightData)
    requires
        restart_safe(model, data),
        height_step::<T>(model, data) is Ok,
    ensures
        height_step::<T>(restarted(height_step::<T>(model, data)->Ok_0), data) == height_step::<T>(
            model,
            data,
        ),
{
    let after = height_step::<T>(model, data)->Ok_0;
    let again = height_step::<T>(restarted(after), data);
    match data.epoch {
        Some(epoch) => {
            let current = model.store.epoch->Some_0;
            if epoch.height < current {
                assert(epoch_step::<T>(model, epoch) == Ok::<SyncModel, ProverError>(model));
                assert(model.buffer =~= Seq::empty());
                assert(again->Ok_0.store =~= after.store);
                assert(again->Ok_0.buffer =~= after.buffer);
            } else {
                let applied = epoch_step::<T>(model, epoch)->Ok_0;
                assert(applied.store.epoch == Some((current + 1) as u64));
                assert(epoch_step::<T>(restarted(after), epoch) == Ok::<SyncModel, ProverError>(
                    restarted(after),
                ));
                assert(again->Ok_0.store =~= after.store);
                assert(again->Ok_0.buffer =~= after.buffer);
            }
        },
        None => {
            assert(model.buffer =~= Seq::empty());
            assert(again->Ok_0.store =~= after.store);
            assert(again->Ok_0.buffer =~= after.buffer);
        },
    }
}

/// A run that is stopped after `k` heights, restarted, and resumed from
/// the last height on record ends where the uninterrupted run ends,
/// provided that height is safe for a restart.
pub proof fn lemma_restart_between_heights<T: StateTree>(
    model: SyncModel,
    transcript: Seq<HeightData>,
    k: int,
)
    requires
        1 <= k <= transcript.len(),
        sync_replay::<T>(model, transcript.take(k)) is Ok,
        restart_safe(sync_replay::<T>(model, transcript.take(k - 1))->Ok_0, transcript[k - 1]),
    ensures
        sync_replay::<T>(
            restarted(sync_replay::<T>(model, transcript.take(k))->Ok_0),
            transcript.skip(k - 1),
        ) == sync_replay::<T>(model, transcript),
{
    let done = transcript.take(k);
    let before = sync_replay::<T>(model, transcript.take(k - 1));
    assert(done.drop_last() =~= transcript.take(k - 1));
    assert(done.last() == transcript[k - 1]);
    assert(before is Ok);
    let stopped = sync_replay::<T>(model, done)->Ok_0;
    assert(height_step::<T>(before->Ok_0, transcript[k - 1]) == Ok::<SyncModel, ProverError>(
        stopped,
    ));
    lemma_reprocessing_after_restart::<T>(before->Ok_0, transcript[k - 1]);
    let again = seq![transcript[k - 1]];
    let rest = transcript.skip(k);
    assert(transcript.skip(k - 1) =~= again + rest);
    assert(again.drop_last() =~= Seq::<HeightData>::empty());
    assert(sync_replay::<T>(restarted(stopped), again.drop_last()) == Ok::<SyncModel, ProverError>(
        restarted(stopped),
    ));
    assert(sync_replay::<T>(restarted(stopped), again) == Ok::<SyncModel, ProverError>(stopped));
    lemma_sync_replay_concat::<T>(restarted(stopped), again, rest);
    assert(transcript =~= done + rest);
    lemma_sync_replay_concat::<T>(model, done, rest);
}

} // verus!
