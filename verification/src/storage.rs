//! The persistence that the node consumes: an epoch counter, one commitment
//! per epoch and the last synced height, each written atomically.

use crate::digest::Digest;
use std::collections::HashMap;
use vstd::prelude::*;

verus! {

/// What a store holds, as the node sees it.
pub struct StoreState {
    /// The epoch counter, once written.
    pub epoch: Option<u64>,
    /// The commitment recorded for each epoch.
    pub commitments: Map<u64, Seq<u8>>,
    /// The last height of the data availability layer that was processed.
    pub last_synced_height: Option<u64>,
}

impl StoreState {
    /// The store in which nothing has been written.
    pub open spec fn empty() -> StoreState {
        StoreState { epoch: None, commitments: Map::empty(), last_synced_height: None }
    }

    /// The store after the epoch counter was written.
    pub open spec fn with_epoch(self, epoch: u64) -> StoreState {
        StoreState { epoch: Some(epoch), ..self }
    }

    /// The store after the commitment of `epoch` was written.
    pub open spec fn with_commitment(self, epoch: u64, commitment: Seq<u8>) -> StoreState {
        StoreState { commitments: self.commitments.insert(epoch, commitment), ..self }
    }

    /// The store after the last synced height was written.
    pub open spec fn with_last_synced_height(self, height: u64) -> StoreState {
        StoreState { last_synced_height: Some(height), ..self }
    }
}

/// Why a read or a write of the store did not succeed.
#[derive(Clone, Copy, Debug, PartialEq, Eq, Structural)]
pub enum StorageError {
    /// Nothing is recorded under the key.
    NotFound,
    /// The store could not be read or written.
    Unavailable,
}

/// A durable key-value store. A read that succeeds returns what the store
/// holds, and a read reports `NotFound` only where nothing is recorded; a
/// write that succeeds changes the one key and nothing else; a write that
/// fails changes nothing.
pub trait Database: Sized {
    /// What the store holds. Contracts speak of it; it is never called when
    /// the program runs.
    spec fn state(&self) -> StoreState;

    /// Reads the epoch counter.
    fn get_epoch(&self) -> (out: Result<u64, StorageError>)
        ensures
            out matches Ok(epoch) ==> self.state().epoch == Some(epoch),
            out matches Err(StorageError::NotFound) ==> self.state().epoch is None,
    ;

    /// Writes the epoch counter.
    fn set_epoch(&mut self, epoch: u64) -> (out: Result<(), StorageError>)
        ensures
            out is Ok ==> final(self).state() == old(self).state().with_epoch(epoch),
            out is Err ==> final(self).state() == old(self).state(),
    ;

    /// Reads the commitment recorded for `epoch`.
    fn get_commitment(&self, epoch: u64) -> (out: Result<Digest, StorageError>)
        ensures
            out matches Ok(commitment) ==> self.state().commitments.contains_key(epoch)
                && self.state().commitments[epoch] == commitment@,
            out matches Err(StorageError::NotFound) ==> !self.state().commitments.contains_key(
                epoch,
            ),
    ;

    /// Records `commitment` for `epoch`.
    fn set_commitment(&mut self, epoch: u64, commitment: &Digest) -> (out: Result<
        (),
        StorageError,
    >)
        ensures
            out is Ok ==> final(self).state() == old(self).state().with_commitment(
                epoch,
                commitment@,
            ),
            out is Err ==> final(self).state() == old(self).state(),
    ;

    /// Reads the last synced height.
    fn get_last_synced_height(&self) -> (out: Result<u64, StorageError>)
        ensures
            out matches Ok(height) ==> self.state().last_synced_height == Some(height),
            out matches Err(StorageError::NotFound) ==> self.state().last_synced_height is None,
    ;

    /// Writes the last synced height.
    fn set_last_synced_height(&mut self, height: u64) -> (out: Result<(), StorageError>)
        ensures
            out is Ok ==> final(self).state() == old(self).state().with_last_synced_height(height),
            out is Err ==> final(self).state() == old(self).state(),
    ;
}

/// A store in memory. No read or write of it is ever unavailable.
pub struct InMemoryDatabase {
    epoch: Option<u64>,
    commitments: HashMap<u64, Digest>,
    last_synced_height: Option<u64>,
}

impl InMemoryDatabase {
    /// The commitments, each as its bytes.
    pub closed spec fn commitment_bytes(&self) -> Map<u64, Seq<u8>> {
        self.commitments@.map_values(|d: Digest| d@)
    }

    /// A store in which nothing has been written.
    pub fn new() -> (db: InMemoryDatabase)
        ensures
            db.state() == StoreState::empty(),
    {
        let db = InMemoryDatabase {
            epoch: None,
            commitments: HashMap::new(),
            last_synced_height: None,
        };
        assert(db.commitment_bytes() =~= Map::empty());
        db
    }
}

impl Database for InMemoryDatabase {
    closed spec fn state(&self) -> StoreState {
        StoreState {
            epoch: self.epoch,
            commitments: self.commitment_bytes(),
            last_synced_height: self.last_synced_height,
        }
    }

    fn get_epoch(&self) -> (out: Result<u64, StorageError>)
        ensures
            self.state().epoch is None ==> out == Err::<u64, StorageError>(StorageError::NotFound),
            self.state().epoch is Some ==> out is Ok,
    {
        match self.epoch {
            Some(epoch) => Ok(epoch),
            None => Err(StorageError::NotFound),
        }
    }

    fn set_epoch(&mut self, epoch: u64) -> (out: Result<(), StorageError>)
        ensures
            out is Ok,
    {
        self.epoch = Some(epoch);
        Ok(())
    }

    fn get_commitment(&self, epoch: u64) -> (out: Result<Digest, StorageError>)
        ensures
            !self.state().commitments.contains_key(epoch) ==> out == Err::<Digest, StorageError>(
                StorageError::NotFound,
            ),
            self.state().commitments.contains_key(epoch) ==> out is Ok,
    {
        match self.commitments.get(&epoch) {
            Some(commitment) => Ok(*commitment),
            None => Err(StorageError::NotFound),
        }
    }

    fn set_commitment(&mut self, epoch: u64, commitment: &Digest) -> (out: Result<
        (),
        StorageError,
    >)
        ensures
            out is Ok,
    {
        self.commitments.insert(epoch, *commitment);
        assert(self.commitment_bytes() =~= old(self).commitment_bytes().insert(epoch, commitment@));
        Ok(())
    }

    fn get_last_synced_height(&self) -> (out: Result<u64, StorageError>)
        ensures
            self.state().last_synced_height is None ==> out == Err::<u64, StorageError>(
                StorageError::NotFound,
            ),
            self.state().last_synced_height is Some ==> out is Ok,
    {
        match self.last_synced_height {
            Some(height) => Ok(height),
            None => Err(StorageError::NotFound),
        }
    }

    fn set_last_synced_height(&mut self, height: u64) -> (out: Result<(), StorageError>)
        ensures
            out is Ok,
    {
        self.last_synced_height = Some(height);
        Ok(())
    }
}

} // verus!
