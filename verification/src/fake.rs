//! A canned stand-in for restic, for tests of everything downstream of the restic
//! client seam. It never spawns a process: each method hands back the response
//! configured for it, once.

use vstd::prelude::*;

use crate::types::{Entry, RepositoryConnection, ResticError, RestoreOutcome, RestoreRequest, Snapshot};

verus! {

/// Returns whatever was configured, one response per call to a given method.
#[derive(Debug)]
pub struct FakeResticClient {
    pub snapshots_response: Option<Result<Vec<Snapshot>, ResticError>>,
    pub tree_response: Option<Result<Vec<Entry>, ResticError>>,
    pub restore_response: Option<Result<RestoreOutcome, ResticError>>,
}

impl FakeResticClient {
    /// A fake with no response configured.
    pub fn new() -> (fake: FakeResticClient)
        ensures
            fake.snapshots_response is None,
            fake.tree_response is None,
            fake.restore_response is None,
    {
        FakeResticClient { snapshots_response: None, tree_response: None, restore_response: None }
    }

    /// Hands back the configured Snapshot listing, which must have been set, and
    /// forgets it.
    pub fn list_snapshots(&mut self, _repo: &RepositoryConnection) -> (result: Result<
        Vec<Snapshot>,
        ResticError,
    >)
        requires
            old(self).snapshots_response is Some,
        ensures
            Some(result) == old(self).snapshots_response,
            final(self).snapshots_response is None,
            final(self).tree_response == old(self).tree_response,
            final(self).restore_response == old(self).restore_response,
    {
        self.snapshots_response.take().unwrap()
    }

    /// Hands back the configured tree listing, which must have been set, and forgets
    /// it.
    pub fn list_tree(&mut self, _repo: &RepositoryConnection, _snapshot_id: &str, _path: &str) -> (result:
        Result<Vec<Entry>, ResticError>)
        requires
            old(self).tree_response is Some,
        ensures
            Some(result) == old(self).tree_response,
            final(self).tree_response is None,
            final(self).snapshots_response == old(self).snapshots_response,
            final(self).restore_response == old(self).restore_response,
    {
        self.tree_response.take().unwrap()
    }

    /// Hands back the configured Restore outcome, which must have been set, and
    /// forgets it.
    pub fn restore(&mut self, _repo: &RepositoryConnection, _request: &RestoreRequest) -> (result:
        Result<RestoreOutcome, ResticError>)
        requires
            old(self).restore_response is Some,
        ensures
            Some(result) == old(self).restore_response,
            final(self).restore_response is None,
            final(self).snapshots_response == old(self).snapshots_response,
            final(self).tree_response == old(self).tree_response,
    {
        self.restore_response.take().unwrap()
    }
}

} // verus!
