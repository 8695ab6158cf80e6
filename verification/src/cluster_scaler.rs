//! The actuator of one cluster: it turns a command into the patch that
//! sets a pool's replicas.

use vstd::prelude::*;
use crate::basic_types::CircuitIdRoundTuple;
use crate::cluster_watcher::{ClusterState, PoolReplicas};
use crate::fleet_model::CommandView;
use crate::fleet_scaler::ScaleCommand;

verus! {

/// The change that is sent to the cluster: the replicas that a pool
/// shall have. It names the count itself, not a difference.
#[derive(Clone, Copy, Debug, PartialEq, Eq, Structural, Hash)]
pub struct ReplicaPatch {
    pub pool: CircuitIdRoundTuple,
    pub replicas: u32,
}

/// Why a command was not carried out.
#[derive(Clone, Copy, Debug, PartialEq, Eq, Structural, Hash)]
pub enum ScaleError {
    /// The command is for another cluster.
    WrongCluster,
    /// The cluster did not take the patch.
    PatchFailed,
}

/// The pools after the patch: every entry for the patch's pool has the
/// patch's replicas, and the others are as they were.
pub open spec fn patched(pools: Seq<PoolReplicas>, patch: ReplicaPatch) -> Seq<PoolReplicas> {
    Seq::new(
        pools.len(),
        |i: int|
            if pools[i].kind == patch.pool {
                PoolReplicas { kind: patch.pool, replicas: patch.replicas }
            } else {
                pools[i]
            },
    )
}

/// The patch that carries out a command in the named cluster.
pub open spec fn patch_of(cluster_name: Seq<char>, command: CommandView) -> Result<
    ReplicaPatch,
    ScaleError,
> {
    if command.cluster_name == cluster_name {
        Ok(ReplicaPatch { pool: command.pool, replicas: command.target_replicas })
    } else {
        Err(ScaleError::WrongCluster)
    }
}

/// What the caller is told once the cluster has answered the one patch
/// that was sent: success, or the failure as it is, with no second try.
pub open spec fn outcome_of(accepted: bool) -> Result<(), ScaleError> {
    if accepted {
        Ok(())
    } else {
        Err(ScaleError::PatchFailed)
    }
}

/// A patch applied twice leaves the pools as it leaves them applied once.
pub proof fn law_patch_is_idempotent(pools: Seq<PoolReplicas>, patch: ReplicaPatch)
    ensures
        patched(patched(pools, patch), patch) == patched(pools, patch),
{
    assert(patched(patched(pools, patch), patch) =~= patched(pools, patch));
}

/// The scaler of one cluster.
pub struct Scaler {
    cluster_name: String,
}

impl Scaler {
    /// The name of the cluster that the scaler acts on.
    pub closed spec fn cluster(&self) -> Seq<char> {
        self.cluster_name@
    }

    /// A scaler for the named cluster.
    pub fn new(cluster_name: String) -> (scaler: Scaler)
        ensures
            scaler.cluster() == cluster_name@,
    {
        Scaler { cluster_name }
    }

    /// The one patch that carries out the command. A command for another
    /// cluster is turned down.
    pub fn patch_for(&self, command: &ScaleCommand) -> (patch: Result<ReplicaPatch, ScaleError>)
        ensures
            patch == patch_of(self.cluster(), command@),
    {
        if command.cluster_name == self.cluster_name {
            Ok(ReplicaPatch { pool: command.pool, replicas: command.target_replicas })
        } else {
            Err(ScaleError::WrongCluster)
        }
    }

    /// What the caller is told of the patch that was sent.
    pub fn outcome(&self, accepted: bool) -> (told: Result<(), ScaleError>)
        ensures
            told == outcome_of(accepted),
    {
        if accepted {
            Ok(())
        } else {
            Err(ScaleError::PatchFailed)
        }
    }
}

impl ClusterState {
    /// Sets the replicas of the patch's pool in this picture of the cluster.
    pub fn apply_patch(&mut self, patch: ReplicaPatch)
        ensures
            final(self)@.pools == patched(old(self)@.pools, patch),
            final(self)@.cluster_name == old(self)@.cluster_name,
            final(self)@.reported_at == old(self)@.reported_at,
    {
        let ghost before = self@.pools;
        let mut i: usize = 0;
        while i < self.pools.len()
            invariant
                0 <= i <= self.pools.len(),
                self.pools.len() == before.len(),
                self@.cluster_name == old(self)@.cluster_name,
                self@.reported_at == old(self)@.reported_at,
                forall|j: int| 0 <= j < i ==> self.pools@[j] == patched(before, patch)[j],
                forall|j: int| i <= j < self.pools.len() ==> self.pools@[j] == before[j],
            decreases self.pools.len() - i,
        {
            if self.pools[i].kind == patch.pool {
                self.pools.set(i, PoolReplicas { kind: patch.pool, replicas: patch.replicas });
            }
            i += 1;
        }
        proof {
            assert(self.pools@ =~= patched(before, patch));
        }
    }
}

} // verus!
