//! The life of a drawlist as the coordinator sees it, and how many drawlists
//! of a pool are at each stage.

use crate::command::{ObjectKey, ReplyId, NO_OBJECT};
use vstd::prelude::*;

verus! {

/// Where a drawlist stands between two submissions.
#[derive(Clone, Copy, Debug, PartialEq, Eq, Structural)]
pub enum Stage {
    /// Idle, in the coordinator's pool.
    Free,
    /// With a worker.
    Bound,
    /// Back from the worker, queued for submission.
    Prepared,
}

/// The state of one drawlist of the pool.
///
/// A drawlist is free, then bound to a scene and handed to a worker, then
/// prepared and back with the coordinator, then submitted, which frees it.
#[derive(Clone, Copy, Debug, PartialEq, Eq, Structural)]
pub enum DrawlistState {
    /// In the idle pool; bound to nothing.
    Free,
    /// Bound to `scene` and `camera` and owned by the worker that announced
    /// itself as `reply`.
    Bound { reply: ReplyId, scene: ObjectKey, camera: ObjectKey },
    /// Prepared for `scene` and `camera`, owned by the coordinator and waiting
    /// to be submitted.
    Prepared { scene: ObjectKey, camera: ObjectKey },
}

impl DrawlistState {
    pub open spec fn stage(self) -> Stage {
        match self {
            DrawlistState::Free => Stage::Free,
            DrawlistState::Bound { .. } => Stage::Bound,
            DrawlistState::Prepared { .. } => Stage::Prepared,
        }
    }

    /// A drawlist that has left the pool is bound to a scene.
    pub open spec fn has_scene(self) -> bool {
        match self {
            DrawlistState::Free => true,
            DrawlistState::Bound { scene, .. } => scene != NO_OBJECT,
            DrawlistState::Prepared { scene, .. } => scene != NO_OBJECT,
        }
    }

    /// The worker that the drawlist is with, if it is with one.
    pub open spec fn holder(self) -> Option<ReplyId> {
        match self {
            DrawlistState::Bound { reply, .. } => Some(reply),
            _ => None,
        }
    }

    /// The drawlist is with the worker `reply`.
    pub open spec fn held_by(self, reply: ReplyId) -> bool {
        self matches DrawlistState::Bound { reply: holder, .. } && holder == reply
    }

    /// The stage of this drawlist.
    pub fn get_stage(&self) -> (stage: Stage)
        ensures
            stage == self.stage(),
    {
        match self {
            DrawlistState::Free => Stage::Free,
            DrawlistState::Bound { .. } => Stage::Bound,
            DrawlistState::Prepared { .. } => Stage::Prepared,
        }
    }
}

/// How many drawlists of `slots` are at `stage`.
pub open spec fn count(slots: Seq<DrawlistState>, stage: Stage) -> nat
    decreases slots.len(),
{
    if slots.len() == 0 {
        0
    } else {
        count(slots.drop_last(), stage) + if slots.last().stage() == stage {
            1nat
        } else {
            0nat
        }
    }
}

/// Some drawlist of `slots` is with the worker `reply`.
pub open spec fn holds(slots: Seq<DrawlistState>, reply: ReplyId) -> bool {
    exists|d: int| 0 <= d < slots.len() && #[trigger] slots[d].held_by(reply)
}

/// Every drawlist is at exactly one stage, so the three counts add up to the
/// size of the pool.
pub proof fn lemma_count_partition(slots: Seq<DrawlistState>)
    ensures
        count(slots, Stage::Free) + count(slots, Stage::Bound) + count(slots, Stage::Prepared)
            == slots.len(),
    decreases slots.len(),
{
    if slots.len() > 0 {
        lemma_count_partition(slots.drop_last());
    }
}

/// Moving one drawlist to another state takes one from the count of the
/// stage it leaves and adds one to the count of the stage it enters.
pub proof fn lemma_count_update(
    slots: Seq<DrawlistState>,
    d: int,
    state: DrawlistState,
    stage: Stage,
)
    requires
        0 <= d < slots.len(),
    ensures
        count(slots.update(d, state), stage) + (if slots[d].stage() == stage {
            1nat
        } else {
            0nat
        }) == count(slots, stage) + (if state.stage() == stage {
            1nat
        } else {
            0nat
        }),
    decreases slots.len(),
{
    let after = slots.update(d, state);
    if d == slots.len() - 1 {
        assert(after.drop_last() == slots.drop_last());
    } else {
        assert(after.drop_last() == slots.drop_last().update(d, state));
        lemma_count_update(slots.drop_last(), d, state, stage);
    }
}

/// A drawlist at a stage makes the count of that stage positive.
pub proof fn lemma_count_positive(slots: Seq<DrawlistState>, d: int, stage: Stage)
    requires
        0 <= d < slots.len(),
        slots[d].stage() == stage,
    ensures
        count(slots, stage) >= 1,
    decreases slots.len(),
{
    if d < slots.len() - 1 {
        lemma_count_positive(slots.drop_last(), d, stage);
    }
}

/// A pool in which no drawlist is at `stage` counts none there.
pub proof fn lemma_count_all_not(slots: Seq<DrawlistState>, stage: Stage)
    requires
        forall|d: int| 0 <= d < slots.len() ==> (#[trigger] slots[d]).stage() != stage,
    ensures
        count(slots, stage) == 0,
    decreases slots.len(),
{
    if slots.len() > 0 {
        assert forall|d: int| 0 <= d < slots.drop_last().len() implies (
        #[trigger] slots.drop_last()[d]).stage() != stage by {
            assert(slots.drop_last()[d] == slots[d]);
        }
        lemma_count_all_not(slots.drop_last(), stage);
    }
}

/// A stage that counts zero holds no drawlist.
pub proof fn lemma_count_zero(slots: Seq<DrawlistState>, stage: Stage)
    requires
        count(slots, stage) == 0,
    ensures
        forall|d: int| 0 <= d < slots.len() ==> (#[trigger] slots[d]).stage() != stage,
    decreases slots.len(),
{
    if slots.len() > 0 {
        lemma_count_zero(slots.drop_last(), stage);
        assert forall|d: int| 0 <= d < slots.len() implies (#[trigger] slots[d]).stage()
            != stage by {
            if d < slots.len() - 1 {
                assert(slots.drop_last()[d] == slots[d]);
            }
        }
    }
}

/// A pool in which every drawlist is at `stage` counts all of them there.
pub proof fn lemma_count_all(slots: Seq<DrawlistState>, stage: Stage)
    requires
        forall|d: int| 0 <= d < slots.len() ==> (#[trigger] slots[d]).stage() == stage,
    ensures
        count(slots, stage) == slots.len(),
    decreases slots.len(),
{
    if slots.len() > 0 {
        assert forall|d: int| 0 <= d < slots.drop_last().len() implies (
        #[trigger] slots.drop_last()[d]).stage() == stage by {
            assert(slots.drop_last()[d] == slots[d]);
        }
        lemma_count_all(slots.drop_last(), stage);
    }
}

} // verus!
