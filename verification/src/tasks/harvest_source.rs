//! Gather energy from a resource node until the store is nearly full, then
//! deliver.

use crate::game::{CreepInfo, ObjectId};
use crate::metadata::World;
use crate::tasks::harvest::{deliver, deliver_spec};
use crate::tasks::task::{act_verdict, approach, approach_spec, expired, is_expired, move_verdict, moved_count, settle_action, settle_move, Action, Report, Step, StepView};
use vstd::prelude::*;

verus! {

/// An agent with less room than this in its store counts as full.
pub const FULL_MARGIN: i32 = 10;

/// Gathering at one resource node.
#[derive(Clone, Copy, Debug, PartialEq, Eq, Structural)]
pub struct HarvestSourceTask {
    pub target: ObjectId,
    /// Moves in a row that the world refused for good.
    pub move_failure_count: u32,
}

impl HarvestSourceTask {
    /// A fresh task, with no move refused so far.
    pub fn new(target: ObjectId) -> (task: HarvestSourceTask)
        ensures
            task.target == target,
            task.move_failure_count == 0,
    {
        HarvestSourceTask { target, move_failure_count: 0 }
    }

    /// An agent with fewer than `FULL_MARGIN` units of room left is full:
    /// it switches to a transfer to where it takes its energy, or completes
    /// where there is nowhere to take it. For any other agent a node that
    /// is gone cancels; otherwise harvest from beside the node or move
    /// towards it.
    pub open spec fn step_spec(self, creep: CreepInfo, world: World) -> StepView {
        if creep.store.free < FULL_MARGIN {
            deliver_spec(creep, world)
        } else {
            match world.resolve_spec(self.target) {
                None => StepView::Cancel,
                Some(t) => approach_spec(creep.pos, t.pos, Action::Harvest(self.target)),
            }
        }
    }

    /// What one step decides: an agent that is about to die gives up; any
    /// other does what `step_spec` says.
    pub open spec fn execute_spec(self, creep: CreepInfo, world: World) -> StepView {
        if expired(creep) {
            StepView::Cancel
        } else {
            self.step_spec(creep, world)
        }
    }

    /// Decides the step for `creep`.
    pub fn execute(&self, creep: &CreepInfo, world: &World) -> (step: Step)
        ensures
            step@ == self.execute_spec(*creep, *world),
    {
        if is_expired(creep) {
            return Step::Cancel;
        }
        if creep.store.free < FULL_MARGIN {
            return deliver(creep, world);
        }
        match world.resolve(self.target) {
            None => Step::Cancel,
            Some(t) => approach(creep.pos, t.pos, Action::Harvest(self.target)),
        }
    }

    /// What the world's answer leads to: see `act_verdict` for the answer
    /// to the action itself and `move_verdict` for the answer to a move.
    pub open spec fn resume_spec(self, world: World, action: Action, report: Report) -> StepView {
        if action is Harvest {
            act_verdict(report, world.resolve_spec(self.target))
        } else {
            move_verdict(self.move_failure_count, action, report)
        }
    }

    /// The task after the world's answer: it counts the moves in a row that
    /// were refused for good.
    pub open spec fn after_resume(self, action: Action, report: Report) -> HarvestSourceTask {
        HarvestSourceTask {
            target: self.target,
            move_failure_count: moved_count(self.move_failure_count, action, report),
        }
    }

    /// Takes the world's answer to the action that the last step named.
    pub fn resume(&mut self, world: &World, action: Action, report: &Report) -> (step: Step)
        ensures
            step@ == old(self).resume_spec(*world, action, *report),
            *final(self) == old(self).after_resume(action, *report),
    {
        match action {
            Action::Harvest(_) => settle_action(report, world.resolve(self.target)),
            _ => settle_move(&mut self.move_failure_count, action, report),
        }
    }
}

} // verus!
