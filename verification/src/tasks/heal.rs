//! Heal a wounded agent.

use crate::game::{CreepInfo, ObjectId};
use crate::metadata::World;
use crate::tasks::task::{act_verdict, approach, approach_spec, expired, is_expired, move_verdict, moved_count, settle_action, settle_move, Action, Report, Step, StepView};
use vstd::prelude::*;

verus! {

/// The healing of one agent.
#[derive(Clone, Copy, Debug, PartialEq, Eq, Structural)]
pub struct HealTask {
    pub target: ObjectId,
    /// Moves in a row that the world refused for good.
    pub move_failure_count: u32,
}

impl HealTask {
    /// A fresh task, with no move refused so far.
    pub fn new(target: ObjectId) -> (task: HealTask)
        ensures
            task.target == target,
            task.move_failure_count == 0,
    {
        HealTask { target, move_failure_count: 0 }
    }

    /// A target that is gone cancels; a target at full health completes,
    /// and so does an agent with no room left in its store; otherwise heal
    /// from beside the target or move towards it.
    pub open spec fn step_spec(self, creep: CreepInfo, world: World) -> StepView {
        match world.resolve_spec(self.target) {
            None => StepView::Cancel,
            Some(t) => if creep.store.free == 0 || t.hits >= t.hits_max {
                StepView::Complete
            } else {
                approach_spec(creep.pos, t.pos, Action::Heal(self.target))
            },
        }
    }

    /// What one step decides: an agent that is about to die gives up; any
    /// other does what `step_spec` says.
    pub open spec fn execute_spec(self, creep: CreepInfo, world: World) -> StepView {
        if expired(creep) {
            StepView::Cancel
        } else {
            self.step_spec(creep, world)
        }
    }

    /// Decides the step for `creep`.
    pub fn execute(&self, creep: &CreepInfo, world: &World) -> (step: Step)
        ensures
            step@ == self.execute_spec(*creep, *world),
    {
        if is_expired(creep) {
            return Step::Cancel;
        }
        match world.resolve(self.target) {
            None => Step::Cancel,
            Some(t) => {
                if creep.store.free == 0 || t.hits >= t.hits_max {
                    Step::Complete
                } else {
                    approach(creep.pos, t.pos, Action::Heal(self.target))
                }
            },
        }
    }

    /// What the world's answer leads to: see `act_verdict` for the answer
    /// to the action itself and `move_verdict` for the answer to a move.
    pub open spec fn resume_spec(self, world: World, action: Action, report: Report) -> StepView {
        if action is Heal {
            act_verdict(report, world.resolve_spec(self.target))
        } else {
            move_verdict(self.move_failure_count, action, report)
        }
    }

    /// The task after the world's answer: it counts the moves in a row that
    /// were refused for good.
    pub open spec fn after_resume(self, action: Action, report: Report) -> HealTask {
        HealTask {
            target: self.target,
            move_failure_count: moved_count(self.move_failure_count, action, report),
        }
    }

    /// Takes the world's answer to the action that the last step named.
    pub fn resume(&mut self, world: &World, action: Action, report: &Report) -> (step: Step)
        ensures
            step@ == old(self).resume_spec(*world, action, *report),
            *final(self) == old(self).after_resume(action, *report),
    {
        match action {
            Action::Heal(_) => settle_action(report, world.resolve(self.target)),
            _ => settle_move(&mut self.move_failure_count, action, report),
        }
    }
}

} // verus!
