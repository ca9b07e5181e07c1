//! Build a construction site while the agent holds energy.

use crate::game::{CreepInfo, ObjectId};
use crate::metadata::World;
use crate::tasks::task::{act_verdict, expired, is_expired, move_verdict, moved_count, settle_action, settle_move, Action, Report, Step, StepView};
use vstd::prelude::*;

verus! {

/// Work on one construction site.
#[derive(Clone, Copy, Debug, PartialEq, Eq, Structural)]
pub struct BuildTask {
    pub target: ObjectId,
    /// Moves in a row that the world refused for good.
    pub move_failure_count: u32,
}

impl BuildTask {
    /// A fresh task, with no move refused so far.
    pub fn new(target: ObjectId) -> (task: BuildTask)
        ensures
            task.target == target,
            task.move_failure_count == 0,
    {
        BuildTask { target, move_failure_count: 0 }
    }

    /// A site that is gone cancels; an agent without energy completes;
    /// otherwise build, from wherever the agent stands.
    pub open spec fn step_spec(self, creep: CreepInfo, world: World) -> StepView {
        match world.resolve_spec(self.target) {
            None => StepView::Cancel,
            Some(t) => if creep.store.used == 0 {
                StepView::Complete
            } else {
                StepView::Perform(Action::Build(self.target))
            },
        }
    }

    /// What one step decides: an agent that is about to die gives up; any
    /// other does what `step_spec` says.
    pub open spec fn execute_spec(self, creep: CreepInfo, world: World) -> StepView {
        if expired(creep) {
            StepView::Cancel
        } else {
            self.step_spec(creep, world)
        }
    }

    /// Decides the step for `creep`.
    pub fn execute(&self, creep: &CreepInfo, world: &World) -> (step: Step)
        ensures
            step@ == self.execute_spec(*creep, *world),
    {
        if is_expired(creep) {
            return Step::Cancel;
        }
        match world.resolve(self.target) {
            None => Step::Cancel,
            Some(t) => {
                if creep.store.used == 0 {
                    Step::Complete
                } else {
                    Step::Perform(Action::Build(self.target))
                }
            },
        }
    }

    /// What the world's answer leads to: see `act_verdict` for the answer
    /// to the action itself and `move_verdict` for the answer to a move.
    pub open spec fn resume_spec(self, world: World, action: Action, report: Report) -> StepView {
        if action is Build {
            act_verdict(report, world.resolve_spec(self.target))
        } else {
            move_verdict(self.move_failure_count, action, report)
        }
    }

    /// The task after the world's answer: it counts the moves in a row that
    /// were refused for good.
    pub open spec fn after_resume(self, action: Action, report: Report) -> BuildTask {
        BuildTask {
            target: self.target,
            move_failure_count: moved_count(self.move_failure_count, action, report),
        }
    }

    /// Takes the world's answer to the action that the last step named.
    pub fn resume(&mut self, world: &World, action: Action, report: &Report) -> (step: Step)
        ensures
            step@ == old(self).resume_spec(*world, action, *report),
            *final(self) == old(self).after_resume(action, *report),
    {
        match action {
            Action::Build(_) => settle_action(report, world.resolve(self.target)),
            _ => settle_move(&mut self.move_failure_count, action, report),
        }
    }
}

} // verus!
