//! Walk up to an object.

use crate::game::{CreepInfo, ObjectId};
use crate::metadata::World;
use crate::tasks::task::{expired, is_expired, move_verdict, moved_count, settle_move, Action, Report, Step, StepView};
use vstd::prelude::*;

verus! {

/// A walk up to one object.
#[derive(Clone, Copy, Debug, PartialEq, Eq, Structural)]
pub struct TravelTask {
    pub target: ObjectId,
    /// Moves in a row that the world refused for good.
    pub move_failure_count: u32,
}

impl TravelTask {
    /// A fresh task, with no move refused so far.
    pub fn new(target: ObjectId) -> (task: TravelTask)
        ensures
            task.target == target,
            task.move_failure_count == 0,
    {
        TravelTask { target, move_failure_count: 0 }
    }

    /// A target that is gone cancels; standing beside it completes;
    /// otherwise move towards it.
    pub open spec fn step_spec(self, creep: CreepInfo, world: World) -> StepView {
        match world.resolve_spec(self.target) {
            None => StepView::Cancel,
            Some(t) => if creep.pos.near(t.pos) {
                StepView::Complete
            } else {
                StepView::Perform(Action::MoveTo(t.pos))
            },
        }
    }

    /// What one step decides: an agent that is about to die gives up; any
    /// other does what `step_spec` says.
    pub open spec fn execute_spec(self, creep: CreepInfo, world: World) -> StepView {
        if expired(creep) {
            StepView::Cancel
        } else {
            self.step_spec(creep, world)
        }
    }

    /// Decides the step for `creep`.
    pub fn execute(&self, creep: &CreepInfo, world: &World) -> (step: Step)
        ensures
            step@ == self.execute_spec(*creep, *world),
    {
        if is_expired(creep) {
            return Step::Cancel;
        }
        match world.resolve(self.target) {
            None => Step::Cancel,
            Some(t) => {
                if creep.pos.is_near_to(t.pos) {
                    Step::Complete
                } else {
                    Step::Perform(Action::MoveTo(t.pos))
                }
            },
        }
    }

    /// What the world's answer to a move leads to: see `move_verdict`.
    pub open spec fn resume_spec(self, action: Action, report: Report) -> StepView {
        move_verdict(self.move_failure_count, action, report)
    }

    /// The task after the world's answer: it counts the moves in a row that
    /// were refused for good.
    pub open spec fn after_resume(self, action: Action, report: Report) -> TravelTask {
        TravelTask {
            target: self.target,
            move_failure_count: moved_count(self.move_failure_count, action, report),
        }
    }

    /// Takes the world's answer to the action that the last step named.
    pub fn resume(&mut self, action: Action, report: &Report) -> (step: Step)
        ensures
            step@ == old(self).resume_spec(action, *report),
            *final(self) == old(self).after_resume(action, *report),
    {
        settle_move(&mut self.move_failure_count, action, report)
    }
}

} // verus!
