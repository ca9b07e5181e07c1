//! Do nothing for a number of ticks.

use crate::game::CreepInfo;
use crate::tasks::task::{expired, is_expired, Step, StepView};
use vstd::prelude::*;

verus! {

/// A wait of a number of ticks.
#[derive(Clone, Copy, Debug, PartialEq, Eq, Structural)]
pub struct IdleTask {
    pub duration: u32,
}

impl IdleTask {
    /// A fresh task.
    pub fn new(duration: u32) -> (task: IdleTask)
        ensures
            task.duration == duration,
    {
        IdleTask { duration }
    }

    /// What one step decides: an agent that is about to die gives up;
    /// otherwise the task completes when no tick is left to wait.
    pub open spec fn execute_spec(self, creep: CreepInfo) -> StepView {
        if expired(creep) {
            StepView::Cancel
        } else if self.duration == 0 {
            StepView::Complete
        } else {
            StepView::Continue
        }
    }

    /// The task after one step: one tick less to wait, unless none is left
    /// or the agent is about to die.
    pub open spec fn after_execute(self, creep: CreepInfo) -> IdleTask {
        if self.duration > 0 && !expired(creep) {
            IdleTask { duration: (self.duration - 1) as u32 }
        } else {
            self
        }
    }

    /// Decides the step for `creep` and counts the tick.
    pub fn execute(&mut self, creep: &CreepInfo) -> (step: Step)
        ensures
            step@ == old(self).execute_spec(*creep),
            *final(self) == old(self).after_execute(*creep),
    {
        if is_expired(creep) {
            Step::Cancel
        } else if self.duration == 0 {
            Step::Complete
        } else {
            self.duration -= 1;
            Step::Continue
        }
    }
}

} // verus!
