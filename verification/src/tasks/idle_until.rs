//! Wait until an object holds energy again.

use crate::game::{CreepInfo, ObjectId};
use crate::metadata::World;
use crate::tasks::task::{expired, is_expired, Step, StepView};
use vstd::prelude::*;

verus! {

/// Waits for the watched object, a link or a resource node, to hold energy.
#[derive(Clone, Copy, Debug, PartialEq, Eq, Structural)]
pub struct IdleUntilTask {
    pub pass_through: ObjectId,
}

impl IdleUntilTask {
    /// A fresh task.
    pub fn new(pass_through: ObjectId) -> (task: IdleUntilTask)
        ensures
            task.pass_through == pass_through,
    {
        IdleUntilTask { pass_through }
    }

    /// An agent that is about to die gives up. Otherwise the task completes
    /// once the watched object holds energy, and cancels if it is gone.
    pub open spec fn execute_spec(self, creep: CreepInfo, world: World) -> StepView {
        if expired(creep) {
            StepView::Cancel
        } else {
            match world.resolve_spec(self.pass_through) {
                None => StepView::Cancel,
                Some(t) => if t.store.used > 0 {
                    StepView::Complete
                } else {
                    StepView::Continue
                },
            }
        }
    }

    /// Decides the step for `creep`.
    pub fn execute(&self, creep: &CreepInfo, world: &World) -> (step: Step)
        ensures
            step@ == self.execute_spec(*creep, *world),
    {
        if is_expired(creep) {
            return Step::Cancel;
        }
        match world.resolve(self.pass_through) {
            None => Step::Cancel,
            Some(t) => {
                if t.store.used > 0 {
                    Step::Complete
                } else {
                    Step::Continue
                }
            },
        }
    }
}

} // verus!
