//! Repair a damaged structure while the agent holds energy.

use crate::game::{CreepInfo, ObjectId};
use crate::metadata::World;
use crate::tasks::task::{act_verdict, approach, approach_spec, expired, is_expired, move_verdict, moved_count, settle_action, settle_move, Action, Report, Step, StepView};
use vstd::prelude::*;

verus! {

/// The repair of one structure.
#[derive(Clone, Copy, Debug, PartialEq, Eq, Structural)]
pub struct RepairTask {
    pub target: ObjectId,
    /// Moves in a row that the world refused for good.
    pub move_failure_count: u32,
}

impl RepairTask {
    /// A fresh task, with no move refused so far.
    pub fn new(target: ObjectId) -> (task: RepairTask)
        ensures
            task.target == target,
            task.move_failure_count == 0,
    {
        RepairTask { target, move_failure_count: 0 }
    }

    /// A structure that is gone cancels; an agent without energy completes;
    /// otherwise repair from beside the structure or move towards it.
    pub open spec fn step_spec(self, creep: CreepInfo, world: World) -> StepView {
        match world.resolve_spec(self.target) {
            None => StepView::Cancel,
            Some(t) => if creep.store.used == 0 {
                StepView::Complete
            } else {
                approach_spec(creep.pos, t.pos, Action::Repair(self.target))
            },
        }
    }

    /// What one step decides: an agent that is about to die gives up; any
    /// other does what `step_spec` says.
    pub open spec fn execute_spec(self, creep: CreepInfo, world: World) -> StepView {
        if expired(creep) {
            StepView::Cancel
        } else {
            self.step_spec(creep, world)
        }
    }

    /// Decides the step for `creep`.
    pub fn execute(&self, creep: &CreepInfo, world: &World) -> (step: Step)
        ensures
            step@ == self.execute_spec(*creep, *world),
    {
        if is_expired(creep) {
            return Step::Cancel;
        }
        match world.resolve(self.target) {
            None => Step::Cancel,
            Some(t) => {
                if creep.store.used == 0 {
                    Step::Complete
                } else {
                    approach(creep.pos, t.pos, Action::Repair(self.target))
                }
            },
        }
    }

    /// After a repair that the world did not refuse for good, the task
    /// cancels once the structure is whole or the agent is out of energy.
    /// For the rest see `act_verdict` and `move_verdict`.
    pub open spec fn resume_spec(
        self,
        creep: CreepInfo,
        world: World,
        action: Action,
        report: Report,
    ) -> StepView {
        if action is Repair {
            match act_verdict(report, world.resolve_spec(self.target)) {
                StepView::Continue => match world.resolve_spec(self.target) {
                    Some(t) => if t.hits >= t.hits_max || creep.store.used == 0 {
                        StepView::Cancel
                    } else {
                        StepView::Continue
                    },
                    None => StepView::Cancel,
                },
                verdict => verdict,
            }
        } else {
            move_verdict(self.move_failure_count, action, report)
        }
    }

    /// The task after the world's answer: it counts the moves in a row that
    /// were refused for good.
    pub open spec fn after_resume(self, action: Action, report: Report) -> RepairTask {
        RepairTask {
            target: self.target,
            move_failure_count: moved_count(self.move_failure_count, action, report),
        }
    }

    /// Takes the world's answer to the action that the last step named.
    pub fn resume(&mut self, creep: &CreepInfo, world: &World, action: Action, report: &Report) -> (step:
        Step)
        ensures
            step@ == old(self).resume_spec(*creep, *world, action, *report),
            *final(self) == old(self).after_resume(action, *report),
    {
        match action {
            Action::Repair(_) => {
                let target = world.resolve(self.target);
                match settle_action(report, target) {
                    Step::Continue => match target {
                        Some(t) => {
                            if t.hits >= t.hits_max || creep.store.used == 0 {
                                Step::Cancel
                            } else {
                                Step::Continue
                            }
                        },
                        None => Step::Cancel,
                    },
                    verdict => verdict,
                }
            },
            _ => settle_move(&mut self.move_failure_count, action, report),
        }
    }

    /// Rank among repair candidates: the hit points the structure has left,
    /// 0 for one that is gone. The lowest rank is served first.
    pub open spec fn priority_spec(self, world: World) -> u32 {
        match world.resolve_spec(self.target) {
            Some(t) => t.hits,
            None => 0,
        }
    }

    /// Rank among repair candidates: the hit points the structure has left.
    pub fn get_priority(&self, world: &World) -> (priority: u32)
        ensures
            priority == self.priority_spec(*world),
    {
        match world.resolve(self.target) {
            Some(t) => t.hits,
            None => 0,
        }
    }
}

} // verus!
