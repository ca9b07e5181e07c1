//! Claim the controller of a room.

use crate::game::{CreepInfo, GameObject, Store};
use crate::metadata::{ControllerInfo, World};
use crate::position::Position;
use crate::tasks::task::{act_verdict, approach, approach_spec, expired, is_expired, move_verdict, moved_count, settle_action, settle_move, Action, Report, Step, StepView};
use vstd::prelude::*;

verus! {

/// The claim of the controller of one room.
#[derive(Clone, Copy, Debug, PartialEq, Eq, Structural)]
pub struct ClaimTask {
    /// A position in the room to claim.
    pub target: Position,
    /// Moves in a row that the world refused for good.
    pub move_failure_count: u32,
}

/// The controller as a target.
pub open spec fn controller_as_object(c: ControllerInfo) -> GameObject {
    GameObject {
        id: c.id,
        pos: c.pos,
        hits: 0,
        hits_max: 0,
        store: Store { used: 0, free: 0, capacity: 0 },
    }
}

impl ClaimTask {
    /// A fresh task, with no move refused so far.
    pub fn new(target: Position) -> (task: ClaimTask)
        ensures
            task.target == target,
            task.move_failure_count == 0,
    {
        ClaimTask { target, move_failure_count: 0 }
    }

    /// The controller of the room to claim, while that room is visible.
    pub open spec fn controller(self, world: World) -> Option<ControllerInfo> {
        match world.room_index(self.target.room_spec()) {
            Some(r) => world.rooms@[r].controller,
            None => None,
        }
    }

    /// The controller of the room to claim, while that room is visible.
    fn find_controller(&self, world: &World) -> (found: Option<ControllerInfo>)
        ensures
            found == self.controller(*world),
    {
        match world.find_room(self.target.room_name()) {
            Some(r) => world.rooms[r].controller,
            None => None,
        }
    }

    /// Outside the room, move towards it. Inside, a room without a
    /// controller cancels; a controller that is the colony's completes; any
    /// other is claimed from beside it or walked up to.
    pub open spec fn step_spec(self, creep: CreepInfo, world: World) -> StepView {
        if creep.pos.room_spec() == self.target.room_spec() {
            match self.controller(world) {
                Some(c) => if c.my {
                    StepView::Complete
                } else {
                    approach_spec(creep.pos, c.pos, Action::Claim(c.id))
                },
                None => StepView::Cancel,
            }
        } else {
            StepView::Perform(Action::MoveTo(self.target))
        }
    }

    /// What one step decides: an agent that is about to die gives up; any
    /// other does what `step_spec` says.
    pub open spec fn execute_spec(self, creep: CreepInfo, world: World) -> StepView {
        if expired(creep) {
            StepView::Cancel
        } else {
            self.step_spec(creep, world)
        }
    }

    /// Decides the step for `creep`.
    pub fn execute(&self, creep: &CreepInfo, world: &World) -> (step: Step)
        ensures
            step@ == self.execute_spec(*creep, *world),
    {
        if is_expired(creep) {
            return Step::Cancel;
        }
        if creep.pos.room_name() == self.target.room_name() {
            match self.find_controller(world) {
                Some(c) => {
                    if c.my {
                        Step::Complete
                    } else {
                        approach(creep.pos, c.pos, Action::Claim(c.id))
                    }
                },
                None => Step::Cancel,
            }
        } else {
            Step::Perform(Action::MoveTo(self.target))
        }
    }

    /// What the world's answer leads to: see `act_verdict` for the answer
    /// to the claim and `move_verdict` for the answer to a move.
    pub open spec fn resume_spec(self, world: World, action: Action, report: Report) -> StepView {
        if action is Claim {
            act_verdict(
                report,
                match self.controller(world) {
                    Some(c) => Some(controller_as_object(c)),
                    None => None,
                },
            )
        } else {
            move_verdict(self.move_failure_count, action, report)
        }
    }

    /// The task after the world's answer: it counts the moves in a row that
    /// were refused for good.
    pub open spec fn after_resume(self, action: Action, report: Report) -> ClaimTask {
        ClaimTask {
            target: self.target,
            move_failure_count: moved_count(self.move_failure_count, action, report),
        }
    }

    /// Takes the world's answer to the action that the last step named.
    pub fn resume(&mut self, world: &World, action: Action, report: &Report) -> (step: Step)
        ensures
            step@ == old(self).resume_spec(*world, action, *report),
            *final(self) == old(self).after_resume(action, *report),
    {
        match action {
            Action::Claim(_) => {
                let target = match self.find_controller(world) {
                    Some(c) => Some(
                        GameObject {
                            id: c.id,
                            pos: c.pos,
                            hits: 0,
                            hits_max: 0,
                            store: Store { used: 0, free: 0, capacity: 0 },
                        },
                    ),
                    None => None,
                };
                settle_action(report, target)
            },
            _ => settle_move(&mut self.move_failure_count, action, report),
        }
    }
}

} // verus!
