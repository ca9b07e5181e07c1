//! Hand energy over to a structure.

use crate::game::{CreepInfo, ErrorCode, ObjectId, StructureType};
use crate::metadata::{StructureInfo, World};
use crate::position::Position;
use crate::tasks::task::{act_verdict, approach, approach_spec, expired, is_expired, move_verdict, moved_count, settle_action, settle_move, Action, Report, Step, StepView};
use crate::tasks::task_list::{single_list, TaskList, TaskListView};
use crate::tasks::Task;
use crate::utils::{creep_type_of, first_min, first_min_spec, get_creep_type, str_eq};
use vstd::prelude::*;

verus! {

/// The handing over of energy to one structure.
#[derive(Clone, Copy, Debug, PartialEq, Eq, Structural)]
pub struct TransferTask {
    pub target: ObjectId,
    /// Moves in a row that the world refused for good.
    pub move_failure_count: u32,
}

/// An extension with room for energy.
pub open spec fn wants_energy(s: StructureInfo) -> bool {
    s.structure_type == StructureType::Extension && s.store.free > 0
}

/// The extension with room for energy that is nearest to `pos`; of several
/// at the same range, the first.
pub open spec fn nearest_extension_spec(pos: Position, structures: Seq<StructureInfo>) -> Option<
    ObjectId,
> {
    match first_min_spec(
        structures.map_values(|s: StructureInfo| wants_energy(s)),
        structures.map_values(|s: StructureInfo| pos.range_to(s.pos) as u64),
    ) {
        Some(i) => Some(structures[i].id),
        None => None,
    }
}

/// The extension with room for energy that is nearest to `pos`; of several
/// at the same range, the first.
pub fn get_nearest_extension(pos: Position, structures: &Vec<StructureInfo>) -> (found: Option<
    ObjectId,
>)
    ensures
        found == nearest_extension_spec(pos, structures@),
{
    let mut eligible: Vec<bool> = Vec::new();
    let mut keys: Vec<u64> = Vec::new();
    let mut i: usize = 0;
    while i < structures.len()
        invariant
            i <= structures.len(),
            eligible@ == structures@.take(i as int).map_values(|s: StructureInfo| wants_energy(s)),
            keys@ == structures@.take(i as int).map_values(
                |s: StructureInfo| pos.range_to(s.pos) as u64,
            ),
        decreases structures.len() - i,
    {
        let s = structures[i];
        eligible.push(s.structure_type == StructureType::Extension && s.store.free > 0);
        keys.push(pos.get_range_to(s.pos) as u64);
        i += 1;
    }
    proof {
        assert(structures@.take(i as int) =~= structures@);
    }
    match first_min(&eligible, &keys) {
        Some(b) => Some(structures[b].id),
        None => None,
    }
}

/// A fresh transfer to `target`.
pub open spec fn transfer_to(target: ObjectId) -> Task {
    Task::Transfer(TransferTask { target, move_failure_count: 0 })
}

impl TransferTask {
    /// A fresh task, with no move refused so far.
    pub fn new(target: ObjectId) -> (task: TransferTask)
        ensures
            task.target == target,
            task.move_failure_count == 0,
    {
        TransferTask { target, move_failure_count: 0 }
    }

    /// Whether the agent is a dedicated harvester.
    pub open spec fn is_harvester(creep: CreepInfo) -> bool {
        creep_type_of(creep.name@) == "source_harvester"@
    }

    /// Where an agent that is no dedicated harvester takes its energy when
    /// the target cannot have it: the nearest extension with room for
    /// energy in the agent's room.
    pub open spec fn fallback(creep: CreepInfo, world: World) -> Option<ObjectId> {
        if Self::is_harvester(creep) {
            None
        } else {
            match world.room_index(creep.pos.room_spec()) {
                Some(r) => nearest_extension_spec(creep.pos, world.rooms@[r].my_structures@),
                None => None,
            }
        }
    }

    /// Where the agent takes its energy when the target cannot have it.
    fn find_fallback(creep: &CreepInfo, world: &World) -> (found: Option<ObjectId>)
        ensures
            found == Self::fallback(*creep, *world),
    {
        let creep_type = get_creep_type(creep.name.as_str());
        if str_eq(creep_type.as_str(), "source_harvester") {
            return None;
        }
        match world.find_room(creep.pos.room_name()) {
            Some(r) => get_nearest_extension(creep.pos, &world.rooms[r].my_structures),
            None => None,
        }
    }

    /// A target that is gone cancels; an agent without energy completes.
    /// Where the target is full and the agent is no dedicated harvester, the
    /// agent switches to the nearest extension with room, or completes if
    /// there is none. Otherwise transfer from beside the target or move
    /// towards it.
    pub open spec fn step_spec(self, creep: CreepInfo, world: World) -> StepView {
        match world.resolve_spec(self.target) {
            None => StepView::Cancel,
            Some(t) => if creep.store.used == 0 {
                StepView::Complete
            } else if !Self::is_harvester(creep) && t.store.free == 0 {
                match Self::fallback(creep, world) {
                    Some(e) => StepView::Switch(TaskListView::single(transfer_to(e))),
                    None => StepView::Complete,
                }
            } else {
                approach_spec(creep.pos, t.pos, Action::Transfer(self.target))
            },
        }
    }

    /// What one step decides: an agent that is about to die gives up; any
    /// other does what `step_spec` says.
    pub open spec fn execute_spec(self, creep: CreepInfo, world: World) -> StepView {
        if expired(creep) {
            StepView::Cancel
        } else {
            self.step_spec(creep, world)
        }
    }

    /// Decides the step for `creep`.
    pub fn execute(&self, creep: &CreepInfo, world: &World) -> (step: Step)
        ensures
            step@ == self.execute_spec(*creep, *world),
    {
        if is_expired(creep) {
            return Step::Cancel;
        }
        match world.resolve(self.target) {
            None => Step::Cancel,
            Some(t) => {
                if creep.store.used == 0 {
                    return Step::Complete;
                }
                let creep_type = get_creep_type(creep.name.as_str());
                if !str_eq(creep_type.as_str(), "source_harvester") && t.store.free == 0 {
                    match Self::find_fallback(creep, world) {
                        Some(e) => Step::Switch(single_transfer(e)),
                        None => Step::Complete,
                    }
                } else {
                    approach(creep.pos, t.pos, Action::Transfer(self.target))
                }
            },
        }
    }

    /// After a transfer that the world refused for good, other than for
    /// being out of range, the agent switches to where it falls back, or
    /// cancels where it cannot. For the rest see `act_verdict` and
    /// `move_verdict`.
    pub open spec fn resume_spec(
        self,
        creep: CreepInfo,
        world: World,
        action: Action,
        report: Report,
    ) -> StepView {
        if action is Transfer {
            if report.refused() && !report.failed_with(ErrorCode::NotInRange) && Self::fallback(
                creep,
                world,
            ) is Some {
                StepView::Switch(TaskListView::single(transfer_to(Self::fallback(creep, world)->0)))
            } else {
                act_verdict(report, world.resolve_spec(self.target))
            }
        } else {
            move_verdict(self.move_failure_count, action, report)
        }
    }

    /// The task after the world's answer: it counts the moves in a row that
    /// were refused for good.
    pub open spec fn after_resume(self, action: Action, report: Report) -> TransferTask {
        TransferTask {
            target: self.target,
            move_failure_count: moved_count(self.move_failure_count, action, report),
        }
    }

    /// Takes the world's answer to the action that the last step named.
    pub fn resume(&mut self, creep: &CreepInfo, world: &World, action: Action, report: &Report) -> (step:
        Step)
        ensures
            step@ == old(self).resume_spec(*creep, *world, action, *report),
            *final(self) == old(self).after_resume(action, *report),
    {
        match action {
            Action::Transfer(_) => {
                if report.is_refused() && !report.is_err_code(ErrorCode::NotInRange) {
                    match Self::find_fallback(creep, world) {
                        Some(e) => {
                            return Step::Switch(single_transfer(e));
                        },
                        None => {},
                    }
                }
                settle_action(report, world.resolve(self.target))
            },
            _ => settle_move(&mut self.move_failure_count, action, report),
        }
    }
}

/// A chain of one transfer to `target`.
pub fn single_transfer(target: ObjectId) -> (list: TaskList)
    ensures
        list@ == TaskListView::single(transfer_to(target)),
{
    single_list(Task::Transfer(TransferTask::new(target)))
}

} // verus!
