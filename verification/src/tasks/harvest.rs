//! Gather energy from a resource node until the store is full, then deliver.

use crate::game::{CreepInfo, ObjectId, StructureType};
use crate::metadata::{SourceLink, StructureInfo, World};
use crate::position::Position;
use crate::tasks::task::{act_verdict, approach, approach_spec, expired, is_expired, move_verdict, moved_count, settle_action, settle_move, Action, Report, Step, StepView};
use crate::tasks::task_list::TaskListView;
use crate::tasks::transfer::{single_transfer, transfer_to};
use crate::utils::{first_min, first_min_spec};
use vstd::prelude::*;

verus! {

/// Gathering at one resource node until the store is full.
#[derive(Clone, Copy, Debug, PartialEq, Eq, Structural)]
pub struct HarvestTask {
    pub target: ObjectId,
    /// Moves in a row that the world refused for good.
    pub move_failure_count: u32,
}

/// The link beside a resource node that is nearest to `pos`; of several at
/// the same range, the first.
pub open spec fn nearest_source_link_spec(pos: Position, links: Seq<SourceLink>) -> Option<ObjectId> {
    match first_min_spec(
        links.map_values(|l: SourceLink| true),
        links.map_values(|l: SourceLink| pos.range_to(l.0.pos) as u64),
    ) {
        Some(i) => Some(links[i].0.id),
        None => None,
    }
}

/// The link beside a resource node that is nearest to `pos`; of several at
/// the same range, the first.
pub fn nearest_source_link(pos: Position, links: &Vec<SourceLink>) -> (found: Option<ObjectId>)
    ensures
        found == nearest_source_link_spec(pos, links@),
{
    let mut eligible: Vec<bool> = Vec::new();
    let mut keys: Vec<u64> = Vec::new();
    let mut i: usize = 0;
    while i < links.len()
        invariant
            i <= links.len(),
            eligible@ == links@.take(i as int).map_values(|l: SourceLink| true),
            keys@ == links@.take(i as int).map_values(
                |l: SourceLink| pos.range_to(l.0.pos) as u64,
            ),
        decreases links.len() - i,
    {
        eligible.push(true);
        keys.push(pos.get_range_to(links[i].0.pos) as u64);
        i += 1;
    }
    proof {
        assert(links@.take(i as int) =~= links@);
    }
    match first_min(&eligible, &keys) {
        Some(b) => Some(links[b].0.id),
        None => None,
    }
}

/// A station that needs energy: an extension, or an active spawn or tower,
/// with room left.
pub open spec fn needs_energy(s: StructureInfo) -> bool {
    &&& s.store.free > 0
    &&& s.structure_type == StructureType::Extension || (s.active && (s.structure_type
        == StructureType::Spawn || s.structure_type == StructureType::Tower))
}

/// The station in need of energy that is nearest to `pos`; of several at
/// the same range, the first.
pub open spec fn nearest_station_spec(pos: Position, structures: Seq<StructureInfo>) -> Option<
    ObjectId,
> {
    match first_min_spec(
        structures.map_values(|s: StructureInfo| needs_energy(s)),
        structures.map_values(|s: StructureInfo| pos.range_to(s.pos) as u64),
    ) {
        Some(i) => Some(structures[i].id),
        None => None,
    }
}

/// The station in need of energy that is nearest to `pos`; of several at
/// the same range, the first.
pub fn nearest_station(pos: Position, structures: &Vec<StructureInfo>) -> (found: Option<ObjectId>)
    ensures
        found == nearest_station_spec(pos, structures@),
{
    let mut eligible: Vec<bool> = Vec::new();
    let mut keys: Vec<u64> = Vec::new();
    let mut i: usize = 0;
    while i < structures.len()
        invariant
            i <= structures.len(),
            eligible@ == structures@.take(i as int).map_values(|s: StructureInfo| needs_energy(s)),
            keys@ == structures@.take(i as int).map_values(
                |s: StructureInfo| pos.range_to(s.pos) as u64,
            ),
        decreases structures.len() - i,
    {
        let s = structures[i];
        eligible.push(
            s.store.free > 0 && (s.structure_type == StructureType::Extension || (s.active && (
            s.structure_type == StructureType::Spawn || s.structure_type
                == StructureType::Tower))),
        );
        keys.push(pos.get_range_to(s.pos) as u64);
        i += 1;
    }
    proof {
        assert(structures@.take(i as int) =~= structures@);
    }
    match first_min(&eligible, &keys) {
        Some(b) => Some(structures[b].id),
        None => None,
    }
}

/// Where an agent with a full store takes its energy: to the nearest station
/// of the colony in its room that needs energy; where none does, to the
/// nearest link beside a resource node of that room.
pub open spec fn delivery_target(creep: CreepInfo, world: World) -> Option<ObjectId> {
    match world.room_index(creep.pos.room_spec()) {
        Some(r) => match nearest_station_spec(creep.pos, world.rooms@[r].my_structures@) {
            Some(station) => Some(station),
            None => nearest_source_link_spec(creep.pos, world.rooms@[r].links.source_links@),
        },
        None => None,
    }
}

/// Where an agent with a full store takes its energy.
pub fn find_delivery_target(creep: &CreepInfo, world: &World) -> (found: Option<ObjectId>)
    ensures
        found == delivery_target(*creep, *world),
{
    match world.find_room(creep.pos.room_name()) {
        Some(r) => match nearest_station(creep.pos, &world.rooms[r].my_structures) {
            Some(station) => Some(station),
            None => nearest_source_link(creep.pos, &world.rooms[r].links.source_links),
        },
        None => None,
    }
}

/// What a full agent does: it switches to a transfer to where it takes its
/// energy, or completes where there is nowhere to take it.
pub open spec fn deliver_spec(creep: CreepInfo, world: World) -> StepView {
    match delivery_target(creep, world) {
        Some(target) => StepView::Switch(TaskListView::single(transfer_to(target))),
        None => StepView::Complete,
    }
}

/// What a full agent does.
pub fn deliver(creep: &CreepInfo, world: &World) -> (step: Step)
    ensures
        step@ == deliver_spec(*creep, *world),
{
    match find_delivery_target(creep, world) {
        Some(target) => Step::Switch(single_transfer(target)),
        None => Step::Complete,
    }
}

impl HarvestTask {
    /// A fresh task, with no move refused so far.
    pub fn new(target: ObjectId) -> (task: HarvestTask)
        ensures
            task.target == target,
            task.move_failure_count == 0,
    {
        HarvestTask { target, move_failure_count: 0 }
    }

    /// A full agent switches to a transfer to where it takes its energy, or
    /// completes where there is nowhere to take it. For any other agent a
    /// node that is gone cancels; otherwise harvest from beside the node or
    /// move towards it.
    pub open spec fn step_spec(self, creep: CreepInfo, world: World) -> StepView {
        if creep.store.free == 0 {
            deliver_spec(creep, world)
        } else {
            match world.resolve_spec(self.target) {
                None => StepView::Cancel,
                Some(t) => approach_spec(creep.pos, t.pos, Action::Harvest(self.target)),
            }
        }
    }

    /// What one step decides: an agent that is about to die gives up; any
    /// other does what `step_spec` says.
    pub open spec fn execute_spec(self, creep: CreepInfo, world: World) -> StepView {
        if expired(creep) {
            StepView::Cancel
        } else {
            self.step_spec(creep, world)
        }
    }

    /// Decides the step for `creep`.
    pub fn execute(&self, creep: &CreepInfo, world: &World) -> (step: Step)
        ensures
            step@ == self.execute_spec(*creep, *world),
    {
        if is_expired(creep) {
            return Step::Cancel;
        }
        if creep.store.free == 0 {
            return deliver(creep, world);
        }
        match world.resolve(self.target) {
            None => Step::Cancel,
            Some(t) => approach(creep.pos, t.pos, Action::Harvest(self.target)),
        }
    }

    /// What the world's answer leads to: see `act_verdict` for the answer
    /// to the harvest and `move_verdict` for the answer to a move.
    pub open spec fn resume_spec(self, world: World, action: Action, report: Report) -> StepView {
        if action is Harvest {
            act_verdict(report, world.resolve_spec(self.target))
        } else {
            move_verdict(self.move_failure_count, action, report)
        }
    }

    /// The task after the world's answer: it counts the moves in a row that
    /// were refused for good.
    pub open spec fn after_resume(self, action: Action, report: Report) -> HarvestTask {
        HarvestTask {
            target: self.target,
            move_failure_count: moved_count(self.move_failure_count, action, report),
        }
    }

    /// Takes the world's answer to the action that the last step named.
    pub fn resume(&mut self, world: &World, action: Action, report: &Report) -> (step: Step)
        ensures
            step@ == old(self).resume_spec(*world, action, *report),
            *final(self) == old(self).after_resume(action, *report),
    {
        match action {
            Action::Harvest(_) => settle_action(report, world.resolve(self.target)),
            _ => settle_move(&mut self.move_failure_count, action, report),
        }
    }
}

} // verus!
