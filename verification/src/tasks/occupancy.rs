//! Who is working where: the agents at work counted by room and archetype,
//! and by the exact position their task aims at.

use crate::game::{CreepInfo, ObjectId};
use crate::metadata::World;
use crate::position::{Position, RoomName};
use crate::tasks::task_list::{TaskList, TaskListView};
use crate::tasks::Task;
use crate::utils::{
    count_where, creep_type_of, get_creep_type, lemma_count_where_step, str_eq,
};
use vstd::prelude::*;

verus! {

/// An agent and the chain of tasks it works on.
#[derive(Debug)]
pub struct Assignment {
    pub creep: ObjectId,
    pub task_list: TaskList,
}

/// An assignment as a plain value.
pub struct AssignmentView {
    pub creep: ObjectId,
    pub task_list: TaskListView,
}

impl View for Assignment {
    type V = AssignmentView;

    open spec fn view(&self) -> AssignmentView {
        AssignmentView { creep: self.creep, task_list: self.task_list@ }
    }
}

/// The assignments as plain values.
pub open spec fn assignment_views(tasks: Seq<Assignment>) -> Seq<AssignmentView> {
    tasks.map_values(|a: Assignment| a@)
}

/// One agent at work in a room, by archetype.
#[derive(Debug)]
pub struct TypeSlot {
    pub room: RoomName,
    pub creep_type: String,
}

/// A slot as a plain value.
pub struct TypeSlotView {
    pub room: RoomName,
    pub creep_type: Seq<char>,
}

impl View for TypeSlot {
    type V = TypeSlotView;

    open spec fn view(&self) -> TypeSlotView {
        TypeSlotView { room: self.room, creep_type: self.creep_type@ }
    }
}

/// The slots as plain values.
pub open spec fn slot_views(slots: Seq<TypeSlot>) -> Seq<TypeSlotView> {
    slots.map_values(|s: TypeSlot| s@)
}

/// Combat and healing archetypes never count as at work in a room.
pub open spec fn is_exempt(creep_type: Seq<char>) -> bool {
    creep_type == "attacker"@ || creep_type == "healer"@
}

/// The agent and the task that an assignment is counted by: the agent is
/// alive and of a counted archetype, and the chain has a task under its cursor.
pub open spec fn counted_task(a: AssignmentView, world: World) -> Option<(CreepInfo, Task)> {
    match world.creep_index(a.creep) {
        Some(i) => {
            let creep = world.creeps@[i];
            if is_exempt(creep_type_of(creep.name@)) {
                None
            } else {
                match a.task_list.current_task() {
                    Some(task) => Some((creep, task)),
                    None => None,
                }
            }
        },
        None => None,
    }
}

/// The room and archetype an assignment counts for: the room of the task's
/// target, or the agent's own room where the task has no target position.
pub open spec fn type_slot_of(a: AssignmentView, world: World) -> Option<TypeSlotView> {
    match counted_task(a, world) {
        Some((creep, task)) => Some(
            TypeSlotView {
                room: match task.target_pos_spec(world) {
                    Some(pos) => pos.room_spec(),
                    None => creep.pos.room_spec(),
                },
                creep_type: creep_type_of(creep.name@),
            },
        ),
        None => None,
    }
}

/// The position an assignment counts for: that of its task's target.
pub open spec fn pos_slot_of(a: AssignmentView, world: World) -> Option<Position> {
    match counted_task(a, world) {
        Some((_, task)) => task.target_pos_spec(world),
        None => None,
    }
}

/// One slot for every assignment that counts by room and archetype, in order.
pub open spec fn type_slots(tasks: Seq<AssignmentView>, world: World) -> Seq<TypeSlotView>
    decreases tasks.len(),
{
    if tasks.len() == 0 {
        Seq::empty()
    } else {
        let rest = type_slots(tasks.drop_last(), world);
        match type_slot_of(tasks.last(), world) {
            Some(slot) => rest.push(slot),
            None => rest,
        }
    }
}

/// One position for every assignment that counts by position, in order.
pub open spec fn pos_slots(tasks: Seq<AssignmentView>, world: World) -> Seq<Position>
    decreases tasks.len(),
{
    if tasks.len() == 0 {
        Seq::empty()
    } else {
        let rest = pos_slots(tasks.drop_last(), world);
        match pos_slot_of(tasks.last(), world) {
            Some(pos) => rest.push(pos),
            None => rest,
        }
    }
}

/// One slot for every agent alive, whatever its archetype: its own room.
pub open spec fn roster_slots(creeps: Seq<CreepInfo>) -> Seq<TypeSlotView> {
    creeps.map_values(
        |c: CreepInfo| TypeSlotView { room: c.pos.room_spec(), creep_type: creep_type_of(c.name@) },
    )
}

/// Holds of the slots for the archetype in the room.
pub open spec fn slot_matches(room: RoomName, creep_type: Seq<char>) -> spec_fn(TypeSlotView) -> bool {
    |s: TypeSlotView| s.room == room && s.creep_type == creep_type
}

/// Holds of the position itself.
pub open spec fn is_pos(pos: Position) -> spec_fn(Position) -> bool {
    |p: Position| p == pos
}

/// Agents that may converge on one target of ordinary work.
pub const WORK_CAP: u32 = 1;

/// Agents that may converge on one hostile agent.
pub const COMBAT_CAP: usize = 2;

/// How many agents may work at one position: `COMBAT_CAP` on an attack,
/// `WORK_CAP` on anything else.
pub open spec fn cap_of(attack: bool) -> nat {
    if attack {
        COMBAT_CAP as nat
    } else {
        WORK_CAP as nat
    }
}

/// Holds of the assignments whose current task aims at `pos`: attacks if
/// `attack`, every other kind if not.
pub open spec fn aims(world: World, pos: Position, attack: bool) -> spec_fn(AssignmentView) -> bool {
    |a: AssignmentView|
        a.task_list.current_task() matches Some(task) && (task.type_spec()
            == crate::tasks::TaskType::Attack) == attack && task.target_pos_spec(world) == Some(
            pos,
        )
}

/// How many agents have a current task that aims at `pos`.
pub open spec fn crowd(tasks: Seq<AssignmentView>, world: World, pos: Position, attack: bool) -> nat {
    count_where(tasks, aims(world, pos, attack))
}

/// Occupancy bound: at no position do more agents work than the cap of
/// their kind of task allows.
pub open spec fn within_caps(tasks: Seq<AssignmentView>, world: World) -> bool {
    forall|pos: Position, attack: bool| #[trigger] crowd(tasks, world, pos, attack) <= cap_of(attack)
}

/// Whether one more agent may take up `task`: fewer agents than the cap
/// allows work at the position it aims at. A task that aims at no position
/// always has room.
pub open spec fn has_room(tasks: Seq<AssignmentView>, world: World, task: Task) -> bool {
    match task.target_pos_spec(world) {
        Some(pos) => crowd(
            tasks,
            world,
            pos,
            task.type_spec() == crate::tasks::TaskType::Attack,
        ) < cap_of(task.type_spec() == crate::tasks::TaskType::Attack),
        None => true,
    }
}

/// How many agents have a current task that aims at `pos`.
pub fn count_crowd(tasks: &Vec<Assignment>, world: &World, pos: Position, attack: bool) -> (n: usize)
    ensures
        n == crowd(assignment_views(tasks@), *world, pos, attack),
{
    let ghost views = assignment_views(tasks@);
    let ghost p = aims(*world, pos, attack);
    let mut n: usize = 0;
    let mut i: usize = 0;
    while i < tasks.len()
        invariant
            i <= tasks.len(),
            views == assignment_views(tasks@),
            p == aims(*world, pos, attack),
            n == count_where(views.take(i as int), p),
            n <= i,
        decreases tasks.len() - i,
    {
        proof {
            lemma_count_where_step(views, p, i as int);
            assert(views[i as int] == tasks@[i as int]@);
        }
        let counted = match tasks[i].task_list.current_task() {
            Some(task) => {
                let is_attack = task.get_type() == crate::tasks::TaskType::Attack;
                is_attack == attack && match task.get_target_pos(world) {
                    Some(q) => q == pos,
                    None => false,
                }
            },
            None => false,
        };
        if counted {
            n += 1;
        }
        i += 1;
    }
    proof {
        assert(views.take(i as int) =~= views);
    }
    n
}

/// Whether one more agent may take up `task`.
pub fn task_has_room(tasks: &Vec<Assignment>, world: &World, task: &Task) -> (r: bool)
    ensures
        r == has_room(assignment_views(tasks@), *world, *task),
{
    match task.get_target_pos(world) {
        Some(pos) => {
            let attack = task.get_type() == crate::tasks::TaskType::Attack;
            let n = count_crowd(tasks, world, pos, attack);
            if attack {
                n < COMBAT_CAP
            } else {
                (n as u64) < WORK_CAP as u64
            }
        },
        None => true,
    }
}

/// The two counts of agents at work.
#[derive(Debug)]
pub struct WorkingCreeps {
    pub by_room_and_type: Vec<TypeSlot>,
    pub by_room_and_pos: Vec<Position>,
}

/// The counts as plain values.
pub struct WorkingCreepsView {
    pub by_room_and_type: Seq<TypeSlotView>,
    pub by_room_and_pos: Seq<Position>,
}

impl View for WorkingCreeps {
    type V = WorkingCreepsView;

    open spec fn view(&self) -> WorkingCreepsView {
        WorkingCreepsView {
            by_room_and_type: slot_views(self.by_room_and_type@),
            by_room_and_pos: self.by_room_and_pos@,
        }
    }
}

/// The counts made anew from the assignments.
pub open spec fn fresh_counts(tasks: Seq<AssignmentView>, world: World) -> WorkingCreepsView {
    WorkingCreepsView {
        by_room_and_type: type_slots(tasks, world),
        by_room_and_pos: pos_slots(tasks, world),
    }
}

impl WorkingCreepsView {
    /// How many agents of the archetype are counted as at work in the room.
    pub open spec fn type_count(self, room: RoomName, creep_type: Seq<char>) -> nat {
        count_where(self.by_room_and_type, slot_matches(room, creep_type))
    }

    /// How many agents are counted as working at the position.
    pub open spec fn pos_count(self, pos: Position) -> nat {
        count_where(self.by_room_and_pos, is_pos(pos))
    }

    /// Whether any agent is counted, by archetype, as at work in the room.
    pub open spec fn tracks_room_by_type(self, room: RoomName) -> bool {
        exists|i: int|
            0 <= i < self.by_room_and_type.len() && (#[trigger] self.by_room_and_type[i]).room
                == room
    }

    /// Whether any agent is counted as working at some position of the room.
    pub open spec fn tracks_room_by_pos(self, room: RoomName) -> bool {
        exists|i: int|
            0 <= i < self.by_room_and_pos.len() && (#[trigger] self.by_room_and_pos[i]).room_spec()
                == room
    }

    /// Whether the position, taken as one of `room`, is staffed at or above
    /// `target_count`. A position outside `room` never is.
    pub open spec fn worked_on(self, room: RoomName, pos: Position, target_count: u32) -> bool {
        pos.room_spec() == room && self.pos_count(pos) >= 1 && self.pos_count(pos) >= target_count
    }

    /// The counts after `creep` took up a task aimed at `target_pos`: one
    /// more agent at the position; and, where the target lies in another
    /// room than the agent, one more agent of its archetype in that room.
    pub open spec fn noted(self, creep: CreepInfo, target_pos: Position) -> WorkingCreepsView {
        WorkingCreepsView {
            by_room_and_type: if target_pos.room_spec() != creep.pos.room_spec() {
                self.by_room_and_type.push(
                    TypeSlotView {
                        room: target_pos.room_spec(),
                        creep_type: creep_type_of(creep.name@),
                    },
                )
            } else {
                self.by_room_and_type
            },
            by_room_and_pos: self.by_room_and_pos.push(target_pos),
        }
    }
}

impl WorkingCreeps {
    /// Every agent alive counted in its own room, and no position counted.
    pub fn from_roster(creeps: &Vec<CreepInfo>) -> (counts: WorkingCreeps)
        ensures
            counts@.by_room_and_type == roster_slots(creeps@),
            counts@.by_room_and_pos == Seq::<Position>::empty(),
    {
        let mut by_room_and_type: Vec<TypeSlot> = Vec::new();
        let mut i: usize = 0;
        while i < creeps.len()
            invariant
                i <= creeps.len(),
                slot_views(by_room_and_type@) == roster_slots(creeps@.take(i as int)),
            decreases creeps.len() - i,
        {
            let creep_type = get_creep_type(creeps[i].name.as_str());
            let ghost before = by_room_and_type@;
            by_room_and_type.push(TypeSlot { room: creeps[i].pos.room_name(), creep_type });
            proof {
                assert(slot_views(by_room_and_type@) =~= slot_views(before).push(
                    by_room_and_type@.last()@,
                ));
                assert(roster_slots(creeps@.take(i + 1)) =~= roster_slots(
                    creeps@.take(i as int),
                ).push(by_room_and_type@.last()@));
            }
            i += 1;
        }
        proof {
            assert(creeps@.take(i as int) =~= creeps@);
        }
        WorkingCreeps { by_room_and_type, by_room_and_pos: Vec::new() }
    }

    /// How many agents of the archetype are counted as at work in the room.
    pub fn count_by_type(&self, room: RoomName, creep_type: &str) -> (n: usize)
        ensures
            n == self@.type_count(room, creep_type@),
    {
        let ghost p = slot_matches(room, creep_type@);
        let ghost slots = slot_views(self.by_room_and_type@);
        let mut n: usize = 0;
        let mut i: usize = 0;
        while i < self.by_room_and_type.len()
            invariant
                i <= self.by_room_and_type.len(),
                slots == slot_views(self.by_room_and_type@),
                n == count_where(slots.take(i as int), p),
                n <= i,
                p == slot_matches(room, creep_type@),
            decreases self.by_room_and_type.len() - i,
        {
            proof {
                lemma_count_where_step(slots, p, i as int);
            }
            let slot = &self.by_room_and_type[i];
            if slot.room == room && str_eq(slot.creep_type.as_str(), creep_type) {
                n += 1;
            }
            i += 1;
        }
        proof {
            assert(slots.take(i as int) =~= slots);
        }
        n
    }

    /// How many agents are counted as working at the position.
    pub fn count_at(&self, pos: Position) -> (n: usize)
        ensures
            n == self@.pos_count(pos),
    {
        let ghost p = is_pos(pos);
        let mut n: usize = 0;
        let mut i: usize = 0;
        while i < self.by_room_and_pos.len()
            invariant
                i <= self.by_room_and_pos.len(),
                n == count_where(self.by_room_and_pos@.take(i as int), p),
                n <= i,
                p == is_pos(pos),
            decreases self.by_room_and_pos.len() - i,
        {
            proof {
                lemma_count_where_step(self.by_room_and_pos@, p, i as int);
            }
            if self.by_room_and_pos[i] == pos {
                n += 1;
            }
            i += 1;
        }
        proof {
            assert(self.by_room_and_pos@.take(i as int) =~= self.by_room_and_pos@);
        }
        n
    }

    /// Whether the position, taken as one of `room_name`, is staffed at or
    /// above `target_count`.
    pub fn is_pos_being_worked_on(&self, room_name: RoomName, pos: Position, target_count: u32) -> (r:
        bool)
        ensures
            r == self@.worked_on(room_name, pos, target_count),
    {
        if pos.room_name() != room_name {
            return false;
        }
        let n = self.count_at(pos);
        n >= 1 && n as u64 >= target_count as u64
    }

    /// Whether any agent is counted, by archetype, as at work in the room.
    pub fn knows_room_by_type(&self, room: RoomName) -> (r: bool)
        ensures
            r == self@.tracks_room_by_type(room),
    {
        let mut i: usize = 0;
        while i < self.by_room_and_type.len()
            invariant
                i <= self.by_room_and_type.len(),
                forall|j: int| 0 <= j < i ==> (#[trigger] self@.by_room_and_type[j]).room != room,
            decreases self.by_room_and_type.len() - i,
        {
            if self.by_room_and_type[i].room == room {
                assert(self@.by_room_and_type[i as int].room == room);
                return true;
            }
            i += 1;
        }
        false
    }

    /// Whether any agent is counted as working at some position of the room.
    pub fn knows_room_by_pos(&self, room: RoomName) -> (r: bool)
        ensures
            r == self@.tracks_room_by_pos(room),
    {
        let mut i: usize = 0;
        while i < self.by_room_and_pos.len()
            invariant
                i <= self.by_room_and_pos.len(),
                forall|j: int|
                    0 <= j < i ==> (#[trigger] self@.by_room_and_pos[j]).room_spec() != room,
            decreases self.by_room_and_pos.len() - i,
        {
            if self.by_room_and_pos[i].room_name() == room {
                assert(self@.by_room_and_pos[i as int].room_spec() == room);
                return true;
            }
            i += 1;
        }
        false
    }

    /// Counts `creep` at `target_pos` at once, before the counts are next
    /// made anew, so that the agents still to be matched this tick see it.
    pub fn note_assignment(&mut self, creep: &CreepInfo, target_pos: Position)
        ensures
            final(self)@ == old(self)@.noted(*creep, target_pos),
    {
        let target_room = target_pos.room_name();
        self.by_room_and_pos.push(target_pos);
        assert(self@.by_room_and_type == old(self)@.by_room_and_type);
        if target_room != creep.pos.room_name() {
            let ghost before = self.by_room_and_type@;
            let creep_type = get_creep_type(creep.name.as_str());
            self.by_room_and_type.push(TypeSlot { room: target_room, creep_type });
            proof {
                assert(slot_views(self.by_room_and_type@) =~= slot_views(before).push(
                    TypeSlotView { room: target_room, creep_type: creep_type_of(creep.name@) },
                ));
            }
        }
        proof {
            let expected = old(self)@.noted(*creep, target_pos);
            assert(self@.by_room_and_type =~= expected.by_room_and_type);
            assert(self@.by_room_and_pos =~= expected.by_room_and_pos);
        }
    }

    /// Counts anew from the assignments: every agent that is alive, of a
    /// counted archetype and with a task under its cursor counts once by
    /// room and archetype, and once by position if its task aims at one.
    pub fn recalculate(tasks: &Vec<Assignment>, world: &World) -> (counts: WorkingCreeps)
        ensures
            counts@ == fresh_counts(assignment_views(tasks@), *world),
    {
        let ghost views = assignment_views(tasks@);
        let mut by_room_and_type: Vec<TypeSlot> = Vec::new();
        let mut by_room_and_pos: Vec<Position> = Vec::new();
        let mut i: usize = 0;
        while i < tasks.len()
            invariant
                i <= tasks.len(),
                views == assignment_views(tasks@),
                slot_views(by_room_and_type@) == type_slots(views.take(i as int), *world),
                by_room_and_pos@ == pos_slots(views.take(i as int), *world),
            decreases tasks.len() - i,
        {
            proof {
                assert(views.take(i + 1).drop_last() =~= views.take(i as int));
                assert(views.take(i + 1).last() == tasks@[i as int]@);
            }
            let assignment = &tasks[i];
            match world.find_creep(assignment.creep) {
                Some(c) => {
                    let creep = &world.creeps[c];
                    let creep_type = get_creep_type(creep.name.as_str());
                    if !(str_eq(creep_type.as_str(), "attacker") || str_eq(
                        creep_type.as_str(),
                        "healer",
                    )) {
                        match assignment.task_list.current_task() {
                            Some(task) => {
                                let target_pos = task.get_target_pos(world);
                                let room = match target_pos {
                                    Some(pos) => pos.room_name(),
                                    None => creep.pos.room_name(),
                                };
                                let ghost before = by_room_and_type@;
                                by_room_and_type.push(TypeSlot { room, creep_type });
                                proof {
                                    assert(slot_views(by_room_and_type@) =~= slot_views(
                                        before,
                                    ).push(by_room_and_type@.last()@));
                                }
                                match target_pos {
                                    Some(pos) => {
                                        by_room_and_pos.push(pos);
                                    },
                                    None => {},
                                }
                            },
                            None => {},
                        }
                    }
                },
                None => {},
            }
            i += 1;
        }
        proof {
            assert(views.take(i as int) =~= views);
        }
        WorkingCreeps { by_room_and_type, by_room_and_pos }
    }
}

} // verus!
