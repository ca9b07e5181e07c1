//! The scheduler: which agent works on which chain of tasks.

use crate::game::{CreepInfo, ObjectId};
use crate::metadata::{LinkTypeMap, RoomInfo, StructureInfo, World};
use crate::tasks::task::{Action, Report, Step, StepView};
use crate::position::{Position, RoomName};
use crate::tasks::occupancy::{
    aims, assignment_views, cap_of, crowd, fresh_counts, has_room, roster_slots, task_has_room,
    within_caps, Assignment, AssignmentView, WorkingCreeps, WorkingCreepsView,
};
use crate::tasks::{has_all_parts, has_parts_for};
use crate::tasks::candidates::{get_room_task_lists, room_task_lists};
use crate::tasks::defaults::{default_task_list, get_default_task_list_for_creep};
use crate::tasks::directives::{flag_removals, flag_task_lists, get_flag_task_lists, FlagTasks};
use crate::tasks::matching::{chosen_index, get_task_list_with_room};
use crate::tasks::task_list::{list_views, TaskList, TaskListView};
use crate::utils::{creep_type_of, first_where, get_creep_type, lemma_count_where_filter};
use std::collections::HashMap;
use vstd::prelude::*;

verus! {

/// The sorted links of every room, by the room's packed name.
pub type RoomLinks = HashMap<u16, LinkTypeMap>;

/// Owns the assignments of chains to agents and the counts of agents at work.
#[derive(Debug)]
pub struct TaskManager {
    pub tasks: Vec<Assignment>,
    pub working_creeps: WorkingCreeps,
    pub room_links: RoomLinks,
}

/// The scheduler's state as a plain value.
pub struct TaskManagerView {
    pub tasks: Seq<AssignmentView>,
    pub counts: WorkingCreepsView,
}

impl View for TaskManager {
    type V = TaskManagerView;

    open spec fn view(&self) -> TaskManagerView {
        TaskManagerView { tasks: assignment_views(self.tasks@), counts: self.working_creeps@ }
    }
}

/// Holds of the assignments of the agent `id`.
pub open spec fn assigned_to(id: ObjectId) -> spec_fn(AssignmentView) -> bool {
    |a: AssignmentView| a.creep == id
}

/// Where in `tasks` the agent `id` has its assignment.
pub open spec fn index_of(tasks: Seq<AssignmentView>, id: ObjectId) -> Option<int> {
    first_where(tasks, assigned_to(id))
}

/// No agent has two assignments.
pub open spec fn distinct_agents(tasks: Seq<AssignmentView>) -> bool {
    forall|i: int, j: int|
        0 <= i < j < tasks.len() ==> (#[trigger] tasks[i]).creep != (#[trigger] tasks[j]).creep
}

/// Every chain has a task under its cursor.
pub open spec fn all_alive(tasks: Seq<AssignmentView>) -> bool {
    forall|i: int| 0 <= i < tasks.len() ==> (#[trigger] tasks[i]).task_list.alive()
}

/// Whether a pass may hand `list` to `creep`: the chain has a task under
/// its cursor, the agent has every capability that task needs, and the
/// position the task aims at is not staffed at the cap.
pub open spec fn admissible(
    creep: CreepInfo,
    world: World,
    tasks: Seq<AssignmentView>,
    list: TaskListView,
) -> bool {
    &&& list.current_task() matches Some(task)
    &&& has_all_parts(creep.body@, task.required_parts())
    &&& has_room(tasks, world, task)
}

/// `tasks` with `list` as the assignment of the agent `id`, in place of the
/// one it had or as a new one at the end.
pub open spec fn put(tasks: Seq<AssignmentView>, id: ObjectId, list: TaskListView) -> Seq<
    AssignmentView,
> {
    match index_of(tasks, id) {
        Some(i) => tasks.update(i, AssignmentView { creep: id, task_list: list }),
        None => tasks.push(AssignmentView { creep: id, task_list: list }),
    }
}

/// Giving an agent a live chain keeps the assignments well formed.
pub proof fn lemma_put_well_formed(tasks: Seq<AssignmentView>, id: ObjectId, list: TaskListView)
    requires
        distinct_agents(tasks),
        all_alive(tasks),
        list.alive(),
    ensures
        distinct_agents(put(tasks, id, list)),
        all_alive(put(tasks, id, list)),
        index_of(put(tasks, id, list), id) is Some,
{
    crate::utils::lemma_first_where_is_first(tasks, assigned_to(id));
    let after = put(tasks, id, list);
    match index_of(tasks, id) {
        Some(i) => {
            assert(assigned_to(id)(tasks[i]));
            assert forall|a: int, b: int| 0 <= a < b < after.len() implies (#[trigger] after[a]).creep
                != (#[trigger] after[b]).creep by {
                assert(after[a].creep == tasks[a].creep);
                assert(after[b].creep == tasks[b].creep);
            }
            assert(assigned_to(id)(after[i]));
            crate::utils::lemma_first_where_is_first(after, assigned_to(id));
        },
        None => {
            assert forall|a: int, b: int| 0 <= a < b < after.len() implies (#[trigger] after[a]).creep
                != (#[trigger] after[b]).creep by {
                if b == tasks.len() {
                    assert(!assigned_to(id)(tasks[a]));
                } else {
                    assert(after[a].creep == tasks[a].creep);
                    assert(after[b].creep == tasks[b].creep);
                }
            }
            assert(assigned_to(id)(after[tasks.len() as int]));
            crate::utils::lemma_first_where_is_first(after, assigned_to(id));
        },
    }
}

/// Taking an assignment away keeps the assignments well formed.
pub proof fn lemma_remove_well_formed(tasks: Seq<AssignmentView>, i: int)
    requires
        distinct_agents(tasks),
        all_alive(tasks),
        0 <= i < tasks.len(),
    ensures
        distinct_agents(tasks.remove(i)),
        all_alive(tasks.remove(i)),
        index_of(tasks.remove(i), tasks[i].creep) is None,
{
    let after = tasks.remove(i);
    assert forall|a: int, b: int| 0 <= a < b < after.len() implies (#[trigger] after[a]).creep
        != (#[trigger] after[b]).creep by {
        let a0 = if a < i {
            a
        } else {
            a + 1
        };
        let b0 = if b < i {
            b
        } else {
            b + 1
        };
        assert(after[a] == tasks[a0]);
        assert(after[b] == tasks[b0]);
    }
    assert forall|a: int| 0 <= a < after.len() implies (#[trigger] after[a]).task_list.alive() by {
        let a0 = if a < i {
            a
        } else {
            a + 1
        };
        assert(after[a] == tasks[a0]);
    }
    assert forall|a: int| 0 <= a < after.len() implies !assigned_to(tasks[i].creep)(
        #[trigger] after[a],
    ) by {
        let a0 = if a < i {
            a
        } else {
            a + 1
        };
        assert(after[a] == tasks[a0]);
        if a0 < i {
            assert(tasks[a0].creep != tasks[i].creep);
        } else {
            assert(tasks[i].creep != tasks[a0].creep);
        }
    }
    crate::utils::lemma_first_where_none(after, assigned_to(tasks[i].creep));
}

impl TaskManagerView {
    /// No agent has two assignments, and every chain has a task under its cursor.
    pub open spec fn wf(self) -> bool {
        distinct_agents(self.tasks) && all_alive(self.tasks)
    }

    /// The chain the agent `id` works on.
    pub open spec fn task_list_of(self, id: ObjectId) -> Option<TaskListView> {
        match index_of(self.tasks, id) {
            Some(i) => Some(self.tasks[i].task_list),
            None => None,
        }
    }

    /// The state after the task of the agent `id` was carried a step
    /// forward: the task under the cursor of its chain is `task`.
    pub open spec fn stepped(self, id: ObjectId, task: crate::tasks::Task) -> TaskManagerView {
        match index_of(self.tasks, id) {
            Some(i) => TaskManagerView {
                tasks: self.tasks.update(
                    i,
                    AssignmentView {
                        creep: id,
                        task_list: self.tasks[i].task_list.with_current(task),
                    },
                ),
                ..self
            },
            None => self,
        }
    }

    /// The state after the current task of the agent `id` completed or was
    /// cancelled. A chain that is exhausted leaves the assignments; any other
    /// goes on with its next task. An agent without an assignment changes
    /// nothing.
    pub open spec fn advanced(self, id: ObjectId) -> TaskManagerView {
        match index_of(self.tasks, id) {
            None => self,
            Some(i) => {
                let list = self.tasks[i].task_list;
                if list.exhausted_by_next() {
                    TaskManagerView { tasks: self.tasks.remove(i), ..self }
                } else {
                    TaskManagerView {
                        tasks: self.tasks.update(
                            i,
                            AssignmentView { creep: id, task_list: list.advanced() },
                        ),
                        ..self
                    }
                }
            },
        }
    }

    /// The state after the current tasks of the agents `ids` completed or
    /// were cancelled, one after the other.
    pub open spec fn advanced_all(self, ids: Seq<ObjectId>) -> TaskManagerView
        decreases ids.len(),
    {
        if ids.len() == 0 {
            self
        } else {
            self.advanced_all(ids.drop_last()).advanced(ids.last())
        }
    }

    /// The state after an agent switched to another chain. An agent that is
    /// not alive changes nothing.
    pub open spec fn switched(self, switch: AssignmentView, world: World) -> TaskManagerView {
        match world.creep_index(switch.creep) {
            Some(c) => self.with_task_list(world.creeps@[c], world, switch.task_list),
            None => self,
        }
    }

    /// The state after the agents of `switches` switched, one after the other.
    pub open spec fn switched_all(self, switches: Seq<AssignmentView>, world: World) -> TaskManagerView
        decreases switches.len(),
    {
        if switches.len() == 0 {
            self
        } else {
            self.switched_all(switches.drop_last(), world).switched(switches.last(), world)
        }
    }

    /// The state after what the steps of a tick decided was settled: first
    /// the chains of the agents whose task completed move on, then those of
    /// the agents whose task was cancelled, then the agents that switched
    /// take up their new chain; at last the counts are made anew.
    pub open spec fn settled(
        self,
        world: World,
        completed: Seq<ObjectId>,
        cancelled: Seq<ObjectId>,
        switched: Seq<AssignmentView>,
    ) -> TaskManagerView {
        let tasks = self.advanced_all(completed).advanced_all(cancelled).switched_all(
            switched,
            world,
        ).tasks;
        TaskManagerView { tasks, counts: fresh_counts(tasks, world) }
    }

    /// The state after `creep` took up `list`, in place of what it worked
    /// on. A chain without a task under its cursor is not taken up. The
    /// agent is counted at once at the position its first task aims at.
    pub open spec fn with_task_list(self, creep: CreepInfo, world: World, list: TaskListView) -> TaskManagerView {
        match list.current_task() {
            None => self,
            Some(task) => TaskManagerView {
                tasks: put(self.tasks, creep.id, list),
                counts: match task.target_pos_spec(world) {
                    Some(pos) => self.counts.noted(creep, pos),
                    None => self.counts,
                },
            },
        }
    }
}

/// What the steps of one tick decided, agent by agent.
#[derive(Debug)]
pub struct Outcomes {
    /// The agents whose task reached its goal.
    pub completed: Vec<ObjectId>,
    /// The agents whose task gave up.
    pub cancelled: Vec<ObjectId>,
    /// The agents that take up another chain, with that chain.
    pub switched: Vec<Assignment>,
}

/// Energy to be sent from one link to another.
#[derive(Clone, Copy, Debug, PartialEq, Eq, Structural)]
pub struct LinkTransfer {
    pub from: ObjectId,
    pub to: ObjectId,
}

/// Room a link must have free to be sent energy.
pub const LINK_ROOM_NEEDED: i32 = 50;

/// Holds of the links with enough room to be sent energy.
pub open spec fn has_room_for_transfer(link: StructureInfo) -> bool {
    link.store.free > LINK_ROOM_NEEDED
}

/// The first link beside a storage with enough room.
pub open spec fn roomy_storage_link(map: LinkTypeMap) -> Option<int> {
    first_where(
        map.storage_links@,
        |l: crate::metadata::StorageLink| has_room_for_transfer(l.0),
    )
}

/// The first link beside the controller with enough room.
pub open spec fn roomy_controller_link(map: LinkTypeMap) -> Option<int> {
    first_where(
        map.controller_links@,
        |l: crate::metadata::ControllerLink| has_room_for_transfer(l.0),
    )
}

/// Where a link beside a resource node sends its energy: nowhere while it
/// cools down or is empty; else to the first link beside a storage with
/// enough room, or failing that to the first such link beside the controller.
pub open spec fn transfer_target(link: StructureInfo, map: LinkTypeMap) -> Option<ObjectId> {
    if link.cooldown > 0 || link.store.used == 0 {
        None
    } else if roomy_storage_link(map) is Some {
        Some(map.storage_links@[roomy_storage_link(map)->0].0.id)
    } else if roomy_controller_link(map) is Some {
        Some(map.controller_links@[roomy_controller_link(map)->0].0.id)
    } else {
        None
    }
}

/// The transfers of the first `n` links beside resource nodes of `map`.
pub open spec fn map_transfers(map: LinkTypeMap, n: int) -> Seq<LinkTransfer>
    decreases n,
{
    if n <= 0 || n > map.source_links@.len() {
        Seq::empty()
    } else {
        let rest = map_transfers(map, n - 1);
        let link = map.source_links@[n - 1].0;
        match transfer_target(link, map) {
            Some(to) => rest.push(LinkTransfer { from: link.id, to }),
            None => rest,
        }
    }
}

/// The transfers of the rooms, room after room; a room without sorted
/// links adds none.
pub open spec fn all_transfers(links: Map<u16, LinkTypeMap>, rooms: Seq<RoomInfo>) -> Seq<
    LinkTransfer,
>
    decreases rooms.len(),
{
    if rooms.len() == 0 {
        Seq::empty()
    } else {
        let rest = all_transfers(links, rooms.drop_last());
        let key = rooms.last().name.packed;
        if links.contains_key(key) {
            rest + map_transfers(links[key], links[key].source_links@.len() as int)
        } else {
            rest
        }
    }
}

/// Whether no room behind the one at index `r` has its name.
pub open spec fn last_of_its_name(rooms: Seq<RoomInfo>, r: int, end: int) -> bool {
    forall|q: int| r < q < end ==> (#[trigger] rooms[q]).name != rooms[r].name
}

/// Holds of the assignments whose agent is alive in `world`.
pub open spec fn still_alive(world: World) -> spec_fn(AssignmentView) -> bool {
    |a: AssignmentView| world.creep_index(a.creep) is Some
}

/// The chains on offer in every room, as plain values.
pub open spec fn pool_views(pools: Seq<Vec<TaskList>>) -> Seq<Seq<TaskListView>> {
    pools.map_values(|p: Vec<TaskList>| list_views(p@))
}

/// Where one pass over the idle agents stands: the scheduler's state and
/// what is still on offer, from the markers and in every room.
pub struct PassState {
    pub manager: TaskManagerView,
    pub flag_pool: Seq<TaskListView>,
    pub room_pools: Seq<Seq<TaskListView>>,
}

impl PassState {
    /// The pass after `creep` took the chain that suits it best among those
    /// the markers offer, if one suits it.
    pub open spec fn take_from_flags(self, creep: CreepInfo, world: World) -> Option<PassState> {
        match chosen_index(creep, world, self.manager.tasks, self.flag_pool) {
            Some(i) => Some(
                PassState {
                    manager: self.manager.with_task_list(creep, world, self.flag_pool[i]),
                    flag_pool: self.flag_pool.remove(i),
                    room_pools: self.room_pools,
                },
            ),
            None => None,
        }
    }

    /// The pass after `creep` took the chain that suits it best among those
    /// on offer in the room at index `r`, if one suits it.
    pub open spec fn take_from_room(self, creep: CreepInfo, world: World, r: int) -> Option<
        PassState,
    > {
        if 0 <= r < self.room_pools.len() {
            match chosen_index(creep, world, self.manager.tasks, self.room_pools[r]) {
                Some(i) => Some(
                    PassState {
                        manager: self.manager.with_task_list(creep, world, self.room_pools[r][i]),
                        flag_pool: self.flag_pool,
                        room_pools: self.room_pools.update(r, self.room_pools[r].remove(i)),
                    },
                ),
                None => None,
            }
        } else {
            None
        }
    }

    /// Whether `creep` may look for work in the room at index `k`: it is
    /// another room than its own, and no agent of its archetype is counted
    /// as at work there.
    pub open spec fn may_visit(self, creep: CreepInfo, world: World, k: int) -> bool {
        &&& 0 <= k < world.rooms@.len()
        &&& world.rooms@[k].name != creep.pos.room_spec()
        &&& self.manager.counts.type_count(world.rooms@[k].name, creep_type_of(creep.name@)) == 0
    }

    /// The pass after `creep` took a chain in the first room, from index `k`
    /// on, that it may visit and that has a chain to suit it.
    pub open spec fn take_from_others(self, creep: CreepInfo, world: World, k: int) -> Option<
        PassState,
    >
        decreases self.room_pools.len() - k,
    {
        if k < 0 || k >= self.room_pools.len() {
            None
        } else if self.may_visit(creep, world, k) && self.take_from_room(creep, world, k) is Some {
            self.take_from_room(creep, world, k)
        } else {
            self.take_from_others(creep, world, k + 1)
        }
    }

    /// The pass after `creep` took up what it falls back on, if that is
    /// anything the pass may hand to it.
    pub open spec fn take_default(self, creep: CreepInfo, world: World) -> PassState {
        match default_task_list(creep, world, self.manager.counts) {
            Some(list) => if admissible(creep, world, self.manager.tasks, list) {
                PassState { manager: self.manager.with_task_list(creep, world, list), ..self }
            } else {
                self
            },
            None => self,
        }
    }

    /// The index of the pool of the room `creep` stands in.
    pub open spec fn own_room(self, creep: CreepInfo, world: World) -> int {
        match world.room_index(creep.pos.room_spec()) {
            Some(r) => r,
            None => -1,
        }
    }

    /// The pass after one idle agent was served. It takes the first that
    /// offers a chain to suit it: the markers, its own room, another room
    /// that it may visit; failing all, what it falls back on.
    pub open spec fn assign_one(self, creep: CreepInfo, world: World) -> PassState {
        if self.take_from_flags(creep, world) is Some {
            self.take_from_flags(creep, world)->0
        } else if self.take_from_room(creep, world, self.own_room(creep, world)) is Some {
            self.take_from_room(creep, world, self.own_room(creep, world))->0
        } else if self.take_from_others(creep, world, 0) is Some {
            self.take_from_others(creep, world, 0)->0
        } else {
            self.take_default(creep, world)
        }
    }

    /// The pass after the agents of `creeps` that had no assignment in
    /// `initial` were served, one after the other.
    pub open spec fn assign_all(
        self,
        initial: Seq<AssignmentView>,
        creeps: Seq<CreepInfo>,
        world: World,
    ) -> PassState
        decreases creeps.len(),
    {
        if creeps.len() == 0 {
            self
        } else {
            let before = self.assign_all(initial, creeps.drop_last(), world);
            if index_of(initial, creeps.last().id) is None {
                before.assign_one(creeps.last(), world)
            } else {
                before
            }
        }
    }
}

/// What every room offers, given who is at work.
pub open spec fn room_pools_of(world: World, counts: WorkingCreepsView) -> Seq<Seq<TaskListView>> {
    world.rooms@.map_values(|r: RoomInfo| room_task_lists(r, counts))
}

/// The pass of one tick before any agent is served.
pub open spec fn pass_start(manager: TaskManagerView, world: World) -> PassState {
    PassState {
        manager,
        flag_pool: flag_task_lists(world.flags@, world),
        room_pools: room_pools_of(world, manager.counts),
    }
}

/// The pass of one tick after every idle agent was served.
pub open spec fn pass_end(manager: TaskManagerView, world: World) -> PassState {
    pass_start(manager, world).assign_all(manager.tasks, world.creeps@, world)
}

impl TaskManager {
    /// No agent has two assignments, and every chain has a task under its cursor.
    pub open spec fn wf(&self) -> bool {
        self@.wf()
    }

    /// A scheduler without assignments. Every agent alive is counted as at
    /// work in its own room, and none at any position.
    pub fn new(world: &World) -> (manager: TaskManager)
        ensures
            manager.wf(),
            manager@.tasks == Seq::<AssignmentView>::empty(),
            manager@.counts.by_room_and_type == roster_slots(world.creeps@),
            manager@.counts.by_room_and_pos == Seq::<Position>::empty(),
            manager.room_links@ == Map::<u16, LinkTypeMap>::empty(),
            within_caps(manager@.tasks, *world),
    {
        let manager = TaskManager {
            tasks: Vec::new(),
            working_creeps: WorkingCreeps::from_roster(&world.creeps),
            room_links: HashMap::new(),
        };
        proof {
            assert(manager@.tasks =~= Seq::<AssignmentView>::empty());
        }
        manager
    }

    /// Where the agent `id` has its assignment.
    pub fn find_assignment(&self, id: ObjectId) -> (found: Option<usize>)
        ensures
            found matches Some(i) ==> index_of(self@.tasks, id) == Some(i as int) && i
                < self.tasks.len() && self.tasks@[i as int].creep == id,
            found is None ==> index_of(self@.tasks, id) is None,
    {
        let ghost views = self@.tasks;
        let mut i: usize = 0;
        while i < self.tasks.len()
            invariant
                i <= self.tasks.len(),
                views == assignment_views(self.tasks@),
                forall|j: int| 0 <= j < i ==> !assigned_to(id)(#[trigger] views[j]),
            decreases self.tasks.len() - i,
        {
            if self.tasks[i].creep == id {
                proof {
                    assert(views[i as int] == self.tasks@[i as int]@);
                    crate::utils::lemma_first_where_found(views, assigned_to(id), i as int);
                }
                return Some(i);
            }
            assert(views[i as int] == self.tasks@[i as int]@);
            i += 1;
        }
        proof {
            crate::utils::lemma_first_where_none(views, assigned_to(id));
        }
        None
    }

    /// The chain the agent `id` works on.
    pub fn get_task_list(&self, id: ObjectId) -> (list: Option<&TaskList>)
        ensures
            match self@.task_list_of(id) {
                Some(view) => list matches Some(l) && l@ == view,
                None => list is None,
            },
    {
        match self.find_assignment(id) {
            Some(i) => {
                assert(self@.tasks[i as int] == self.tasks@[i as int]@);
                Some(&self.tasks[i].task_list)
            },
            None => None,
        }
    }

    /// Whether the position, taken as one of `room_name`, is staffed at or
    /// above `target_count`.
    pub fn is_pos_being_worked_on(&self, room_name: RoomName, pos: Position, target_count: u32) -> (r:
        bool)
        ensures
            r == self@.counts.worked_on(room_name, pos, target_count),
    {
        self.working_creeps.is_pos_being_worked_on(room_name, pos, target_count)
    }

    /// Hands `task_list` to `creep`, in place of what it worked on, whether
    /// or not the position it aims at is staffed: a pass asks first, a task
    /// that switches does not. Where the position has room, no position is
    /// staffed above the cap afterwards.
    pub fn set_task_list(&mut self, creep: &CreepInfo, world: &World, task_list: TaskList)
        requires
            old(self).wf(),
        ensures
            final(self).wf(),
            final(self)@ == old(self)@.with_task_list(*creep, *world, task_list@),
            final(self).room_links == old(self).room_links,
            within_caps(old(self)@.tasks, *world) && (task_list@.current_task() matches Some(task)
                ==> has_room(old(self)@.tasks, *world, task)) ==> within_caps(
                final(self)@.tasks,
                *world,
            ),
    {
        proof {
            if within_caps(self@.tasks, *world) && (task_list@.current_task() matches Some(task)
                ==> has_room(self@.tasks, *world, task)) {
                crate::laws::lemma_with_task_list_keeps_caps(self@, *creep, *world, task_list@);
            }
        }
        let target_pos = match task_list.current_task() {
            Some(task) => task.get_target_pos(world),
            None => {
                return ;
            },
        };
        match target_pos {
            Some(pos) => {
                self.working_creeps.note_assignment(creep, pos);
            },
            None => {},
        }
        let ghost before = self@.tasks;
        proof {
            lemma_put_well_formed(before, creep.id, task_list@);
        }
        match self.find_assignment(creep.id) {
            Some(i) => {
                self.tasks.set(i, Assignment { creep: creep.id, task_list });
                proof {
                    assert(self@.tasks =~= put(before, creep.id, task_list@));
                }
            },
            None => {
                self.tasks.push(Assignment { creep: creep.id, task_list });
                proof {
                    assert(self@.tasks =~= put(before, creep.id, task_list@));
                }
            },
        }
    }

    /// Drops the assignments of agents that are no longer alive, and keeps
    /// the others in their order. No position gets more crowded by it.
    pub fn clean_up_tasks(&mut self, world: &World)
        requires
            old(self).wf(),
        ensures
            final(self).wf(),
            final(self)@.tasks == old(self)@.tasks.filter(still_alive(*world)),
            within_caps(old(self)@.tasks, *world) ==> within_caps(final(self)@.tasks, *world),
            final(self)@.counts == old(self)@.counts,
            final(self).room_links == old(self).room_links,
    {
        let ghost start = self@.tasks;
        let ghost p = still_alive(*world);
        let ghost mut k: int = 0;
        let mut i: usize = 0;
        proof {
            reveal(Seq::filter);
            assert(start.take(0).filter(p) =~= Seq::<AssignmentView>::empty());
            assert(start.skip(0) =~= start);
            assert(self@.tasks =~= start.take(0).filter(p) + start.skip(0));
        }
        while i < self.tasks.len()
            invariant
                self.wf(),
                p == still_alive(*world),
                0 <= k <= start.len(),
                i == start.take(k).filter(p).len(),
                self@.tasks == start.take(k).filter(p) + start.skip(k),
                self.working_creeps == old(self).working_creeps,
                self.room_links == old(self).room_links,
            decreases self.tasks.len() - i,
        {
            let ghost now = self@.tasks;
            proof {
                reveal(Seq::filter);
                assert(start.take(k + 1).drop_last() =~= start.take(k));
                assert(now[i as int] == start.skip(k)[0]);
                assert(now[i as int] == self.tasks@[i as int]@);
            }
            let alive = world.find_creep(self.tasks[i].creep).is_some();
            if alive {
                proof {
                    assert(now =~= start.take(k + 1).filter(p) + start.skip(k + 1));
                    k = k + 1;
                }
                i += 1;
            } else {
                proof {
                    lemma_remove_well_formed(now, i as int);
                }
                self.tasks.remove(i);
                proof {
                    assert(self@.tasks =~= now.remove(i as int));
                    assert(now.remove(i as int) =~= start.take(k + 1).filter(p) + start.skip(
                        k + 1,
                    ));
                    k = k + 1;
                }
            }
        }
        proof {
            assert(start.skip(k).len() == 0);
            assert(k == start.len());
            assert(start.take(k) =~= start);
            assert(self@.tasks =~= start.filter(p));
            assert forall|pos: Position, attack: bool|
                crowd(start, *world, pos, attack) <= cap_of(attack) implies #[trigger] crowd(
                start.filter(p),
                *world,
                pos,
                attack,
            ) <= cap_of(attack) by {
                lemma_count_where_filter(start, aims(*world, pos, attack), p);
            }
        }
    }

    /// Indices, into the agents of `world`, of those without an assignment.
    pub fn get_idle_creeps(&self, world: &World) -> (idle: Vec<usize>)
        ensures
            forall|n: int|
                0 <= n < idle@.len() ==> (#[trigger] idle@[n]) < world.creeps@.len() && index_of(
                    self@.tasks,
                    world.creeps@[idle@[n] as int].id,
                ) is None,
            forall|c: int|
                0 <= c < world.creeps@.len() && index_of(self@.tasks, world.creeps@[c].id) is None
                    ==> idle@.contains(c as usize),
            forall|m: int, n: int| 0 <= m < n < idle@.len() ==> idle@[m] < idle@[n],
    {
        let mut idle: Vec<usize> = Vec::new();
        let mut c: usize = 0;
        while c < world.creeps.len()
            invariant
                c <= world.creeps.len(),
                forall|n: int|
                    0 <= n < idle@.len() ==> (#[trigger] idle@[n]) < c && index_of(
                        self@.tasks,
                        world.creeps@[idle@[n] as int].id,
                    ) is None,
                forall|d: int|
                    0 <= d < c && index_of(self@.tasks, world.creeps@[d].id) is None
                        ==> idle@.contains(d as usize),
                forall|m: int, n: int| 0 <= m < n < idle@.len() ==> idle@[m] < idle@[n],
            decreases world.creeps.len() - c,
        {
            if self.find_assignment(world.creeps[c].id).is_none() {
                let ghost before = idle@;
                idle.push(c);
                proof {
                    assert forall|d: int|
                        0 <= d < c + 1 && index_of(self@.tasks, world.creeps@[d].id) is None
                            implies idle@.contains(d as usize) by {
                        if d < c {
                            let n = choose|n: int| 0 <= n < before.len() && before[n] == d as usize;
                            assert(idle@[n] == d as usize);
                        } else {
                            assert(idle@[before.len() as int] == c);
                        }
                    }
                }
            }
            c += 1;
        }
        idle
    }

    /// Lets `creep` take the chain of `pool` that suits it best, if one suits it.
    fn take_from_pool(
        &mut self,
        creep: &CreepInfo,
        world: &World,
        pool: &mut Vec<TaskList>,
    ) -> (taken: bool)
        requires
            old(self).wf(),
        ensures
            final(self).wf(),
            final(self).room_links == old(self).room_links,
            match chosen_index(*creep, *world, old(self)@.tasks, list_views(old(pool)@)) {
                Some(i) => taken && final(self)@ == old(self)@.with_task_list(
                    *creep,
                    *world,
                    list_views(old(pool)@)[i],
                ) && list_views(final(pool)@) == list_views(old(pool)@).remove(i),
                None => !taken && final(self)@ == old(self)@ && final(pool)@ == old(pool)@,
            },
    {
        match get_task_list_with_room(creep, world, &self.tasks, pool) {
            Some(list) => {
                proof {
                    let i = chosen_index(*creep, *world, old(self)@.tasks, list_views(old(pool)@))->0;
                    crate::tasks::task_list::lemma_list_views_remove(old(pool)@, i);
                }
                self.set_task_list(creep, world, list);
                true
            },
            None => false,
        }
    }

    /// Serves one idle agent: it takes the first that offers a chain to suit
    /// it, the markers, its own room, another room that it may visit, or
    /// else what it falls back on.
    fn assign_one(
        &mut self,
        creep: &CreepInfo,
        world: &World,
        flag_pool: &mut Vec<TaskList>,
        room_pools: &mut Vec<Vec<TaskList>>,
    )
        requires
            old(self).wf(),
            old(room_pools)@.len() == world.rooms@.len(),
        ensures
            final(self).wf(),
            final(self).room_links == old(self).room_links,
            final(room_pools)@.len() == world.rooms@.len(),
            (PassState {
                manager: final(self)@,
                flag_pool: list_views(final(flag_pool)@),
                room_pools: pool_views(final(room_pools)@),
            }) == (PassState {
                manager: old(self)@,
                flag_pool: list_views(old(flag_pool)@),
                room_pools: pool_views(old(room_pools)@),
            }).assign_one(*creep, *world),
    {
        let ghost before = PassState {
            manager: self@,
            flag_pool: list_views(flag_pool@),
            room_pools: pool_views(room_pools@),
        };
        if self.take_from_pool(creep, world, flag_pool) {
            return ;
        }
        match world.find_room(creep.pos.room_name()) {
            Some(r) => {
                let ghost pools = room_pools@;
                let taken = self.take_from_pool(creep, world, &mut room_pools[r]);
                proof {
                    assert(pool_views(pools)[r as int] == list_views(pools[r as int]@));
                    if taken {
                        assert(pool_views(room_pools@) =~= pool_views(pools).update(
                            r as int,
                            list_views(room_pools@[r as int]@),
                        ));
                    } else {
                        assert(pool_views(room_pools@) =~= pool_views(pools));
                    }
                }
                if taken {
                    return ;
                }
            },
            None => {},
        }
        let creep_type = get_creep_type(creep.name.as_str());
        let creep_room = creep.pos.room_name();
        let mut k: usize = 0;
        while k < room_pools.len()
            invariant
                k <= room_pools.len(),
                room_pools@.len() == world.rooms@.len(),
                self.wf(),
                self.room_links == old(self).room_links,
                creep_type@ == creep_type_of(creep.name@),
                creep_room == creep.pos.room_spec(),
                before == (PassState {
                    manager: self@,
                    flag_pool: list_views(flag_pool@),
                    room_pools: pool_views(room_pools@),
                }),
                before == (PassState {
                    manager: old(self)@,
                    flag_pool: list_views(old(flag_pool)@),
                    room_pools: pool_views(old(room_pools)@),
                }),
                before.take_from_flags(*creep, *world) is None,
                before.take_from_room(*creep, *world, before.own_room(*creep, *world)) is None,
                before.take_from_others(*creep, *world, 0) == before.take_from_others(
                    *creep,
                    *world,
                    k as int,
                ),
            decreases room_pools.len() - k,
        {
            let room_name = world.rooms[k].name;
            if room_name != creep_room && self.working_creeps.count_by_type(
                room_name,
                creep_type.as_str(),
            ) == 0 {
                let ghost pools = room_pools@;
                let taken = self.take_from_pool(creep, world, &mut room_pools[k]);
                proof {
                    assert(pool_views(pools)[k as int] == list_views(pools[k as int]@));
                    if taken {
                        assert(pool_views(room_pools@) =~= pool_views(pools).update(
                            k as int,
                            list_views(room_pools@[k as int]@),
                        ));
                    } else {
                        assert(pool_views(room_pools@) =~= pool_views(pools));
                    }
                }
                if taken {
                    proof {
                        let after = PassState {
                            manager: self@,
                            flag_pool: list_views(flag_pool@),
                            room_pools: pool_views(room_pools@),
                        };
                        assert(before.may_visit(*creep, *world, k as int));
                        assert(before.take_from_room(*creep, *world, k as int) == Some(after));
                        assert(before.take_from_others(*creep, *world, k as int)
                            == before.take_from_room(*creep, *world, k as int));
                        assert(before.assign_one(*creep, *world) == after);
                    }
                    return ;
                }
            }
            k += 1;
        }
        match get_default_task_list_for_creep(creep, world, &self.working_creeps) {
            Some(list) => {
                let free = match list.current_task() {
                    Some(task) => has_parts_for(creep, task) && task_has_room(
                        &self.tasks,
                        world,
                        task,
                    ),
                    None => false,
                };
                if free {
                    self.set_task_list(creep, world, list);
                }
            },
            None => {},
        }
    }

    /// Matches every idle agent of `world` with work, in the order of the
    /// world's agents. Every agent that takes up a chain is counted at once,
    /// so that those served after it see it. No agent is handed a task that
    /// it lacks a capability for, or one that aims at a position staffed at
    /// the cap: where no position was staffed above the cap before the
    /// pass, none is after it. Returns the chains asked for by
    /// markers that no agent took, and the markers to take away.
    pub fn assign_tasks(&mut self, world: &World) -> (left: FlagTasks)
        requires
            old(self).wf(),
        ensures
            final(self).wf(),
            final(self)@ == pass_end(old(self)@, *world).manager,
            within_caps(old(self)@.tasks, *world) ==> within_caps(final(self)@.tasks, *world),
            crate::laws::distinct_creeps(*world) && crate::laws::all_capable(
                old(self)@.tasks,
                *world,
            ) ==> crate::laws::all_capable(final(self)@.tasks, *world),
            crate::laws::distinct_creeps(*world) ==> crate::laws::handed_out_capably(
                old(self)@.tasks,
                final(self)@.tasks,
                *world,
            ),
            list_views(left.task_lists@) == pass_end(old(self)@, *world).flag_pool,
            left.removals@ == flag_removals(world.flags@, *world),
            final(self).room_links == old(self).room_links,
    {
        let ghost initial = self@.tasks;
        let idle = self.get_idle_creeps(world);
        let found = get_flag_task_lists(world);
        let mut flag_pool = found.task_lists;
        let removals = found.removals;
        let mut room_pools: Vec<Vec<TaskList>> = Vec::new();
        let mut r: usize = 0;
        while r < world.rooms.len()
            invariant
                r <= world.rooms.len(),
                room_pools@.len() == r,
                pool_views(room_pools@) == room_pools_of(*world, self@.counts).take(r as int),
            decreases world.rooms.len() - r,
        {
            let pool = get_room_task_lists(&world.rooms[r], &self.working_creeps);
            room_pools.push(pool);
            proof {
                assert(pool_views(room_pools@) =~= room_pools_of(*world, self@.counts).take(
                    r + 1,
                ));
            }
            r += 1;
        }
        proof {
            assert(room_pools_of(*world, self@.counts).take(r as int) =~= room_pools_of(
                *world,
                self@.counts,
            ));
        }
        let ghost start = pass_start(self@, *world);
        let mut c: usize = 0;
        let mut n: usize = 0;
        while c < world.creeps.len()
            invariant
                c <= world.creeps.len(),
                n <= idle@.len(),
                self.wf(),
                self.room_links == old(self).room_links,
                room_pools@.len() == world.rooms@.len(),
                initial == old(self)@.tasks,
                start == pass_start(old(self)@, *world),
                forall|m: int|
                    0 <= m < idle@.len() ==> (#[trigger] idle@[m]) < world.creeps@.len()
                        && index_of(initial, world.creeps@[idle@[m] as int].id) is None,
                forall|d: int|
                    0 <= d < world.creeps@.len() && index_of(initial, world.creeps@[d].id) is None
                        ==> idle@.contains(d as usize),
                forall|a: int, b: int| 0 <= a < b < idle@.len() ==> idle@[a] < idle@[b],
                forall|m: int| 0 <= m < n ==> (#[trigger] idle@[m]) < c,
                n < idle@.len() ==> idle@[n as int] >= c,
                (PassState {
                    manager: self@,
                    flag_pool: list_views(flag_pool@),
                    room_pools: pool_views(room_pools@),
                }) == start.assign_all(initial, world.creeps@.take(c as int), *world),
            decreases world.creeps.len() - c,
        {
            proof {
                assert(world.creeps@.take(c + 1).drop_last() =~= world.creeps@.take(c as int));
            }
            if n < idle.len() && idle[n] == c {
                self.assign_one(&world.creeps[c], world, &mut flag_pool, &mut room_pools);
                n += 1;
            } else {
                proof {
                    if index_of(initial, world.creeps@[c as int].id) is None {
                        let m = choose|m: int| 0 <= m < idle@.len() && idle@[m] == c;
                        if m < n {
                            assert(idle@[m] < c);
                        } else if m > n {
                            assert(idle@[n as int] < idle@[m]);
                        }
                    }
                }
            }
            c += 1;
        }
        proof {
            assert(world.creeps@.take(c as int) =~= world.creeps@);
            if within_caps(old(self)@.tasks, *world) {
                crate::laws::lemma_pass_keeps_caps(old(self)@, *world);
            }
            if crate::laws::distinct_creeps(*world) && crate::laws::all_capable(
                old(self)@.tasks,
                *world,
            ) {
                crate::laws::lemma_pass_keeps_capability(old(self)@, *world);
            }
            if crate::laws::distinct_creeps(*world) {
                crate::laws::lemma_pass_hands_out_capably(old(self)@, *world);
            }
        }
        FlagTasks { task_lists: flag_pool, removals }
    }

    /// Carries the current task of `creep` one step forward. The step is
    /// either final for the tick or names the action to carry out, whose
    /// report goes to `resume_task`. An agent without an assignment goes on.
    pub fn begin_task(&mut self, creep: &CreepInfo, world: &World) -> (step: Step)
        requires
            old(self).wf(),
        ensures
            final(self).wf(),
            final(self).room_links == old(self).room_links,
            match old(self)@.task_list_of(creep.id) {
                Some(list) => step@ == list.current_task()->0.execute_spec(*creep, *world)
                    && final(self)@ == old(self)@.stepped(
                    creep.id,
                    list.current_task()->0.after_execute(*creep),
                ),
                None => step@ == StepView::Continue && final(self)@ == old(self)@,
            },
    {
        let ghost before = self@;
        match self.find_assignment(creep.id) {
            Some(i) => {
                assert(before.tasks[i as int] == self.tasks@[i as int]@);
                let step = match self.tasks[i].task_list.current_task_mut() {
                    Some(task) => task.execute(creep, world),
                    None => Step::Continue,
                };
                proof {
                    let list = before.tasks[i as int].task_list;
                    let task = list.current_task()->0.after_execute(*creep);
                    assert(self@.tasks =~= before.stepped(creep.id, task).tasks);
                    lemma_step_well_formed(before.tasks, i as int, task);
                }
                step
            },
            None => Step::Continue,
        }
    }

    /// Hands the current task of `creep` the world's answer to the action
    /// that its last step named.
    pub fn resume_task(
        &mut self,
        creep: &CreepInfo,
        world: &World,
        action: Action,
        report: Report,
    ) -> (step: Step)
        requires
            old(self).wf(),
        ensures
            final(self).wf(),
            final(self).room_links == old(self).room_links,
            match old(self)@.task_list_of(creep.id) {
                Some(list) => step@ == list.current_task()->0.resume_spec(
                    *creep,
                    *world,
                    action,
                    report,
                ) && final(self)@ == old(self)@.stepped(
                    creep.id,
                    list.current_task()->0.after_resume(action, report),
                ),
                None => step@ == StepView::Continue && final(self)@ == old(self)@,
            },
    {
        let ghost before = self@;
        match self.find_assignment(creep.id) {
            Some(i) => {
                assert(before.tasks[i as int] == self.tasks@[i as int]@);
                let step = match self.tasks[i].task_list.current_task_mut() {
                    Some(task) => task.resume(creep, world, action, report),
                    None => Step::Continue,
                };
                proof {
                    let list = before.tasks[i as int].task_list;
                    let task = list.current_task()->0.after_resume(action, report);
                    assert(self@.tasks =~= before.stepped(creep.id, task).tasks);
                    lemma_step_well_formed(before.tasks, i as int, task);
                }
                step
            },
            None => Step::Continue,
        }
    }

    /// Moves the chain of the agent `id` on after its current task
    /// completed or was cancelled.
    pub fn advance(&mut self, id: ObjectId)
        requires
            old(self).wf(),
        ensures
            final(self).wf(),
            final(self)@ == old(self)@.advanced(id),
            final(self).room_links == old(self).room_links,
    {
        let ghost before = self@;
        let i = match self.find_assignment(id) {
            Some(i) => i,
            None => {
                return ;
            },
        };
        assert(before.tasks[i as int] == self.tasks@[i as int]@);
        let exhausted = self.tasks[i].task_list.next_task().is_none();
        if exhausted {
            proof {
                lemma_remove_well_formed(before.tasks, i as int);
            }
            self.tasks.remove(i);
            proof {
                assert(self@.tasks =~= before.tasks.remove(i as int));
            }
        } else {
            proof {
                let next = before.tasks[i as int].task_list.advanced();
                assert(self@.tasks =~= before.tasks.update(
                    i as int,
                    AssignmentView { creep: id, task_list: next },
                ));
                lemma_update_well_formed(before.tasks, i as int, next);
            }
        }
    }

    /// Counts anew, from the assignments, who works where.
    pub fn recalculate_working_creeps(&mut self, world: &World)
        ensures
            final(self)@.tasks == old(self)@.tasks,
            final(self)@.counts == fresh_counts(old(self)@.tasks, *world),
            final(self).tasks == old(self).tasks,
            final(self).room_links == old(self).room_links,
    {
        self.working_creeps = WorkingCreeps::recalculate(&self.tasks, world);
    }

    /// Settles what the steps of a tick decided: first the chains of the
    /// agents whose task completed move on, then those of the agents whose
    /// task was cancelled, then the agents that switched take up their new
    /// chain. At last the counts of who works where are made anew.
    pub fn execute_tasks(&mut self, world: &World, outcomes: Outcomes)
        requires
            old(self).wf(),
        ensures
            final(self).wf(),
            final(self)@ == old(self)@.settled(
                *world,
                outcomes.completed@,
                outcomes.cancelled@,
                assignment_views(outcomes.switched@),
            ),
            final(self).room_links == old(self).room_links,
    {
        let mut i: usize = 0;
        while i < outcomes.completed.len()
            invariant
                i <= outcomes.completed.len(),
                self.wf(),
                self.room_links == old(self).room_links,
                self@ == old(self)@.advanced_all(outcomes.completed@.take(i as int)),
            decreases outcomes.completed.len() - i,
        {
            proof {
                assert(outcomes.completed@.take(i + 1).drop_last() =~= outcomes.completed@.take(
                    i as int,
                ));
            }
            self.advance(outcomes.completed[i]);
            i += 1;
        }
        proof {
            assert(outcomes.completed@.take(i as int) =~= outcomes.completed@);
        }
        let ghost middle = self@;
        let mut j: usize = 0;
        while j < outcomes.cancelled.len()
            invariant
                j <= outcomes.cancelled.len(),
                self.wf(),
                self.room_links == old(self).room_links,
                self@ == middle.advanced_all(outcomes.cancelled@.take(j as int)),
            decreases outcomes.cancelled.len() - j,
        {
            proof {
                assert(outcomes.cancelled@.take(j + 1).drop_last() =~= outcomes.cancelled@.take(
                    j as int,
                ));
            }
            self.advance(outcomes.cancelled[j]);
            j += 1;
        }
        proof {
            assert(outcomes.cancelled@.take(j as int) =~= outcomes.cancelled@);
        }
        let ghost late = self@;
        let mut switched = outcomes.switched;
        let ghost switches = assignment_views(switched@);
        let ghost total = switched@.len();
        while switched.len() > 0
            invariant
                self.wf(),
                self.room_links == old(self).room_links,
                switched@.len() <= total,
                total == switches.len(),
                assignment_views(switched@) == switches.skip(total - switched@.len()),
                self@ == late.switched_all(switches.take(total - switched@.len()), *world),
            decreases switched.len(),
        {
            let ghost done = total - switched@.len();
            let ghost rest = switched@;
            let switch = switched.remove(0);
            proof {
                assert(switch@ == assignment_views(rest)[0]);
                assert(switch@ == switches[done]);
                assert forall|k: int| 0 <= k < switched@.len() implies assignment_views(
                    switched@,
                )[k] == switches.skip(done + 1)[k] by {
                    assert(switched@[k] == rest[k + 1]);
                    assert(assignment_views(rest)[k + 1] == switches.skip(done)[k + 1]);
                }
                assert(assignment_views(switched@) =~= switches.skip(done + 1));
                assert(switches.take(done + 1).drop_last() =~= switches.take(done));
            }
            match world.find_creep(switch.creep) {
                Some(c) => {
                    self.set_task_list(&world.creeps[c], world, switch.task_list);
                },
                None => {},
            }
        }
        proof {
            assert(switches.take(total as int) =~= switches);
        }
        self.recalculate_working_creeps(world);
    }

    /// Sorts the links of every room of `world` anew. Afterwards the rooms
    /// with sorted links are those of the world, each with the sorting of
    /// its own links (of several rooms of one name, the last).
    pub fn classify_links(&mut self, world: &World)
        ensures
            final(self)@ == old(self)@,
            final(self).tasks == old(self).tasks,
            forall|key: u16|
                final(self).room_links@.contains_key(key) <==> exists|r: int|
                    0 <= r < world.rooms@.len() && (#[trigger] world.rooms@[r]).name.packed == key,
            forall|r: int|
                0 <= r < world.rooms@.len() && last_of_its_name(
                    world.rooms@,
                    r,
                    world.rooms@.len() as int,
                ) ==> final(self).room_links@[(#[trigger] world.rooms@[r]).name.packed].sorts(
                    world.rooms@[r].my_structures@,
                    world.rooms@[r].sources@,
                    world.rooms@[r].controller,
                ),
    {
        broadcast use vstd::std_specs::hash::group_hash_axioms;

        let mut room_links: RoomLinks = HashMap::new();
        let mut r: usize = 0;
        while r < world.rooms.len()
            invariant
                r <= world.rooms.len(),
                forall|key: u16|
                    room_links@.contains_key(key) <==> exists|k: int|
                        0 <= k < r && (#[trigger] world.rooms@[k]).name.packed == key,
                forall|k: int|
                    0 <= k < r && last_of_its_name(world.rooms@, k, r as int)
                        ==> room_links@[(#[trigger] world.rooms@[k]).name.packed].sorts(
                        world.rooms@[k].my_structures@,
                        world.rooms@[k].sources@,
                        world.rooms@[k].controller,
                    ),
            decreases world.rooms.len() - r,
        {
            let room = &world.rooms[r];
            let links = LinkTypeMap::new(&room.my_structures, &room.sources, room.controller);
            let ghost before = room_links@;
            room_links.insert(room.name.packed, links);
            proof {
                assert forall|key: u16|
                    room_links@.contains_key(key) <==> exists|k: int|
                        0 <= k < r + 1 && (#[trigger] world.rooms@[k]).name.packed == key by {
                    if room_links@.contains_key(key) {
                        if key == room.name.packed {
                            assert(world.rooms@[r as int].name.packed == key);
                        } else {
                            assert(before.contains_key(key));
                        }
                    }
                }
                assert forall|k: int|
                    0 <= k < r + 1 && last_of_its_name(
                        world.rooms@,
                        k,
                        r + 1,
                    ) implies room_links@[(#[trigger] world.rooms@[k]).name.packed].sorts(
                    world.rooms@[k].my_structures@,
                    world.rooms@[k].sources@,
                    world.rooms@[k].controller,
                ) by {
                    if k < r {
                        assert(world.rooms@[r as int].name != world.rooms@[k].name);
                        assert(last_of_its_name(world.rooms@, k, r as int));
                    }
                }
            }
            r += 1;
        }
        self.room_links = room_links;
    }

    /// Decides which links send their energy where this tick, room by room
    /// in the order of the world's rooms.
    pub fn execute_links(&self, world: &World) -> (transfers: Vec<LinkTransfer>)
        ensures
            transfers@ == all_transfers(self.room_links@, world.rooms@),
    {
        broadcast use vstd::std_specs::hash::group_hash_axioms;

        let mut transfers: Vec<LinkTransfer> = Vec::new();
        let mut r: usize = 0;
        while r < world.rooms.len()
            invariant
                r <= world.rooms.len(),
                transfers@ == all_transfers(self.room_links@, world.rooms@.take(r as int)),
            decreases world.rooms.len() - r,
        {
            proof {
                assert(world.rooms@.take(r + 1).drop_last() =~= world.rooms@.take(r as int));
            }
            let key = world.rooms[r].name.packed;
            match self.room_links.get(&key) {
                Some(map) => {
                    let ghost before = transfers@;
                    let storage = first_roomy_storage_link(map);
                    let controller = first_roomy_controller_link(map);
                    let mut n: usize = 0;
                    while n < map.source_links.len()
                        invariant
                            n <= map.source_links.len(),
                            transfers@ == before + map_transfers(*map, n as int),
                            storage == match roomy_storage_link(*map) {
                                Some(i) => Some(map.storage_links@[i].0.id),
                                None => None,
                            },
                            controller == match roomy_controller_link(*map) {
                                Some(i) => Some(map.controller_links@[i].0.id),
                                None => None,
                            },
                        decreases map.source_links.len() - n,
                    {
                        let link = map.source_links[n].0;
                        if link.cooldown == 0 && link.store.used > 0 {
                            let to = match storage {
                                Some(id) => Some(id),
                                None => controller,
                            };
                            match to {
                                Some(to) => {
                                    transfers.push(LinkTransfer { from: link.id, to });
                                },
                                None => {},
                            }
                        }
                        proof {
                            assert(transfers@ =~= before + map_transfers(*map, n + 1));
                        }
                        n += 1;
                    }
                },
                None => {},
            }
            r += 1;
        }
        proof {
            assert(world.rooms@.take(r as int) =~= world.rooms@);
        }
        transfers
    }
}

/// Putting another task under the cursor of a chain keeps the assignments
/// well formed.
pub proof fn lemma_step_well_formed(tasks: Seq<AssignmentView>, i: int, task: crate::tasks::Task)
    requires
        distinct_agents(tasks),
        all_alive(tasks),
        0 <= i < tasks.len(),
    ensures
        distinct_agents(
            tasks.update(
                i,
                AssignmentView {
                    creep: tasks[i].creep,
                    task_list: tasks[i].task_list.with_current(task),
                },
            ),
        ),
        all_alive(
            tasks.update(
                i,
                AssignmentView {
                    creep: tasks[i].creep,
                    task_list: tasks[i].task_list.with_current(task),
                },
            ),
        ),
{
    lemma_update_well_formed(tasks, i, tasks[i].task_list.with_current(task));
}

/// Giving an agent another live chain keeps the assignments well formed.
pub proof fn lemma_update_well_formed(tasks: Seq<AssignmentView>, i: int, list: TaskListView)
    requires
        distinct_agents(tasks),
        all_alive(tasks),
        0 <= i < tasks.len(),
        list.alive(),
    ensures
        distinct_agents(tasks.update(i, AssignmentView { creep: tasks[i].creep, task_list: list })),
        all_alive(tasks.update(i, AssignmentView { creep: tasks[i].creep, task_list: list })),
{
    let after = tasks.update(i, AssignmentView { creep: tasks[i].creep, task_list: list });
    assert forall|a: int, b: int| 0 <= a < b < after.len() implies (#[trigger] after[a]).creep
        != (#[trigger] after[b]).creep by {
        assert(after[a].creep == tasks[a].creep);
        assert(after[b].creep == tasks[b].creep);
    }
}

/// The first link beside a storage with enough room.
fn first_roomy_storage_link(map: &LinkTypeMap) -> (found: Option<ObjectId>)
    ensures
        found == match roomy_storage_link(*map) {
            Some(i) => Some(map.storage_links@[i].0.id),
            None => None,
        },
{
    let ghost p = |l: crate::metadata::StorageLink| has_room_for_transfer(l.0);
    let mut i: usize = 0;
    while i < map.storage_links.len()
        invariant
            i <= map.storage_links.len(),
            forall|j: int| 0 <= j < i ==> !p(#[trigger] map.storage_links@[j]),
            p == |l: crate::metadata::StorageLink| has_room_for_transfer(l.0),
        decreases map.storage_links.len() - i,
    {
        if map.storage_links[i].0.store.free > LINK_ROOM_NEEDED {
            proof {
                crate::utils::lemma_first_where_found(map.storage_links@, p, i as int);
            }
            return Some(map.storage_links[i].0.id);
        }
        i += 1;
    }
    proof {
        crate::utils::lemma_first_where_none(map.storage_links@, p);
    }
    None
}

/// The first link beside the controller with enough room.
fn first_roomy_controller_link(map: &LinkTypeMap) -> (found: Option<ObjectId>)
    ensures
        found == match roomy_controller_link(*map) {
            Some(i) => Some(map.controller_links@[i].0.id),
            None => None,
        },
{
    let ghost p = |l: crate::metadata::ControllerLink| has_room_for_transfer(l.0);
    let mut i: usize = 0;
    while i < map.controller_links.len()
        invariant
            i <= map.controller_links.len(),
            forall|j: int| 0 <= j < i ==> !p(#[trigger] map.controller_links@[j]),
            p == |l: crate::metadata::ControllerLink| has_room_for_transfer(l.0),
        decreases map.controller_links.len() - i,
    {
        if map.controller_links[i].0.store.free > LINK_ROOM_NEEDED {
            proof {
                crate::utils::lemma_first_where_found(map.controller_links@, p, i as int);
            }
            return Some(map.controller_links[i].0.id);
        }
        i += 1;
    }
    proof {
        crate::utils::lemma_first_where_none(map.controller_links@, p);
    }
    None
}

} // verus!
