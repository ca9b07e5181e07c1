//! What holds of the scheduler whatever the world looks like.

use crate::game::{CreepInfo, GameObject, ObjectId};
use crate::metadata::{ControllerInfo, ControllerLink, StorageLink, StructureInfo, World};
use crate::position::{Position, RoomName};
use crate::tasks::candidates::{
    attack_lists, controller_link_lists, fill_lists, repair_lists, spare_storage,
    storage_link_lists, Fill,
};
use crate::tasks::defaults::default_task_list;
use crate::tasks::manager::{
    admissible, assigned_to, distinct_agents, index_of, lemma_remove_well_formed,
    lemma_update_well_formed, pass_end, pass_start, put, PassState, TaskManagerView,
};
use crate::tasks::matching::{chosen_index, suits};
use crate::tasks::occupancy::{
    aims, cap_of, crowd, has_room, is_pos, pos_slot_of, pos_slots, within_caps, AssignmentView,
    WorkingCreepsView, COMBAT_CAP, WORK_CAP,
};
use crate::tasks::harvest::needs_energy;
use crate::tasks::harvest_source::FULL_MARGIN;
use crate::tasks::task::{expired, is_move, Action, Report, StepView};
use crate::tasks::transfer::transfer_to;
use crate::tasks::task_list::TaskListView;
use crate::tasks::{has_all_parts, AttackTask, HarvestSourceTask, Task};
use crate::utils::{count_where, lemma_first_where_is_first};
use vstd::prelude::*;

pub mod offers;

verus! {

/// Single assignment: among well-formed assignments no agent has more than
/// one chain.
pub proof fn lemma_single_assignment(manager: TaskManagerView, id: ObjectId)
    requires
        manager.wf(),
    ensures
        count_where(manager.tasks, assigned_to(id)) <= 1,
{
    lemma_count_at_most_one(manager.tasks, id, manager.tasks.len() as int);
    assert(manager.tasks.take(manager.tasks.len() as int) =~= manager.tasks);
}

/// Among the first `n` assignments at most one is that of the agent `id`.
proof fn lemma_count_at_most_one(tasks: Seq<AssignmentView>, id: ObjectId, n: int)
    requires
        distinct_agents(tasks),
        0 <= n <= tasks.len(),
    ensures
        count_where(tasks.take(n), assigned_to(id)) <= 1,
        count_where(tasks.take(n), assigned_to(id)) == 1 ==> exists|i: int|
            0 <= i < n && (#[trigger] tasks[i]).creep == id,
    decreases n,
{
    if n > 0 {
        lemma_count_at_most_one(tasks, id, n - 1);
        assert(tasks.take(n).drop_last() =~= tasks.take(n - 1));
        if tasks[n - 1].creep == id {
            if count_where(tasks.take(n - 1), assigned_to(id)) == 1 {
                let i = choose|i: int| 0 <= i < n - 1 && (#[trigger] tasks[i]).creep == id;
                assert(tasks[i].creep != tasks[n - 1].creep);
            }
        }
    }
}

/// Chain exhaustion, for the chain alone: a chain of `n` tasks that does
/// not repeat, started at its first task, stands on task `k` after `k`
/// steps forward for every `k` below `n`, and only the step from its last
/// task exhausts it.
pub proof fn lemma_chain_steps(list: TaskListView, k: nat)
    requires
        !list.repeat,
        list.current_task_idx == 0,
        k < list.tasks.len(),
    ensures
        list.advanced_by(k) == (TaskListView { current_task_idx: k as int, ..list }),
        list.advanced_by(k).alive(),
        list.advanced_by(k).exhausted_by_next() <==> k + 1 == list.tasks.len(),
    decreases k,
{
    if k > 0 {
        lemma_chain_steps(list, (k - 1) as nat);
    }
}

/// The state after the current task of the agent `id` completed or was
/// cancelled `n` times in a row.
pub open spec fn advanced_times(manager: TaskManagerView, id: ObjectId, n: nat) -> TaskManagerView
    decreases n,
{
    if n == 0 {
        manager
    } else {
        advanced_times(manager, id, (n - 1) as nat).advanced(id)
    }
}

/// Moving a chain on keeps the assignments well formed.
pub proof fn lemma_advanced_well_formed(manager: TaskManagerView, id: ObjectId)
    requires
        manager.wf(),
    ensures
        manager.advanced(id).wf(),
{
    lemma_first_where_is_first(manager.tasks, assigned_to(id));
    match index_of(manager.tasks, id) {
        Some(i) => {
            let list = manager.tasks[i].task_list;
            if list.exhausted_by_next() {
                lemma_remove_well_formed(manager.tasks, i);
            } else {
                assert(assigned_to(id)(manager.tasks[i]));
                lemma_update_well_formed(manager.tasks, i, list.advanced());
            }
        },
        None => {},
    }
}

/// Chain exhaustion: an agent that works on a chain of `n` tasks that does
/// not repeat, started at its first task, still works on it, at task `k`,
/// after `k` of its tasks completed or were cancelled, for every `k` below
/// `n`; and has no assignment after `n` or more.
pub proof fn lemma_chain_exhaustion(
    manager: TaskManagerView,
    id: ObjectId,
    list: TaskListView,
    k: nat,
)
    requires
        manager.wf(),
        manager.task_list_of(id) == Some(list),
        !list.repeat,
        list.current_task_idx == 0,
    ensures
        advanced_times(manager, id, k).wf(),
        k < list.tasks.len() ==> advanced_times(manager, id, k).task_list_of(id) == Some(
            TaskListView { current_task_idx: k as int, ..list },
        ),
        k >= list.tasks.len() ==> advanced_times(manager, id, k).task_list_of(id) is None,
    decreases k,
{
    lemma_first_where_is_first(manager.tasks, assigned_to(id));
    if k > 0 {
        lemma_chain_exhaustion(manager, id, list, (k - 1) as nat);
        let before = advanced_times(manager, id, (k - 1) as nat);
        lemma_advanced_well_formed(before, id);
        lemma_first_where_is_first(before.tasks, assigned_to(id));
        if k - 1 < list.tasks.len() {
            let i = index_of(before.tasks, id)->0;
            let now = before.tasks[i].task_list;
            assert(assigned_to(id)(before.tasks[i]));
            if k < list.tasks.len() {
                let after = before.tasks.update(
                    i,
                    AssignmentView { creep: id, task_list: now.advanced() },
                );
                assert(assigned_to(id)(after[i]));
                assert forall|j: int| 0 <= j < i implies !assigned_to(id)(#[trigger] after[j]) by {
                    assert(!assigned_to(id)(before.tasks[j]));
                }
                crate::utils::lemma_first_where_found(after, assigned_to(id), i);
            } else {
                lemma_remove_well_formed(before.tasks, i);
            }
        }
    }
}

/// Capability safety: an agent that takes a chain from a pool has every
/// capability that the task under the cursor of that chain needs, and the
/// position that task aims at is not staffed at the cap.
pub proof fn lemma_pool_choice_is_admissible(
    creep: CreepInfo,
    world: World,
    tasks: Seq<AssignmentView>,
    pool: Seq<TaskListView>,
)
    requires
        chosen_index(creep, world, tasks, pool) is Some,
    ensures
        ({
            let i = chosen_index(creep, world, tasks, pool)->0;
            &&& 0 <= i < pool.len()
            &&& suits(creep, world, tasks, pool[i])
            &&& admissible(creep, world, tasks, pool[i])
        }),
{
    let flags = crate::tasks::matching::candidate_flags(creep, world, tasks, pool);
    let keys = crate::tasks::matching::candidate_keys(creep, world, pool);
    crate::utils::lemma_first_min_is_min(flags, keys);
    let i = chosen_index(creep, world, tasks, pool)->0;
    assert(flags[i]);
}

/// Whether serving `creep` leaves the assignments as they are or hands the
/// agent one chain that the pass may hand to it.
pub open spec fn served(before: TaskManagerView, after: TaskManagerView, creep: CreepInfo, world: World) -> bool {
    after == before || exists|list: TaskListView|
        after == #[trigger] before.with_task_list(creep, world, list) && admissible(
            creep,
            world,
            before.tasks,
            list,
        )
}

/// Serving an agent from the pools of other rooms hands it at most one chain.
proof fn lemma_take_from_others_served(state: PassState, creep: CreepInfo, world: World, k: int)
    requires
        state.take_from_others(creep, world, k) is Some,
    ensures
        served(state.manager, state.take_from_others(creep, world, k)->0.manager, creep, world),
    decreases state.room_pools.len() - k,
{
    if k < 0 || k >= state.room_pools.len() {
    } else if state.may_visit(creep, world, k) && state.take_from_room(creep, world, k) is Some {
        lemma_pool_choice_is_admissible(creep, world, state.manager.tasks, state.room_pools[k]);
        let i = chosen_index(creep, world, state.manager.tasks, state.room_pools[k])->0;
        assert(state.take_from_room(creep, world, k)->0.manager == state.manager.with_task_list(
            creep,
            world,
            state.room_pools[k][i],
        ));
    } else {
        lemma_take_from_others_served(state, creep, world, k + 1);
    }
}

/// Serving one idle agent leaves the assignments as they are or hands the
/// agent one chain, whichever of the markers, the rooms or its fallback
/// the chain comes from.
pub proof fn lemma_assign_one_served(state: PassState, creep: CreepInfo, world: World)
    ensures
        served(state.manager, state.assign_one(creep, world).manager, creep, world),
{
    let own = state.own_room(creep, world);
    if state.take_from_flags(creep, world) is Some {
        lemma_pool_choice_is_admissible(creep, world, state.manager.tasks, state.flag_pool);
        let i = chosen_index(creep, world, state.manager.tasks, state.flag_pool)->0;
        assert(state.assign_one(creep, world).manager == state.manager.with_task_list(
            creep,
            world,
            state.flag_pool[i],
        ));
    } else if state.take_from_room(creep, world, own) is Some {
        lemma_pool_choice_is_admissible(creep, world, state.manager.tasks, state.room_pools[own]);
        let i = chosen_index(creep, world, state.manager.tasks, state.room_pools[own])->0;
        assert(state.assign_one(creep, world).manager == state.manager.with_task_list(
            creep,
            world,
            state.room_pools[own][i],
        ));
    } else if state.take_from_others(creep, world, 0) is Some {
        lemma_take_from_others_served(state, creep, world, 0);
    } else {
        match default_task_list(creep, world, state.manager.counts) {
            Some(list) => {
                if admissible(creep, world, state.manager.tasks, list) {
                    assert(state.assign_one(creep, world).manager
                        == state.manager.with_task_list(creep, world, list));
                }
            },
            None => {},
        }
    }
}

/// No two agents of the world share an id.
pub open spec fn distinct_creeps(world: World) -> bool {
    forall|a: int, b: int|
        0 <= a < b < world.creeps@.len() ==> (#[trigger] world.creeps@[a]).id != (
        #[trigger] world.creeps@[b]).id
}

/// Whether every agent of the world that has an assignment has every
/// capability that its current task needs.
pub open spec fn all_capable(tasks: Seq<AssignmentView>, world: World) -> bool {
    forall|i: int, c: int|
        0 <= i < tasks.len() && 0 <= c < world.creeps@.len() && (#[trigger] world.creeps@[c]).id
            == (#[trigger] tasks[i]).creep ==> (tasks[i].task_list.current_task() matches Some(
            task,
        ) && has_all_parts(world.creeps@[c].body@, task.required_parts()))
}

/// Capability safety, for one chain: handing an agent of the world a chain
/// that a pass may hand to it keeps every agent at work capable.
pub proof fn lemma_with_task_list_keeps_capability(
    manager: TaskManagerView,
    world: World,
    c: int,
    list: TaskListView,
)
    requires
        distinct_creeps(world),
        all_capable(manager.tasks, world),
        0 <= c < world.creeps@.len(),
        admissible(world.creeps@[c], world, manager.tasks, list),
    ensures
        all_capable(manager.with_task_list(world.creeps@[c], world, list).tasks, world),
{
    let creep = world.creeps@[c];
    {
        let id = creep.id;
        let tasks = manager.tasks;
        let after = put(tasks, id, list);
        lemma_first_where_is_first(tasks, assigned_to(id));
        assert forall|i: int, d: int|
            0 <= i < after.len() && 0 <= d < world.creeps@.len() && (
            #[trigger] world.creeps@[d]).id == (#[trigger] after[i]).creep implies (
        after[i].task_list.current_task() matches Some(task) && has_all_parts(
            world.creeps@[d].body@,
            task.required_parts(),
        )) by {
            if after[i].creep == id && after[i].task_list == list {
                if d < c {
                    assert(world.creeps@[d].id != world.creeps@[c].id);
                } else if c < d {
                    assert(world.creeps@[c].id != world.creeps@[d].id);
                }
            } else {
                assert(after[i] == tasks[i]);
            }
        }
    }
}

/// Serving the first `n` agents of the world keeps every agent capable.
proof fn lemma_assign_all_keeps_capability(
    start: PassState,
    initial: Seq<AssignmentView>,
    world: World,
    n: int,
)
    requires
        distinct_creeps(world),
        all_capable(start.manager.tasks, world),
        0 <= n <= world.creeps@.len(),
    ensures
        all_capable(start.assign_all(initial, world.creeps@.take(n), world).manager.tasks, world),
    decreases n,
{
    if n > 0 {
        lemma_assign_all_keeps_capability(start, initial, world, n - 1);
        assert(world.creeps@.take(n).drop_last() =~= world.creeps@.take(n - 1));
        assert(world.creeps@.take(n).last() == world.creeps@[n - 1]);
        let before = start.assign_all(initial, world.creeps@.take(n - 1), world);
        let creep = world.creeps@[n - 1];
        lemma_assign_one_served(before, creep, world);
        let after = before.assign_one(creep, world).manager;
        if after != before.manager {
            let list = choose|list: TaskListView|
                after == #[trigger] before.manager.with_task_list(creep, world, list)
                    && admissible(creep, world, before.manager.tasks, list);
            lemma_with_task_list_keeps_capability(before.manager, world, n - 1, list);
        }
    }
}

/// Capability safety: where every agent at work had the capabilities for its
/// current task before a pass, every agent at work has them after the
/// pass, whether its chain came from a marker, a room or its fallback.
pub proof fn lemma_pass_keeps_capability(manager: TaskManagerView, world: World)
    requires
        distinct_creeps(world),
        all_capable(manager.tasks, world),
    ensures
        all_capable(pass_end(manager, world).manager.tasks, world),
{
    lemma_assign_all_keeps_capability(
        pass_start(manager, world),
        manager.tasks,
        world,
        world.creeps@.len() as int,
    );
    assert(world.creeps@.take(world.creeps@.len() as int) =~= world.creeps@);
}

/// Whether every assignment of `tasks` that is not one of `before` gives
/// an agent of the world a current task that it has every capability for.
pub open spec fn handed_out_capably(
    before: Seq<AssignmentView>,
    tasks: Seq<AssignmentView>,
    world: World,
) -> bool {
    forall|i: int, c: int|
        0 <= i < tasks.len() && 0 <= c < world.creeps@.len() && (#[trigger] world.creeps@[c]).id
            == (#[trigger] tasks[i]).creep && !before.contains(tasks[i]) ==> (
        tasks[i].task_list.current_task() matches Some(task) && has_all_parts(
            world.creeps@[c].body@,
            task.required_parts(),
        ))
}

/// Serving the first `n` agents of the world hands out nothing that an
/// agent lacks a capability for.
proof fn lemma_assign_all_hands_out_capably(
    start: PassState,
    initial: Seq<AssignmentView>,
    world: World,
    n: int,
)
    requires
        distinct_creeps(world),
        0 <= n <= world.creeps@.len(),
    ensures
        handed_out_capably(
            start.manager.tasks,
            start.assign_all(initial, world.creeps@.take(n), world).manager.tasks,
            world,
        ),
    decreases n,
{
    let first = start.manager.tasks;
    if n > 0 {
        lemma_assign_all_hands_out_capably(start, initial, world, n - 1);
        assert(world.creeps@.take(n).drop_last() =~= world.creeps@.take(n - 1));
        assert(world.creeps@.take(n).last() == world.creeps@[n - 1]);
        let before = start.assign_all(initial, world.creeps@.take(n - 1), world);
        let creep = world.creeps@[n - 1];
        lemma_assign_one_served(before, creep, world);
        let after = before.assign_one(creep, world).manager;
        if after != before.manager {
            let list = choose|list: TaskListView|
                after == #[trigger] before.manager.with_task_list(creep, world, list)
                    && admissible(creep, world, before.manager.tasks, list);
            let tasks = before.manager.tasks;
            let next = put(tasks, creep.id, list);
            lemma_first_where_is_first(tasks, assigned_to(creep.id));
            assert forall|i: int, d: int|
                0 <= i < next.len() && 0 <= d < world.creeps@.len() && (
                #[trigger] world.creeps@[d]).id == (#[trigger] next[i]).creep && !first.contains(
                    next[i],
                ) implies (next[i].task_list.current_task() matches Some(task) && has_all_parts(
                world.creeps@[d].body@,
                task.required_parts(),
            )) by {
                if next[i].creep == creep.id && next[i].task_list == list {
                    if d < n - 1 {
                        assert(world.creeps@[d].id != world.creeps@[n - 1].id);
                    } else if n - 1 < d {
                        assert(world.creeps@[n - 1].id != world.creeps@[d].id);
                    }
                } else {
                    assert(next[i] == tasks[i]);
                }
            }
        }
    } else {
        assert(world.creeps@.take(0) =~= Seq::<CreepInfo>::empty());
        assert forall|i: int| 0 <= i < first.len() implies first.contains(#[trigger] first[i]) by {}
    }
}

/// Capability safety: every agent of the world that a pass hands a chain
/// to, from a marker, a room or as its fallback, has every capability that
/// the chain's current task needs.
pub proof fn lemma_pass_hands_out_capably(manager: TaskManagerView, world: World)
    requires
        distinct_creeps(world),
    ensures
        handed_out_capably(manager.tasks, pass_end(manager, world).manager.tasks, world),
{
    lemma_assign_all_hands_out_capably(
        pass_start(manager, world),
        manager.tasks,
        world,
        world.creeps@.len() as int,
    );
    assert(world.creeps@.take(world.creeps@.len() as int) =~= world.creeps@);
}

/// Occupancy bound, for one chain: handing an agent a chain whose current
/// task aims at a position staffed below the cap keeps the bound, whoever
/// hands it over: a pass, or a task that switches.
pub proof fn lemma_with_task_list_keeps_caps(
    manager: TaskManagerView,
    creep: CreepInfo,
    world: World,
    list: TaskListView,
)
    requires
        within_caps(manager.tasks, world),
        list.current_task() matches Some(task) ==> has_room(manager.tasks, world, task),
    ensures
        within_caps(manager.with_task_list(creep, world, list).tasks, world),
{
    {
        let tasks = manager.tasks;
        let item = AssignmentView { creep: creep.id, task_list: list };
        let after = put(tasks, creep.id, list);
        lemma_first_where_is_first(tasks, assigned_to(creep.id));
        assert forall|pos: Position, attack: bool| #[trigger]
            crowd(after, world, pos, attack) <= cap_of(attack) by {
            assert(crowd(tasks, world, pos, attack) <= cap_of(attack));
            match index_of(tasks, creep.id) {
                Some(i) => {
                    crate::utils::lemma_count_where_update(tasks, aims(world, pos, attack), i, item);
                },
                None => {
                    assert(tasks.push(item).drop_last() =~= tasks);
                },
            }
        }
    }
}

/// Occupancy bound, for a chain that moves on: the bound is kept where the
/// chain is exhausted, and where its next task aims at a position staffed
/// below the cap.
pub proof fn lemma_moving_on_keeps_caps(manager: TaskManagerView, world: World, id: ObjectId)
    requires
        within_caps(manager.tasks, world),
        index_of(manager.tasks, id) matches Some(i) ==> manager.tasks[i].task_list.exhausted_by_next()
            || (manager.tasks[i].task_list.advanced().current_task() matches Some(task)
            ==> has_room(manager.tasks, world, task)),
    ensures
        within_caps(manager.advanced(id).tasks, world),
{
    let tasks = manager.tasks;
    let after = manager.advanced(id).tasks;
    lemma_first_where_is_first(tasks, assigned_to(id));
    match index_of(tasks, id) {
        Some(i) => {
            let list = tasks[i].task_list;
            let item = AssignmentView { creep: id, task_list: list.advanced() };
            assert forall|pos: Position, attack: bool| #[trigger]
                crowd(after, world, pos, attack) <= cap_of(attack) by {
                assert(crowd(tasks, world, pos, attack) <= cap_of(attack));
                if list.exhausted_by_next() {
                    crate::utils::lemma_count_where_remove(tasks, aims(world, pos, attack), i);
                } else {
                    crate::utils::lemma_count_where_update(
                        tasks,
                        aims(world, pos, attack),
                        i,
                        item,
                    );
                }
            }
        },
        None => {},
    }
}

/// Serving the first `n` agents of the world keeps the occupancy bound.
proof fn lemma_assign_all_keeps_caps(
    start: PassState,
    initial: Seq<AssignmentView>,
    world: World,
    n: int,
)
    requires
        within_caps(start.manager.tasks, world),
        0 <= n <= world.creeps@.len(),
    ensures
        within_caps(start.assign_all(initial, world.creeps@.take(n), world).manager.tasks, world),
    decreases n,
{
    if n > 0 {
        lemma_assign_all_keeps_caps(start, initial, world, n - 1);
        assert(world.creeps@.take(n).drop_last() =~= world.creeps@.take(n - 1));
        assert(world.creeps@.take(n).last() == world.creeps@[n - 1]);
        let before = start.assign_all(initial, world.creeps@.take(n - 1), world);
        let creep = world.creeps@[n - 1];
        lemma_assign_one_served(before, creep, world);
        let after = before.assign_one(creep, world).manager;
        if after != before.manager {
            let list = choose|list: TaskListView|
                after == #[trigger] before.manager.with_task_list(creep, world, list)
                    && admissible(creep, world, before.manager.tasks, list);
            lemma_with_task_list_keeps_caps(before.manager, creep, world, list);
        }
    }
}

/// Occupancy bound: where at no position more agents worked than the cap of
/// their kind of task allows before a pass, none does after the pass, the
/// agents that the pass handed a chain counted in.
pub proof fn lemma_pass_keeps_caps(manager: TaskManagerView, world: World)
    requires
        within_caps(manager.tasks, world),
    ensures
        within_caps(pass_end(manager, world).manager.tasks, world),
{
    lemma_assign_all_keeps_caps(
        pass_start(manager, world),
        manager.tasks,
        world,
        world.creeps@.len() as int,
    );
    assert(world.creeps@.take(world.creeps@.len() as int) =~= world.creeps@);
}

/// Idempotent idle pass: while every agent of the world has an assignment,
/// a pass hands out nothing. The assignments and the counts of who works
/// where stay exactly as they are, and every chain on offer is left over.
pub proof fn lemma_idle_pass_changes_nothing(manager: TaskManagerView, world: World)
    requires
        forall|c: int|
            0 <= c < world.creeps@.len() ==> index_of(
                manager.tasks,
                (#[trigger] world.creeps@[c]).id,
            ) is Some,
    ensures
        pass_end(manager, world) == pass_start(manager, world),
        pass_end(manager, world).manager == manager,
        pass_end(pass_end(manager, world).manager, world).manager == manager,
{
    lemma_no_idle_agents(pass_start(manager, world), manager.tasks, world, world.creeps@.len() as int);
    assert(world.creeps@.take(world.creeps@.len() as int) =~= world.creeps@);
}

/// Where no agent of the world is idle, serving its first `n` agents
/// changes nothing.
proof fn lemma_no_idle_agents(start: PassState, initial: Seq<AssignmentView>, world: World, n: int)
    requires
        0 <= n <= world.creeps@.len(),
        forall|c: int|
            0 <= c < world.creeps@.len() ==> index_of(initial, (#[trigger] world.creeps@[c]).id)
                is Some,
    ensures
        start.assign_all(initial, world.creeps@.take(n), world) == start,
    decreases n,
{
    if n > 0 {
        lemma_no_idle_agents(start, initial, world, n - 1);
        assert(world.creeps@.take(n).drop_last() =~= world.creeps@.take(n - 1));
        assert(world.creeps@.take(n).last() == world.creeps@[n - 1]);
    }
}

/// Occupancy: taking note of an agent at a position counts one more agent
/// there at once, and changes the count of no other position.
pub proof fn lemma_noted_counts_one_more(
    counts: WorkingCreepsView,
    creep: CreepInfo,
    target: Position,
    pos: Position,
)
    ensures
        counts.noted(creep, target).pos_count(pos) == counts.pos_count(pos) + if pos == target {
            1nat
        } else {
            0nat
        },
{
    assert(counts.by_room_and_pos.push(target).drop_last() =~= counts.by_room_and_pos);
}

/// Occupancy: an agent that is taken note of at a position staffs that
/// position for every agent still to be served.
pub proof fn lemma_noted_position_is_staffed(counts: WorkingCreepsView, creep: CreepInfo, target: Position)
    ensures
        counts.noted(creep, target).worked_on(target.room_spec(), target, WORK_CAP),
{
    lemma_noted_counts_one_more(counts, creep, target, target);
}

/// Holds of the assignments that count for the position `pos`.
pub open spec fn aims_at(world: World, pos: Position) -> spec_fn(AssignmentView) -> bool {
    |a: AssignmentView| pos_slot_of(a, world) == Some(pos)
}

/// Occupancy: counted anew, the count at a position is the number of
/// assignments whose agent is alive and of a counted archetype and whose
/// current task aims at that exact position.
pub proof fn lemma_fresh_count_is_number_of_agents(
    tasks: Seq<AssignmentView>,
    world: World,
    pos: Position,
)
    ensures
        count_where(pos_slots(tasks, world), is_pos(pos)) == count_where(tasks, aims_at(world, pos)),
    decreases tasks.len(),
{
    if tasks.len() > 0 {
        lemma_fresh_count_is_number_of_agents(tasks.drop_last(), world, pos);
        let rest = pos_slots(tasks.drop_last(), world);
        match pos_slot_of(tasks.last(), world) {
            Some(slot) => {
                assert(rest.push(slot).drop_last() =~= rest);
            },
            None => {},
        }
    }
}

/// Holds of the structures whose position is not staffed at the cap.
pub open spec fn unstaffed(room: RoomName, counts: WorkingCreepsView) -> spec_fn(StructureInfo) -> bool {
    |s: StructureInfo| !counts.worked_on(room, s.pos, WORK_CAP)
}

/// Occupancy bound, for stations: an extension, spawn or tower that is
/// staffed at the cap is offered to no further agent. The chains on offer
/// are those that the unstaffed structures alone would give.
pub proof fn lemma_staffed_stations_not_offered(
    fill: Fill,
    structures: Seq<StructureInfo>,
    room: RoomName,
    counts: WorkingCreepsView,
    storage: Option<ObjectId>,
)
    ensures
        fill_lists(fill, structures, room, counts, storage) == fill_lists(
            fill,
            structures.filter(unstaffed(room, counts)),
            room,
            counts,
            storage,
        ),
    decreases structures.len(),
{
    reveal(Seq::filter);
    if structures.len() > 0 {
        lemma_staffed_stations_not_offered(fill, structures.drop_last(), room, counts, storage);
        let kept = structures.drop_last().filter(unstaffed(room, counts));
        if unstaffed(room, counts)(structures.last()) {
            assert(kept.push(structures.last()).drop_last() =~= kept);
        }
    }
}

/// Occupancy bound, for repairs: a structure that is staffed at the cap is
/// offered for repair to no further agent.
pub proof fn lemma_staffed_repairs_not_offered(
    structures: Seq<StructureInfo>,
    room: RoomName,
    level: u8,
    counts: WorkingCreepsView,
    storage: Option<ObjectId>,
)
    ensures
        repair_lists(structures, room, level, counts, storage) == repair_lists(
            structures.filter(unstaffed(room, counts)),
            room,
            level,
            counts,
            storage,
        ),
    decreases structures.len(),
{
    reveal(Seq::filter);
    if structures.len() > 0 {
        lemma_staffed_repairs_not_offered(structures.drop_last(), room, level, counts, storage);
        let kept = structures.drop_last().filter(unstaffed(room, counts));
        if unstaffed(room, counts)(structures.last()) {
            assert(kept.push(structures.last()).drop_last() =~= kept);
        }
    }
}

/// Holds of the links beside a storage whose position is not staffed at the cap.
pub open spec fn unstaffed_storage_link(room: RoomName, counts: WorkingCreepsView) -> spec_fn(
    StorageLink,
) -> bool {
    |l: StorageLink| !counts.worked_on(room, l.0.pos, WORK_CAP)
}

/// Occupancy bound, for links beside a storage: a link that is staffed at
/// the cap is offered to no further agent.
pub proof fn lemma_staffed_storage_links_not_offered(
    links: Seq<StorageLink>,
    room: RoomName,
    my_structures: Seq<StructureInfo>,
    counts: WorkingCreepsView,
)
    ensures
        storage_link_lists(links, room, my_structures, counts) == storage_link_lists(
            links.filter(unstaffed_storage_link(room, counts)),
            room,
            my_structures,
            counts,
        ),
    decreases links.len(),
{
    reveal(Seq::filter);
    if links.len() > 0 {
        lemma_staffed_storage_links_not_offered(links.drop_last(), room, my_structures, counts);
        let kept = links.drop_last().filter(unstaffed_storage_link(room, counts));
        if unstaffed_storage_link(room, counts)(links.last()) {
            assert(kept.push(links.last()).drop_last() =~= kept);
        }
    }
}

/// Holds of the links beside the controller whose position is not staffed
/// at the cap.
pub open spec fn unstaffed_controller_link(room: RoomName, counts: WorkingCreepsView) -> spec_fn(
    ControllerLink,
) -> bool {
    |l: ControllerLink| !counts.worked_on(room, l.0.pos, WORK_CAP)
}

/// Occupancy bound, for links beside the controller: a link that is staffed
/// at the cap is offered to no further agent.
pub proof fn lemma_staffed_controller_links_not_offered(
    links: Seq<ControllerLink>,
    room: RoomName,
    controller: ControllerInfo,
    counts: WorkingCreepsView,
    extensions_waiting: bool,
)
    ensures
        controller_link_lists(links, room, controller, counts, extensions_waiting)
            == controller_link_lists(
            links.filter(unstaffed_controller_link(room, counts)),
            room,
            controller,
            counts,
            extensions_waiting,
        ),
    decreases links.len(),
{
    reveal(Seq::filter);
    if links.len() > 0 {
        lemma_staffed_controller_links_not_offered(
            links.drop_last(),
            room,
            controller,
            counts,
            extensions_waiting,
        );
        let kept = links.drop_last().filter(unstaffed_controller_link(room, counts));
        if unstaffed_controller_link(room, counts)(links.last()) {
            assert(kept.push(links.last()).drop_last() =~= kept);
        }
    }
}

/// Occupancy bound, for combat: every hostile agent is offered exactly
/// `COMBAT_CAP` times, each time as one attack on it.
pub proof fn lemma_attacks_offered_twice(hostiles: Seq<GameObject>, i: int)
    requires
        0 <= i < hostiles.len(),
    ensures
        attack_lists(hostiles).len() == COMBAT_CAP * hostiles.len(),
        attack_lists(hostiles)[COMBAT_CAP * i] == TaskListView::single(
            Task::Attack(AttackTask { target: hostiles[i].id, move_failure_count: 0 }),
        ),
        attack_lists(hostiles)[COMBAT_CAP * i + 1] == TaskListView::single(
            Task::Attack(AttackTask { target: hostiles[i].id, move_failure_count: 0 }),
        ),
    decreases hostiles.len(),
{
    lemma_attack_lists_len(hostiles);
    if i < hostiles.len() - 1 {
        lemma_attack_lists_len(hostiles.drop_last());
        lemma_attacks_offered_twice(hostiles.drop_last(), i);
    } else {
        lemma_attack_lists_len(hostiles.drop_last());
    }
}

/// Every hostile agent adds `COMBAT_CAP` chains.
proof fn lemma_attack_lists_len(hostiles: Seq<GameObject>)
    ensures
        attack_lists(hostiles).len() == COMBAT_CAP * hostiles.len(),
    decreases hostiles.len(),
{
    if hostiles.len() > 0 {
        lemma_attack_lists_len(hostiles.drop_last());
    }
}

/// Occupancy bound, for a storage: one that is staffed at the cap is not
/// withdrawn from on the way to other work.
pub proof fn lemma_staffed_storage_not_withdrawn_from(
    structures: Seq<StructureInfo>,
    room: RoomName,
    counts: WorkingCreepsView,
)
    ensures
        spare_storage(structures, room, counts) == spare_storage(
            structures.filter(unstaffed(room, counts)),
            room,
            counts,
        ),
    decreases structures.len(),
{
    reveal(Seq::filter);
    if structures.len() > 0 {
        lemma_staffed_storage_not_withdrawn_from(structures.drop_last(), room, counts);
        let kept = structures.drop_last().filter(unstaffed(room, counts));
        if unstaffed(room, counts)(structures.last()) {
            assert(kept.push(structures.last()).drop_last() =~= kept);
        }
    }
}

/// An agent that is about to die gives up at once, whatever its task: the
/// step cancels, and names no action.
pub proof fn lemma_expired_agent_gives_up(task: Task, creep: CreepInfo, world: World)
    requires
        expired(creep),
    ensures
        task.execute_spec(creep, world) == StepView::Cancel,
{
}

/// A full agent that gathers switches to a transfer: where its room holds a
/// station of the colony that needs energy, an agent that is not about to
/// die and has less than `FULL_MARGIN` room left switches to a chain that
/// is one transfer to such a station, the nearest; it neither completes
/// nor cancels, and names no action.
pub proof fn lemma_full_harvester_switches(
    task: HarvestSourceTask,
    creep: CreepInfo,
    world: World,
    r: int,
    i: int,
)
    requires
        !expired(creep),
        creep.store.free < FULL_MARGIN,
        world.room_index(creep.pos.room_spec()) == Some(r),
        0 <= i < world.rooms@[r].my_structures@.len(),
        needs_energy(world.rooms@[r].my_structures@[i]),
    ensures
        task.execute_spec(creep, world) matches StepView::Switch(list) && exists|k: int|
            0 <= k < world.rooms@[r].my_structures@.len() && needs_energy(
                #[trigger] world.rooms@[r].my_structures@[k],
            ) && creep.pos.range_to(world.rooms@[r].my_structures@[k].pos) <= creep.pos.range_to(
                world.rooms@[r].my_structures@[i].pos,
            ) && list == TaskListView::single(transfer_to(world.rooms@[r].my_structures@[k].id)),
{
    lemma_first_where_is_first(
        world.rooms@,
        |room: crate::metadata::RoomInfo| room.name == creep.pos.room_spec(),
    );
    let structures = world.rooms@[r].my_structures@;
    let eligible = structures.map_values(|s: StructureInfo| needs_energy(s));
    let keys = structures.map_values(|s: StructureInfo| creep.pos.range_to(s.pos) as u64);
    crate::utils::lemma_first_min_is_min(eligible, keys);
    assert(eligible[i]);
    let k = crate::utils::first_min_spec(eligible, keys)->0;
    assert(eligible[k]);
    assert(keys[k] <= keys[i]);
    assert(needs_energy(structures[k]));
}

/// One step names at most `ACTIONS_PER_STEP` actions: the answer to a move
/// never leads to another action, and the answer to any other action leads
/// to a move at most.
pub proof fn lemma_step_names_two_actions_at_most(
    task: Task,
    creep: CreepInfo,
    world: World,
    action: Action,
    report: Report,
)
    ensures
        is_move(action) ==> !(task.resume_spec(creep, world, action, report) is Perform),
        task.resume_spec(creep, world, action, report) matches StepView::Perform(next) ==> is_move(
            next,
        ),
{
}

} // verus!
