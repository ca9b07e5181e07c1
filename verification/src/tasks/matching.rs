//! Which of the chains on offer an idle agent takes up.

use crate::game::CreepInfo;
use crate::metadata::World;
use crate::tasks::occupancy::{
    assignment_views, has_room, task_has_room, Assignment, AssignmentView,
};
use crate::tasks::task::TaskType;
use crate::tasks::task_list::{lemma_list_views_remove, list_views, TaskList, TaskListView};
use crate::tasks::{can_creep_handle_task, can_handle};
use crate::utils::{first_min, first_min_spec, first_where, is_first_where};
use vstd::prelude::*;

verus! {

/// Whether `list` suits `creep`: the agent can handle the task under the
/// cursor, the position that task aims at is not staffed at the cap by the
/// agents at work, and the chain has a primary task to be compared by.
pub open spec fn suits(
    creep: CreepInfo,
    world: World,
    tasks: Seq<AssignmentView>,
    list: TaskListView,
) -> bool {
    &&& list.current_task() matches Some(task)
    &&& can_handle(creep, task)
    &&& has_room(tasks, world, task)
    &&& list.primary_task() is Some
}

/// Whether `list` may be the first that `creep` considers: it suits the
/// agent, and the agent holds energy if the task under the cursor is of no
/// use without.
pub open spec fn eligible(
    creep: CreepInfo,
    world: World,
    tasks: Seq<AssignmentView>,
    list: TaskListView,
) -> bool {
    &&& suits(creep, world, tasks, list)
    &&& list.current_task()->0.requires_energy_spec() ==> creep.store.used > 0
}

/// Holds of the chains that `creep` may take up.
pub open spec fn eligible_for(creep: CreepInfo, world: World, tasks: Seq<AssignmentView>) -> spec_fn(
    TaskListView,
) -> bool {
    |list: TaskListView| eligible(creep, world, tasks, list)
}

/// Whether the primary tasks of two chains are of one kind.
pub open spec fn same_kind(a: TaskListView, b: TaskListView) -> bool {
    &&& a.primary_task() matches Some(x)
    &&& b.primary_task() matches Some(y)
    &&& x.type_spec() == y.type_spec()
}

/// Whether the chains from `first` up to `j` are all of the kind of `first`.
pub open spec fn in_run(pool: Seq<TaskListView>, first: int, j: int) -> bool {
    &&& 0 <= first <= j < pool.len()
    &&& forall|k: int| first <= k <= j ==> same_kind(pool[first], #[trigger] pool[k])
}

/// By what a chain is ranked among others of its kind: a repair by the hit
/// points its target has left, any other by the range from the agent to the
/// target of its primary task; a chain without a target position ranks last.
pub open spec fn list_key(creep: CreepInfo, world: World, list: TaskListView) -> u64 {
    match list.primary_task() {
        Some(task) => if task.type_spec() == TaskType::Repair {
            task.priority_spec(world) as u64
        } else {
            match task.target_pos_spec(world) {
                Some(pos) => creep.pos.range_to(pos) as u64,
                None => u32::MAX as u64,
            }
        },
        None => u32::MAX as u64,
    }
}

/// Marks the chains among which `creep` chooses: those that suit it within
/// the unbroken run of chains of one kind that starts at the first chain it
/// may consider.
pub open spec fn candidate_flags(
    creep: CreepInfo,
    world: World,
    tasks: Seq<AssignmentView>,
    pool: Seq<TaskListView>,
) -> Seq<bool> {
    match first_where(pool, eligible_for(creep, world, tasks)) {
        Some(first) => Seq::new(
            pool.len(),
            |j: int| in_run(pool, first, j) && suits(creep, world, tasks, pool[j]),
        ),
        None => Seq::new(pool.len(), |j: int| false),
    }
}

/// The rank of every chain of the pool.
pub open spec fn candidate_keys(creep: CreepInfo, world: World, pool: Seq<TaskListView>) -> Seq<
    u64,
> {
    pool.map_values(|list: TaskListView| list_key(creep, world, list))
}

/// The chain `creep` takes from `pool`: among its candidates the one that
/// ranks lowest, and of several that rank alike the first.
pub open spec fn chosen_index(
    creep: CreepInfo,
    world: World,
    tasks: Seq<AssignmentView>,
    pool: Seq<TaskListView>,
) -> Option<int> {
    first_min_spec(candidate_flags(creep, world, tasks, pool), candidate_keys(creep, world, pool))
}

/// With nobody at work every position has room: a chain then suits every
/// agent that can handle the task under its cursor, if it has a primary task.
pub proof fn lemma_nobody_at_work_leaves_room(creep: CreepInfo, world: World, list: TaskListView)
    ensures
        suits(creep, world, Seq::<AssignmentView>::empty(), list) == (list.current_task() is Some
            && can_handle(creep, list.current_task()->0) && list.primary_task() is Some),
{
}

/// Whether `list` suits `creep`.
fn is_suitable(creep: &CreepInfo, world: &World, tasks: &Vec<Assignment>, list: &TaskList) -> (r:
    bool)
    ensures
        r == suits(*creep, *world, assignment_views(tasks@), list@),
{
    match list.current_task() {
        Some(task) => can_creep_handle_task(creep, task) && list.get_primary_task().is_some()
            && task_has_room(tasks, world, task),
        None => false,
    }
}

/// Whether `list` may be the first that `creep` considers.
fn is_eligible(creep: &CreepInfo, world: &World, tasks: &Vec<Assignment>, list: &TaskList) -> (r:
    bool)
    ensures
        r == eligible(*creep, *world, assignment_views(tasks@), list@),
{
    match list.current_task() {
        Some(task) => {
            (!task.requires_energy() || creep.store.used > 0) && is_suitable(
                creep,
                world,
                tasks,
                list,
            )
        },
        None => false,
    }
}

/// Whether the primary tasks of two chains are of one kind.
fn is_same_kind(a: &TaskList, b: &TaskList) -> (r: bool)
    ensures
        r == same_kind(a@, b@),
{
    match a.get_primary_task() {
        Some(x) => match b.get_primary_task() {
            Some(y) => x.get_type() == y.get_type(),
            None => false,
        },
        None => false,
    }
}

/// By what a chain is ranked among others of its kind.
fn get_list_key(creep: &CreepInfo, world: &World, list: &TaskList) -> (key: u64)
    ensures
        key == list_key(*creep, *world, list@),
{
    match list.get_primary_task() {
        Some(task) => {
            if task.get_type() == TaskType::Repair {
                task.get_priority(world) as u64
            } else {
                match task.get_target_pos(world) {
                    Some(pos) => creep.pos.get_range_to(pos) as u64,
                    None => u32::MAX as u64,
                }
            }
        },
        None => u32::MAX as u64,
    }
}

/// Takes out of `task_lists` the chain that suits `creep` best, if any suits
/// it, with no regard to who is at work: every position has room.
pub fn get_task_list_for_creep(
    creep: &CreepInfo,
    world: &World,
    task_lists: &mut Vec<TaskList>,
) -> (taken: Option<TaskList>)
    ensures
        match chosen_index(
            *creep,
            *world,
            Seq::<AssignmentView>::empty(),
            list_views(old(task_lists)@),
        ) {
            Some(i) => 0 <= i < old(task_lists)@.len() && taken == Some(old(task_lists)@[i])
                && final(task_lists)@ == old(task_lists)@.remove(i) && suits(
                *creep,
                *world,
                Seq::<AssignmentView>::empty(),
                old(task_lists)@[i]@,
            ),
            None => taken is None && final(task_lists)@ == old(task_lists)@,
        },
{
    let nobody: Vec<Assignment> = Vec::new();
    proof {
        assert(assignment_views(nobody@) =~= Seq::<AssignmentView>::empty());
    }
    get_task_list_with_room(creep, world, &nobody, task_lists)
}

/// Takes out of `task_lists` the chain that suits `creep` best, if any suits
/// it, among those that aim at a position which the agents at work, in
/// `tasks`, do not staff at the cap.
pub fn get_task_list_with_room(
    creep: &CreepInfo,
    world: &World,
    tasks: &Vec<Assignment>,
    task_lists: &mut Vec<TaskList>,
) -> (taken: Option<TaskList>)
    ensures
        match chosen_index(
            *creep,
            *world,
            assignment_views(tasks@),
            list_views(old(task_lists)@),
        ) {
            Some(i) => 0 <= i < old(task_lists)@.len() && taken == Some(old(task_lists)@[i])
                && final(task_lists)@ == old(task_lists)@.remove(i) && suits(
                *creep,
                *world,
                assignment_views(tasks@),
                old(task_lists)@[i]@,
            ),
            None => taken is None && final(task_lists)@ == old(task_lists)@,
        },
{
    let ghost pool = list_views(task_lists@);
    let mut flags: Vec<bool> = Vec::new();
    let mut keys: Vec<u64> = Vec::new();
    let mut first: Option<usize> = None;
    let mut run_open = true;
    let mut i: usize = 0;
    while i < task_lists.len()
        invariant
            i <= task_lists.len(),
            task_lists@ == old(task_lists)@,
            pool == list_views(task_lists@),
            flags.len() == i,
            keys.len() == i,
            forall|j: int| 0 <= j < i ==> keys@[j] == list_key(*creep, *world, #[trigger] pool[j]),
            first is None ==> forall|j: int|
                0 <= j < i ==> !eligible_for(*creep, *world, assignment_views(tasks@))(#[trigger] pool[j]),
            first is None ==> forall|j: int| 0 <= j < i ==> !#[trigger] flags@[j],
            first is None ==> run_open,
            first matches Some(f) ==> f < i,
            first matches Some(f) ==> is_first_where(pool, eligible_for(*creep, *world, assignment_views(tasks@)), f as int),
            first matches Some(f) ==> forall|j: int|
                0 <= j < i ==> #[trigger] flags@[j] == (in_run(pool, f as int, j) && suits(
                    *creep,
                    *world,
                    assignment_views(tasks@),
                    pool[j],
                )),
            first matches Some(f) ==> (run_open ==> forall|k: int|
                f <= k < i ==> same_kind(pool[f as int], #[trigger] pool[k])),
            first matches Some(f) ==> (!run_open ==> exists|k: int|
                f <= k < i && !same_kind(pool[f as int], #[trigger] pool[k])),
        decreases task_lists.len() - i,
    {
        let list = &task_lists[i];
        assert(pool[i as int] == list@);
        keys.push(get_list_key(creep, world, list));
        match first {
            None => {
                if is_eligible(creep, world, tasks, list) {
                    first = Some(i);
                    flags.push(true);
                    assert(same_kind(pool[i as int], pool[i as int]));
                    assert(in_run(pool, i as int, i as int));
                } else {
                    flags.push(false);
                }
            },
            Some(f) => {
                if run_open && is_same_kind(&task_lists[f], list) {
                    flags.push(is_suitable(creep, world, tasks, list));
                    assert(in_run(pool, f as int, i as int));
                } else {
                    let ghost k: int = if run_open {
                        i as int
                    } else {
                        choose|k: int| f <= k < i && !same_kind(pool[f as int], #[trigger] pool[k])
                    };
                    assert(f <= k <= i && !same_kind(pool[f as int], pool[k]));
                    run_open = false;
                    flags.push(false);
                    assert(!in_run(pool, f as int, i as int)) by {
                        if in_run(pool, f as int, i as int) {
                            assert(same_kind(pool[f as int], pool[k]));
                        }
                    }
                }
            },
        }
        i += 1;
    }
    proof {
        match first {
            Some(f) => {
                crate::utils::lemma_first_where_found(pool, eligible_for(*creep, *world, assignment_views(tasks@)), f as int);
            },
            None => {
                crate::utils::lemma_first_where_none(pool, eligible_for(*creep, *world, assignment_views(tasks@)));
            },
        }
        assert(flags@ =~= candidate_flags(*creep, *world, assignment_views(tasks@), pool));
        assert(keys@ =~= candidate_keys(*creep, *world, pool));
    }
    match first_min(&flags, &keys) {
        Some(best) => {
            proof {
                lemma_list_views_remove(task_lists@, best as int);
            }
            Some(task_lists.remove(best))
        },
        None => None,
    }
}

} // verus!
