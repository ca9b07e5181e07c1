//! The chains of tasks a room has to offer this tick.

use crate::game::{GameObject, ObjectId, Store, StructureType};
use crate::metadata::{ControllerInfo, ControllerLink, RoomInfo, StorageLink, StructureInfo};
use crate::position::{Position, RoomName};
use crate::tasks::occupancy::{WorkingCreeps, WorkingCreepsView, COMBAT_CAP, WORK_CAP};
use crate::tasks::task_list::{
    lemma_list_views_add, lemma_list_views_push, list_views, pair_list, single_list, TaskList,
    TaskListView,
};
use crate::tasks::{
    AttackTask, BuildTask, RepairTask, Task, TransferTask, UpgradeTask, WithdrawTask,
};
use crate::utils::{first_min, first_min_spec};
use vstd::prelude::*;

verus! {

/// A controller with fewer ticks than this before it loses a level is upgraded.
pub const DOWNGRADE_ALARM: u32 = 9000;

/// Repairs offered in a room stop once more than this many are offered.
pub const REPAIR_LIMIT: usize = 3;

/// Whether more than half of the store is free. A store with no free room
/// at all, or less, has none.
pub open spec fn mostly_free(store: Store) -> bool {
    store.free > 0 && store.free > store.capacity / 2
}

/// Whether more than half of the store is free.
pub fn is_mostly_free(store: Store) -> (r: bool)
    ensures
        r == mostly_free(store),
{
    store.free > 0 && store.free as u32 > store.capacity / 2
}

/// Whether more than two thirds of the store are used.
pub open spec fn mostly_full(store: Store) -> bool {
    store.used * 3 > store.capacity * 2
}

/// Whether more than two thirds of the store are used.
pub fn is_mostly_full(store: Store) -> (r: bool)
    ensures
        r == mostly_full(store),
{
    store.used as u64 * 3 > store.capacity as u64 * 2
}

/// The last storage among `structures` that holds energy.
pub open spec fn stocked_storage(structures: Seq<StructureInfo>) -> Option<ObjectId>
    decreases structures.len(),
{
    if structures.len() == 0 {
        None
    } else if structures.last().structure_type == StructureType::Storage
        && structures.last().store.used > 0 {
        Some(structures.last().id)
    } else {
        stocked_storage(structures.drop_last())
    }
}

/// The last storage among `structures` that holds energy.
pub fn find_stocked_storage(structures: &Vec<StructureInfo>) -> (found: Option<ObjectId>)
    ensures
        found == stocked_storage(structures@),
{
    let mut i: usize = structures.len();
    proof {
        assert(structures@.take(i as int) =~= structures@);
    }
    while i > 0
        invariant
            i <= structures.len(),
            stocked_storage(structures@) == stocked_storage(structures@.take(i as int)),
        decreases i,
    {
        proof {
            assert(structures@.take(i as int).drop_last() =~= structures@.take(i - 1));
        }
        i -= 1;
        if structures[i].structure_type == StructureType::Storage && structures[i].store.used > 0 {
            return Some(structures[i].id);
        }
    }
    None
}

/// The last storage among `structures` that holds energy and is not
/// staffed at the cap.
pub open spec fn spare_storage(
    structures: Seq<StructureInfo>,
    room: RoomName,
    counts: WorkingCreepsView,
) -> Option<ObjectId>
    decreases structures.len(),
{
    if structures.len() == 0 {
        None
    } else if structures.last().structure_type == StructureType::Storage
        && structures.last().store.used > 0 && !counts.worked_on(
        room,
        structures.last().pos,
        WORK_CAP,
    ) {
        Some(structures.last().id)
    } else {
        spare_storage(structures.drop_last(), room, counts)
    }
}

/// The last storage among `structures` that holds energy and is not
/// staffed at the cap.
pub fn find_spare_storage(
    structures: &Vec<StructureInfo>,
    room: RoomName,
    counts: &WorkingCreeps,
) -> (found: Option<ObjectId>)
    ensures
        found == spare_storage(structures@, room, counts@),
{
    let mut i: usize = structures.len();
    proof {
        assert(structures@.take(i as int) =~= structures@);
    }
    while i > 0
        invariant
            i <= structures.len(),
            spare_storage(structures@, room, counts@) == spare_storage(
                structures@.take(i as int),
                room,
                counts@,
            ),
        decreases i,
    {
        proof {
            assert(structures@.take(i as int).drop_last() =~= structures@.take(i - 1));
        }
        i -= 1;
        if structures[i].structure_type == StructureType::Storage && structures[i].store.used > 0
            && !counts.is_pos_being_worked_on(room, structures[i].pos, WORK_CAP) {
            return Some(structures[i].id);
        }
    }
    None
}

/// `next` on its own, or after a withdrawal from `storage` so that the
/// agent can top up on the way.
pub open spec fn with_withdrawal(storage: Option<ObjectId>, next: Task) -> TaskListView {
    match storage {
        Some(id) => TaskListView::pair(Task::Withdraw(WithdrawTask { target: id, move_failure_count: 0 }), next),
        None => TaskListView::single(next),
    }
}

/// `next` on its own, or after a withdrawal from `storage`.
pub fn wrap_with_withdrawal(storage: Option<ObjectId>, next: Task) -> (list: TaskList)
    ensures
        list@ == with_withdrawal(storage, next),
{
    match storage {
        Some(id) => pair_list(Task::Withdraw(WithdrawTask::new(id)), next),
        None => single_list(next),
    }
}

/// `next_task`, after a withdrawal from the room's storage where one holds energy.
pub fn allow_withdrawal_from_storage(room: &RoomInfo, next_task: Task) -> (list: TaskList)
    ensures
        list@ == with_withdrawal(stocked_storage(room.structures@), next_task),
{
    wrap_with_withdrawal(find_stocked_storage(&room.structures), next_task)
}

/// Two attacks for every hostile agent.
pub open spec fn attack_lists(hostiles: Seq<GameObject>) -> Seq<TaskListView>
    decreases hostiles.len(),
{
    if hostiles.len() == 0 {
        Seq::empty()
    } else {
        let attack = TaskListView::single(Task::Attack(AttackTask { target: hostiles.last().id, move_failure_count: 0 }));
        attack_lists(hostiles.drop_last()).push(attack).push(attack)
    }
}

/// Two attacks for every hostile agent.
fn get_attack_lists(hostiles: &Vec<GameObject>) -> (lists: Vec<TaskList>)
    ensures
        list_views(lists@) == attack_lists(hostiles@),
{
    let mut lists: Vec<TaskList> = Vec::new();
    let mut i: usize = 0;
    while i < hostiles.len()
        invariant
            i <= hostiles.len(),
            list_views(lists@) == attack_lists(hostiles@.take(i as int)),
        decreases hostiles.len() - i,
    {
        proof {
            assert(hostiles@.take(i + 1).drop_last() =~= hostiles@.take(i as int));
        }
        let id = hostiles[i].id;
        let mut n: usize = 0;
        while n < COMBAT_CAP
            invariant
                n <= COMBAT_CAP,
                i < hostiles.len(),
                id == hostiles@[i as int].id,
                n == 0 ==> list_views(lists@) == attack_lists(hostiles@.take(i as int)),
                n == 1 ==> list_views(lists@) == attack_lists(hostiles@.take(i as int)).push(
                    TaskListView::single(Task::Attack(AttackTask { target: id, move_failure_count: 0 })),
                ),
                n == 2 ==> list_views(lists@) == attack_lists(hostiles@.take(i as int)).push(
                    TaskListView::single(Task::Attack(AttackTask { target: id, move_failure_count: 0 })),
                ).push(TaskListView::single(Task::Attack(AttackTask { target: id, move_failure_count: 0 }))),
            decreases COMBAT_CAP - n,
        {
            let list = single_list(Task::Attack(AttackTask::new(id)));
            proof {
                lemma_list_views_push(lists@, list);
            }
            lists.push(list);
            n += 1;
        }
        i += 1;
    }
    proof {
        assert(hostiles@.take(i as int) =~= hostiles@);
    }
    lists
}

/// An upgrade where the colony's controller is about to lose a level, and
/// one more while it is below the second level.
pub open spec fn upgrade_lists(controller: ControllerInfo) -> Seq<TaskListView> {
    let upgrade = TaskListView::single(Task::Upgrade(UpgradeTask { target: controller.id, move_failure_count: 0 }));
    let alarm: Seq<TaskListView> = if controller.my && controller.active
        && controller.ticks_to_downgrade < DOWNGRADE_ALARM {
        seq![upgrade]
    } else {
        seq![]
    };
    if controller.my && controller.active && controller.level < 2 {
        alarm.push(upgrade)
    } else {
        alarm
    }
}

/// The upgrades a controller in need asks for.
fn get_upgrade_lists(controller: &ControllerInfo) -> (lists: Vec<TaskList>)
    ensures
        list_views(lists@) == upgrade_lists(*controller),
{
    let mut lists: Vec<TaskList> = Vec::new();
    assert(list_views(lists@) =~= Seq::<TaskListView>::empty());
    if controller.my && controller.active {
        if controller.ticks_to_downgrade < DOWNGRADE_ALARM {
            let list = single_list(Task::Upgrade(UpgradeTask::new(controller.id)));
            proof {
                lemma_list_views_push(lists@, list);
            }
            lists.push(list);
        }
        if controller.level < 2 {
            let list = single_list(Task::Upgrade(UpgradeTask::new(controller.id)));
            proof {
                lemma_list_views_push(lists@, list);
            }
            lists.push(list);
        }
    }
    proof {
        assert(list_views(lists@) =~= upgrade_lists(*controller));
    }
    lists
}

/// A storage within two steps of `pos` with more than half of its room free.
pub open spec fn takes_from_link(pos: Position, s: StructureInfo) -> bool {
    s.structure_type == StructureType::Storage && pos.range_to(s.pos) <= 2 && mostly_free(s.store)
}

/// Where among `structures` the nearest storage stands that can take what a
/// link at `pos` holds; of several at the same range, the first.
pub open spec fn storage_place_for_link(pos: Position, structures: Seq<StructureInfo>) -> Option<int> {
    first_min_spec(
        structures.map_values(|s: StructureInfo| takes_from_link(pos, s)),
        structures.map_values(|s: StructureInfo| pos.range_to(s.pos) as u64),
    )
}

/// The nearest storage that can take what a link at `pos` holds; of several
/// at the same range, the first.
pub open spec fn storage_for_link(pos: Position, structures: Seq<StructureInfo>) -> Option<ObjectId> {
    match storage_place_for_link(pos, structures) {
        Some(i) => Some(structures[i].id),
        None => None,
    }
}

/// The nearest storage that can take what a link at `pos` holds; of several
/// at the same range, the first.
pub fn find_storage_for_link(pos: Position, structures: &Vec<StructureInfo>) -> (found: Option<
    ObjectId,
>)
    ensures
        found == storage_for_link(pos, structures@),
{
    match find_storage_place_for_link(pos, structures) {
        Some(b) => Some(structures[b].id),
        None => None,
    }
}

/// Where among `structures` the nearest storage stands that can take what a
/// link at `pos` holds.
pub fn find_storage_place_for_link(pos: Position, structures: &Vec<StructureInfo>) -> (found: Option<
    usize,
>)
    ensures
        found matches Some(b) ==> b < structures.len(),
        storage_place_for_link(pos, structures@) == match found {
            Some(b) => Some(b as int),
            None => None,
        },
{
    let mut eligible: Vec<bool> = Vec::new();
    let mut keys: Vec<u64> = Vec::new();
    let mut i: usize = 0;
    while i < structures.len()
        invariant
            i <= structures.len(),
            eligible@ == structures@.take(i as int).map_values(
                |s: StructureInfo| takes_from_link(pos, s),
            ),
            keys@ == structures@.take(i as int).map_values(
                |s: StructureInfo| pos.range_to(s.pos) as u64,
            ),
        decreases structures.len() - i,
    {
        let s = structures[i];
        let range = pos.get_range_to(s.pos);
        eligible.push(
            s.structure_type == StructureType::Storage && range <= 2 && is_mostly_free(s.store),
        );
        keys.push(range as u64);
        i += 1;
    }
    proof {
        assert(structures@.take(i as int) =~= structures@);
    }
    first_min(&eligible, &keys)
}

/// For every link beside a storage that holds energy and is not yet
/// staffed: empty it into the nearest storage that can take it, unless
/// that storage is staffed at the cap.
pub open spec fn storage_link_lists(
    links: Seq<StorageLink>,
    room: RoomName,
    my_structures: Seq<StructureInfo>,
    counts: WorkingCreepsView,
) -> Seq<TaskListView>
    decreases links.len(),
{
    if links.len() == 0 {
        Seq::empty()
    } else {
        let rest = storage_link_lists(links.drop_last(), room, my_structures, counts);
        let link = links.last().0;
        if !counts.worked_on(room, link.pos, WORK_CAP) && link.store.used > 0 {
            match storage_place_for_link(link.pos, my_structures) {
                Some(b) => if counts.worked_on(room, my_structures[b].pos, WORK_CAP) {
                    rest
                } else {
                    rest.push(
                        TaskListView::pair(
                            Task::Withdraw(WithdrawTask { target: link.id, move_failure_count: 0 }),
                            Task::Transfer(
                                TransferTask { target: my_structures[b].id, move_failure_count: 0 },
                            ),
                        ),
                    )
                },
                None => rest,
            }
        } else {
            rest
        }
    }
}

/// The emptying of the links beside a storage.
fn get_storage_link_lists(
    links: &Vec<StorageLink>,
    room: RoomName,
    my_structures: &Vec<StructureInfo>,
    counts: &WorkingCreeps,
) -> (lists: Vec<TaskList>)
    ensures
        list_views(lists@) == storage_link_lists(links@, room, my_structures@, counts@),
{
    let mut lists: Vec<TaskList> = Vec::new();
    let mut i: usize = 0;
    while i < links.len()
        invariant
            i <= links.len(),
            list_views(lists@) == storage_link_lists(
                links@.take(i as int),
                room,
                my_structures@,
                counts@,
            ),
        decreases links.len() - i,
    {
        proof {
            assert(links@.take(i + 1).drop_last() =~= links@.take(i as int));
        }
        let link = links[i].0;
        if !counts.is_pos_being_worked_on(room, link.pos, WORK_CAP) && link.store.used > 0 {
            match find_storage_place_for_link(link.pos, my_structures) {
                Some(b) => {
                    if !counts.is_pos_being_worked_on(room, my_structures[b].pos, WORK_CAP) {
                        let list = pair_list(
                            Task::Withdraw(WithdrawTask::new(link.id)),
                            Task::Transfer(TransferTask::new(my_structures[b].id)),
                        );
                        proof {
                            lemma_list_views_push(lists@, list);
                        }
                        lists.push(list);
                    }
                },
                None => {},
            }
        }
        i += 1;
    }
    proof {
        assert(links@.take(i as int) =~= links@);
    }
    lists
}

/// Which structures of the colony are to be filled.
pub enum Fill {
    /// Extensions with room.
    Extensions,
    /// Active spawns with room.
    Spawns,
    /// Active towers with more than half of their room free.
    Towers,
}

/// Whether the structure is one to be filled: of the kind asked for, in
/// need of energy, and not yet staffed at the cap.
pub open spec fn wants_fill(
    fill: Fill,
    s: StructureInfo,
    room: RoomName,
    counts: WorkingCreepsView,
) -> bool {
    &&& !counts.worked_on(room, s.pos, WORK_CAP)
    &&& match fill {
        Fill::Extensions => s.structure_type == StructureType::Extension && s.store.free > 0,
        Fill::Spawns => s.structure_type == StructureType::Spawn && s.active && s.store.free > 0,
        Fill::Towers => s.structure_type == StructureType::Tower && s.active && mostly_free(
            s.store,
        ),
    }
}

/// A transfer into every structure that is to be filled, each after a
/// withdrawal from `storage` if there is one.
pub open spec fn fill_lists(
    fill: Fill,
    structures: Seq<StructureInfo>,
    room: RoomName,
    counts: WorkingCreepsView,
    storage: Option<ObjectId>,
) -> Seq<TaskListView>
    decreases structures.len(),
{
    if structures.len() == 0 {
        Seq::empty()
    } else {
        let rest = fill_lists(fill, structures.drop_last(), room, counts, storage);
        let s = structures.last();
        if wants_fill(fill, s, room, counts) {
            rest.push(with_withdrawal(storage, Task::Transfer(TransferTask { target: s.id, move_failure_count: 0 })))
        } else {
            rest
        }
    }
}

/// A transfer into every structure that is to be filled.
fn get_fill_lists(
    fill: Fill,
    structures: &Vec<StructureInfo>,
    room: RoomName,
    counts: &WorkingCreeps,
    storage: Option<ObjectId>,
) -> (lists: Vec<TaskList>)
    ensures
        list_views(lists@) == fill_lists(fill, structures@, room, counts@, storage),
{
    let mut lists: Vec<TaskList> = Vec::new();
    let mut i: usize = 0;
    while i < structures.len()
        invariant
            i <= structures.len(),
            list_views(lists@) == fill_lists(
                fill,
                structures@.take(i as int),
                room,
                counts@,
                storage,
            ),
        decreases structures.len() - i,
    {
        proof {
            assert(structures@.take(i + 1).drop_last() =~= structures@.take(i as int));
        }
        let s = structures[i];
        let wanted = !counts.is_pos_being_worked_on(room, s.pos, WORK_CAP) && match fill {
            Fill::Extensions => s.structure_type == StructureType::Extension && s.store.free > 0,
            Fill::Spawns => s.structure_type == StructureType::Spawn && s.active && s.store.free
                > 0,
            Fill::Towers => s.structure_type == StructureType::Tower && s.active
                && is_mostly_free(s.store),
        };
        if wanted {
            let list = wrap_with_withdrawal(storage, Task::Transfer(TransferTask::new(s.id)));
            proof {
                lemma_list_views_push(lists@, list);
            }
            lists.push(list);
        }
        i += 1;
    }
    proof {
        assert(structures@.take(i as int) =~= structures@);
    }
    lists
}

/// For every link beside the controller that is more than two thirds full
/// and not yet staffed: carry its energy into the controller. None while
/// extensions are waiting to be filled.
pub open spec fn controller_link_lists(
    links: Seq<ControllerLink>,
    room: RoomName,
    controller: ControllerInfo,
    counts: WorkingCreepsView,
    extensions_waiting: bool,
) -> Seq<TaskListView>
    decreases links.len(),
{
    if links.len() == 0 {
        Seq::empty()
    } else {
        let rest = controller_link_lists(
            links.drop_last(),
            room,
            controller,
            counts,
            extensions_waiting,
        );
        let link = links.last().0;
        if !counts.worked_on(room, link.pos, WORK_CAP) && !extensions_waiting && mostly_full(
            link.store,
        ) && link.pos.range_to(controller.pos) <= 2 {
            rest.push(
                TaskListView::pair(
                    Task::Withdraw(WithdrawTask { target: link.id, move_failure_count: 0 }),
                    Task::Upgrade(UpgradeTask { target: controller.id, move_failure_count: 0 }),
                ),
            )
        } else {
            rest
        }
    }
}

/// The carrying of energy from the links beside the controller into it.
fn get_controller_link_lists(
    links: &Vec<ControllerLink>,
    room: RoomName,
    controller: &ControllerInfo,
    counts: &WorkingCreeps,
    extensions_waiting: bool,
) -> (lists: Vec<TaskList>)
    ensures
        list_views(lists@) == controller_link_lists(
            links@,
            room,
            *controller,
            counts@,
            extensions_waiting,
        ),
{
    let mut lists: Vec<TaskList> = Vec::new();
    let mut i: usize = 0;
    while i < links.len()
        invariant
            i <= links.len(),
            list_views(lists@) == controller_link_lists(
                links@.take(i as int),
                room,
                *controller,
                counts@,
                extensions_waiting,
            ),
        decreases links.len() - i,
    {
        proof {
            assert(links@.take(i + 1).drop_last() =~= links@.take(i as int));
        }
        let link = links[i].0;
        if !counts.is_pos_being_worked_on(room, link.pos, WORK_CAP) && !extensions_waiting
            && is_mostly_full(link.store) && link.pos.in_range_to(controller.pos, 2) {
            let list = pair_list(
                Task::Withdraw(WithdrawTask::new(link.id)),
                Task::Upgrade(UpgradeTask::new(controller.id)),
            );
            proof {
                lemma_list_views_push(lists@, list);
            }
            lists.push(list);
        }
        i += 1;
    }
    proof {
        assert(links@.take(i as int) =~= links@);
    }
    lists
}

/// A build for every construction site, each after a withdrawal from
/// `storage` if there is one.
pub open spec fn site_lists(sites: Seq<GameObject>, storage: Option<ObjectId>) -> Seq<TaskListView>
    decreases sites.len(),
{
    if sites.len() == 0 {
        Seq::empty()
    } else {
        site_lists(sites.drop_last(), storage).push(
            with_withdrawal(storage, Task::Build(BuildTask { target: sites.last().id, move_failure_count: 0 })),
        )
    }
}

/// A build for every construction site.
fn get_site_lists(sites: &Vec<GameObject>, storage: Option<ObjectId>) -> (lists: Vec<TaskList>)
    ensures
        list_views(lists@) == site_lists(sites@, storage),
{
    let mut lists: Vec<TaskList> = Vec::new();
    let mut i: usize = 0;
    while i < sites.len()
        invariant
            i <= sites.len(),
            list_views(lists@) == site_lists(sites@.take(i as int), storage),
        decreases sites.len() - i,
    {
        proof {
            assert(sites@.take(i + 1).drop_last() =~= sites@.take(i as int));
        }
        let list = wrap_with_withdrawal(storage, Task::Build(BuildTask::new(sites[i].id)));
        proof {
            lemma_list_views_push(lists@, list);
        }
        lists.push(list);
        i += 1;
    }
    proof {
        assert(sites@.take(i as int) =~= sites@);
    }
    lists
}

/// Whether a structure is damaged enough to be repaired: below half of its
/// hit points; a wall only from the third controller level on and up to
/// 25000 hit points, a road up to two thirds of its hit points, a rampart
/// up to 100000 hit points.
pub open spec fn needs_repair(s: StructureInfo, level: u8) -> bool {
    &&& s.hits < s.hits_max / 2
    &&& match s.structure_type {
        StructureType::Wall => level >= 3 && s.hits <= 25000,
        StructureType::Road => s.hits <= s.hits_max * 2 / 3,
        StructureType::Rampart => s.hits <= 100000,
        _ => true,
    }
}

/// Whether a structure is damaged enough to be repaired.
pub fn is_in_need_of_repair(s: &StructureInfo, level: u8) -> (r: bool)
    ensures
        r == needs_repair(*s, level),
{
    if s.hits < s.hits_max / 2 {
        match s.structure_type {
            StructureType::Wall => level >= 3 && s.hits <= 25000,
            StructureType::Road => s.hits as u64 <= s.hits_max as u64 * 2 / 3,
            StructureType::Rampart => s.hits <= 100000,
            _ => true,
        }
    } else {
        false
    }
}

/// A repair for every structure that needs one and is not yet staffed,
/// each after a withdrawal from `storage` if there is one, until more than
/// `REPAIR_LIMIT` are offered.
pub open spec fn repair_lists(
    structures: Seq<StructureInfo>,
    room: RoomName,
    level: u8,
    counts: WorkingCreepsView,
    storage: Option<ObjectId>,
) -> Seq<TaskListView>
    decreases structures.len(),
{
    if structures.len() == 0 {
        Seq::empty()
    } else {
        let rest = repair_lists(structures.drop_last(), room, level, counts, storage);
        let s = structures.last();
        if rest.len() <= REPAIR_LIMIT && !counts.worked_on(room, s.pos, WORK_CAP) && needs_repair(
            s,
            level,
        ) {
            rest.push(with_withdrawal(storage, Task::Repair(RepairTask { target: s.id, move_failure_count: 0 })))
        } else {
            rest
        }
    }
}

/// Once more repairs than the limit are offered, no structure adds another.
pub proof fn lemma_repair_lists_stop(
    structures: Seq<StructureInfo>,
    room: RoomName,
    level: u8,
    counts: WorkingCreepsView,
    storage: Option<ObjectId>,
    i: int,
)
    requires
        0 <= i <= structures.len(),
        repair_lists(structures.take(i), room, level, counts, storage).len() > REPAIR_LIMIT,
    ensures
        repair_lists(structures, room, level, counts, storage) == repair_lists(
            structures.take(i),
            room,
            level,
            counts,
            storage,
        ),
    decreases structures.len() - i,
{
    if i < structures.len() {
        assert(structures.take(i + 1).drop_last() =~= structures.take(i));
        lemma_repair_lists_stop(structures, room, level, counts, storage, i + 1);
    } else {
        assert(structures.take(i) =~= structures);
    }
}

/// The repairs offered in a room are never more than one above the limit.
pub proof fn lemma_repair_lists_bounded(
    structures: Seq<StructureInfo>,
    room: RoomName,
    level: u8,
    counts: WorkingCreepsView,
    storage: Option<ObjectId>,
)
    ensures
        repair_lists(structures, room, level, counts, storage).len() <= REPAIR_LIMIT + 1,
    decreases structures.len(),
{
    if structures.len() > 0 {
        lemma_repair_lists_bounded(structures.drop_last(), room, level, counts, storage);
    }
}

/// The repairs on offer, up to the limit.
fn get_repair_lists(
    structures: &Vec<StructureInfo>,
    room: RoomName,
    level: u8,
    counts: &WorkingCreeps,
    storage: Option<ObjectId>,
) -> (lists: Vec<TaskList>)
    ensures
        list_views(lists@) == repair_lists(structures@, room, level, counts@, storage),
{
    let mut lists: Vec<TaskList> = Vec::new();
    let mut i: usize = 0;
    while i < structures.len()
        invariant
            i <= structures.len(),
            list_views(lists@) == repair_lists(
                structures@.take(i as int),
                room,
                level,
                counts@,
                storage,
            ),
            lists.len() <= REPAIR_LIMIT,
        decreases structures.len() - i,
    {
        proof {
            assert(structures@.take(i + 1).drop_last() =~= structures@.take(i as int));
        }
        let s = structures[i];
        if !counts.is_pos_being_worked_on(room, s.pos, WORK_CAP) && is_in_need_of_repair(
            &s,
            level,
        ) {
            let list = wrap_with_withdrawal(storage, Task::Repair(RepairTask::new(s.id)));
            proof {
                lemma_list_views_push(lists@, list);
            }
            lists.push(list);
            if lists.len() > REPAIR_LIMIT {
                proof {
                    lemma_repair_lists_stop(
                        structures@,
                        room,
                        level,
                        counts@,
                        storage,
                        i + 1,
                    );
                }
                return lists;
            }
        }
        i += 1;
    }
    proof {
        assert(structures@.take(i as int) =~= structures@);
    }
    lists
}

/// Everything a room has to offer, in the order in which it is offered:
/// attacks on hostile agents, upgrades of a controller in need, the
/// emptying of links beside a storage, the filling of extensions, spawns
/// and towers, the carrying of energy from links to the controller,
/// building, and repairs. No chain on offer holds a transfer, a withdrawal
/// or a repair that aims at a position staffed at the cap: a storage that
/// is staffed is not withdrawn from on the way. A room without a controller
/// offers nothing.
pub open spec fn room_task_lists(room: RoomInfo, counts: WorkingCreepsView) -> Seq<TaskListView> {
    match room.controller {
        None => Seq::empty(),
        Some(controller) => {
            let storage = spare_storage(room.structures@, room.name, counts);
            let extensions = fill_lists(
                Fill::Extensions,
                room.my_structures@,
                room.name,
                counts,
                storage,
            );
            attack_lists(room.hostile_creeps@) + upgrade_lists(controller) + storage_link_lists(
                room.links.storage_links@,
                room.name,
                room.my_structures@,
                counts,
            ) + extensions + fill_lists(
                Fill::Spawns,
                room.my_structures@,
                room.name,
                counts,
                storage,
            ) + fill_lists(Fill::Towers, room.my_structures@, room.name, counts, storage)
                + controller_link_lists(
                room.links.controller_links@,
                room.name,
                controller,
                counts,
                extensions.len() > 0,
            ) + site_lists(room.construction_sites@, storage) + repair_lists(
                room.structures@,
                room.name,
                controller.level,
                counts,
                storage,
            )
        },
    }
}

/// Adds `more` behind `lists`.
fn extend(lists: &mut Vec<TaskList>, more: Vec<TaskList>)
    ensures
        list_views(final(lists)@) == list_views(old(lists)@) + list_views(more@),
{
    let mut more = more;
    proof {
        lemma_list_views_add(lists@, more@);
    }
    lists.append(&mut more);
}

/// Everything `room` has to offer this tick, given who is at work already.
pub fn get_room_task_lists(room: &RoomInfo, counts: &WorkingCreeps) -> (lists: Vec<TaskList>)
    ensures
        list_views(lists@) == room_task_lists(*room, counts@),
{
    let mut lists: Vec<TaskList> = Vec::new();
    assert(list_views(lists@) =~= Seq::<TaskListView>::empty());
    let controller = match room.controller {
        Some(c) => c,
        None => {
            return lists;
        },
    };
    let storage = find_spare_storage(&room.structures, room.name, counts);
    extend(&mut lists, get_attack_lists(&room.hostile_creeps));
    extend(&mut lists, get_upgrade_lists(&controller));
    extend(
        &mut lists,
        get_storage_link_lists(&room.links.storage_links, room.name, &room.my_structures, counts),
    );
    let extensions = get_fill_lists(
        Fill::Extensions,
        &room.my_structures,
        room.name,
        counts,
        storage,
    );
    let extensions_waiting = extensions.len() > 0;
    extend(&mut lists, extensions);
    extend(
        &mut lists,
        get_fill_lists(Fill::Spawns, &room.my_structures, room.name, counts, storage),
    );
    extend(
        &mut lists,
        get_fill_lists(Fill::Towers, &room.my_structures, room.name, counts, storage),
    );
    extend(
        &mut lists,
        get_controller_link_lists(
            &room.links.controller_links,
            room.name,
            &controller,
            counts,
            extensions_waiting,
        ),
    );
    extend(&mut lists, get_site_lists(&room.construction_sites, storage));
    extend(
        &mut lists,
        get_repair_lists(&room.structures, room.name, controller.level, counts, storage),
    );
    lists
}

} // verus!
