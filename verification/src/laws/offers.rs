//! What holds of the work a room offers: no chain on offer holds a
//! transfer, a withdrawal or a repair that aims at a position staffed at
//! the cap.

use crate::game::{GameObject, ObjectId, StructureType};
use crate::metadata::{ControllerInfo, ControllerLink, RoomInfo, StorageLink, StructureInfo};
use crate::position::Position;
use crate::tasks::candidates::{
    attack_lists, controller_link_lists, fill_lists, repair_lists, room_task_lists, site_lists,
    spare_storage, storage_link_lists, storage_place_for_link, takes_from_link, upgrade_lists,
    wants_fill, with_withdrawal, Fill,
};
use crate::tasks::occupancy::{WorkingCreepsView, WORK_CAP};
use crate::tasks::task_list::TaskListView;
use crate::tasks::{
    AttackTask, BuildTask, RepairTask, Task, TransferTask, UpgradeTask, WithdrawTask,
};
use crate::utils::lemma_first_min_is_min;
use vstd::prelude::*;

verus! {

/// Whether one of `structures` has the name `id` and stands at `pos`.
pub open spec fn has_structure(structures: Seq<StructureInfo>, id: ObjectId, pos: Position) -> bool {
    exists|i: int|
        0 <= i < structures.len() && (#[trigger] structures[i]).id == id && structures[i].pos
            == pos
}

/// Whether one of the links beside a storage has the name `id` and stands
/// at `pos`.
pub open spec fn has_storage_link(links: Seq<StorageLink>, id: ObjectId, pos: Position) -> bool {
    exists|i: int|
        0 <= i < links.len() && (#[trigger] links[i]).0.id == id && links[i].0.pos == pos
}

/// Whether one of the links beside the controller has the name `id` and
/// stands at `pos`.
pub open spec fn has_controller_link(links: Seq<ControllerLink>, id: ObjectId, pos: Position) -> bool {
    exists|i: int|
        0 <= i < links.len() && (#[trigger] links[i]).0.id == id && links[i].0.pos == pos
}

/// Whether the room holds, at `pos`, a structure or a link with the name `id`.
pub open spec fn room_holds(room: RoomInfo, id: ObjectId, pos: Position) -> bool {
    ||| has_structure(room.structures@, id, pos)
    ||| has_structure(room.my_structures@, id, pos)
    ||| has_storage_link(room.links.storage_links@, id, pos)
    ||| has_controller_link(room.links.controller_links@, id, pos)
}

/// Whether the task works at a station, a relay or a repair target: a
/// transfer, a withdrawal or a repair.
pub open spec fn at_station(task: Task) -> bool {
    task is Transfer || task is Withdraw || task is Repair
}

/// Whether the task aims at something that the room holds at `pos`, with
/// fewer agents at work there than the cap allows.
pub open spec fn place_is_free(
    room: RoomInfo,
    counts: WorkingCreepsView,
    task: Task,
    pos: Position,
) -> bool {
    match task.target_id() {
        Some(id) => room_holds(room, id, pos) && !counts.worked_on(room.name, pos, WORK_CAP),
        None => false,
    }
}

/// Whether the task aims at something the room holds, at a position that is
/// staffed below the cap.
pub open spec fn aims_at_free_place(room: RoomInfo, counts: WorkingCreepsView, task: Task) -> bool {
    exists|pos: Position| place_is_free(room, counts, task, pos)
}

/// Whether every transfer, withdrawal and repair of the chain aims at a
/// position staffed below the cap.
pub open spec fn chain_is_clear(room: RoomInfo, counts: WorkingCreepsView, list: TaskListView) -> bool {
    forall|k: int|
        0 <= k < list.tasks.len() && at_station(#[trigger] list.tasks[k]) ==> aims_at_free_place(
            room,
            counts,
            list.tasks[k],
        )
}

/// Whether every transfer, withdrawal and repair of every chain aims at a
/// position staffed below the cap.
pub open spec fn all_clear(room: RoomInfo, counts: WorkingCreepsView, lists: Seq<TaskListView>) -> bool {
    forall|i: int| 0 <= i < lists.len() ==> chain_is_clear(room, counts, #[trigger] lists[i])
}

/// Clear chains stay clear when a clear chain is added behind them.
proof fn lemma_push_clear(
    room: RoomInfo,
    counts: WorkingCreepsView,
    lists: Seq<TaskListView>,
    list: TaskListView,
)
    requires
        all_clear(room, counts, lists),
        chain_is_clear(room, counts, list),
    ensures
        all_clear(room, counts, lists.push(list)),
{
    assert forall|i: int| 0 <= i < lists.push(list).len() implies chain_is_clear(
        room,
        counts,
        #[trigger] lists.push(list)[i],
    ) by {
        if i < lists.len() {
            assert(lists.push(list)[i] == lists[i]);
        }
    }
}

/// Clear chains behind clear chains are clear.
proof fn lemma_add_clear(
    room: RoomInfo,
    counts: WorkingCreepsView,
    first: Seq<TaskListView>,
    second: Seq<TaskListView>,
)
    requires
        all_clear(room, counts, first),
        all_clear(room, counts, second),
    ensures
        all_clear(room, counts, first + second),
{
    assert forall|i: int| 0 <= i < (first + second).len() implies chain_is_clear(
        room,
        counts,
        #[trigger] (first + second)[i],
    ) by {
        if i < first.len() {
            assert((first + second)[i] == first[i]);
        } else {
            assert((first + second)[i] == second[i - first.len()]);
        }
    }
}

/// A chain of one or two tasks is clear if each of them that works at a
/// station aims at a free place.
proof fn lemma_short_chains_clear(room: RoomInfo, counts: WorkingCreepsView, first: Task, second: Task)
    requires
        at_station(first) ==> aims_at_free_place(room, counts, first),
        at_station(second) ==> aims_at_free_place(room, counts, second),
    ensures
        chain_is_clear(room, counts, TaskListView::single(first)),
        chain_is_clear(room, counts, TaskListView::pair(first, second)),
{
}

/// A storage that is withdrawn from on the way is one of the room's, and
/// not staffed at the cap.
proof fn lemma_spare_storage_is_free(
    structures: Seq<StructureInfo>,
    room: RoomInfo,
    counts: WorkingCreepsView,
)
    requires
        forall|j: int| 0 <= j < structures.len() ==> has_structure(
            room.structures@,
            (#[trigger] structures[j]).id,
            structures[j].pos,
        ),
    ensures
        spare_storage(structures, room.name, counts) matches Some(id) ==> aims_at_free_place(
            room,
            counts,
            Task::Withdraw(WithdrawTask { target: id, move_failure_count: 0 }),
        ),
    decreases structures.len(),
{
    if structures.len() > 0 {
        let s = structures.last();
        if s.structure_type == StructureType::Storage && s.store.used > 0
            && !counts.worked_on(room.name, s.pos, WORK_CAP) {
            assert(place_is_free(
                room,
                counts,
                Task::Withdraw(WithdrawTask { target: s.id, move_failure_count: 0 }),
                s.pos,
            ));
        } else {
            lemma_spare_storage_is_free(structures.drop_last(), room, counts);
        }
    }
}

/// A chain stays clear behind a withdrawal from a storage that is free.
proof fn lemma_wrapped_chain_is_clear(
    room: RoomInfo,
    counts: WorkingCreepsView,
    storage: Option<ObjectId>,
    next: Task,
)
    requires
        at_station(next) ==> aims_at_free_place(room, counts, next),
        storage matches Some(id) ==> aims_at_free_place(
            room,
            counts,
            Task::Withdraw(WithdrawTask { target: id, move_failure_count: 0 }),
        ),
    ensures
        chain_is_clear(room, counts, with_withdrawal(storage, next)),
{
    match storage {
        Some(id) => {
            lemma_short_chains_clear(
                room,
                counts,
                Task::Withdraw(WithdrawTask { target: id, move_failure_count: 0 }),
                next,
            );
        },
        None => {
            lemma_short_chains_clear(room, counts, next, next);
        },
    }
}

/// Attacks work at no station.
proof fn lemma_attacks_clear(hostiles: Seq<GameObject>, room: RoomInfo, counts: WorkingCreepsView)
    ensures
        all_clear(room, counts, attack_lists(hostiles)),
    decreases hostiles.len(),
{
    if hostiles.len() > 0 {
        lemma_attacks_clear(hostiles.drop_last(), room, counts);
        let attack = Task::Attack(
            AttackTask { target: hostiles.last().id, move_failure_count: 0 },
        );
        let rest = attack_lists(hostiles.drop_last());
        lemma_short_chains_clear(room, counts, attack, attack);
        lemma_push_clear(room, counts, rest, TaskListView::single(attack));
        lemma_push_clear(
            room,
            counts,
            rest.push(TaskListView::single(attack)),
            TaskListView::single(attack),
        );
    }
}

/// Upgrades work at no station.
proof fn lemma_upgrades_clear(controller: ControllerInfo, room: RoomInfo, counts: WorkingCreepsView)
    ensures
        all_clear(room, counts, upgrade_lists(controller)),
{
    let upgrade = Task::Upgrade(UpgradeTask { target: controller.id, move_failure_count: 0 });
    lemma_short_chains_clear(room, counts, upgrade, upgrade);
    let none = Seq::<TaskListView>::empty();
    lemma_push_clear(room, counts, none, TaskListView::single(upgrade));
    lemma_push_clear(
        room,
        counts,
        none.push(TaskListView::single(upgrade)),
        TaskListView::single(upgrade),
    );
    assert(seq![TaskListView::single(upgrade)] =~= none.push(TaskListView::single(upgrade)));
}

/// Every emptying of a link on offer aims at a link and at a storage of
/// the room, neither staffed at the cap.
proof fn lemma_storage_links_clear(links: Seq<StorageLink>, room: RoomInfo, counts: WorkingCreepsView)
    requires
        forall|j: int| 0 <= j < links.len() ==> has_storage_link(
            room.links.storage_links@,
            (#[trigger] links[j]).0.id,
            links[j].0.pos,
        ),
    ensures
        all_clear(
            room,
            counts,
            storage_link_lists(links, room.name, room.my_structures@, counts),
        ),
    decreases links.len(),
{
    if links.len() > 0 {
        lemma_storage_links_clear(links.drop_last(), room, counts);
        let link = links.last().0;
        let rest = storage_link_lists(links.drop_last(), room.name, room.my_structures@, counts);
        if !counts.worked_on(room.name, link.pos, WORK_CAP) && link.store.used > 0 {
            match storage_place_for_link(link.pos, room.my_structures@) {
                Some(b) => {
                    lemma_first_min_is_min(
                        room.my_structures@.map_values(
                            |s: StructureInfo| takes_from_link(link.pos, s),
                        ),
                        room.my_structures@.map_values(
                            |s: StructureInfo| link.pos.range_to(s.pos) as u64,
                        ),
                    );
                    let s = room.my_structures@[b];
                    if !counts.worked_on(room.name, s.pos, WORK_CAP) {
                        let first = Task::Withdraw(
                            WithdrawTask { target: link.id, move_failure_count: 0 },
                        );
                        let second = Task::Transfer(
                            TransferTask { target: s.id, move_failure_count: 0 },
                        );
                        assert(place_is_free(room, counts, first, link.pos));
                        assert(place_is_free(room, counts, second, s.pos));
                        lemma_short_chains_clear(room, counts, first, second);
                        lemma_push_clear(room, counts, rest, TaskListView::pair(first, second));
                    }
                },
                None => {},
            }
        }
    }
}

/// Every filling on offer aims at a structure of the colony that is not
/// staffed at the cap.
proof fn lemma_fills_clear(
    fill: Fill,
    structures: Seq<StructureInfo>,
    room: RoomInfo,
    counts: WorkingCreepsView,
    storage: Option<ObjectId>,
)
    requires
        forall|j: int| 0 <= j < structures.len() ==> has_structure(
            room.my_structures@,
            (#[trigger] structures[j]).id,
            structures[j].pos,
        ),
        storage matches Some(id) ==> aims_at_free_place(
            room,
            counts,
            Task::Withdraw(WithdrawTask { target: id, move_failure_count: 0 }),
        ),
    ensures
        all_clear(room, counts, fill_lists(fill, structures, room.name, counts, storage)),
    decreases structures.len(),
{
    if structures.len() > 0 {
        lemma_fills_clear(fill, structures.drop_last(), room, counts, storage);
        let s = structures.last();
        let rest = fill_lists(fill, structures.drop_last(), room.name, counts, storage);
        if wants_fill(fill, s, room.name, counts) {
            let next = Task::Transfer(TransferTask { target: s.id, move_failure_count: 0 });
            assert(place_is_free(room, counts, next, s.pos));
            lemma_wrapped_chain_is_clear(room, counts, storage, next);
            lemma_push_clear(room, counts, rest, with_withdrawal(storage, next));
        }
    }
}

/// Every carrying from a link to the controller on offer withdraws from a
/// link of the room that is not staffed at the cap.
proof fn lemma_controller_links_clear(
    links: Seq<ControllerLink>,
    controller: ControllerInfo,
    room: RoomInfo,
    counts: WorkingCreepsView,
    extensions_waiting: bool,
)
    requires
        forall|j: int| 0 <= j < links.len() ==> has_controller_link(
            room.links.controller_links@,
            (#[trigger] links[j]).0.id,
            links[j].0.pos,
        ),
    ensures
        all_clear(
            room,
            counts,
            controller_link_lists(links, room.name, controller, counts, extensions_waiting),
        ),
    decreases links.len(),
{
    if links.len() > 0 {
        lemma_controller_links_clear(
            links.drop_last(),
            controller,
            room,
            counts,
            extensions_waiting,
        );
        let link = links.last().0;
        let rest = controller_link_lists(
            links.drop_last(),
            room.name,
            controller,
            counts,
            extensions_waiting,
        );
        if !counts.worked_on(room.name, link.pos, WORK_CAP) {
            let first = Task::Withdraw(WithdrawTask { target: link.id, move_failure_count: 0 });
            let second = Task::Upgrade(
                UpgradeTask { target: controller.id, move_failure_count: 0 },
            );
            assert(place_is_free(room, counts, first, link.pos));
            lemma_short_chains_clear(room, counts, first, second);
            lemma_push_clear(room, counts, rest, TaskListView::pair(first, second));
        }
    }
}

/// Every build on offer that withdraws on the way does so from a storage
/// that is not staffed at the cap.
proof fn lemma_sites_clear(
    sites: Seq<GameObject>,
    room: RoomInfo,
    counts: WorkingCreepsView,
    storage: Option<ObjectId>,
)
    requires
        storage matches Some(id) ==> aims_at_free_place(
            room,
            counts,
            Task::Withdraw(WithdrawTask { target: id, move_failure_count: 0 }),
        ),
    ensures
        all_clear(room, counts, site_lists(sites, storage)),
    decreases sites.len(),
{
    if sites.len() > 0 {
        lemma_sites_clear(sites.drop_last(), room, counts, storage);
        let next = Task::Build(BuildTask { target: sites.last().id, move_failure_count: 0 });
        let rest = site_lists(sites.drop_last(), storage);
        lemma_wrapped_chain_is_clear(room, counts, storage, next);
        lemma_push_clear(room, counts, rest, with_withdrawal(storage, next));
    }
}

/// Every repair on offer aims at a structure of the room that is not
/// staffed at the cap.
proof fn lemma_repairs_clear(
    structures: Seq<StructureInfo>,
    room: RoomInfo,
    level: u8,
    counts: WorkingCreepsView,
    storage: Option<ObjectId>,
)
    requires
        forall|j: int| 0 <= j < structures.len() ==> has_structure(
            room.structures@,
            (#[trigger] structures[j]).id,
            structures[j].pos,
        ),
        storage matches Some(id) ==> aims_at_free_place(
            room,
            counts,
            Task::Withdraw(WithdrawTask { target: id, move_failure_count: 0 }),
        ),
    ensures
        all_clear(room, counts, repair_lists(structures, room.name, level, counts, storage)),
    decreases structures.len(),
{
    if structures.len() > 0 {
        lemma_repairs_clear(structures.drop_last(), room, level, counts, storage);
        let s = structures.last();
        let rest = repair_lists(structures.drop_last(), room.name, level, counts, storage);
        if !counts.worked_on(room.name, s.pos, WORK_CAP) {
            let next = Task::Repair(RepairTask { target: s.id, move_failure_count: 0 });
            assert(place_is_free(room, counts, next, s.pos));
            lemma_wrapped_chain_is_clear(room, counts, storage, next);
            lemma_push_clear(room, counts, rest, with_withdrawal(storage, next));
        }
    }
}

/// Occupancy bound, for everything a room offers: every transfer,
/// withdrawal and repair of every chain on offer aims at something the room
/// holds, at a position where fewer agents are at work than the cap allows.
/// No chain on offer leads to a station, a link or a repair target that is
/// staffed at the cap, as its first task or a later one.
pub proof fn lemma_offers_avoid_staffed_positions(room: RoomInfo, counts: WorkingCreepsView)
    ensures
        all_clear(room, counts, room_task_lists(room, counts)),
{
    if room.controller is Some {
        let storage = spare_storage(room.structures@, room.name, counts);
        lemma_spare_storage_is_free(room.structures@, room, counts);
        lemma_attacks_clear(room.hostile_creeps@, room, counts);
        lemma_upgrades_clear(room.controller->0, room, counts);
        lemma_storage_links_clear(room.links.storage_links@, room, counts);
        lemma_fills_clear(Fill::Extensions, room.my_structures@, room, counts, storage);
        lemma_fills_clear(Fill::Spawns, room.my_structures@, room, counts, storage);
        lemma_fills_clear(Fill::Towers, room.my_structures@, room, counts, storage);
        let extensions = fill_lists(
            Fill::Extensions,
            room.my_structures@,
            room.name,
            counts,
            storage,
        );
        lemma_controller_links_clear(
            room.links.controller_links@,
            room.controller->0,
            room,
            counts,
            extensions.len() > 0,
        );
        lemma_sites_clear(room.construction_sites@, room, counts, storage);
        lemma_repairs_clear(
            room.structures@,
            room,
            room.controller->0.level,
            counts,
            storage,
        );
        let attacks = attack_lists(room.hostile_creeps@);
        let upgrades = upgrade_lists(room.controller->0);
        let emptied = storage_link_lists(
            room.links.storage_links@,
            room.name,
            room.my_structures@,
            counts,
        );
        let spawns = fill_lists(Fill::Spawns, room.my_structures@, room.name, counts, storage);
        let towers = fill_lists(Fill::Towers, room.my_structures@, room.name, counts, storage);
        let carried = controller_link_lists(
            room.links.controller_links@,
            room.name,
            room.controller->0,
            counts,
            extensions.len() > 0,
        );
        let sites = site_lists(room.construction_sites@, storage);
        let repairs = repair_lists(
            room.structures@,
            room.name,
            room.controller->0.level,
            counts,
            storage,
        );
        lemma_add_clear(room, counts, attacks, upgrades);
        lemma_add_clear(room, counts, attacks + upgrades, emptied);
        lemma_add_clear(room, counts, attacks + upgrades + emptied, extensions);
        lemma_add_clear(room, counts, attacks + upgrades + emptied + extensions, spawns);
        lemma_add_clear(room, counts, attacks + upgrades + emptied + extensions + spawns, towers);
        lemma_add_clear(
            room,
            counts,
            attacks + upgrades + emptied + extensions + spawns + towers,
            carried,
        );
        lemma_add_clear(
            room,
            counts,
            attacks + upgrades + emptied + extensions + spawns + towers + carried,
            sites,
        );
        lemma_add_clear(
            room,
            counts,
            attacks + upgrades + emptied + extensions + spawns + towers + carried + sites,
            repairs,
        );
    }
}

} // verus!
