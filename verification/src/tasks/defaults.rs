//! What an agent falls back on when nothing on offer suits it.

use crate::game::{body_has, CreepInfo, ObjectId, Part};
use crate::metadata::{clamp_u32, RoomInfo, SourceInfo, SourceLink, SourceNode, World};
use crate::position::{Position, RoomName};
use crate::tasks::candidates::{find_storage_for_link, storage_for_link};
use crate::tasks::occupancy::{WorkingCreeps, WorkingCreepsView};
use crate::tasks::task_list::{single_list, standing_list, TaskList, TaskListView};
use crate::tasks::{
    has_all_parts, has_parts_for, HarvestSourceTask, IdleUntilTask, Task, TransferTask, TravelDumbTask, TravelTask, UpgradeTask,
    WithdrawTask,
};
use crate::utils::{
    creep_type_of, first_min, first_min_spec, first_where, get_creep_type, str_eq,
};
use vstd::prelude::*;

verus! {

/// Range within which a combat agent counts as gathered at its rally point.
pub const RALLY_RANGE: u32 = 3;

/// Range within which a link counts as standing beside a resource node.
pub const SOURCE_LINK_RANGE: u32 = 4;

/// The controller of the nearest room that belongs to the colony, measured
/// from the agent to the controller; of several at the same range, the first.
pub open spec fn home_controller(creep: CreepInfo, world: World) -> Option<ObjectId> {
    match first_min_spec(
        world.rooms@.map_values(|r: RoomInfo| r.is_mine_spec()),
        world.rooms@.map_values(
            |r: RoomInfo|
                match r.controller {
                    Some(c) => creep.pos.range_to(c.pos) as u64,
                    None => 0u64,
                },
        ),
    ) {
        Some(i) => match world.rooms@[i].controller {
            Some(c) => Some(c.id),
            None => None,
        },
        None => None,
    }
}

/// A walk to the controller of the nearest room of the colony.
pub open spec fn travel_home(creep: CreepInfo, world: World) -> Option<TaskListView> {
    match home_controller(creep, world) {
        Some(id) => Some(TaskListView::single(Task::Travel(TravelTask { target: id, move_failure_count: 0 }))),
        None => None,
    }
}

/// A walk to the controller of the nearest room of the colony.
pub fn get_travel_home_task(creep: &CreepInfo, world: &World) -> (list: Option<TaskList>)
    ensures
        match travel_home(*creep, *world) {
            Some(view) => list matches Some(l) && l@ == view,
            None => list is None,
        },
{
    let mut eligible: Vec<bool> = Vec::new();
    let mut keys: Vec<u64> = Vec::new();
    let mut i: usize = 0;
    while i < world.rooms.len()
        invariant
            i <= world.rooms.len(),
            eligible@ == world.rooms@.take(i as int).map_values(|r: RoomInfo| r.is_mine_spec()),
            keys@ == world.rooms@.take(i as int).map_values(
                |r: RoomInfo|
                    match r.controller {
                        Some(c) => creep.pos.range_to(c.pos) as u64,
                        None => 0u64,
                    },
            ),
        decreases world.rooms.len() - i,
    {
        let room = &world.rooms[i];
        eligible.push(room.is_mine());
        keys.push(
            match room.controller {
                Some(c) => creep.pos.get_range_to(c.pos) as u64,
                None => 0,
            },
        );
        i += 1;
    }
    proof {
        assert(world.rooms@.take(i as int) =~= world.rooms@);
    }
    match first_min(&eligible, &keys) {
        Some(best) => match world.rooms[best].controller {
            Some(c) => Some(single_list(Task::Travel(TravelTask::new(c.id)))),
            None => None,
        },
        None => None,
    }
}

/// Whether some link beside a resource node stands within reach of `pos`.
pub open spec fn has_source_link_near(links: Seq<SourceLink>, pos: Position) -> bool {
    exists|k: int|
        0 <= k < links.len() && (#[trigger] links[k]).0.pos.range_to(pos) <= SOURCE_LINK_RANGE
}

/// Whether some link beside a resource node stands within reach of `pos`.
fn any_source_link_near(links: &Vec<SourceLink>, pos: Position) -> (r: bool)
    ensures
        r == has_source_link_near(links@, pos),
{
    let mut k: usize = 0;
    while k < links.len()
        invariant
            k <= links.len(),
            forall|j: int|
                0 <= j < k ==> !((#[trigger] links@[j]).0.pos.range_to(pos) <= SOURCE_LINK_RANGE),
        decreases links.len() - k,
    {
        if links[k].0.pos.in_range_to(pos, SOURCE_LINK_RANGE) {
            return true;
        }
        k += 1;
    }
    false
}

/// Whether a resource node comes into question: with energy left where only
/// such are wanted, and with a link near where one is required.
pub open spec fn source_wanted(
    source: SourceNode,
    links: Seq<SourceLink>,
    active_only: bool,
    link_required: bool,
) -> bool {
    &&& active_only ==> source.energy > 0
    &&& link_required ==> has_source_link_near(links, source.pos)
}

/// What it costs `creep` to gather at `source`: ten for every agent that
/// works there already plus the range to it, both only while the room is
/// tracked by position; twenty more where as many agents stand around it as
/// there are free squares; a thousand more where a dedicated harvester
/// stands beside it.
pub open spec fn source_cost(
    creep: CreepInfo,
    source: SourceNode,
    room: RoomName,
    counts: WorkingCreepsView,
) -> u64 {
    let info = SourceInfo::of(source, Some(creep.id));
    let travel: int = if counts.tracks_room_by_pos(room) {
        clamp_u32(counts.pos_count(source.pos)) * 10 + creep.pos.range_to(source.pos)
    } else {
        0
    };
    let crowded: int = if info.nearby_creep_count >= info.non_wall_terrain_count {
        20
    } else {
        0
    };
    let taken: int = if info.nearby_source_harvester_count > 0 {
        1000
    } else {
        0
    };
    (travel + crowded + taken) as u64
}

/// The resource node of `room` at which `creep` gathers: of those that come
/// into question the cheapest, and of several that cost alike the first.
pub open spec fn chosen_source(
    creep: CreepInfo,
    room: RoomInfo,
    counts: WorkingCreepsView,
    active_only: bool,
    link_required: bool,
) -> Option<int> {
    first_min_spec(
        room.sources@.map_values(
            |s: SourceNode| source_wanted(s, room.links.source_links@, active_only, link_required),
        ),
        room.sources@.map_values(|s: SourceNode| source_cost(creep, s, room.name, counts)),
    )
}

/// The last link that was sorted to the resource node at `pos`.
pub open spec fn link_of_source(links: Seq<SourceLink>, pos: Position) -> Option<ObjectId>
    decreases links.len(),
{
    if links.len() == 0 {
        None
    } else if links.last().1.pos == pos {
        Some(links.last().0.id)
    } else {
        link_of_source(links.drop_last(), pos)
    }
}

/// The last link that was sorted to the resource node at `pos`.
fn find_link_of_source(links: &Vec<SourceLink>, pos: Position) -> (found: Option<ObjectId>)
    ensures
        found == link_of_source(links@, pos),
{
    let mut i: usize = links.len();
    proof {
        assert(links@.take(i as int) =~= links@);
    }
    while i > 0
        invariant
            i <= links.len(),
            link_of_source(links@, pos) == link_of_source(links@.take(i as int), pos),
        decreases i,
    {
        proof {
            assert(links@.take(i as int).drop_last() =~= links@.take(i - 1));
        }
        i -= 1;
        if links[i].1.pos == pos {
            return Some(links[i].0.id);
        }
    }
    None
}

/// A fresh gathering task at the resource node `id`.
pub open spec fn gather_at(id: ObjectId) -> Task {
    Task::HarvestSource(HarvestSourceTask { target: id, move_failure_count: 0 })
}

/// The chain by which `creep` gathers at `source`: where a link is required
/// and one was sorted to the node, the standing job of gathering,
/// delivering into that link and waiting for the node to fill up again;
/// else the gathering alone.
pub open spec fn gather_list(source: SourceNode, links: Seq<SourceLink>, link_required: bool) -> TaskListView {
    if link_required && link_of_source(links, source.pos) is Some {
        TaskListView::standing(
            gather_at(source.id),
            Task::Transfer(TransferTask { target: link_of_source(links, source.pos)->0, move_failure_count: 0 }),
            Task::IdleUntil(IdleUntilTask { pass_through: source.id }),
        )
    } else {
        TaskListView::single(gather_at(source.id))
    }
}

/// What `creep` does to gather energy. In a room of the colony it gathers
/// at the cheapest resource node that comes into question, or does nothing
/// where none does; in a room with a controller of someone else it walks
/// home; in a room without a controller, or one that is not visible, it
/// does nothing.
pub open spec fn harvest_source_list(
    creep: CreepInfo,
    world: World,
    counts: WorkingCreepsView,
    active_only: bool,
    link_required: bool,
) -> Option<TaskListView> {
    match world.room_index(creep.pos.room_spec()) {
        None => None,
        Some(r) => {
            let room = world.rooms@[r];
            match room.controller {
                None => None,
                Some(c) => if c.my {
                    match chosen_source(creep, room, counts, active_only, link_required) {
                        Some(i) => Some(
                            gather_list(room.sources@[i], room.links.source_links@, link_required),
                        ),
                        None => None,
                    }
                } else {
                    travel_home(creep, world)
                },
            }
        },
    }
}

/// What it costs `creep` to gather at `source`.
fn get_source_cost(creep: &CreepInfo, source: &SourceNode, room: RoomName, counts: &WorkingCreeps) -> (cost:
    u64)
    ensures
        cost == source_cost(*creep, *source, room, counts@),
{
    let info = SourceInfo::new(source, Some(creep.id));
    let mut cost: u64 = 0;
    if counts.knows_room_by_pos(room) {
        let n = counts.count_at(source.pos);
        let clamped: u64 = if n as u64 <= u32::MAX as u64 {
            n as u64
        } else {
            u32::MAX as u64
        };
        cost = clamped * 10 + creep.pos.get_range_to(source.pos) as u64;
    }
    if info.nearby_creep_count >= info.non_wall_terrain_count {
        cost += 20;
    }
    if info.nearby_source_harvester_count > 0 {
        cost += 1000;
    }
    cost
}

/// What `creep` does to gather energy.
pub fn get_harvest_source_task_list(
    creep: &CreepInfo,
    world: &World,
    counts: &WorkingCreeps,
    active_only: bool,
    link_required: bool,
) -> (list: Option<TaskList>)
    ensures
        match harvest_source_list(*creep, *world, counts@, active_only, link_required) {
            Some(view) => list matches Some(l) && l@ == view,
            None => list is None,
        },
{
    let r = match world.find_room(creep.pos.room_name()) {
        Some(r) => r,
        None => {
            return None;
        },
    };
    let room = &world.rooms[r];
    let controller = match room.controller {
        Some(c) => c,
        None => {
            return None;
        },
    };
    if !controller.my {
        return get_travel_home_task(creep, world);
    }
    let mut eligible: Vec<bool> = Vec::new();
    let mut keys: Vec<u64> = Vec::new();
    let mut i: usize = 0;
    while i < room.sources.len()
        invariant
            i <= room.sources.len(),
            eligible@ == room.sources@.take(i as int).map_values(
                |s: SourceNode|
                    source_wanted(s, room.links.source_links@, active_only, link_required),
            ),
            keys@ == room.sources@.take(i as int).map_values(
                |s: SourceNode| source_cost(*creep, s, room.name, counts@),
            ),
        decreases room.sources.len() - i,
    {
        let source = &room.sources[i];
        let wanted = (!active_only || source.energy > 0) && (!link_required
            || any_source_link_near(&room.links.source_links, source.pos));
        eligible.push(wanted);
        keys.push(get_source_cost(creep, source, room.name, counts));
        i += 1;
    }
    proof {
        assert(room.sources@.take(i as int) =~= room.sources@);
    }
    match first_min(&eligible, &keys) {
        Some(best) => {
            let source = &room.sources[best];
            if link_required {
                match find_link_of_source(&room.links.source_links, source.pos) {
                    Some(link) => {
                        return Some(
                            standing_list(
                                Task::HarvestSource(HarvestSourceTask::new(source.id)),
                                Task::Transfer(TransferTask::new(link)),
                                Task::IdleUntil(IdleUntilTask::new(source.id)),
                            ),
                        );
                    },
                    None => {},
                }
            }
            Some(single_list(Task::HarvestSource(HarvestSourceTask::new(source.id))))
        },
        None => None,
    }
}

/// Holds of the marker that names the rally point.
pub open spec fn is_defend_flag() -> spec_fn(crate::metadata::FlagInfo) -> bool {
    |f: crate::metadata::FlagInfo| f.name@ == "defend"@
}

/// Where combat agents gather: the first marker named `defend`.
pub open spec fn rally_point(world: World) -> Option<Position> {
    match first_where(world.flags@, is_defend_flag()) {
        Some(i) => Some(world.flags@[i].pos),
        None => None,
    }
}

/// Where combat agents gather.
fn find_rally_point(world: &World) -> (found: Option<Position>)
    ensures
        found == rally_point(*world),
{
    let mut i: usize = 0;
    while i < world.flags.len()
        invariant
            i <= world.flags.len(),
            forall|j: int| 0 <= j < i ==> !is_defend_flag()(#[trigger] world.flags@[j]),
        decreases world.flags.len() - i,
    {
        if str_eq(world.flags[i].name.as_str(), "defend") {
            proof {
                crate::utils::lemma_first_where_found(world.flags@, is_defend_flag(), i as int);
            }
            return Some(world.flags[i].pos);
        }
        i += 1;
    }
    proof {
        crate::utils::lemma_first_where_none(world.flags@, is_defend_flag());
    }
    None
}

/// The room `creep` stands in, if it is visible.
pub open spec fn room_of(creep: CreepInfo, world: World) -> Option<RoomInfo> {
    match world.room_index(creep.pos.room_spec()) {
        Some(r) => Some(world.rooms@[r]),
        None => None,
    }
}

/// A walk home for an agent that stands in a room that is not the colony's.
pub open spec fn go_home(creep: CreepInfo, world: World) -> Option<TaskListView> {
    if (room_of(creep, world) matches Some(room) && room.is_mine_spec()) {
        None
    } else {
        travel_home(creep, world)
    }
}

/// The standing job of a dedicated upgrader: withdraw from the first link
/// beside the controller, upgrade, wait for the link to fill up again.
pub open spec fn upgrader_list(creep: CreepInfo, world: World) -> Option<TaskListView> {
    match room_of(creep, world) {
        Some(room) => if room.links.controller_links@.len() > 0 && room.controller is Some {
            let link = room.links.controller_links@[0].0.id;
            Some(
                TaskListView::standing(
                    Task::Withdraw(WithdrawTask { target: link, move_failure_count: 0 }),
                    Task::Upgrade(UpgradeTask { target: room.controller->0.id, move_failure_count: 0 }),
                    Task::IdleUntil(IdleUntilTask { pass_through: link }),
                ),
            )
        } else {
            None
        },
        None => None,
    }
}

/// The standing job of a dedicated storager: withdraw from the first link
/// beside a storage, deliver into the nearest storage that can take it,
/// wait for the link to fill up again.
pub open spec fn storager_list(creep: CreepInfo, world: World) -> Option<TaskListView> {
    match room_of(creep, world) {
        Some(room) => if room.links.storage_links@.len() > 0 {
            let link = room.links.storage_links@[0].0;
            match storage_for_link(link.pos, room.my_structures@) {
                Some(storage) => Some(
                    TaskListView::standing(
                        Task::Withdraw(WithdrawTask { target: link.id, move_failure_count: 0 }),
                        Task::Transfer(TransferTask { target: storage, move_failure_count: 0 }),
                        Task::IdleUntil(IdleUntilTask { pass_through: link.id }),
                    ),
                ),
                None => None,
            }
        } else {
            None
        },
        None => None,
    }
}

/// A fresh walk to `pos` along a remembered path.
pub open spec fn walk_to(pos: Position) -> Task {
    Task::TravelDumb(TravelDumbTask { target: pos, cached_path: None, stuck_count: 0 })
}

/// What the body of `creep` suggests. An agent that can attack walks to the
/// rally point while it is out of range of it, and stays put once there;
/// without a rally point it walks to the controller of its room while out
/// of range of that, else home if the room is not the colony's. An agent
/// that can claim does nothing. An agent that can work upgrades the
/// controller of its room if it holds energy and the room is the colony's,
/// else gathers. Any other agent walks home from a room that is not the
/// colony's.
pub open spec fn list_by_body(creep: CreepInfo, world: World, counts: WorkingCreepsView) -> Option<
    TaskListView,
> {
    let controller = match room_of(creep, world) {
        Some(room) => room.controller,
        None => None,
    };
    if creep.body@.contains(Part::Attack) {
        match rally_point(world) {
            Some(pos) => if creep.pos.range_to(pos) <= RALLY_RANGE {
                None
            } else {
                Some(TaskListView::single(walk_to(pos)))
            },
            None => if (controller matches Some(c) && !(creep.pos.range_to(c.pos) <= RALLY_RANGE)) {
                Some(TaskListView::single(Task::Travel(TravelTask { target: controller->0.id, move_failure_count: 0 })))
            } else {
                go_home(creep, world)
            },
        }
    } else if creep.body@.contains(Part::Claim) {
        None
    } else if creep.body@.contains(Part::Work) {
        if (controller matches Some(c) && c.my) && creep.store.used > 0 {
            Some(TaskListView::single(Task::Upgrade(UpgradeTask { target: controller->0.id, move_failure_count: 0 })))
        } else {
            harvest_source_list(creep, world, counts, true, false)
        }
    } else {
        go_home(creep, world)
    }
}

/// What the archetype and the body of `creep` suggest. A dedicated harvester takes up its standing
/// job at a resource node with a link; a dedicated upgrader its standing job
/// at the controller's link, or nothing; a dedicated storager its standing
/// job at the storage's link. Every other agent, and a storager without
/// such a job, goes by its body.
pub open spec fn fallback_list(creep: CreepInfo, world: World, counts: WorkingCreepsView) -> Option<
    TaskListView,
> {
    let creep_type = creep_type_of(creep.name@);
    if creep_type == "source_harvester"@ {
        harvest_source_list(creep, world, counts, false, true)
    } else if creep_type == "upgrader"@ {
        upgrader_list(creep, world)
    } else if creep_type == "storager"@ && storager_list(creep, world) is Some {
        storager_list(creep, world)
    } else {
        list_by_body(creep, world, counts)
    }
}

/// A walk home for an agent that stands in a room that is not the colony's.
fn get_go_home(creep: &CreepInfo, world: &World) -> (list: Option<TaskList>)
    ensures
        match go_home(*creep, *world) {
            Some(view) => list matches Some(l) && l@ == view,
            None => list is None,
        },
{
    let mine = match world.find_room(creep.pos.room_name()) {
        Some(r) => world.rooms[r].is_mine(),
        None => false,
    };
    if mine {
        None
    } else {
        get_travel_home_task(creep, world)
    }
}

/// The standing job of a dedicated upgrader.
fn get_upgrader_list(creep: &CreepInfo, world: &World) -> (list: Option<TaskList>)
    ensures
        match upgrader_list(*creep, *world) {
            Some(view) => list matches Some(l) && l@ == view,
            None => list is None,
        },
{
    match world.find_room(creep.pos.room_name()) {
        Some(r) => {
            let room = &world.rooms[r];
            if room.links.controller_links.len() > 0 {
                match room.controller {
                    Some(c) => {
                        let link = room.links.controller_links[0].0.id;
                        Some(
                            standing_list(
                                Task::Withdraw(WithdrawTask::new(link)),
                                Task::Upgrade(UpgradeTask::new(c.id)),
                                Task::IdleUntil(IdleUntilTask::new(link)),
                            ),
                        )
                    },
                    None => None,
                }
            } else {
                None
            }
        },
        None => None,
    }
}

/// The standing job of a dedicated storager.
fn get_storager_list(creep: &CreepInfo, world: &World) -> (list: Option<TaskList>)
    ensures
        match storager_list(*creep, *world) {
            Some(view) => list matches Some(l) && l@ == view,
            None => list is None,
        },
{
    match world.find_room(creep.pos.room_name()) {
        Some(r) => {
            let room = &world.rooms[r];
            if room.links.storage_links.len() > 0 {
                let link = room.links.storage_links[0].0;
                match find_storage_for_link(link.pos, &room.my_structures) {
                    Some(storage) => Some(
                        standing_list(
                            Task::Withdraw(WithdrawTask::new(link.id)),
                            Task::Transfer(TransferTask::new(storage)),
                            Task::IdleUntil(IdleUntilTask::new(link.id)),
                        ),
                    ),
                    None => None,
                }
            } else {
                None
            }
        },
        None => None,
    }
}

/// What the body of `creep` suggests.
fn get_list_by_body(creep: &CreepInfo, world: &World, counts: &WorkingCreeps) -> (list: Option<
    TaskList,
>)
    ensures
        match list_by_body(*creep, *world, counts@) {
            Some(view) => list matches Some(l) && l@ == view,
            None => list is None,
        },
{
    let controller = match world.find_room(creep.pos.room_name()) {
        Some(r) => world.rooms[r].controller,
        None => None,
    };
    if body_has(&creep.body, Part::Attack) {
        match find_rally_point(world) {
            Some(pos) => {
                if creep.pos.in_range_to(pos, RALLY_RANGE) {
                    None
                } else {
                    Some(single_list(Task::TravelDumb(TravelDumbTask::new(pos))))
                }
            },
            None => {
                match controller {
                    Some(c) => {
                        if !creep.pos.in_range_to(c.pos, RALLY_RANGE) {
                            return Some(single_list(Task::Travel(TravelTask::new(c.id))));
                        }
                    },
                    None => {},
                }
                get_go_home(creep, world)
            },
        }
    } else if body_has(&creep.body, Part::Claim) {
        None
    } else if body_has(&creep.body, Part::Work) {
        if creep.store.used > 0 {
            match controller {
                Some(c) => {
                    if c.my {
                        return Some(single_list(Task::Upgrade(UpgradeTask::new(c.id))));
                    }
                },
                None => {},
            }
        }
        get_harvest_source_task_list(creep, world, counts, true, false)
    } else {
        get_go_home(creep, world)
    }
}

/// What `creep` falls back on when nothing on offer suits it: what its
/// archetype and body suggest, if it has every capability that the first
/// task of that chain needs; else nothing.
pub open spec fn default_task_list(creep: CreepInfo, world: World, counts: WorkingCreepsView) -> Option<
    TaskListView,
> {
    match fallback_list(creep, world, counts) {
        Some(list) => if (list.current_task() matches Some(task) && has_all_parts(
            creep.body@,
            task.required_parts(),
        )) {
            Some(list)
        } else {
            None
        },
        None => None,
    }
}

/// What the archetype and the body of `creep` suggest.
fn get_fallback_list(creep: &CreepInfo, world: &World, counts: &WorkingCreeps) -> (list: Option<
    TaskList,
>)
    ensures
        match fallback_list(*creep, *world, counts@) {
            Some(view) => list matches Some(l) && l@ == view,
            None => list is None,
        },
{
    let creep_type = get_creep_type(creep.name.as_str());
    proof {
        crate::tasks::lemma_archetype_names_differ();
    }
    if str_eq(creep_type.as_str(), "source_harvester") {
        return get_harvest_source_task_list(creep, world, counts, false, true);
    } else if str_eq(creep_type.as_str(), "upgrader") {
        return get_upgrader_list(creep, world);
    } else if str_eq(creep_type.as_str(), "storager") {
        match get_storager_list(creep, world) {
            Some(list) => {
                return Some(list);
            },
            None => {},
        }
    }
    get_list_by_body(creep, world, counts)
}

/// What `creep` falls back on when nothing on offer suits it.
pub fn get_default_task_list_for_creep(creep: &CreepInfo, world: &World, counts: &WorkingCreeps) -> (list:
    Option<TaskList>)
    ensures
        match default_task_list(*creep, *world, counts@) {
            Some(view) => list matches Some(l) && l@ == view,
            None => list is None,
        },
{
    match get_fallback_list(creep, world, counts) {
        Some(list) => {
            let able = match list.current_task() {
                Some(task) => has_parts_for(creep, task),
                None => false,
            };
            if able {
                Some(list)
            } else {
                None
            }
        },
        None => None,
    }
}

} // verus!
