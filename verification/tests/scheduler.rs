use colony_core::game::{CreepInfo, ErrorCode, GameObject, ObjectId, Part, Store, StructureType};
use colony_core::metadata::{
    ControllerInfo, FlagInfo, LookEntry, RoomInfo, SourceNode, StructureInfo, Terrain, World,
};
use colony_core::position::{Position, RoomName};
use colony_core::tasks::defaults::{
    get_default_task_list_for_creep, get_harvest_source_task_list, get_travel_home_task,
};
use colony_core::tasks::directives::{claim_task_exists, get_flag_task_lists};
use colony_core::tasks::manager::{LinkTransfer, Outcomes};
use colony_core::tasks::matching::{get_task_list_for_creep, get_task_list_with_room};
use colony_core::tasks::occupancy::{Assignment, TypeSlot, WorkingCreeps};
use colony_core::tasks::task_list::{pair_list, single_list, standing_list};
use colony_core::tasks::{
    Action, AttackTask, BuildTask, ClaimTask, HarvestSourceTask, IdleTask, RepairTask, Report,
    Step, Task, TaskList, TaskManager, TaskType, TransferTask, TravelTask, UpgradeTask,
    WithdrawTask,
};

fn home() -> RoomName {
    RoomName::new("E1N1").unwrap()
}

fn east() -> RoomName {
    RoomName::new("E2N1").unwrap()
}

fn at(x: u8, y: u8) -> Position {
    Position::new(x, y, home()).unwrap()
}

fn at_east(x: u8, y: u8) -> Position {
    Position::new(x, y, east()).unwrap()
}

fn id(n: u128) -> ObjectId {
    ObjectId { packed: n }
}

fn store(used: u32, capacity: u32) -> Store {
    Store { used, free: (capacity - used) as i32, capacity }
}

fn creep(n: u128, name: &str, pos: Position, body: Vec<Part>, held: Store) -> CreepInfo {
    CreepInfo { id: id(n), name: name.to_string(), pos, body, store: held, ticks_to_live: Some(1000) }
}

fn worker(n: u128, pos: Position, held: Store) -> CreepInfo {
    creep(n, "worker-1-0", pos, vec![Part::Move, Part::Work, Part::Carry], held)
}

fn object(n: u128, pos: Position, hits: u32, held: Store) -> GameObject {
    GameObject { id: id(n), pos, hits, hits_max: 100, store: held }
}

fn structure(n: u128, kind: StructureType, pos: Position, held: Store) -> StructureInfo {
    StructureInfo {
        id: id(n),
        structure_type: kind,
        pos,
        hits: 1000,
        hits_max: 1000,
        active: true,
        store: held,
        cooldown: 0,
    }
}

fn controller(n: u128, pos: Position, my: bool) -> ControllerInfo {
    ControllerInfo {
        id: id(n),
        pos,
        my,
        owned: my,
        reserved: false,
        active: true,
        level: 3,
        ticks_to_downgrade: 20000,
    }
}

fn open_node(n: u128, pos: Position, energy: u32) -> SourceNode {
    SourceNode {
        id: id(n),
        pos,
        energy,
        nearby: vec![LookEntry::Terrain(Terrain::Plain), LookEntry::Terrain(Terrain::Plain)],
        link_area: vec![],
    }
}

fn empty_world() -> World {
    World { time: 0, spawns: vec![], creeps: vec![], objects: vec![], rooms: vec![], flags: vec![] }
}

fn nobody() -> WorkingCreeps {
    WorkingCreeps { by_room_and_type: vec![], by_room_and_pos: vec![] }
}

fn target_of(task: &Task) -> Option<ObjectId> {
    match task {
        Task::Attack(t) => Some(t.target),
        Task::Build(t) => Some(t.target),
        Task::Harvest(t) => Some(t.target),
        Task::HarvestSource(t) => Some(t.target),
        Task::Heal(t) => Some(t.target),
        Task::IdleUntil(t) => Some(t.pass_through),
        Task::Repair(t) => Some(t.target),
        Task::Transfer(t) => Some(t.target),
        Task::Travel(t) => Some(t.target),
        Task::Upgrade(t) => Some(t.target),
        Task::Withdraw(t) => Some(t.target),
        _ => None,
    }
}

fn shape(list: &TaskList) -> Vec<(TaskType, Option<ObjectId>)> {
    list.tasks.iter().map(|t| (t.get_type(), target_of(t))).collect()
}

fn current(manager: &TaskManager, creep: u128) -> Option<(TaskType, Option<ObjectId>)> {
    manager
        .get_task_list(id(creep))
        .and_then(|l| l.current_task())
        .map(|t| (t.get_type(), target_of(t)))
}

/// One room of the colony with a resource node and a construction source
/// that needs energy.
fn small_colony(creeps: Vec<CreepInfo>) -> World {
    let spawn = structure(32, StructureType::Spawn, at(22, 22), store(100, 300));
    let room = RoomInfo::new(
        home(),
        vec![open_node(1, at(10, 10), 3000)],
        vec![spawn],
        vec![spawn],
        vec![spawn],
        vec![],
        vec![],
        Some(controller(7, at(40, 40), true)),
        300,
    );
    World {
        time: 100,
        spawns: vec![],
        creeps,
        objects: vec![
            object(1, at(10, 10), 0, store(3000, 3000)),
            object(32, at(22, 22), 1000, store(100, 300)),
            object(7, at(40, 40), 0, store(0, 0)),
        ],
        rooms: vec![room],
        flags: vec![],
    }
}

#[test]
fn matching_takes_the_nearest_of_the_first_kind() {
    let w = World {
        objects: vec![
            object(1, at(30, 30), 0, store(0, 0)),
            object(2, at(12, 12), 0, store(0, 0)),
            object(3, at(11, 11), 0, store(0, 0)),
        ],
        ..empty_world()
    };
    let c = worker(100, at(10, 10), store(50, 50));
    let mut pool = vec![
        single_list(Task::Build(BuildTask::new(id(1)))),
        single_list(Task::Build(BuildTask::new(id(2)))),
        single_list(Task::Upgrade(UpgradeTask::new(id(3)))),
    ];
    let taken = get_task_list_for_creep(&c, &w, &mut pool).unwrap();
    assert_eq!(shape(&taken), vec![(TaskType::Build, Some(id(2)))]);
    assert_eq!(pool.len(), 2);
    assert_eq!(shape(&pool[0]), vec![(TaskType::Build, Some(id(1)))]);
    assert_eq!(shape(&pool[1]), vec![(TaskType::Upgrade, Some(id(3)))]);
}

#[test]
fn matching_takes_the_first_of_equally_near_chains() {
    let w = World {
        objects: vec![
            object(1, at(12, 10), 0, store(0, 0)),
            object(2, at(10, 12), 0, store(0, 0)),
        ],
        ..empty_world()
    };
    let c = worker(100, at(10, 10), store(50, 50));
    let mut pool = vec![
        single_list(Task::Build(BuildTask::new(id(1)))),
        single_list(Task::Build(BuildTask::new(id(2)))),
    ];
    let taken = get_task_list_for_creep(&c, &w, &mut pool).unwrap();
    assert_eq!(shape(&taken), vec![(TaskType::Build, Some(id(1)))]);
}

#[test]
fn matching_stops_at_the_first_chain_of_another_kind() {
    let w = World {
        objects: vec![
            object(1, at(30, 30), 0, store(0, 0)),
            object(2, at(20, 20), 0, store(0, 0)),
            object(3, at(11, 11), 0, store(0, 0)),
        ],
        ..empty_world()
    };
    let c = worker(100, at(10, 10), store(50, 50));
    let mut pool = vec![
        single_list(Task::Build(BuildTask::new(id(1)))),
        single_list(Task::Upgrade(UpgradeTask::new(id(2)))),
        single_list(Task::Build(BuildTask::new(id(3)))),
    ];
    let taken = get_task_list_for_creep(&c, &w, &mut pool).unwrap();
    assert_eq!(shape(&taken), vec![(TaskType::Build, Some(id(1)))]);
}

#[test]
fn matching_ranks_repairs_by_hit_points_left() {
    let w = World {
        objects: vec![
            object(1, at(11, 11), 500, store(0, 0)),
            object(2, at(40, 40), 20, store(0, 0)),
            object(3, at(12, 12), 300, store(0, 0)),
        ],
        ..empty_world()
    };
    let c = worker(100, at(10, 10), store(50, 50));
    let mut pool = vec![
        single_list(Task::Repair(RepairTask::new(id(1)))),
        single_list(Task::Repair(RepairTask::new(id(2)))),
        single_list(Task::Repair(RepairTask::new(id(3)))),
    ];
    let taken = get_task_list_for_creep(&c, &w, &mut pool).unwrap();
    assert_eq!(shape(&taken), vec![(TaskType::Repair, Some(id(2)))]);
}

#[test]
fn matching_compares_by_the_primary_task() {
    let w = World {
        objects: vec![
            object(1, at(11, 11), 0, store(500, 1000)),
            object(2, at(40, 40), 0, store(0, 50)),
            object(3, at(15, 15), 0, store(0, 50)),
        ],
        ..empty_world()
    };
    let c = worker(100, at(10, 10), store(0, 50));
    let mut pool = vec![
        pair_list(Task::Withdraw(WithdrawTask::new(id(1))), Task::Transfer(TransferTask::new(id(2)))),
        pair_list(Task::Withdraw(WithdrawTask::new(id(1))), Task::Transfer(TransferTask::new(id(3)))),
    ];
    let taken = get_task_list_for_creep(&c, &w, &mut pool).unwrap();
    assert_eq!(
        shape(&taken),
        vec![(TaskType::Withdraw, Some(id(1))), (TaskType::Transfer, Some(id(3)))]
    );
}

#[test]
fn matching_needs_energy_for_work_that_spends_it() {
    let w = World { objects: vec![object(1, at(11, 11), 0, store(0, 0))], ..empty_world() };
    let mut pool = vec![single_list(Task::Build(BuildTask::new(id(1))))];
    let empty = worker(100, at(10, 10), store(0, 50));
    assert!(get_task_list_for_creep(&empty, &w, &mut pool).is_none());
    assert_eq!(pool.len(), 1);
    let loaded = worker(100, at(10, 10), store(1, 50));
    assert!(get_task_list_for_creep(&loaded, &w, &mut pool).is_some());
    assert!(pool.is_empty());
    assert!(get_task_list_for_creep(&loaded, &w, &mut pool).is_none());
}

#[test]
fn matching_passes_over_chains_within_the_run_that_do_not_suit() {
    let w = World {
        objects: vec![
            object(1, at(30, 30), 0, store(0, 0)),
            object(2, at(11, 11), 0, store(0, 0)),
            object(3, at(20, 20), 0, store(0, 0)),
            object(4, at(12, 12), 100, store(0, 0)),
        ],
        ..empty_world()
    };
    // The second chain is nearest, but starts with an attack that a worker cannot make.
    let c = worker(100, at(10, 10), store(50, 50));
    let mut pool = vec![
        single_list(Task::Build(BuildTask::new(id(1)))),
        pair_list(Task::Attack(AttackTask::new(id(4))), Task::Build(BuildTask::new(id(2)))),
        single_list(Task::Build(BuildTask::new(id(3)))),
    ];
    let taken = get_task_list_for_creep(&c, &w, &mut pool).unwrap();
    assert_eq!(shape(&taken), vec![(TaskType::Build, Some(id(3)))]);
    assert_eq!(pool.len(), 2);
}

#[test]
fn matching_asks_for_energy_at_the_first_chain_only() {
    let w = World {
        objects: vec![
            object(1, at(30, 30), 0, store(500, 1000)),
            object(2, at(40, 40), 0, store(0, 50)),
            object(3, at(11, 11), 0, store(0, 50)),
        ],
        ..empty_world()
    };
    // Without energy the bare transfer cannot come first; behind the chain
    // that starts with a withdrawal it competes, and wins by being nearer.
    let c = worker(100, at(10, 10), store(0, 50));
    let mut pool = vec![
        pair_list(Task::Withdraw(WithdrawTask::new(id(1))), Task::Transfer(TransferTask::new(id(2)))),
        single_list(Task::Transfer(TransferTask::new(id(3)))),
    ];
    let taken = get_task_list_for_creep(&c, &w, &mut pool).unwrap();
    assert_eq!(shape(&taken), vec![(TaskType::Transfer, Some(id(3)))]);
    let mut alone = vec![single_list(Task::Transfer(TransferTask::new(id(3))))];
    assert!(get_task_list_for_creep(&c, &w, &mut alone).is_none());
}

#[test]
fn a_dedicated_harvester_takes_nothing_but_harvesting() {
    let w = World {
        objects: vec![object(1, at(11, 11), 0, store(0, 300)), object(2, at(12, 12), 0, store(0, 0))],
        ..empty_world()
    };
    let h = creep(
        100,
        "source_harvester-1-0",
        at(10, 10),
        vec![Part::Move, Part::Work, Part::Carry],
        store(50, 50),
    );
    let mut pool = vec![
        single_list(Task::Transfer(TransferTask::new(id(1)))),
        single_list(Task::Build(BuildTask::new(id(2)))),
    ];
    assert!(get_task_list_for_creep(&h, &w, &mut pool).is_none());
    assert_eq!(pool.len(), 2);
    pool.push(single_list(Task::HarvestSource(HarvestSourceTask::new(id(2)))));
    let taken = get_task_list_for_creep(&h, &w, &mut pool).unwrap();
    assert_eq!(shape(&taken), vec![(TaskType::HarvestSource, Some(id(2)))]);
    assert_eq!(pool.len(), 2);
}

#[test]
fn markers_ask_for_claims() {
    let mut w = small_colony(vec![]);
    let mut taken = controller(8, at_east(30, 30), false);
    taken.owned = true;
    w.rooms.push(RoomInfo::new(east(), vec![], vec![], vec![], vec![], vec![], vec![], Some(taken), 0));
    w.flags = vec![
        FlagInfo { name: "defend".to_string(), pos: at(5, 5) },
        FlagInfo { name: "claim:E3N1".to_string(), pos: at(1, 1) },
        FlagInfo { name: "claim:nowhere".to_string(), pos: at(1, 1) },
        FlagInfo { name: "claim:E2N1".to_string(), pos: at(1, 1) },
        FlagInfo { name: "claim".to_string(), pos: at(1, 1) },
        FlagInfo { name: "claim:a:W4S9".to_string(), pos: at(1, 1) },
        FlagInfo { name: "clai".to_string(), pos: at(1, 1) },
    ];
    let found = get_flag_task_lists(&w);
    assert_eq!(found.removals, vec![2, 3, 4]);
    assert_eq!(found.task_lists.len(), 2);
    match found.task_lists[0].current_task() {
        Some(Task::Claim(t)) => {
            assert_eq!(t.target, Position::new(25, 25, RoomName::new("E3N1").unwrap()).unwrap())
        },
        _ => unreachable!(),
    }
    match found.task_lists[1].current_task() {
        Some(Task::Claim(t)) => {
            assert_eq!(t.target, Position::new(25, 25, RoomName::new("W4S9").unwrap()).unwrap())
        },
        _ => unreachable!(),
    }
    assert!(claim_task_exists(&found.task_lists));
    assert!(!claim_task_exists(&vec![single_list(Task::Idle(IdleTask::new(1)))]));
    assert!(!claim_task_exists(&vec![]));
}

#[test]
fn a_reserved_room_is_not_claimed() {
    let mut w = empty_world();
    let mut reserved = controller(8, at_east(30, 30), false);
    reserved.reserved = true;
    w.rooms.push(RoomInfo::new(east(), vec![], vec![], vec![], vec![], vec![], vec![], Some(reserved), 0));
    w.flags = vec![FlagInfo { name: "claim:E2N1".to_string(), pos: at(1, 1) }];
    let found = get_flag_task_lists(&w);
    assert!(found.task_lists.is_empty());
    assert_eq!(found.removals, vec![0]);
    // A visible room with a free controller may be claimed.
    let mut free = empty_world();
    free.rooms.push(RoomInfo::new(
        east(),
        vec![],
        vec![],
        vec![],
        vec![],
        vec![],
        vec![],
        Some(controller(8, at_east(30, 30), false)),
        0,
    ));
    free.flags = vec![FlagInfo { name: "claim:E2N1".to_string(), pos: at(1, 1) }];
    let found = get_flag_task_lists(&free);
    assert_eq!(found.task_lists.len(), 1);
    assert!(found.removals.is_empty());
}

#[test]
fn a_worker_without_energy_falls_back_on_gathering() {
    let c = worker(100, at(12, 12), store(0, 50));
    let w = small_colony(vec![]);
    let list = get_default_task_list_for_creep(&c, &w, &nobody()).unwrap();
    assert_eq!(shape(&list), vec![(TaskType::HarvestSource, Some(id(1)))]);
    assert!(!list.repeat);
}

#[test]
fn a_worker_with_energy_falls_back_on_upgrading() {
    let c = worker(100, at(12, 12), store(10, 50));
    let w = small_colony(vec![]);
    let list = get_default_task_list_for_creep(&c, &w, &nobody()).unwrap();
    assert_eq!(shape(&list), vec![(TaskType::Upgrade, Some(id(7)))]);
}

#[test]
fn gathering_prefers_the_cheaper_node() {
    let mut w = small_colony(vec![]);
    w.rooms[0].sources = vec![
        open_node(1, at(10, 10), 3000),
        open_node(2, at(30, 30), 3000),
        open_node(3, at(14, 14), 0),
    ];
    let c = worker(100, at(12, 12), store(0, 50));
    // Untracked room: nothing is charged for distance, the first node wins.
    let list = get_harvest_source_task_list(&c, &w, &nobody(), true, false).unwrap();
    assert_eq!(shape(&list), vec![(TaskType::HarvestSource, Some(id(1)))]);
    // Tracked room: ten for every agent at work at the node plus the range.
    let busy = WorkingCreeps {
        by_room_and_type: vec![],
        by_room_and_pos: vec![at(10, 10), at(10, 10), at(10, 10)],
    };
    // Node 1 costs 3 * 10 + 2 = 32, node 2 costs 18.
    let list = get_harvest_source_task_list(&c, &w, &busy, true, false).unwrap();
    assert_eq!(shape(&list), vec![(TaskType::HarvestSource, Some(id(2)))]);
    // The empty node comes into question only where empty nodes are allowed.
    let near_empty = worker(100, at(14, 15), store(0, 50));
    let watched = WorkingCreeps { by_room_and_type: vec![], by_room_and_pos: vec![at(1, 1)] };
    let list = get_harvest_source_task_list(&near_empty, &w, &watched, false, false).unwrap();
    assert_eq!(shape(&list), vec![(TaskType::HarvestSource, Some(id(3)))]);
    let list = get_harvest_source_task_list(&near_empty, &w, &watched, true, false).unwrap();
    assert_eq!(shape(&list), vec![(TaskType::HarvestSource, Some(id(1)))]);
}

#[test]
fn gathering_avoids_crowded_and_taken_nodes() {
    let mut w = small_colony(vec![]);
    let mut crowded = open_node(1, at(10, 10), 3000);
    crowded.nearby = vec![
        LookEntry::Terrain(Terrain::Plain),
        LookEntry::Creep { id: id(200), name: "worker-1-1".to_string() },
    ];
    let mut taken = open_node(2, at(11, 11), 3000);
    taken.nearby = vec![
        LookEntry::Terrain(Terrain::Plain),
        LookEntry::Terrain(Terrain::Plain),
        LookEntry::Creep { id: id(201), name: "source_harvester-1-1".to_string() },
    ];
    w.rooms[0].sources = vec![taken, crowded, open_node(3, at(40, 10), 3000)];
    let c = worker(100, at(12, 12), store(0, 50));
    // Costs: taken 1000, crowded 20, free 0.
    let list = get_harvest_source_task_list(&c, &w, &nobody(), true, false).unwrap();
    assert_eq!(shape(&list), vec![(TaskType::HarvestSource, Some(id(3)))]);
    // The agent itself does not crowd a node.
    let mut own = open_node(1, at(10, 10), 3000);
    own.nearby = vec![
        LookEntry::Terrain(Terrain::Plain),
        LookEntry::Creep { id: id(100), name: "worker-1-0".to_string() },
    ];
    w.rooms[0].sources = vec![own];
    let list = get_harvest_source_task_list(&c, &w, &nobody(), true, false).unwrap();
    assert_eq!(shape(&list), vec![(TaskType::HarvestSource, Some(id(1)))]);
}

#[test]
fn a_dedicated_harvester_gets_its_standing_job() {
    let link = structure(20, StructureType::Link, at(12, 10), store(0, 800));
    let storage_link = structure(21, StructureType::Link, at(25, 27), store(0, 800));
    let storage = structure(22, StructureType::Storage, at(25, 25), store(0, 10000));
    let my_structures = vec![link, storage_link, storage];
    let room = RoomInfo::new(
        home(),
        vec![open_node(1, at(10, 10), 3000), open_node(2, at(30, 10), 3000)],
        my_structures.clone(),
        my_structures,
        vec![],
        vec![],
        vec![],
        Some(controller(7, at(40, 40), true)),
        300,
    );
    let w = World { rooms: vec![room], ..empty_world() };
    let h = creep(
        100,
        "source_harvester-1-0",
        at(30, 11),
        vec![Part::Move, Part::Work, Part::Carry],
        store(0, 50),
    );
    let list = get_default_task_list_for_creep(&h, &w, &nobody()).unwrap();
    assert_eq!(
        shape(&list),
        vec![
            (TaskType::HarvestSource, Some(id(1))),
            (TaskType::Transfer, Some(id(20))),
            (TaskType::IdleUntil, Some(id(1))),
        ]
    );
    assert!(list.repeat);
    assert_eq!(list.primary_task_idx, 1);
    // Without a link near any node there is nothing for it to do.
    let bare = small_colony(vec![]);
    assert!(get_default_task_list_for_creep(&h, &bare, &nobody()).is_none());
}

#[test]
fn dedicated_upgrader_and_storager_get_their_standing_jobs() {
    let controller_link = structure(21, StructureType::Link, at(39, 40), store(600, 800));
    let storage_link = structure(23, StructureType::Link, at(25, 27), store(400, 800));
    let storage = structure(22, StructureType::Storage, at(25, 25), store(0, 10000));
    let my_structures = vec![controller_link, storage_link, storage];
    let room = RoomInfo::new(
        home(),
        vec![],
        my_structures.clone(),
        my_structures,
        vec![],
        vec![],
        vec![],
        Some(controller(7, at(40, 40), true)),
        300,
    );
    let w = World { rooms: vec![room], ..empty_world() };
    let body = vec![Part::Move, Part::Work, Part::Carry];
    let upgrader = creep(100, "upgrader-1-0", at(30, 30), body.clone(), store(0, 50));
    let list = get_default_task_list_for_creep(&upgrader, &w, &nobody()).unwrap();
    assert_eq!(
        shape(&list),
        vec![
            (TaskType::Withdraw, Some(id(21))),
            (TaskType::Upgrade, Some(id(7))),
            (TaskType::IdleUntil, Some(id(21))),
        ]
    );
    assert!(list.repeat);
    let storager = creep(101, "storager-1-0", at(30, 30), body.clone(), store(0, 50));
    let list = get_default_task_list_for_creep(&storager, &w, &nobody()).unwrap();
    assert_eq!(
        shape(&list),
        vec![
            (TaskType::Withdraw, Some(id(23))),
            (TaskType::Transfer, Some(id(22))),
            (TaskType::IdleUntil, Some(id(23))),
        ]
    );
    // An upgrader without a link does nothing; a storager without one goes by its body.
    let bare = small_colony(vec![]);
    assert!(get_default_task_list_for_creep(&upgrader, &bare, &nobody()).is_none());
    let list = get_default_task_list_for_creep(&storager, &bare, &nobody()).unwrap();
    assert_eq!(shape(&list), vec![(TaskType::HarvestSource, Some(id(1)))]);
}

#[test]
fn combat_agents_gather_at_the_rally_point() {
    let mut w = small_colony(vec![]);
    let fighter = creep(100, "melee-1-0", at(10, 10), vec![Part::Move, Part::Attack], store(0, 0));
    // Without a rally point: towards the controller.
    let list = get_default_task_list_for_creep(&fighter, &w, &nobody()).unwrap();
    assert_eq!(shape(&list), vec![(TaskType::Travel, Some(id(7)))]);
    let arrived = creep(100, "melee-1-0", at(38, 37), vec![Part::Move, Part::Attack], store(0, 0));
    assert!(get_default_task_list_for_creep(&arrived, &w, &nobody()).is_none());
    w.flags = vec![FlagInfo { name: "defend".to_string(), pos: at(20, 20) }];
    let list = get_default_task_list_for_creep(&fighter, &w, &nobody()).unwrap();
    match list.current_task() {
        Some(Task::TravelDumb(t)) => assert_eq!(t.target, at(20, 20)),
        _ => unreachable!(),
    }
    let waiting = creep(100, "melee-1-0", at(23, 20), vec![Part::Move, Part::Attack], store(0, 0));
    assert!(get_default_task_list_for_creep(&waiting, &w, &nobody()).is_none());
}

#[test]
fn claimers_and_bodiless_agents_wait_at_home() {
    let w = small_colony(vec![]);
    let claimer = creep(100, "claimer-1-0", at(10, 10), vec![Part::Move, Part::Claim], store(0, 0));
    assert!(get_default_task_list_for_creep(&claimer, &w, &nobody()).is_none());
    let scout = creep(101, "scout-1-0", at(10, 10), vec![Part::Move], store(0, 0));
    assert!(get_default_task_list_for_creep(&scout, &w, &nobody()).is_none());
}

#[test]
fn agents_abroad_walk_home_to_the_nearest_room_of_the_colony() {
    let mut w = small_colony(vec![]);
    w.rooms.push(RoomInfo::new(
        east(),
        vec![open_node(5, at_east(10, 10), 3000)],
        vec![],
        vec![],
        vec![],
        vec![],
        vec![],
        Some(controller(8, at_east(30, 30), false)),
        0,
    ));
    let far = RoomName::new("E3N1").unwrap();
    w.rooms.push(RoomInfo::new(
        far,
        vec![],
        vec![],
        vec![],
        vec![],
        vec![],
        vec![],
        Some(controller(9, Position::new(5, 5, far).unwrap(), true)),
        0,
    ));
    let scout = creep(101, "scout-1-0", at_east(45, 10), vec![Part::Move], store(0, 0));
    let list = get_default_task_list_for_creep(&scout, &w, &nobody()).unwrap();
    assert_eq!(shape(&list), vec![(TaskType::Travel, Some(id(9)))]);
    let home_task = get_travel_home_task(&scout, &w).unwrap();
    assert_eq!(shape(&home_task), vec![(TaskType::Travel, Some(id(9)))]);
    // A worker in a foreign room cannot gather there and walks home as well.
    let abroad = worker(102, at_east(2, 40), store(0, 50));
    let list = get_default_task_list_for_creep(&abroad, &w, &nobody()).unwrap();
    assert_eq!(shape(&list), vec![(TaskType::Travel, Some(id(7)))]);
    assert!(get_travel_home_task(&abroad, &empty_world()).is_none());
}

#[test]
fn counts_are_made_anew_from_the_assignments() {
    let creeps = vec![
        worker(100, at(1, 1), store(0, 50)),
        creep(101, "attacker-1-0", at(1, 1), vec![Part::Move, Part::Attack], store(0, 0)),
        creep(102, "hauler-1-0", at(2, 2), vec![Part::Move, Part::Carry], store(0, 50)),
    ];
    let mut w = small_colony(creeps);
    w.objects.push(object(90, at_east(5, 5), 10, store(0, 0)));
    let tasks = vec![
        Assignment { creep: id(100), task_list: single_list(Task::Build(BuildTask::new(id(32)))) },
        Assignment { creep: id(101), task_list: single_list(Task::Attack(AttackTask::new(id(90)))) },
        Assignment { creep: id(102), task_list: single_list(Task::Travel(TravelTask::new(id(90)))) },
        Assignment { creep: id(103), task_list: single_list(Task::Build(BuildTask::new(id(32)))) },
        Assignment { creep: id(100), task_list: single_list(Task::Idle(IdleTask::new(3))) },
    ];
    let counts = WorkingCreeps::recalculate(&tasks, &w);
    assert_eq!(counts.count_at(at(22, 22)), 1);
    assert_eq!(counts.count_at(at_east(5, 5)), 1);
    assert_eq!(counts.count_at(at(1, 1)), 0);
    // The worker counts twice in its room: once for the build, once for idling.
    assert_eq!(counts.count_by_type(home(), "worker"), 2);
    assert_eq!(counts.count_by_type(east(), "hauler"), 1);
    assert_eq!(counts.count_by_type(home(), "hauler"), 0);
    assert_eq!(counts.count_by_type(east(), "attacker"), 0);
    assert!(counts.knows_room_by_pos(east()));
    assert!(counts.knows_room_by_type(home()));
    assert!(!counts.knows_room_by_pos(RoomName::new("E9N9").unwrap()));
}

#[test]
fn an_assignment_is_counted_at_once() {
    let c = worker(100, at(1, 1), store(0, 50));
    let mut counts = WorkingCreeps {
        by_room_and_type: vec![
            TypeSlot { room: home(), creep_type: "worker".to_string() },
            TypeSlot { room: east(), creep_type: "hauler".to_string() },
        ],
        by_room_and_pos: vec![at_east(9, 9)],
    };
    // A target in another room that is counted already: one more agent there.
    counts.note_assignment(&c, at_east(5, 5));
    assert_eq!(counts.count_at(at_east(5, 5)), 1);
    assert_eq!(counts.count_by_type(east(), "worker"), 1);
    assert_eq!(counts.count_by_type(home(), "worker"), 1);
    assert!(counts.is_pos_being_worked_on(east(), at_east(5, 5), 1));
    counts.note_assignment(&c, at_east(5, 5));
    assert_eq!(counts.count_at(at_east(5, 5)), 2);
    assert_eq!(counts.count_by_type(east(), "worker"), 2);
    assert_eq!(counts.count_by_type(home(), "worker"), 1);
    // A target in a room without any counted position is counted as well;
    // a target in the agent's own room adds nothing by archetype.
    counts.note_assignment(&c, at(5, 5));
    assert_eq!(counts.count_at(at(5, 5)), 1);
    assert!(counts.is_pos_being_worked_on(home(), at(5, 5), 1));
    assert_eq!(counts.count_by_type(home(), "worker"), 1);
    assert_eq!(counts.count_by_type(east(), "worker"), 2);
    // So is a target in a room where nothing was counted before.
    let far = Position::new(5, 5, RoomName::new("E9N9").unwrap()).unwrap();
    counts.note_assignment(&c, far);
    assert_eq!(counts.count_by_type(RoomName::new("E9N9").unwrap(), "worker"), 1);
    assert_eq!(counts.count_at(far), 1);
    let mut fresh = WorkingCreeps { by_room_and_type: vec![], by_room_and_pos: vec![] };
    fresh.note_assignment(&c, at(7, 7));
    assert!(fresh.is_pos_being_worked_on(home(), at(7, 7), 1));
}

#[test]
fn a_new_scheduler_counts_the_roster() {
    let w = small_colony(vec![
        worker(100, at(1, 1), store(0, 50)),
        worker(101, at(2, 2), store(0, 50)),
        creep(102, "attacker-1-0", at(1, 1), vec![Part::Attack], store(0, 0)),
    ]);
    let manager = TaskManager::new(&w);
    assert!(manager.tasks.is_empty());
    assert_eq!(manager.working_creeps.count_by_type(home(), "worker"), 2);
    assert_eq!(manager.working_creeps.count_by_type(home(), "attacker"), 1);
    assert!(manager.working_creeps.by_room_and_pos.is_empty());
    assert!(!manager.is_pos_being_worked_on(home(), at(1, 1), 1));
    assert_eq!(manager.get_idle_creeps(&w), vec![0, 1, 2]);
}

#[test]
fn an_idle_worker_gathers_then_delivers_to_the_station() {
    let mut w = small_colony(vec![worker(100, at(12, 12), store(0, 50))]);
    let mut manager = TaskManager::new(&w);
    manager.assign_tasks(&w);
    // The station wants energy, but the agent has none: it goes gathering.
    assert_eq!(current(&manager, 100), Some((TaskType::HarvestSource, Some(id(1)))));

    let step = manager.begin_task(&w.creeps[0], &w);
    assert!(matches!(step, Step::Perform(Action::MoveTo(p)) if p == at(10, 10)));
    let step = manager.resume_task(
        &w.creeps[0],
        &w,
        Action::MoveTo(at(10, 10)),
        Report { result: Ok(()), path: None },
    );
    assert!(matches!(step, Step::Continue));
    // Once the tick is settled the agent is counted at the node.
    manager.execute_tasks(&w, Outcomes { completed: vec![], cancelled: vec![], switched: vec![] });
    assert_eq!(manager.working_creeps.count_at(at(10, 10)), 1);
    assert_eq!(manager.working_creeps.count_by_type(home(), "worker"), 1);

    // The node filled the store: the agent switches to a transfer to the station.
    w.creeps[0] = worker(100, at(11, 11), store(50, 50));
    let step = manager.begin_task(&w.creeps[0], &w);
    let list = match step {
        Step::Switch(list) => list,
        _ => unreachable!(),
    };
    assert_eq!(shape(&list), vec![(TaskType::Transfer, Some(id(32)))]);
    manager.execute_tasks(
        &w,
        Outcomes {
            completed: vec![],
            cancelled: vec![],
            switched: vec![Assignment { creep: id(100), task_list: list }],
        },
    );
    assert_eq!(current(&manager, 100), Some((TaskType::Transfer, Some(id(32)))));
    assert_eq!(manager.working_creeps.count_at(at(22, 22)), 1);
    assert_eq!(manager.working_creeps.count_at(at(10, 10)), 0);
    assert_eq!(manager.tasks.len(), 1);
}

#[test]
fn a_fighter_attacks_the_first_hostile_until_it_is_dead() {
    let fighter = creep(100, "attacker-1-0", at(10, 10), vec![Part::Move, Part::Attack], store(0, 0));
    let mut w = small_colony(vec![fighter]);
    w.rooms[0].hostile_creeps =
        vec![object(70, at(12, 10), 100, store(0, 0)), object(71, at(10, 12), 100, store(0, 0))];
    w.objects.push(object(70, at(12, 10), 100, store(0, 0)));
    w.objects.push(object(71, at(10, 12), 100, store(0, 0)));
    let mut manager = TaskManager::new(&w);
    manager.assign_tasks(&w);
    assert_eq!(current(&manager, 100), Some((TaskType::Attack, Some(id(70)))));
    // The combat archetype does not count towards occupancy.
    manager.recalculate_working_creeps(&w);
    assert_eq!(manager.working_creeps.count_at(at(12, 10)), 0);
    assert_eq!(manager.working_creeps.count_by_type(home(), "attacker"), 0);

    let step = manager.begin_task(&w.creeps[0], &w);
    assert!(matches!(step, Step::Perform(Action::MoveTo(p)) if p == at(12, 10)));

    // The target has lost all hit points.
    let last = w.objects.len() - 2;
    w.objects[last] = object(70, at(12, 10), 0, store(0, 0));
    let step = manager.begin_task(&w.creeps[0], &w);
    assert!(matches!(step, Step::Complete));
    manager.execute_tasks(&w, Outcomes { completed: vec![id(100)], cancelled: vec![], switched: vec![] });
    assert!(manager.get_task_list(id(100)).is_none());
    assert!(manager.tasks.is_empty());
}

#[test]
fn two_fighters_may_converge_on_one_hostile() {
    let body = vec![Part::Move, Part::Attack];
    let mut w = small_colony(vec![
        creep(100, "melee-1-0", at(10, 10), body.clone(), store(0, 0)),
        creep(101, "melee-1-1", at(10, 11), body.clone(), store(0, 0)),
        creep(102, "melee-1-2", at(10, 12), body, store(0, 0)),
    ]);
    w.rooms[0].hostile_creeps = vec![object(70, at(12, 10), 100, store(0, 0))];
    w.objects.push(object(70, at(12, 10), 100, store(0, 0)));
    let mut manager = TaskManager::new(&w);
    manager.assign_tasks(&w);
    assert_eq!(current(&manager, 100), Some((TaskType::Attack, Some(id(70)))));
    assert_eq!(current(&manager, 101), Some((TaskType::Attack, Some(id(70)))));
    // The third finds no attack left and heads for the controller.
    assert_eq!(current(&manager, 102), Some((TaskType::Travel, Some(id(7)))));
}

#[test]
fn a_dedicated_harvester_leaves_transfers_to_others() {
    let h = creep(
        100,
        "source_harvester-1-0",
        at(12, 12),
        vec![Part::Move, Part::Work, Part::Carry],
        store(50, 50),
    );
    let w = small_colony(vec![h, worker(101, at(30, 30), store(50, 50))]);
    let mut manager = TaskManager::new(&w);
    manager.assign_tasks(&w);
    // No link stands beside the node: the harvester stays idle, though it
    // holds energy and the station wants some.
    assert!(manager.get_task_list(id(100)).is_none());
    assert_eq!(current(&manager, 101), Some((TaskType::Transfer, Some(id(32)))));
    for a in manager.tasks.iter() {
        let agent = w.creeps.iter().find(|c| c.id == a.creep).unwrap();
        let task = a.task_list.current_task().unwrap();
        assert!(task.requires_body_parts().iter().all(|p| agent.body.contains(p)));
    }
}

#[test]
fn no_agent_ever_has_two_assignments() {
    let mut w = small_colony(vec![
        worker(100, at(12, 12), store(0, 50)),
        worker(101, at(13, 13), store(50, 50)),
        worker(102, at(14, 14), store(50, 50)),
    ]);
    let mut manager = TaskManager::new(&w);
    for tick in 0..3 {
        w.time = tick;
        manager.clean_up_tasks(&w);
        manager.assign_tasks(&w);
        let mut seen: Vec<ObjectId> = manager.tasks.iter().map(|a| a.creep).collect();
        let before = seen.len();
        seen.dedup();
        seen.sort_by_key(|i| i.packed);
        seen.dedup();
        assert_eq!(seen.len(), before);
        assert_eq!(before, 3);
    }
    // Handing an agent another chain replaces the one it had.
    manager.set_task_list(&w.creeps[0], &w, single_list(Task::Idle(IdleTask::new(1))));
    assert_eq!(manager.tasks.len(), 3);
    assert_eq!(current(&manager, 100), Some((TaskType::Idle, None)));
    // A chain without a task is not taken up.
    manager.set_task_list(&w.creeps[0], &w, TaskList::new(vec![], false, 0));
    assert_eq!(current(&manager, 100), Some((TaskType::Idle, None)));
}

#[test]
fn a_pass_without_idle_agents_changes_nothing() {
    let w = small_colony(vec![
        worker(100, at(12, 12), store(0, 50)),
        worker(101, at(13, 13), store(50, 50)),
    ]);
    let mut manager = TaskManager::new(&w);
    manager.assign_tasks(&w);
    let tasks: Vec<(ObjectId, Vec<(TaskType, Option<ObjectId>)>, usize)> = manager
        .tasks
        .iter()
        .map(|a| (a.creep, shape(&a.task_list), a.task_list.current_task_idx))
        .collect();
    let by_pos = manager.working_creeps.by_room_and_pos.clone();
    let by_type: Vec<(RoomName, String)> = manager
        .working_creeps
        .by_room_and_type
        .iter()
        .map(|s| (s.room, s.creep_type.clone()))
        .collect();
    assert_eq!(tasks.len(), 2);
    assert!(manager.get_idle_creeps(&w).is_empty());

    let left = manager.assign_tasks(&w);
    assert!(left.task_lists.is_empty());
    let again: Vec<(ObjectId, Vec<(TaskType, Option<ObjectId>)>, usize)> = manager
        .tasks
        .iter()
        .map(|a| (a.creep, shape(&a.task_list), a.task_list.current_task_idx))
        .collect();
    assert_eq!(again, tasks);
    assert_eq!(manager.working_creeps.by_room_and_pos, by_pos);
    let by_type_again: Vec<(RoomName, String)> = manager
        .working_creeps
        .by_room_and_type
        .iter()
        .map(|s| (s.room, s.creep_type.clone()))
        .collect();
    assert_eq!(by_type_again, by_type);
}

#[test]
fn a_chain_leaves_exactly_after_its_last_task() {
    let w = small_colony(vec![worker(100, at(12, 12), store(0, 50))]);
    let mut manager = TaskManager::new(&w);
    manager.set_task_list(
        &w.creeps[0],
        &w,
        TaskList::new(
            vec![
                Task::Withdraw(WithdrawTask::new(id(32))),
                Task::Transfer(TransferTask::new(id(32))),
                Task::Upgrade(UpgradeTask::new(id(7))),
            ],
            false,
            1,
        ),
    );
    manager.advance(id(100));
    assert_eq!(current(&manager, 100), Some((TaskType::Transfer, Some(id(32)))));
    // A cancelled task moves the chain on just as a completed one does.
    manager.execute_tasks(&w, Outcomes { completed: vec![], cancelled: vec![id(100)], switched: vec![] });
    assert_eq!(current(&manager, 100), Some((TaskType::Upgrade, Some(id(7)))));
    manager.advance(id(100));
    assert!(manager.get_task_list(id(100)).is_none());
    // Nothing is left to move on.
    manager.advance(id(100));
    assert!(manager.tasks.is_empty());
}

#[test]
fn a_repeating_chain_never_leaves() {
    let w = small_colony(vec![worker(100, at(12, 12), store(0, 50))]);
    let mut manager = TaskManager::new(&w);
    manager.set_task_list(
        &w.creeps[0],
        &w,
        standing_list(
            Task::HarvestSource(HarvestSourceTask::new(id(1))),
            Task::Transfer(TransferTask::new(id(32))),
            Task::Idle(IdleTask::new(0)),
        ),
    );
    for _ in 0..7 {
        manager.advance(id(100));
        assert!(manager.get_task_list(id(100)).is_some());
    }
    assert_eq!(current(&manager, 100), Some((TaskType::Transfer, Some(id(32)))));
}

#[test]
fn outcomes_are_settled_in_order() {
    let w = small_colony(vec![
        worker(100, at(12, 12), store(50, 50)),
        worker(101, at(13, 13), store(50, 50)),
        worker(102, at(14, 14), store(50, 50)),
    ]);
    let mut manager = TaskManager::new(&w);
    for c in w.creeps.iter() {
        manager.set_task_list(c, &w, single_list(Task::Idle(IdleTask::new(9))));
    }
    assert_eq!(manager.tasks.len(), 3);
    manager.execute_tasks(
        &w,
        Outcomes {
            completed: vec![id(100)],
            cancelled: vec![id(101)],
            switched: vec![
                Assignment {
                    creep: id(102),
                    task_list: single_list(Task::Transfer(TransferTask::new(id(32)))),
                },
                Assignment {
                    creep: id(100),
                    task_list: single_list(Task::Build(BuildTask::new(id(1)))),
                },
                Assignment {
                    creep: id(999),
                    task_list: single_list(Task::Build(BuildTask::new(id(32)))),
                },
            ],
        },
    );
    assert_eq!(manager.tasks.len(), 2);
    assert_eq!(current(&manager, 102), Some((TaskType::Transfer, Some(id(32)))));
    assert_eq!(current(&manager, 100), Some((TaskType::Build, Some(id(1)))));
    assert!(manager.get_task_list(id(101)).is_none());
    assert!(manager.get_task_list(id(999)).is_none());
}

#[test]
fn a_staffed_target_is_not_offered_in_the_next_tick() {
    let mut w = small_colony(vec![
        worker(100, at(12, 12), store(50, 50)),
        worker(101, at(13, 13), store(50, 50)),
    ]);
    let ext = structure(30, StructureType::Extension, at(20, 20), store(0, 50));
    w.rooms[0].my_structures = vec![ext];
    w.objects.push(object(30, at(20, 20), 1000, store(0, 50)));
    let mut manager = TaskManager::new(&w);
    // First tick: only the first agent finds the extension on offer.
    manager.assign_tasks(&w);
    assert_eq!(current(&manager, 100), Some((TaskType::Transfer, Some(id(30)))));
    assert_eq!(current(&manager, 101), Some((TaskType::Upgrade, Some(id(7)))));
    manager.execute_tasks(&w, Outcomes { completed: vec![id(101)], cancelled: vec![], switched: vec![] });
    assert!(manager.is_pos_being_worked_on(home(), at(20, 20), 1));
    // Second tick: the extension is staffed and is not offered to the idle agent.
    manager.assign_tasks(&w);
    assert_eq!(current(&manager, 101), Some((TaskType::Upgrade, Some(id(7)))));
    manager.recalculate_working_creeps(&w);
    assert_eq!(manager.working_creeps.count_at(at(20, 20)), 1);
}

#[test]
fn dead_agents_lose_their_assignment() {
    let mut w = small_colony(vec![
        worker(100, at(12, 12), store(50, 50)),
        worker(101, at(13, 13), store(50, 50)),
        worker(102, at(14, 14), store(50, 50)),
    ]);
    let mut manager = TaskManager::new(&w);
    for c in w.creeps.iter() {
        manager.set_task_list(c, &w, single_list(Task::Idle(IdleTask::new(9))));
    }
    w.creeps.remove(1);
    manager.clean_up_tasks(&w);
    let left: Vec<ObjectId> = manager.tasks.iter().map(|a| a.creep).collect();
    assert_eq!(left, vec![id(100), id(102)]);
    assert_eq!(manager.find_assignment(id(102)), Some(1));
    assert_eq!(manager.find_assignment(id(101)), None);
}

#[test]
fn an_agent_without_assignment_steps_nowhere() {
    let w = small_colony(vec![worker(100, at(12, 12), store(50, 50))]);
    let mut manager = TaskManager::new(&w);
    assert!(matches!(manager.begin_task(&w.creeps[0], &w), Step::Continue));
    let step = manager.resume_task(
        &w.creeps[0],
        &w,
        Action::MoveTo(at(1, 1)),
        Report { result: Err(ErrorCode::NoPath), path: None },
    );
    assert!(matches!(step, Step::Continue));
    assert!(manager.tasks.is_empty());
}

#[test]
fn refused_moves_are_remembered_by_the_assigned_task() {
    let w = small_colony(vec![worker(100, at(30, 30), store(0, 50))]);
    let mut manager = TaskManager::new(&w);
    manager.assign_tasks(&w);
    for expected in [Step::Continue, Step::Continue, Step::Cancel] {
        let step = manager.begin_task(&w.creeps[0], &w);
        assert!(matches!(step, Step::Perform(Action::MoveTo(_))));
        let step = manager.resume_task(
            &w.creeps[0],
            &w,
            Action::MoveTo(at(10, 10)),
            Report { result: Err(ErrorCode::NoPath), path: None },
        );
        assert_eq!(
            std::mem::discriminant(&step),
            std::mem::discriminant(&expected)
        );
    }
    match manager.get_task_list(id(100)).unwrap().current_task() {
        Some(Task::HarvestSource(t)) => assert_eq!(t.move_failure_count, 3),
        _ => unreachable!(),
    }
}

#[test]
fn agents_look_for_work_in_other_rooms_once() {
    let spawn_east = structure(52, StructureType::Extension, at_east(22, 22), store(0, 50));
    let mut w = small_colony(vec![
        creep(100, "hauler-1-0", at(12, 12), vec![Part::Move, Part::Work, Part::Carry], store(50, 50)),
        creep(101, "hauler-1-1", at(13, 13), vec![Part::Move, Part::Work, Part::Carry], store(50, 50)),
    ]);
    // Nothing to do at home: the station is full and no node has energy.
    w.rooms[0].my_structures[0].store = store(300, 300);
    w.rooms[0].sources[0].energy = 0;
    w.rooms[0].controller = None;
    w.rooms.push(RoomInfo::new(
        east(),
        vec![],
        vec![spawn_east],
        vec![spawn_east, structure(53, StructureType::Extension, at_east(23, 22), store(0, 50))],
        vec![],
        vec![],
        vec![],
        Some(controller(8, at_east(40, 40), true)),
        300,
    ));
    w.objects.push(object(52, at_east(22, 22), 1000, store(0, 50)));
    w.objects.push(object(53, at_east(23, 22), 1000, store(0, 50)));
    let mut manager = TaskManager { tasks: vec![], working_creeps: WorkingCreeps::recalculate(&vec![], &w), room_links: std::collections::HashMap::new() };
    manager.working_creeps.by_room_and_type.push(TypeSlot { room: east(), creep_type: "x".to_string() });
    manager.assign_tasks(&w);
    // The first hauler goes east; the second finds its archetype at work there already.
    assert_eq!(current(&manager, 100), Some((TaskType::Transfer, Some(id(52)))));
    assert_eq!(current(&manager, 101), None);
}

#[test]
fn markers_come_before_rooms() {
    let claimer = creep(
        100,
        "claimer-1-0",
        at(12, 12),
        vec![Part::Move, Part::Claim, Part::Carry],
        store(10, 50),
    );
    let mut w = small_colony(vec![claimer, worker(101, at(13, 13), store(10, 50))]);
    w.flags = vec![
        FlagInfo { name: "claim:E5N5".to_string(), pos: at(1, 1) },
        FlagInfo { name: "claim:E6N6".to_string(), pos: at(1, 1) },
        FlagInfo { name: "claim:bad".to_string(), pos: at(1, 1) },
    ];
    let mut manager = TaskManager::new(&w);
    let left = manager.assign_tasks(&w);
    assert_eq!(current(&manager, 100), Some((TaskType::Claim, None)));
    assert_eq!(current(&manager, 101), Some((TaskType::Transfer, Some(id(32)))));
    assert_eq!(left.task_lists.len(), 1);
    assert_eq!(left.removals, vec![2]);
    match left.task_lists[0].current_task() {
        Some(Task::Claim(ClaimTask { target, .. })) => {
            assert_eq!(target.room_name(), RoomName::new("E6N6").unwrap())
        },
        _ => unreachable!(),
    }
}

#[test]
fn links_send_energy_to_storage_before_the_controller() {
    let mut cooling = structure(25, StructureType::Link, at(10, 12), store(800, 800));
    cooling.cooldown = 3;
    let my_structures = vec![
        structure(20, StructureType::Link, at(12, 10), store(800, 800)),
        structure(24, StructureType::Link, at(30, 12), store(0, 800)),
        cooling,
        structure(21, StructureType::Link, at(39, 40), store(0, 800)),
        structure(22, StructureType::Storage, at(25, 25), store(0, 10000)),
        structure(23, StructureType::Link, at(25, 27), store(700, 800)),
        structure(26, StructureType::Link, at(25, 23), store(750, 800)),
    ];
    let room = RoomInfo::new(
        home(),
        vec![open_node(1, at(10, 10), 3000), open_node(2, at(30, 10), 3000)],
        my_structures.clone(),
        my_structures,
        vec![],
        vec![],
        vec![],
        Some(controller(7, at(40, 40), true)),
        300,
    );
    let w = World { rooms: vec![room], ..empty_world() };
    let mut manager = TaskManager::new(&w);
    assert!(manager.execute_links(&w).is_empty());
    manager.classify_links(&w);
    assert_eq!(manager.room_links.len(), 1);
    assert_eq!(manager.room_links[&home().packed].source_links.len(), 3);
    // Link 26 has exactly 50 room, not more: link 23 takes the energy.
    assert_eq!(manager.execute_links(&w), vec![LinkTransfer { from: id(20), to: id(23) }]);

    // With the storage links full the controller link takes over.
    let mut w2 = w.clone();
    w2.rooms[0].my_structures[5].store = store(800, 800);
    w2.rooms[0].my_structures[6].store = store(800, 800);
    manager.classify_links(&w2);
    assert_eq!(manager.execute_links(&w2), vec![LinkTransfer { from: id(20), to: id(21) }]);
    // A room that is gone keeps no sorted links.
    manager.classify_links(&empty_world());
    assert!(manager.room_links.is_empty());
    assert!(manager.execute_links(&w2).is_empty());
}

#[test]
fn no_second_agent_is_drawn_to_a_staffed_station() {
    let w = small_colony(vec![
        worker(100, at(12, 12), store(50, 50)),
        worker(101, at(13, 13), store(50, 50)),
        worker(102, at(14, 14), store(50, 50)),
    ]);
    let mut manager = TaskManager::new(&w);
    // One agent is on a transfer into the spawn already.
    manager.set_task_list(&w.creeps[0], &w, single_list(Task::Transfer(TransferTask::new(id(32)))));
    assert_eq!(current(&manager, 100), Some((TaskType::Transfer, Some(id(32)))));
    // A pass does not hand the same station to a second one, though the
    // chain would suit it.
    assert!(get_task_list_for_creep(
        &w.creeps[1],
        &w,
        &mut vec![single_list(Task::Transfer(TransferTask::new(id(32))))],
    )
    .is_some());
    assert!(get_task_list_with_room(
        &w.creeps[1],
        &w,
        &manager.tasks,
        &mut vec![single_list(Task::Transfer(TransferTask::new(id(32))))],
    )
    .is_none());
    manager.assign_tasks(&w);
    assert_eq!(current(&manager, 101), Some((TaskType::Upgrade, Some(id(7)))));
    // The controller is staffed now as well: the third agent waits.
    assert!(manager.get_task_list(id(102)).is_none());
    for a in manager.tasks.iter() {
        let aim = a.task_list.current_task().unwrap().get_target_pos(&w);
        let crowd = manager
            .tasks
            .iter()
            .filter(|b| b.task_list.current_task().unwrap().get_target_pos(&w) == aim)
            .count();
        assert_eq!(crowd, 1);
    }
}

#[test]
fn an_agent_is_handed_nothing_it_lacks_a_capability_for() {
    // An agent that can attack but not move stands far from the rally point.
    let stuck = creep(100, "melee-1-0", at(10, 10), vec![Part::Attack], store(0, 0));
    let mut w = small_colony(vec![stuck]);
    w.flags = vec![FlagInfo { name: "defend".to_string(), pos: at(30, 30) }];
    assert!(get_default_task_list_for_creep(&w.creeps[0], &w, &nobody()).is_none());
    let mut manager = TaskManager::new(&w);
    manager.assign_tasks(&w);
    assert!(manager.tasks.is_empty());
    // Nor does a pass hand it a walk.
    assert!(get_task_list_with_room(
        &w.creeps[0],
        &w,
        &manager.tasks,
        &mut vec![single_list(Task::Travel(TravelTask::new(id(7))))],
    )
    .is_none());
    // With legs it walks.
    let walker = creep(100, "melee-1-0", at(10, 10), vec![Part::Attack, Part::Move], store(0, 0));
    assert!(get_default_task_list_for_creep(&walker, &w, &nobody()).is_some());
}

#[test]
fn a_chain_handed_over_outright_replaces_what_the_agent_worked_on() {
    let w = small_colony(vec![
        worker(100, at(12, 12), store(50, 50)),
        worker(101, at(13, 13), store(50, 50)),
    ]);
    let mut manager = TaskManager::new(&w);
    manager.set_task_list(&w.creeps[0], &w, single_list(Task::Upgrade(UpgradeTask::new(id(7)))));
    manager.set_task_list(&w.creeps[0], &w, single_list(Task::Transfer(TransferTask::new(id(32)))));
    assert_eq!(manager.tasks.len(), 1);
    assert_eq!(current(&manager, 100), Some((TaskType::Transfer, Some(id(32)))));
    // Handing over does not ask who is at the station already.
    manager.set_task_list(&w.creeps[1], &w, single_list(Task::Transfer(TransferTask::new(id(32)))));
    assert_eq!(current(&manager, 101), Some((TaskType::Transfer, Some(id(32)))));
    assert_eq!(manager.tasks.len(), 2);
}
