use colony_core::game::{CreepInfo, ErrorCode, GameObject, ObjectId, Part, Store, StructureType};
use colony_core::metadata::{
    ControllerInfo, LinkTypeMap, RoomInfo, SourceLink, StructureInfo, World,
};
use colony_core::pathing::{MovesAlongCachedPath, Stuckable};
use colony_core::position::{Position, RoomName};
use colony_core::tasks::{
    can_creep_handle_task, Action, AttackTask, BuildTask, ClaimTask, HarvestSourceTask,
    HarvestTask, HealTask, IdleTask, IdleUntilTask, RepairTask, Report, Step, Task, TaskList,
    TaskType, TransferTask, TravelDumbTask, TravelTask, UpgradeTask, WithdrawTask,
};

fn room_name() -> RoomName {
    RoomName::new("E1N1").unwrap()
}

fn at(x: u8, y: u8) -> Position {
    Position::new(x, y, room_name()).unwrap()
}

fn id(n: u128) -> ObjectId {
    ObjectId { packed: n }
}

fn store(used: u32, capacity: u32) -> Store {
    Store { used, free: (capacity - used) as i32, capacity }
}

fn creep(name: &str, pos: Position, body: Vec<Part>, held: Store) -> CreepInfo {
    CreepInfo { id: id(1), name: name.to_string(), pos, body, store: held, ticks_to_live: Some(1000) }
}

fn worker(pos: Position, held: Store) -> CreepInfo {
    creep("worker-1-0", pos, vec![Part::Move, Part::Work, Part::Carry], held)
}

fn object(n: u128, pos: Position, hits: u32, hits_max: u32, held: Store) -> GameObject {
    GameObject { id: id(n), pos, hits, hits_max, store: held }
}

fn world_with(objects: Vec<GameObject>) -> World {
    World { time: 0, spawns: vec![], creeps: vec![], objects, rooms: vec![], flags: vec![] }
}

fn structure(n: u128, kind: StructureType, pos: Position, held: Store) -> StructureInfo {
    StructureInfo {
        id: id(n),
        structure_type: kind,
        pos,
        hits: 100,
        hits_max: 100,
        active: true,
        store: held,
        cooldown: 0,
    }
}

fn controller(n: u128, pos: Position, my: bool) -> ControllerInfo {
    ControllerInfo {
        id: id(n),
        pos,
        my,
        owned: my,
        reserved: false,
        active: true,
        level: 3,
        ticks_to_downgrade: 20000,
    }
}

fn bare_room(my_structures: Vec<StructureInfo>, ctrl: Option<ControllerInfo>) -> RoomInfo {
    RoomInfo::new(room_name(), vec![], my_structures.clone(), my_structures, vec![], vec![], vec![], ctrl, 300)
}

fn ok() -> Report {
    Report { result: Ok(()), path: None }
}

fn refused(code: ErrorCode) -> Report {
    Report { result: Err(code), path: None }
}

fn is_perform(step: &Step, action: Action) -> bool {
    matches!(step, Step::Perform(a) if *a == action)
}

fn switch_target(step: &Step) -> Option<ObjectId> {
    match step {
        Step::Switch(list) => match list.current_task() {
            Some(Task::Transfer(t)) => Some(t.target),
            _ => None,
        },
        _ => None,
    }
}

#[test]
fn attack_cancels_when_the_target_is_gone() {
    let task = AttackTask::new(id(9));
    let step = task.execute(&worker(at(1, 1), store(0, 50)), &world_with(vec![]));
    assert!(matches!(step, Step::Cancel));
}

#[test]
fn attack_completes_when_the_target_has_no_hit_points() {
    let task = AttackTask::new(id(9));
    let w = world_with(vec![object(9, at(2, 2), 0, 100, store(0, 0))]);
    assert!(matches!(task.execute(&worker(at(1, 1), store(0, 50)), &w), Step::Complete));
}

#[test]
fn attack_strikes_from_beside_and_walks_otherwise() {
    let task = AttackTask::new(id(9));
    let w = world_with(vec![object(9, at(2, 2), 10, 100, store(0, 0))]);
    let near = task.execute(&worker(at(1, 1), store(0, 50)), &w);
    assert!(is_perform(&near, Action::Attack(id(9))));
    let far = task.execute(&worker(at(10, 10), store(0, 50)), &w);
    assert!(is_perform(&far, Action::MoveTo(at(2, 2))));
}

#[test]
fn attack_cancels_on_a_strike_refused_for_good() {
    let mut task = AttackTask::new(id(9));
    let w = world_with(vec![object(9, at(2, 2), 10, 100, store(0, 0))]);
    let strike = Action::Attack(id(9));
    assert!(matches!(task.resume(&w, strike, &refused(ErrorCode::NoBodypart)), Step::Cancel));
    assert!(matches!(task.resume(&w, strike, &ok()), Step::Continue));
    // Busy and tired mend themselves.
    assert!(matches!(task.resume(&w, strike, &refused(ErrorCode::Busy)), Step::Continue));
    assert!(matches!(task.resume(&w, strike, &refused(ErrorCode::Tired)), Step::Continue));
    // Out of range never cancels while the target is there.
    let step = task.resume(&w, strike, &refused(ErrorCode::NotInRange));
    assert!(is_perform(&step, Action::MoveTo(at(2, 2))));
    let step = task.resume(&world_with(vec![]), strike, &refused(ErrorCode::NotInRange));
    assert!(matches!(step, Step::Cancel));
    assert_eq!(task.move_failure_count, 0);
}

#[test]
fn every_task_gives_up_after_three_moves_refused_for_good() {
    let w = world_with(vec![object(9, at(2, 2), 10, 100, store(0, 0))]);
    let c = worker(at(9, 9), store(10, 50));
    let go = Action::MoveTo(at(2, 2));
    let tasks = vec![
        Task::Attack(AttackTask::new(id(9))),
        Task::Build(BuildTask::new(id(9))),
        Task::Claim(ClaimTask::new(at(2, 2))),
        Task::Harvest(HarvestTask::new(id(9))),
        Task::HarvestSource(HarvestSourceTask::new(id(9))),
        Task::Heal(HealTask::new(id(9))),
        Task::Repair(RepairTask::new(id(9))),
        Task::Transfer(TransferTask::new(id(9))),
        Task::Travel(TravelTask::new(id(9))),
        Task::Upgrade(UpgradeTask::new(id(9))),
        Task::Withdraw(WithdrawTask::new(id(9))),
    ];
    for mut task in tasks {
        assert!(matches!(task.resume(&c, &w, go, refused(ErrorCode::NoPath)), Step::Continue));
        assert!(matches!(task.resume(&c, &w, go, refused(ErrorCode::NoPath)), Step::Continue));
        // A tired agent is no failure, and what went wrong before is forgotten.
        assert!(matches!(task.resume(&c, &w, go, refused(ErrorCode::Tired)), Step::Continue));
        assert!(matches!(task.resume(&c, &w, go, refused(ErrorCode::NoPath)), Step::Continue));
        assert!(matches!(task.resume(&c, &w, go, refused(ErrorCode::InvalidTarget)), Step::Continue));
        assert!(matches!(task.resume(&c, &w, go, refused(ErrorCode::NoPath)), Step::Cancel));
        assert!(matches!(task.resume(&c, &w, go, ok()), Step::Continue));
        assert!(matches!(task.resume(&c, &w, go, refused(ErrorCode::NoPath)), Step::Continue));
    }
}

#[test]
fn every_task_gives_up_when_its_agent_is_about_to_die() {
    let w = world_with(vec![object(9, at(2, 2), 10, 100, store(500, 1000))]);
    let mut dying = worker(at(9, 9), store(10, 50));
    dying.ticks_to_live = Some(3);
    let mut alive = worker(at(9, 9), store(10, 50));
    alive.ticks_to_live = Some(4);
    let abroad = Position::new(25, 25, RoomName::new("E2N1").unwrap()).unwrap();
    let tasks = vec![
        Task::Attack(AttackTask::new(id(9))),
        Task::Build(BuildTask::new(id(9))),
        Task::Claim(ClaimTask::new(abroad)),
        Task::Harvest(HarvestTask::new(id(9))),
        Task::HarvestSource(HarvestSourceTask::new(id(9))),
        Task::Heal(HealTask::new(id(9))),
        Task::Idle(IdleTask::new(5)),
        Task::IdleUntil(IdleUntilTask::new(id(9))),
        Task::Repair(RepairTask::new(id(9))),
        Task::Transfer(TransferTask::new(id(9))),
        Task::Travel(TravelTask::new(id(9))),
        Task::TravelDumb(TravelDumbTask::new(at(2, 2))),
        Task::Upgrade(UpgradeTask::new(id(9))),
        Task::Withdraw(WithdrawTask::new(id(9))),
    ];
    for mut task in tasks {
        assert!(!matches!(task.execute(&alive, &w), Step::Cancel));
        assert!(matches!(task.execute(&dying, &w), Step::Cancel));
    }
    // A dying agent does not even count down its wait.
    let mut wait = Task::Idle(IdleTask::new(5));
    wait.execute(&dying, &w);
    match wait {
        Task::Idle(t) => assert_eq!(t.duration, 5),
        _ => unreachable!(),
    }
}

#[test]
fn build_completes_without_energy() {
    let task = BuildTask::new(id(9));
    let w = world_with(vec![object(9, at(2, 2), 0, 0, store(0, 0))]);
    assert!(matches!(task.execute(&worker(at(1, 1), store(0, 50)), &w), Step::Complete));
}

#[test]
fn build_moves_when_out_of_range_and_cancels_on_other_refusals() {
    let mut task = BuildTask::new(id(9));
    let w = world_with(vec![object(9, at(20, 20), 0, 0, store(0, 0))]);
    let c = worker(at(1, 1), store(50, 50));
    assert!(is_perform(&task.execute(&c, &w), Action::Build(id(9))));
    let step = task.resume(&w, Action::Build(id(9)), &refused(ErrorCode::NotInRange));
    assert!(is_perform(&step, Action::MoveTo(at(20, 20))));
    let step = task.resume(&w, Action::Build(id(9)), &refused(ErrorCode::InvalidTarget));
    assert!(matches!(step, Step::Cancel));
    assert!(matches!(task.resume(&w, Action::Build(id(9)), &ok()), Step::Continue));
    assert!(matches!(task.execute(&c, &world_with(vec![])), Step::Cancel));
}

#[test]
fn upgrade_moves_when_out_of_range_and_cancels_on_other_refusals() {
    let mut task = UpgradeTask::new(id(9));
    let w = world_with(vec![object(9, at(20, 20), 0, 0, store(0, 0))]);
    let c = worker(at(1, 1), store(50, 50));
    assert!(is_perform(&task.execute(&c, &w), Action::Upgrade(id(9))));
    let step = task.resume(&w, Action::Upgrade(id(9)), &refused(ErrorCode::NotInRange));
    assert!(is_perform(&step, Action::MoveTo(at(20, 20))));
    let step = task.resume(&w, Action::Upgrade(id(9)), &refused(ErrorCode::NotOwner));
    assert!(matches!(step, Step::Cancel));
    assert!(matches!(task.execute(&worker(at(1, 1), store(0, 50)), &w), Step::Complete));
    assert!(matches!(task.execute(&c, &world_with(vec![])), Step::Cancel));
}

#[test]
fn claim_walks_to_the_room_and_claims_from_beside() {
    let other = Position::new(25, 25, RoomName::new("E2N1").unwrap()).unwrap();
    let mut task = ClaimTask::new(other);
    let mut w = world_with(vec![]);
    w.rooms.push(RoomInfo::new(
        RoomName::new("E2N1").unwrap(),
        vec![],
        vec![],
        vec![],
        vec![],
        vec![],
        vec![],
        Some(ControllerInfo {
            id: id(7),
            pos: Position::new(30, 30, RoomName::new("E2N1").unwrap()).unwrap(),
            my: false,
            owned: false,
            reserved: false,
            active: true,
            level: 0,
            ticks_to_downgrade: 0,
        }),
        0,
    ));
    let outside = creep("claimer-1-0", at(1, 1), vec![Part::Move, Part::Claim], store(0, 0));
    assert!(is_perform(&task.execute(&outside, &w), Action::MoveTo(other)));
    let e2 = RoomName::new("E2N1").unwrap();
    let inside = creep(
        "claimer-1-0",
        Position::new(5, 5, e2).unwrap(),
        vec![Part::Move, Part::Claim],
        store(0, 0),
    );
    assert!(is_perform(
        &task.execute(&inside, &w),
        Action::MoveTo(Position::new(30, 30, e2).unwrap())
    ));
    let beside = creep(
        "claimer-1-0",
        Position::new(29, 30, e2).unwrap(),
        vec![Part::Move, Part::Claim],
        store(0, 0),
    );
    assert!(is_perform(&task.execute(&beside, &w), Action::Claim(id(7))));
    assert!(matches!(task.resume(&w, Action::Claim(id(7)), &ok()), Step::Continue));
    assert!(matches!(task.resume(&w, Action::Claim(id(7)), &refused(ErrorCode::GclNotEnough)), Step::Cancel));
    let step = task.resume(&w, Action::Claim(id(7)), &refused(ErrorCode::NotInRange));
    assert!(is_perform(&step, Action::MoveTo(Position::new(30, 30, e2).unwrap())));
}

#[test]
fn claim_completes_once_the_controller_is_ours() {
    let e2 = RoomName::new("E2N1").unwrap();
    let task = ClaimTask::new(Position::new(25, 25, e2).unwrap());
    let mut w = world_with(vec![]);
    let mut ctrl = controller(7, Position::new(30, 30, e2).unwrap(), true);
    ctrl.level = 1;
    w.rooms.push(RoomInfo::new(e2, vec![], vec![], vec![], vec![], vec![], vec![], Some(ctrl), 0));
    let inside = creep(
        "claimer-1-0",
        Position::new(5, 5, e2).unwrap(),
        vec![Part::Move, Part::Claim],
        store(0, 0),
    );
    assert!(matches!(task.execute(&inside, &w), Step::Complete));
    // A room that cannot be seen, or has no controller, cancels.
    assert!(matches!(task.execute(&inside, &world_with(vec![])), Step::Cancel));
}

#[test]
fn harvest_cancels_three_ticks_from_the_end_of_life() {
    let mut task = Task::HarvestSource(HarvestSourceTask::new(id(9)));
    let w = world_with(vec![object(9, at(2, 2), 0, 0, store(3000, 3000))]);
    let mut c = worker(at(1, 1), store(0, 50));
    c.ticks_to_live = Some(3);
    assert!(matches!(task.execute(&c, &w), Step::Cancel));
    c.ticks_to_live = Some(0);
    assert!(matches!(task.execute(&c, &w), Step::Cancel));
    c.ticks_to_live = Some(4);
    assert!(is_perform(&task.execute(&c, &w), Action::Harvest(id(9))));
    c.ticks_to_live = None;
    assert!(is_perform(&task.execute(&c, &w), Action::Harvest(id(9))));
}

#[test]
fn harvest_source_completes_when_nearly_full() {
    let task = HarvestSourceTask::new(id(9));
    let w = world_with(vec![object(9, at(2, 2), 0, 0, store(3000, 3000))]);
    assert!(matches!(task.execute(&worker(at(1, 1), store(50, 50)), &w), Step::Complete));
    assert!(matches!(task.execute(&worker(at(1, 1), store(41, 50)), &w), Step::Complete));
    assert!(is_perform(
        &task.execute(&worker(at(1, 1), store(40, 50)), &w),
        Action::Harvest(id(9))
    ));
    assert!(is_perform(
        &task.execute(&worker(at(9, 1), store(40, 50)), &w),
        Action::MoveTo(at(2, 2))
    ));
    assert!(matches!(task.execute(&worker(at(1, 1), store(0, 50)), &world_with(vec![])), Step::Cancel));
    // A full agent is done with the node, gone or not.
    assert!(matches!(task.execute(&worker(at(1, 1), store(50, 50)), &world_with(vec![])), Step::Complete));
}

#[test]
fn harvest_source_gives_up_after_three_refused_moves_in_a_row() {
    let mut task = HarvestSourceTask::new(id(9));
    let w = world_with(vec![object(9, at(2, 2), 0, 0, store(3000, 3000))]);
    let go = Action::MoveTo(at(2, 2));
    assert!(matches!(task.resume(&w, go, &refused(ErrorCode::NoPath)), Step::Continue));
    assert_eq!(task.move_failure_count, 1);
    assert!(matches!(task.resume(&w, go, &refused(ErrorCode::NoPath)), Step::Continue));
    assert_eq!(task.move_failure_count, 2);
    assert!(matches!(task.resume(&w, go, &refused(ErrorCode::NoPath)), Step::Cancel));
    assert_eq!(task.move_failure_count, 3);
}

#[test]
fn harvest_source_forgets_refused_moves_after_a_good_or_tired_one() {
    let mut task = HarvestSourceTask::new(id(9));
    let w = world_with(vec![object(9, at(2, 2), 0, 0, store(3000, 3000))]);
    let go = Action::MoveTo(at(2, 2));
    task.resume(&w, go, &refused(ErrorCode::NoPath));
    task.resume(&w, go, &refused(ErrorCode::NoPath));
    assert!(matches!(task.resume(&w, go, &refused(ErrorCode::Tired)), Step::Continue));
    assert_eq!(task.move_failure_count, 0);
    task.resume(&w, go, &refused(ErrorCode::NoPath));
    assert!(matches!(task.resume(&w, go, &ok()), Step::Continue));
    assert_eq!(task.move_failure_count, 0);
    let dig = Action::Harvest(id(9));
    assert!(matches!(task.resume(&w, dig, &refused(ErrorCode::NotEnough)), Step::Cancel));
    // What the harvest answers does not touch the count of refused moves.
    task.resume(&w, go, &refused(ErrorCode::NoPath));
    task.resume(&w, dig, &ok());
    assert_eq!(task.move_failure_count, 1);
}

#[test]
fn harvest_switches_to_the_nearest_source_link_when_full() {
    let mut task = HarvestTask::new(id(9));
    let mut w = world_with(vec![object(9, at(2, 2), 0, 0, store(3000, 3000))]);
    let mut r = bare_room(vec![], Some(controller(7, at(40, 40), true)));
    r.links = LinkTypeMap {
        source_links: vec![
            SourceLink(
                structure(20, StructureType::Link, at(9, 9), store(0, 800)),
                object(9, at(2, 2), 0, 0, store(0, 0)),
            ),
            SourceLink(
                structure(21, StructureType::Link, at(3, 3), store(0, 800)),
                object(9, at(2, 2), 0, 0, store(0, 0)),
            ),
        ],
        storage_links: vec![],
        controller_links: vec![],
        unknown_links: vec![],
    };
    w.rooms.push(r);
    let full = worker(at(1, 1), store(50, 50));
    assert_eq!(switch_target(&task.execute(&full, &w)), Some(id(21)));
    let hungry = worker(at(1, 1), store(0, 50));
    assert!(is_perform(&task.execute(&hungry, &w), Action::Harvest(id(9))));
    // Without a link the full agent is done.
    let bare = world_with(vec![object(9, at(2, 2), 0, 0, store(3000, 3000))]);
    assert!(matches!(task.execute(&full, &bare), Step::Complete));
    // A node that is gone cancels, unless the agent is full and done with it.
    assert!(matches!(task.execute(&hungry, &world_with(vec![])), Step::Cancel));
    assert!(matches!(task.execute(&full, &world_with(vec![])), Step::Complete));
    let dig = Action::Harvest(id(9));
    assert!(matches!(task.resume(&w, dig, &refused(ErrorCode::NotEnough)), Step::Cancel));
    assert!(matches!(task.resume(&w, dig, &refused(ErrorCode::Busy)), Step::Continue));
}

#[test]
fn heal_follows_the_wounded() {
    let mut task = HealTask::new(id(9));
    let w = world_with(vec![object(9, at(2, 2), 50, 100, store(0, 0))]);
    assert!(is_perform(&task.execute(&worker(at(1, 1), store(0, 50)), &w), Action::Heal(id(9))));
    assert!(is_perform(
        &task.execute(&worker(at(10, 1), store(0, 50)), &w),
        Action::MoveTo(at(2, 2))
    ));
    let healthy = world_with(vec![object(9, at(2, 2), 100, 100, store(0, 0))]);
    assert!(matches!(task.execute(&worker(at(1, 1), store(0, 50)), &healthy), Step::Complete));
    assert!(matches!(task.execute(&worker(at(1, 1), store(0, 50)), &world_with(vec![])), Step::Cancel));
    assert!(matches!(task.execute(&worker(at(1, 1), store(50, 50)), &world_with(vec![])), Step::Cancel));
    assert!(matches!(task.execute(&worker(at(1, 1), store(50, 50)), &w), Step::Complete));
    assert!(matches!(task.resume(&w, Action::Heal(id(9)), &refused(ErrorCode::NoBodypart)), Step::Cancel));
}

#[test]
fn idle_counts_down() {
    let c = worker(at(1, 1), store(0, 50));
    let mut task = IdleTask::new(2);
    assert!(matches!(task.execute(&c), Step::Continue));
    assert_eq!(task.duration, 1);
    assert!(matches!(task.execute(&c), Step::Continue));
    assert_eq!(task.duration, 0);
    assert!(matches!(task.execute(&c), Step::Complete));
    assert_eq!(task.duration, 0);
}

#[test]
fn idle_until_waits_for_energy() {
    let c = worker(at(1, 1), store(0, 50));
    let task = IdleUntilTask::new(id(9));
    let empty = world_with(vec![object(9, at(2, 2), 0, 0, store(0, 800))]);
    assert!(matches!(task.execute(&c, &empty), Step::Continue));
    let filled = world_with(vec![object(9, at(2, 2), 0, 0, store(1, 800))]);
    assert!(matches!(task.execute(&c, &filled), Step::Complete));
    assert!(matches!(task.execute(&c, &world_with(vec![])), Step::Cancel));
}

#[test]
fn repair_ranks_by_hit_points_left() {
    let task = RepairTask::new(id(9));
    let w = world_with(vec![object(9, at(2, 2), 1234, 5000, store(0, 0))]);
    assert_eq!(task.get_priority(&w), 1234);
    assert_eq!(task.get_priority(&world_with(vec![])), 0);
    assert_eq!(Task::Repair(task).get_priority(&w), 1234);
    assert_eq!(Task::Build(BuildTask::new(id(9))).get_priority(&w), 0);
}

#[test]
fn repair_stops_once_the_structure_is_whole() {
    let mut task = RepairTask::new(id(9));
    let c = worker(at(1, 1), store(50, 50));
    let damaged = world_with(vec![object(9, at(2, 2), 10, 100, store(0, 0))]);
    let mend = Action::Repair(id(9));
    assert!(is_perform(&task.execute(&c, &damaged), mend));
    assert!(matches!(task.resume(&c, &damaged, mend, &ok()), Step::Continue));
    assert!(matches!(task.resume(&c, &damaged, mend, &refused(ErrorCode::Busy)), Step::Continue));
    assert!(matches!(task.resume(&c, &damaged, mend, &refused(ErrorCode::NoBodypart)), Step::Cancel));
    let whole = world_with(vec![object(9, at(2, 2), 100, 100, store(0, 0))]);
    assert!(matches!(task.resume(&c, &whole, mend, &ok()), Step::Cancel));
    assert!(matches!(task.execute(&worker(at(1, 1), store(0, 50)), &damaged), Step::Complete));
    // A structure that is gone cancels.
    assert!(matches!(task.execute(&c, &world_with(vec![])), Step::Cancel));
    assert!(is_perform(
        &task.execute(&worker(at(9, 9), store(50, 50)), &damaged),
        Action::MoveTo(at(2, 2))
    ));
}

#[test]
fn transfer_switches_to_the_nearest_extension_when_the_target_is_full() {
    let task = TransferTask::new(id(9));
    let mut w = world_with(vec![object(9, at(2, 2), 0, 0, store(300, 300))]);
    w.rooms.push(bare_room(
        vec![
            structure(30, StructureType::Extension, at(20, 20), store(0, 50)),
            structure(31, StructureType::Extension, at(5, 5), store(50, 50)),
            structure(32, StructureType::Extension, at(8, 8), store(0, 50)),
            structure(33, StructureType::Tower, at(2, 3), store(0, 1000)),
        ],
        Some(controller(7, at(40, 40), true)),
    ));
    let c = worker(at(1, 1), store(50, 50));
    assert_eq!(switch_target(&task.execute(&c, &w)), Some(id(32)));
    // A dedicated harvester keeps at its target.
    let h = creep("source_harvester-1-0", at(1, 1), vec![Part::Work, Part::Carry], store(50, 50));
    assert!(is_perform(&task.execute(&h, &w), Action::Transfer(id(9))));
    // Without an extension with room the agent is done.
    let alone = world_with(vec![object(9, at(2, 2), 0, 0, store(300, 300))]);
    assert!(matches!(task.execute(&c, &alone), Step::Complete));
}

#[test]
fn transfer_hands_over_from_beside() {
    let task = TransferTask::new(id(9));
    let w = world_with(vec![object(9, at(2, 2), 0, 0, store(0, 300))]);
    assert!(is_perform(
        &task.execute(&worker(at(1, 1), store(50, 50)), &w),
        Action::Transfer(id(9))
    ));
    assert!(is_perform(
        &task.execute(&worker(at(9, 1), store(50, 50)), &w),
        Action::MoveTo(at(2, 2))
    ));
    assert!(matches!(task.execute(&worker(at(1, 1), store(0, 50)), &w), Step::Complete));
    assert!(matches!(
        task.execute(&worker(at(1, 1), store(50, 50)), &world_with(vec![])),
        Step::Cancel
    ));
}

#[test]
fn transfer_refused_switches_or_cancels() {
    let mut task = TransferTask::new(id(9));
    let mut w = world_with(vec![object(9, at(2, 2), 0, 0, store(0, 300))]);
    let c = worker(at(1, 1), store(50, 50));
    let step = task.resume(&c, &w, Action::Transfer(id(9)), &refused(ErrorCode::Full));
    assert!(matches!(step, Step::Cancel));
    w.rooms.push(bare_room(
        vec![structure(30, StructureType::Extension, at(20, 20), store(0, 50))],
        Some(controller(7, at(40, 40), true)),
    ));
    let step = task.resume(&c, &w, Action::Transfer(id(9)), &refused(ErrorCode::Full));
    assert_eq!(switch_target(&step), Some(id(30)));
    let h = creep("source_harvester-1-0", at(1, 1), vec![Part::Work, Part::Carry], store(50, 50));
    let step = task.resume(&h, &w, Action::Transfer(id(9)), &refused(ErrorCode::Full));
    assert!(matches!(step, Step::Cancel));
    assert!(matches!(task.resume(&c, &w, Action::Transfer(id(9)), &ok()), Step::Continue));
    let step = task.resume(&c, &w, Action::Transfer(id(9)), &refused(ErrorCode::NotInRange));
    assert!(is_perform(&step, Action::MoveTo(at(2, 2))));
    let step = task.resume(&c, &w, Action::Transfer(id(9)), &refused(ErrorCode::Tired));
    assert!(matches!(step, Step::Continue));
}

#[test]
fn travel_arrives_beside_the_target() {
    let mut task = TravelTask::new(id(9));
    let w = world_with(vec![object(9, at(2, 2), 0, 0, store(0, 0))]);
    assert!(matches!(task.execute(&worker(at(1, 1), store(0, 50)), &w), Step::Complete));
    assert!(is_perform(
        &task.execute(&worker(at(9, 9), store(0, 50)), &w),
        Action::MoveTo(at(2, 2))
    ));
    assert!(matches!(task.execute(&worker(at(9, 9), store(0, 50)), &world_with(vec![])), Step::Cancel));
    let go = Action::MoveTo(at(2, 2));
    assert!(matches!(task.resume(go, &refused(ErrorCode::Tired)), Step::Continue));
    assert!(matches!(task.resume(go, &refused(ErrorCode::NoPath)), Step::Continue));
    assert!(matches!(task.resume(go, &refused(ErrorCode::NoPath)), Step::Continue));
    assert!(matches!(task.resume(go, &refused(ErrorCode::NoPath)), Step::Cancel));
    assert!(matches!(task.resume(go, &ok()), Step::Continue));
    assert_eq!(task.move_failure_count, 0);
}

#[test]
fn travel_dumb_looks_for_a_path_once() {
    let mut task = TravelDumbTask::new(at(30, 30));
    let c = worker(at(1, 1), store(0, 50));
    let first = task.execute(&c);
    let ask = Action::FollowPath { target: at(30, 30), renew: true, ignore_creeps: true };
    assert!(is_perform(&first, ask));
    let step = task.resume(ask, Report { result: Ok(()), path: Some("1234".to_string()) });
    assert!(matches!(step, Step::Continue));
    assert_eq!(task.get_cached_path(), Some(&"1234".to_string()));
    let keep = Action::FollowPath { target: at(30, 30), renew: false, ignore_creeps: true };
    assert!(is_perform(&task.execute(&c), keep));
    assert!(matches!(task.resume(keep, refused(ErrorCode::Tired)), Step::Continue));
    assert_eq!(task.get_cached_path(), Some(&"1234".to_string()));
    assert!(matches!(task.resume(keep, refused(ErrorCode::NoPath)), Step::Continue));
    assert!(matches!(task.resume(keep, refused(ErrorCode::NoPath)), Step::Continue));
    assert_eq!(task.get_stuck_count(), 2);
    assert!(matches!(task.resume(keep, refused(ErrorCode::NoPath)), Step::Cancel));
    assert!(matches!(task.execute(&worker(at(29, 30), store(0, 50))), Step::Complete));
}

#[test]
fn travel_dumb_is_stuck_above_five_refused_moves() {
    let mut task = TravelDumbTask::new(at(30, 30));
    task.set_cached_path(Some("1234".to_string()));
    task.set_stuck_count(5);
    assert!(!task.is_stuck());
    task.set_stuck_count(6);
    assert!(task.is_stuck());
    assert_eq!(task.get_stuck_count(), 6);
    let c = worker(at(1, 1), store(0, 50));
    let ask = Action::FollowPath { target: at(30, 30), renew: true, ignore_creeps: false };
    assert!(is_perform(&task.execute(&c), ask));
    task.resume(ask, Report { result: Ok(()), path: Some("5678".to_string()) });
    assert_eq!(task.get_stuck_count(), 0);
    assert_eq!(task.get_cached_path(), Some(&"5678".to_string()));
    task.empty_cached_path();
    assert_eq!(task.get_cached_path(), None);
}

#[test]
fn withdraw_completes_when_full_or_the_target_is_empty() {
    let mut task = WithdrawTask::new(id(9));
    let stocked = world_with(vec![object(9, at(2, 2), 0, 0, store(500, 1000))]);
    assert!(is_perform(
        &task.execute(&worker(at(1, 1), store(0, 50)), &stocked),
        Action::Withdraw(id(9))
    ));
    assert!(is_perform(
        &task.execute(&worker(at(9, 9), store(0, 50)), &stocked),
        Action::MoveTo(at(2, 2))
    ));
    assert!(matches!(task.execute(&worker(at(1, 1), store(50, 50)), &stocked), Step::Complete));
    let empty = world_with(vec![object(9, at(2, 2), 0, 0, store(0, 1000))]);
    assert!(matches!(task.execute(&worker(at(1, 1), store(0, 50)), &empty), Step::Complete));
    assert!(matches!(task.execute(&worker(at(1, 1), store(0, 50)), &world_with(vec![])), Step::Cancel));
    let take = Action::Withdraw(id(9));
    assert!(matches!(task.resume(&stocked, take, &refused(ErrorCode::NotEnough)), Step::Cancel));
    let go = Action::MoveTo(at(2, 2));
    assert!(matches!(task.resume(&stocked, go, &refused(ErrorCode::NoPath)), Step::Continue));
}

#[test]
fn tasks_name_their_kind_needs_and_target() {
    let w = world_with(vec![object(9, at(2, 2), 10, 100, store(0, 0))]);
    let attack = Task::Attack(AttackTask::new(id(9)));
    assert_eq!(attack.get_type(), TaskType::Attack);
    assert_eq!(attack.requires_body_parts(), vec![Part::Attack]);
    assert!(!attack.requires_energy());
    assert_eq!(attack.get_target_pos(&w), Some(at(2, 2)));
    assert_eq!(attack.get_target_pos(&world_with(vec![])), None);

    let claim = Task::Claim(ClaimTask::new(at(25, 25)));
    assert_eq!(claim.get_type(), TaskType::Claim);
    assert_eq!(claim.requires_body_parts(), vec![Part::Claim]);
    assert!(claim.requires_energy());
    assert_eq!(claim.get_target_pos(&w), None);

    let walk = Task::TravelDumb(TravelDumbTask::new(at(30, 30)));
    assert_eq!(walk.get_type(), TaskType::TravelDumb);
    assert_eq!(walk.requires_body_parts(), vec![Part::Move]);
    assert_eq!(walk.get_target_pos(&w), Some(at(30, 30)));
    assert_eq!(walk.get_icon(), "\u{1f6b6}");

    let travel = Task::Travel(TravelTask::new(id(9)));
    assert_eq!(travel.requires_body_parts(), vec![Part::Move]);
    assert!(!travel.requires_energy());

    let build = Task::Build(BuildTask::new(id(9)));
    assert_eq!(build.get_type(), TaskType::Build);
    assert_eq!(build.requires_body_parts(), vec![Part::Work, Part::Carry]);
    assert!(build.requires_energy());
    assert_eq!(build.get_icon(), "\u{1f6a7}");

    let gather = Task::HarvestSource(HarvestSourceTask::new(id(9)));
    assert_eq!(gather.get_type(), TaskType::HarvestSource);
    assert!(!gather.requires_energy());
    assert_eq!(Task::Harvest(HarvestTask::new(id(9))).get_type(), TaskType::HarvestSource);
    assert!(!Task::Withdraw(WithdrawTask::new(id(9))).requires_energy());
    assert_eq!(Task::Idle(IdleTask::new(1)).get_target_pos(&w), None);
    assert_eq!(Task::Upgrade(UpgradeTask::new(id(9))).get_icon(), "");
}

#[test]
fn task_steps_go_through_the_variant() {
    let w = world_with(vec![object(9, at(2, 2), 0, 0, store(3000, 3000))]);
    let c = worker(at(9, 9), store(0, 50));
    let mut gather = Task::HarvestSource(HarvestSourceTask::new(id(9)));
    let step = gather.execute(&c, &w);
    assert!(is_perform(&step, Action::MoveTo(at(2, 2))));
    gather.resume(&c, &w, Action::MoveTo(at(2, 2)), refused(ErrorCode::NoPath));
    match &gather {
        Task::HarvestSource(t) => assert_eq!(t.move_failure_count, 1),
        _ => unreachable!(),
    }
    let mut wait = Task::Idle(IdleTask::new(1));
    assert!(matches!(wait.execute(&c, &w), Step::Continue));
    assert!(matches!(wait.execute(&c, &w), Step::Complete));
    assert!(matches!(wait.resume(&c, &w, Action::MoveTo(at(2, 2)), ok()), Step::Continue));
}

#[test]
fn an_agent_needs_every_part_the_task_needs() {
    let attack = Task::Attack(AttackTask::new(id(9)));
    let build = Task::Build(BuildTask::new(id(9)));
    let c = worker(at(1, 1), store(0, 50));
    assert!(can_creep_handle_task(&c, &build));
    assert!(!can_creep_handle_task(&c, &attack));
    let no_carry = creep("worker-1-0", at(1, 1), vec![Part::Move, Part::Work], store(0, 0));
    assert!(!can_creep_handle_task(&no_carry, &build));
    let fighter = creep("melee-1-0", at(1, 1), vec![Part::Move, Part::Attack], store(0, 0));
    assert!(can_creep_handle_task(&fighter, &attack));
}

#[test]
fn dedicated_archetypes_are_pinned_to_one_kind() {
    let body = vec![Part::Move, Part::Work, Part::Carry];
    let harvester = creep("source_harvester-1-0", at(1, 1), body.clone(), store(50, 50));
    let upgrader = creep("upgrader-1-0", at(1, 1), body.clone(), store(50, 50));
    let storager = creep("storager-1-0", at(1, 1), body, store(50, 50));
    let gather = Task::HarvestSource(HarvestSourceTask::new(id(9)));
    let transfer = Task::Transfer(TransferTask::new(id(9)));
    let upgrade = Task::Upgrade(UpgradeTask::new(id(9)));
    let withdraw = Task::Withdraw(WithdrawTask::new(id(9)));
    assert!(can_creep_handle_task(&harvester, &gather));
    assert!(!can_creep_handle_task(&harvester, &transfer));
    assert!(!can_creep_handle_task(&harvester, &upgrade));
    assert!(can_creep_handle_task(&upgrader, &upgrade));
    assert!(!can_creep_handle_task(&upgrader, &withdraw));
    assert!(can_creep_handle_task(&storager, &withdraw));
    assert!(!can_creep_handle_task(&storager, &transfer));
}

#[test]
fn task_list_walks_its_chain() {
    let mut list = TaskList::new(
        vec![
            Task::Withdraw(WithdrawTask::new(id(1))),
            Task::Transfer(TransferTask::new(id(2))),
        ],
        false,
        1,
    );
    assert_eq!(list.current_task().unwrap().get_type(), TaskType::Withdraw);
    assert_eq!(list.get_primary_task().unwrap().get_type(), TaskType::Transfer);
    assert_eq!(list.next_task().unwrap().get_type(), TaskType::Transfer);
    assert_eq!(list.current_task().unwrap().get_type(), TaskType::Transfer);
    assert!(list.next_task().is_none());
    // An exhausted chain stays where it was.
    assert_eq!(list.current_task_idx, 1);
    assert!(list.current_task_mut().is_some());
}

#[test]
fn repeating_task_list_starts_over() {
    let mut list = TaskList::new(
        vec![
            Task::HarvestSource(HarvestSourceTask::new(id(1))),
            Task::Transfer(TransferTask::new(id(2))),
            Task::IdleUntil(IdleUntilTask::new(id(1))),
        ],
        true,
        1,
    );
    assert_eq!(list.next_task().unwrap().get_type(), TaskType::Transfer);
    assert_eq!(list.next_task().unwrap().get_type(), TaskType::IdleUntil);
    assert_eq!(list.next_task().unwrap().get_type(), TaskType::HarvestSource);
    assert_eq!(list.current_task_idx, 0);
}

#[test]
fn empty_task_list_has_no_task() {
    let mut list = TaskList::new(vec![], false, 0);
    assert!(list.current_task().is_none());
    assert!(list.get_primary_task().is_none());
    assert!(list.current_task_mut().is_none());
    assert!(list.next_task().is_none());
    let mut again = TaskList::new(vec![], true, 0);
    assert!(again.next_task().is_none());
}

#[test]
fn tasks_and_chains_describe_themselves() {
    assert_eq!(Task::Idle(IdleTask::new(12)).describe(), "Idling. 12 ticks remaining");
    assert_eq!(Task::IdleUntil(IdleUntilTask::new(id(1))).describe(), "Idling until something happens.");
    assert_eq!(Task::Claim(ClaimTask::new(at(25, 25))).describe(), "Claim controller");
    assert_eq!(Task::Attack(AttackTask::new(id(1))).describe(), "Attack");
    assert_eq!(Task::TravelDumb(TravelDumbTask::new(at(1, 1))).describe(), "Travel (dumb)");
    let mut list = TaskList::new(
        vec![
            Task::HarvestSource(HarvestSourceTask::new(id(1))),
            Task::Transfer(TransferTask::new(id(2))),
            Task::Idle(IdleTask::new(0)),
        ],
        true,
        1,
    );
    assert_eq!(list.describe(), "0/3: Harvest, Transfer energy, Idling. 0 ticks remaining");
    list.next_task();
    assert_eq!(list.describe(), "1/3: Harvest, Transfer energy, Idling. 0 ticks remaining");
    assert_eq!(TaskList::new(vec![], false, 0).describe(), "0/0: ");
    assert_eq!(
        TaskList::new(vec![Task::Upgrade(UpgradeTask::new(id(7)))], false, 0).describe(),
        "0/1: Upgrade controller"
    );
}

#[test]
fn every_variant_gives_up_by_itself_when_its_agent_is_about_to_die() {
    let w = world_with(vec![object(9, at(2, 2), 10, 100, store(500, 1000))]);
    let mut dying = worker(at(1, 1), store(10, 50));
    dying.ticks_to_live = Some(3);
    assert!(matches!(AttackTask::new(id(9)).execute(&dying, &w), Step::Cancel));
    assert!(matches!(BuildTask::new(id(9)).execute(&dying, &w), Step::Cancel));
    assert!(matches!(ClaimTask::new(at(2, 2)).execute(&dying, &w), Step::Cancel));
    assert!(matches!(HarvestTask::new(id(9)).execute(&dying, &w), Step::Cancel));
    assert!(matches!(HarvestSourceTask::new(id(9)).execute(&dying, &w), Step::Cancel));
    assert!(matches!(HealTask::new(id(9)).execute(&dying, &w), Step::Cancel));
    assert!(matches!(IdleTask::new(0).execute(&dying), Step::Cancel));
    assert!(matches!(IdleUntilTask::new(id(9)).execute(&dying, &w), Step::Cancel));
    assert!(matches!(RepairTask::new(id(9)).execute(&dying, &w), Step::Cancel));
    assert!(matches!(TransferTask::new(id(9)).execute(&dying, &w), Step::Cancel));
    assert!(matches!(TravelTask::new(id(9)).execute(&dying, &w), Step::Cancel));
    assert!(matches!(TravelDumbTask::new(at(30, 30)).execute(&dying), Step::Cancel));
    assert!(matches!(UpgradeTask::new(id(9)).execute(&dying, &w), Step::Cancel));
    assert!(matches!(WithdrawTask::new(id(9)).execute(&dying, &w), Step::Cancel));
    // With one tick more the same agent harvests and transfers.
    dying.ticks_to_live = Some(4);
    assert!(is_perform(&HarvestSourceTask::new(id(9)).execute(&dying, &w), Action::Harvest(id(9))));
    assert!(is_perform(&TransferTask::new(id(9)).execute(&dying, &w), Action::Transfer(id(9))));
}

#[test]
fn a_full_harvester_switches_to_a_transfer_to_the_nearest_station() {
    let task = HarvestSourceTask::new(id(9));
    let mut w = world_with(vec![object(9, at(2, 2), 0, 0, store(3000, 3000))]);
    let mut idle_tower = structure(34, StructureType::Tower, at(1, 2), store(0, 1000));
    idle_tower.active = false;
    let mut r = bare_room(
        vec![
            structure(30, StructureType::Spawn, at(20, 20), store(0, 300)),
            structure(31, StructureType::Extension, at(3, 3), store(50, 50)),
            structure(32, StructureType::Extension, at(8, 8), store(0, 50)),
            structure(33, StructureType::Storage, at(2, 1), store(0, 10000)),
            idle_tower,
        ],
        Some(controller(7, at(40, 40), true)),
    );
    r.links = LinkTypeMap {
        source_links: vec![SourceLink(
            structure(21, StructureType::Link, at(3, 2), store(0, 800)),
            object(9, at(2, 2), 0, 0, store(0, 0)),
        )],
        storage_links: vec![],
        controller_links: vec![],
        unknown_links: vec![],
    };
    w.rooms.push(r);
    let full = worker(at(1, 1), store(50, 50));
    assert_eq!(switch_target(&task.execute(&full, &w)), Some(id(32)));
    let nearly = worker(at(1, 1), store(41, 50));
    assert_eq!(switch_target(&task.execute(&nearly, &w)), Some(id(32)));
    let hungry = worker(at(1, 1), store(40, 50));
    assert!(is_perform(&task.execute(&hungry, &w), Action::Harvest(id(9))));
    // Where no station needs energy the link beside the node takes it.
    w.rooms[0].my_structures.clear();
    assert_eq!(switch_target(&task.execute(&full, &w)), Some(id(21)));
    // Where nothing takes it the agent is done.
    w.rooms[0].links.source_links.clear();
    assert!(matches!(task.execute(&full, &w), Step::Complete));
}
