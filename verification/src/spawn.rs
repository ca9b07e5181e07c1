//! The population controller: how many agents of each archetype the colony
//! wants, and what a construction source is to build next.

use crate::game::{CreepInfo, Part};
use crate::metadata::{clamp_u32, RoomInfo, SpawnInfo, World};
use crate::position::RoomName;
use crate::utils::{creep_type_of, decimal, first_where, get_creep_type, str_eq, to_decimal};
use std::collections::HashMap;
use vstd::prelude::*;

verus! {

/// A wanted population: how many agents of an archetype, and how to build one.
#[derive(Debug)]
pub struct SpawnGoal {
    /// The archetype.
    pub name: String,
    /// The parts every agent of the archetype has.
    pub body: Vec<Part>,
    /// Parts added as a whole, as often as energy allows.
    pub body_upgrades: Vec<Part>,
    /// How often `body_upgrades` is added at most.
    pub max_body_upgrades: u32,
    /// How much every resource node beyond the first adds to the wanted count,
    /// as a multiple of `count`.
    pub source_modifier: u32,
    /// How many agents are wanted where the room has one resource node.
    pub count: u32,
    /// Whether agents are counted over all rooms.
    pub is_global: bool,
}

/// The goals of a room, in the order in which they are tried.
pub type SpawnGoals = Vec<SpawnGoal>;

/// The goals of every room, by the room's packed name.
pub type RoomSpawnGoals = HashMap<u16, SpawnGoals>;

/// How many agents of an archetype belong to a room.
#[derive(Debug)]
pub struct CreepCount {
    pub room: RoomName,
    pub creep_type: String,
    pub count: u32,
}

/// The counts of every room and archetype.
pub type RoomCreepCounts = Vec<CreepCount>;

/// Holds of the counts kept for the archetype in the room.
pub open spec fn counts_for(room: RoomName, creep_type: Seq<char>) -> spec_fn(CreepCount) -> bool {
    |c: CreepCount| c.room == room && c.creep_type@ == creep_type
}

/// Holds of the agents of the archetype that stand in the room.
pub open spec fn creep_is(room: RoomName, creep_type: Seq<char>) -> spec_fn(CreepInfo) -> bool {
    |c: CreepInfo| c.pos.room_spec() == room && creep_type_of(c.name@) == creep_type
}

/// The count kept for the archetype in the room; 0 if none is kept.
pub open spec fn count_in_room(counts: Seq<CreepCount>, room: RoomName, creep_type: Seq<char>) -> u32 {
    match first_where(counts, counts_for(room, creep_type)) {
        Some(i) => counts[i].count,
        None => 0,
    }
}

/// The counts kept for the archetype, added up over all rooms.
pub open spec fn global_count(counts: Seq<CreepCount>, creep_type: Seq<char>) -> nat
    decreases counts.len(),
{
    if counts.len() == 0 {
        0
    } else {
        global_count(counts.drop_last(), creep_type) + if counts.last().creep_type@ == creep_type {
            counts.last().count as nat
        } else {
            0nat
        }
    }
}

/// Holds of the agents of the archetype, wherever they stand.
pub open spec fn creep_has_type(creep_type: Seq<char>) -> spec_fn(CreepInfo) -> bool {
    |c: CreepInfo| creep_type_of(c.name@) == creep_type
}

/// Changing the count of one entry changes the sum for its archetype by
/// the difference, and no other sum.
pub proof fn lemma_global_count_update(counts: Seq<CreepCount>, k: int, entry: CreepCount, t: Seq<char>)
    requires
        0 <= k < counts.len(),
        entry.creep_type@ == counts[k].creep_type@,
    ensures
        global_count(counts.update(k, entry), t) == global_count(counts, t) + if t
            == entry.creep_type@ {
            entry.count - counts[k].count
        } else {
            0
        },
    decreases counts.len(),
{
    let after = counts.update(k, entry);
    if k == counts.len() - 1 {
        assert(after.drop_last() =~= counts.drop_last());
    } else {
        assert(after.drop_last() =~= counts.drop_last().update(k, entry));
        lemma_global_count_update(counts.drop_last(), k, entry, t);
    }
}

/// No room and archetype has two counts.
pub open spec fn distinct_keys(counts: Seq<CreepCount>) -> bool {
    forall|i: int, j: int|
        0 <= i < j < counts.len() ==> !((#[trigger] counts[i]).room == (#[trigger] counts[j]).room
            && counts[i].creep_type@ == counts[j].creep_type@)
}

/// `counts` with `count` kept for the archetype in the room.
pub open spec fn with_count(
    counts: Seq<CreepCount>,
    room: RoomName,
    creep_type: String,
    count: u32,
) -> Seq<CreepCount> {
    match first_where(counts, counts_for(room, creep_type@)) {
        Some(i) => counts.update(i, CreepCount { room, creep_type: counts[i].creep_type, count }),
        None => counts.push(CreepCount { room, creep_type, count }),
    }
}

/// The energy it costs to build `parts`.
pub open spec fn parts_cost(parts: Seq<Part>) -> nat
    decreases parts.len(),
{
    if parts.len() == 0 {
        0
    } else {
        parts_cost(parts.drop_last()) + parts.last().cost_spec() as nat
    }
}

/// No part costs more than 600.
pub proof fn lemma_parts_cost_bound(parts: Seq<Part>)
    ensures
        parts_cost(parts) <= 600 * parts.len(),
    decreases parts.len(),
{
    if parts.len() > 0 {
        lemma_parts_cost_bound(parts.drop_last());
    }
}

/// The energy it costs to build `parts`.
pub fn cost_of(parts: &Vec<Part>) -> (cost: u128)
    ensures
        cost == parts_cost(parts@),
{
    let mut cost: u128 = 0;
    let mut i: usize = 0;
    while i < parts.len()
        invariant
            i <= parts.len(),
            cost == parts_cost(parts@.take(i as int)),
            cost <= 600 * i,
        decreases parts.len() - i,
    {
        proof {
            assert(parts@.take(i + 1).drop_last() =~= parts@.take(i as int));
        }
        cost = cost + parts[i].cost() as u128;
        i += 1;
    }
    proof {
        assert(parts@.take(i as int) =~= parts@);
    }
    cost
}

/// `parts` put one behind the other `times` times.
pub open spec fn repeated(parts: Seq<Part>, times: nat) -> Seq<Part>
    decreases times,
{
    if times == 0 {
        Seq::empty()
    } else {
        repeated(parts, (times - 1) as nat) + parts
    }
}

impl SpawnGoal {
    /// How many agents the goal wants in a room with `source_count` resource
    /// nodes: its count, and for every node beyond the first its count times
    /// the modifier more.
    pub open spec fn target_count(self, source_count: nat) -> nat {
        let extra: int = self.count * (clamp_u32(source_count) - 1) * self.source_modifier;
        (self.count + if extra > 0 {
            extra
        } else {
            0
        }) as nat
    }

    /// How often the additional parts are built with `energy` at hand: as
    /// often as the energy left after the base body pays for them and one
    /// unit of overhead each, and at most `max_body_upgrades` times. Never
    /// where there are no additional parts or the base body is not paid for.
    pub open spec fn upgrade_times(self, energy: u32) -> nat {
        if self.body_upgrades@.len() == 0 || energy < parts_cost(self.body@) {
            0
        } else {
            let affordable = (energy - parts_cost(self.body@)) / (parts_cost(self.body_upgrades@)
                + 1) as int;
            if affordable < self.max_body_upgrades {
                affordable as nat
            } else {
                self.max_body_upgrades as nat
            }
        }
    }

    /// The body built with `energy` at hand.
    pub open spec fn loadout(self, energy: u32) -> Seq<Part> {
        self.body@ + repeated(self.body_upgrades@, self.upgrade_times(energy))
    }

    /// Whether `energy` pays for the base body.
    pub open spec fn affordable(self, energy: u32) -> bool {
        energy >= parts_cost(self.body@)
    }

    /// How many agents the goal wants in a room with `source_count` resource nodes.
    pub fn get_target_count(&self, source_count: usize) -> (target: u128)
        ensures
            target == self.target_count(source_count as nat),
    {
        let nodes: u128 = if source_count as u128 <= u32::MAX as u128 {
            source_count as u128
        } else {
            u32::MAX as u128
        };
        if nodes == 0 {
            assert(self.count * (0 - 1) * self.source_modifier <= 0) by (nonlinear_arith)
                requires
                    self.count >= 0,
                    self.source_modifier >= 0,
            ;
            self.count as u128
        } else {
            assert(0 <= self.count * (nodes - 1) <= 0xffff_ffff * 0xffff_ffff) by (nonlinear_arith)
                requires
                    0 <= self.count <= 0xffff_ffff,
                    0 <= nodes - 1 <= 0xffff_ffff,
            ;
            let per_node: u128 = self.count as u128 * (nodes - 1);
            assert(per_node * self.source_modifier <= 0xffff_ffff * 0xffff_ffff * 0xffff_ffff
                && per_node * self.source_modifier >= 0) by (nonlinear_arith)
                requires
                    0 <= per_node <= 0xffff_ffff * 0xffff_ffff,
                    0 <= self.source_modifier <= 0xffff_ffff,
            ;
            let extra: u128 = per_node * self.source_modifier as u128;
            assert(self.count * (nodes - 1) * self.source_modifier == per_node
                * self.source_modifier) by (nonlinear_arith)
                requires
                    per_node == self.count * (nodes - 1),
            ;
            self.count as u128 + extra
        }
    }

    /// The body built with `energy` at hand, if `energy` pays for the base body.
    pub fn build_body(&self, energy: u32) -> (body: Option<Vec<Part>>)
        ensures
            self.affordable(energy) ==> (body matches Some(b) && b@ == self.loadout(energy)),
            !self.affordable(energy) ==> body is None,
    {
        let body_cost = cost_of(&self.body);
        if (energy as u128) < body_cost {
            return None;
        }
        let mut body: Vec<Part> = Vec::new();
        let mut i: usize = 0;
        while i < self.body.len()
            invariant
                i <= self.body.len(),
                body@ == self.body@.take(i as int),
            decreases self.body.len() - i,
        {
            body.push(self.body[i]);
            proof {
                assert(body@ =~= self.body@.take(i + 1));
            }
            i += 1;
        }
        proof {
            assert(self.body@.take(i as int) =~= self.body@);
        }
        if self.body_upgrades.len() > 0 {
            proof {
                lemma_parts_cost_bound(self.body_upgrades@);
            }
            let step = cost_of(&self.body_upgrades) + 1;
            let affordable = (energy as u128 - body_cost) / step;
            let times: u32 = if affordable < self.max_body_upgrades as u128 {
                affordable as u32
            } else {
                self.max_body_upgrades
            };
            assert(times == self.upgrade_times(energy));
            let mut t: u32 = 0;
            while t < times
                invariant
                    t <= times,
                    body@ == self.body@ + repeated(self.body_upgrades@, t as nat),
                decreases times - t,
            {
                let ghost before = body@;
                let mut k: usize = 0;
                while k < self.body_upgrades.len()
                    invariant
                        k <= self.body_upgrades.len(),
                        body@ == before + self.body_upgrades@.take(k as int),
                    decreases self.body_upgrades.len() - k,
                {
                    body.push(self.body_upgrades[k]);
                    proof {
                        assert(body@ =~= before + self.body_upgrades@.take(k + 1));
                    }
                    k += 1;
                }
                proof {
                    assert(self.body_upgrades@.take(k as int) =~= self.body_upgrades@);
                    assert(body@ =~= self.body@ + repeated(self.body_upgrades@, (t + 1) as nat));
                }
                t += 1;
            }
        } else {
            proof {
                assert(body@ =~= self.loadout(energy));
            }
        }
        Some(body)
    }
}

/// What a construction source is asked to build.
#[derive(Debug)]
pub struct SpawnRequest {
    /// The room the agent is built in.
    pub room: RoomName,
    /// Index of the goal among the goals of the room.
    pub goal: usize,
    /// The archetype of the goal.
    pub creep_type: String,
    /// Name of the new agent: archetype, tick and a running number, with
    /// hyphens between.
    pub name: String,
    pub body: Vec<Part>,
    /// How many agents the goal counted.
    pub creep_count: u128,
    /// How many agents the goal wanted.
    pub target_count: u128,
}

/// Decides, for the goals of every room, what the construction sources build.
#[derive(Debug)]
pub struct SpawnManager {
    pub room_spawn_goals: RoomSpawnGoals,
    pub room_creep_counts: RoomCreepCounts,
    /// How many agents were requisitioned so far this tick.
    pub additional: u32,
}

/// Workers in a room from which on a construction source that is not full
/// waits to be filled before it builds.
pub const WORKERS_TO_WAIT: u32 = 3;

/// The name of an agent of the archetype `creep_type`, built at tick `time`
/// as number `additional` of that tick.
pub open spec fn creep_name(creep_type: Seq<char>, time: u32, additional: u32) -> Seq<char> {
    creep_type + seq!['-'] + decimal(time as nat) + seq!['-'] + decimal(additional as nat)
}

/// The name of an agent of the archetype `creep_type`, built at tick `time`
/// as number `additional` of that tick.
pub fn make_creep_name(creep_type: &str, time: u32, additional: u32) -> (name: String)
    ensures
        name@ == creep_name(creep_type@, time, additional),
{
    proof {
        reveal_strlit("-");
    }
    let mut name = String::from_str(creep_type);
    name.append("-");
    let tick = to_decimal(time as u64);
    name.append(tick.as_str());
    name.append("-");
    let number = to_decimal(additional as u64);
    name.append(number.as_str());
    proof {
        assert("-"@ =~= seq!['-']);
        assert(name@ =~= creep_name(creep_type@, time, additional));
    }
    name
}

impl SpawnManager {
    /// No room and archetype has two counts.
    pub open spec fn wf(&self) -> bool {
        distinct_keys(self.room_creep_counts@)
    }

    /// Takes the goals and counts the agents of `world` by room and
    /// archetype. A count stops at the largest `u32`.
    pub fn new(room_spawn_goals: RoomSpawnGoals, world: &World) -> (manager: SpawnManager)
        ensures
            manager.wf(),
            manager.room_spawn_goals == room_spawn_goals,
            manager.additional == 0,
            forall|room: RoomName, creep_type: Seq<char>|
                #[trigger] count_in_room(manager.room_creep_counts@, room, creep_type) == clamp_u32(
                    crate::utils::count_where(world.creeps@, creep_is(room, creep_type)),
                ),
            world.creeps@.len() <= u32::MAX ==> forall|creep_type: Seq<char>|
                #[trigger] global_count(manager.room_creep_counts@, creep_type)
                    == crate::utils::count_where(world.creeps@, creep_has_type(creep_type)),
    {
        let mut counts: Vec<CreepCount> = Vec::new();
        let mut i: usize = 0;
        while i < world.creeps.len()
            invariant
                i <= world.creeps.len(),
                distinct_keys(counts@),
                forall|room: RoomName, creep_type: Seq<char>|
                    #[trigger] count_in_room(counts@, room, creep_type) == clamp_u32(
                        crate::utils::count_where(
                            world.creeps@.take(i as int),
                            creep_is(room, creep_type),
                        ),
                    ),
                world.creeps@.len() <= u32::MAX ==> forall|creep_type: Seq<char>|
                    #[trigger] global_count(counts@, creep_type) == crate::utils::count_where(
                        world.creeps@.take(i as int),
                        creep_has_type(creep_type),
                    ),
            decreases world.creeps.len() - i,
        {
            let creep = &world.creeps[i];
            let creep_type = get_creep_type(creep.name.as_str());
            let room = creep.pos.room_name();
            let ghost before = counts@;
            let found = find_count(&counts, room, creep_type.as_str());
            let count = match found {
                Some(k) => counts[k].count,
                None => 0,
            };
            set_count(&mut counts, room, creep_type, count.saturating_add(1));
            proof {
                assert forall|r: RoomName, t: Seq<char>|
                    #[trigger] count_in_room(counts@, r, t) == clamp_u32(
                        crate::utils::count_where(world.creeps@.take(i + 1), creep_is(r, t)),
                    ) by {
                    crate::utils::lemma_count_where_step(world.creeps@, creep_is(r, t), i as int);
                    assert(count_in_room(before, r, t) == clamp_u32(
                        crate::utils::count_where(world.creeps@.take(i as int), creep_is(r, t)),
                    ));
                }
                if world.creeps@.len() <= u32::MAX {
                    crate::utils::lemma_count_where_step(
                        world.creeps@,
                        creep_is(room, creep_type@),
                        i as int,
                    );
                    assert(count_in_room(before, room, creep_type@) == clamp_u32(
                        crate::utils::count_where(
                            world.creeps@.take(i as int),
                            creep_is(room, creep_type@),
                        ),
                    ));
                    assert forall|t: Seq<char>| #[trigger]
                        global_count(counts@, t) == crate::utils::count_where(
                            world.creeps@.take(i + 1),
                            creep_has_type(t),
                        ) by {
                        crate::utils::lemma_count_where_step(
                            world.creeps@,
                            creep_has_type(t),
                            i as int,
                        );
                        assert(global_count(before, t) == crate::utils::count_where(
                            world.creeps@.take(i as int),
                            creep_has_type(t),
                        ));
                    }
                }
            }
            i += 1;
        }
        proof {
            assert(world.creeps@.take(i as int) =~= world.creeps@);
        }
        SpawnManager { room_spawn_goals, room_creep_counts: counts, additional: 0 }
    }

    /// How many agents of the archetype are counted in the room.
    pub fn get_creep_count_in_room(&self, room_name: RoomName, creep_type: &str) -> (count: u32)
        ensures
            count == count_in_room(self.room_creep_counts@, room_name, creep_type@),
    {
        match find_count(&self.room_creep_counts, room_name, creep_type) {
            Some(k) => self.room_creep_counts[k].count,
            None => 0,
        }
    }

    /// How many agents of the archetype are counted over all rooms.
    pub fn get_global_creep_count(&self, creep_type: &str) -> (count: u128)
        ensures
            count == global_count(self.room_creep_counts@, creep_type@),
    {
        let mut count: u128 = 0;
        let mut i: usize = 0;
        while i < self.room_creep_counts.len()
            invariant
                i <= self.room_creep_counts.len(),
                count == global_count(self.room_creep_counts@.take(i as int), creep_type@),
                count <= 0xffff_ffff * i,
            decreases self.room_creep_counts.len() - i,
        {
            proof {
                assert(self.room_creep_counts@.take(i + 1).drop_last()
                    =~= self.room_creep_counts@.take(i as int));
            }
            if str_eq(self.room_creep_counts[i].creep_type.as_str(), creep_type) {
                count = count + self.room_creep_counts[i].count as u128;
            }
            i += 1;
        }
        proof {
            assert(self.room_creep_counts@.take(i as int) =~= self.room_creep_counts@);
        }
        count
    }

    /// The goals of the room, if it has any.
    pub open spec fn goals_of(self, room: RoomName) -> Option<SpawnGoals> {
        if self.room_spawn_goals@.contains_key(room.packed) {
            Some(self.room_spawn_goals@[room.packed])
        } else {
            None
        }
    }

    /// How many agents a goal counts for a room: those of its archetype in
    /// the room, or over all rooms if the goal is global.
    pub open spec fn current_count(self, goal: SpawnGoal, room: RoomName) -> nat {
        if goal.is_global {
            global_count(self.room_creep_counts@, goal.name@)
        } else {
            count_in_room(self.room_creep_counts@, room, goal.name@) as nat
        }
    }

    /// Whether a goal is to be served at `room`: fewer agents are counted
    /// than wanted, and the energy at hand pays for the base body.
    pub open spec fn goal_is_due(self, goal: SpawnGoal, room: RoomInfo) -> bool {
        &&& self.current_count(goal, room.name) < goal.target_count(room.sources@.len())
        &&& goal.affordable(room.energy_available)
    }

    /// Whether a construction source builds at all this tick: it is not
    /// busy, and it is full or fewer than three workers are around to fill it.
    pub open spec fn spawn_is_ready(self, spawn: SpawnInfo) -> bool {
        &&& !spawn.spawning
        &&& !(spawn.store.free > 0 && count_in_room(
            self.room_creep_counts@,
            spawn.room,
            "worker"@,
        ) >= WORKERS_TO_WAIT)
    }

    /// The goal that `spawn` serves this tick: the first goal of its room
    /// that is due, if the source is ready and its room is visible.
    pub open spec fn goal_to_serve(self, spawn: SpawnInfo, world: World) -> Option<int> {
        if !self.spawn_is_ready(spawn) {
            None
        } else {
            match (world.room_index(spawn.room), self.goals_of(spawn.room)) {
                (Some(r), Some(goals)) => first_where(
                    goals@,
                    |goal: SpawnGoal| self.goal_is_due(goal, world.rooms@[r]),
                ),
                _ => None,
            }
        }
    }

    /// Decides what `spawn` is asked to build this tick: an agent for the
    /// goal it serves, with the body the energy of its room pays for.
    #[verifier::loop_isolation(false)]
    pub fn spawn_creeps(&self, spawn: &SpawnInfo, world: &World) -> (request: Option<SpawnRequest>)
        ensures
            match self.goal_to_serve(*spawn, *world) {
                None => request is None,
                Some(i) => {
                    let room = world.rooms@[world.room_index(spawn.room)->0];
                    let goal = self.goals_of(spawn.room)->0@[i];
                    &&& request matches Some(r)
                    &&& r.room == spawn.room
                    &&& r.goal == i
                    &&& r.creep_type@ == goal.name@
                    &&& r.name@ == creep_name(goal.name@, world.time, self.additional)
                    &&& r.body@ == goal.loadout(room.energy_available)
                    &&& r.creep_count == self.current_count(goal, spawn.room)
                    &&& r.target_count == goal.target_count(room.sources@.len())
                },
            },
    {
        if spawn.spawning {
            return None;
        }
        if spawn.store.free > 0 && self.get_creep_count_in_room(spawn.room, "worker")
            >= WORKERS_TO_WAIT {
            return None;
        }
        let r = match world.find_room(spawn.room) {
            Some(r) => r,
            None => {
                return None;
            },
        };
        let room = &world.rooms[r];
        broadcast use vstd::std_specs::hash::group_hash_axioms;

        let goals = match self.room_spawn_goals.get(&spawn.room.packed) {
            Some(goals) => goals,
            None => {
                return None;
            },
        };
        let ghost due = |goal: SpawnGoal| self.goal_is_due(goal, *room);
        let mut i: usize = 0;
        while i < goals.len()
            invariant
                i <= goals.len(),
                forall|j: int| 0 <= j < i ==> !due(#[trigger] goals@[j]),
                due == |goal: SpawnGoal| self.goal_is_due(goal, *room),
                room == &world.rooms@[r as int],
            decreases goals.len() - i,
        {
            let goal = &goals[i];
            let creep_count: u128 = if goal.is_global {
                self.get_global_creep_count(goal.name.as_str())
            } else {
                self.get_creep_count_in_room(spawn.room, goal.name.as_str()) as u128
            };
            let target_count = goal.get_target_count(room.sources.len());
            if creep_count < target_count {
                match goal.build_body(room.energy_available) {
                    Some(body) => {
                        proof {
                            crate::utils::lemma_first_where_found(goals@, due, i as int);
                        }
                        return Some(
                            SpawnRequest {
                                room: spawn.room,
                                goal: i,
                                creep_type: goal.name.clone(),
                                name: make_creep_name(
                                    goal.name.as_str(),
                                    world.time,
                                    self.additional,
                                ),
                                body,
                                creep_count,
                                target_count,
                            },
                        );
                    },
                    None => {},
                }
            }
            i += 1;
        }
        proof {
            crate::utils::lemma_first_where_none(goals@, due);
        }
        None
    }

    /// Takes note that the world accepted `request`: one more agent was
    /// requisitioned this tick, and the count kept for the archetype in the
    /// room is one more than the goal counted.
    pub fn record_spawn(&mut self, request: &SpawnRequest)
        requires
            old(self).wf(),
        ensures
            final(self).wf(),
            final(self).room_spawn_goals == old(self).room_spawn_goals,
            final(self).additional == if old(self).additional < u32::MAX {
                (old(self).additional + 1) as u32
            } else {
                old(self).additional
            },
            final(self).room_creep_counts@ == with_count(
                old(self).room_creep_counts@,
                request.room,
                request.creep_type,
                clamp_u32((request.creep_count + 1) as nat),
            ),
            count_in_room(final(self).room_creep_counts@, request.room, request.creep_type@)
                == clamp_u32((request.creep_count + 1) as nat),
    {
        self.additional = self.additional.saturating_add(1);
        let count: u32 = if request.creep_count < u32::MAX as u128 {
            (request.creep_count + 1) as u32
        } else {
            u32::MAX
        };
        set_count(&mut self.room_creep_counts, request.room, request.creep_type.clone(), count);
    }
}

/// Index of the count kept for the archetype in the room.
fn find_count(counts: &Vec<CreepCount>, room: RoomName, creep_type: &str) -> (found: Option<usize>)
    ensures
        found matches Some(k) ==> first_where(counts@, counts_for(room, creep_type@)) == Some(
            k as int,
        ) && k < counts.len(),
        found is None ==> first_where(counts@, counts_for(room, creep_type@)) is None,
{
    let ghost p = counts_for(room, creep_type@);
    let mut i: usize = 0;
    while i < counts.len()
        invariant
            i <= counts.len(),
            forall|j: int| 0 <= j < i ==> !p(#[trigger] counts@[j]),
            p == counts_for(room, creep_type@),
        decreases counts.len() - i,
    {
        if counts[i].room == room && str_eq(counts[i].creep_type.as_str(), creep_type) {
            proof {
                crate::utils::lemma_first_where_found(counts@, p, i as int);
            }
            return Some(i);
        }
        i += 1;
    }
    proof {
        crate::utils::lemma_first_where_none(counts@, p);
    }
    None
}

/// Keeps `count` for the archetype in the room.
fn set_count(counts: &mut Vec<CreepCount>, room: RoomName, creep_type: String, count: u32)
    requires
        distinct_keys(old(counts)@),
    ensures
        distinct_keys(final(counts)@),
        final(counts)@ == with_count(old(counts)@, room, creep_type, count),
        count_in_room(final(counts)@, room, creep_type@) == count,
        forall|r: RoomName, t: Seq<char>|
            !(r == room && t == creep_type@) ==> #[trigger] count_in_room(final(counts)@, r, t)
                == count_in_room(old(counts)@, r, t),
        forall|t: Seq<char>| #[trigger]
            global_count(final(counts)@, t) == global_count(old(counts)@, t) + if t
                == creep_type@ {
                count - count_in_room(old(counts)@, room, creep_type@)
            } else {
                0
            },
{
    let ghost before = counts@;
    let found = find_count(counts, room, creep_type.as_str());
    proof {
        crate::utils::lemma_first_where_is_first(before, counts_for(room, creep_type@));
    }
    match found {
        Some(k) => {
            counts[k].count = count;
            proof {
                let after = counts@;
                assert(after =~= before.update(
                    k as int,
                    CreepCount { room, creep_type: before[k as int].creep_type, count },
                ));
                assert forall|i: int, j: int| 0 <= i < j < after.len() implies !((
                #[trigger] after[i]).room == (#[trigger] after[j]).room && after[i].creep_type@
                    == after[j].creep_type@) by {
                    assert(after[i].room == before[i].room && after[i].creep_type@
                        == before[i].creep_type@);
                    assert(after[j].room == before[j].room && after[j].creep_type@
                        == before[j].creep_type@);
                }
                assert(counts_for(room, creep_type@)(before[k as int]));
                assert forall|r: RoomName, t: Seq<char>|
                    true implies #[trigger] count_in_room(after, r, t) == if r == room && t
                        == creep_type@ {
                        count
                    } else {
                        count_in_room(before, r, t)
                    } by {
                    lemma_update_lookup(before, after, k as int, r, t);
                }
                assert forall|t: Seq<char>| #[trigger]
                    global_count(after, t) == global_count(before, t) + if t == creep_type@ {
                        count - count_in_room(before, room, creep_type@)
                    } else {
                        0
                    } by {
                    lemma_global_count_update(before, k as int, after[k as int], t);
                }
            }
        },
        None => {
            counts.push(CreepCount { room, creep_type, count });
            proof {
                let after = counts@;
                assert forall|i: int, j: int| 0 <= i < j < after.len() implies !((
                #[trigger] after[i]).room == (#[trigger] after[j]).room && after[i].creep_type@
                    == after[j].creep_type@) by {
                    if j == before.len() {
                        assert(!counts_for(room, creep_type@)(before[i]));
                    } else {
                        assert(after[i] == before[i] && after[j] == before[j]);
                    }
                }
                assert forall|r: RoomName, t: Seq<char>|
                    true implies #[trigger] count_in_room(after, r, t) == if r == room && t
                        == creep_type@ {
                        count
                    } else {
                        count_in_room(before, r, t)
                    } by {
                    lemma_push_lookup(before, after, r, t);
                }
                assert(after.drop_last() =~= before);
            }
        },
    }
}

/// Changing the count of one entry changes the count of its key and no other.
proof fn lemma_update_lookup(
    before: Seq<CreepCount>,
    after: Seq<CreepCount>,
    k: int,
    r: RoomName,
    t: Seq<char>,
)
    requires
        0 <= k < before.len(),
        after.len() == before.len(),
        forall|i: int|
            0 <= i < before.len() ==> (#[trigger] after[i]).room == before[i].room
                && after[i].creep_type@ == before[i].creep_type@,
        forall|i: int| 0 <= i < before.len() && i != k ==> (#[trigger] after[i]).count == before[i].count,
        first_where(before, counts_for(before[k].room, before[k].creep_type@)) == Some(k),
    ensures
        count_in_room(after, r, t) == if r == before[k].room && t == before[k].creep_type@ {
            after[k].count
        } else {
            count_in_room(before, r, t)
        },
{
    let p = counts_for(r, t);
    crate::utils::lemma_first_where_is_first(before, p);
    match first_where(before, p) {
        Some(i) => {
            assert(p(after[i]));
            assert forall|j: int| 0 <= j < i implies !p(#[trigger] after[j]) by {
                assert(!p(before[j]));
            }
            crate::utils::lemma_first_where_found(after, p, i);
            if r == before[k].room && t == before[k].creep_type@ {
                assert(i == k);
            } else {
                assert(i != k);
            }
        },
        None => {
            assert forall|j: int| 0 <= j < after.len() implies !p(#[trigger] after[j]) by {
                assert(!p(before[j]));
            }
            crate::utils::lemma_first_where_none(after, p);
            assert(!p(before[k]));
        },
    }
}

/// Adding an entry for a key that has none sets the count of that key and
/// of no other.
proof fn lemma_push_lookup(before: Seq<CreepCount>, after: Seq<CreepCount>, r: RoomName, t: Seq<char>)
    requires
        after.len() == before.len() + 1,
        forall|i: int| 0 <= i < before.len() ==> #[trigger] after[i] == before[i],
        first_where(before, counts_for(after.last().room, after.last().creep_type@)) is None,
    ensures
        count_in_room(after, r, t) == if r == after.last().room && t == after.last().creep_type@ {
            after.last().count
        } else {
            count_in_room(before, r, t)
        },
{
    let p = counts_for(r, t);
    crate::utils::lemma_first_where_is_first(before, p);
    match first_where(before, p) {
        Some(i) => {
            assert(p(after[i]));
            assert forall|j: int| 0 <= j < i implies !p(#[trigger] after[j]) by {
                assert(!p(before[j]));
            }
            crate::utils::lemma_first_where_found(after, p, i);
        },
        None => {
            if r == after.last().room && t == after.last().creep_type@ {
                assert(p(after[before.len() as int]));
                assert forall|j: int| 0 <= j < before.len() implies !p(#[trigger] after[j]) by {
                    assert(!p(before[j]));
                }
                crate::utils::lemma_first_where_found(after, p, before.len() as int);
            } else {
                assert forall|j: int| 0 <= j < after.len() implies !p(#[trigger] after[j]) by {
                    if j < before.len() {
                        assert(!p(before[j]));
                    }
                }
                crate::utils::lemma_first_where_none(after, p);
            }
        },
    }
}

/// A goal as a plain value.
pub struct SpawnGoalView {
    pub name: Seq<char>,
    pub body: Seq<Part>,
    pub body_upgrades: Seq<Part>,
    pub max_body_upgrades: u32,
    pub source_modifier: u32,
    pub count: u32,
    pub is_global: bool,
}

impl View for SpawnGoal {
    type V = SpawnGoalView;

    open spec fn view(&self) -> SpawnGoalView {
        SpawnGoalView {
            name: self.name@,
            body: self.body@,
            body_upgrades: self.body_upgrades@,
            max_body_upgrades: self.max_body_upgrades,
            source_modifier: self.source_modifier,
            count: self.count,
            is_global: self.is_global,
        }
    }
}

/// The goals as plain values.
pub open spec fn goal_views(goals: Seq<SpawnGoal>) -> Seq<SpawnGoalView> {
    goals.map_values(|g: SpawnGoal| g@)
}

/// A goal for `count` agents of one room, built from `body` alone.
pub open spec fn plain_goal(name: Seq<char>, body: Seq<Part>, count: u32, is_global: bool) -> SpawnGoalView {
    SpawnGoalView {
        name,
        body,
        body_upgrades: Seq::empty(),
        max_body_upgrades: 0,
        source_modifier: 0,
        count,
        is_global,
    }
}

/// Whether the links beside resource nodes have a link to send to.
pub open spec fn source_links_have_output(room: RoomInfo) -> bool {
    room.links.storage_links@.len() > 0 || room.links.controller_links@.len() > 0
}

/// The free squares around the resource nodes that are worked by hand: all
/// nodes while the links have nowhere to send to, else those without a link.
pub open spec fn hand_worked_squares(sources: Seq<crate::metadata::SourceNode>, has_output: bool) -> nat
    decreases sources.len(),
{
    if sources.len() == 0 {
        0
    } else {
        let info = crate::metadata::SourceInfo::of(sources.last(), None);
        hand_worked_squares(sources.drop_last(), has_output) + if !info.has_link || !has_output {
            info.non_wall_terrain_count as nat
        } else {
            0nat
        }
    }
}

/// The energy held by the links beside the storage.
pub open spec fn storage_link_energy(links: Seq<crate::metadata::StorageLink>) -> nat
    decreases links.len(),
{
    if links.len() == 0 {
        0
    } else {
        storage_link_energy(links.drop_last()) + links.last().0.store.used as nat
    }
}

/// The energy held by the links beside the controller.
pub open spec fn controller_link_energy(links: Seq<crate::metadata::ControllerLink>) -> nat
    decreases links.len(),
{
    if links.len() == 0 {
        0
    } else {
        controller_link_energy(links.drop_last()) + links.last().0.store.used as nat
    }
}

/// Energy the links of a kind must hold before an agent is dedicated to them.
pub const LINK_ENERGY_NEEDED: u128 = 400;

/// Workers wanted for every resource node at most.
pub const WORKERS_PER_SOURCE: u128 = 4;

/// The body of a dedicated harvester.
pub open spec fn harvester_body() -> Seq<Part> {
    seq![
        Part::Move,
        Part::Move,
        Part::Move,
        Part::Carry,
        Part::Carry,
        Part::Carry,
        Part::Work,
        Part::Work,
        Part::Work,
        Part::Work,
        Part::Work,
        Part::Work,
        Part::Work,
        Part::Work,
        Part::Work,
    ]
}

/// The body of a dedicated upgrader without its working parts.
pub open spec fn upgrader_base() -> Seq<Part> {
    seq![Part::Move, Part::Move, Part::Carry, Part::Carry, Part::Carry, Part::Carry]
}

/// Ten working parts.
pub open spec fn ten_work() -> Seq<Part> {
    seq![
        Part::Work,
        Part::Work,
        Part::Work,
        Part::Work,
        Part::Work,
        Part::Work,
        Part::Work,
        Part::Work,
        Part::Work,
        Part::Work,
    ]
}

/// The body of a dedicated storager.
pub open spec fn storager_body() -> Seq<Part> {
    seq![
        Part::Move,
        Part::Move,
        Part::Carry,
        Part::Carry,
        Part::Carry,
        Part::Carry,
        Part::Work,
    ]
}

/// How many workers a room wants: one more than the free squares around
/// the resource nodes worked by hand, and at most four for every node.
pub open spec fn wanted_workers(room: RoomInfo) -> u32 {
    let by_squares = hand_worked_squares(room.sources@, source_links_have_output(room)) + 1;
    let by_sources = room.sources@.len() * WORKERS_PER_SOURCE;
    clamp_u32(
        if by_squares < by_sources {
            by_squares
        } else {
            by_sources as nat
        },
    )
}

/// The goals of a room with a construction source: a dedicated harvester
/// for every link beside a resource node, once those links can send their
/// energy on; a dedicated upgrader for every link beside the controller and
/// a dedicated storager for every link beside a storage, each once the
/// links beside the nodes exist and its own links hold more than 400
/// energy; workers by the free squares around the nodes; no melee agent; and
/// one claimer for all rooms while a claim is on offer.
pub open spec fn spawn_goals_of(room: RoomInfo, claim_task_exists: bool) -> Seq<SpawnGoalView> {
    let source_links = room.links.source_links@.len();
    seq![
        plain_goal(
            "source_harvester"@,
            harvester_body(),
            if source_links_have_output(room) {
                clamp_u32(source_links)
            } else {
                0
            },
            false,
        ),
        plain_goal(
            "upgrader"@,
            upgrader_base() + repeated(ten_work(), source_links),
            if source_links > 0 && controller_link_energy(room.links.controller_links@)
                > LINK_ENERGY_NEEDED {
                clamp_u32(room.links.controller_links@.len())
            } else {
                0
            },
            false,
        ),
        plain_goal(
            "storager"@,
            storager_body(),
            if source_links > 0 && storage_link_energy(room.links.storage_links@)
                > LINK_ENERGY_NEEDED {
                clamp_u32(room.links.storage_links@.len())
            } else {
                0
            },
            false,
        ),
        SpawnGoalView {
            name: "worker"@,
            body: seq![Part::Move, Part::Move, Part::Carry, Part::Work],
            body_upgrades: seq![Part::Move, Part::Carry, Part::Work],
            max_body_upgrades: 4,
            source_modifier: 0,
            count: wanted_workers(room),
            is_global: false,
        },
        plain_goal("melee"@, seq![Part::Move, Part::Move, Part::Attack, Part::Attack], 0, true),
        plain_goal(
            "claimer"@,
            seq![Part::Move, Part::Claim],
            if claim_task_exists {
                1
            } else {
                0
            },
            true,
        ),
    ]
}

/// `n`, or the largest `u32` where `n` is beyond it.
fn clamp_len(n: usize) -> (c: u32)
    ensures
        c == clamp_u32(n as nat),
{
    if n as u128 <= u32::MAX as u128 {
        n as u32
    } else {
        u32::MAX
    }
}

/// `n`, or the largest `u32` where `n` is beyond it.
fn clamp_wide(n: u128) -> (c: u32)
    ensures
        c == clamp_u32(n as nat),
{
    if n <= u32::MAX as u128 {
        n as u32
    } else {
        u32::MAX
    }
}

/// Adds `part` to `body` `times` times.
fn push_times(body: &mut Vec<Part>, part: Part, times: usize)
    ensures
        final(body)@ == old(body)@ + Seq::new(times as nat, |i: int| part),
{
    let mut i: usize = 0;
    while i < times
        invariant
            i <= times,
            body@ == old(body)@ + Seq::new(i as nat, |k: int| part),
        decreases times - i,
    {
        body.push(part);
        proof {
            assert(body@ =~= old(body)@ + Seq::new((i + 1) as nat, |k: int| part));
        }
        i += 1;
    }
}

/// A goal built from `body` alone.
fn plain(name: &str, body: Vec<Part>, count: u32, is_global: bool) -> (goal: SpawnGoal)
    ensures
        goal@ == plain_goal(name@, body@, count, is_global),
{
    SpawnGoal {
        name: String::from_str(name),
        body,
        body_upgrades: Vec::new(),
        max_body_upgrades: 0,
        source_modifier: 0,
        count,
        is_global,
    }
}

/// The goals of `room`, a room with a construction source.
pub fn build_spawn_goals(room: &RoomInfo, claim_task_exists: bool) -> (goals: SpawnGoals)
    ensures
        goal_views(goals@) == spawn_goals_of(*room, claim_task_exists),
{
    let has_output = room.links.storage_links.len() > 0 || room.links.controller_links.len() > 0;
    let source_links = room.links.source_links.len();

    let mut squares: u128 = 0;
    let mut i: usize = 0;
    while i < room.sources.len()
        invariant
            i <= room.sources.len(),
            squares == hand_worked_squares(room.sources@.take(i as int), has_output),
            squares <= 0xffff_ffff * i,
        decreases room.sources.len() - i,
    {
        proof {
            assert(room.sources@.take(i + 1).drop_last() =~= room.sources@.take(i as int));
        }
        let info = crate::metadata::SourceInfo::new(&room.sources[i], None);
        if !info.has_link || !has_output {
            squares = squares + info.non_wall_terrain_count as u128;
        }
        i += 1;
    }
    proof {
        assert(room.sources@.take(i as int) =~= room.sources@);
    }
    let mut controller_energy: u128 = 0;
    let mut c: usize = 0;
    while c < room.links.controller_links.len()
        invariant
            c <= room.links.controller_links.len(),
            controller_energy == controller_link_energy(
                room.links.controller_links@.take(c as int),
            ),
            controller_energy <= 0xffff_ffff * c,
        decreases room.links.controller_links.len() - c,
    {
        proof {
            assert(room.links.controller_links@.take(c + 1).drop_last()
                =~= room.links.controller_links@.take(c as int));
        }
        controller_energy = controller_energy + room.links.controller_links[c].0.store.used as u128;
        c += 1;
    }
    proof {
        assert(room.links.controller_links@.take(c as int) =~= room.links.controller_links@);
    }
    let mut storage_energy: u128 = 0;
    let mut t: usize = 0;
    while t < room.links.storage_links.len()
        invariant
            t <= room.links.storage_links.len(),
            storage_energy == storage_link_energy(room.links.storage_links@.take(t as int)),
            storage_energy <= 0xffff_ffff * t,
        decreases room.links.storage_links.len() - t,
    {
        proof {
            assert(room.links.storage_links@.take(t + 1).drop_last()
                =~= room.links.storage_links@.take(t as int));
        }
        storage_energy = storage_energy + room.links.storage_links[t].0.store.used as u128;
        t += 1;
    }
    proof {
        assert(room.links.storage_links@.take(t as int) =~= room.links.storage_links@);
    }

    let mut goals: Vec<SpawnGoal> = Vec::new();

    let mut harvester: Vec<Part> = Vec::new();
    push_times(&mut harvester, Part::Move, 3);
    push_times(&mut harvester, Part::Carry, 3);
    push_times(&mut harvester, Part::Work, 9);
    proof {
        assert(harvester@ =~= harvester_body());
    }
    goals.push(
        plain(
            "source_harvester",
            harvester,
            if has_output {
                clamp_len(source_links)
            } else {
                0
            },
            false,
        ),
    );

    let mut upgrader: Vec<Part> = Vec::new();
    push_times(&mut upgrader, Part::Move, 2);
    push_times(&mut upgrader, Part::Carry, 4);
    proof {
        assert(upgrader@ =~= upgrader_base());
    }
    let mut n: usize = 0;
    while n < source_links
        invariant
            n <= source_links,
            upgrader@ == upgrader_base() + repeated(ten_work(), n as nat),
        decreases source_links - n,
    {
        let ghost before = upgrader@;
        push_times(&mut upgrader, Part::Work, 10);
        proof {
            assert(Seq::new(10, |i: int| Part::Work) =~= ten_work());
            assert(upgrader@ =~= upgrader_base() + repeated(ten_work(), (n + 1) as nat));
        }
        n += 1;
    }
    goals.push(
        plain(
            "upgrader",
            upgrader,
            if source_links > 0 && controller_energy > LINK_ENERGY_NEEDED {
                clamp_len(room.links.controller_links.len())
            } else {
                0
            },
            false,
        ),
    );

    let mut storager: Vec<Part> = Vec::new();
    push_times(&mut storager, Part::Move, 2);
    push_times(&mut storager, Part::Carry, 4);
    push_times(&mut storager, Part::Work, 1);
    proof {
        assert(storager@ =~= storager_body());
    }
    goals.push(
        plain(
            "storager",
            storager,
            if source_links > 0 && storage_energy > LINK_ENERGY_NEEDED {
                clamp_len(room.links.storage_links.len())
            } else {
                0
            },
            false,
        ),
    );

    let mut worker: Vec<Part> = Vec::new();
    push_times(&mut worker, Part::Move, 2);
    worker.push(Part::Carry);
    worker.push(Part::Work);
    let mut worker_upgrades: Vec<Part> = Vec::new();
    worker_upgrades.push(Part::Move);
    worker_upgrades.push(Part::Carry);
    worker_upgrades.push(Part::Work);
    let by_squares: u128 = squares + 1;
    let by_sources: u128 = room.sources.len() as u128 * WORKERS_PER_SOURCE;
    let workers = clamp_wide(
        if by_squares < by_sources {
            by_squares
        } else {
            by_sources
        },
    );
    proof {
        assert(worker@ =~= seq![Part::Move, Part::Move, Part::Carry, Part::Work]);
        assert(worker_upgrades@ =~= seq![Part::Move, Part::Carry, Part::Work]);
    }
    goals.push(
        SpawnGoal {
            name: String::from_str("worker"),
            body: worker,
            body_upgrades: worker_upgrades,
            max_body_upgrades: 4,
            source_modifier: 0,
            count: workers,
            is_global: false,
        },
    );

    let mut melee: Vec<Part> = Vec::new();
    push_times(&mut melee, Part::Move, 2);
    push_times(&mut melee, Part::Attack, 2);
    proof {
        assert(melee@ =~= seq![Part::Move, Part::Move, Part::Attack, Part::Attack]);
    }
    goals.push(plain("melee", melee, 0, true));

    let mut claimer: Vec<Part> = Vec::new();
    claimer.push(Part::Move);
    claimer.push(Part::Claim);
    proof {
        assert(claimer@ =~= seq![Part::Move, Part::Claim]);
    }
    goals.push(
        plain(
            "claimer",
            claimer,
            if claim_task_exists {
                1
            } else {
                0
            },
            true,
        ),
    );
    proof {
        assert(goal_views(goals@) =~= spawn_goals_of(*room, claim_task_exists));
    }
    goals
}

} // verus!
