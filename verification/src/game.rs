//! Plain descriptors of the things the game shows each tick: body parts,
//! object ids, action results, stores and live objects.

use crate::position::Position;
use vstd::prelude::*;

verus! {

/// One unit of an agent's body. A body part is a capability.
#[derive(Clone, Copy, Debug, PartialEq, Eq, Hash, Structural)]
pub enum Part {
    Move,
    Work,
    Carry,
    Attack,
    RangedAttack,
    Tough,
    Heal,
    Claim,
}

/// Calls `screeps::Part::cost`: the energy one body part costs to build.
#[verifier::external_body]
fn part_cost(part: Part) -> (c: u32)
    ensures
        c == part.cost_spec(),
{
    let outside = match part {
        Part::Move => screeps::Part::Move,
        Part::Work => screeps::Part::Work,
        Part::Carry => screeps::Part::Carry,
        Part::Attack => screeps::Part::Attack,
        Part::RangedAttack => screeps::Part::RangedAttack,
        Part::Tough => screeps::Part::Tough,
        Part::Heal => screeps::Part::Heal,
        Part::Claim => screeps::Part::Claim,
    };
    outside.cost()
}

impl Part {
    /// Energy needed to build this part.
    pub open spec fn cost_spec(self) -> u32 {
        match self {
            Part::Move => 50,
            Part::Work => 100,
            Part::Carry => 50,
            Part::Attack => 80,
            Part::RangedAttack => 150,
            Part::Tough => 10,
            Part::Heal => 250,
            Part::Claim => 600,
        }
    }

    /// Energy needed to build this part.
    pub fn cost(self) -> (c: u32)
        ensures
            c == self.cost_spec(),
            c <= 600,
    {
        part_cost(self)
    }
}

/// Whether `part` occurs in `body`.
pub fn body_has(body: &Vec<Part>, part: Part) -> (found: bool)
    ensures
        found == body@.contains(part),
{
    let mut i: usize = 0;
    while i < body.len()
        invariant
            i <= body.len(),
            forall|j: int| 0 <= j < i ==> body@[j] != part,
        decreases body.len() - i,
    {
        if body[i] == part {
            return true;
        }
        i += 1;
    }
    false
}

/// Identity of a live object, as the game packs it.
#[derive(Clone, Copy, Debug, PartialEq, Eq, Hash, Structural)]
pub struct ObjectId {
    pub packed: u128,
}

/// Why the world refused an action.
#[derive(Clone, Copy, Debug, PartialEq, Eq, Hash, Structural)]
pub enum ErrorCode {
    NotOwner,
    NoPath,
    NameExists,
    Busy,
    NotFound,
    NotEnough,
    InvalidTarget,
    Full,
    NotInRange,
    InvalidArgs,
    Tired,
    NoBodypart,
    RclNotEnough,
    GclNotEnough,
    AccessDenied,
}

/// Energy held by an agent or a structure.
#[derive(Clone, Copy, Debug, PartialEq, Eq, Hash, Structural)]
pub struct Store {
    pub used: u32,
    pub free: i32,
    pub capacity: u32,
}

/// Kind of a structure.
#[derive(Clone, Copy, Debug, PartialEq, Eq, Hash, Structural)]
pub enum StructureType {
    Spawn,
    Extension,
    Road,
    Wall,
    Rampart,
    Link,
    Storage,
    Tower,
    Container,
    Controller,
    Other,
}

/// What a task's target looks like this tick.
#[derive(Clone, Copy, Debug, PartialEq, Eq, Hash, Structural)]
pub struct GameObject {
    pub id: ObjectId,
    pub pos: Position,
    pub hits: u32,
    pub hits_max: u32,
    /// Energy in the object's store; for a resource node, the energy left in it.
    pub store: Store,
}

/// An agent under the colony's control, as it is this tick.
#[derive(Clone, Debug)]
pub struct CreepInfo {
    pub id: ObjectId,
    /// Creation tag: the archetype, a hyphen, and what makes the name unique.
    pub name: String,
    pub pos: Position,
    pub body: Vec<Part>,
    pub store: Store,
    pub ticks_to_live: Option<u32>,
}

} // verus!
