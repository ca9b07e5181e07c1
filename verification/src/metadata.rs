//! The world as one tick shows it: rooms with what stands in them, resource
//! nodes with their surroundings, and the relay links sorted by what they serve.

use crate::game::{CreepInfo, GameObject, ObjectId, Store, StructureType};
use crate::position::{Position, RoomName};
use crate::utils::{count_where, first_where, get_creep_type, lemma_count_where_step, str_eq};
use vstd::prelude::*;

verus! {

/// What the ground of a square is made of.
#[derive(Clone, Copy, Debug, PartialEq, Eq, Hash, Structural)]
pub enum Terrain {
    Plain,
    Swamp,
    Wall,
}

/// One thing seen on a square near a resource node.
#[derive(Clone, Debug)]
pub enum LookEntry {
    Terrain(Terrain),
    Creep { id: ObjectId, name: String },
    Structure(StructureType),
    Other,
}

/// A resource node and what was seen around it.
#[derive(Clone, Debug)]
pub struct SourceNode {
    pub id: ObjectId,
    pub pos: Position,
    pub energy: u32,
    /// What stands on the squares at most one step away.
    pub nearby: Vec<LookEntry>,
    /// What stands on the squares at most two steps away.
    pub link_area: Vec<LookEntry>,
}

/// How crowded a resource node is.
#[derive(Clone, Copy, Debug, PartialEq, Eq, Structural)]
pub struct SourceInfo {
    pub non_wall_terrain_count: u32,
    pub nearby_creep_count: u32,
    pub nearby_source_harvester_count: u32,
    pub has_link: bool,
}

/// Holds of ground that is no wall.
pub open spec fn is_open_terrain(entry: LookEntry) -> bool {
    entry matches LookEntry::Terrain(t) && t != Terrain::Wall
}

/// Holds of an agent other than the one left out.
pub open spec fn is_other_creep(entry: LookEntry, ignore: Option<ObjectId>) -> bool {
    entry matches LookEntry::Creep { id, .. } && ignore != Some(id)
}

/// Holds of a dedicated harvester other than the one left out.
pub open spec fn is_other_source_harvester(entry: LookEntry, ignore: Option<ObjectId>) -> bool {
    entry matches LookEntry::Creep { id, name } && ignore != Some(id)
        && crate::utils::creep_type_of(name@) == "source_harvester"@
}

/// Holds of a link.
pub open spec fn is_link(entry: LookEntry) -> bool {
    entry matches LookEntry::Structure(t) && t == StructureType::Link
}

/// `n`, or the largest `u32` where `n` is beyond it.
pub open spec fn clamp_u32(n: nat) -> u32 {
    if n <= u32::MAX {
        n as u32
    } else {
        u32::MAX
    }
}

impl SourceInfo {
    /// What `new` counts around `source`.
    pub open spec fn of(source: SourceNode, ignore_creep: Option<ObjectId>) -> SourceInfo {
        SourceInfo {
            non_wall_terrain_count: clamp_u32(
                count_where(source.nearby@, |e: LookEntry| is_open_terrain(e)),
            ),
            nearby_creep_count: clamp_u32(
                count_where(source.nearby@, |e: LookEntry| is_other_creep(e, ignore_creep)),
            ),
            nearby_source_harvester_count: clamp_u32(
                count_where(
                    source.nearby@,
                    |e: LookEntry| is_other_source_harvester(e, ignore_creep),
                ),
            ),
            has_link: count_where(source.link_area@, |e: LookEntry| is_link(e)) > 0,
        }
    }

    /// Counts what surrounds `source`, leaving the agent `ignore_creep` out:
    /// the squares that are no wall, the agents, and the dedicated harvesters
    /// among them, all at most one step away; and whether a link stands at
    /// most two steps away.
    pub fn new(source: &SourceNode, ignore_creep: Option<ObjectId>) -> (info: SourceInfo)
        ensures
            info == Self::of(*source, ignore_creep),
    {
        let ghost open = |e: LookEntry| is_open_terrain(e);
        let ghost other = |e: LookEntry| is_other_creep(e, ignore_creep);
        let ghost harvester = |e: LookEntry| is_other_source_harvester(e, ignore_creep);
        let ghost link = |e: LookEntry| is_link(e);
        let mut non_wall_terrain_count: u32 = 0;
        let mut nearby_creep_count: u32 = 0;
        let mut nearby_source_harvester_count: u32 = 0;
        let mut i: usize = 0;
        while i < source.nearby.len()
            invariant
                i <= source.nearby.len(),
                non_wall_terrain_count == clamp_u32(
                    count_where(source.nearby@.take(i as int), open),
                ),
                nearby_creep_count == clamp_u32(count_where(source.nearby@.take(i as int), other)),
                nearby_source_harvester_count == clamp_u32(
                    count_where(source.nearby@.take(i as int), harvester),
                ),
                open == |e: LookEntry| is_open_terrain(e),
                other == |e: LookEntry| is_other_creep(e, ignore_creep),
                harvester == |e: LookEntry| is_other_source_harvester(e, ignore_creep),
            decreases source.nearby.len() - i,
        {
            proof {
                lemma_count_where_step(source.nearby@, open, i as int);
                lemma_count_where_step(source.nearby@, other, i as int);
                lemma_count_where_step(source.nearby@, harvester, i as int);
            }
            match &source.nearby[i] {
                LookEntry::Terrain(t) => {
                    if *t != Terrain::Wall {
                        non_wall_terrain_count = non_wall_terrain_count.saturating_add(1);
                    }
                },
                LookEntry::Creep { id, name } => {
                    let ignored = match ignore_creep {
                        Some(other_id) => other_id == *id,
                        None => false,
                    };
                    if !ignored {
                        nearby_creep_count = nearby_creep_count.saturating_add(1);
                        let creep_type = get_creep_type(name.as_str());
                        if str_eq(creep_type.as_str(), "source_harvester") {
                            nearby_source_harvester_count =
                            nearby_source_harvester_count.saturating_add(1);
                        }
                    }
                },
                _ => {},
            }
            i += 1;
        }
        let mut has_link = false;
        let mut j: usize = 0;
        while j < source.link_area.len()
            invariant
                j <= source.link_area.len(),
                has_link == (count_where(source.link_area@.take(j as int), link) > 0),
                link == |e: LookEntry| is_link(e),
            decreases source.link_area.len() - j,
        {
            proof {
                lemma_count_where_step(source.link_area@, link, j as int);
            }
            match &source.link_area[j] {
                LookEntry::Structure(t) => {
                    if *t == StructureType::Link {
                        has_link = true;
                    }
                },
                _ => {},
            }
            j += 1;
        }
        proof {
            assert(source.nearby@.take(i as int) =~= source.nearby@);
            assert(source.link_area@.take(j as int) =~= source.link_area@);
        }
        SourceInfo {
            non_wall_terrain_count,
            nearby_creep_count,
            nearby_source_harvester_count,
            has_link,
        }
    }
}

/// A structure as it stands this tick.
#[derive(Clone, Copy, Debug, PartialEq, Eq, Structural)]
pub struct StructureInfo {
    pub id: ObjectId,
    pub structure_type: StructureType,
    pub pos: Position,
    pub hits: u32,
    pub hits_max: u32,
    pub active: bool,
    pub store: Store,
    pub cooldown: u32,
}

/// The controlling structure of a room.
#[derive(Clone, Copy, Debug, PartialEq, Eq, Structural)]
pub struct ControllerInfo {
    pub id: ObjectId,
    pub pos: Position,
    /// Owned by this colony.
    pub my: bool,
    /// Owned by anyone.
    pub owned: bool,
    /// Reserved by anyone.
    pub reserved: bool,
    pub active: bool,
    pub level: u8,
    pub ticks_to_downgrade: u32,
}

/// A link beside a resource node, with that node.
#[derive(Clone, Copy, Debug, PartialEq, Eq, Structural)]
pub struct SourceLink(pub StructureInfo, pub GameObject);

/// A link beside a storage, with that storage.
#[derive(Clone, Copy, Debug, PartialEq, Eq, Structural)]
pub struct StorageLink(pub StructureInfo, pub StructureInfo);

/// A link beside the controller, with the controller.
#[derive(Clone, Copy, Debug, PartialEq, Eq, Structural)]
pub struct ControllerLink(pub StructureInfo, pub ControllerInfo);

/// A link that serves nothing known.
#[derive(Clone, Copy, Debug, PartialEq, Eq, Structural)]
pub struct UnknownLink(pub StructureInfo);

/// The links of a room, sorted by what they stand beside.
#[derive(Clone, Debug)]
pub struct LinkTypeMap {
    pub source_links: Vec<SourceLink>,
    pub storage_links: Vec<StorageLink>,
    pub controller_links: Vec<ControllerLink>,
    pub unknown_links: Vec<UnknownLink>,
}

/// What a link serves.
pub enum LinkClass {
    /// The resource node at this index of the room's nodes.
    Source(int),
    Controller,
    /// The storage at this index of the colony's structures in the room.
    Storage(int),
    Unknown,
}

/// The resource node as a target: where it stands and the energy left in it.
pub open spec fn source_as_object(source: SourceNode) -> GameObject {
    GameObject {
        id: source.id,
        pos: source.pos,
        hits: 0,
        hits_max: 0,
        store: Store { used: source.energy, free: 0, capacity: 0 },
    }
}

/// What `link` serves: the first resource node within two steps; failing
/// that, the controller if it is within two steps; failing that, the first
/// storage within two steps.
pub open spec fn link_class(
    link: StructureInfo,
    sources: Seq<SourceNode>,
    controller: ControllerInfo,
    my_structures: Seq<StructureInfo>,
) -> LinkClass {
    let source = first_where(sources, |s: SourceNode| link.pos.range_to(s.pos) <= 2);
    let storage = first_where(
        my_structures,
        |s: StructureInfo|
            s.structure_type == StructureType::Storage && link.pos.range_to(s.pos) <= 2,
    );
    if source is Some {
        LinkClass::Source(source->0)
    } else if link.pos.range_to(controller.pos) <= 2 {
        LinkClass::Controller
    } else if storage is Some {
        LinkClass::Storage(storage->0)
    } else {
        LinkClass::Unknown
    }
}

/// The links among `candidates` that serve a resource node, in order.
pub open spec fn source_links_of(
    candidates: Seq<StructureInfo>,
    sources: Seq<SourceNode>,
    controller: ControllerInfo,
    my_structures: Seq<StructureInfo>,
) -> Seq<SourceLink>
    decreases candidates.len(),
{
    if candidates.len() == 0 {
        Seq::empty()
    } else {
        let rest = source_links_of(candidates.drop_last(), sources, controller, my_structures);
        let link = candidates.last();
        if link.structure_type == StructureType::Link {
            match link_class(link, sources, controller, my_structures) {
                LinkClass::Source(i) => rest.push(SourceLink(link, source_as_object(sources[i]))),
                _ => rest,
            }
        } else {
            rest
        }
    }
}

/// The links among `candidates` that serve the controller, in order.
pub open spec fn controller_links_of(
    candidates: Seq<StructureInfo>,
    sources: Seq<SourceNode>,
    controller: ControllerInfo,
    my_structures: Seq<StructureInfo>,
) -> Seq<ControllerLink>
    decreases candidates.len(),
{
    if candidates.len() == 0 {
        Seq::empty()
    } else {
        let rest = controller_links_of(
            candidates.drop_last(),
            sources,
            controller,
            my_structures,
        );
        let link = candidates.last();
        if link.structure_type == StructureType::Link {
            match link_class(link, sources, controller, my_structures) {
                LinkClass::Controller => rest.push(ControllerLink(link, controller)),
                _ => rest,
            }
        } else {
            rest
        }
    }
}

/// The links among `candidates` that serve a storage, in order.
pub open spec fn storage_links_of(
    candidates: Seq<StructureInfo>,
    sources: Seq<SourceNode>,
    controller: ControllerInfo,
    my_structures: Seq<StructureInfo>,
) -> Seq<StorageLink>
    decreases candidates.len(),
{
    if candidates.len() == 0 {
        Seq::empty()
    } else {
        let rest = storage_links_of(candidates.drop_last(), sources, controller, my_structures);
        let link = candidates.last();
        if link.structure_type == StructureType::Link {
            match link_class(link, sources, controller, my_structures) {
                LinkClass::Storage(i) => rest.push(StorageLink(link, my_structures[i])),
                _ => rest,
            }
        } else {
            rest
        }
    }
}

/// The links among `candidates` that serve nothing known, in order.
pub open spec fn unknown_links_of(
    candidates: Seq<StructureInfo>,
    sources: Seq<SourceNode>,
    controller: ControllerInfo,
    my_structures: Seq<StructureInfo>,
) -> Seq<UnknownLink>
    decreases candidates.len(),
{
    if candidates.len() == 0 {
        Seq::empty()
    } else {
        let rest = unknown_links_of(candidates.drop_last(), sources, controller, my_structures);
        let link = candidates.last();
        if link.structure_type == StructureType::Link {
            match link_class(link, sources, controller, my_structures) {
                LinkClass::Unknown => rest.push(UnknownLink(link)),
                _ => rest,
            }
        } else {
            rest
        }
    }
}

impl LinkTypeMap {
    /// No link is sorted.
    pub open spec fn is_empty(self) -> bool {
        &&& self.source_links@.len() == 0
        &&& self.storage_links@.len() == 0
        &&& self.controller_links@.len() == 0
        &&& self.unknown_links@.len() == 0
    }

    /// Whether this is the sorting of the links among `my_structures`: every
    /// link in the list of what it serves, in order. A room without a
    /// controller has no sorted links at all.
    pub open spec fn sorts(
        self,
        my_structures: Seq<StructureInfo>,
        sources: Seq<SourceNode>,
        controller: Option<ControllerInfo>,
    ) -> bool {
        &&& controller is None ==> self.is_empty()
        &&& controller matches Some(c) ==> {
            &&& self.source_links@ == source_links_of(my_structures, sources, c, my_structures)
            &&& self.controller_links@ == controller_links_of(
                my_structures,
                sources,
                c,
                my_structures,
            )
            &&& self.storage_links@ == storage_links_of(my_structures, sources, c, my_structures)
            &&& self.unknown_links@ == unknown_links_of(my_structures, sources, c, my_structures)
        }
    }

    /// Sorts the links among `my_structures` by what they stand beside.
    pub fn new(
        my_structures: &Vec<StructureInfo>,
        sources: &Vec<SourceNode>,
        controller: Option<ControllerInfo>,
    ) -> (map: LinkTypeMap)
        ensures
            map.sorts(my_structures@, sources@, controller),
    {
        let mut map = LinkTypeMap {
            source_links: Vec::new(),
            storage_links: Vec::new(),
            controller_links: Vec::new(),
            unknown_links: Vec::new(),
        };
        let controller = match controller {
            Some(c) => c,
            None => {
                return map;
            },
        };
        let mut i: usize = 0;
        while i < my_structures.len()
            invariant
                i <= my_structures.len(),
                map.source_links@ == source_links_of(
                    my_structures@.take(i as int),
                    sources@,
                    controller,
                    my_structures@,
                ),
                map.controller_links@ == controller_links_of(
                    my_structures@.take(i as int),
                    sources@,
                    controller,
                    my_structures@,
                ),
                map.storage_links@ == storage_links_of(
                    my_structures@.take(i as int),
                    sources@,
                    controller,
                    my_structures@,
                ),
                map.unknown_links@ == unknown_links_of(
                    my_structures@.take(i as int),
                    sources@,
                    controller,
                    my_structures@,
                ),
            decreases my_structures.len() - i,
        {
            let link = my_structures[i];
            proof {
                assert(my_structures@.take(i + 1).drop_last() =~= my_structures@.take(i as int));
                assert(my_structures@.take(i + 1).last() == link);
            }
            if link.structure_type == StructureType::Link {
                match first_source_in_range(link.pos, sources) {
                    Some(s) => {
                        map.source_links.push(SourceLink(link, as_object(&sources[s])));
                    },
                    None => {
                        if link.pos.in_range_to(controller.pos, 2) {
                            map.controller_links.push(ControllerLink(link, controller));
                        } else {
                            match first_storage_in_range(link.pos, my_structures) {
                                Some(s) => {
                                    map.storage_links.push(StorageLink(link, my_structures[s]));
                                },
                                None => {
                                    map.unknown_links.push(UnknownLink(link));
                                },
                            }
                        }
                    },
                }
            }
            i += 1;
        }
        proof {
            assert(my_structures@.take(i as int) =~= my_structures@);
        }
        map
    }
}

/// A room the colony can see this tick.
#[derive(Clone, Debug)]
pub struct RoomInfo {
    pub name: RoomName,
    pub sources: Vec<SourceNode>,
    /// Every structure in the room.
    pub structures: Vec<StructureInfo>,
    /// The structures of the colony.
    pub my_structures: Vec<StructureInfo>,
    /// The construction sources of the colony.
    pub my_spawns: Vec<StructureInfo>,
    pub construction_sites: Vec<GameObject>,
    pub hostile_creeps: Vec<GameObject>,
    pub controller: Option<ControllerInfo>,
    /// Construction resource that can be spent in this room.
    pub energy_available: u32,
    pub links: LinkTypeMap,
}

impl RoomInfo {
    /// A room from what was found in it, with its links sorted.
    pub fn new(
        name: RoomName,
        sources: Vec<SourceNode>,
        structures: Vec<StructureInfo>,
        my_structures: Vec<StructureInfo>,
        my_spawns: Vec<StructureInfo>,
        construction_sites: Vec<GameObject>,
        hostile_creeps: Vec<GameObject>,
        controller: Option<ControllerInfo>,
        energy_available: u32,
    ) -> (room: RoomInfo)
        ensures
            room.name == name,
            room.sources == sources,
            room.structures == structures,
            room.my_structures == my_structures,
            room.my_spawns == my_spawns,
            room.construction_sites == construction_sites,
            room.hostile_creeps == hostile_creeps,
            room.controller == controller,
            room.energy_available == energy_available,
            room.links_are_sorted(),
    {
        let links = LinkTypeMap::new(&my_structures, &sources, controller);
        RoomInfo {
            name,
            sources,
            structures,
            my_structures,
            my_spawns,
            construction_sites,
            hostile_creeps,
            controller,
            energy_available,
            links,
        }
    }

    /// `links` is what `LinkTypeMap::new` makes of this room.
    pub open spec fn links_are_sorted(self) -> bool {
        self.links.sorts(self.my_structures@, self.sources@, self.controller)
    }

    /// Whether the room's controller belongs to the colony.
    pub open spec fn is_mine_spec(self) -> bool {
        self.controller matches Some(c) && c.my
    }

    /// Whether the room's controller belongs to the colony.
    pub fn is_mine(&self) -> (mine: bool)
        ensures
            mine == self.is_mine_spec(),
    {
        match self.controller {
            Some(c) => c.my,
            None => false,
        }
    }
}

/// A directive marker placed by the operator.
#[derive(Clone, Debug)]
pub struct FlagInfo {
    pub name: String,
    pub pos: Position,
}

/// A construction source of the colony.
#[derive(Clone, Copy, Debug, PartialEq, Eq, Structural)]
pub struct SpawnInfo {
    pub id: ObjectId,
    pub room: RoomName,
    /// Busy building an agent.
    pub spawning: bool,
    pub store: Store,
}

/// Everything the colony sees this tick.
#[derive(Clone, Debug)]
pub struct World {
    pub time: u32,
    /// The construction sources of the colony.
    pub spawns: Vec<SpawnInfo>,
    /// The agents of the colony.
    pub creeps: Vec<CreepInfo>,
    /// Every object a task may point at, by id.
    pub objects: Vec<GameObject>,
    pub rooms: Vec<RoomInfo>,
    pub flags: Vec<FlagInfo>,
}

impl World {
    /// The object with the id `id`, if it is still there.
    pub open spec fn resolve_spec(self, id: ObjectId) -> Option<GameObject> {
        match first_where(self.objects@, |o: GameObject| o.id == id) {
            Some(i) => Some(self.objects@[i]),
            None => None,
        }
    }

    /// Index of the agent with the id `id`, if it is alive.
    pub open spec fn creep_index(self, id: ObjectId) -> Option<int> {
        first_where(self.creeps@, |c: CreepInfo| c.id == id)
    }

    /// Index of the room named `name`, if it is visible.
    pub open spec fn room_index(self, name: RoomName) -> Option<int> {
        first_where(self.rooms@, |r: RoomInfo| r.name == name)
    }

    /// The object with the id `id`, if it is still there.
    pub fn resolve(&self, id: ObjectId) -> (found: Option<GameObject>)
        ensures
            found == self.resolve_spec(id),
    {
        let ghost p = |o: GameObject| o.id == id;
        let mut i: usize = 0;
        while i < self.objects.len()
            invariant
                i <= self.objects.len(),
                forall|j: int| 0 <= j < i ==> !p(#[trigger] self.objects@[j]),
                p == |o: GameObject| o.id == id,
            decreases self.objects.len() - i,
        {
            if self.objects[i].id == id {
                proof {
                    crate::utils::lemma_first_where_found(self.objects@, p, i as int);
                }
                return Some(self.objects[i]);
            }
            i += 1;
        }
        proof {
            crate::utils::lemma_first_where_none(self.objects@, p);
        }
        None
    }

    /// Index of the agent with the id `id`, if it is alive.
    pub fn find_creep(&self, id: ObjectId) -> (found: Option<usize>)
        ensures
            found matches Some(i) ==> self.creep_index(id) == Some(i as int) && i
                < self.creeps.len() && self.creeps@[i as int].id == id,
            found is None ==> self.creep_index(id) is None,
    {
        let ghost p = |c: CreepInfo| c.id == id;
        let mut i: usize = 0;
        while i < self.creeps.len()
            invariant
                i <= self.creeps.len(),
                forall|j: int| 0 <= j < i ==> !p(#[trigger] self.creeps@[j]),
                p == |c: CreepInfo| c.id == id,
            decreases self.creeps.len() - i,
        {
            if self.creeps[i].id == id {
                proof {
                    crate::utils::lemma_first_where_found(self.creeps@, p, i as int);
                }
                return Some(i);
            }
            i += 1;
        }
        proof {
            crate::utils::lemma_first_where_none(self.creeps@, p);
        }
        None
    }

    /// Index of the room named `name`, if it is visible.
    pub fn find_room(&self, name: RoomName) -> (found: Option<usize>)
        ensures
            found matches Some(i) ==> self.room_index(name) == Some(i as int) && i
                < self.rooms.len() && self.rooms@[i as int].name == name,
            found is None ==> self.room_index(name) is None,
    {
        let ghost p = |r: RoomInfo| r.name == name;
        let mut i: usize = 0;
        while i < self.rooms.len()
            invariant
                i <= self.rooms.len(),
                forall|j: int| 0 <= j < i ==> !p(#[trigger] self.rooms@[j]),
                p == |r: RoomInfo| r.name == name,
            decreases self.rooms.len() - i,
        {
            if self.rooms[i].name == name {
                proof {
                    crate::utils::lemma_first_where_found(self.rooms@, p, i as int);
                }
                return Some(i);
            }
            i += 1;
        }
        proof {
            crate::utils::lemma_first_where_none(self.rooms@, p);
        }
        None
    }
}

/// The resource node as a target.
pub fn as_object(source: &SourceNode) -> (object: GameObject)
    ensures
        object == source_as_object(*source),
{
    GameObject {
        id: source.id,
        pos: source.pos,
        hits: 0,
        hits_max: 0,
        store: Store { used: source.energy, free: 0, capacity: 0 },
    }
}

/// Index of the first resource node within two steps of `pos`.
fn first_source_in_range(pos: Position, sources: &Vec<SourceNode>) -> (r: Option<usize>)
    ensures
        r matches Some(i) ==> first_where(sources@, |s: SourceNode| pos.range_to(s.pos) <= 2)
            == Some(i as int) && i < sources.len(),
        r is None ==> first_where(sources@, |s: SourceNode| pos.range_to(s.pos) <= 2) is None,
{
    let ghost p = |s: SourceNode| pos.range_to(s.pos) <= 2;
    let mut i: usize = 0;
    while i < sources.len()
        invariant
            i <= sources.len(),
            forall|j: int| 0 <= j < i ==> !p(#[trigger] sources@[j]),
            p == |s: SourceNode| pos.range_to(s.pos) <= 2,
        decreases sources.len() - i,
    {
        if pos.in_range_to(sources[i].pos, 2) {
            proof {
                crate::utils::lemma_first_where_found(sources@, p, i as int);
            }
            return Some(i);
        }
        i += 1;
    }
    proof {
        crate::utils::lemma_first_where_none(sources@, p);
    }
    None
}

/// Index of the first storage within two steps of `pos`.
fn first_storage_in_range(pos: Position, structures: &Vec<StructureInfo>) -> (r: Option<usize>)
    ensures
        r matches Some(i) ==> first_where(
            structures@,
            |s: StructureInfo|
                s.structure_type == StructureType::Storage && pos.range_to(s.pos) <= 2,
        ) == Some(i as int) && i < structures.len(),
        r is None ==> first_where(
            structures@,
            |s: StructureInfo|
                s.structure_type == StructureType::Storage && pos.range_to(s.pos) <= 2,
        ) is None,
{
    let ghost p = |s: StructureInfo|
        s.structure_type == StructureType::Storage && pos.range_to(s.pos) <= 2;
    let mut i: usize = 0;
    while i < structures.len()
        invariant
            i <= structures.len(),
            forall|j: int| 0 <= j < i ==> !p(#[trigger] structures@[j]),
            p == |s: StructureInfo|
                s.structure_type == StructureType::Storage && pos.range_to(s.pos) <= 2,
        decreases structures.len() - i,
    {
        if structures[i].structure_type == StructureType::Storage && pos.in_range_to(
            structures[i].pos,
            2,
        ) {
            proof {
                crate::utils::lemma_first_where_found(structures@, p, i as int);
            }
            return Some(i);
        }
        i += 1;
    }
    proof {
        crate::utils::lemma_first_where_none(structures@, p);
    }
    None
}

} // verus!
