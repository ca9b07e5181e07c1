//! Room names and positions, in the packed form the game uses, with the
//! distance functions of the `screeps` crate behind contracts.

use vstd::prelude::*;

verus! {

/// Name of a room. The high byte counts rooms eastwards and the low byte
/// southwards, each shifted by 128 so that western and northern rooms fit.
#[derive(Clone, Copy, Debug, PartialEq, Eq, Hash, Structural)]
pub struct RoomName {
    pub packed: u16,
}

/// What `screeps::RoomName::new` makes of a name: the packed room name where
/// the text is one, `None` where it is not.
pub uninterp spec fn parsed_room_name(name: Seq<char>) -> Option<u16>;

/// Calls `screeps::RoomName::new`. The result is the name `parsed_room_name`
/// gives to the text. A minus sign is kept out: the crate negates the number
/// it reads, which has no result for the smallest `i32`.
#[verifier::external_body]
fn parse_room_name(name: &str) -> (r: Option<RoomName>)
    requires
        !name@.contains('-'),
    ensures
        r == match parsed_room_name(name@) {
            Some(packed) => Some(RoomName { packed }),
            None => None,
        },
{
    match screeps::RoomName::new(name) {
        Ok(room) => Some(RoomName { packed: room.packed_repr() }),
        Err(_) => None,
    }
}

/// Whether `c` occurs in `s`.
pub fn str_contains_char(s: &str, c: char) -> (found: bool)
    ensures
        found == s@.contains(c),
{
    let n = s.unicode_len();
    let mut i: usize = 0;
    while i < n
        invariant
            n == s@.len(),
            i <= n,
            forall|j: int| 0 <= j < i ==> s@[j] != c,
        decreases n - i,
    {
        if s.get_char(i) == c {
            return true;
        }
        i += 1;
    }
    false
}

impl RoomName {
    /// Rooms east of the origin count from 0, rooms west of it from -1 down.
    pub open spec fn x_coord(self) -> int {
        self.packed as int / 256 - 128
    }

    /// Rooms south of the origin count from 0, rooms north of it from -1 down.
    pub open spec fn y_coord(self) -> int {
        self.packed as int % 256 - 128
    }

    /// The room with the packed name `packed`.
    pub fn from_packed(packed: u16) -> (r: RoomName)
        ensures
            r.packed == packed,
    {
        RoomName { packed }
    }

    /// The room that a text names. A text with a minus sign names none; any
    /// other text names the room `parsed_room_name` reads from it.
    pub open spec fn parse_spec(name: Seq<char>) -> Option<RoomName> {
        if name.contains('-') {
            None
        } else {
            match parsed_room_name(name) {
                Some(packed) => Some(RoomName { packed }),
                None => None,
            }
        }
    }

    /// Reads a room name such as `E5N6`.
    pub fn new(name: &str) -> (r: Option<RoomName>)
        ensures
            r == Self::parse_spec(name@),
    {
        if str_contains_char(name, '-') {
            None
        } else {
            parse_room_name(name)
        }
    }
}

/// A square of the world: a room and the coordinates inside it, both below 50.
#[derive(Clone, Copy, Debug, PartialEq, Eq, Hash, Structural)]
pub struct Position {
    packed: u32,
}

/// How far apart two numbers are.
pub open spec fn abs_diff(a: int, b: int) -> int {
    if a >= b {
        a - b
    } else {
        b - a
    }
}

/// The greater of two numbers.
pub open spec fn max_int(a: int, b: int) -> int {
    if a >= b {
        a
    } else {
        b
    }
}

/// Calls `screeps::Position::get_range_to`: the greater of the two
/// differences between the world coordinates of `a` and `b`.
#[verifier::external_body]
fn range_between(a: Position, b: Position) -> (r: u32)
    requires
        a.in_room_bounds(),
        b.in_room_bounds(),
    ensures
        r as int == a.range_to(b),
{
    screeps::Position::from_packed(a.packed).get_range_to(screeps::Position::from_packed(b.packed))
}

/// Calls `screeps::Position::is_near_to`: same room, and neither coordinate
/// differs by more than one.
#[verifier::external_body]
fn near_each_other(a: Position, b: Position) -> (r: bool)
    requires
        a.in_room_bounds(),
        b.in_room_bounds(),
    ensures
        r == a.near(b),
{
    screeps::Position::from_packed(a.packed).is_near_to(screeps::Position::from_packed(b.packed))
}

/// Calls `screeps::Position::in_range_to`: whether the range between `a` and
/// `b` is at most `range`.
#[verifier::external_body]
fn within_range(a: Position, b: Position, range: u32) -> (r: bool)
    requires
        a.in_room_bounds(),
        b.in_room_bounds(),
    ensures
        r == (a.range_to(b) <= range),
{
    screeps::Position::from_packed(a.packed).in_range_to(
        screeps::Position::from_packed(b.packed),
        range,
    )
}

/// The three fields of a packed position can be read back from it.
proof fn lemma_packed_fields(room: int, x: int, y: int)
    requires
        0 <= room < 65536,
        0 <= x < 256,
        0 <= y < 256,
    ensures
        (room * 65536 + x * 256 + y) % 256 == y,
        ((room * 65536 + x * 256 + y) / 256) % 256 == x,
        (room * 65536 + x * 256 + y) / 65536 == room,
{
    let p = room * 65536 + x * 256 + y;
    assert(p == (room * 256 + x) * 256 + y);
    assert(p / 256 == room * 256 + x && p % 256 == y) by {
        vstd::arithmetic::div_mod::lemma_fundamental_div_mod_converse(p, 256, room * 256 + x, y);
    }
    assert((room * 256 + x) % 256 == x) by {
        vstd::arithmetic::div_mod::lemma_fundamental_div_mod_converse(room * 256 + x, 256, room, x);
    }
    assert(p / 65536 == room) by {
        vstd::arithmetic::div_mod::lemma_fundamental_div_mod_converse(p, 65536, room, x * 256 + y);
    }
}

impl Position {
    /// The position as the game packs it.
    pub closed spec fn packed_repr(self) -> u32 {
        self.packed
    }

    /// Horizontal coordinate inside the room.
    pub open spec fn x_spec(self) -> int {
        (self.packed_repr() as int / 256) % 256
    }

    /// Vertical coordinate inside the room.
    pub open spec fn y_spec(self) -> int {
        self.packed_repr() as int % 256
    }

    /// The room of the position.
    pub open spec fn room_spec(self) -> RoomName {
        RoomName { packed: (self.packed_repr() as int / 65536) as u16 }
    }

    /// Both coordinates are below 50.
    pub open spec fn in_room_bounds(self) -> bool {
        self.x_spec() < 50 && self.y_spec() < 50
    }

    #[verifier::type_invariant]
    closed spec fn inv(self) -> bool {
        self.in_room_bounds()
    }

    /// Horizontal coordinate counted over the whole world.
    pub open spec fn world_x(self) -> int {
        self.room_spec().x_coord() * 50 + self.x_spec()
    }

    /// Vertical coordinate counted over the whole world.
    pub open spec fn world_y(self) -> int {
        self.room_spec().y_coord() * 50 + self.y_spec()
    }

    /// Chebyshev distance over world coordinates.
    pub open spec fn range_to(self, other: Position) -> int {
        max_int(
            abs_diff(self.world_x(), other.world_x()),
            abs_diff(self.world_y(), other.world_y()),
        )
    }

    /// In the same room and at most one step away.
    pub open spec fn near(self, other: Position) -> bool {
        &&& self.room_spec() == other.room_spec()
        &&& abs_diff(self.x_spec(), other.x_spec()) <= 1
        &&& abs_diff(self.y_spec(), other.y_spec()) <= 1
    }

    /// The position at `(x, y)` of `room_name`.
    pub closed spec fn at(x: u8, y: u8, room_name: RoomName) -> Position {
        Position { packed: (room_name.packed * 65536 + x * 256 + y) as u32 }
    }

    /// The fields of `at(x, y, room_name)` are `x`, `y` and `room_name`.
    pub proof fn lemma_at_fields(x: u8, y: u8, room_name: RoomName)
        ensures
            Self::at(x, y, room_name).x_spec() == x,
            Self::at(x, y, room_name).y_spec() == y,
            Self::at(x, y, room_name).room_spec() == room_name,
    {
        lemma_packed_fields(room_name.packed as int, x as int, y as int);
    }

    /// The position at `(x, y)` of `room_name`, if both coordinates are below 50.
    pub fn new(x: u8, y: u8, room_name: RoomName) -> (r: Option<Position>)
        ensures
            r == if x < 50 && y < 50 {
                Some(Self::at(x, y, room_name))
            } else {
                None
            },
            r matches Some(p) ==> p.x_spec() == x && p.y_spec() == y && p.room_spec() == room_name
                && p.in_room_bounds(),
    {
        if x < 50 && y < 50 {
            let packed: u32 = (room_name.packed as u32) * 65536 + (x as u32) * 256 + (y as u32);
            proof {
                lemma_packed_fields(room_name.packed as int, x as int, y as int);
            }
            Some(Position { packed })
        } else {
            None
        }
    }

    /// Horizontal coordinate inside the room.
    pub fn x(self) -> (r: u8)
        ensures
            r == self.x_spec(),
            r < 50,
    {
        proof {
            use_type_invariant(&self);
        }
        ((self.packed / 256) % 256) as u8
    }

    /// Vertical coordinate inside the room.
    pub fn y(self) -> (r: u8)
        ensures
            r == self.y_spec(),
            r < 50,
    {
        proof {
            use_type_invariant(&self);
        }
        (self.packed % 256) as u8
    }

    /// The room of the position.
    pub fn room_name(self) -> (r: RoomName)
        ensures
            r == self.room_spec(),
    {
        RoomName { packed: (self.packed / 65536) as u16 }
    }

    /// The range to `target`, counted over the whole world.
    pub fn get_range_to(self, target: Position) -> (r: u32)
        ensures
            r as int == self.range_to(target),
    {
        proof {
            use_type_invariant(&self);
            use_type_invariant(&target);
        }
        range_between(self, target)
    }

    /// Whether `target` is at most `range` away.
    pub fn in_range_to(self, target: Position, range: u32) -> (r: bool)
        ensures
            r == (self.range_to(target) <= range),
    {
        proof {
            use_type_invariant(&self);
            use_type_invariant(&target);
        }
        within_range(self, target, range)
    }

    /// Whether `target` is in the same room and at most one step away.
    pub fn is_near_to(self, target: Position) -> (r: bool)
        ensures
            r == self.near(target),
    {
        proof {
            use_type_invariant(&self);
            use_type_invariant(&target);
        }
        near_each_other(self, target)
    }
}

} // verus!
