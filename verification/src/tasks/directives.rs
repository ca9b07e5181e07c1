//! Chains of tasks asked for by the operator's markers.

use crate::metadata::{FlagInfo, World};
use crate::position::{Position, RoomName};
use crate::tasks::task_list::{lemma_list_views_push, list_views, single_list, TaskList, TaskListView};
use crate::tasks::{ClaimTask, Task};
use crate::utils::first_where;
use vstd::prelude::*;

verus! {

/// Whether the name asks for a room to be claimed.
pub open spec fn is_claim_name(name: Seq<char>) -> bool {
    name.len() >= 5 && name.take(5) == "claim"@
}

/// The part of `name` behind its last colon; all of it if it has none.
pub open spec fn last_segment(name: Seq<char>) -> Seq<char>
    decreases name.len(),
{
    if name.len() == 0 || name.last() == ':' {
        Seq::empty()
    } else {
        last_segment(name.drop_last()).push(name.last())
    }
}

/// A colon-free end of `name` that starts behind a colon, or at the start,
/// is the last segment.
proof fn lemma_last_segment(name: Seq<char>, start: int)
    requires
        0 <= start <= name.len(),
        forall|j: int| start <= j < name.len() ==> name[j] != ':',
        start > 0 ==> name[start - 1] == ':',
    ensures
        last_segment(name) == name.subrange(start, name.len() as int),
    decreases name.len(),
{
    if name.len() == 0 || name.last() == ':' {
        assert(last_segment(name) =~= name.subrange(start, name.len() as int));
    } else {
        lemma_last_segment(name.drop_last(), start);
        assert(name.drop_last().subrange(start, name.len() - 1).push(name.last())
            =~= name.subrange(start, name.len() as int));
    }
}

/// Whether the name asks for a room to be claimed.
fn starts_with_claim(name: &str) -> (r: bool)
    ensures
        r == is_claim_name(name@),
{
    let n = name.unicode_len();
    if n < 5 {
        return false;
    }
    proof {
        reveal_strlit("claim");
    }
    let r = name.get_char(0) == 'c' && name.get_char(1) == 'l' && name.get_char(2) == 'a'
        && name.get_char(3) == 'i' && name.get_char(4) == 'm';
    proof {
        if r {
            assert(name@.take(5) =~= "claim"@);
        } else {
            if name@.take(5) == "claim"@ {
                assert(name@.take(5)[0] == 'c');
                assert(name@.take(5)[1] == 'l');
                assert(name@.take(5)[2] == 'a');
                assert(name@.take(5)[3] == 'i');
                assert(name@.take(5)[4] == 'm');
            }
        }
    }
    r
}

/// The part of `name` behind its last colon.
fn last_segment_of(name: &str) -> (segment: String)
    ensures
        segment@ == last_segment(name@),
{
    let n = name.unicode_len();
    let mut start: usize = n;
    while start > 0 && name.get_char(start - 1) != ':'
        invariant
            n == name@.len(),
            start <= n,
            forall|j: int| start <= j < n ==> name@[j] != ':',
        decreases start,
    {
        start -= 1;
    }
    proof {
        lemma_last_segment(name@, start as int);
    }
    String::from_str(name.substring_char(start, n))
}

/// What a marker asks for.
pub enum Directive {
    /// Nothing that concerns the scheduler.
    Ignore,
    /// The marker is to be taken away: it names no room, or a room that is
    /// owned or reserved already.
    Remove,
    /// The room is to be claimed.
    Claim(RoomName),
}

/// Whether the room is visible with a controller that someone owns or has reserved.
pub open spec fn room_is_taken(world: World, room: RoomName) -> bool {
    &&& world.room_index(room) matches Some(r)
    &&& world.rooms@[r].controller matches Some(c)
    &&& c.owned || c.reserved
}

/// What `flag` asks for: a marker whose name starts with `claim` names,
/// behind its last colon, the room to claim.
pub open spec fn directive_of(flag: FlagInfo, world: World) -> Directive {
    if !is_claim_name(flag.name@) {
        Directive::Ignore
    } else {
        match RoomName::parse_spec(last_segment(flag.name@)) {
            None => Directive::Remove,
            Some(room) => if room_is_taken(world, room) {
                Directive::Remove
            } else {
                Directive::Claim(room)
            },
        }
    }
}

/// Coordinate of the square in the middle of a room, where a claim aims.
pub const ROOM_CENTRE: u8 = 25;

/// The chain that claims `room`.
pub open spec fn claim_list(room: RoomName) -> TaskListView {
    TaskListView::single(
        Task::Claim(ClaimTask { target: Position::at(ROOM_CENTRE, ROOM_CENTRE, room), move_failure_count: 0 }),
    )
}

/// One claim for every marker that asks for one, in order.
pub open spec fn flag_task_lists(flags: Seq<FlagInfo>, world: World) -> Seq<TaskListView>
    decreases flags.len(),
{
    if flags.len() == 0 {
        Seq::empty()
    } else {
        let rest = flag_task_lists(flags.drop_last(), world);
        match directive_of(flags.last(), world) {
            Directive::Claim(room) => rest.push(claim_list(room)),
            _ => rest,
        }
    }
}

/// The indices of the markers to take away, in order.
pub open spec fn flag_removals(flags: Seq<FlagInfo>, world: World) -> Seq<usize>
    decreases flags.len(),
{
    if flags.len() == 0 {
        Seq::empty()
    } else {
        let rest = flag_removals(flags.drop_last(), world);
        match directive_of(flags.last(), world) {
            Directive::Remove => rest.push((flags.len() - 1) as usize),
            _ => rest,
        }
    }
}

/// What the markers ask for this tick.
#[derive(Debug)]
pub struct FlagTasks {
    /// The chains on offer.
    pub task_lists: Vec<TaskList>,
    /// Indices, into the world's markers, of those to take away.
    pub removals: Vec<usize>,
}

/// Whether the room is visible with a controller that someone owns or has reserved.
fn is_room_taken(world: &World, room: RoomName) -> (r: bool)
    ensures
        r == room_is_taken(*world, room),
{
    match world.find_room(room) {
        Some(i) => match world.rooms[i].controller {
            Some(c) => c.owned || c.reserved,
            None => false,
        },
        None => false,
    }
}

/// The claims that the world's markers ask for, and the markers to take away.
pub fn get_flag_task_lists(world: &World) -> (found: FlagTasks)
    ensures
        list_views(found.task_lists@) == flag_task_lists(world.flags@, *world),
        found.removals@ == flag_removals(world.flags@, *world),
{
    let mut task_lists: Vec<TaskList> = Vec::new();
    let mut removals: Vec<usize> = Vec::new();
    let mut i: usize = 0;
    while i < world.flags.len()
        invariant
            i <= world.flags.len(),
            list_views(task_lists@) == flag_task_lists(world.flags@.take(i as int), *world),
            removals@ == flag_removals(world.flags@.take(i as int), *world),
        decreases world.flags.len() - i,
    {
        proof {
            assert(world.flags@.take(i + 1).drop_last() =~= world.flags@.take(i as int));
        }
        let flag = &world.flags[i];
        if starts_with_claim(flag.name.as_str()) {
            let segment = last_segment_of(flag.name.as_str());
            match RoomName::new(segment.as_str()) {
                Some(room) => {
                    if is_room_taken(world, room) {
                        removals.push(i);
                    } else {
                        match Position::new(ROOM_CENTRE, ROOM_CENTRE, room) {
                            Some(centre) => {
                                let list = single_list(Task::Claim(ClaimTask::new(centre)));
                                proof {
                                    lemma_list_views_push(task_lists@, list);
                                }
                                task_lists.push(list);
                            },
                            None => {},
                        }
                    }
                },
                None => {
                    removals.push(i);
                },
            }
        }
        i += 1;
    }
    proof {
        assert(world.flags@.take(i as int) =~= world.flags@);
    }
    FlagTasks { task_lists, removals }
}

/// Holds of the chains whose task under the cursor is a claim.
pub open spec fn is_claim_list() -> spec_fn(TaskListView) -> bool {
    |list: TaskListView|
        list.current_task() matches Some(task) && task.type_spec() == crate::tasks::TaskType::Claim
}

/// Whether a claim is among the chains on offer.
pub fn claim_task_exists(task_lists: &Vec<TaskList>) -> (exists_claim: bool)
    ensures
        exists_claim == (first_where(list_views(task_lists@), is_claim_list()) is Some),
{
    let ghost views = list_views(task_lists@);
    let mut i: usize = 0;
    while i < task_lists.len()
        invariant
            i <= task_lists.len(),
            views == list_views(task_lists@),
            forall|j: int| 0 <= j < i ==> !is_claim_list()(#[trigger] views[j]),
        decreases task_lists.len() - i,
    {
        assert(views[i as int] == task_lists@[i as int]@);
        let claim = match task_lists[i].current_task() {
            Some(task) => task.get_type() == crate::tasks::TaskType::Claim,
            None => false,
        };
        if claim {
            proof {
                crate::utils::lemma_first_where_found(views, is_claim_list(), i as int);
            }
            return true;
        }
        i += 1;
    }
    proof {
        crate::utils::lemma_first_where_none(views, is_claim_list());
    }
    false
}

} // verus!
