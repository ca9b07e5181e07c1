//! What every task has in common: its kind, what it may ask of the world in
//! one step, and how a step ends.

use crate::game::{CreepInfo, ErrorCode, GameObject, ObjectId};
use crate::position::Position;
use crate::tasks::task_list::{TaskList, TaskListView};
use vstd::prelude::*;

verus! {

/// Kind of a task, by which candidates are grouped and archetypes pinned.
#[derive(Clone, Copy, Debug, PartialEq, Eq, Hash, Structural)]
pub enum TaskType {
    Attack,
    Build,
    Claim,
    HarvestSource,
    Heal,
    Idle,
    IdleUntil,
    Repair,
    Transfer,
    Travel,
    TravelDumb,
    Upgrade,
    Withdraw,
}

/// The one thing an agent is asked to do to the world in a step.
#[derive(Clone, Copy, Debug, PartialEq, Eq, Hash, Structural)]
pub enum Action {
    Attack(ObjectId),
    Build(ObjectId),
    Claim(ObjectId),
    Harvest(ObjectId),
    Heal(ObjectId),
    Repair(ObjectId),
    Transfer(ObjectId),
    Upgrade(ObjectId),
    Withdraw(ObjectId),
    /// Move one step towards a position.
    MoveTo(Position),
    /// Move one step along the remembered path to `target`. With `renew` a path
    /// is looked for first, around other agents unless `ignore_creeps`.
    FollowPath { target: Position, renew: bool, ignore_creeps: bool },
}

/// What the world answered to an action.
#[derive(Debug)]
pub struct Report {
    pub result: Result<(), ErrorCode>,
    /// The path that was found, where the action asked for one.
    pub path: Option<String>,
}

/// How a step of a task ends.
#[derive(Debug)]
pub enum Step {
    /// The task goes on next tick.
    Continue,
    /// The goal is reached.
    Complete,
    /// The task gave up.
    Cancel,
    /// The agent takes up this list in place of its own.
    Switch(TaskList),
    /// The action is to be carried out and its report handed back.
    Perform(Action),
}

/// A step as a plain value.
pub enum StepView {
    Continue,
    Complete,
    Cancel,
    Switch(TaskListView),
    Perform(Action),
}

impl View for Step {
    type V = StepView;

    open spec fn view(&self) -> StepView {
        match *self {
            Step::Continue => StepView::Continue,
            Step::Complete => StepView::Complete,
            Step::Cancel => StepView::Cancel,
            Step::Switch(list) => StepView::Switch(list@),
            Step::Perform(action) => StepView::Perform(action),
        }
    }
}

/// Act on the target when next to it, else step towards it.
pub open spec fn approach_spec(from: Position, to: Position, action: Action) -> StepView {
    if from.near(to) {
        StepView::Perform(action)
    } else {
        StepView::Perform(Action::MoveTo(to))
    }
}

/// Act on the target when next to it, else step towards it.
pub fn approach(from: Position, to: Position, action: Action) -> (step: Step)
    ensures
        step@ == approach_spec(from, to, action),
{
    if from.is_near_to(to) {
        Step::Perform(action)
    } else {
        Step::Perform(Action::MoveTo(to))
    }
}

/// An agent with this many ticks left, or fewer, gives up whatever it does.
pub const EXPIRY_TICKS: u32 = 3;

/// Actions one step of a task names at most: the action the task is about,
/// and a move where that action was out of range.
pub const ACTIONS_PER_STEP: usize = 2;

/// Moves in a row, refused for good, after which a task gives up.
pub const MOVE_FAILURE_LIMIT: u32 = 3;

/// Whether the agent is about to die.
pub open spec fn expired(creep: CreepInfo) -> bool {
    creep.ticks_to_live matches Some(t) && t <= EXPIRY_TICKS
}

/// Whether the agent is about to die.
pub fn is_expired(creep: &CreepInfo) -> (r: bool)
    ensures
        r == expired(*creep),
{
    match creep.ticks_to_live {
        Some(t) => t <= EXPIRY_TICKS,
        None => false,
    }
}

/// Whether a refusal mends itself: the agent is tired or busy, and the same
/// is tried again next tick.
pub open spec fn is_transient(code: ErrorCode) -> bool {
    code == ErrorCode::Tired || code == ErrorCode::Busy
}

/// Whether the action moves the agent.
pub open spec fn is_move(action: Action) -> bool {
    action is MoveTo || action is FollowPath
}

impl Report {
    /// The action was refused.
    pub open spec fn failed(self) -> bool {
        self.result is Err
    }

    /// The action was refused for the reason `code`.
    pub open spec fn failed_with(self, code: ErrorCode) -> bool {
        self.result == Err::<(), ErrorCode>(code)
    }

    /// Refused, and not for a reason that mends itself.
    pub open spec fn refused(self) -> bool {
        self.result matches Err(code) && !is_transient(code)
    }

    /// Whether the action was refused.
    pub fn is_err(&self) -> (r: bool)
        ensures
            r == self.failed(),
    {
        match self.result {
            Ok(_) => false,
            Err(_) => true,
        }
    }

    /// Whether the action was refused for the reason `code`.
    pub fn is_err_code(&self, code: ErrorCode) -> (r: bool)
        ensures
            r == self.failed_with(code),
    {
        match self.result {
            Ok(_) => false,
            Err(e) => e == code,
        }
    }

    /// Whether the action was refused for a reason that does not mend itself.
    pub fn is_refused(&self) -> (r: bool)
        ensures
            r == self.refused(),
    {
        match self.result {
            Ok(_) => false,
            Err(e) => !(e == ErrorCode::Tired || e == ErrorCode::Busy),
        }
    }
}

/// The count of refused moves after the world's answer to `action`: one
/// more after a move refused for good (it stops at the largest number),
/// none after any other move, unchanged after what is no move.
pub open spec fn moved_count(count: u32, action: Action, report: Report) -> u32 {
    if !is_move(action) {
        count
    } else if report.refused() {
        if count < u32::MAX {
            (count + 1) as u32
        } else {
            count
        }
    } else {
        0
    }
}

/// What follows from the world's answer to a move: the task gives up with
/// the third move in a row that is refused for good, and goes on otherwise.
pub open spec fn move_verdict(count: u32, action: Action, report: Report) -> StepView {
    if is_move(action) && report.refused() && moved_count(count, action, report)
        >= MOVE_FAILURE_LIMIT {
        StepView::Cancel
    } else {
        StepView::Continue
    }
}

/// Takes the world's answer to a move into the count of refused moves.
pub fn settle_move(count: &mut u32, action: Action, report: &Report) -> (step: Step)
    ensures
        *final(count) == moved_count(*old(count), action, *report),
        step@ == move_verdict(*old(count), action, *report),
{
    match action {
        Action::MoveTo(_) | Action::FollowPath { .. } => {
            if report.is_refused() {
                if *count < u32::MAX {
                    *count += 1;
                }
                if *count >= MOVE_FAILURE_LIMIT {
                    Step::Cancel
                } else {
                    Step::Continue
                }
            } else {
                *count = 0;
                Step::Continue
            }
        },
        _ => Step::Continue,
    }
}

/// What follows from the world's answer to the action a task is about: out
/// of range, the agent moves towards the target, or gives up if the target
/// is gone; refused for another reason that does not mend itself, it gives
/// up; otherwise it goes on.
pub open spec fn act_verdict(report: Report, target: Option<GameObject>) -> StepView {
    if report.failed_with(ErrorCode::NotInRange) {
        match target {
            Some(t) => StepView::Perform(Action::MoveTo(t.pos)),
            None => StepView::Cancel,
        }
    } else if report.refused() {
        StepView::Cancel
    } else {
        StepView::Continue
    }
}

/// Decides what follows from the world's answer to the action a task is about.
pub fn settle_action(report: &Report, target: Option<GameObject>) -> (step: Step)
    ensures
        step@ == act_verdict(*report, target),
{
    if report.is_err_code(ErrorCode::NotInRange) {
        match target {
            Some(t) => Step::Perform(Action::MoveTo(t.pos)),
            None => Step::Cancel,
        }
    } else if report.is_refused() {
        Step::Cancel
    } else {
        Step::Continue
    }
}

} // verus!
