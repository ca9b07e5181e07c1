//! Walk to a position along a remembered path.

use crate::game::CreepInfo;
use crate::pathing::{MovesAlongCachedPath, Stuckable};
use crate::position::Position;
use crate::tasks::task::{
    expired, is_expired, move_verdict, moved_count, settle_move, Action, Report, Step, StepView,
};
use vstd::prelude::*;

verus! {

/// A walk to one position along a remembered path.
#[derive(Debug)]
pub struct TravelDumbTask {
    pub target: Position,
    pub cached_path: Option<String>,
    /// Moves in a row that the world refused for good.
    pub stuck_count: u32,
}

/// Refused moves in a row above which the agent counts as stuck.
pub const STUCK_LIMIT: u32 = 5;

impl Stuckable for TravelDumbTask {
    open spec fn stuck_count(&self) -> u32 {
        self.stuck_count
    }

    open spec fn stuck(&self) -> bool {
        self.stuck_count > STUCK_LIMIT
    }

    fn is_stuck(&self) -> (r: bool) {
        self.stuck_count > STUCK_LIMIT
    }

    fn get_stuck_count(&self) -> (r: u32) {
        self.stuck_count
    }

    fn set_stuck_count(&mut self, count: u32)
        ensures
            final(self).target == old(self).target,
            final(self).cached_path == old(self).cached_path,
    {
        self.stuck_count = count;
    }
}

impl MovesAlongCachedPath for TravelDumbTask {
    open spec fn cached_path(&self) -> Option<String> {
        self.cached_path
    }

    fn get_cached_path(&self) -> (r: Option<&String>) {
        self.cached_path.as_ref()
    }

    fn set_cached_path(&mut self, path: Option<String>)
        ensures
            final(self).target == old(self).target,
    {
        self.cached_path = path;
    }

    fn empty_cached_path(&mut self)
        ensures
            final(self).target == old(self).target,
    {
        self.cached_path = None;
    }
}

impl TravelDumbTask {
    /// A fresh task, with no move refused so far.
    pub fn new(target: Position) -> (task: TravelDumbTask)
        ensures
            task.target == target,
            task.cached_path is None,
            task.stuck_count == 0,
    {
        TravelDumbTask { target, cached_path: None, stuck_count: 0 }
    }

    /// Whether a path has to be looked for before the next move.
    pub open spec fn needs_path(self) -> bool {
        self.cached_path is None || self.stuck()
    }

    /// Standing beside the target completes. Otherwise follow the remembered
    /// path, after looking for one where none is remembered or the agent is
    /// stuck; a stuck agent looks for a way round other agents.
    pub open spec fn step_spec(self, creep: CreepInfo) -> StepView {
        if creep.pos.near(self.target) {
            StepView::Complete
        } else {
            StepView::Perform(
                Action::FollowPath {
                    target: self.target,
                    renew: self.needs_path(),
                    ignore_creeps: !self.stuck(),
                },
            )
        }
    }

    /// What one step decides: an agent that is about to die gives up; any
    /// other does what `step_spec` says.
    pub open spec fn execute_spec(self, creep: CreepInfo) -> StepView {
        if expired(creep) {
            StepView::Cancel
        } else {
            self.step_spec(creep)
        }
    }

    /// Decides the step for `creep`.
    pub fn execute(&self, creep: &CreepInfo) -> (step: Step)
        ensures
            step@ == self.execute_spec(*creep),
    {
        if is_expired(creep) {
            return Step::Cancel;
        }
        if creep.pos.is_near_to(self.target) {
            Step::Complete
        } else {
            let stuck = self.is_stuck();
            let renew = self.get_cached_path().is_none() || stuck;
            Step::Perform(
                Action::FollowPath { target: self.target, renew, ignore_creeps: !stuck },
            )
        }
    }

    /// What the world's answer to a move leads to: see `move_verdict`.
    pub open spec fn resume_spec(self, action: Action, report: Report) -> StepView {
        move_verdict(self.stuck_count, action, report)
    }

    /// The path remembered after the world's answer: the one that was found,
    /// where one was looked for.
    pub open spec fn path_after(self, action: Action, report: Report) -> Option<String> {
        match action {
            Action::FollowPath { renew, .. } => if renew {
                report.path
            } else {
                self.cached_path
            },
            _ => self.cached_path,
        }
    }

    /// The task after the world's answer: it counts the moves in a row that
    /// were refused for good.
    pub open spec fn after_resume(self, action: Action, report: Report) -> TravelDumbTask {
        TravelDumbTask {
            target: self.target,
            cached_path: self.path_after(action, report),
            stuck_count: moved_count(self.stuck_count, action, report),
        }
    }

    /// Takes the world's answer to the action that the last step named.
    pub fn resume(&mut self, action: Action, report: Report) -> (step: Step)
        ensures
            step@ == old(self).resume_spec(action, report),
            *final(self) == old(self).after_resume(action, report),
    {
        let step = settle_move(&mut self.stuck_count, action, &report);
        match action {
            Action::FollowPath { target: _, renew, ignore_creeps: _ } => {
                if renew {
                    self.cached_path = report.path;
                }
            },
            _ => {},
        }
        step
    }
}

} // verus!
