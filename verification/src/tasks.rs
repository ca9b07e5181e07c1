//! Tasks, task lists, and the scheduler that hands them to agents.

pub mod attack;
pub mod build_site;
pub mod candidates;
pub mod claim;
pub mod defaults;
pub mod directives;
pub mod harvest;
pub mod harvest_source;
pub mod heal;
pub mod idle;
pub mod idle_until;
pub mod manager;
pub mod matching;
pub mod occupancy;
pub mod repair;
pub mod task;
pub mod task_list;
pub mod transfer;
pub mod travel;
pub mod travel_dumb;
pub mod upgrade;
pub mod withdraw;

pub use task::{Action, Report, Step, StepView, TaskType};
pub use task_list::{TaskList, TaskListView};

pub use attack::AttackTask;
pub use build_site::BuildTask;
pub use claim::ClaimTask;
pub use harvest::HarvestTask;
pub use harvest_source::HarvestSourceTask;
pub use heal::HealTask;
pub use idle::IdleTask;
pub use idle_until::IdleUntilTask;
pub use manager::TaskManager;
pub use repair::RepairTask;
pub use transfer::TransferTask;
pub use travel::TravelTask;
pub use travel_dumb::TravelDumbTask;
pub use upgrade::UpgradeTask;
pub use withdraw::WithdrawTask;

use crate::game::{body_has, CreepInfo, ObjectId, Part};
use crate::metadata::World;
use crate::position::Position;
use crate::utils::{creep_type_of, get_creep_type, str_eq};
use vstd::prelude::*;

verus! {

/// The smallest unit of work: one of a closed set of variants.
#[derive(Debug)]
pub enum Task {
    Attack(AttackTask),
    Build(BuildTask),
    Claim(ClaimTask),
    Harvest(HarvestTask),
    HarvestSource(HarvestSourceTask),
    Heal(HealTask),
    Idle(IdleTask),
    IdleUntil(IdleUntilTask),
    Repair(RepairTask),
    Transfer(TransferTask),
    Travel(TravelTask),
    TravelDumb(TravelDumbTask),
    Upgrade(UpgradeTask),
    Withdraw(WithdrawTask),
}

impl Task {
    /// The kind of the task.
    pub open spec fn type_spec(self) -> TaskType {
        match self {
            Task::Attack(_) => TaskType::Attack,
            Task::Build(_) => TaskType::Build,
            Task::Claim(_) => TaskType::Claim,
            Task::Harvest(_) => TaskType::HarvestSource,
            Task::HarvestSource(_) => TaskType::HarvestSource,
            Task::Heal(_) => TaskType::Heal,
            Task::Idle(_) => TaskType::Idle,
            Task::IdleUntil(_) => TaskType::IdleUntil,
            Task::Repair(_) => TaskType::Repair,
            Task::Transfer(_) => TaskType::Transfer,
            Task::Travel(_) => TaskType::Travel,
            Task::TravelDumb(_) => TaskType::TravelDumb,
            Task::Upgrade(_) => TaskType::Upgrade,
            Task::Withdraw(_) => TaskType::Withdraw,
        }
    }

    /// The capabilities an agent needs for the task: to carry and to work,
    /// unless the task is to attack, to claim or to travel.
    pub open spec fn required_parts(self) -> Seq<Part> {
        match self {
            Task::Attack(_) => seq![Part::Attack],
            Task::Claim(_) => seq![Part::Claim],
            Task::Travel(_) => seq![Part::Move],
            Task::TravelDumb(_) => seq![Part::Move],
            _ => seq![Part::Work, Part::Carry],
        }
    }

    /// Whether the task is only worth taking up with energy in the store:
    /// not so for gathering, withdrawing, attacking and travelling.
    pub open spec fn requires_energy_spec(self) -> bool {
        match self {
            Task::Attack(_) => false,
            Task::Harvest(_) => false,
            Task::HarvestSource(_) => false,
            Task::Travel(_) => false,
            Task::TravelDumb(_) => false,
            Task::Withdraw(_) => false,
            _ => true,
        }
    }

    /// The object the task works on, if it works on one.
    pub open spec fn target_id(self) -> Option<ObjectId> {
        match self {
            Task::Attack(t) => Some(t.target),
            Task::Build(t) => Some(t.target),
            Task::Harvest(t) => Some(t.target),
            Task::HarvestSource(t) => Some(t.target),
            Task::Heal(t) => Some(t.target),
            Task::Repair(t) => Some(t.target),
            Task::Transfer(t) => Some(t.target),
            Task::Travel(t) => Some(t.target),
            Task::Upgrade(t) => Some(t.target),
            Task::Withdraw(t) => Some(t.target),
            _ => None,
        }
    }

    /// Where the task's target stands this tick: the place of the object it
    /// works on while that object is there, the goal of a walk to a
    /// position, nothing for the rest.
    pub open spec fn target_pos_spec(self, world: World) -> Option<Position> {
        match self {
            Task::TravelDumb(t) => Some(t.target),
            _ => match self.target_id() {
                Some(id) => match world.resolve_spec(id) {
                    Some(object) => Some(object.pos),
                    None => None,
                },
                None => None,
            },
        }
    }

    /// Rank of the task among candidates of its kind; the lowest is served
    /// first. A repair ranks by the hit points its target has left, every
    /// other task ranks 0.
    pub open spec fn priority_spec(self, world: World) -> u32 {
        match self {
            Task::Repair(t) => t.priority_spec(world),
            _ => 0,
        }
    }

    /// A sign for the task.
    pub open spec fn icon_spec(self) -> Seq<char> {
        match self {
            Task::Attack(_) => "\u{2694}\u{fe0f}"@,
            Task::Build(_) => "\u{1f6a7}"@,
            Task::HarvestSource(_) => "\u{26cf}\u{fe0f}\u{26a1}"@,
            Task::Idle(_) => "\u{1f550}"@,
            Task::IdleUntil(_) => "\u{1f550}"@,
            Task::Transfer(_) => "\u{1f69a}"@,
            Task::TravelDumb(_) => "\u{1f6b6}"@,
            Task::Withdraw(_) => "\u{26a1}"@,
            _ => ""@,
        }
    }

    /// What the task is about, in words, for whoever looks.
    pub open spec fn description(self) -> Seq<char> {
        match self {
            Task::Attack(_) => "Attack"@,
            Task::Build(_) => "Build"@,
            Task::Claim(_) => "Claim controller"@,
            Task::Harvest(_) => "Harvest"@,
            Task::HarvestSource(_) => "Harvest"@,
            Task::Heal(_) => "Heal"@,
            Task::Idle(t) => "Idling. "@ + crate::utils::decimal(t.duration as nat)
                + " ticks remaining"@,
            Task::IdleUntil(_) => "Idling until something happens."@,
            Task::Repair(_) => "Repair"@,
            Task::Transfer(_) => "Transfer energy"@,
            Task::Travel(_) => "Travel"@,
            Task::TravelDumb(_) => "Travel (dumb)"@,
            Task::Upgrade(_) => "Upgrade controller"@,
            Task::Withdraw(_) => "Withdraw energy"@,
        }
    }

    /// What one step decides, before the world is touched. An agent that is
    /// about to die gives up whatever it does.
    pub open spec fn execute_spec(self, creep: CreepInfo, world: World) -> StepView {
        match self {
            Task::Attack(t) => t.execute_spec(creep, world),
            Task::Build(t) => t.execute_spec(creep, world),
            Task::Claim(t) => t.execute_spec(creep, world),
            Task::Harvest(t) => t.execute_spec(creep, world),
            Task::HarvestSource(t) => t.execute_spec(creep, world),
            Task::Heal(t) => t.execute_spec(creep, world),
            Task::Idle(t) => t.execute_spec(creep),
            Task::IdleUntil(t) => t.execute_spec(creep, world),
            Task::Repair(t) => t.execute_spec(creep, world),
            Task::Transfer(t) => t.execute_spec(creep, world),
            Task::Travel(t) => t.execute_spec(creep, world),
            Task::TravelDumb(t) => t.execute_spec(creep),
            Task::Upgrade(t) => t.execute_spec(creep, world),
            Task::Withdraw(t) => t.execute_spec(creep, world),
        }
    }

    /// The task after one step: a waiting task has one tick less to wait,
    /// unless its agent is about to die; every other task is as it was.
    pub open spec fn after_execute(self, creep: CreepInfo) -> Task {
        match self {
            Task::Idle(t) => Task::Idle(t.after_execute(creep)),
            _ => self,
        }
    }

    /// What the task decides once the world has answered to `action`.
    pub open spec fn resume_spec(
        self,
        creep: CreepInfo,
        world: World,
        action: Action,
        report: Report,
    ) -> StepView {
        match self {
            Task::Attack(t) => t.resume_spec(world, action, report),
            Task::Build(t) => t.resume_spec(world, action, report),
            Task::Claim(t) => t.resume_spec(world, action, report),
            Task::Harvest(t) => t.resume_spec(world, action, report),
            Task::HarvestSource(t) => t.resume_spec(world, action, report),
            Task::Heal(t) => t.resume_spec(world, action, report),
            Task::Repair(t) => t.resume_spec(creep, world, action, report),
            Task::Transfer(t) => t.resume_spec(creep, world, action, report),
            Task::Travel(t) => t.resume_spec(action, report),
            Task::TravelDumb(t) => t.resume_spec(action, report),
            Task::Upgrade(t) => t.resume_spec(world, action, report),
            Task::Withdraw(t) => t.resume_spec(world, action, report),
            _ => StepView::Continue,
        }
    }

    /// The task after the world's answer: it counts the moves in a row that
    /// were refused for good, and a walk along a path remembers the path
    /// that was found.
    pub open spec fn after_resume(self, action: Action, report: Report) -> Task {
        match self {
            Task::Attack(t) => Task::Attack(t.after_resume(action, report)),
            Task::Build(t) => Task::Build(t.after_resume(action, report)),
            Task::Claim(t) => Task::Claim(t.after_resume(action, report)),
            Task::Harvest(t) => Task::Harvest(t.after_resume(action, report)),
            Task::HarvestSource(t) => Task::HarvestSource(t.after_resume(action, report)),
            Task::Heal(t) => Task::Heal(t.after_resume(action, report)),
            Task::Repair(t) => Task::Repair(t.after_resume(action, report)),
            Task::Transfer(t) => Task::Transfer(t.after_resume(action, report)),
            Task::Travel(t) => Task::Travel(t.after_resume(action, report)),
            Task::TravelDumb(t) => Task::TravelDumb(t.after_resume(action, report)),
            Task::Upgrade(t) => Task::Upgrade(t.after_resume(action, report)),
            Task::Withdraw(t) => Task::Withdraw(t.after_resume(action, report)),
            _ => self,
        }
    }

    /// The kind of the task.
    pub fn get_type(&self) -> (kind: TaskType)
        ensures
            kind == self.type_spec(),
    {
        match self {
            Task::Attack(_) => TaskType::Attack,
            Task::Build(_) => TaskType::Build,
            Task::Claim(_) => TaskType::Claim,
            Task::Harvest(_) => TaskType::HarvestSource,
            Task::HarvestSource(_) => TaskType::HarvestSource,
            Task::Heal(_) => TaskType::Heal,
            Task::Idle(_) => TaskType::Idle,
            Task::IdleUntil(_) => TaskType::IdleUntil,
            Task::Repair(_) => TaskType::Repair,
            Task::Transfer(_) => TaskType::Transfer,
            Task::Travel(_) => TaskType::Travel,
            Task::TravelDumb(_) => TaskType::TravelDumb,
            Task::Upgrade(_) => TaskType::Upgrade,
            Task::Withdraw(_) => TaskType::Withdraw,
        }
    }

    /// The capabilities an agent needs for the task.
    pub fn requires_body_parts(&self) -> (parts: Vec<Part>)
        ensures
            parts@ == self.required_parts(),
    {
        let mut parts: Vec<Part> = Vec::new();
        match self {
            Task::Attack(_) => {
                parts.push(Part::Attack);
            },
            Task::Claim(_) => {
                parts.push(Part::Claim);
            },
            Task::Travel(_) => {
                parts.push(Part::Move);
            },
            Task::TravelDumb(_) => {
                parts.push(Part::Move);
            },
            _ => {
                parts.push(Part::Work);
                parts.push(Part::Carry);
            },
        }
        proof {
            assert(parts@ =~= self.required_parts());
        }
        parts
    }

    /// Whether the task is only worth taking up with energy in the store.
    pub fn requires_energy(&self) -> (needed: bool)
        ensures
            needed == self.requires_energy_spec(),
    {
        match self {
            Task::Attack(_) => false,
            Task::Harvest(_) => false,
            Task::HarvestSource(_) => false,
            Task::Travel(_) => false,
            Task::TravelDumb(_) => false,
            Task::Withdraw(_) => false,
            _ => true,
        }
    }

    /// A sign for the task that an agent can show.
    pub fn get_icon(&self) -> (icon: String)
        ensures
            icon@ == self.icon_spec(),
    {
        match self {
            Task::Attack(_) => String::from_str("\u{2694}\u{fe0f}"),
            Task::Build(_) => String::from_str("\u{1f6a7}"),
            Task::HarvestSource(_) => String::from_str("\u{26cf}\u{fe0f}\u{26a1}"),
            Task::Idle(_) => String::from_str("\u{1f550}"),
            Task::IdleUntil(_) => String::from_str("\u{1f550}"),
            Task::Transfer(_) => String::from_str("\u{1f69a}"),
            Task::TravelDumb(_) => String::from_str("\u{1f6b6}"),
            Task::Withdraw(_) => String::from_str("\u{26a1}"),
            _ => String::from_str(""),
        }
    }

    /// What the task is about, in words, for whoever looks.
    pub fn describe(&self) -> (text: String)
        ensures
            text@ == self.description(),
    {
        match self {
            Task::Attack(_) => String::from_str("Attack"),
            Task::Build(_) => String::from_str("Build"),
            Task::Claim(_) => String::from_str("Claim controller"),
            Task::Harvest(_) => String::from_str("Harvest"),
            Task::HarvestSource(_) => String::from_str("Harvest"),
            Task::Heal(_) => String::from_str("Heal"),
            Task::Idle(t) => {
                let mut text = String::from_str("Idling. ");
                let ticks = crate::utils::to_decimal(t.duration as u64);
                text.append(ticks.as_str());
                text.append(" ticks remaining");
                text
            },
            Task::IdleUntil(_) => String::from_str("Idling until something happens."),
            Task::Repair(_) => String::from_str("Repair"),
            Task::Transfer(_) => String::from_str("Transfer energy"),
            Task::Travel(_) => String::from_str("Travel"),
            Task::TravelDumb(_) => String::from_str("Travel (dumb)"),
            Task::Upgrade(_) => String::from_str("Upgrade controller"),
            Task::Withdraw(_) => String::from_str("Withdraw energy"),
        }
    }

    /// The object the task works on, if it works on one.
    fn get_target_id(&self) -> (id: Option<ObjectId>)
        ensures
            id == self.target_id(),
    {
        match self {
            Task::Attack(t) => Some(t.target),
            Task::Build(t) => Some(t.target),
            Task::Harvest(t) => Some(t.target),
            Task::HarvestSource(t) => Some(t.target),
            Task::Heal(t) => Some(t.target),
            Task::Repair(t) => Some(t.target),
            Task::Transfer(t) => Some(t.target),
            Task::Travel(t) => Some(t.target),
            Task::Upgrade(t) => Some(t.target),
            Task::Withdraw(t) => Some(t.target),
            _ => None,
        }
    }

    /// Where the task's target stands this tick.
    pub fn get_target_pos(&self, world: &World) -> (pos: Option<Position>)
        ensures
            pos == self.target_pos_spec(*world),
    {
        match self {
            Task::TravelDumb(t) => Some(t.target),
            _ => match self.get_target_id() {
                Some(id) => match world.resolve(id) {
                    Some(object) => Some(object.pos),
                    None => None,
                },
                None => None,
            },
        }
    }

    /// Rank of the task among candidates of its kind; the lowest is served first.
    pub fn get_priority(&self, world: &World) -> (priority: u32)
        ensures
            priority == self.priority_spec(*world),
    {
        match self {
            Task::Repair(t) => t.get_priority(world),
            _ => 0,
        }
    }

    /// Carries the task one step forward for `creep`. The step is either
    /// final for the tick or names the one action to carry out, whose report
    /// goes to `resume`.
    pub fn execute(&mut self, creep: &CreepInfo, world: &World) -> (step: Step)
        ensures
            step@ == old(self).execute_spec(*creep, *world),
            *final(self) == old(self).after_execute(*creep),
    {
        match self {
            Task::Attack(t) => t.execute(creep, world),
            Task::Build(t) => t.execute(creep, world),
            Task::Claim(t) => t.execute(creep, world),
            Task::Harvest(t) => t.execute(creep, world),
            Task::HarvestSource(t) => t.execute(creep, world),
            Task::Heal(t) => t.execute(creep, world),
            Task::Idle(t) => t.execute(creep),
            Task::IdleUntil(t) => t.execute(creep, world),
            Task::Repair(t) => t.execute(creep, world),
            Task::Transfer(t) => t.execute(creep, world),
            Task::Travel(t) => t.execute(creep, world),
            Task::TravelDumb(t) => t.execute(creep),
            Task::Upgrade(t) => t.execute(creep, world),
            Task::Withdraw(t) => t.execute(creep, world),
        }
    }

    /// Takes the world's answer to the action that the last step named.
    pub fn resume(&mut self, creep: &CreepInfo, world: &World, action: Action, report: Report) -> (step:
        Step)
        ensures
            step@ == old(self).resume_spec(*creep, *world, action, report),
            *final(self) == old(self).after_resume(action, report),
    {
        match self {
            Task::Attack(t) => t.resume(world, action, &report),
            Task::Build(t) => t.resume(world, action, &report),
            Task::Claim(t) => t.resume(world, action, &report),
            Task::Harvest(t) => t.resume(world, action, &report),
            Task::HarvestSource(t) => t.resume(world, action, &report),
            Task::Heal(t) => t.resume(world, action, &report),
            Task::Repair(t) => t.resume(creep, world, action, &report),
            Task::Transfer(t) => t.resume(creep, world, action, &report),
            Task::Travel(t) => t.resume(action, &report),
            Task::TravelDumb(t) => t.resume(action, report),
            Task::Upgrade(t) => t.resume(world, action, &report),
            Task::Withdraw(t) => t.resume(world, action, &report),
            _ => Step::Continue,
        }
    }
}

/// Whether every part of `parts` occurs in `body`.
pub open spec fn has_all_parts(body: Seq<Part>, parts: Seq<Part>) -> bool {
    forall|i: int| 0 <= i < parts.len() ==> body.contains(#[trigger] parts[i])
}

/// The kind of task an archetype is pinned to, if it is pinned to one.
pub open spec fn pinned_type(creep_type: Seq<char>) -> Option<TaskType> {
    if creep_type == "source_harvester"@ {
        Some(TaskType::HarvestSource)
    } else if creep_type == "upgrader"@ {
        Some(TaskType::Upgrade)
    } else if creep_type == "storager"@ {
        Some(TaskType::Withdraw)
    } else {
        None
    }
}

/// Whether `creep` can take up `task`: it has every capability the task
/// needs, and its archetype is not pinned to another kind of task.
pub open spec fn can_handle(creep: CreepInfo, task: Task) -> bool {
    &&& has_all_parts(creep.body@, task.required_parts())
    &&& pinned_type(creep_type_of(creep.name@)) matches Some(kind) ==> task.type_spec() == kind
}

/// Whether `creep` has every capability that `task` needs.
pub fn has_parts_for(creep: &CreepInfo, task: &Task) -> (able: bool)
    ensures
        able == has_all_parts(creep.body@, task.required_parts()),
{
    let task_parts = task.requires_body_parts();
    let mut i: usize = 0;
    while i < task_parts.len()
        invariant
            i <= task_parts.len(),
            task_parts@ == task.required_parts(),
            forall|j: int| 0 <= j < i ==> creep.body@.contains(#[trigger] task_parts@[j]),
        decreases task_parts.len() - i,
    {
        if !body_has(&creep.body, task_parts[i]) {
            return false;
        }
        i += 1;
    }
    true
}

/// Whether `creep` can take up `task`.
pub fn can_creep_handle_task(creep: &CreepInfo, task: &Task) -> (able: bool)
    ensures
        able == can_handle(*creep, *task),
{
    if !has_parts_for(creep, task) {
        return false;
    }
    let creep_type = get_creep_type(creep.name.as_str());
    proof {
        lemma_archetype_names_differ();
    }
    if str_eq(creep_type.as_str(), "source_harvester") {
        task.get_type() == TaskType::HarvestSource
    } else if str_eq(creep_type.as_str(), "upgrader") {
        task.get_type() == TaskType::Upgrade
    } else if str_eq(creep_type.as_str(), "storager") {
        task.get_type() == TaskType::Withdraw
    } else {
        true
    }
}

/// The names of the pinned archetypes are three different names.
pub proof fn lemma_archetype_names_differ()
    ensures
        "source_harvester"@ != "upgrader"@,
        "source_harvester"@ != "storager"@,
        "upgrader"@ != "storager"@,
{
    reveal_strlit("source_harvester");
    reveal_strlit("upgrader");
    reveal_strlit("storager");
    assert("source_harvester"@.len() == 16);
    assert("upgrader"@.len() == 8);
    assert("storager"@.len() == 8);
    assert("upgrader"@[0] == 'u');
    assert("storager"@[0] == 's');
}

} // verus!
