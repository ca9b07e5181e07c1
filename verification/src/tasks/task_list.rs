//! A chain of tasks that makes up one job.

use crate::tasks::Task;
use vstd::prelude::*;

verus! {

/// An ordered chain of tasks with a cursor. A repeating chain starts over
/// after its last task; one task is marked as primary, by which chains are
/// compared.
#[derive(Debug)]
pub struct TaskList {
    pub tasks: Vec<Task>,
    pub repeat: bool,
    pub current_task_idx: usize,
    pub primary_task_idx: usize,
}

/// A chain as a plain value.
pub struct TaskListView {
    pub tasks: Seq<Task>,
    pub repeat: bool,
    pub current_task_idx: int,
    pub primary_task_idx: int,
}

impl View for TaskList {
    type V = TaskListView;

    open spec fn view(&self) -> TaskListView {
        TaskListView {
            tasks: self.tasks@,
            repeat: self.repeat,
            current_task_idx: self.current_task_idx as int,
            primary_task_idx: self.primary_task_idx as int,
        }
    }
}

impl TaskListView {
    /// The cursor points at a task: the chain is alive.
    pub open spec fn alive(self) -> bool {
        0 <= self.current_task_idx < self.tasks.len()
    }

    /// The task under the cursor.
    pub open spec fn current_task(self) -> Option<Task> {
        if 0 <= self.current_task_idx < self.tasks.len() {
            Some(self.tasks[self.current_task_idx])
        } else {
            None
        }
    }

    /// The task by which the chain is compared with others.
    pub open spec fn primary_task(self) -> Option<Task> {
        if 0 <= self.primary_task_idx < self.tasks.len() {
            Some(self.tasks[self.primary_task_idx])
        } else {
            None
        }
    }

    /// Whether another step forward leaves the chain: the cursor stands on
    /// the last task (or beyond) and the chain does not repeat.
    pub open spec fn exhausted_by_next(self) -> bool {
        self.current_task_idx + 1 >= self.tasks.len() && !self.repeat
    }

    /// The chain after one step forward. An exhausted chain stays as it is.
    pub open spec fn advanced(self) -> TaskListView {
        if self.current_task_idx + 1 >= self.tasks.len() {
            if self.repeat {
                TaskListView { current_task_idx: 0, ..self }
            } else {
                self
            }
        } else {
            TaskListView { current_task_idx: self.current_task_idx + 1, ..self }
        }
    }

    /// The chain after `n` steps forward.
    pub open spec fn advanced_by(self, n: nat) -> TaskListView
        decreases n,
    {
        if n == 0 {
            self
        } else {
            self.advanced_by((n - 1) as nat).advanced()
        }
    }

    /// The chain with `task` in place of the task under the cursor.
    pub open spec fn with_current(self, task: Task) -> TaskListView {
        TaskListView { tasks: self.tasks.update(self.current_task_idx, task), ..self }
    }

    /// What the chain is about, in words: the place of the cursor, the
    /// number of tasks, and the tasks.
    pub open spec fn description(self) -> Seq<char> {
        crate::utils::decimal(self.current_task_idx as nat) + "/"@ + crate::utils::decimal(
            self.tasks.len(),
        ) + ": "@ + joined_descriptions(self.tasks)
    }

    /// A chain of one task that does not repeat.
    pub open spec fn single(task: Task) -> TaskListView {
        TaskListView { tasks: seq![task], repeat: false, current_task_idx: 0, primary_task_idx: 0 }
    }

    /// A chain of two tasks that does not repeat; the second is primary.
    pub open spec fn pair(first: Task, second: Task) -> TaskListView {
        TaskListView {
            tasks: seq![first, second],
            repeat: false,
            current_task_idx: 0,
            primary_task_idx: 1,
        }
    }

    /// A standing job: three tasks that repeat; the second is primary.
    pub open spec fn standing(first: Task, second: Task, third: Task) -> TaskListView {
        TaskListView {
            tasks: seq![first, second, third],
            repeat: true,
            current_task_idx: 0,
            primary_task_idx: 1,
        }
    }
}

/// The descriptions of the tasks, with commas between.
pub open spec fn joined_descriptions(tasks: Seq<Task>) -> Seq<char>
    decreases tasks.len(),
{
    if tasks.len() == 0 {
        Seq::empty()
    } else if tasks.len() == 1 {
        tasks[0].description()
    } else {
        joined_descriptions(tasks.drop_last()) + ", "@ + tasks.last().description()
    }
}

/// The chains as plain values.
pub open spec fn list_views(lists: Seq<TaskList>) -> Seq<TaskListView> {
    lists.map_values(|l: TaskList| l@)
}

/// Adding a chain adds its view.
pub proof fn lemma_list_views_push(lists: Seq<TaskList>, list: TaskList)
    ensures
        list_views(lists.push(list)) == list_views(lists).push(list@),
{
    assert(list_views(lists.push(list)) =~= list_views(lists).push(list@));
}

/// The views of two runs of chains put together.
pub proof fn lemma_list_views_add(a: Seq<TaskList>, b: Seq<TaskList>)
    ensures
        list_views(a + b) == list_views(a) + list_views(b),
{
    assert(list_views(a + b) =~= list_views(a) + list_views(b));
}

/// Taking a chain out takes its view out.
pub proof fn lemma_list_views_remove(lists: Seq<TaskList>, i: int)
    requires
        0 <= i < lists.len(),
    ensures
        list_views(lists.remove(i)) == list_views(lists).remove(i),
{
    assert(list_views(lists.remove(i)) =~= list_views(lists).remove(i));
}

/// A chain of one task that does not repeat.
pub fn single_list(task: Task) -> (list: TaskList)
    ensures
        list@ == TaskListView::single(task),
{
    let mut tasks: Vec<Task> = Vec::new();
    tasks.push(task);
    let list = TaskList::new(tasks, false, 0);
    proof {
        assert(list@.tasks =~= seq![task]);
    }
    list
}

/// A chain of two tasks that does not repeat; the second is primary.
pub fn pair_list(first: Task, second: Task) -> (list: TaskList)
    ensures
        list@ == TaskListView::pair(first, second),
{
    let mut tasks: Vec<Task> = Vec::new();
    tasks.push(first);
    tasks.push(second);
    let list = TaskList::new(tasks, false, 1);
    proof {
        assert(list@.tasks =~= seq![first, second]);
    }
    list
}

/// A standing job: three tasks that repeat; the second is primary.
pub fn standing_list(first: Task, second: Task, third: Task) -> (list: TaskList)
    ensures
        list@ == TaskListView::standing(first, second, third),
{
    let mut tasks: Vec<Task> = Vec::new();
    tasks.push(first);
    tasks.push(second);
    tasks.push(third);
    let list = TaskList::new(tasks, true, 1);
    proof {
        assert(list@.tasks =~= seq![first, second, third]);
    }
    list
}

impl TaskList {
    /// A chain with its cursor on the first task.
    pub fn new(tasks: Vec<Task>, repeat: bool, primary_task_idx: usize) -> (list: TaskList)
        ensures
            list@ == (TaskListView {
                tasks: tasks@,
                repeat,
                current_task_idx: 0,
                primary_task_idx: primary_task_idx as int,
            }),
    {
        TaskList { tasks, repeat, current_task_idx: 0, primary_task_idx }
    }

    /// The task under the cursor.
    pub fn current_task(&self) -> (task: Option<&Task>)
        ensures
            task == match self@.current_task() {
                Some(t) => Some(&t),
                None => None,
            },
    {
        if self.current_task_idx < self.tasks.len() {
            Some(&self.tasks[self.current_task_idx])
        } else {
            None
        }
    }

    /// Moves the cursor one task forward, back to the first task at the end
    /// of a repeating chain. Returns the task then under the cursor, or
    /// `None` where the chain is exhausted; an exhausted chain is left as it
    /// was.
    pub fn next_task(&mut self) -> (task: Option<&Task>)
        ensures
            final(self)@ == old(self)@.advanced(),
            old(self)@.exhausted_by_next() ==> task is None,
            !old(self)@.exhausted_by_next() ==> task == match final(self)@.current_task() {
                Some(t) => Some(&t),
                None => None,
            },
    {
        if self.tasks.len() == 0 || self.current_task_idx >= self.tasks.len() - 1 {
            if self.repeat {
                self.current_task_idx = 0;
            } else {
                return None;
            }
        } else {
            self.current_task_idx += 1;
        }
        if self.current_task_idx < self.tasks.len() {
            Some(&self.tasks[self.current_task_idx])
        } else {
            None
        }
    }

    /// The task under the cursor, to be carried a step forward.
    pub fn current_task_mut(&mut self) -> (task: Option<&mut Task>)
        ensures
            old(self)@.current_task() is None ==> task is None && *final(self) == *old(self),
            old(self)@.current_task() matches Some(t) ==> task matches Some(r) && *r == t
                && final(self)@ == (TaskListView {
                tasks: old(self)@.tasks.update(old(self)@.current_task_idx, *final(r)),
                ..old(self)@
            }),
    {
        if self.current_task_idx < self.tasks.len() {
            Some(&mut self.tasks[self.current_task_idx])
        } else {
            None
        }
    }

    /// What the chain is about, in words, for whoever looks.
    pub fn describe(&self) -> (text: String)
        ensures
            text@ == self@.description(),
    {
        let mut text = crate::utils::to_decimal(self.current_task_idx as u64);
        text.append("/");
        let count = crate::utils::to_decimal(self.tasks.len() as u64);
        text.append(count.as_str());
        text.append(": ");
        let ghost head = text@;
        let mut i: usize = 0;
        while i < self.tasks.len()
            invariant
                i <= self.tasks.len(),
                text@ == head + joined_descriptions(self.tasks@.take(i as int)),
            decreases self.tasks.len() - i,
        {
            proof {
                assert(self.tasks@.take(i + 1).drop_last() =~= self.tasks@.take(i as int));
            }
            if i > 0 {
                text.append(", ");
            }
            let task = self.tasks[i].describe();
            text.append(task.as_str());
            proof {
                assert(text@ =~= head + joined_descriptions(self.tasks@.take(i + 1)));
            }
            i += 1;
        }
        proof {
            assert(self.tasks@.take(i as int) =~= self.tasks@);
        }
        text
    }

    /// The task by which this chain is compared with others.
    pub fn get_primary_task(&self) -> (task: Option<&Task>)
        ensures
            task == match self@.primary_task() {
                Some(t) => Some(&t),
                None => None,
            },
    {
        if self.primary_task_idx < self.tasks.len() {
            Some(&self.tasks[self.primary_task_idx])
        } else {
            None
        }
    }
}

} // verus!
