//! Decision core of a colony: task scheduling and population control over a
//! per-tick snapshot of the world.
//!
//! The library never touches the world. Each tick its caller reads the world
//! into a [`metadata::World`], lets the scheduler decide, and carries out
//! what was decided:
//!
//! 1. [`tasks::TaskManager::clean_up_tasks`] drops the assignments of agents
//!    that are gone.
//! 2. [`tasks::TaskManager::assign_tasks`] draws up what the markers and the
//!    rooms have to offer and matches every idle agent with work.
//! 3. For every agent at work, [`tasks::TaskManager::begin_task`] carries its
//!    task one step forward. A step may name an action; the caller performs
//!    it and hands the world's answer to
//!    [`tasks::TaskManager::resume_task`], until the step is final.
//! 4. [`tasks::TaskManager::execute_tasks`] settles what the steps decided
//!    and counts anew who works where.
//! 5. [`spawn::SpawnManager::spawn_creeps`] decides what each construction
//!    source builds, and [`spawn::SpawnManager::record_spawn`] takes note of
//!    what the world accepted.
//!
//! What holds of the scheduler in every world is proved in [`laws`].

pub mod game;
pub mod laws;
pub mod metadata;
pub mod pathing;
pub mod position;
pub mod spawn;
pub mod tasks;
pub mod utils;
