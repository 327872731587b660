//! Decision logic of the Palette orchestrator: plan and workspace path
//! resolution, perspective configuration validation, job instructions,
//! worker monitoring, suspend and recovery planning, task-tree walks, the
//! review cycle of craft jobs, member and supervisor spawning, review diffs
//! and orchestrator checks, with the properties that tie them together.
pub mod text;
pub mod path;
pub mod plan_location;
pub mod perspectives;
pub mod domain;
pub mod job_instruction;
pub mod monitor;
pub mod lifecycle;
pub mod suspend;
pub mod review;
pub mod workspace;
pub mod tasks;
pub mod task_rules;
pub mod review_cycle;
pub mod spawn;
pub mod diff_plan;
pub mod checks;
pub mod actions;
pub mod testing;
pub mod laws;
