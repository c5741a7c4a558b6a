//! A structured-concurrency scope for single-threaded cooperative execution.
//!
//! The scope owns every spawned task's result slot in an arena; handles are
//! indices into that arena. The futures themselves live with the driver,
//! which reports to the scope what the task set did on each poll.
pub mod channel;
pub mod laws;
pub mod registry;
pub mod scope;

pub use channel::{Received, Slot};
pub use laws::{
    lemma_all_finished_quiescent, lemma_clear_stops_tasks, lemma_finished_is_received,
    lemma_first_termination_wins, lemma_nested_spawn_admitted, lemma_termination_preempts,
    lemma_waiting_until_finished,
};
pub use registry::{Report, TaskRegistry};
pub use scope::{Directive, Handle, PollOutcome, Scope, ScopeModel, Termination};
