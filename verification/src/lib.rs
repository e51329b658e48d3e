//! Focus-tracking core: a rule-based activity categorizer, a focus-session
//! state machine with rate-limited distraction budgets, schedule
//! reconciliation, and the sampling logic that drives them. Persistence goes
//! through a SQLite store held behind a small trusted boundary in `store`.

use vstd::prelude::*;

pub mod activity;
pub mod categorizer;
pub mod category;
pub mod clock;
pub mod commands;
pub mod error;
pub mod focus;
pub mod host;
pub mod stats;
pub mod store;
pub mod pattern;
pub mod rule;
pub mod schedule;
pub mod session;
pub mod text;
pub mod tracker;
pub mod validation;

verus! {

} // verus!
