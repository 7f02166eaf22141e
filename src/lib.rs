//! A time-windowed voting ledger: votes are accepted only inside an inclusive
//! window of logical time, appended to a log, and grouped into a tally on demand.

pub mod contract;
pub mod error;
pub mod msg;
pub mod state;
pub mod tally;
