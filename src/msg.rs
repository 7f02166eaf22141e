use vstd::prelude::*;

verus! {

/// Creates the ledger: the inclusive voting window and the candidate roster.
#[derive(Clone, Debug, PartialEq)]
pub struct InitMsg {
    pub start: u64,
    pub end: u64,
    pub candidates: Vec<String>,
}

/// The write commands.
#[derive(Clone, Debug, PartialEq)]
pub enum HandleMsg {
    /// Cast one vote for `candidate` on behalf of the caller.
    Vote { candidate: String },
}

/// The read commands.
#[derive(Clone, Debug, PartialEq)]
pub enum QueryMsg {
    /// The window and the number of votes per candidate.
    GetVoteInfo {},
}

/// The tally: the window, and one entry for each candidate that received votes.
#[derive(Clone, Debug, PartialEq)]
pub struct VoteResponse {
    pub start: u64,
    pub end: u64,
    pub votes: Vec<Vote>,
}

/// How many votes one candidate received.
#[derive(Clone, Debug, PartialEq)]
pub struct Vote {
    pub candidate: String,
    pub count: u32,
}

} // verus!
