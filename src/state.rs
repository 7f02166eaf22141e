use vstd::prelude::*;

verus! {

/// One cast vote: who voted, and for whom.
pub struct VoteInfo {
    pub voter: String,
    pub candidate: String,
}

/// The ledger: the inclusive voting window, the roster recorded at creation,
/// and the append-only log of cast votes.
pub struct State {
    pub start: u64,
    pub end: u64,
    pub candidates: Vec<String>,
    pub votes: Vec<VoteInfo>,
}

impl State {
    /// Whether logical time `height` lies inside the inclusive window.
    pub open spec fn in_window(&self, height: u64) -> bool {
        self.start <= height && height <= self.end
    }
}

} // verus!
