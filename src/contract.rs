use vstd::prelude::*;

use crate::error::ContractError;
use crate::msg::{HandleMsg, InitMsg, QueryMsg, Vote, VoteResponse};
use crate::state::{State, VoteInfo};
use crate::tally::{
    count_of, is_tally_of, lemma_accepted_vote_adds_one, lemma_counted_candidate_voted, lemma_entry_le_total, lemma_tally_counts,
    lemma_total_update, listed_count, total_of,
};

verus! {

/// What a vote attempt at logical time `height` does to the ledger `before`,
/// leaving `after` and returning `r`: inside the window the vote is appended
/// and nothing else changes; outside it the ledger is unchanged and the error
/// carries the window.
pub open spec fn vote_outcome(
    before: State,
    after: State,
    height: u64,
    vote: VoteInfo,
    r: Result<(), ContractError>,
) -> bool {
    if before.in_window(height) {
        &&& r is Ok
        &&& after.start == before.start
        &&& after.end == before.end
        &&& after.candidates@ == before.candidates@
        &&& after.votes@ == before.votes@.push(vote)
    } else {
        &&& r == Err::<(), ContractError>(ContractError::NotAllowance { begin: before.start, end: before.end })
        &&& after == before
    }
}

/// A vote attempt followed by a tally: inside the window the attempt succeeds
/// and the tally's count for the chosen candidate grows by exactly one, all
/// other counts staying as they were; outside it the attempt fails with the
/// window and every count stays as it was.
pub proof fn lemma_vote_then_tally(
    before: State,
    after: State,
    height: u64,
    vote: VoteInfo,
    r: Result<(), ContractError>,
    tally_before: Seq<Vote>,
    tally_after: Seq<Vote>,
    c: Seq<char>,
)
    requires
        vote_outcome(before, after, height, vote, r),
        is_tally_of(tally_before, before.votes@),
        is_tally_of(tally_after, after.votes@),
    ensures
        before.in_window(height) ==> r is Ok && listed_count(tally_after, c) == listed_count(
            tally_before,
            c,
        ) + if c == vote.candidate@ {
            1nat
        } else {
            0nat
        },
        !before.in_window(height) ==> r == Err::<(), ContractError>(
            ContractError::NotAllowance { begin: before.start, end: before.end },
        ) && listed_count(tally_after, c) == listed_count(tally_before, c),
{
    if before.in_window(height) {
        lemma_accepted_vote_adds_one(tally_before, tally_after, before.votes@, vote, c);
    } else {
        lemma_tally_counts(tally_before, before.votes@, c);
        lemma_tally_counts(tally_after, after.votes@, c);
    }
}

/// Creates the ledger from `msg` with an empty vote log. An existing ledger
/// is never overwritten.
pub fn init(stored: &mut Option<State>, msg: InitMsg) -> (r: Result<(), ContractError>)
    ensures
        old(stored).is_some() ==> r == Err::<(), ContractError>(ContractError::AlreadyInitialized {})
            && *final(stored) == *old(stored),
        old(stored).is_none() ==> {
            &&& r is Ok
            &&& final(stored).is_some()
            &&& final(stored).unwrap().start == msg.start
            &&& final(stored).unwrap().end == msg.end
            &&& final(stored).unwrap().candidates@ == msg.candidates@
            &&& final(stored).unwrap().votes@.len() == 0
        },
{
    if stored.is_some() {
        return Err(ContractError::AlreadyInitialized {});
    }
    *stored = Some(State { start: msg.start, end: msg.end, candidates: msg.candidates, votes: Vec::new() });
    Ok(())
}

/// Dispatches a write command to the ledger, on behalf of `sender` at
/// logical time `height`.
pub fn handle(stored: &mut Option<State>, height: u64, sender: String, msg: HandleMsg) -> (r: Result<(), ContractError>)
    ensures
        match msg {
            HandleMsg::Vote { candidate } => match *old(stored) {
                None => r == Err::<(), ContractError>(ContractError::NotInitialized {})
                    && *final(stored) == *old(stored),
                Some(before) => final(stored).is_some() && vote_outcome(
                    before,
                    final(stored).unwrap(),
                    height,
                    (VoteInfo { voter: sender, candidate }),
                    r,
                ),
            },
        },
{
    match msg {
        HandleMsg::Vote { candidate } => match stored {
            Some(state) => try_vote(state, height, sender, candidate),
            None => Err(ContractError::NotInitialized {}),
        },
    }
}

/// Records a vote by `sender` for `candidate` when `height` lies inside the
/// window; otherwise refuses it and leaves the ledger as it was.
pub fn try_vote(state: &mut State, height: u64, sender: String, candidate: String) -> (r: Result<(), ContractError>)
    ensures
        vote_outcome(*old(state), *final(state), height, (VoteInfo { voter: sender, candidate }), r),
{
    if height < state.start || height > state.end {
        return Err(ContractError::NotAllowance { begin: state.start, end: state.end });
    }
    state.votes.push(VoteInfo { voter: sender, candidate });
    Ok(())
}

/// Answers a read command. Reads are allowed at any time.
pub fn query(stored: &Option<State>, msg: QueryMsg) -> (r: Result<VoteResponse, ContractError>)
    requires
        stored.is_some() ==> stored.unwrap().votes@.len() <= u32::MAX,
    ensures
        match msg {
            QueryMsg::GetVoteInfo {} => match *stored {
                None => r == Err::<VoteResponse, ContractError>(ContractError::NotInitialized {}),
                Some(state) => match r {
                    Ok(resp) => resp.start == state.start && resp.end == state.end
                        && is_tally_of(resp.votes@, state.votes@)
                        && total_of(resp.votes@) == state.votes@.len(),
                    Err(_) => false,
                },
            },
        },
{
    match msg {
        QueryMsg::GetVoteInfo {} => match stored {
            Some(state) => Ok(query_vote_info(state)),
            None => Err(ContractError::NotInitialized {}),
        },
    }
}

/// The index of the entry of `tally` that lists `candidate`, if there is one.
pub fn find_candidate(tally: &Vec<Vote>, candidate: &String) -> (r: Option<usize>)
    ensures
        match r {
            Some(i) => i < tally@.len() && tally@[i as int].candidate@ == candidate@,
            None => forall|j: int| 0 <= j < tally@.len() ==> tally@[j].candidate@ != candidate@,
        },
{
    let mut i: usize = 0;
    while i < tally.len()
        invariant
            i <= tally@.len(),
            forall|j: int| 0 <= j < i ==> tally@[j].candidate@ != candidate@,
        decreases tally@.len() - i,
    {
        if tally[i].candidate == *candidate {
            return Some(i);
        }
        i = i + 1;
    }
    None
}

/// Groups the vote log by candidate. The entries come in the order in which
/// each candidate first received a vote; candidates without votes are not listed.
pub fn query_vote_info(state: &State) -> (r: VoteResponse)
    requires
        state.votes@.len() <= u32::MAX,
    ensures
        r.start == state.start,
        r.end == state.end,
        is_tally_of(r.votes@, state.votes@),
        total_of(r.votes@) == state.votes@.len(),
{
    let mut votes: Vec<Vote> = Vec::new();
    let mut k: usize = 0;
    while k < state.votes.len()
        invariant
            k <= state.votes@.len(),
            state.votes@.len() <= u32::MAX,
            is_tally_of(votes@, state.votes@.take(k as int)),
            total_of(votes@) == k,
        decreases state.votes@.len() - k,
    {
        let ghost before = votes@;
        let ghost seen = state.votes@.take(k as int);
        let ghost now = state.votes@.take(k as int + 1);
        let candidate = &state.votes[k].candidate;
        proof {
            assert(now.drop_last() =~= seen);
            assert(now.last() == state.votes@[k as int]);
            assert forall|j: int| 0 <= j < k implies now[j] == seen[j] by {}
        }
        match find_candidate(&votes, candidate) {
            Some(i) => {
                proof {
                    lemma_entry_le_total(votes@, i as int);
                }
                let count = votes[i].count + 1;
                let entry = Vote { candidate: votes[i].candidate.clone(), count };
                proof {
                    lemma_total_update(votes@, i as int, entry);
                }
                votes.set(i, entry);
                proof {
                    assert forall|m: int| 0 <= m < k + 1 implies exists|j: int|
                        0 <= j < votes@.len() && #[trigger] votes@[j].candidate@
                            == #[trigger] now[m].candidate@ by {
                        if m < k {
                            let j = choose|j: int|
                                0 <= j < before.len() && #[trigger] before[j].candidate@
                                    == seen[m].candidate@;
                            assert(votes@[j].candidate@ == before[j].candidate@);
                        } else {
                            assert(votes@[i as int].candidate@ == now[m].candidate@);
                        }
                    }
                }
            },
            None => {
                votes.push(Vote { candidate: candidate.clone(), count: 1 });
                proof {
                    if count_of(seen, candidate@) > 0 {
                        lemma_counted_candidate_voted(seen, candidate@);
                    }
                    assert(votes@.drop_last() =~= before);
                    assert forall|m: int| 0 <= m < k + 1 implies exists|j: int|
                        0 <= j < votes@.len() && #[trigger] votes@[j].candidate@
                            == #[trigger] now[m].candidate@ by {
                        if m < k {
                            let j = choose|j: int|
                                0 <= j < before.len() && #[trigger] before[j].candidate@
                                    == seen[m].candidate@;
                            assert(votes@[j] == before[j]);
                        } else {
                            assert(votes@[before.len() as int].candidate@ == now[m].candidate@);
                        }
                    }
                }
            },
        }
        k = k + 1;
    }
    proof {
        assert(state.votes@.take(k as int) =~= state.votes@);
    }
    VoteResponse { start: state.start, end: state.end, votes }
}

} // verus!
