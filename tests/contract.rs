use voting::contract::{find_candidate, handle, init, query, query_vote_info, try_vote};
use voting::error::ContractError;
use voting::msg::{HandleMsg, InitMsg, QueryMsg, Vote, VoteResponse};
use voting::state::{State, VoteInfo};

fn created(start: u64, end: u64) -> Option<State> {
    let mut stored = None;
    init(&mut stored, InitMsg { start, end, candidates: Vec::new() }).unwrap();
    stored
}

fn cast(stored: &mut Option<State>, height: u64, voter: &str, candidate: &str) -> Result<(), ContractError> {
    handle(stored, height, voter.to_string(), HandleMsg::Vote { candidate: candidate.to_string() })
}

fn tally(stored: &Option<State>) -> VoteResponse {
    query(stored, QueryMsg::GetVoteInfo {}).unwrap()
}

fn count_for(resp: &VoteResponse, candidate: &str) -> u32 {
    resp.votes.iter().filter(|v| v.candidate == candidate).map(|v| v.count).sum()
}

#[test]
fn proper_initialization() {
    let mut stored = None;
    let msg = InitMsg { start: 10, end: 100, candidates: Vec::new() };
    assert_eq!(Ok(()), init(&mut stored, msg));

    let value = tally(&stored);
    assert_eq!(10, value.start);
    assert_eq!(100, value.end);
}

#[test]
fn vote() {
    let mut candidates: Vec<String> = Vec::new();
    candidates.push("candidates1".into());
    candidates.push("candidates2".into());
    let mut stored = None;
    let msg = InitMsg { start: 10_000, end: 20_000, candidates: Vec::new() };
    init(&mut stored, msg).unwrap();

    let msg = HandleMsg::Vote { candidate: "candidates1".into() };
    handle(&mut stored, 12_345, "voter1".to_string(), msg).unwrap();

    let value = tally(&stored);
    assert_eq!(10_000, value.start);
    assert_eq!(20_000, value.end);
    assert_eq!("candidates1", value.votes[0].candidate);
    assert_eq!(1, value.votes[0].count);
}

#[test]
fn initialization_gives_empty_tally() {
    let stored = created(10, 100);
    assert_eq!(VoteResponse { start: 10, end: 100, votes: Vec::new() }, tally(&stored));
}

#[test]
fn init_keeps_roster_and_empty_log() {
    let mut stored = None;
    let roster = vec!["a".to_string(), "b".to_string()];
    init(&mut stored, InitMsg { start: 1, end: 2, candidates: roster.clone() }).unwrap();
    let state = stored.unwrap();
    assert_eq!(roster, state.candidates);
    assert!(state.votes.is_empty());
}

#[test]
fn second_init_is_refused_and_keeps_state() {
    let mut stored = created(10, 100);
    cast(&mut stored, 50, "v", "c").unwrap();
    let again = init(&mut stored, InitMsg { start: 0, end: 1, candidates: Vec::new() });
    assert_eq!(Err(ContractError::AlreadyInitialized {}), again);
    let value = tally(&stored);
    assert_eq!((10, 100), (value.start, value.end));
    assert_eq!(1, count_for(&value, "c"));
}

#[test]
fn vote_before_init_is_refused() {
    let mut stored: Option<State> = None;
    assert_eq!(Err(ContractError::NotInitialized {}), cast(&mut stored, 5, "v", "c"));
    assert!(stored.is_none());
}

#[test]
fn query_before_init_is_refused() {
    let stored: Option<State> = None;
    assert_eq!(Err(ContractError::NotInitialized {}), query(&stored, QueryMsg::GetVoteInfo {}));
}

#[test]
fn vote_outside_window_is_refused() {
    let mut stored = created(10, 100);
    for now in [0u64, 9, 101, u64::MAX] {
        assert_eq!(Err(ContractError::NotAllowance { begin: 10, end: 100 }), cast(&mut stored, now, "v", "c"));
    }
    assert!(tally(&stored).votes.is_empty());
    assert!(stored.unwrap().votes.is_empty());
}

#[test]
fn vote_inside_window_adds_one() {
    let mut stored = created(10, 100);
    for (i, now) in [10u64, 11, 55, 100].iter().enumerate() {
        cast(&mut stored, *now, "v", "c").unwrap();
        assert_eq!(i as u32 + 1, count_for(&tally(&stored), "c"));
    }
}

#[test]
fn aggregation_counts_each_candidate() {
    let mut stored = created(0, 10);
    let ballots = ["a", "b", "a", "c", "a", "b"];
    for (i, c) in ballots.iter().enumerate() {
        cast(&mut stored, 5, &format!("voter{}", i), c).unwrap();
    }
    let value = tally(&stored);
    assert_eq!(3, value.votes.len());
    assert_eq!(3, count_for(&value, "a"));
    assert_eq!(2, count_for(&value, "b"));
    assert_eq!(1, count_for(&value, "c"));
    assert_eq!(6u32, value.votes.iter().map(|v| v.count).sum::<u32>());
}

#[test]
fn tally_lists_candidates_in_order_of_first_vote() {
    let mut stored = created(0, 10);
    for c in ["b", "a", "b", "c"] {
        cast(&mut stored, 1, "v", c).unwrap();
    }
    let value = tally(&stored);
    let names: Vec<&str> = value.votes.iter().map(|v| v.candidate.as_str()).collect();
    assert_eq!(vec!["b", "a", "c"], names);
}

#[test]
fn same_voter_twice_counts_twice() {
    let mut stored = created(0, 10);
    cast(&mut stored, 3, "voter1", "c").unwrap();
    cast(&mut stored, 4, "voter1", "c").unwrap();
    assert_eq!(2, count_for(&tally(&stored), "c"));
    assert_eq!(2, stored.unwrap().votes.len());
}

#[test]
fn vote_outside_roster_is_accepted() {
    let mut stored = None;
    init(&mut stored, InitMsg { start: 0, end: 10, candidates: vec!["a".to_string()] }).unwrap();
    cast(&mut stored, 1, "v", "zzz").unwrap();
    assert_eq!(1, count_for(&tally(&stored), "zzz"));
    assert_eq!(0, count_for(&tally(&stored), "a"));
}

#[test]
fn shuffled_votes_give_same_counts() {
    let mut first = created(0, 10);
    let mut second = created(0, 10);
    let ballots = ["a", "b", "a", "c"];
    for c in ballots {
        cast(&mut first, 1, "v", c).unwrap();
    }
    for c in ballots.iter().rev() {
        cast(&mut second, 1, "v", c).unwrap();
    }
    let (t1, t2) = (tally(&first), tally(&second));
    for c in ["a", "b", "c", "d"] {
        assert_eq!(count_for(&t1, c), count_for(&t2, c));
    }
}

#[test]
fn end_to_end_scenario() {
    let mut stored = created(10_000, 20_000);
    cast(&mut stored, 15_000, "voter1", "candidates1").unwrap();
    let expected = VoteResponse {
        start: 10_000,
        end: 20_000,
        votes: vec![Vote { candidate: "candidates1".to_string(), count: 1 }],
    };
    assert_eq!(expected, tally(&stored));
}

#[test]
fn window_bounds_are_inclusive() {
    let mut stored = created(10, 100);
    assert_eq!(Ok(()), cast(&mut stored, 100, "v", "c"));
    assert_eq!(Ok(()), cast(&mut stored, 10, "v", "c"));
    assert_eq!(Err(ContractError::NotAllowance { begin: 10, end: 100 }), cast(&mut stored, 101, "v", "c"));
    assert_eq!(Err(ContractError::NotAllowance { begin: 10, end: 100 }), cast(&mut stored, 9, "v", "c"));
    assert_eq!(2, count_for(&tally(&stored), "c"));
}

#[test]
fn try_vote_records_voter_and_candidate() {
    let mut state = State { start: 5, end: 5, candidates: Vec::new(), votes: Vec::new() };
    try_vote(&mut state, 5, "alice".to_string(), "bob".to_string()).unwrap();
    assert_eq!(1, state.votes.len());
    let VoteInfo { voter, candidate } = &state.votes[0];
    assert_eq!(("alice", "bob"), (voter.as_str(), candidate.as_str()));
}

#[test]
fn query_vote_info_on_state() {
    let mut votes = Vec::new();
    for c in ["x", "y", "x"] {
        votes.push(VoteInfo { voter: "v".to_string(), candidate: c.to_string() });
    }
    let state = State { start: 1, end: 9, candidates: Vec::new(), votes };
    let value = query_vote_info(&state);
    assert_eq!(
        vec![Vote { candidate: "x".to_string(), count: 2 }, Vote { candidate: "y".to_string(), count: 1 }],
        value.votes
    );
}

#[test]
fn find_candidate_looks_up_entries() {
    let tally = vec![Vote { candidate: "x".to_string(), count: 2 }, Vote { candidate: "y".to_string(), count: 1 }];
    assert_eq!(Some(1), find_candidate(&tally, &"y".to_string()));
    assert_eq!(None, find_candidate(&tally, &"z".to_string()));
}
