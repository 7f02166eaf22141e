use vstd::prelude::*;

use crate::msg::Vote;
use crate::state::VoteInfo;

verus! {

/// The number of votes in `votes` cast for the candidate `c`.
pub open spec fn count_of(votes: Seq<VoteInfo>, c: Seq<char>) -> nat
    decreases votes.len(),
{
    if votes.len() == 0 {
        0
    } else {
        count_of(votes.drop_last(), c) + if votes.last().candidate@ == c {
            1nat
        } else {
            0nat
        }
    }
}

/// The count that `tally` lists for the candidate `c`, or zero where it lists none.
pub open spec fn listed_count(tally: Seq<Vote>, c: Seq<char>) -> nat
    decreases tally.len(),
{
    if tally.len() == 0 {
        0
    } else if tally.last().candidate@ == c {
        tally.last().count as nat
    } else {
        listed_count(tally.drop_last(), c)
    }
}

/// The sum of the counts of `tally`.
pub open spec fn total_of(tally: Seq<Vote>) -> nat
    decreases tally.len(),
{
    if tally.len() == 0 {
        0
    } else {
        total_of(tally.drop_last()) + tally.last().count as nat
    }
}

/// No candidate is listed twice.
pub open spec fn distinct_candidates(tally: Seq<Vote>) -> bool {
    forall|i: int, j: int|
        0 <= i < tally.len() && 0 <= j < tally.len() && i != j ==> tally[i].candidate@
            != tally[j].candidate@
}

/// `tally` groups `votes` by candidate: each candidate with at least one vote is
/// listed exactly once, with the number of votes naming it; no other is listed.
pub open spec fn is_tally_of(tally: Seq<Vote>, votes: Seq<VoteInfo>) -> bool {
    &&& distinct_candidates(tally)
    &&& forall|i: int|
        0 <= i < tally.len() ==> #[trigger] tally[i].count == count_of(votes, tally[i].candidate@)
            && tally[i].count > 0
    &&& forall|k: int|
        0 <= k < votes.len() ==> exists|i: int|
            0 <= i < tally.len() && #[trigger] tally[i].candidate@ == #[trigger] votes[k].candidate@
}

/// Counting over a concatenation adds the counts of the parts.
pub proof fn lemma_count_concat(a: Seq<VoteInfo>, b: Seq<VoteInfo>, c: Seq<char>)
    ensures
        count_of(a + b, c) == count_of(a, c) + count_of(b, c),
    decreases b.len(),
{
    if b.len() == 0 {
        assert(a + b =~= a);
    } else {
        lemma_count_concat(a, b.drop_last(), c);
        assert((a + b).drop_last() =~= a + b.drop_last());
    }
}

/// A candidate with a positive count is named by some vote.
pub proof fn lemma_counted_candidate_voted(votes: Seq<VoteInfo>, c: Seq<char>)
    requires
        count_of(votes, c) > 0,
    ensures
        exists|k: int| 0 <= k < votes.len() && votes[k].candidate@ == c,
    decreases votes.len(),
{
    if votes.last().candidate@ != c {
        lemma_counted_candidate_voted(votes.drop_last(), c);
        let k = choose|k: int| 0 <= k < votes.len() - 1 && votes.drop_last()[k].candidate@ == c;
        assert(votes[k] == votes.drop_last()[k]);
    }
}

proof fn lemma_listed_at(tally: Seq<Vote>, i: int)
    requires
        distinct_candidates(tally),
        0 <= i < tally.len(),
    ensures
        listed_count(tally, tally[i].candidate@) == tally[i].count,
    decreases tally.len(),
{
    if i != tally.len() - 1 {
        let t = tally.drop_last();
        assert(t[i] == tally[i]);
        lemma_listed_at(t, i);
    }
}

proof fn lemma_listed_absent(tally: Seq<Vote>, c: Seq<char>)
    requires
        forall|i: int| 0 <= i < tally.len() ==> tally[i].candidate@ != c,
    ensures
        listed_count(tally, c) == 0,
    decreases tally.len(),
{
    if tally.len() > 0 {
        let t = tally.drop_last();
        assert forall|i: int| 0 <= i < t.len() implies t[i].candidate@ != c by {
            assert(t[i] == tally[i]);
        }
        lemma_listed_absent(t, c);
    }
}

/// Replacing one entry changes the total by the difference of the counts.
pub proof fn lemma_total_update(tally: Seq<Vote>, i: int, v: Vote)
    requires
        0 <= i < tally.len(),
    ensures
        total_of(tally.update(i, v)) + tally[i].count == total_of(tally) + v.count,
    decreases tally.len(),
{
    if i != tally.len() - 1 {
        lemma_total_update(tally.drop_last(), i, v);
        assert(tally.update(i, v).drop_last() =~= tally.drop_last().update(i, v));
    } else {
        assert(tally.update(i, v).drop_last() =~= tally.drop_last());
    }
}

/// An entry's count is at most the total.
pub proof fn lemma_entry_le_total(tally: Seq<Vote>, i: int)
    requires
        0 <= i < tally.len(),
    ensures
        tally[i].count <= total_of(tally),
{
    lemma_total_update(tally, i, Vote { candidate: tally[i].candidate, count: 0 });
}

/// The count that a tally lists for any candidate is the number of votes naming it.
pub proof fn lemma_tally_counts(tally: Seq<Vote>, votes: Seq<VoteInfo>, c: Seq<char>)
    requires
        is_tally_of(tally, votes),
    ensures
        listed_count(tally, c) == count_of(votes, c),
{
    if exists|i: int| 0 <= i < tally.len() && tally[i].candidate@ == c {
        let i = choose|i: int| 0 <= i < tally.len() && tally[i].candidate@ == c;
        lemma_listed_at(tally, i);
        assert(tally[i].count == count_of(votes, tally[i].candidate@));
    } else {
        lemma_listed_absent(tally, c);
        if count_of(votes, c) > 0 {
            lemma_counted_candidate_voted(votes, c);
            let k = choose|k: int| 0 <= k < votes.len() && votes[k].candidate@ == c;
            assert(votes[k].candidate@ == c);
        }
    }
}

/// Appending one vote adds exactly one to the count of the candidate it names,
/// as any tally lists it, and leaves every other candidate's count unchanged.
pub proof fn lemma_accepted_vote_adds_one(
    before: Seq<Vote>,
    after: Seq<Vote>,
    votes: Seq<VoteInfo>,
    vote: VoteInfo,
    c: Seq<char>,
)
    requires
        is_tally_of(before, votes),
        is_tally_of(after, votes.push(vote)),
    ensures
        c == vote.candidate@ ==> listed_count(after, c) == listed_count(before, c) + 1,
        c != vote.candidate@ ==> listed_count(after, c) == listed_count(before, c),
{
    lemma_tally_counts(before, votes, c);
    lemma_tally_counts(after, votes.push(vote), c);
    assert(votes.push(vote).drop_last() =~= votes);
}

/// Votes are not merged by voter: two votes naming the same candidate, from
/// whichever voters, add two to that candidate's count.
pub proof fn lemma_repeated_vote_counts_twice(
    before: Seq<Vote>,
    after: Seq<Vote>,
    votes: Seq<VoteInfo>,
    vote: VoteInfo,
)
    requires
        is_tally_of(before, votes),
        is_tally_of(after, votes.push(vote).push(vote)),
    ensures
        listed_count(after, vote.candidate@) == listed_count(before, vote.candidate@) + 2,
{
    let c = vote.candidate@;
    lemma_tally_counts(before, votes, c);
    lemma_tally_counts(after, votes.push(vote).push(vote), c);
    let once = votes.push(vote);
    let twice = once.push(vote);
    assert(twice.drop_last() =~= once);
    assert(once.drop_last() =~= votes);
    assert(count_of(once, c) == count_of(votes, c) + 1);
    assert(count_of(twice, c) == count_of(once, c) + 1);
}

/// Removing one vote removes its contribution to the count.
pub proof fn lemma_count_remove(votes: Seq<VoteInfo>, k: int, c: Seq<char>)
    requires
        0 <= k < votes.len(),
    ensures
        count_of(votes, c) == count_of(votes.remove(k), c) + if votes[k].candidate@ == c {
            1nat
        } else {
            0nat
        },
{
    let front = votes.take(k);
    let back = votes.skip(k + 1);
    assert(votes =~= front + seq![votes[k]] + back);
    assert(votes.remove(k) =~= front + back);
    lemma_count_concat(front + seq![votes[k]], back, c);
    lemma_count_concat(front, seq![votes[k]], c);
    lemma_count_concat(front, back, c);
    let one = seq![votes[k]];
    assert(one.drop_last() =~= Seq::<VoteInfo>::empty());
    assert(count_of(one, c) == count_of(one.drop_last(), c) + if votes[k].candidate@ == c {
        1nat
    } else {
        0nat
    });
}

/// The count of a candidate depends only on which votes were cast, not on the
/// order in which they stand in the log.
pub proof fn lemma_count_order_independent(a: Seq<VoteInfo>, b: Seq<VoteInfo>, c: Seq<char>)
    requires
        a.to_multiset() == b.to_multiset(),
    ensures
        count_of(a, c) == count_of(b, c),
    decreases a.len(),
{
    broadcast use vstd::seq_lib::group_to_multiset_ensures;

    if a.len() == 0 {
        vstd::seq_lib::to_multiset_len(a);
        vstd::seq_lib::to_multiset_len(b);
    } else {
        let x = a.last();
        let rest = a.drop_last();
        assert(a =~= rest.push(x));
        assert(a.to_multiset().count(x) > 0);
        assert(b.contains(x));
        let j = choose|j: int| 0 <= j < b.len() && b[j] == x;
        assert(b.remove(j).to_multiset() =~= rest.to_multiset());
        lemma_count_order_independent(rest, b.remove(j), c);
        lemma_count_remove(b, j, c);
    }
}

/// Tallying the same votes in any order lists the same count for every candidate.
pub proof fn lemma_tally_order_independent(
    ta: Seq<Vote>,
    tb: Seq<Vote>,
    a: Seq<VoteInfo>,
    b: Seq<VoteInfo>,
    c: Seq<char>,
)
    requires
        a.to_multiset() == b.to_multiset(),
        is_tally_of(ta, a),
        is_tally_of(tb, b),
    ensures
        listed_count(ta, c) == listed_count(tb, c),
{
    lemma_tally_counts(ta, a, c);
    lemma_tally_counts(tb, b, c);
    lemma_count_order_independent(a, b, c);
}

} // verus!
