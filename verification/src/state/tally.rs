//! Arithmetic over per-seat vote tallies and seat flags, with the lemmas the
//! dispute state machine relies on.

use vstd::prelude::*;

verus! {

/// Sum of all tallies.
pub open spec fn total(votes: Seq<u64>) -> int
    decreases votes.len(),
{
    if votes.len() == 0 {
        0
    } else {
        total(votes.drop_last()) + votes.last()
    }
}

/// Largest tally, zero when there is none.
pub open spec fn max_of(votes: Seq<u64>) -> int
    decreases votes.len(),
{
    if votes.len() == 0 {
        0
    } else {
        let rest = max_of(votes.drop_last());
        if votes.last() > rest {
            votes.last() as int
        } else {
            rest
        }
    }
}

/// Number of seats whose tally is exactly `value`.
pub open spec fn count_of(votes: Seq<u64>, value: int) -> nat
    decreases votes.len(),
{
    if votes.len() == 0 {
        0
    } else {
        count_of(votes.drop_last(), value) + if votes.last() == value {
            1nat
        } else {
            0nat
        }
    }
}

/// First seat at or after `from` whose tally is `value`; the number of seats
/// when there is none.
pub open spec fn first_at(votes: Seq<u64>, value: int, from: int) -> int
    decreases votes.len() - from,
{
    if from < 0 || from >= votes.len() {
        votes.len() as int
    } else if votes[from] == value {
        from
    } else {
        first_at(votes, value, from + 1)
    }
}

/// Number of raised flags.
pub open spec fn count_true(flags: Seq<bool>) -> nat
    decreases flags.len(),
{
    if flags.len() == 0 {
        0
    } else {
        count_true(flags.drop_last()) + if flags.last() {
            1nat
        } else {
            0nat
        }
    }
}

/// Seat `i` holds strictly more votes than every other seat.
pub open spec fn is_sole_leader(votes: Seq<u64>, i: int) -> bool {
    &&& 0 <= i < votes.len()
    &&& forall|j: int| 0 <= j < votes.len() && j != i ==> votes[j] < votes[i]
}

pub proof fn lemma_total_bounds(votes: Seq<u64>)
    ensures
        0 <= total(votes),
        forall|i: int| 0 <= i < votes.len() ==> votes[i] <= total(votes),
    decreases votes.len(),
{
    if votes.len() > 0 {
        lemma_total_bounds(votes.drop_last());
        assert forall|i: int| 0 <= i < votes.len() implies votes[i] <= total(votes) by {
            if i < votes.len() - 1 {
                assert(votes.drop_last()[i] == votes[i]);
            }
        }
    }
}

/// The tallies of a prefix sum to no more than those of the whole.
pub proof fn lemma_total_prefix(votes: Seq<u64>, n: int)
    requires
        0 <= n <= votes.len(),
    ensures
        0 <= total(votes.subrange(0, n)) <= total(votes),
    decreases votes.len(),
{
    lemma_total_bounds(votes.subrange(0, n));
    if n == votes.len() {
        assert(votes.subrange(0, n) =~= votes);
    } else {
        lemma_total_prefix(votes.drop_last(), n);
        assert(votes.drop_last().subrange(0, n) =~= votes.subrange(0, n));
    }
}

/// Extending a prefix by one seat adds that seat's tally.
pub proof fn lemma_total_step(votes: Seq<u64>, n: int)
    requires
        0 <= n < votes.len(),
    ensures
        total(votes.subrange(0, n + 1)) == total(votes.subrange(0, n)) + votes[n],
{
    assert(votes.subrange(0, n + 1).drop_last() =~= votes.subrange(0, n));
}

/// All tallies are zero exactly when their sum is.
pub proof fn lemma_total_zero(votes: Seq<u64>)
    ensures
        total(votes) == 0 <==> (forall|i: int| 0 <= i < votes.len() ==> votes[i] == 0),
{
    lemma_total_bounds(votes);
    if forall|i: int| 0 <= i < votes.len() ==> votes[i] == 0 {
        lemma_all_zero_total(votes);
    }
}

proof fn lemma_all_zero_total(votes: Seq<u64>)
    requires
        forall|i: int| 0 <= i < votes.len() ==> votes[i] == 0,
    ensures
        total(votes) == 0,
    decreases votes.len(),
{
    if votes.len() > 0 {
        assert forall|i: int| 0 <= i < votes.drop_last().len() implies votes.drop_last()[i]
            == 0 by {
            assert(votes.drop_last()[i] == votes[i]);
        }
        lemma_all_zero_total(votes.drop_last());
    }
}

/// Raising one tally by one raises the sum by one.
pub proof fn lemma_total_increment(votes: Seq<u64>, i: int, raised: u64)
    requires
        0 <= i < votes.len(),
        raised == votes[i] + 1,
    ensures
        total(votes.update(i, raised)) == total(votes) + 1,
    decreases votes.len(),
{
    let after = votes.update(i, raised);
    if i == votes.len() - 1 {
        assert(after.drop_last() =~= votes.drop_last());
    } else {
        lemma_total_increment(votes.drop_last(), i, raised);
        assert(after.drop_last() =~= votes.drop_last().update(i, raised));
    }
}

pub proof fn lemma_max_bounds(votes: Seq<u64>)
    ensures
        0 <= max_of(votes) <= u64::MAX,
        forall|i: int| 0 <= i < votes.len() ==> votes[i] <= max_of(votes),
        votes.len() > 0 ==> exists|i: int| 0 <= i < votes.len() && votes[i] == max_of(votes),
    decreases votes.len(),
{
    if votes.len() > 0 {
        let rest = votes.drop_last();
        lemma_max_bounds(rest);
        assert forall|i: int| 0 <= i < votes.len() implies votes[i] <= max_of(votes) by {
            if i < votes.len() - 1 {
                assert(rest[i] == votes[i]);
            }
        }
        if votes.last() > max_of(rest) || rest.len() == 0 {
            assert(votes[votes.len() - 1] == max_of(votes));
        } else {
            let i = choose|i: int| 0 <= i < rest.len() && rest[i] == max_of(rest);
            assert(votes[i] == max_of(votes));
        }
    }
}

/// Extending a prefix by one seat keeps the larger of its maximum and that
/// seat's tally.
pub proof fn lemma_max_step(votes: Seq<u64>, n: int)
    requires
        0 <= n < votes.len(),
    ensures
        max_of(votes.subrange(0, n + 1)) == if votes[n] > max_of(votes.subrange(0, n)) {
            votes[n] as int
        } else {
            max_of(votes.subrange(0, n))
        },
{
    assert(votes.subrange(0, n + 1).drop_last() =~= votes.subrange(0, n));
}

pub proof fn lemma_count_of_step(votes: Seq<u64>, value: int, n: int)
    requires
        0 <= n < votes.len(),
    ensures
        count_of(votes.subrange(0, n + 1), value) == count_of(votes.subrange(0, n), value)
            + if votes[n] == value {
            1nat
        } else {
            0nat
        },
{
    assert(votes.subrange(0, n + 1).drop_last() =~= votes.subrange(0, n));
}

pub proof fn lemma_count_of_bounds(votes: Seq<u64>, value: int)
    ensures
        count_of(votes, value) <= votes.len(),
        count_of(votes, value) == 0 <==> (forall|i: int|
            0 <= i < votes.len() ==> votes[i] != value),
    decreases votes.len(),
{
    if votes.len() > 0 {
        let rest = votes.drop_last();
        lemma_count_of_bounds(rest, value);
        if count_of(votes, value) == 0 {
            assert forall|i: int| 0 <= i < votes.len() implies votes[i] != value by {
                if i < votes.len() - 1 {
                    assert(rest[i] == votes[i]);
                }
            }
        }
        if forall|i: int| 0 <= i < votes.len() ==> votes[i] != value {
            assert forall|i: int| 0 <= i < rest.len() implies rest[i] != value by {
                assert(rest[i] == votes[i]);
            }
        }
    }
}

/// A value that occurs exactly once occurs at `first_at` and nowhere else.
pub proof fn lemma_count_of_one(votes: Seq<u64>, value: int)
    requires
        count_of(votes, value) == 1,
    ensures
        0 <= first_at(votes, value, 0) < votes.len(),
        votes[first_at(votes, value, 0)] == value,
        forall|j: int|
            0 <= j < votes.len() && j != first_at(votes, value, 0) ==> votes[j] != value,
    decreases votes.len(),
{
    let rest = votes.drop_last();
    lemma_count_of_bounds(rest, value);
    lemma_first_at(votes, value, 0);
    if votes.last() == value {
        assert forall|j: int| 0 <= j < votes.len() - 1 implies votes[j] != value by {
            assert(rest[j] == votes[j]);
        }
    } else {
        lemma_count_of_one(rest, value);
        lemma_first_at(rest, value, 0);
        let k = first_at(rest, value, 0);
        assert(votes[k] == value);
        assert forall|j: int| 0 <= j < votes.len() && j != k implies votes[j] != value by {
            if j < votes.len() - 1 {
                assert(rest[j] == votes[j]);
            }
        }
    }
}

/// What `first_at` returns: the first match, or the length when none.
pub proof fn lemma_first_at(votes: Seq<u64>, value: int, from: int)
    requires
        0 <= from <= votes.len(),
    ensures
        from <= first_at(votes, value, from) <= votes.len(),
        first_at(votes, value, from) < votes.len() ==> votes[first_at(votes, value, from)]
            == value,
        forall|j: int| from <= j < first_at(votes, value, from) ==> votes[j] != value,
    decreases votes.len() - from,
{
    if from < votes.len() && votes[from] != value {
        lemma_first_at(votes, value, from + 1);
    }
}

pub proof fn lemma_count_true_bounds(flags: Seq<bool>)
    ensures
        count_true(flags) <= flags.len(),
        count_true(flags) == flags.len() <==> (forall|i: int|
            0 <= i < flags.len() ==> flags[i]),
    decreases flags.len(),
{
    if flags.len() > 0 {
        let rest = flags.drop_last();
        lemma_count_true_bounds(rest);
        if count_true(flags) == flags.len() {
            assert forall|i: int| 0 <= i < flags.len() implies flags[i] by {
                if i < flags.len() - 1 {
                    assert(rest[i] == flags[i]);
                }
            }
        }
        if forall|i: int| 0 <= i < flags.len() ==> flags[i] {
            assert forall|i: int| 0 <= i < rest.len() implies rest[i] by {
                assert(rest[i] == flags[i]);
            }
        }
    }
}

/// Raising a lowered flag raises the count by one.
pub proof fn lemma_count_true_raise(flags: Seq<bool>, i: int)
    requires
        0 <= i < flags.len(),
        !flags[i],
    ensures
        count_true(flags.update(i, true)) == count_true(flags) + 1,
    decreases flags.len(),
{
    let after = flags.update(i, true);
    if i == flags.len() - 1 {
        assert(after.drop_last() =~= flags.drop_last());
    } else {
        lemma_count_true_raise(flags.drop_last(), i);
        assert(after.drop_last() =~= flags.drop_last().update(i, true));
    }
}

/// Flags that are raised only where others are number no more than those.
pub proof fn lemma_count_true_subset(inner: Seq<bool>, outer: Seq<bool>)
    requires
        inner.len() == outer.len(),
        forall|i: int| 0 <= i < inner.len() && inner[i] ==> outer[i],
    ensures
        count_true(inner) <= count_true(outer),
    decreases inner.len(),
{
    if inner.len() > 0 {
        assert forall|i: int| 0 <= i < inner.len() - 1 implies !inner.drop_last()[i]
            || outer.drop_last()[i] by {
            assert(inner.drop_last()[i] == inner[i]);
            assert(outer.drop_last()[i] == outer[i]);
        }
        lemma_count_true_subset(inner.drop_last(), outer.drop_last());
    }
}

/// No flags are raised in a sequence of lowered flags.
pub proof fn lemma_count_true_none(flags: Seq<bool>)
    requires
        forall|i: int| 0 <= i < flags.len() ==> !flags[i],
    ensures
        count_true(flags) == 0,
    decreases flags.len(),
{
    if flags.len() > 0 {
        assert forall|i: int| 0 <= i < flags.len() - 1 implies !flags.drop_last()[i] by {
            assert(flags.drop_last()[i] == flags[i]);
        }
        lemma_count_true_none(flags.drop_last());
    }
}

/// Raising one tally by one moves the maximum only if the raised tally
/// exceeds it.
pub proof fn lemma_max_increment(votes: Seq<u64>, i: int, raised: u64)
    requires
        0 <= i < votes.len(),
        raised == votes[i] + 1,
    ensures
        max_of(votes.update(i, raised)) == if raised > max_of(votes) {
            raised as int
        } else {
            max_of(votes)
        },
    decreases votes.len(),
{
    let after = votes.update(i, raised);
    lemma_max_bounds(votes);
    lemma_max_bounds(votes.drop_last());
    if i == votes.len() - 1 {
        assert(after.drop_last() =~= votes.drop_last());
    } else {
        lemma_max_increment(votes.drop_last(), i, raised);
        assert(after.drop_last() =~= votes.drop_last().update(i, raised));
        assert(votes.drop_last()[i] == votes[i]);
    }
}

/// Extending a prefix by one flag adds one to the count when the flag is
/// raised.
pub proof fn lemma_count_true_step(flags: Seq<bool>, n: int)
    requires
        0 <= n < flags.len(),
    ensures
        count_true(flags.subrange(0, n + 1)) == count_true(flags.subrange(0, n)) + if flags[n] {
            1nat
        } else {
            0nat
        },
{
    assert(flags.subrange(0, n + 1).drop_last() =~= flags.subrange(0, n));
}

/// A value that occurs at one seat only is counted once.
pub proof fn lemma_count_of_unique(votes: Seq<u64>, value: int, i: int)
    requires
        0 <= i < votes.len(),
        votes[i] == value,
        forall|j: int| 0 <= j < votes.len() && j != i ==> votes[j] != value,
    ensures
        count_of(votes, value) == 1,
    decreases votes.len(),
{
    let rest = votes.drop_last();
    if i == votes.len() - 1 {
        assert forall|j: int| 0 <= j < rest.len() implies rest[j] != value by {
            assert(rest[j] == votes[j]);
        }
        lemma_count_of_bounds(rest, value);
    } else {
        assert(rest[i] == votes[i]);
        assert forall|j: int| 0 <= j < rest.len() && j != i implies rest[j] != value by {
            assert(rest[j] == votes[j]);
        }
        lemma_count_of_unique(rest, value, i);
    }
}

/// The sole leader holds the largest tally, which no other seat holds.
pub proof fn lemma_sole_leader(votes: Seq<u64>, i: int)
    requires
        is_sole_leader(votes, i),
    ensures
        max_of(votes) == votes[i],
        count_of(votes, votes[i] as int) == 1,
        first_at(votes, votes[i] as int, 0) == i,
{
    lemma_max_bounds(votes);
    lemma_count_of_unique(votes, votes[i] as int, i);
    lemma_first_at(votes, votes[i] as int, 0);
}

/// One seat is the sole leader exactly when the largest tally occurs once,
/// and then it is the first seat with that tally.
pub proof fn lemma_sole_leader_iff(votes: Seq<u64>)
    ensures
        (exists|i: int| is_sole_leader(votes, i)) <==> count_of(votes, max_of(votes)) == 1,
        count_of(votes, max_of(votes)) == 1 ==> is_sole_leader(
            votes,
            first_at(votes, max_of(votes), 0),
        ),
{
    lemma_max_bounds(votes);
    if exists|i: int| is_sole_leader(votes, i) {
        let i = choose|i: int| is_sole_leader(votes, i);
        lemma_sole_leader(votes, i);
    }
    if count_of(votes, max_of(votes)) == 1 {
        lemma_count_of_one(votes, max_of(votes));
        assert(is_sole_leader(votes, first_at(votes, max_of(votes), 0)));
    }
}

/// The tallies after one more vote for seat `i`.
pub open spec fn raised(votes: Seq<u64>, i: int) -> Seq<u64> {
    votes.update(i, (votes[i] + 1) as u64)
}

/// Votes can be counted in any order: two votes give the same tallies
/// whichever is counted first.
pub proof fn lemma_votes_commute(votes: Seq<u64>, i: int, j: int)
    requires
        0 <= i < votes.len(),
        0 <= j < votes.len(),
        total(votes) + 2 <= u64::MAX,
    ensures
        raised(raised(votes, i), j) == raised(raised(votes, j), i),
        total(raised(raised(votes, i), j)) == total(votes) + 2,
{
    lemma_total_bounds(votes);
    lemma_total_increment(votes, i, (votes[i] + 1) as u64);
    lemma_total_bounds(raised(votes, i));
    lemma_total_increment(raised(votes, i), j, (raised(votes, i)[j] + 1) as u64);
    assert(raised(raised(votes, i), j) =~= raised(raised(votes, j), i));
}

} // verus!
