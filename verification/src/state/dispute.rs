//! A dispute: its seats, tallies, deadlines and the status that the guards
//! advance.

use crate::error::InputError;
use crate::pubkey::Pubkey;
use crate::state::tally::{
    count_of, count_true, first_at, is_sole_leader, lemma_count_of_one, lemma_count_of_step,
    lemma_count_true_bounds, lemma_count_true_raise, lemma_count_true_step, lemma_max_bounds,
    lemma_max_increment, lemma_max_step, lemma_sole_leader, lemma_sole_leader_iff,
    lemma_total_bounds, lemma_total_increment, lemma_total_prefix, lemma_total_step, max_of,
    raised, total,
};
use vstd::prelude::*;

verus! {

/// Most seats a dispute can have: the seat counters are single bytes.
pub const MAX_SEATS: usize = 255;

/// Deadlines, stakes and incentives of one dispute, fixed at creation.
#[derive(Clone, Copy, Debug, PartialEq, Eq)]
pub struct DisputeConfiguration {
    /// Time after which seats can no longer be taken.
    pub grace_ends_at: i64,
    /// Time after which cases can no longer be submitted.
    pub init_cases_ends_at: i64,
    /// Time after which votes can no longer be committed.
    pub voting_ends_at: i64,
    /// Time after which votes can no longer be revealed.
    pub dispute_ends_at: i64,
    /// Reputation a voter must hold, escrowed and liquid together.
    pub voter_rep_required: u64,
    /// Reputation a voter stakes with a commitment.
    pub voter_rep_cost: u64,
    /// Reputation a party stakes when taking a seat.
    pub rep_cost: u64,
    /// Payment a party stakes when taking a seat.
    pub pay_cost: u64,
    /// Fewest revealed votes for which a winner is declared.
    pub min_votes: u64,
    /// Payment the protocol adds to the pool.
    pub protocol_pay: u64,
    /// Reputation the protocol adds to the pool.
    pub protocol_rep: u64,
}

impl DisputeConfiguration {
    /// Stored size in bytes.
    pub const SIZE: usize = 88;

    /// The four deadlines are strictly increasing.
    pub open spec fn deadlines_ordered(&self) -> bool {
        &&& self.grace_ends_at < self.init_cases_ends_at
        &&& self.init_cases_ends_at < self.voting_ends_at
        &&& self.voting_ends_at < self.dispute_ends_at
    }

    /// Whether the four deadlines are strictly increasing.
    pub fn has_ordered_deadlines(&self) -> (ordered: bool)
        ensures
            ordered == self.deadlines_ordered(),
    {
        self.grace_ends_at < self.init_cases_ends_at && self.init_cases_ends_at
            < self.voting_ends_at && self.voting_ends_at < self.dispute_ends_at
    }
}

/// Where a dispute stands in its lifecycle.
#[derive(Clone, Copy, Debug, PartialEq, Eq)]
pub enum DisputeStatus {
    /// Seats are being taken; no case has been submitted.
    Grace,
    /// Cases are being submitted.
    Waiting,
    /// Votes are being committed.
    Voting,
    /// Committed votes are being revealed.
    Reveal,
    /// Closed, with the winner if one was declared.
    Concluded { winner: Option<Pubkey> },
}

impl DisputeStatus {
    /// Stored size in bytes.
    pub const SIZE: usize = 34;

    /// Position of the status on the path from `Grace` to `Concluded`.
    pub open spec fn rank(self) -> nat {
        match self {
            DisputeStatus::Grace => 0,
            DisputeStatus::Waiting => 1,
            DisputeStatus::Voting => 2,
            DisputeStatus::Reveal => 3,
            DisputeStatus::Concluded { .. } => 4,
        }
    }

    /// What one operation can do to a status: leave it, move it one step
    /// along the path, or conclude the dispute. A concluded dispute stays as
    /// it is.
    pub open spec fn steps_to(self, next: DisputeStatus) -> bool {
        ||| next == self
        ||| !(self is Concluded) && next.rank() == self.rank() + 1
        ||| !(self is Concluded) && next is Concluded
    }

    /// `next` is this status or a later one on the path, and a concluded
    /// dispute keeps its verdict.
    pub open spec fn may_become(self, next: DisputeStatus) -> bool {
        &&& self.rank() <= next.rank()
        &&& self is Concluded ==> next == self
    }

    /// A status never regresses. Every operation takes one step, a step
    /// leads to the same or a later status, and so does any number of
    /// steps: in a history in which each status steps to the next, every
    /// status is the same as or later than all that came before it.
    pub proof fn lemma_never_regresses(history: Seq<DisputeStatus>, earlier: int, later: int)
        requires
            forall|k: int|
                0 <= k < history.len() - 1 ==> (#[trigger] history[k]).steps_to(history[k + 1]),
            0 <= earlier <= later < history.len(),
        ensures
            history[earlier].may_become(history[later]),
        decreases later - earlier,
    {
        if earlier < later {
            Self::lemma_never_regresses(history, earlier, later - 1);
            assert(history[later - 1].steps_to(history[later]));
        }
    }

    /// Whether the dispute has been closed.
    pub fn is_concluded(&self) -> (concluded: bool)
        ensures
            concluded == (*self is Concluded),
    {
        match self {
            DisputeStatus::Concluded { .. } => true,
            _ => false,
        }
    }
}

/// First seat at or after `from` that holds `key`; the number of seats when
/// none does.
pub open spec fn first_match(users: Seq<Option<Pubkey>>, key: Pubkey, from: int) -> int
    decreases users.len() - from,
{
    if from < 0 || from >= users.len() {
        users.len() as int
    } else if users[from] == Some(key) {
        from
    } else {
        first_match(users, key, from + 1)
    }
}

/// First vacant seat at or after `from`; the number of seats when none is.
pub open spec fn first_vacant(users: Seq<Option<Pubkey>>, from: int) -> int
    decreases users.len() - from,
{
    if from < 0 || from >= users.len() {
        users.len() as int
    } else if users[from] is None {
        from
    } else {
        first_vacant(users, from + 1)
    }
}

/// The seat a participant takes: the first reserved for them, else the first
/// vacant one; the number of seats when there is neither.
pub open spec fn seat_for(users: Seq<Option<Pubkey>>, key: Pubkey) -> int {
    if first_match(users, key, 0) < users.len() {
        first_match(users, key, 0)
    } else {
        first_vacant(users, 0)
    }
}

/// What `first_match` returns: the first seat holding `key`, or the number
/// of seats when none does.
pub proof fn lemma_first_match(users: Seq<Option<Pubkey>>, key: Pubkey, from: int)
    requires
        0 <= from <= users.len(),
    ensures
        from <= first_match(users, key, from) <= users.len(),
        first_match(users, key, from) < users.len() ==> users[first_match(users, key, from)]
            == Some(key),
        forall|j: int| from <= j < first_match(users, key, from) ==> users[j] != Some(key),
    decreases users.len() - from,
{
    if from < users.len() && users[from] != Some(key) {
        lemma_first_match(users, key, from + 1);
    }
}

/// The first seat holding `key` is `at` when seat `at` holds it and no
/// earlier seat does.
pub proof fn lemma_first_match_at(users: Seq<Option<Pubkey>>, key: Pubkey, at: int)
    requires
        0 <= at < users.len(),
        users[at] == Some(key),
        forall|j: int| 0 <= j < at ==> users[j] != Some(key),
    ensures
        first_match(users, key, 0) == at,
{
    lemma_first_match(users, key, 0);
}

/// What `first_vacant` returns: the first vacant seat, or the number of seats
/// when none is.
pub proof fn lemma_first_vacant(users: Seq<Option<Pubkey>>, from: int)
    requires
        0 <= from <= users.len(),
    ensures
        from <= first_vacant(users, from) <= users.len(),
        first_vacant(users, from) < users.len() ==> users[first_vacant(users, from)] is None,
        forall|j: int| from <= j < first_vacant(users, from) ==> users[j] is Some,
    decreases users.len() - from,
{
    if from < users.len() && users[from] is Some {
        lemma_first_vacant(users, from + 1);
    }
}

/// One dispute. Seat `i` is described by `users[i]`, `votes[i]`, `staked[i]`
/// and `has_case[i]`.
#[derive(Clone, Debug, PartialEq, Eq)]
pub struct Dispute {
    /// Who holds each seat; `None` while the seat is vacant.
    pub users: Vec<Option<Pubkey>>,
    /// Revealed votes for the case of each seat.
    pub votes: Vec<u64>,
    /// Whether the holder of each seat has interacted and staked.
    pub staked: Vec<bool>,
    /// Whether the holder of each seat has submitted a case.
    pub has_case: Vec<bool>,
    /// Current status.
    pub status: DisputeStatus,
    /// Number of seats whose holder has staked.
    pub interactions: u8,
    /// Number of seats with a case.
    pub submitted_cases: u8,
    /// Deadlines, stakes and incentives.
    pub config: DisputeConfiguration,
    /// Address seed of the stored record.
    pub bump: u8,
}

impl Dispute {
    /// The invariant every operation keeps. There are between one and 255
    /// seats, each with a tally and two flags. The deadlines are strictly
    /// increasing. The counters count the flags. A staked seat is held, and
    /// is the first seat of its holder; only staked seats have cases; only
    /// seats with cases have votes. The tallies sum to no more than fits in
    /// 64 bits. No vote is tallied before the reveal period and no case
    /// submitted in the grace period. A declared winner holds the one seat
    /// with the most votes, which has at least one.
    pub open spec fn wf(&self) -> bool {
        &&& 1 <= self.users@.len() <= MAX_SEATS
        &&& self.votes@.len() == self.users@.len()
        &&& self.staked@.len() == self.users@.len()
        &&& self.has_case@.len() == self.users@.len()
        &&& self.config.deadlines_ordered()
        &&& self.interactions == count_true(self.staked@)
        &&& self.submitted_cases == count_true(self.has_case@)
        &&& forall|i: int|
            0 <= i < self.users@.len() && self.staked@[i] ==> self.users@[i] is Some
                && first_match(self.users@, self.users@[i]->0, 0) == i
        &&& forall|i: int| 0 <= i < self.users@.len() && self.has_case@[i] ==> self.staked@[i]
        &&& forall|i: int| 0 <= i < self.users@.len() && self.votes@[i] > 0 ==> self.has_case@[i]
        &&& total(self.votes@) <= u64::MAX
        &&& self.status.rank() < 3 ==> total(self.votes@) == 0
        &&& self.status is Grace ==> self.submitted_cases == 0
        &&& match self.status {
            DisputeStatus::Concluded { winner: Some(w) } => exists|i: int|
                #![trigger self.users@[i]]
                {
                    &&& is_sole_leader(self.votes@, i)
                    &&& self.votes@[i] >= 1
                    &&& self.users@[i] == Some(w)
                },
            _ => true,
        }
    }

    /// The dispute with another status and everything else as it is.
    pub open spec fn with_status(self, status: DisputeStatus) -> Dispute {
        Dispute { status, ..self }
    }

    /// Bytes a stored dispute with `seats` seats takes.
    pub open spec fn size_of(seats: nat) -> nat {
        (8 + 4 + 33 * seats + 4 + 8 * seats + 4 + seats + 4 + seats + 34 + 1 + 1 + 88 + 1) as nat
    }

    /// Bytes a stored dispute with these seats takes.
    pub fn get_size(users: &Vec<Option<Pubkey>>) -> (size: usize)
        requires
            Self::size_of(users@.len()) <= usize::MAX,
        ensures
            size == Self::size_of(users@.len()),
    {
        let n: usize = users.len();
        8 + 4 + 33 * n + 4 + 8 * n + 4 + n + 4 + n + DisputeStatus::SIZE + 1 + 1
            + DisputeConfiguration::SIZE + 1
    }

    /// The first seat that `key` holds, if any.
    pub fn seat_of(&self, key: &Pubkey) -> (seat: Option<usize>)
        ensures
            match seat {
                Some(i) => i == first_match(self.users@, *key, 0) && i < self.users@.len(),
                None => first_match(self.users@, *key, 0) == self.users@.len(),
            },
    {
        let mut i: usize = 0;
        while i < self.users.len()
            invariant
                0 <= i <= self.users@.len(),
                first_match(self.users@, *key, 0) == first_match(self.users@, *key, i as int),
            decreases self.users@.len() - i,
        {
            match &self.users[i] {
                Some(holder) => {
                    if holder == key {
                        return Some(i);
                    }
                },
                None => {},
            }
            i += 1;
        }
        None
    }

    /// The first vacant seat, if any.
    pub fn vacant_seat(&self) -> (seat: Option<usize>)
        ensures
            match seat {
                Some(i) => i == first_vacant(self.users@, 0) && i < self.users@.len(),
                None => first_vacant(self.users@, 0) == self.users@.len(),
            },
    {
        let mut i: usize = 0;
        while i < self.users.len()
            invariant
                0 <= i <= self.users@.len(),
                first_vacant(self.users@, 0) == first_vacant(self.users@, i as int),
            decreases self.users@.len() - i,
        {
            if self.users[i].is_none() {
                return Some(i);
            }
            i += 1;
        }
        None
    }

    /// Number of votes revealed so far.
    pub fn total_votes(&self) -> (sum: u64)
        requires
            total(self.votes@) <= u64::MAX,
        ensures
            sum == total(self.votes@),
    {
        let mut sum: u64 = 0;
        let mut i: usize = 0;
        while i < self.votes.len()
            invariant
                0 <= i <= self.votes@.len(),
                sum == total(self.votes@.subrange(0, i as int)),
                total(self.votes@) <= u64::MAX,
            decreases self.votes@.len() - i,
        {
            proof {
                lemma_total_step(self.votes@, i as int);
                lemma_total_prefix(self.votes@, i + 1);
            }
            sum = sum + self.votes[i];
            i += 1;
        }
        assert(self.votes@.subrange(0, i as int) =~= self.votes@);
        sum
    }

    /// Votes of the leading case: the largest tally.
    pub fn leader_votes(&self) -> (most: u64)
        ensures
            most == max_of(self.votes@),
    {
        let mut most: u64 = 0;
        let mut i: usize = 0;
        while i < self.votes.len()
            invariant
                0 <= i <= self.votes@.len(),
                most == max_of(self.votes@.subrange(0, i as int)),
            decreases self.votes@.len() - i,
        {
            proof {
                lemma_max_step(self.votes@, i as int);
            }
            if self.votes[i] > most {
                most = self.votes[i];
            }
            i += 1;
        }
        assert(self.votes@.subrange(0, i as int) =~= self.votes@);
        most
    }

    /// Number of seats whose tally is `value`.
    pub fn seats_with(&self, value: u64) -> (count: usize)
        ensures
            count == count_of(self.votes@, value as int),
    {
        let mut count: usize = 0;
        let mut i: usize = 0;
        while i < self.votes.len()
            invariant
                0 <= i <= self.votes@.len(),
                count == count_of(self.votes@.subrange(0, i as int), value as int),
                count <= i,
            decreases self.votes@.len() - i,
        {
            proof {
                lemma_count_of_step(self.votes@, value as int, i as int);
            }
            if self.votes[i] == value {
                count += 1;
            }
            i += 1;
        }
        assert(self.votes@.subrange(0, i as int) =~= self.votes@);
        count
    }

    /// The first seat whose tally is `value`, or the number of seats.
    pub fn first_seat_with(&self, value: u64) -> (seat: usize)
        ensures
            seat == first_at(self.votes@, value as int, 0),
            seat <= self.votes@.len(),
    {
        let mut i: usize = 0;
        while i < self.votes.len()
            invariant
                0 <= i <= self.votes@.len(),
                first_at(self.votes@, value as int, 0) == first_at(
                    self.votes@,
                    value as int,
                    i as int,
                ),
            decreases self.votes@.len() - i,
        {
            if self.votes[i] == value {
                return i;
            }
            i += 1;
        }
        i
    }
}

impl Dispute {
    /// Whether a case can be submitted at `now`: submission is open, or
    /// opens because the grace period is over or every seat has staked, and
    /// its deadline has not passed.
    pub open spec fn accepts_cases(&self, now: i64) -> bool {
        &&& now < self.config.init_cases_ends_at
        &&& (self.status is Waiting || (self.status is Grace && (now > self.config.grace_ends_at
            || self.interactions == self.users@.len())))
    }

    /// Whether a vote can be committed at `now`: voting is open, or opens
    /// because case submission is over or every seat has a case, and its
    /// deadline has not passed.
    pub open spec fn accepts_votes(&self, now: i64) -> bool {
        &&& now < self.config.voting_ends_at
        &&& (self.status is Voting || (self.status is Waiting && (now
            > self.config.init_cases_ends_at || self.submitted_cases == self.users@.len())))
    }

    /// Whether a vote can be revealed at `now`: the reveal period is open, or
    /// opens because voting is over, and its deadline has not passed.
    pub open spec fn accepts_reveals(&self, now: i64) -> bool {
        &&& now < self.config.dispute_ends_at
        &&& (self.status is Reveal || (self.status is Voting && now > self.config.voting_ends_at))
    }

    /// Whether the dispute can be closed at `now`.
    pub open spec fn closable(&self, now: i64) -> bool {
        match self.status {
            DisputeStatus::Grace => now > self.config.grace_ends_at && self.submitted_cases == 0,
            DisputeStatus::Waiting => now > self.config.voting_ends_at,
            DisputeStatus::Voting => now > self.config.dispute_ends_at,
            DisputeStatus::Reveal => now > self.config.dispute_ends_at,
            DisputeStatus::Concluded { .. } => false,
        }
    }

    /// The winner the tallies give: none below the quorum, none when no vote
    /// was revealed, none when two seats share the largest tally; else the
    /// holder of the one seat with the largest tally.
    pub open spec fn tally_winner(&self) -> Option<Pubkey> {
        let most = max_of(self.votes@);
        if total(self.votes@) < self.config.min_votes {
            None
        } else if most >= 1 && count_of(self.votes@, most) == 1 {
            self.users@[first_at(self.votes@, most, 0)]
        } else {
            None
        }
    }

    /// The verdict with which the dispute closes: the tallies decide after a
    /// reveal period, and nobody wins a dispute closed earlier.
    pub open spec fn verdict(&self) -> Option<Pubkey> {
        if self.status is Reveal {
            self.tally_winner()
        } else {
            None
        }
    }

    /// The tallies give `w` as winner exactly when the quorum is met and one
    /// seat, held by `w`, has at least one vote and more votes than every
    /// other seat.
    pub proof fn lemma_tally_winner(&self, w: Pubkey)
        ensures
            self.tally_winner() == Some(w) <==> total(self.votes@) >= self.config.min_votes
                && exists|i: int|
                #![trigger self.users@[i]]
                is_sole_leader(self.votes@, i) && self.votes@[i] >= 1 && self.users@[i] == Some(
                    w,
                ),
    {
        lemma_sole_leader_iff(self.votes@);
        lemma_max_bounds(self.votes@);
        let most = max_of(self.votes@);
        if self.tally_winner() == Some(w) {
            let seat = first_at(self.votes@, most, 0);
            assert(is_sole_leader(self.votes@, seat) && self.votes@[seat] >= 1
                && self.users@[seat] == Some(w));
        }
        if exists|i: int|
            #![trigger self.users@[i]]
            is_sole_leader(self.votes@, i) && self.votes@[i] >= 1 && self.users@[i] == Some(w) {
            let i = choose|i: int|
                #![trigger self.users@[i]]
                is_sole_leader(self.votes@, i) && self.votes@[i] >= 1 && self.users@[i] == Some(
                    w,
                );
            lemma_sole_leader(self.votes@, i);
        }
    }

    /// A tie at the top has no winner.
    pub proof fn lemma_tie_has_no_winner(&self, i: int, j: int)
        requires
            0 <= i < self.votes@.len(),
            0 <= j < self.votes@.len(),
            i != j,
            self.votes@[i] == max_of(self.votes@),
            self.votes@[j] == max_of(self.votes@),
        ensures
            self.tally_winner() is None,
    {
        if count_of(self.votes@, max_of(self.votes@)) == 1 {
            lemma_count_of_one(self.votes@, max_of(self.votes@));
        }
    }

    /// Admits a case submission at `now`, opening submission first where it
    /// is due.
    pub fn can_add_case(&mut self, now: i64) -> (res: Result<(), InputError>)
        requires
            old(self).wf(),
        ensures
            final(self).wf(),
            old(self).status.steps_to(final(self).status),
            match res {
                Ok(()) => old(self).accepts_cases(now) && *final(self) == old(self).with_status(
                    DisputeStatus::Waiting,
                ),
                Err(e) => !old(self).accepts_cases(now) && e == InputError::CasesNoLongerAccepted
                    && *final(self) == *old(self),
            },
    {
        if now < self.config.init_cases_ends_at {
            match self.status {
                DisputeStatus::Waiting => {
                    return Ok(());
                },
                DisputeStatus::Grace => {
                    if now > self.config.grace_ends_at || self.interactions as usize
                        == self.users.len() {
                        self.status = DisputeStatus::Waiting;
                        return Ok(());
                    }
                },
                _ => {},
            }
        }
        Err(InputError::CasesNoLongerAccepted)
    }

    /// Admits a vote commitment at `now`, opening voting first where it is
    /// due.
    pub fn can_vote(&mut self, now: i64) -> (res: Result<(), InputError>)
        requires
            old(self).wf(),
        ensures
            final(self).wf(),
            old(self).status.steps_to(final(self).status),
            match res {
                Ok(()) => old(self).accepts_votes(now) && *final(self) == old(self).with_status(
                    DisputeStatus::Voting,
                ),
                Err(e) => !old(self).accepts_votes(now) && e == InputError::DisputeNotVotable
                    && *final(self) == *old(self),
            },
    {
        if now < self.config.voting_ends_at {
            match self.status {
                DisputeStatus::Voting => {
                    return Ok(());
                },
                DisputeStatus::Waiting => {
                    if now > self.config.init_cases_ends_at || self.submitted_cases as usize
                        == self.users.len() {
                        self.status = DisputeStatus::Voting;
                        return Ok(());
                    }
                },
                _ => {},
            }
        }
        Err(InputError::DisputeNotVotable)
    }

    /// Admits a vote reveal at `now`, opening the reveal period first where
    /// it is due.
    pub fn can_reveal(&mut self, now: i64) -> (res: Result<(), InputError>)
        requires
            old(self).wf(),
        ensures
            final(self).wf(),
            old(self).status.steps_to(final(self).status),
            match res {
                Ok(()) => old(self).accepts_reveals(now) && *final(self) == old(self).with_status(
                    DisputeStatus::Reveal,
                ),
                Err(e) => !old(self).accepts_reveals(now) && e == InputError::NotRevealPeriod
                    && *final(self) == *old(self),
            },
    {
        if now < self.config.dispute_ends_at {
            match self.status {
                DisputeStatus::Reveal => {
                    return Ok(());
                },
                DisputeStatus::Voting => {
                    if now > self.config.voting_ends_at {
                        self.status = DisputeStatus::Reveal;
                        return Ok(());
                    }
                },
                _ => {},
            }
        }
        Err(InputError::NotRevealPeriod)
    }

    /// The winner the tallies give.
    pub fn decide(&self) -> (winner: Option<Pubkey>)
        requires
            self.wf(),
        ensures
            winner == self.tally_winner(),
            winner matches Some(w) ==> exists|i: int|
                #![trigger self.users@[i]]
                {
                    &&& is_sole_leader(self.votes@, i)
                    &&& self.votes@[i] >= 1
                    &&& self.users@[i] == Some(w)
                },
    {
        if self.total_votes() < self.config.min_votes {
            return None;
        }
        let most = self.leader_votes();
        if most >= 1 && self.seats_with(most) == 1 {
            let seat = self.first_seat_with(most);
            proof {
                lemma_count_of_one(self.votes@, most as int);
                lemma_max_bounds(self.votes@);
                assert(is_sole_leader(self.votes@, seat as int));
            }
            self.users[seat]
        } else {
            None
        }
    }

    /// Closes the dispute at `now` where it can be closed, with the verdict.
    pub fn can_close(&mut self, now: i64) -> (res: Result<(), InputError>)
        requires
            old(self).wf(),
        ensures
            final(self).wf(),
            old(self).status.steps_to(final(self).status),
            match res {
                Ok(()) => old(self).closable(now) && *final(self) == old(self).with_status(
                    DisputeStatus::Concluded { winner: old(self).verdict() },
                ),
                Err(e) => !old(self).closable(now) && e == InputError::DisputeNotFinalizable
                    && *final(self) == *old(self),
            },
    {
        match self.status {
            DisputeStatus::Grace => {
                if now > self.config.grace_ends_at && self.submitted_cases == 0 {
                    self.status = DisputeStatus::Concluded { winner: None };
                    return Ok(());
                }
            },
            DisputeStatus::Reveal => {
                if now > self.config.dispute_ends_at {
                    let winner = self.decide();
                    self.status = DisputeStatus::Concluded { winner };
                    return Ok(());
                }
            },
            DisputeStatus::Voting => {
                if now > self.config.dispute_ends_at {
                    self.status = DisputeStatus::Concluded { winner: None };
                    return Ok(());
                }
            },
            DisputeStatus::Waiting => {
                if now > self.config.voting_ends_at {
                    self.status = DisputeStatus::Concluded { winner: None };
                    return Ok(());
                }
            },
            _ => {},
        }
        Err(InputError::DisputeNotFinalizable)
    }
}

impl Dispute {
    /// The other dispute has the same deadlines, stakes and address seed.
    pub open spec fn same_terms(&self, other: &Dispute) -> bool {
        &&& self.config == other.config
        &&& self.bump == other.bump
    }

    /// This dispute is `before` after `user` took seat `seat` and staked.
    pub open spec fn seats(&self, before: &Dispute, user: Pubkey, seat: int) -> bool {
        &&& self.users@ == before.users@.update(seat, Some(user))
        &&& self.staked@ == before.staked@.update(seat, true)
        &&& self.interactions == before.interactions + 1
        &&& self.votes == before.votes
        &&& self.has_case == before.has_case
        &&& self.status == before.status
        &&& self.submitted_cases == before.submitted_cases
        &&& self.same_terms(before)
    }

    /// This dispute is `before` after the holder of seat `seat` submitted a
    /// case: submission is open and the seat has a case.
    pub open spec fn registers(&self, before: &Dispute, seat: int) -> bool {
        &&& self.has_case@ == before.has_case@.update(seat, true)
        &&& self.submitted_cases == before.submitted_cases + 1
        &&& self.status == DisputeStatus::Waiting
        &&& self.users == before.users
        &&& self.votes == before.votes
        &&& self.staked == before.staked
        &&& self.interactions == before.interactions
        &&& self.same_terms(before)
    }

    /// This dispute is `before` with one more vote for the case of seat
    /// `seat`, and in the given status.
    pub open spec fn tallies(&self, before: &Dispute, seat: int, status: DisputeStatus) -> bool {
        &&& self.votes@ == raised(before.votes@, seat)
        &&& self.status == status
        &&& self.users == before.users
        &&& self.staked == before.staked
        &&& self.has_case == before.has_case
        &&& self.interactions == before.interactions
        &&& self.submitted_cases == before.submitted_cases
        &&& self.same_terms(before)
    }

    /// Whether a case can be submitted at `now`.
    pub fn is_accepting_cases(&self, now: i64) -> (open: bool)
        ensures
            open == self.accepts_cases(now),
    {
        now < self.config.init_cases_ends_at && match self.status {
            DisputeStatus::Waiting => true,
            DisputeStatus::Grace => now > self.config.grace_ends_at || self.interactions as usize
                == self.users.len(),
            _ => false,
        }
    }

    /// Whether a vote can be committed at `now`.
    pub fn is_accepting_votes(&self, now: i64) -> (open: bool)
        ensures
            open == self.accepts_votes(now),
    {
        now < self.config.voting_ends_at && match self.status {
            DisputeStatus::Voting => true,
            DisputeStatus::Waiting => now > self.config.init_cases_ends_at
                || self.submitted_cases as usize == self.users.len(),
            _ => false,
        }
    }

    /// Whether a vote can be revealed at `now`.
    pub fn is_accepting_reveals(&self, now: i64) -> (open: bool)
        ensures
            open == self.accepts_reveals(now),
    {
        now < self.config.dispute_ends_at && match self.status {
            DisputeStatus::Reveal => true,
            DisputeStatus::Voting => now > self.config.voting_ends_at,
            _ => false,
        }
    }

    /// Why `user` cannot take a seat at `now`, if they cannot: the grace
    /// period is over, every seat has staked, no seat is reserved for them
    /// and none is vacant, or they have staked already.
    pub open spec fn seat_refusal(&self, user: Pubkey, now: i64) -> Option<InputError> {
        let seat = seat_for(self.users@, user);
        if now >= self.config.grace_ends_at || !(self.status is Grace) {
            Some(InputError::InteractionPeriodEnded)
        } else if self.interactions >= self.users@.len() {
            Some(InputError::InteractionsFulfilled)
        } else if seat >= self.users@.len() {
            Some(InputError::UserNotAuthorized)
        } else if self.staked@[seat] {
            Some(InputError::AlreadyEngaged)
        } else {
            None
        }
    }

    /// The seat `user` would take at `now`, or why they cannot take one.
    pub fn find_seat(&self, user: &Pubkey, now: i64) -> (res: Result<usize, InputError>)
        requires
            self.wf(),
        ensures
            match res {
                Ok(seat) => self.seat_refusal(*user, now) is None && seat == seat_for(
                    self.users@,
                    *user,
                ),
                Err(e) => self.seat_refusal(*user, now) == Some(e),
            },
    {
        if now >= self.config.grace_ends_at {
            return Err(InputError::InteractionPeriodEnded);
        }
        match self.status {
            DisputeStatus::Grace => {},
            _ => {
                return Err(InputError::InteractionPeriodEnded);
            },
        }
        if self.interactions as usize >= self.users.len() {
            return Err(InputError::InteractionsFulfilled);
        }
        let seat = match self.seat_of(user) {
            Some(seat) => seat,
            None => match self.vacant_seat() {
                Some(seat) => seat,
                None => {
                    return Err(InputError::UserNotAuthorized);
                },
            },
        };
        if self.staked[seat] {
            return Err(InputError::AlreadyEngaged);
        }
        Ok(seat)
    }

    /// Seats `user` at `now` and marks the seat as staked.
    pub fn take_seat(&mut self, user: Pubkey, now: i64) -> (res: Result<usize, InputError>)
        requires
            old(self).wf(),
        ensures
            final(self).wf(),
            old(self).status.steps_to(final(self).status),
            match res {
                Ok(seat) => {
                    &&& old(self).seat_refusal(user, now) is None
                    &&& seat == seat_for(old(self).users@, user)
                    &&& final(self).seats(old(self), user, seat as int)
                },
                Err(e) => old(self).seat_refusal(user, now) == Some(e) && *final(self) == *old(self),
            },
    {
        let seat = match self.find_seat(&user, now) {
            Ok(seat) => seat,
            Err(e) => {
                return Err(e);
            },
        };
        proof {
            let before = self.users@;
            let after = before.update(seat as int, Some(user));
            lemma_first_match(before, user, 0);
            lemma_first_vacant(before, 0);
            lemma_count_true_raise(self.staked@, seat as int);
            lemma_first_match_at(after, user, seat as int);
            assert forall|i: int|
                0 <= i < after.len() && i != seat && self.staked@[i] implies first_match(
                after,
                after[i]->0,
                0,
            ) == i by {
                let key = before[i]->0;
                lemma_first_match(before, key, 0);
                lemma_first_match_at(after, key, i);
            }
        }
        self.users[seat] = Some(user);
        self.staked[seat] = true;
        self.interactions = self.interactions + 1;
        Ok(seat)
    }

    /// Why `payer` cannot submit a case at `now`, if they cannot: they hold
    /// no staked seat, they have submitted one already, or submission is
    /// closed.
    pub open spec fn case_refusal(&self, payer: Pubkey, now: i64) -> Option<InputError> {
        let seat = first_match(self.users@, payer, 0);
        if seat >= self.users@.len() || !self.staked@[seat] {
            Some(InputError::UserDoesNotHaveCase)
        } else if self.has_case@[seat] {
            Some(InputError::UserAlreadyProvidedCase)
        } else if !self.accepts_cases(now) {
            Some(InputError::CasesNoLongerAccepted)
        } else {
            None
        }
    }

    /// Records that `payer` submitted a case at `now`, opening submission
    /// first where it is due. Returns the seat, which identifies the case.
    pub fn register_case(&mut self, payer: &Pubkey, now: i64) -> (res: Result<usize, InputError>)
        requires
            old(self).wf(),
        ensures
            final(self).wf(),
            old(self).status.steps_to(final(self).status),
            match res {
                Ok(seat) => {
                    &&& old(self).case_refusal(*payer, now) is None
                    &&& seat == first_match(old(self).users@, *payer, 0)
                    &&& final(self).registers(old(self), seat as int)
                },
                Err(e) => old(self).case_refusal(*payer, now) == Some(e) && *final(self) == *old(self),
            },
    {
        let seat = match self.seat_of(payer) {
            Some(seat) => seat,
            None => {
                return Err(InputError::UserDoesNotHaveCase);
            },
        };
        if !self.staked[seat] {
            return Err(InputError::UserDoesNotHaveCase);
        }
        if self.has_case[seat] {
            return Err(InputError::UserAlreadyProvidedCase);
        }
        match self.can_add_case(now) {
            Ok(()) => {},
            Err(e) => {
                return Err(e);
            },
        }
        proof {
            lemma_count_true_raise(self.has_case@, seat as int);
            lemma_count_true_bounds(self.has_case@.update(seat as int, true));
        }
        self.has_case[seat] = true;
        self.submitted_cases = self.submitted_cases + 1;
        Ok(seat)
    }

    /// Whether `candidate` holds a seat with a case.
    pub open spec fn has_case_of(&self, candidate: Pubkey) -> bool {
        let seat = first_match(self.users@, candidate, 0);
        seat < self.users@.len() && self.has_case@[seat]
    }

    /// The seat of `candidate`'s case, if they have one.
    pub fn case_of(&self, candidate: &Pubkey) -> (case_id: Option<usize>)
        requires
            self.wf(),
        ensures
            match case_id {
                Some(seat) => self.has_case_of(*candidate) && seat == first_match(
                    self.users@,
                    *candidate,
                    0,
                ),
                None => !self.has_case_of(*candidate),
            },
    {
        match self.seat_of(candidate) {
            Some(seat) => if self.has_case[seat] {
                Some(seat)
            } else {
                None
            },
            None => None,
        }
    }

    /// Counts one revealed vote for `candidate`'s case. The sum of the
    /// tallies rises by one; the largest tally moves only when the raised
    /// tally exceeds it.
    pub fn vote(&mut self, candidate: Pubkey) -> (res: Result<(), InputError>)
        requires
            old(self).wf(),
            old(self).status is Reveal,
            total(old(self).votes@) < u64::MAX,
        ensures
            final(self).wf(),
            old(self).status.steps_to(final(self).status),
            match res {
                Ok(()) => {
                    let seat = first_match(old(self).users@, candidate, 0);
                    let raised = old(self).votes@[seat] + 1;
                    &&& old(self).has_case_of(candidate)
                    &&& final(self).tallies(old(self), seat, old(self).status)
                    &&& total(final(self).votes@) == total(old(self).votes@) + 1
                    &&& max_of(final(self).votes@) == if raised > max_of(old(self).votes@) {
                        raised
                    } else {
                        max_of(old(self).votes@)
                    }
                },
                Err(e) => !old(self).has_case_of(candidate) && e == InputError::UserDoesNotHaveCase
                    && *final(self) == *old(self),
            },
    {
        let seat = match self.case_of(&candidate) {
            Some(seat) => seat,
            None => {
                return Err(InputError::UserDoesNotHaveCase);
            },
        };
        proof {
            lemma_total_bounds(self.votes@);
            lemma_total_increment(self.votes@, seat as int, (self.votes@[seat as int] + 1) as u64);
            lemma_max_increment(self.votes@, seat as int, (self.votes@[seat as int] + 1) as u64);
        }
        self.votes[seat] = self.votes[seat] + 1;
        Ok(())
    }
}

impl Dispute {
    /// Whether the dispute meets the invariant. Records that the operations
    /// of this library produced do; a record from elsewhere is to be checked
    /// before it is handed to them.
    pub fn is_well_formed(&self) -> (ok: bool)
        ensures
            ok == self.wf(),
    {
        let n = self.users.len();
        if n == 0 || n > MAX_SEATS || self.votes.len() != n || self.staked.len() != n
            || self.has_case.len() != n {
            return false;
        }
        if !self.config.has_ordered_deadlines() {
            return false;
        }
        let mut stakes: usize = 0;
        let mut cases: usize = 0;
        let mut sum: u128 = 0;
        let mut i: usize = 0;
        while i < n
            invariant
                0 <= i <= n,
                n == self.users@.len(),
                n <= MAX_SEATS,
                self.votes@.len() == n,
                self.staked@.len() == n,
                self.has_case@.len() == n,
                stakes == count_true(self.staked@.subrange(0, i as int)),
                cases == count_true(self.has_case@.subrange(0, i as int)),
                sum == total(self.votes@.subrange(0, i as int)),
                stakes <= i,
                cases <= i,
                sum <= i * u64::MAX,
                forall|j: int|
                    0 <= j < i && self.staked@[j] ==> self.users@[j] is Some && first_match(
                        self.users@,
                        self.users@[j]->0,
                        0,
                    ) == j,
                forall|j: int| 0 <= j < i && self.has_case@[j] ==> self.staked@[j],
                forall|j: int| 0 <= j < i && self.votes@[j] > 0 ==> self.has_case@[j],
            decreases n - i,
        {
            proof {
                lemma_count_true_step(self.staked@, i as int);
                lemma_count_true_step(self.has_case@, i as int);
                lemma_total_step(self.votes@, i as int);
            }
            if self.staked[i] {
                match &self.users[i] {
                    Some(holder) => {
                        match self.seat_of(holder) {
                            Some(first) => {
                                if first != i {
                                    return false;
                                }
                            },
                            None => {
                                proof {
                                    lemma_first_match(self.users@, *holder, 0);
                                }
                                assert(false);
                            },
                        }
                    },
                    None => {
                        return false;
                    },
                }
                stakes += 1;
            }
            if self.has_case[i] {
                if !self.staked[i] {
                    return false;
                }
                cases += 1;
            }
            if self.votes[i] > 0 && !self.has_case[i] {
                return false;
            }
            assert((i + 1) * u64::MAX == i * u64::MAX + u64::MAX) by (nonlinear_arith);
            assert(i * u64::MAX <= 255 * u64::MAX) by (nonlinear_arith)
                requires
                    i <= 255,
            ;
            sum = sum + self.votes[i] as u128;
            i += 1;
        }
        assert(self.votes@.subrange(0, n as int) =~= self.votes@);
        assert(self.staked@.subrange(0, n as int) =~= self.staked@);
        assert(self.has_case@.subrange(0, n as int) =~= self.has_case@);
        if self.interactions as usize != stakes || self.submitted_cases as usize != cases {
            return false;
        }
        if sum > u64::MAX as u128 {
            return false;
        }
        match self.status {
            DisputeStatus::Grace => sum == 0 && self.submitted_cases == 0,
            DisputeStatus::Waiting | DisputeStatus::Voting => sum == 0,
            DisputeStatus::Reveal => true,
            DisputeStatus::Concluded { winner: None } => true,
            DisputeStatus::Concluded { winner: Some(w) } => {
                let most = self.leader_votes();
                proof {
                    lemma_sole_leader_iff(self.votes@);
                    lemma_max_bounds(self.votes@);
                    if exists|k: int|
                        #![trigger self.users@[k]]
                        is_sole_leader(self.votes@, k) && self.votes@[k] >= 1 && self.users@[k]
                            == Some(w) {
                        let k = choose|k: int|
                            #![trigger self.users@[k]]
                            is_sole_leader(self.votes@, k) && self.votes@[k] >= 1
                                && self.users@[k] == Some(w);
                        lemma_sole_leader(self.votes@, k);
                    }
                }
                if most >= 1 && self.seats_with(most) == 1 {
                    let seat = self.first_seat_with(most);
                    proof {
                        lemma_count_of_one(self.votes@, most as int);
                        assert(is_sole_leader(self.votes@, seat as int));
                    }
                    match &self.users[seat] {
                        Some(holder) => {
                            let same = *holder == w;
                            proof {
                                if same {
                                    assert(self.users@[seat as int] == Some(w));
                                }
                            }
                            same
                        },
                        None => false,
                    }
                } else {
                    false
                }
            },
        }
    }
}

} // verus!
