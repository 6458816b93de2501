//! What a participant is paid when they claim a concluded dispute.
//!
//! A party stakes when taking a seat, a voter when committing a vote. The
//! winning party gets its stake back. A voter who revealed a vote for the
//! winner gets their stake back and an equal share of the pool: the stakes
//! of the parties whose cases lost, the stakes of the voters who revealed a
//! vote for another case, and what the protocol added. Everyone else
//! forfeits what they staked; a losing party loses its stake and nothing
//! more. When nobody wins, everyone is refunded what they staked.

use crate::error::InputError;
use crate::pubkey::Pubkey;
use crate::state::court::Transfer;
use crate::state::dispute::{first_match, Dispute, DisputeStatus};
use crate::state::tally::{
    count_true, is_sole_leader, lemma_count_true_subset, lemma_max_bounds, lemma_total_bounds,
    max_of, total,
};
use crate::state::voter_record::Vote;
use vstd::prelude::*;

verus! {

/// How a claimant stands in a concluded dispute.
#[derive(Clone, Copy, Debug, PartialEq, Eq, Structural)]
pub enum Standing {
    /// The party whose case won.
    WinningParty,
    /// A party in a dispute that another party won.
    LosingParty,
    /// A voter whose revealed vote backs the winner.
    WinningVoter,
    /// A voter who backed another case, or never revealed.
    LosingVoter,
    /// A party in a dispute nobody won.
    RefundedParty,
    /// A voter in a dispute nobody won.
    RefundedVoter,
}

impl Standing {
    /// Whether the claimant staked as a party.
    pub open spec fn is_party(self) -> bool {
        self is WinningParty || self is LosingParty || self is RefundedParty
    }
}

/// What a claim pays and how the claimant stood.
#[derive(Clone, Copy, Debug, PartialEq, Eq, Structural)]
pub struct Settlement {
    /// The claimant's standing.
    pub standing: Standing,
    /// The amounts paid out of the dispute's vaults.
    pub payout: Transfer,
}

/// An amount as far as it fits in 64 bits.
pub open spec fn capped(amount: int) -> u64 {
    if amount > u64::MAX {
        u64::MAX
    } else if amount < 0 {
        0
    } else {
        amount as u64
    }
}

/// An equal share of a pool among `winners`, rounded down.
pub open spec fn share_of(pool: int, winners: int) -> u64 {
    capped(pool / winners)
}

impl Dispute {
    /// The declared winner, if the dispute is concluded with one.
    pub open spec fn winner(&self) -> Option<Pubkey> {
        match self.status {
            DisputeStatus::Concluded { winner } => winner,
            _ => None,
        }
    }

    /// Whether `user` holds a seat they staked for.
    pub open spec fn is_party(&self, user: Pubkey) -> bool {
        let seat = first_match(self.users@, user, 0);
        seat < self.users@.len() && self.staked@[seat]
    }

    /// The standing of `user`, whose queue entry records `vote`.
    pub open spec fn standing_of(&self, user: Pubkey, vote: Vote) -> Standing {
        match self.winner() {
            Some(w) => if user == w {
                Standing::WinningParty
            } else if self.is_party(user) {
                Standing::LosingParty
            } else if vote == (Vote::Reveal { key: w }) {
                Standing::WinningVoter
            } else {
                Standing::LosingVoter
            },
            None => if self.is_party(user) {
                Standing::RefundedParty
            } else {
                Standing::RefundedVoter
            },
        }
    }

    /// Reputation shared among the winning voters.
    pub open spec fn rep_pool(&self) -> int {
        (self.submitted_cases - 1) * self.config.rep_cost + (total(self.votes@) - max_of(
            self.votes@,
        )) * self.config.voter_rep_cost + self.config.protocol_rep
    }

    /// Payment shared among the winning voters.
    pub open spec fn pay_pool(&self) -> int {
        (self.submitted_cases - 1) * self.config.pay_cost + self.config.protocol_pay
    }

    /// What a claimant of the given standing put in escrow.
    pub open spec fn stake_of(&self, standing: Standing) -> Transfer {
        if standing.is_party() {
            Transfer { rep: self.config.rep_cost, pay: self.config.pay_cost }
        } else {
            Transfer { rep: self.config.voter_rep_cost, pay: 0 }
        }
    }

    /// What a claimant of the given standing is paid.
    pub open spec fn payout_of(&self, standing: Standing) -> Transfer {
        match standing {
            Standing::WinningParty | Standing::RefundedParty | Standing::RefundedVoter =>
                self.stake_of(standing),
            Standing::LosingParty | Standing::LosingVoter => Transfer { rep: 0, pay: 0 },
            Standing::WinningVoter => Transfer {
                rep: capped(
                    self.config.voter_rep_cost + share_of(self.rep_pool(), max_of(self.votes@)),
                ),
                pay: share_of(self.pay_pool(), max_of(self.votes@)),
            },
        }
    }

    /// All the reputation that parties and revealing voters staked.
    pub open spec fn collected_rep(&self) -> int {
        self.interactions * self.config.rep_cost + total(self.votes@)
            * self.config.voter_rep_cost
    }

    /// All the payment that parties staked.
    pub open spec fn collected_pay(&self) -> int {
        self.interactions * self.config.pay_cost
    }

    /// Reputation paid when everyone entitled claims: the winning party and
    /// as many winning voters as votes were tallied for the winner.
    pub open spec fn payouts_rep(&self) -> int {
        self.payout_of(Standing::WinningParty).rep + max_of(self.votes@) * self.payout_of(
            Standing::WinningVoter,
        ).rep
    }

    /// Payment paid when everyone entitled claims.
    pub open spec fn payouts_pay(&self) -> int {
        self.payout_of(Standing::WinningParty).pay + max_of(self.votes@) * self.payout_of(
            Standing::WinningVoter,
        ).pay
    }

    /// A declared winner holds the one seat with the most votes, at least
    /// one, and that seat has a case and a stake.
    pub proof fn lemma_winner_leads(&self)
        requires
            self.wf(),
            self.winner() is Some,
        ensures
            max_of(self.votes@) >= 1,
            self.submitted_cases >= 1,
            self.submitted_cases <= self.interactions,
            max_of(self.votes@) <= total(self.votes@),
    {
        let w = self.winner()->0;
        let i = choose|i: int|
            #![trigger self.users@[i]]
            is_sole_leader(self.votes@, i) && self.votes@[i] >= 1 && self.users@[i] == Some(w);
        lemma_max_bounds(self.votes@);
        lemma_total_bounds(self.votes@);
        lemma_count_true_subset(self.has_case@, self.staked@);
        assert(self.has_case@[i]);
        if self.submitted_cases == 0 {
            lemma_count_true_zero(self.has_case@, i);
        }
    }
}

/// No flag is raised where none is counted.
proof fn lemma_count_true_zero(flags: Seq<bool>, i: int)
    requires
        count_true(flags) == 0,
        0 <= i < flags.len(),
    ensures
        !flags[i],
    decreases flags.len(),
{
    if i < flags.len() - 1 {
        lemma_count_true_zero(flags.drop_last(), i);
    }
}

/// An equal share, among `winners`, of the stakes of `parties` parties and
/// `voters` voters and of `seed`.
pub fn pool_share(
    parties: u64,
    party_stake: u64,
    voters: u64,
    voter_stake: u64,
    seed: u64,
    winners: u64,
) -> (share: u64)
    requires
        winners >= 1,
    ensures
        share == share_of(parties * party_stake + voters * voter_stake + seed, winners as int),
{
    let ghost pool = parties * party_stake + voters * voter_stake + seed;
    assert(parties * party_stake <= 0xffff_ffff_ffff_ffff * 0xffff_ffff_ffff_ffff
        && parties * party_stake >= 0) by (nonlinear_arith)
        requires
            0 <= parties <= 0xffff_ffff_ffff_ffff,
            0 <= party_stake <= 0xffff_ffff_ffff_ffff,
    ;
    assert(voters * voter_stake <= 0xffff_ffff_ffff_ffff * 0xffff_ffff_ffff_ffff && voters
        * voter_stake >= 0) by (nonlinear_arith)
        requires
            0 <= voters <= 0xffff_ffff_ffff_ffff,
            0 <= voter_stake <= 0xffff_ffff_ffff_ffff,
    ;
    let from_parties: u128 = (parties as u128) * (party_stake as u128);
    let from_voters: u128 = (voters as u128) * (voter_stake as u128);
    let staked: u128 = match from_parties.checked_add(from_voters) {
        Some(sum) => sum,
        None => {
            proof {
                lemma_large_share(pool, winners as int);
            }
            return u64::MAX;
        },
    };
    let whole: u128 = match staked.checked_add(seed as u128) {
        Some(sum) => sum,
        None => {
            proof {
                lemma_large_share(pool, winners as int);
            }
            return u64::MAX;
        },
    };
    let each: u128 = whole / (winners as u128);
    if each > u64::MAX as u128 {
        u64::MAX
    } else {
        each as u64
    }
}

/// A pool that does not fit in 128 bits gives each of fewer than 2^64
/// winners more than fits in 64 bits.
proof fn lemma_large_share(pool: int, winners: int)
    requires
        pool > u128::MAX,
        1 <= winners <= u64::MAX,
    ensures
        pool / winners > u64::MAX,
{
    assert(pool / winners > 0xffff_ffff_ffff_ffff) by (nonlinear_arith)
        requires
            pool >= 0x1_0000_0000_0000_0000_0000_0000_0000_0000,
            1 <= winners <= 0xffff_ffff_ffff_ffff,
    ;
}

impl Dispute {
    /// Whether `user` holds a seat they staked for.
    pub fn holds_stake(&self, user: &Pubkey) -> (party: bool)
        requires
            self.wf(),
        ensures
            party == self.is_party(*user),
    {
        match self.seat_of(user) {
            Some(seat) => self.staked[seat],
            None => false,
        }
    }

    /// The standing of `user`, whose queue entry records `vote`, and what
    /// they are paid; nothing before the dispute is concluded.
    pub fn settle(&self, user: &Pubkey, vote: &Vote) -> (res: Result<Settlement, InputError>)
        requires
            self.wf(),
        ensures
            match res {
                Ok(settlement) => {
                    &&& self.status is Concluded
                    &&& settlement.standing == self.standing_of(*user, *vote)
                    &&& settlement.payout == self.payout_of(settlement.standing)
                },
                Err(e) => !(self.status is Concluded) && e == InputError::DisputeNotClaimable,
            },
    {
        let winner = match self.status {
            DisputeStatus::Concluded { winner } => winner,
            _ => {
                return Err(InputError::DisputeNotClaimable);
            },
        };
        let stake = Transfer { rep: self.config.rep_cost, pay: self.config.pay_cost };
        let nothing = Transfer { rep: 0, pay: 0 };
        let settlement = match winner {
            Some(w) => {
                if *user == w {
                    Settlement { standing: Standing::WinningParty, payout: stake }
                } else if self.holds_stake(user) {
                    Settlement { standing: Standing::LosingParty, payout: nothing }
                } else {
                    let backed = match vote {
                        Vote::Reveal { key } => *key == w,
                        Vote::Secret { .. } => false,
                    };
                    if backed {
                        proof {
                            self.lemma_winner_leads();
                        }
                        let leader = self.leader_votes();
                        let losing_parties: u64 = (self.submitted_cases - 1) as u64;
                        let losing_voters: u64 = self.total_votes() - leader;
                        let rep_share = pool_share(
                            losing_parties,
                            self.config.rep_cost,
                            losing_voters,
                            self.config.voter_rep_cost,
                            self.config.protocol_rep,
                            leader,
                        );
                        let pay_share = pool_share(
                            losing_parties,
                            self.config.pay_cost,
                            0,
                            0,
                            self.config.protocol_pay,
                            leader,
                        );
                        Settlement {
                            standing: Standing::WinningVoter,
                            payout: Transfer {
                                rep: self.config.voter_rep_cost.saturating_add(rep_share),
                                pay: pay_share,
                            },
                        }
                    } else {
                        Settlement { standing: Standing::LosingVoter, payout: nothing }
                    }
                }
            },
            None => {
                if self.holds_stake(user) {
                    Settlement { standing: Standing::RefundedParty, payout: stake }
                } else {
                    Settlement {
                        standing: Standing::RefundedVoter,
                        payout: Transfer { rep: self.config.voter_rep_cost, pay: 0 },
                    }
                }
            },
        };
        Ok(settlement)
    }
}

/// Reputation paid to claimants of the given standings, in this order.
pub open spec fn paid_rep(dispute: &Dispute, claims: Seq<Standing>) -> int
    decreases claims.len(),
{
    if claims.len() == 0 {
        0
    } else {
        paid_rep(dispute, claims.drop_last()) + dispute.payout_of(claims.last()).rep
    }
}

/// Payment paid to claimants of the given standings, in this order.
pub open spec fn paid_pay(dispute: &Dispute, claims: Seq<Standing>) -> int
    decreases claims.len(),
{
    if claims.len() == 0 {
        0
    } else {
        paid_pay(dispute, claims.drop_last()) + dispute.payout_of(claims.last()).pay
    }
}

/// Number of claimants of standing `standing`.
pub open spec fn claims_of(claims: Seq<Standing>, standing: Standing) -> nat
    decreases claims.len(),
{
    if claims.len() == 0 {
        0
    } else {
        claims_of(claims.drop_last(), standing) + if claims.last() == standing {
            1nat
        } else {
            0nat
        }
    }
}

/// No value is created from nothing. In a dispute with a declared winner,
/// take any claims in which the winning party claims at most once, at most
/// as many voters claim for the winner as votes were tallied for the winner,
/// and nobody claims a refund. Together they are paid no more than what the
/// parties and the revealing voters staked and the protocol added, in
/// reputation and in payment.
pub proof fn lemma_no_value_created(dispute: &Dispute, claims: Seq<Standing>)
    requires
        dispute.wf(),
        dispute.winner() is Some,
        claims_of(claims, Standing::WinningParty) <= 1,
        claims_of(claims, Standing::WinningVoter) <= max_of(dispute.votes@),
        claims_of(claims, Standing::RefundedParty) == 0,
        claims_of(claims, Standing::RefundedVoter) == 0,
    ensures
        paid_rep(dispute, claims) <= dispute.collected_rep() + dispute.config.protocol_rep,
        paid_pay(dispute, claims) <= dispute.collected_pay() + dispute.config.protocol_pay,
{
    dispute.lemma_winner_leads();
    lemma_paid_by_standing(dispute, claims);
    let parties = claims_of(claims, Standing::WinningParty) as int;
    let voters = claims_of(claims, Standing::WinningVoter) as int;
    let leader = max_of(dispute.votes@);
    let cases = dispute.submitted_cases as int;
    let seats = dispute.interactions as int;
    let votes = total(dispute.votes@);
    let rep_cost = dispute.config.rep_cost as int;
    let pay_cost = dispute.config.pay_cost as int;
    let voter_cost = dispute.config.voter_rep_cost as int;
    let rep_each = dispute.payout_of(Standing::WinningVoter).rep as int;
    let pay_each = dispute.payout_of(Standing::WinningVoter).pay as int;
    let rep_pool = dispute.rep_pool();
    let pay_pool = dispute.pay_pool();
    assert(rep_pool >= 0 && pay_pool >= 0 && (cases - 1) * rep_cost + rep_cost <= seats
        * rep_cost && (cases - 1) * pay_cost + pay_cost <= seats * pay_cost && rep_pool == (cases
        - 1) * rep_cost + (votes - leader) * voter_cost + dispute.config.protocol_rep) by (
        nonlinear_arith)
        requires
            1 <= cases <= seats,
            1 <= leader <= votes,
            rep_cost >= 0,
            pay_cost >= 0,
            voter_cost >= 0,
            rep_pool == (cases - 1) * rep_cost + (votes - leader) * voter_cost
                + dispute.config.protocol_rep,
            pay_pool == (cases - 1) * pay_cost + dispute.config.protocol_pay,
    ;
    lemma_shares_fit(rep_pool, leader, voters);
    lemma_shares_fit(pay_pool, leader, voters);
    assert(rep_each <= voter_cost + share_of(rep_pool, leader));
    assert(voters * rep_each <= voters * voter_cost + voters * share_of(rep_pool, leader)) by (
        nonlinear_arith)
        requires
            voters >= 0,
            rep_each <= voter_cost + share_of(rep_pool, leader),
    ;
    assert(voters * voter_cost + (votes - leader) * voter_cost <= votes * voter_cost) by (
        nonlinear_arith)
        requires
            0 <= voters <= leader <= votes,
            voter_cost >= 0,
    ;
    assert(parties * rep_cost <= rep_cost && parties * pay_cost <= pay_cost) by (nonlinear_arith)
        requires
            0 <= parties <= 1,
            rep_cost >= 0,
            pay_cost >= 0,
    ;
}

/// No value is created from nothing: in a dispute with a declared winner,
/// what is paid when everyone entitled claims is no more than what the
/// parties and the revealing voters staked and the protocol added, in
/// reputation and in payment.
pub proof fn lemma_payouts_within_stakes(dispute: &Dispute)
    requires
        dispute.wf(),
        dispute.winner() is Some,
    ensures
        dispute.payouts_rep() <= dispute.collected_rep() + dispute.config.protocol_rep,
        dispute.payouts_pay() <= dispute.collected_pay() + dispute.config.protocol_pay,
{
    dispute.lemma_winner_leads();
    let claims = Seq::new(
        (max_of(dispute.votes@) + 1) as nat,
        |i: int|
            if i == 0 {
                Standing::WinningParty
            } else {
                Standing::WinningVoter
            },
    );
    lemma_party_and_voters(claims, claims.len() as int);
    assert(claims.subrange(0, claims.len() as int) =~= claims);
    lemma_no_value_created(dispute, claims);
    lemma_paid_by_standing(dispute, claims);
    assert(1 * dispute.config.rep_cost == dispute.config.rep_cost && 1
        * dispute.config.pay_cost == dispute.config.pay_cost);
}

/// Among the first `n` of claims that start with the winning party and go on
/// with winning voters, one is the party's and the others are voters'.
proof fn lemma_party_and_voters(claims: Seq<Standing>, n: int)
    requires
        1 <= n <= claims.len(),
        claims[0] == Standing::WinningParty,
        forall|i: int| 1 <= i < claims.len() ==> claims[i] == Standing::WinningVoter,
    ensures
        claims_of(claims.subrange(0, n), Standing::WinningParty) == 1,
        claims_of(claims.subrange(0, n), Standing::WinningVoter) == n - 1,
        claims_of(claims.subrange(0, n), Standing::RefundedParty) == 0,
        claims_of(claims.subrange(0, n), Standing::RefundedVoter) == 0,
    decreases n,
{
    let prefix = claims.subrange(0, n);
    assert(prefix.drop_last() =~= claims.subrange(0, n - 1));
    assert(prefix.last() == claims[n - 1]);
    if n > 1 {
        lemma_party_and_voters(claims, n - 1);
    } else {
        let none = claims.subrange(0, 0);
        assert(claims_of(none, Standing::WinningParty) == 0);
        assert(claims_of(none, Standing::WinningVoter) == 0);
        assert(claims_of(none, Standing::RefundedParty) == 0);
        assert(claims_of(none, Standing::RefundedVoter) == 0);
    }
}

/// Any `claimants` of at most `winners` equal shares of a pool take no more
/// than the pool.
proof fn lemma_shares_fit(pool: int, winners: int, claimants: int)
    requires
        pool >= 0,
        0 <= claimants <= winners,
        winners >= 1,
    ensures
        claimants * share_of(pool, winners) <= pool,
        share_of(pool, winners) <= pool / winners,
{
    assert(pool / winners >= 0 && claimants * (pool / winners) <= pool) by (nonlinear_arith)
        requires
            pool >= 0,
            0 <= claimants <= winners,
            winners >= 1,
    ;
    assert(claimants * share_of(pool, winners) <= claimants * (pool / winners)) by (
        nonlinear_arith)
        requires
            claimants >= 0,
            share_of(pool, winners) <= pool / winners,
    ;
}

/// Claims that include no refund are paid what the winning party and the
/// winning voters among them are paid.
proof fn lemma_paid_by_standing(dispute: &Dispute, claims: Seq<Standing>)
    requires
        claims_of(claims, Standing::RefundedParty) == 0,
        claims_of(claims, Standing::RefundedVoter) == 0,
    ensures
        paid_rep(dispute, claims) == claims_of(claims, Standing::WinningParty)
            * dispute.config.rep_cost + claims_of(claims, Standing::WinningVoter)
            * dispute.payout_of(Standing::WinningVoter).rep,
        paid_pay(dispute, claims) == claims_of(claims, Standing::WinningParty)
            * dispute.config.pay_cost + claims_of(claims, Standing::WinningVoter)
            * dispute.payout_of(Standing::WinningVoter).pay,
    decreases claims.len(),
{
    let rep_each = dispute.payout_of(Standing::WinningVoter).rep as int;
    let pay_each = dispute.payout_of(Standing::WinningVoter).pay as int;
    let rep_cost = dispute.config.rep_cost as int;
    let pay_cost = dispute.config.pay_cost as int;
    if claims.len() > 0 {
        let rest = claims.drop_last();
        lemma_paid_by_standing(dispute, rest);
        let parties = claims_of(rest, Standing::WinningParty) as int;
        let voters = claims_of(rest, Standing::WinningVoter) as int;
        assert((parties + 1) * rep_cost == parties * rep_cost + rep_cost && (parties + 1)
            * pay_cost == parties * pay_cost + pay_cost && (voters + 1) * rep_each == voters
            * rep_each + rep_each && (voters + 1) * pay_each == voters * pay_each + pay_each)
            by (nonlinear_arith);
        match claims.last() {
            Standing::WinningParty => {
                assert(dispute.payout_of(claims.last()).rep == rep_cost);
                assert(dispute.payout_of(claims.last()).pay == pay_cost);
            },
            Standing::WinningVoter => {},
            Standing::LosingParty | Standing::LosingVoter => {
                assert(dispute.payout_of(claims.last()).rep == 0);
                assert(dispute.payout_of(claims.last()).pay == 0);
            },
            Standing::RefundedParty | Standing::RefundedVoter => {},
        }
    } else {
        assert(0 * rep_cost + 0 * rep_each == 0 && 0 * pay_cost + 0 * pay_each == 0);
    }
}

} // verus!
