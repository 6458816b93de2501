//! A participant's stake ledger: what they have in escrow and the queue of
//! disputes they have yet to settle.

use crate::error::InputError;
use crate::hash::{keccak_digest, keccak_hashv};
use crate::pubkey::{same_bytes, Pubkey};
use vstd::prelude::*;

verus! {

/// What a queue entry records of the participant's vote.
#[derive(Clone, Copy, Debug, PartialEq, Eq)]
pub enum Vote {
    /// A commitment that has not been revealed.
    Secret { hash: [u8; 32] },
    /// The candidate backed: revealed by a voter, or a party's own seat.
    Reveal { key: Pubkey },
}

/// One dispute a participant is exposed to.
#[derive(Clone, Copy, Debug, PartialEq, Eq)]
pub struct DisputeRecord {
    /// The dispute.
    pub dispute_id: u64,
    /// When the dispute's reveal period ends.
    pub dispute_end_time: i64,
    /// The participant's vote in it.
    pub user_voted_for: Vote,
}

impl DisputeRecord {
    /// Stored size in bytes.
    pub const SIZE: usize = 49;
}

/// Entries are kept latest end time first, so the entry to settle next is
/// the last one.
pub open spec fn ordered(queue: Seq<DisputeRecord>) -> bool {
    forall|i: int, j: int|
        0 <= i < j < queue.len() ==> queue[i].dispute_end_time >= queue[j].dispute_end_time
}

/// No two entries are for the same dispute.
pub open spec fn distinct(queue: Seq<DisputeRecord>) -> bool {
    forall|i: int, j: int|
        0 <= i < j < queue.len() ==> queue[i].dispute_id != queue[j].dispute_id
}

/// Whether some entry is for dispute `dispute_id`.
pub open spec fn holds(queue: Seq<DisputeRecord>, dispute_id: u64) -> bool {
    exists|i: int| 0 <= i < queue.len() && #[trigger] queue[i].dispute_id == dispute_id
}

/// First entry at or after `from` that is for dispute `dispute_id`; the
/// length of the queue when there is none.
pub open spec fn entry_of(queue: Seq<DisputeRecord>, dispute_id: u64, from: int) -> int
    decreases queue.len() - from,
{
    if from < 0 || from >= queue.len() {
        queue.len() as int
    } else if queue[from].dispute_id == dispute_id {
        from
    } else {
        entry_of(queue, dispute_id, from + 1)
    }
}

/// Where an entry that ends at `end_time` goes: before the first entry at or
/// after `from` that ends no later, or at the end.
pub open spec fn insertion_point(queue: Seq<DisputeRecord>, end_time: i64, from: int) -> int
    decreases queue.len() - from,
{
    if from < 0 || from >= queue.len() {
        queue.len() as int
    } else if queue[from].dispute_end_time <= end_time {
        from
    } else {
        insertion_point(queue, end_time, from + 1)
    }
}

/// What `entry_of` returns: the first entry for the dispute, or the length.
pub proof fn lemma_entry_of(queue: Seq<DisputeRecord>, dispute_id: u64, from: int)
    requires
        0 <= from <= queue.len(),
    ensures
        from <= entry_of(queue, dispute_id, from) <= queue.len(),
        entry_of(queue, dispute_id, from) < queue.len() ==> queue[entry_of(
            queue,
            dispute_id,
            from,
        )].dispute_id == dispute_id,
        forall|j: int|
            from <= j < entry_of(queue, dispute_id, from) ==> queue[j].dispute_id != dispute_id,
        from == 0 ==> (entry_of(queue, dispute_id, 0) < queue.len() <==> holds(queue, dispute_id)),
    decreases queue.len() - from,
{
    if from < queue.len() && queue[from].dispute_id != dispute_id {
        lemma_entry_of(queue, dispute_id, from + 1);
    }
}

/// What `insertion_point` returns: every entry before it ends later, the
/// entry at it, if any, ends no later.
pub proof fn lemma_insertion_point(queue: Seq<DisputeRecord>, end_time: i64, from: int)
    requires
        0 <= from <= queue.len(),
    ensures
        from <= insertion_point(queue, end_time, from) <= queue.len(),
        insertion_point(queue, end_time, from) < queue.len() ==> queue[insertion_point(
            queue,
            end_time,
            from,
        )].dispute_end_time <= end_time,
        forall|j: int|
            from <= j < insertion_point(queue, end_time, from) ==> queue[j].dispute_end_time
                > end_time,
    decreases queue.len() - from,
{
    if from < queue.len() && queue[from].dispute_end_time > end_time {
        lemma_insertion_point(queue, end_time, from + 1);
    }
}

/// Inserting an entry for a new dispute at its insertion point keeps the
/// queue ordered and free of duplicates, behind every entry that ends no
/// later.
pub proof fn lemma_insert_keeps_queue(queue: Seq<DisputeRecord>, item: DisputeRecord)
    requires
        ordered(queue),
        distinct(queue),
        !holds(queue, item.dispute_id),
    ensures
        ordered(queue.insert(insertion_point(queue, item.dispute_end_time, 0), item)),
        distinct(queue.insert(insertion_point(queue, item.dispute_end_time, 0), item)),
        forall|j: int|
            insertion_point(queue, item.dispute_end_time, 0) <= j < queue.len()
                ==> queue[j].dispute_end_time <= item.dispute_end_time,
{
    let at = insertion_point(queue, item.dispute_end_time, 0);
    lemma_insertion_point(queue, item.dispute_end_time, 0);
    let after = queue.insert(at, item);
    assert forall|j: int| at <= j < queue.len() implies queue[j].dispute_end_time
        <= item.dispute_end_time by {
        if j > at {
            assert(queue[at].dispute_end_time >= queue[j].dispute_end_time);
        }
    }
    assert forall|i: int, j: int| 0 <= i < j < after.len() implies after[i].dispute_end_time
        >= after[j].dispute_end_time by {
        if i < at && j > at {
            assert(queue[i].dispute_end_time >= queue[j - 1].dispute_end_time);
        }
    }
    assert forall|i: int, j: int| 0 <= i < j < after.len() implies after[i].dispute_id
        != after[j].dispute_id by {
        if i == at {
            assert(queue[j - 1].dispute_id != item.dispute_id);
        } else if j == at {
            assert(queue[i].dispute_id != item.dispute_id);
        } else {
            let a = if i < at { i } else { i - 1 };
            let b = if j < at { j } else { j - 1 };
            assert(queue[a].dispute_id != queue[b].dispute_id);
        }
    }
}

/// A participant's ledger.
#[derive(Clone, Debug, PartialEq, Eq)]
pub struct VoterRecord {
    /// Disputes to settle, latest end time first: the last entry is the
    /// head, the one to settle next.
    pub claim_queue: Vec<DisputeRecord>,
    /// Reputation currently in escrow.
    pub currently_staked_rep: u64,
    /// Payment currently in escrow.
    pub currently_staked_pay: u64,
    /// Address seed of the stored record.
    pub bump: u8,
}

impl VoterRecord {
    /// The invariant every operation keeps: the queue is ordered by end time
    /// and holds at most one entry for each dispute.
    pub open spec fn wf(&self) -> bool {
        &&& ordered(self.claim_queue@)
        &&& distinct(self.claim_queue@)
    }

    /// The entry to settle next: among those with the earliest end time, the
    /// one that was queued first.
    pub open spec fn head(&self) -> Option<DisputeRecord> {
        if self.claim_queue@.len() == 0 {
            None
        } else {
            Some(self.claim_queue@.last())
        }
    }

    /// The entries in the order in which they are settled.
    pub open spec fn pending(&self) -> Seq<DisputeRecord> {
        Seq::new(
            self.claim_queue@.len(),
            |i: int| self.claim_queue@[self.claim_queue@.len() - 1 - i],
        )
    }

    /// Disputes are settled by ascending end time, the head first.
    pub proof fn lemma_settled_by_end_time(&self, sooner: int, later: int)
        requires
            self.wf(),
            0 <= sooner <= later < self.claim_queue@.len(),
        ensures
            self.pending()[sooner].dispute_end_time <= self.pending()[later].dispute_end_time,
            self.head() == Some(self.pending()[0]),
    {
        let n = self.claim_queue@.len();
        if sooner < later {
            assert(self.claim_queue@[n - 1 - later].dispute_end_time >= self.claim_queue@[n - 1
                - sooner].dispute_end_time);
        }
    }

    /// Whether the head's dispute ended before `now`.
    pub open spec fn has_matured(&self, now: i64) -> bool {
        self.head() matches Some(record) && record.dispute_end_time < now
    }

    /// Whether a new entry would be turned away at `now`, and why: first for
    /// a matured head, then for a full queue, then for a duplicate.
    pub open spec fn refusal(&self, dispute_id: u64, now: i64, max_disputes: u16) -> Option<
        InputError,
    > {
        if self.has_matured(now) {
            Some(InputError::HasUnclaimedDisputes)
        } else if self.claim_queue@.len() >= max_disputes {
            Some(InputError::MaxDisputesReached)
        } else if holds(self.claim_queue@, dispute_id) {
            Some(InputError::AlreadyEngaged)
        } else {
            None
        }
    }

    /// The other ledger holds the same amounts in escrow.
    pub open spec fn same_stakes(&self, other: &VoterRecord) -> bool {
        &&& self.currently_staked_rep == other.currently_staked_rep
        &&& self.currently_staked_pay == other.currently_staked_pay
        &&& self.bump == other.bump
    }

    /// This ledger is `before` with `item` queued at its insertion point.
    pub open spec fn queues(&self, before: &VoterRecord, item: DisputeRecord) -> bool {
        self.claim_queue@ == before.claim_queue@.insert(
            insertion_point(before.claim_queue@, item.dispute_end_time, 0),
            item,
        )
    }

    /// This ledger holds in escrow what `before` held and `rep` and `pay`
    /// more, as far as that fits in 64 bits.
    pub open spec fn escrows_more(&self, before: &VoterRecord, rep: u64, pay: u64) -> bool {
        &&& self.bump == before.bump
        &&& self.currently_staked_rep == if before.currently_staked_rep + rep > u64::MAX {
            u64::MAX
        } else {
            (before.currently_staked_rep + rep) as u64
        }
        &&& self.currently_staked_pay == if before.currently_staked_pay + pay > u64::MAX {
            u64::MAX
        } else {
            (before.currently_staked_pay + pay) as u64
        }
    }

    /// This ledger holds in escrow what `before` held less `rep` and `pay`,
    /// and never less than nothing.
    pub open spec fn escrows_less(&self, before: &VoterRecord, rep: u64, pay: u64) -> bool {
        &&& self.bump == before.bump
        &&& self.currently_staked_rep == if before.currently_staked_rep < rep {
            0
        } else {
            (before.currently_staked_rep - rep) as u64
        }
        &&& self.currently_staked_pay == if before.currently_staked_pay < pay {
            0
        } else {
            (before.currently_staked_pay - pay) as u64
        }
    }

    /// Whether a new entry for dispute `dispute_id` would be turned away at
    /// `now`, and why.
    pub fn admission(&self, dispute_id: u64, now: i64, max_disputes: u16) -> (refusal: Option<
        InputError,
    >)
        ensures
            refusal == self.refusal(dispute_id, now, max_disputes),
    {
        if self.has_unclaimed_disputes(now) {
            Some(InputError::HasUnclaimedDisputes)
        } else if self.claim_queue.len() >= max_disputes as usize {
            Some(InputError::MaxDisputesReached)
        } else if self.in_dispute(dispute_id) {
            Some(InputError::AlreadyEngaged)
        } else {
            None
        }
    }

    /// A queue never holds two entries for the same dispute.
    pub proof fn lemma_one_entry_per_dispute(&self, i: int, j: int)
        requires
            self.wf(),
            0 <= i < self.claim_queue@.len(),
            0 <= j < self.claim_queue@.len(),
            self.claim_queue@[i].dispute_id == self.claim_queue@[j].dispute_id,
        ensures
            i == j,
    {
        if i < j {
            assert(self.claim_queue@[i].dispute_id != self.claim_queue@[j].dispute_id);
        } else if j < i {
            assert(self.claim_queue@[j].dispute_id != self.claim_queue@[i].dispute_id);
        }
    }

    /// The head is the oldest exposure: no entry ends before it.
    pub proof fn lemma_head_ends_first(&self, i: int)
        requires
            self.wf(),
            0 <= i < self.claim_queue@.len(),
        ensures
            self.head() matches Some(head) && head.dispute_end_time
                <= self.claim_queue@[i].dispute_end_time,
    {
        let last = self.claim_queue@.len() - 1;
        if i < last {
            assert(self.claim_queue@[i].dispute_end_time
                >= self.claim_queue@[last].dispute_end_time);
        }
    }

    /// A participant whose head has matured opens no new engagement,
    /// whatever the dispute and the bound of the queue.
    pub proof fn lemma_matured_head_refuses(&self, dispute_id: u64, now: i64, max_disputes: u16)
        requires
            self.has_matured(now),
        ensures
            self.refusal(dispute_id, now, max_disputes) == Some(InputError::HasUnclaimedDisputes),
    {
    }

    /// Whether the ledger meets the invariant. Ledgers that the operations of
    /// this library produced do; a ledger from elsewhere is to be checked
    /// before it is handed to them.
    pub fn is_well_formed(&self) -> (ok: bool)
        ensures
            ok == self.wf(),
    {
        let n = self.claim_queue.len();
        let mut i: usize = 0;
        while i < n
            invariant
                0 <= i <= n,
                n == self.claim_queue@.len(),
                forall|a: int, b: int|
                    0 <= a < b < i ==> self.claim_queue@[a].dispute_end_time
                        >= self.claim_queue@[b].dispute_end_time,
                forall|a: int, b: int|
                    0 <= a < b < i ==> self.claim_queue@[a].dispute_id
                        != self.claim_queue@[b].dispute_id,
            decreases n - i,
        {
            if i > 0 && self.claim_queue[i - 1].dispute_end_time
                < self.claim_queue[i].dispute_end_time {
                return false;
            }
            let mut j: usize = 0;
            while j < i
                invariant
                    0 <= j <= i < n,
                    n == self.claim_queue@.len(),
                    forall|a: int|
                        0 <= a < j ==> self.claim_queue@[a].dispute_id
                            != self.claim_queue@[i as int].dispute_id,
                decreases i - j,
            {
                if self.claim_queue[j].dispute_id == self.claim_queue[i].dispute_id {
                    return false;
                }
                j += 1;
            }
            assert forall|a: int, b: int| 0 <= a < b < i + 1 implies self.claim_queue@[a].dispute_end_time
                >= self.claim_queue@[b].dispute_end_time by {
                if b == i && a < i - 1 {
                    assert(self.claim_queue@[a].dispute_end_time >= self.claim_queue@[i
                        - 1].dispute_end_time);
                }
            }
            i += 1;
        }
        true
    }

    /// Bytes a stored ledger takes whose queue can hold `max_disputes`
    /// entries.
    pub fn get_size(max_disputes: u16) -> (size: usize)
        ensures
            size == 8 + 4 + 49 * max_disputes + 8 + 8 + 1,
    {
        let n: usize = max_disputes as usize;
        8 + 4 + DisputeRecord::SIZE * n + 8 + 8 + 1
    }

    /// Whether the participant holds an entry for dispute `dispute_id`.
    pub fn in_dispute(&self, dispute_id: u64) -> (engaged: bool)
        ensures
            engaged == holds(self.claim_queue@, dispute_id),
    {
        self.find(dispute_id) < self.claim_queue.len()
    }

    /// Index of the entry for dispute `dispute_id`, or the length of the
    /// queue.
    pub fn find(&self, dispute_id: u64) -> (at: usize)
        ensures
            at == entry_of(self.claim_queue@, dispute_id, 0),
            at <= self.claim_queue@.len(),
            at < self.claim_queue@.len() <==> holds(self.claim_queue@, dispute_id),
    {
        let mut i: usize = 0;
        proof {
            lemma_entry_of(self.claim_queue@, dispute_id, 0);
        }
        while i < self.claim_queue.len()
            invariant
                0 <= i <= self.claim_queue@.len(),
                entry_of(self.claim_queue@, dispute_id, 0) == entry_of(
                    self.claim_queue@,
                    dispute_id,
                    i as int,
                ),
            decreases self.claim_queue@.len() - i,
        {
            if self.claim_queue[i].dispute_id == dispute_id {
                return i;
            }
            i += 1;
        }
        i
    }

    /// Whether the head's dispute ended before `now` and is still unclaimed.
    pub fn has_unclaimed_disputes(&self, now: i64) -> (matured: bool)
        ensures
            matured == self.has_matured(now),
    {
        match self.peek() {
            Some(record) => record.dispute_end_time < now,
            None => false,
        }
    }

    /// Whether `vote` is a revealed vote for `pubkey`.
    pub fn verify_key(&self, vote: Vote, pubkey: Pubkey) -> (backed: bool)
        ensures
            backed == (vote == Vote::Reveal { key: pubkey }),
    {
        match vote {
            Vote::Reveal { key } => key == pubkey,
            Vote::Secret { .. } => false,
        }
    }

    /// The entry to settle next, if any.
    pub fn peek(&self) -> (head: Option<&DisputeRecord>)
        ensures
            match head {
                Some(record) => self.head() == Some(*record),
                None => self.head() is None,
            },
    {
        let n = self.claim_queue.len();
        if n == 0 {
            None
        } else {
            Some(&self.claim_queue[n - 1])
        }
    }

    /// Removes and returns the entry to settle next, if any.
    pub fn pop(&mut self) -> (head: Option<DisputeRecord>)
        requires
            old(self).wf(),
        ensures
            final(self).wf(),
            final(self).same_stakes(old(self)),
            head == old(self).head(),
            match head {
                Some(record) => final(self).claim_queue@ == old(self).claim_queue@.drop_last()
                    && !holds(final(self).claim_queue@, record.dispute_id),
                None => final(self).claim_queue@ == old(self).claim_queue@,
            },
    {
        let head = self.claim_queue.pop();
        proof {
            if old(self).claim_queue@.len() > 0 {
                let before = old(self).claim_queue@;
                assert(before.subrange(0, before.len() - 1) =~= before.drop_last());
                assert forall|i: int| 0 <= i < before.len() - 1 implies before.drop_last()[i].dispute_id
                    != before.last().dispute_id by {
                    assert(before[i].dispute_id != before[before.len() - 1].dispute_id);
                }
            }
        }
        head
    }

    /// Queues `item` unless the queue already holds `max_disputes` entries or
    /// one for the same dispute.
    pub fn push(&mut self, item: DisputeRecord, max_disputes: u16) -> (res: Result<
        (),
        InputError,
    >)
        requires
            old(self).wf(),
        ensures
            final(self).wf(),
            final(self).same_stakes(old(self)),
            match res {
                Ok(()) => {
                    &&& old(self).claim_queue@.len() < max_disputes
                    &&& !holds(old(self).claim_queue@, item.dispute_id)
                    &&& final(self).queues(old(self), item)
                },
                Err(e) => {
                    &&& *final(self) == *old(self)
                    &&& e == if old(self).claim_queue@.len() >= max_disputes {
                        InputError::MaxDisputesReached
                    } else {
                        InputError::AlreadyEngaged
                    }
                    &&& old(self).claim_queue@.len() >= max_disputes || holds(
                        old(self).claim_queue@,
                        item.dispute_id,
                    )
                },
            },
    {
        if self.claim_queue.len() >= max_disputes as usize {
            return Err(InputError::MaxDisputesReached);
        }
        if self.in_dispute(item.dispute_id) {
            return Err(InputError::AlreadyEngaged);
        }
        let mut at: usize = 0;
        while at < self.claim_queue.len() && self.claim_queue[at].dispute_end_time
            > item.dispute_end_time
            invariant
                0 <= at <= self.claim_queue@.len(),
                insertion_point(self.claim_queue@, item.dispute_end_time, 0) == insertion_point(
                    self.claim_queue@,
                    item.dispute_end_time,
                    at as int,
                ),
            decreases self.claim_queue@.len() - at,
        {
            at += 1;
        }
        proof {
            lemma_insert_keeps_queue(self.claim_queue@, item);
        }
        self.claim_queue.insert(at, item);
        Ok(())
    }

    /// Opens a new engagement at `now`: queues `item` unless the head has
    /// matured, the queue is full, or the dispute is already queued.
    pub fn engage(&mut self, item: DisputeRecord, now: i64, max_disputes: u16) -> (res: Result<
        (),
        InputError,
    >)
        requires
            old(self).wf(),
        ensures
            final(self).wf(),
            final(self).same_stakes(old(self)),
            match res {
                Ok(()) => {
                    &&& old(self).refusal(item.dispute_id, now, max_disputes) is None
                    &&& final(self).queues(old(self), item)
                },
                Err(e) => {
                    &&& *final(self) == *old(self)
                    &&& old(self).refusal(item.dispute_id, now, max_disputes) == Some(e)
                },
            },
    {
        if self.has_unclaimed_disputes(now) {
            return Err(InputError::HasUnclaimedDisputes);
        }
        self.push(item, max_disputes)
    }

    /// Adds to the amounts in escrow; an amount that would not fit stays at
    /// the largest value.
    pub fn stake(&mut self, rep: u64, pay: u64)
        ensures
            final(self).claim_queue == old(self).claim_queue,
            final(self).escrows_more(old(self), rep, pay),
    {
        self.currently_staked_rep = self.currently_staked_rep.saturating_add(rep);
        self.currently_staked_pay = self.currently_staked_pay.saturating_add(pay);
    }

    /// Takes from the amounts in escrow; they never go below zero.
    pub fn release(&mut self, rep: u64, pay: u64)
        ensures
            final(self).claim_queue == old(self).claim_queue,
            final(self).escrows_less(old(self), rep, pay),
    {
        self.currently_staked_rep = self.currently_staked_rep.saturating_sub(rep);
        self.currently_staked_pay = self.currently_staked_pay.saturating_sub(pay);
    }

    /// Whether `digest` opens the commitment stored for dispute
    /// `dispute_id`.
    pub open spec fn opens(&self, digest: Seq<u8>, dispute_id: u64) -> bool {
        let at = entry_of(self.claim_queue@, dispute_id, 0);
        &&& at < self.claim_queue@.len()
        &&& self.claim_queue@[at].user_voted_for matches Vote::Secret { hash }
        &&& hash@ == digest
    }

    /// The queue after the entry for dispute `dispute_id` is marked as a
    /// revealed vote for `candidate`.
    pub open spec fn revealed(&self, candidate: Pubkey, dispute_id: u64) -> Seq<DisputeRecord> {
        let at = entry_of(self.claim_queue@, dispute_id, 0);
        self.claim_queue@.update(
            at,
            DisputeRecord {
                user_voted_for: Vote::Reveal { key: candidate },
                ..self.claim_queue@[at]
            },
        )
    }

    /// A commitment is revealed at most once: once the entry for a dispute
    /// is a revealed vote, no digest opens it.
    pub proof fn lemma_revealed_once(
        &self,
        after: &VoterRecord,
        candidate: Pubkey,
        dispute_id: u64,
        digest: Seq<u8>,
    )
        requires
            holds(self.claim_queue@, dispute_id),
            after.claim_queue@ == self.revealed(candidate, dispute_id),
        ensures
            !after.opens(digest, dispute_id),
    {
        lemma_entry_of(self.claim_queue@, dispute_id, 0);
        lemma_entry_of(after.claim_queue@, dispute_id, 0);
        let at = entry_of(self.claim_queue@, dispute_id, 0);
        let then = entry_of(after.claim_queue@, dispute_id, 0);
        assert(after.claim_queue@[at].dispute_id == dispute_id);
        if then < at {
            assert(self.claim_queue@[then].dispute_id == after.claim_queue@[then].dispute_id);
        }
    }

    /// Reveals the vote for dispute `dispute_id` given the digest of the
    /// candidate and salt: where the digest is the stored commitment, the
    /// entry becomes a revealed vote for `candidate`.
    pub fn reveal_with(&mut self, digest: &[u8; 32], candidate: Pubkey, dispute_id: u64) -> (res:
        Result<(), InputError>)
        requires
            old(self).wf(),
        ensures
            final(self).wf(),
            final(self).same_stakes(old(self)),
            match res {
                Ok(()) => old(self).opens(digest@, dispute_id) && final(self).claim_queue@
                    == old(self).revealed(candidate, dispute_id),
                Err(e) => !old(self).opens(digest@, dispute_id) && e == InputError::InvalidReveal
                    && *final(self) == *old(self),
            },
    {
        let at = self.find(dispute_id);
        if at < self.claim_queue.len() {
            let record = self.claim_queue[at];
            match record.user_voted_for {
                Vote::Secret { hash } => {
                    if same_bytes(&hash, digest) {
                        self.claim_queue[at] = DisputeRecord {
                            dispute_id: record.dispute_id,
                            dispute_end_time: record.dispute_end_time,
                            user_voted_for: Vote::Reveal { key: candidate },
                        };
                        return Ok(());
                    }
                },
                Vote::Reveal { .. } => {},
            }
        }
        Err(InputError::InvalidReveal)
    }

    /// Reveals the vote for dispute `dispute_id`: succeeds exactly when the
    /// digest of `pubkey` and `salt` is the commitment stored for that
    /// dispute, and then marks the entry as a revealed vote for `pubkey`.
    pub fn verify_hash(&mut self, pubkey: Pubkey, salt: &String, dispute_id: u64) -> (res: Result<
        (),
        InputError,
    >)
        requires
            old(self).wf(),
        ensures
            final(self).wf(),
            final(self).same_stakes(old(self)),
            match res {
                Ok(()) => old(self).opens(keccak_digest(pubkey@, salt@), dispute_id)
                    && final(self).claim_queue@ == old(self).revealed(pubkey, dispute_id),
                Err(e) => !old(self).opens(keccak_digest(pubkey@, salt@), dispute_id) && e
                    == InputError::InvalidReveal && *final(self) == *old(self),
            },
    {
        let digest = keccak_hashv(&pubkey, salt);
        self.reveal_with(&digest, pubkey, dispute_id)
    }
}

} // verus!
