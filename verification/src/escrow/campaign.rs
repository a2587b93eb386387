//! The operations on one campaign.

use crate::address::{lemma_map_of_dom, lemma_map_of_len, lemma_map_of_value, Address, AddressMap};
use crate::escrow::laws::{
    lemma_close_keeps_wf, lemma_sum_amounts_grows, lemma_sum_given_grows, lemma_fund_keeps_wf, lemma_proof_keeps_wf, lemma_refund_keeps_wf,
    lemma_release_keeps_wf, lemma_verdict_keeps_wf, lemma_vote_keeps_wf_of_campaign,
};
use crate::escrow::model::{sum_amounts, sum_given, zero_digest};
use crate::escrow::types::{
    Campaign, CampaignStatus, ContractError, Digest, Milestone, MilestoneStatus, Party, Transfer,
    VerificationStatus,
};
use crate::math::{fee_of, isqrt_wide, platform_fee};
use vstd::prelude::*;

verus! {

impl Campaign {
    /// The campaign is well formed as mathematics, and its records are fit
    /// for the machine: no principal occurs twice in a map, and the
    /// milestones can be counted in 32 bits.
    pub open spec fn wf(&self) -> bool {
        &&& self@.wf()
        &&& self.backers.wf()
        &&& self.milestones@.len() <= u32::MAX
        &&& forall|i: int|
            0 <= i < self.milestones@.len() ==> (#[trigger] self.milestones@[i]).voters.wf()
        &&& forall|i: int|
            0 <= i < self.milestones@.len() ==> (#[trigger] self.milestones@[i]).voters.entries@.len()
                <= u32::MAX
    }

    /// Takes `amount` from `backer` into the escrow, unless the campaign
    /// takes no funds or the amount would overshoot the goal.
    pub(crate) fn fund(&mut self, backer: Address, amount: i128, now: u64) -> (r: Result<
        (),
        ContractError,
    >)
        requires
            old(self).wf(),
            amount > 0,
            old(self)@.has_room_for(backer@),
        ensures
            final(self).wf(),
            r == (match old(self)@.fund_error(amount as int) {
                Some(e) => Err::<(), ContractError>(e),
                None => Ok(()),
            }),
            r is Ok ==> final(self)@ == old(self)@.after_fund(backer@, amount as int, now as nat),
            r is Err ==> *final(self) == *old(self),
    {
        if self.status != CampaignStatus::Active {
            return Err(ContractError::CampaignNotActive);
        }
        if amount > self.total_goal - self.funds_raised {
            return Err(ContractError::FundingGoalExceeded);
        }
        proof {
            lemma_fund_keeps_wf(self@, backer@, amount as int, now as nat);
            lemma_map_of_dom(self.backers.entries@);
        }
        let ghost before = self@;
        let given = match self.backers.get(&backer) {
            Some(a) => a,
            None => 0,
        };
        assert(given as int == before.contribution(backer@));
        if given == 0 {
            self.backer_count = self.backer_count + 1;
        }
        self.backers.set(backer, given + amount);
        self.funds_raised = self.funds_raised + amount;
        self.funds_locked = self.funds_locked + amount;
        if self.funds_raised >= self.total_goal {
            self.status = CampaignStatus::Funded;
            self.funded_at = now;
        }
        proof {
            let after = before.after_fund(backer@, amount as int, now as nat);
            assert(self@.backers =~= after.backers);
            assert(self@.milestones =~= after.milestones);
            assert(self@ == after);
        }
        Ok(())
    }

    /// Releases the milestone `id` at `now`, if its conditions are met, and
    /// returns the creator's share and the platform's fee at `fee_bps` basis
    /// points. Without a fee rate nothing is released.
    pub(crate) fn release(&mut self, id: u32, fee_bps: Option<u32>, now: u64) -> (r: Result<
        (i128, i128),
        ContractError,
    >)
        requires
            old(self).wf(),
            fee_bps is Some ==> fee_bps->0 <= 10000,
        ensures
            final(self).wf(),
            r == (match old(self)@.release_error(id as nat) {
                Some(e) => Err::<(i128, i128), ContractError>(e),
                None => match fee_bps {
                    None => Err(ContractError::InvalidInput),
                    Some(bps) => Ok(
                        (
                            (old(self)@.milestones[id as int].amount - fee_of(
                                old(self)@.milestones[id as int].amount,
                                bps as nat,
                            )) as i128,
                            fee_of(old(self)@.milestones[id as int].amount, bps as nat) as i128,
                        ),
                    ),
                },
            }),
            r is Ok ==> final(self)@ == old(self)@.after_release(id as nat, now as nat),
            r is Err ==> *final(self) == *old(self),
    {
        let i = id as usize;
        if i >= self.milestones.len() {
            return Err(ContractError::MilestoneNotFound);
        }
        assert(self@.milestones[i as int] == self.milestones@[i as int]@);
        if self.milestones[i].status == MilestoneStatus::Released {
            return Err(ContractError::MilestoneAlreadyReleased);
        }
        if self.milestones[i].ai_verdict != VerificationStatus::Completed
            && self.milestones[i].ai_verdict != VerificationStatus::Partial {
            return Err(ContractError::AIVerificationPending);
        }
        if self.milestones[i].votes_for <= self.milestones[i].votes_against {
            return Err(ContractError::VotingNotOpen);
        }
        let amount = self.milestones[i].amount;
        if self.funds_locked < amount {
            return Err(ContractError::InsufficientFunds);
        }
        let bps = match fee_bps {
            Some(bps) => bps,
            None => {
                return Err(ContractError::InvalidInput);
            },
        };
        let ghost before = self@;
        proof {
            lemma_release_keeps_wf(before, id as nat, now as nat);
            assert(before.milestones[i as int].wf(i as int));
        }
        let fee = platform_fee(amount, bps);
        let creator_amount = amount - fee;
        self.milestones[i].status = MilestoneStatus::Released;
        self.milestones[i].released_at = now;
        self.funds_released = self.funds_released + amount;
        self.funds_locked = self.funds_locked - amount;
        if i + 1 < self.milestones.len() {
            self.milestones[i + 1].status = MilestoneStatus::InProgress;
            self.current_milestone = id + 1;
        }
        proof {
            let after = before.after_release(id as nat, now as nat);
            assert(self@.milestones =~= after.milestones);
            assert(self@.backers =~= after.backers);
            assert(self@ == after);
        }
        Ok((creator_amount, fee))
    }

    /// Orders every backer's contribution back to them and fails the
    /// campaign, whatever its status. Returns the orders, one for each backer,
    /// in the order in which the backers came.
    pub(crate) fn refund(&mut self) -> (orders: Vec<Transfer>)
        requires
            old(self).wf(),
        ensures
            final(self).wf(),
            final(self)@ == old(self)@.after_refund(),
            orders@.map_values(|t: Transfer| t@) == old(self)@.refund_orders(),
            orders@.len() <= u32::MAX,
    {
        let ghost before = self@;
        let ghost entries = self.backers.entries@;
        proof {
            lemma_refund_keeps_wf(before);
            lemma_map_of_dom(entries);
        }
        let mut orders: Vec<Transfer> = Vec::new();
        let n = self.backers.entries.len();
        let mut i: usize = 0;
        while i < n
            invariant
                i <= n,
                n == entries.len(),
                entries == self.backers.entries@,
                before == self@,
                self.wf(),
                orders@.len() == i,
                forall|j: int|
                    0 <= j < i ==> (#[trigger] orders@[j])@ == before.refund_orders()[j],
            decreases n - i,
        {
            proof {
                lemma_map_of_value(entries, i as int);
                assert(self.backers.keys()[i as int] == entries[i as int].who@);
                assert(before.backers.contains_key(entries[i as int].who@));
            }
            let amount = self.backers.entries[i].value;
            if amount > 0 {
                orders.push(
                    Transfer {
                        token: self.token_address.clone(),
                        from: Party::Escrow,
                        to: Party::Account(self.backers.entries[i].who.clone()),
                        amount,
                    },
                );
            }
            i += 1;
        }
        self.status = CampaignStatus::Failed;
        self.funds_locked = 0;
        self.backers = AddressMap::new();
        proof {
            let after = before.after_refund();
            assert(self@.backers =~= after.backers);
            assert(self@.backer_order =~= after.backer_order);
            assert(self@.milestones =~= after.milestones);
            assert(self@ == after);
            assert(orders@.map_values(|t: Transfer| t@) =~= before.refund_orders());
        }
        orders
    }

    /// Records the proof that `creator` hands in for the milestone `id`.
    pub(crate) fn submit_proof(&mut self, id: u32, creator: &Address, proof: Digest, now: u64) -> (r:
        Result<(), ContractError>)
        requires
            old(self).wf(),
        ensures
            final(self).wf(),
            r == (match old(self)@.proof_error(id as nat, creator@) {
                Some(e) => Err::<(), ContractError>(e),
                None => Ok(()),
            }),
            r is Ok ==> final(self)@ == old(self)@.after_proof(id as nat, proof@, now as nat),
            r is Err ==> *final(self) == *old(self),
    {
        if !creator.same(&self.creator) {
            return Err(ContractError::NotCreator);
        }
        let i = id as usize;
        if i >= self.milestones.len() {
            return Err(ContractError::MilestoneNotFound);
        }
        assert(self@.milestones[i as int] == self.milestones@[i as int]@);
        if self.milestones[i].status != MilestoneStatus::InProgress {
            return Err(ContractError::MilestoneNotReady);
        }
        if !is_zero_digest(&self.milestones[i].ipfs_proof) {
            return Err(ContractError::ProofAlreadySubmitted);
        }
        let ghost before = self@;
        proof {
            lemma_proof_keeps_wf(before, id as nat, creator@, proof@, now as nat);
        }
        self.milestones[i].ipfs_proof = proof;
        self.milestones[i].status = MilestoneStatus::ProofSubmitted;
        self.milestones[i].proof_submitted_at = now;
        self.milestones[i].ai_verdict = VerificationStatus::Pending;
        proof {
            let after = before.after_proof(id as nat, proof@, now as nat);
            assert(self@.milestones =~= after.milestones);
            assert(self@.backers =~= after.backers);
            assert(self@ == after);
        }
        Ok(())
    }

    /// Records the oracle's verdict on the milestone `id` and sends the
    /// milestone on: to a vote, to a dispute, or to rejection.
    pub(crate) fn record_verdict(
        &mut self,
        id: u32,
        verdict: VerificationStatus,
        confidence: u32,
        now: u64,
    ) -> (r: Result<(), ContractError>)
        requires
            old(self).wf(),
        ensures
            final(self).wf(),
            r == (match old(self)@.verdict_error(id as nat) {
                Some(e) => Err::<(), ContractError>(e),
                None => Ok(()),
            }),
            r is Ok ==> final(self)@ == old(self)@.after_verdict(
                id as nat,
                verdict,
                confidence as nat,
                now as nat,
            ),
            r is Err ==> *final(self) == *old(self),
    {
        let i = id as usize;
        if i >= self.milestones.len() {
            return Err(ContractError::MilestoneNotFound);
        }
        assert(self@.milestones[i as int] == self.milestones@[i as int]@);
        if self.milestones[i].status != MilestoneStatus::ProofSubmitted {
            return Err(ContractError::MilestoneNotReady);
        }
        let ghost before = self@;
        proof {
            lemma_verdict_keeps_wf(before, id as nat, verdict, confidence as nat, now as nat);
        }
        self.milestones[i].ai_verdict = verdict;
        self.milestones[i].ai_confidence = confidence;
        self.milestones[i].verified_at = now;
        self.milestones[i].status = match verdict {
            VerificationStatus::Completed => MilestoneStatus::VotingOpen,
            VerificationStatus::Partial => MilestoneStatus::VotingOpen,
            VerificationStatus::Suspicious => MilestoneStatus::Disputed,
            _ => MilestoneStatus::Rejected,
        };
        proof {
            let after = before.after_verdict(id as nat, verdict, confidence as nat, now as nat);
            assert(self@.milestones =~= after.milestones);
            assert(self@.backers =~= after.backers);
            assert(self@ == after);
        }
        Ok(())
    }

    /// Counts the vote of `voter` on the milestone `id`, weighted by the
    /// integer square root of what `voter` gave, and approves the milestone
    /// once the for-side holds more than twice the against-side. Returns the
    /// weight. Nothing is counted while the escrow is not `configured`.
    pub(crate) fn cast_vote(&mut self, id: u32, voter: Address, approve: bool, configured: bool) -> (r:
        Result<u64, ContractError>)
        requires
            old(self).wf(),
            old(self)@.vote_error(id as nat, voter@) is None ==> old(self)@.vote_fits(
                id as nat,
                voter@,
                approve,
            ),
        ensures
            final(self).wf(),
            r == (match old(self)@.vote_error(id as nat, voter@) {
                Some(e) => Err::<u64, ContractError>(e),
                None => if configured {
                    Ok(old(self)@.voting_power(voter@) as u64)
                } else {
                    Err(ContractError::InvalidInput)
                },
            }),
            r is Ok ==> final(self)@ == old(self)@.after_vote(id as nat, voter@, approve),
            r is Err ==> *final(self) == *old(self),
    {
        let i = id as usize;
        if i >= self.milestones.len() {
            return Err(ContractError::MilestoneNotFound);
        }
        assert(self@.milestones[i as int] == self.milestones@[i as int]@);
        if self.milestones[i].status != MilestoneStatus::VotingOpen && self.milestones[i].status
            != MilestoneStatus::AIVerified {
            return Err(ContractError::VotingNotOpen);
        }
        if self.milestones[i].voters.contains_key(&voter) {
            return Err(ContractError::AlreadyVoted);
        }
        let contribution = match self.backers.get(&voter) {
            Some(c) => c,
            None => {
                return Err(ContractError::NotABacker);
            },
        };
        if contribution <= 0 {
            return Err(ContractError::NotABacker);
        }
        if !configured {
            return Err(ContractError::InvalidInput);
        }
        let ghost before = self@;
        proof {
            lemma_vote_keeps_wf_of_campaign(before, id as nat, voter@, approve);
            assert(before.contribution(voter@) == contribution);
            lemma_map_of_len(self.milestones@[i as int].voters.entries@);
            lemma_map_of_dom(self.milestones@[i as int].voters.entries@);
            assert(before.milestones[i as int].voters.dom() =~= self.milestones@[i as int].voters@.dom());
        }
        let power = isqrt_wide(contribution as u128) as u64;
        if approve {
            self.milestones[i].votes_for = self.milestones[i].votes_for + power;
            self.milestones[i].voters.set(voter, power as i64);
        } else {
            self.milestones[i].votes_against = self.milestones[i].votes_against + power;
            self.milestones[i].voters.set(voter, -(power as i64));
        }
        let votes_for = self.milestones[i].votes_for;
        let votes_against = self.milestones[i].votes_against;
        if (votes_for > 0 || votes_against > 0) && votes_for as u128 > 2 * (votes_against as u128) {
            self.milestones[i].status = MilestoneStatus::Approved;
        }
        proof {
            let after = before.after_vote(id as nat, voter@, approve);
            assert(self.milestones@[i as int].voters.entries@.len()
                == self.milestones@[i as int].voters.keys().len());
            assert(old(self).milestones@[i as int].voters.entries@.len() == old(
                self,
            ).milestones@[i as int].voters.keys().len());
            assert(self@.milestones[i as int].voters =~= after.milestones[i as int].voters);
            assert(self@.milestones[i as int] == after.milestones[i as int]);
            assert(self@.milestones =~= after.milestones);
            assert(self@.backers =~= after.backers);
            assert(self@ == after);
        }
        Ok(power)
    }

    /// Whether every milestone is released.
    pub(crate) fn all_released(&self) -> (r: bool)
        ensures
            r == self@.all_released(),
    {
        let n = self.milestones.len();
        let mut i: usize = 0;
        while i < n
            invariant
                i <= n,
                n == self.milestones@.len(),
                forall|j: int|
                    0 <= j < i ==> (#[trigger] self@.milestones[j]).status
                        == MilestoneStatus::Released,
            decreases n - i,
        {
            assert(self@.milestones[i as int] == self.milestones@[i as int]@);
            if self.milestones[i].status != MilestoneStatus::Released {
                return false;
            }
            i += 1;
        }
        true
    }

    /// Closes the campaign at `now`.
    pub(crate) fn close(&mut self, now: u64)
        requires
            old(self).wf(),
            old(self)@.all_released(),
        ensures
            final(self).wf(),
            final(self)@ == old(self)@.after_close(now as nat),
    {
        let ghost before = self@;
        proof {
            lemma_close_keeps_wf(before, now as nat);
        }
        self.status = CampaignStatus::Completed;
        self.completed_at = now;
        proof {
            let after = before.after_close(now as nat);
            assert(self@.milestones =~= after.milestones);
            assert(self@.backers =~= after.backers);
            assert(self@ == after);
        }
    }
}

impl Milestone {
    /// Whether the milestone is fit to stand at position `index` of a
    /// campaign: whether it is well formed there and no voter occurs twice.
    pub fn is_valid(&self, index: usize) -> (r: bool)
        ensures
            r == (self@.wf(index as int) && self.voters.wf() && self.voters.entries@.len()
                <= u32::MAX),
    {
        if index > u32::MAX as usize || self.id != index as u32 {
            return false;
        }
        if self.amount <= 0 {
            return false;
        }
        if self.status == MilestoneStatus::Pending && self.ai_verdict
            != VerificationStatus::NotSubmitted {
            return false;
        }
        if self.status == MilestoneStatus::Released {
            if self.ai_verdict != VerificationStatus::Completed && self.ai_verdict
                != VerificationStatus::Partial {
                return false;
            }
            if self.votes_for <= self.votes_against {
                return false;
            }
        }
        if self.voters.entries.len() > u32::MAX as usize {
            return false;
        }
        self.voters.is_valid()
    }
}

impl Campaign {
    /// Whether the campaign is well formed: whether it is a state that the
    /// operations of the escrow can have left.
    #[verifier::loop_isolation(false)]
    pub fn is_valid(&self) -> (r: bool)
        ensures
            r == self.wf(),
    {
        let n = self.milestones.len();
        if n == 0 || n > u32::MAX as usize {
            return false;
        }
        let current = self.current_milestone as usize;
        if current >= n {
            return false;
        }
        let mut i: usize = 0;
        while i < n
            invariant
                i <= n,
                forall|j: int|
                    0 <= j < i ==> {
                        &&& (#[trigger] self@.milestones[j]).wf(j)
                        &&& self.milestones@[j].voters.wf()
                        &&& self.milestones@[j].voters.entries@.len() <= u32::MAX
                        &&& (j < current ==> self@.milestones[j].status == MilestoneStatus::Released)
                        &&& (j > current ==> self@.milestones[j].status == MilestoneStatus::Pending)
                    },
            decreases n - i,
        {
            assert(self@.milestones[i as int] == self.milestones@[i as int]@);
            if !self.milestones[i].is_valid(i) {
                return false;
            }
            if i < current && self.milestones[i].status != MilestoneStatus::Released {
                return false;
            }
            if i > current && self.milestones[i].status != MilestoneStatus::Pending {
                return false;
            }
            i += 1;
        }
        assert(self@.milestones[current as int] == self.milestones@[current as int]@);
        if self.milestones[current].status == MilestoneStatus::Pending {
            return false;
        }
        if self.total_goal <= 0 {
            proof {
                lemma_sum_amounts_grows(self@.milestones, 0, n as int);
            }
            return false;
        }
        let mut sum: i128 = 0;
        let mut paid: i128 = 0;
        let mut k: usize = 0;
        while k < n
            invariant
                k <= n,
                0 <= sum <= self.total_goal,
                sum == sum_amounts(self@.milestones, k as int),
                paid == sum_amounts(
                    self@.milestones,
                    if k <= current {
                        k as int
                    } else {
                        current as int
                    },
                ),
            decreases n - k,
        {
            assert(self@.milestones[k as int] == self.milestones@[k as int]@);
            assert(self@.milestones[k as int].wf(k as int));
            let amount = self.milestones[k].amount;
            if amount > self.total_goal - sum {
                proof {
                    lemma_sum_amounts_grows(self@.milestones, k as int + 1, n as int);
                }
                return false;
            }
            sum = sum + amount;
            if k < current {
                paid = sum;
            }
            k += 1;
        }
        if sum != self.total_goal {
            return false;
        }
        proof {
            lemma_sum_amounts_grows(self@.milestones, current as int, n as int);
            lemma_sum_amounts_grows(self@.milestones, current as int + 1, n as int);
        }
        if self.milestones[current].status == MilestoneStatus::Released {
            paid = paid + self.milestones[current].amount;
        }
        assert(paid == self@.paid_out());
        if self.funds_released != paid {
            return false;
        }
        if self.funds_released > self.funds_raised || self.funds_raised > self.total_goal {
            return false;
        }
        if self.funds_locked != self.funds_raised - self.funds_released && !(self.status
            == CampaignStatus::Failed && self.funds_locked == 0) {
            return false;
        }
        if self.status == CampaignStatus::Active && self.funds_raised >= self.total_goal {
            return false;
        }
        if self.status == CampaignStatus::Funded && self.funds_raised != self.total_goal {
            return false;
        }
        if !self.backers.is_valid() {
            return false;
        }
        let count = self.backers.entries.len();
        if count > self.backer_count as usize {
            assert(self@.backer_order.len() == count);
            return false;
        }
        proof {
            lemma_map_of_dom(self.backers.entries@);
        }
        let mut b: usize = 0;
        while b < count
            invariant
                b <= count,
                count == self.backers.entries@.len(),
                forall|j: int|
                    0 <= j < b ==> 0 < (#[trigger] self.backers.entries@[j]).value
                        <= self.funds_raised,
            decreases count - b,
        {
            let value = self.backers.entries[b].value;
            if value <= 0 || value > self.funds_raised {
                proof {
                    lemma_map_of_value(self.backers.entries@, b as int);
                    assert(self@.backers.contains_key(self.backers.entries@[b as int].who@));
                }
                return false;
            }
            b += 1;
        }
        proof {
            assert forall|key: Seq<char>| #[trigger] self@.backers.contains_key(key) implies 0
                < self@.backers[key] <= self@.funds_raised by {
                let j = choose|j: int|
                    0 <= j < self.backers.entries@.len() && (#[trigger] self.backers.entries@[j]).who@
                        == key;
                lemma_map_of_value(self.backers.entries@, j);
            }
            assert(self@.backer_order.len() == count);
            assert forall|j: int| 0 <= j < n implies (#[trigger] self.milestones@[j]).voters.wf()
                && self.milestones@[j].voters.entries@.len() <= u32::MAX by {
                assert(self@.milestones[j].wf(j));
            }
            assert forall|j: int| 0 <= j < count implies self@.backers.contains_key(
                #[trigger] self@.backer_order[j],
            ) && self@.backers[self@.backer_order[j]] == self.backers.entries@[j].value by {
                lemma_map_of_value(self.backers.entries@, j);
            }
            assert forall|key: Seq<char>| #[trigger]
                self@.backers.contains_key(key) implies self@.backer_order.contains(key) by {
                let j = choose|j: int|
                    0 <= j < self.backers.entries@.len() && (#[trigger] self.backers.entries@[j]).who@
                        == key;
                assert(self@.backer_order[j] == key);
            }
            assert(self@.backer_order.no_duplicates()) by {
                assert forall|a: int, b: int|
                    0 <= a < count && 0 <= b < count && a != b implies self@.backer_order[a]
                    != self@.backer_order[b] by {
                    assert(self.backers.entries@[a].who@ != self.backers.entries@[b].who@);
                }
            }
        }
        if self.status == CampaignStatus::Active || self.status == CampaignStatus::Funded {
            if self.backer_count as usize != count {
                return false;
            }
            let mut given: i128 = 0;
            let mut g: usize = 0;
            while g < count
                invariant
                    g <= count,
                    0 <= given <= self.funds_raised,
                    given == sum_given(self@.backers, self@.backer_order, g as int),
                decreases count - g,
            {
                let value = self.backers.entries[g].value;
                assert(self@.backers[self@.backer_order[g as int]] == value);
                if value > self.funds_raised - given {
                    proof {
                        lemma_sum_given_grows(
                            self@.backers,
                            self@.backer_order,
                            g as int + 1,
                            count as int,
                        );
                    }
                    return false;
                }
                given = given + value;
                g += 1;
            }
            if given != self.funds_raised {
                return false;
            }
        }
        true
    }
}

/// Whether `d` refers to nothing: whether all its bytes are zero.
pub fn is_zero_digest(d: &Digest) -> (r: bool)
    ensures
        r == (d@ == zero_digest()),
{
    let mut i: usize = 0;
    while i < 32
        invariant
            i <= 32,
            forall|j: int| 0 <= j < i ==> d@[j] == 0u8,
        decreases 32 - i,
    {
        if d[i] != 0 {
            assert(zero_digest()[i as int] == 0u8);
            return false;
        }
        i += 1;
    }
    assert(d@ =~= zero_digest());
    true
}

} // verus!
