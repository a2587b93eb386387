//! The escrow as a state machine over mathematical values: which operations
//! a campaign accepts, what each makes of it, and what holds of every
//! campaign that the operations can reach.

use crate::escrow::types::{
    CampaignStatus, CampaignView, ContractError, MilestoneSpecView, MilestoneStatus, MilestoneView,
    PartyView, TransferView, VerificationStatus,
};
use crate::math::sqrt_floor;
use vstd::prelude::*;

verus! {

/// The sum of the amounts of the first `n` milestones of `ms`.
pub open spec fn sum_amounts(ms: Seq<MilestoneView>, n: int) -> int
    decreases n,
{
    if n <= 0 {
        0
    } else {
        sum_amounts(ms, n - 1) + ms[n - 1].amount
    }
}

/// The sum of the amounts of the first `n` milestone requests of `specs`.
pub open spec fn sum_requested(specs: Seq<MilestoneSpecView>, n: int) -> int
    decreases n,
{
    if n <= 0 {
        0
    } else {
        sum_requested(specs, n - 1) + specs[n - 1].amount
    }
}

/// What the first `n` of `order` gave in all, by the book `backers`.
pub open spec fn sum_given(backers: Map<Seq<char>, int>, order: Seq<Seq<char>>, n: int) -> int
    decreases n,
{
    if n <= 0 {
        0
    } else {
        sum_given(backers, order, n - 1) + backers[order[n - 1]]
    }
}

/// The digest that refers to nothing.
pub open spec fn zero_digest() -> Seq<u8> {
    Seq::new(32, |i: int| 0u8)
}

impl MilestoneView {
    /// The verdict lets the milestone go on to a vote and to a release.
    pub open spec fn verdict_passes(self) -> bool {
        self.ai_verdict == VerificationStatus::Completed || self.ai_verdict
            == VerificationStatus::Partial
    }

    /// Votes are taken.
    pub open spec fn voting_open(self) -> bool {
        self.status == MilestoneStatus::VotingOpen || self.status == MilestoneStatus::AIVerified
    }

    /// The for-side holds more than twice the against-side, and somebody voted.
    pub open spec fn has_supermajority(self) -> bool {
        self.votes_for + self.votes_against > 0 && self.votes_for > 2 * self.votes_against
    }

    /// What holds of the milestone at position `index` of every campaign: it
    /// knows its position, asks for something, has no verdict before its
    /// turn, and was released only on a passing verdict and a majority.
    pub open spec fn wf(self, index: int) -> bool {
        &&& self.id == index
        &&& self.amount > 0
        &&& self.ipfs_proof.len() == 32
        &&& (self.status == MilestoneStatus::Pending ==> self.ai_verdict
            == VerificationStatus::NotSubmitted)
        &&& (self.status == MilestoneStatus::Released ==> self.verdict_passes() && self.votes_for
            > self.votes_against)
    }

    /// The milestone once `proof` was handed in at `now`.
    pub open spec fn with_proof(self, proof: Seq<u8>, now: nat) -> MilestoneView {
        MilestoneView {
            ipfs_proof: proof,
            status: MilestoneStatus::ProofSubmitted,
            proof_submitted_at: now,
            ai_verdict: VerificationStatus::Pending,
            ..self
        }
    }

    /// The milestone once the oracle gave `verdict` with `confidence` at `now`.
    pub open spec fn with_verdict(
        self,
        verdict: VerificationStatus,
        confidence: nat,
        now: nat,
    ) -> MilestoneView {
        MilestoneView {
            ai_verdict: verdict,
            ai_confidence: confidence,
            verified_at: now,
            status: status_after_verdict(verdict),
            ..self
        }
    }

    /// The milestone once `voter` cast `power` for or against it.
    pub open spec fn with_vote(self, voter: Seq<char>, power: nat, approve: bool) -> MilestoneView {
        let counted = MilestoneView {
            votes_for: if approve {
                self.votes_for + power
            } else {
                self.votes_for
            },
            votes_against: if approve {
                self.votes_against
            } else {
                self.votes_against + power
            },
            voters: self.voters.insert(
                voter,
                if approve {
                    power as int
                } else {
                    -(power as int)
                },
            ),
            ..self
        };
        MilestoneView {
            status: if counted.has_supermajority() {
                MilestoneStatus::Approved
            } else {
                self.status
            },
            ..counted
        }
    }
}

/// Where a verdict sends a milestone whose proof was handed in.
pub open spec fn status_after_verdict(verdict: VerificationStatus) -> MilestoneStatus {
    match verdict {
        VerificationStatus::Completed => MilestoneStatus::VotingOpen,
        VerificationStatus::Partial => MilestoneStatus::VotingOpen,
        VerificationStatus::Suspicious => MilestoneStatus::Disputed,
        _ => MilestoneStatus::Rejected,
    }
}

/// The milestone that a new campaign makes of its `index`-th request: the
/// first in progress, the others pending.
pub open spec fn new_milestone(index: int, spec: MilestoneSpecView) -> MilestoneView {
    MilestoneView {
        id: index as nat,
        title: spec.title,
        description: spec.description,
        amount: spec.amount,
        ipfs_proof: zero_digest(),
        ai_verdict: VerificationStatus::NotSubmitted,
        ai_confidence: 0,
        votes_for: 0,
        votes_against: 0,
        voters: Map::empty(),
        status: if index == 0 {
            MilestoneStatus::InProgress
        } else {
            MilestoneStatus::Pending
        },
        proof_submitted_at: 0,
        verified_at: 0,
        released_at: 0,
    }
}

/// Every request asks for a positive amount.
pub open spec fn all_positive(specs: Seq<MilestoneSpecView>) -> bool {
    forall|i: int| 0 <= i < specs.len() ==> (#[trigger] specs[i]).amount > 0
}

/// The campaign that is created under `id` at `now`.
pub open spec fn new_campaign(
    id: nat,
    creator: Seq<char>,
    title: Seq<char>,
    description: Seq<char>,
    ipfs_metadata: Seq<u8>,
    total_goal: int,
    specs: Seq<MilestoneSpecView>,
    token_address: Seq<char>,
    now: nat,
) -> CampaignView {
    CampaignView {
        id,
        creator,
        title,
        description,
        ipfs_metadata,
        total_goal,
        funds_raised: 0,
        funds_released: 0,
        funds_locked: 0,
        token_address,
        milestones: Seq::new(specs.len(), |i: int| new_milestone(i, specs[i])),
        backers: Map::empty(),
        backer_order: Seq::empty(),
        backer_count: 0,
        status: CampaignStatus::Active,
        created_at: now,
        funded_at: 0,
        completed_at: 0,
        current_milestone: 0,
    }
}

impl CampaignView {
    /// What the milestones released so far have paid out: all before the
    /// current one, and the current one if it is released too.
    pub open spec fn paid_out(self) -> int {
        let c = self.current_milestone as int;
        sum_amounts(self.milestones, c) + (if self.milestones[c].status
            == MilestoneStatus::Released {
            self.milestones[c].amount
        } else {
            0
        })
    }

    /// What holds of every campaign, from its creation on.
    ///
    /// The milestones ask for the goal in all. The released ones come first,
    /// then the current one, then the pending ones. What was released is what
    /// the released milestones asked for, and never more than was raised,
    /// which is never more than the goal. What is locked is what was raised
    /// and not released, unless the backers were refunded: then nothing is
    /// locked. Every backer is listed once, in the order in which the
    /// backers came; and while the campaign is active or funded, the backers
    /// are counted, and what they gave adds up to what was raised.
    pub open spec fn wf(self) -> bool {
        let n = self.milestones.len() as int;
        let c = self.current_milestone as int;
        &&& n >= 1
        &&& forall|i: int| 0 <= i < n ==> (#[trigger] self.milestones[i]).wf(i)
        &&& sum_amounts(self.milestones, n) == self.total_goal
        &&& c < n
        &&& forall|i: int|
            0 <= i < c ==> (#[trigger] self.milestones[i]).status == MilestoneStatus::Released
        &&& forall|i: int|
            c < i < n ==> (#[trigger] self.milestones[i]).status == MilestoneStatus::Pending
        &&& self.milestones[c].status != MilestoneStatus::Pending
        &&& self.funds_released == self.paid_out()
        &&& 0 <= self.funds_released <= self.funds_raised <= self.total_goal
        &&& (self.funds_locked == self.funds_raised - self.funds_released || (self.status
            == CampaignStatus::Failed && self.funds_locked == 0))
        &&& (self.status == CampaignStatus::Active ==> self.funds_raised < self.total_goal)
        &&& (self.status == CampaignStatus::Funded ==> self.funds_raised == self.total_goal)
        &&& forall|k: Seq<char>| #[trigger]
            self.backers.contains_key(k) ==> 0 < self.backers[k] <= self.funds_raised
        &&& self.backer_order.len() <= self.backer_count
        &&& self.backer_order.no_duplicates()
        &&& forall|i: int|
            0 <= i < self.backer_order.len() ==> self.backers.contains_key(
                #[trigger] self.backer_order[i],
            )
        &&& forall|k: Seq<char>| #[trigger]
            self.backers.contains_key(k) ==> self.backer_order.contains(k)
        &&& self.takes_or_holds_funds() ==> {
            &&& self.backer_count == self.backer_order.len()
            &&& sum_given(self.backers, self.backer_order, self.backer_order.len() as int)
                == self.funds_raised
        }
    }

    /// The campaign is active or funded: it was neither refunded nor closed.
    pub open spec fn takes_or_holds_funds(self) -> bool {
        self.status == CampaignStatus::Active || self.status == CampaignStatus::Funded
    }

    /// Every milestone is released.
    pub open spec fn all_released(self) -> bool {
        forall|i: int|
            0 <= i < self.milestones.len() ==> (#[trigger] self.milestones[i]).status
                == MilestoneStatus::Released
    }

    /// What `who` gave so far; nothing, if `who` is no backer.
    pub open spec fn contribution(self, who: Seq<char>) -> int {
        if self.backers.contains_key(who) {
            self.backers[who]
        } else {
            0
        }
    }

    /// Why `amount` cannot be taken from a backer, if it cannot.
    pub open spec fn fund_error(self, amount: int) -> Option<ContractError> {
        if self.status != CampaignStatus::Active {
            Some(ContractError::CampaignNotActive)
        } else if self.funds_raised + amount > self.total_goal {
            Some(ContractError::FundingGoalExceeded)
        } else {
            None
        }
    }

    /// The count of backers still fits its 32 bits once `backer` has given.
    pub open spec fn has_room_for(self, backer: Seq<char>) -> bool {
        self.backers.contains_key(backer) || self.backer_count < u32::MAX
    }

    /// The campaign once `backer` gave `amount` at `now`.
    pub open spec fn after_fund(self, backer: Seq<char>, amount: int, now: nat) -> CampaignView {
        let raised = self.funds_raised + amount;
        let full = raised >= self.total_goal;
        CampaignView {
            backers: self.backers.insert(backer, self.contribution(backer) + amount),
            backer_order: if self.backers.contains_key(backer) {
                self.backer_order
            } else {
                self.backer_order.push(backer)
            },
            backer_count: if self.contribution(backer) == 0 {
                self.backer_count + 1
            } else {
                self.backer_count
            },
            funds_raised: raised,
            funds_locked: self.funds_locked + amount,
            status: if full {
                CampaignStatus::Funded
            } else {
                self.status
            },
            funded_at: if full {
                now
            } else {
                self.funded_at
            },
            ..self
        }
    }

    /// Why the milestone `id` cannot be released, if it cannot.
    pub open spec fn release_error(self, id: nat) -> Option<ContractError> {
        if id >= self.milestones.len() {
            Some(ContractError::MilestoneNotFound)
        } else {
            let m = self.milestones[id as int];
            if m.status == MilestoneStatus::Released {
                Some(ContractError::MilestoneAlreadyReleased)
            } else if !m.verdict_passes() {
                Some(ContractError::AIVerificationPending)
            } else if m.votes_for <= m.votes_against {
                Some(ContractError::VotingNotOpen)
            } else if self.funds_locked < m.amount {
                Some(ContractError::InsufficientFunds)
            } else {
                None
            }
        }
    }

    /// The campaign once the milestone `id` was released at `now`: its
    /// amount leaves the escrow, and the next milestone, if there is one,
    /// is in progress.
    pub open spec fn after_release(self, id: nat, now: nat) -> CampaignView {
        let i = id as int;
        let m = self.milestones[i];
        let released = self.milestones.update(
            i,
            MilestoneView { status: MilestoneStatus::Released, released_at: now, ..m },
        );
        let has_next = i + 1 < self.milestones.len();
        CampaignView {
            milestones: if has_next {
                released.update(
                    i + 1,
                    MilestoneView { status: MilestoneStatus::InProgress, ..released[i + 1] },
                )
            } else {
                released
            },
            funds_released: self.funds_released + m.amount,
            funds_locked: self.funds_locked - m.amount,
            current_milestone: if has_next {
                id + 1
            } else {
                self.current_milestone
            },
            ..self
        }
    }

    /// The orders that give every backer back what they gave, in the order
    /// in which the backers came.
    pub open spec fn refund_orders(self) -> Seq<TransferView> {
        Seq::new(
            self.backer_order.len(),
            |i: int|
                TransferView {
                    token: self.token_address,
                    from: PartyView::Escrow,
                    to: PartyView::Account(self.backer_order[i]),
                    amount: self.backers[self.backer_order[i]],
                },
        )
    }

    /// The campaign once its backers were refunded: failed, with nothing
    /// locked and no backer left.
    pub open spec fn after_refund(self) -> CampaignView {
        CampaignView {
            status: CampaignStatus::Failed,
            funds_locked: 0,
            backers: Map::empty(),
            backer_order: Seq::empty(),
            ..self
        }
    }

    /// Why `creator` cannot hand in a proof for the milestone `id`, if they
    /// cannot.
    pub open spec fn proof_error(self, id: nat, creator: Seq<char>) -> Option<ContractError> {
        if creator != self.creator {
            Some(ContractError::NotCreator)
        } else if id >= self.milestones.len() {
            Some(ContractError::MilestoneNotFound)
        } else if self.milestones[id as int].status != MilestoneStatus::InProgress {
            Some(ContractError::MilestoneNotReady)
        } else if self.milestones[id as int].ipfs_proof != zero_digest() {
            Some(ContractError::ProofAlreadySubmitted)
        } else {
            None
        }
    }

    /// The campaign once `proof` was handed in for the milestone `id`.
    pub open spec fn after_proof(self, id: nat, proof: Seq<u8>, now: nat) -> CampaignView {
        CampaignView {
            milestones: self.milestones.update(
                id as int,
                self.milestones[id as int].with_proof(proof, now),
            ),
            ..self
        }
    }

    /// Why no verdict can be recorded for the milestone `id`, if none can.
    pub open spec fn verdict_error(self, id: nat) -> Option<ContractError> {
        if id >= self.milestones.len() {
            Some(ContractError::MilestoneNotFound)
        } else if self.milestones[id as int].status != MilestoneStatus::ProofSubmitted {
            Some(ContractError::MilestoneNotReady)
        } else {
            None
        }
    }

    /// The campaign once the oracle's verdict on the milestone `id` was
    /// recorded.
    pub open spec fn after_verdict(
        self,
        id: nat,
        verdict: VerificationStatus,
        confidence: nat,
        now: nat,
    ) -> CampaignView {
        CampaignView {
            milestones: self.milestones.update(
                id as int,
                self.milestones[id as int].with_verdict(verdict, confidence, now),
            ),
            ..self
        }
    }

    /// Why `voter` cannot vote on the milestone `id`, if they cannot.
    pub open spec fn vote_error(self, id: nat, voter: Seq<char>) -> Option<ContractError> {
        if id >= self.milestones.len() {
            Some(ContractError::MilestoneNotFound)
        } else if !self.milestones[id as int].voting_open() {
            Some(ContractError::VotingNotOpen)
        } else if self.milestones[id as int].voters.contains_key(voter) {
            Some(ContractError::AlreadyVoted)
        } else if self.contribution(voter) <= 0 {
            Some(ContractError::NotABacker)
        } else {
            None
        }
    }

    /// The voting power of `who`: the integer square root of what they gave.
    pub open spec fn voting_power(self, who: Seq<char>) -> nat {
        sqrt_floor(self.contribution(who)) as nat
    }

    /// The tallies and the recorded weight still fit their 64 bits once
    /// `voter` has voted on the milestone `id`.
    pub open spec fn vote_fits(self, id: nat, voter: Seq<char>, approve: bool) -> bool {
        let power = self.voting_power(voter);
        let m = self.milestones[id as int];
        &&& power <= i64::MAX
        &&& m.voters.dom().len() < u32::MAX
        &&& if approve {
            m.votes_for + power <= u64::MAX
        } else {
            m.votes_against + power <= u64::MAX
        }
    }

    /// The campaign once `voter` voted on the milestone `id`.
    pub open spec fn after_vote(self, id: nat, voter: Seq<char>, approve: bool) -> CampaignView {
        CampaignView {
            milestones: self.milestones.update(
                id as int,
                self.milestones[id as int].with_vote(voter, self.voting_power(voter), approve),
            ),
            ..self
        }
    }

    /// The campaign once it was closed at `now`.
    pub open spec fn after_close(self, now: nat) -> CampaignView {
        CampaignView { status: CampaignStatus::Completed, completed_at: now, ..self }
    }
}

} // verus!
