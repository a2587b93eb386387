//! The platform as a state machine over mathematical values.

use crate::escrow::types::PartyView;
use crate::platform::types::{
    BackerInfo, CampaignStatus, CampaignView, ChainFundError, MilestoneStatus, MilestoneView,
    PaymentView, PlatformView, SkillView, VoteView,
};
use vstd::prelude::*;

verus! {

/// The seconds of a day.
pub const SECONDS_PER_DAY: u64 = 86_400;

/// The votes that a milestone needs before it is decided.
pub const MIN_VOTES: u32 = 3;

/// The position `i` is the first at which `ms` holds the milestone with the
/// id `id`.
pub open spec fn milestone_at(ms: Seq<MilestoneView>, id: nat, i: int) -> bool {
    &&& 0 <= i < ms.len()
    &&& ms[i].id == id
    &&& forall|j: int| 0 <= j < i ==> (#[trigger] ms[j]).id != id
}

/// No milestone of `ms` has the id `id`.
pub open spec fn milestone_missing(ms: Seq<MilestoneView>, id: nat) -> bool {
    forall|j: int| 0 <= j < ms.len() ==> (#[trigger] ms[j]).id != id
}

/// `voter` voted on the milestone `milestone_id` of the campaign
/// `campaign_id`.
pub open spec fn has_voted(votes: Seq<VoteView>, campaign_id: u64, milestone_id: u32, voter: Seq<char>) -> bool {
    exists|i: int|
        0 <= i < votes.len() && (#[trigger] votes[i]).campaign_id == campaign_id
            && votes[i].milestone_id == milestone_id && votes[i].voter == voter
}

impl MilestoneView {
    /// The milestone once one more vote was counted: with the votes it
    /// needs, it is active if more are for it than against it, and rejected
    /// if not.
    pub open spec fn with_vote(self, approve: bool) -> MilestoneView {
        let votes_for = if approve {
            self.votes_for + 1
        } else {
            self.votes_for
        };
        let votes_against = if approve {
            self.votes_against
        } else {
            self.votes_against + 1
        };
        MilestoneView {
            votes_for,
            votes_against,
            status: if votes_for + votes_against >= MIN_VOTES {
                if votes_for > votes_against {
                    MilestoneStatus::Active
                } else {
                    MilestoneStatus::Rejected
                }
            } else {
                self.status
            },
            ..self
        }
    }
}

impl CampaignView {
    /// What holds of every campaign: no backer gave more than all gave.
    pub open spec fn wf(self) -> bool {
        &&& self.total_backed >= 0
        &&& forall|k: Seq<char>| #[trigger]
            self.backers.contains_key(k) ==> self.backers[k].amount <= self.total_backed
    }

    /// What `who` gave so far.
    pub open spec fn given_by(self, who: Seq<char>) -> int {
        if self.backers.contains_key(who) {
            self.backers[who].amount as int
        } else {
            0
        }
    }

    /// Why `amount` cannot be taken from a backer at `now`, if it cannot.
    pub open spec fn back_error(self, now: nat) -> Option<ChainFundError> {
        if self.status != CampaignStatus::Active {
            Some(ChainFundError::CampaignNotActive)
        } else if now > self.end_date {
            Some(ChainFundError::CampaignEnded)
        } else {
            None
        }
    }

    /// The campaign once `backer` gave `amount` at `now`.
    pub open spec fn after_back(self, backer: Seq<char>, amount: i128, now: u64) -> CampaignView {
        let total = self.total_backed + amount;
        CampaignView {
            backers: self.backers.insert(
                backer,
                BackerInfo { amount: (self.given_by(backer) + amount) as i128, timestamp: now },
            ),
            total_backed: total,
            status: if total >= self.goal_amount {
                CampaignStatus::Funded
            } else {
                self.status
            },
            ..self
        }
    }
}

impl PlatformView {
    /// What holds of the platform at all times: every campaign is well
    /// formed and stored under its own id, and every skill token under its
    /// own id.
    pub open spec fn wf(self) -> bool {
        &&& forall|id: u64| #[trigger]
            self.campaigns.contains_key(id) ==> self.campaigns[id].wf() && self.campaigns[id].id
                == id
        &&& forall|id: u64| #[trigger] self.nfts.contains_key(id) ==> self.nfts[id].token_id == id
    }

    /// The platform with `c` in place of the campaign of the same id.
    pub open spec fn with_campaign(self, c: CampaignView) -> PlatformView {
        PlatformView { campaigns: self.campaigns.insert(c.id as u64, c), ..self }
    }

    /// The answer to an initialization.
    pub open spec fn initialize_result(self) -> Result<(), ChainFundError> {
        if self.admin is Some {
            Err(ChainFundError::Unauthorized)
        } else {
            Ok(())
        }
    }

    /// The platform once `admin` initialized it: the campaigns are counted
    /// from zero.
    pub open spec fn after_initialize(self, admin: Seq<char>) -> PlatformView {
        PlatformView { admin: Some(admin), campaign_count: 0, ..self }
    }

    /// The answer to the creation of a campaign with the goal
    /// `goal_amount`: its id, or why there is none.
    pub open spec fn create_campaign_result(self, goal_amount: int) -> Result<u64, ChainFundError> {
        if goal_amount <= 0 {
            Err(ChainFundError::InvalidAmount)
        } else {
            Ok((self.campaign_count + 1) as u64)
        }
    }

    /// The platform once the campaign was created at `now`, to end after
    /// `duration_days` days. It takes the place of a campaign of the same
    /// id, which there can be where the platform was initialized late.
    pub open spec fn after_create_campaign(
        self,
        creator: Seq<char>,
        title: Seq<char>,
        description: Seq<char>,
        goal_amount: int,
        milestones: Seq<MilestoneView>,
        duration_days: nat,
        now: nat,
    ) -> PlatformView {
        let id = self.campaign_count + 1;
        PlatformView {
            campaign_count: id,
            campaigns: self.campaigns.insert(
                id as u64,
                CampaignView {
                    id,
                    creator,
                    title,
                    description,
                    goal_amount,
                    total_backed: 0,
                    status: CampaignStatus::Active,
                    milestones,
                    backers: Map::empty(),
                    created_at: now,
                    end_date: (now + duration_days * SECONDS_PER_DAY) as nat,
                },
            ),
            ..self
        }
    }

    /// The count of campaigns and the end date fit their 64 bits once a
    /// campaign with the goal `goal_amount` is created at `now` for
    /// `duration_days` days.
    pub open spec fn create_fits(self, goal_amount: int, duration_days: nat, now: nat) -> bool {
        goal_amount > 0 ==> self.campaign_count < u64::MAX && now + duration_days * SECONDS_PER_DAY
            <= u64::MAX
    }

    /// What was backed fits its 128 bits once `amount` is given to the
    /// campaign `id` at `now`.
    pub open spec fn back_fits(self, id: u64, amount: int, now: nat) -> bool {
        self.back_campaign_result(id, amount, now) is Ok ==> self.campaigns[id].total_backed
            + amount <= i128::MAX
    }

    /// The tallies fit their 32 bits once `voter` votes on the milestone
    /// `milestone_id` of the campaign `id`.
    pub open spec fn vote_fits(self, voter: Seq<char>, id: u64, milestone_id: u32) -> bool {
        self.vote_milestone_result(voter, id, milestone_id) is Ok ==> forall|i: int| #[trigger]
            milestone_at(self.campaigns[id].milestones, milestone_id as nat, i)
                ==> self.campaigns[id].milestones[i].votes_for
                + self.campaigns[id].milestones[i].votes_against < u32::MAX
    }

    /// The count of skill tokens fits its 64 bits once one more is minted.
    pub open spec fn mint_fits(self) -> bool {
        self.admin is Some ==> self.nft_count < u64::MAX
    }

    /// The answer to `amount` offered to the campaign `id` at `now`.
    pub open spec fn back_campaign_result(self, id: u64, amount: int, now: nat) -> Result<
        (),
        ChainFundError,
    > {
        if amount <= 0 {
            Err(ChainFundError::InvalidAmount)
        } else if !self.campaigns.contains_key(id) {
            Err(ChainFundError::CampaignNotFound)
        } else {
            match self.campaigns[id].back_error(now) {
                Some(e) => Err(e),
                None => Ok(()),
            }
        }
    }

    /// The platform once `backer` gave `amount` to the campaign `id` at
    /// `now`: the campaign counts it, and it is to be moved to the platform.
    pub open spec fn after_back_campaign(self, id: u64, backer: Seq<char>, amount: i128, now: u64) -> PlatformView {
        PlatformView {
            payments: self.payments.push(
                PaymentView {
                    from: PartyView::Account(backer),
                    to: PartyView::Escrow,
                    amount: amount as int,
                },
            ),
            ..self.with_campaign(self.campaigns[id].after_back(backer, amount, now))
        }
    }

    /// The answer to the completion of the milestone `milestone_id` of the
    /// campaign `id`.
    pub open spec fn complete_milestone_result(self, id: u64, milestone_id: u32) -> Result<
        (),
        ChainFundError,
    > {
        if self.admin is None {
            Err(ChainFundError::Unauthorized)
        } else if !self.campaigns.contains_key(id) {
            Err(ChainFundError::CampaignNotFound)
        } else if milestone_missing(self.campaigns[id].milestones, milestone_id as nat) {
            Err(ChainFundError::MilestoneNotFound)
        } else if exists|i: int|
            milestone_at(self.campaigns[id].milestones, milestone_id as nat, i)
                && self.campaigns[id].milestones[i].status != MilestoneStatus::Active {
            Err(ChainFundError::MilestoneNotPending)
        } else {
            Ok(())
        }
    }

    /// The platform once the milestone at `i` of the campaign `id` was
    /// completed: its amount is to be paid to the creator.
    pub open spec fn after_complete_milestone(self, id: u64, i: int) -> PlatformView {
        let c = self.campaigns[id];
        PlatformView {
            payments: self.payments.push(
                PaymentView {
                    from: PartyView::Escrow,
                    to: PartyView::Account(c.creator),
                    amount: c.milestones[i].amount,
                },
            ),
            ..self.with_campaign(
                CampaignView {
                    milestones: c.milestones.update(
                        i,
                        MilestoneView { status: MilestoneStatus::Completed, ..c.milestones[i] },
                    ),
                    ..c
                },
            )
        }
    }

    /// The answer to a vote of `voter` on the milestone `milestone_id` of
    /// the campaign `id`.
    pub open spec fn vote_milestone_result(self, voter: Seq<char>, id: u64, milestone_id: u32) -> Result<
        (),
        ChainFundError,
    > {
        if !self.campaigns.contains_key(id) {
            Err(ChainFundError::CampaignNotFound)
        } else if !self.campaigns[id].backers.contains_key(voter) {
            Err(ChainFundError::Unauthorized)
        } else if milestone_missing(self.campaigns[id].milestones, milestone_id as nat) {
            Err(ChainFundError::MilestoneNotFound)
        } else if exists|i: int|
            milestone_at(self.campaigns[id].milestones, milestone_id as nat, i)
                && self.campaigns[id].milestones[i].status != MilestoneStatus::Pending {
            Err(ChainFundError::MilestoneNotPending)
        } else if has_voted(self.votes, id, milestone_id, voter) {
            Err(ChainFundError::AlreadyVoted)
        } else {
            Ok(())
        }
    }

    /// The platform once `voter` voted at `now` on the milestone at `i` of
    /// the campaign `id`.
    pub open spec fn after_vote_milestone(
        self,
        voter: Seq<char>,
        id: u64,
        i: int,
        approve: bool,
        now: nat,
    ) -> PlatformView {
        let c = self.campaigns[id];
        PlatformView {
            votes: self.votes.push(
                VoteView {
                    campaign_id: id,
                    milestone_id: c.milestones[i].id as u32,
                    voter,
                    approve,
                    timestamp: now,
                },
            ),
            ..self.with_campaign(
                CampaignView {
                    milestones: c.milestones.update(i, c.milestones[i].with_vote(approve)),
                    ..c
                },
            )
        }
    }

    /// The answer to the minting of a skill token: its id, or why there is
    /// none.
    pub open spec fn mint_skill_nft_result(self) -> Result<u64, ChainFundError> {
        if self.admin is None {
            Err(ChainFundError::Unauthorized)
        } else {
            Ok((self.nft_count + 1) as u64)
        }
    }

    /// The platform once the skill token was minted at `now`.
    pub open spec fn after_mint_skill_nft(
        self,
        recipient: Seq<char>,
        skill_score: nat,
        skill_level: Seq<char>,
        now: nat,
    ) -> PlatformView {
        let id = self.nft_count + 1;
        PlatformView {
            nft_count: id,
            nfts: self.nfts.insert(
                id as u64,
                SkillView { token_id: id, owner: recipient, skill_score, skill_level, minted_at: now },
            ),
            ..self
        }
    }
}

} // verus!
