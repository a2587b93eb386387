//! The operations of the platform.
//!
//! Whoever runs them checks the caller's authorization first, hands in the
//! time, and carries out the payment orders that an operation left.

use crate::address::{lemma_map_of_dom, Address, AddressMap};
use crate::escrow::types::Party;
use crate::platform::model::{
    has_voted, milestone_at, milestone_missing, MIN_VOTES, SECONDS_PER_DAY,
};
use crate::platform::types::{
    BackerInfo, Campaign, CampaignContractImpl, CampaignStatus, CampaignView, ChainFundContract,
    ChainFundError, Milestone, MilestoneStatus, NFTContractImpl, Payment, PaymentView, SkillNFT,
    SkillView, Vote, VoteRecord, VoteView, VotingContractImpl,
};
use std::collections::HashMap;
use vstd::prelude::*;

verus! {

impl Campaign {
    /// The campaign is well formed as mathematics, and no principal occurs
    /// twice among its backers.
    pub open spec fn wf(&self) -> bool {
        self@.wf() && self.backers.wf()
    }

    /// Whether the campaign is well formed.
    #[verifier::loop_isolation(false)]
    pub fn is_valid(&self) -> (r: bool)
        ensures
            r == self.wf(),
    {
        if self.total_backed < 0 || !self.backers.is_valid() {
            return false;
        }
        proof {
            lemma_map_of_dom(self.backers.entries@);
        }
        let count = self.backers.entries.len();
        let mut b: usize = 0;
        while b < count
            invariant
                b <= count,
                forall|j: int|
                    0 <= j < b ==> (#[trigger] self.backers.entries@[j]).value.amount
                        <= self.total_backed,
            decreases count - b,
        {
            if self.backers.entries[b].value.amount > self.total_backed {
                proof {
                    crate::address::lemma_map_of_value(self.backers.entries@, b as int);
                    assert(self@.backers.contains_key(self.backers.entries@[b as int].who@));
                }
                return false;
            }
            b += 1;
        }
        proof {
            assert forall|key: Seq<char>| #[trigger] self@.backers.contains_key(key) implies self@.backers[key].amount
                <= self@.total_backed by {
                let j = choose|j: int|
                    0 <= j < self.backers.entries@.len() && (#[trigger] self.backers.entries@[j]).who@
                        == key;
                crate::address::lemma_map_of_value(self.backers.entries@, j);
            }
        }
        true
    }

    /// The first position of the milestone with the id `id`, if there is
    /// one.
    pub fn find_milestone(&self, id: u32) -> (r: Option<usize>)
        ensures
            match r {
                Some(i) => milestone_at(self@.milestones, id as nat, i as int),
                None => milestone_missing(self@.milestones, id as nat),
            },
    {
        let n = self.milestones.len();
        let mut i: usize = 0;
        while i < n
            invariant
                i <= n,
                n == self.milestones@.len(),
                forall|j: int| 0 <= j < i ==> (#[trigger] self@.milestones[j]).id != id,
            decreases n - i,
        {
            assert(self@.milestones[i as int] == self.milestones@[i as int]@);
            if self.milestones[i].id == id {
                return Some(i);
            }
            i += 1;
        }
        None
    }
}

/// If the milestone with the id `id` is first found at `i`, it is first
/// found nowhere else.
pub proof fn lemma_milestone_at_unique(ms: Seq<crate::platform::types::MilestoneView>, id: nat, i: int, j: int)
    requires
        milestone_at(ms, id, i),
        milestone_at(ms, id, j),
    ensures
        i == j,
{
    if i < j {
        assert(ms[i].id != id);
    } else if j < i {
        assert(ms[j].id != id);
    }
}

impl ChainFundContract {
    /// The platform is well formed as mathematics, and so is each campaign
    /// as a record.
    pub open spec fn wf(&self) -> bool {
        &&& self@.wf()
        &&& forall|id: u64| #[trigger] self.campaigns@.contains_key(id) ==> self.campaigns@[id].wf()
    }

    /// A platform that is not initialized yet.
    pub fn new() -> (r: Self)
        ensures
            r.wf(),
            r@.admin is None,
            r@.campaign_count == 0,
            r@.nft_count == 0,
            r@.campaigns == Map::<u64, CampaignView>::empty(),
            r@.nfts == Map::<u64, SkillView>::empty(),
            r@.votes == Seq::<VoteView>::empty(),
            r@.payments == Seq::<PaymentView>::empty(),
    {
        let r = ChainFundContract {
            admin: None,
            campaign_count: 0,
            campaigns: HashMap::new(),
            votes: Vec::new(),
            nft_count: 0,
            nfts: HashMap::new(),
            payments: Vec::new(),
        };
        assert(r@.campaigns =~= Map::empty());
        assert(r@.nfts =~= Map::empty());
        assert(r@.votes =~= Seq::empty());
        assert(r@.payments =~= Seq::empty());
        r
    }

    /// What was kept of a platform can be a platform again: the campaigns
    /// are well formed and have ids of their own, and so have the skill
    /// tokens.
    pub open spec fn restorable(campaigns: Seq<Campaign>, nfts: Seq<SkillNFT>) -> bool {
        &&& forall|i: int| 0 <= i < campaigns.len() ==> (#[trigger] campaigns[i]).wf()
        &&& forall|i: int, j: int|
            0 <= i < campaigns.len() && 0 <= j < campaigns.len() && i != j ==> (
            #[trigger] campaigns[i]).id != (#[trigger] campaigns[j]).id
        &&& forall|i: int, j: int|
            0 <= i < nfts.len() && 0 <= j < nfts.len() && i != j ==> (#[trigger] nfts[i]).token_id
                != (#[trigger] nfts[j]).token_id
    }

    /// The platform that was kept as this administrator, these counts,
    /// these campaigns, votes and skill tokens, with no payment order left;
    /// nothing, where they cannot be a platform.
    #[verifier::loop_isolation(false)]
    pub fn restore(
        admin: Option<Address>,
        campaign_count: u64,
        campaigns: Vec<Campaign>,
        votes: Vec<VoteRecord>,
        nft_count: u64,
        nfts: Vec<SkillNFT>,
    ) -> (r: Option<Self>)
        ensures
            r is Some <==> Self::restorable(campaigns@, nfts@),
            r is Some ==> {
                &&& r->0.wf()
                &&& r->0.admin == admin
                &&& r->0.campaign_count == campaign_count
                &&& r->0.votes == votes
                &&& r->0.nft_count == nft_count
                &&& r->0.payments@.len() == 0
                &&& forall|i: int|
                    0 <= i < campaigns@.len() ==> r->0.campaigns@.contains_key(
                        (#[trigger] campaigns@[i]).id,
                    ) && r->0.campaigns@[campaigns@[i].id] == campaigns@[i]
                &&& forall|id: u64| #[trigger]
                    r->0.campaigns@.contains_key(id) ==> exists|i: int|
                        0 <= i < campaigns@.len() && (#[trigger] campaigns@[i]).id == id
                &&& forall|i: int|
                    0 <= i < nfts@.len() ==> r->0.nfts@.contains_key(
                        (#[trigger] nfts@[i]).token_id,
                    ) && r->0.nfts@[nfts@[i].token_id] == nfts@[i]
                &&& forall|id: u64| #[trigger]
                    r->0.nfts@.contains_key(id) ==> exists|i: int|
                        0 <= i < nfts@.len() && (#[trigger] nfts@[i]).token_id == id
            },
    {
        let ghost all = campaigns@;
        let ghost tokens = nfts@;
        let mut rest = campaigns;
        let mut kept: HashMap<u64, Campaign> = HashMap::new();
        while rest.len() > 0
            invariant
                rest@.len() <= all.len(),
                rest@ == all.subrange(0, rest@.len() as int),
                forall|i: int|
                    rest@.len() <= i < all.len() ==> (#[trigger] all[i]).wf() && kept@.contains_key(
                        all[i].id,
                    ) && kept@[all[i].id] == all[i],
                forall|i: int, j: int|
                    rest@.len() <= i < all.len() && rest@.len() <= j < all.len() && i != j ==> (
                    #[trigger] all[i]).id != (#[trigger] all[j]).id,
                forall|id: u64| #[trigger]
                    kept@.contains_key(id) ==> exists|i: int|
                        rest@.len() <= i < all.len() && (#[trigger] all[i]).id == id,
            decreases rest@.len(),
        {
            let ghost at = rest@.len() - 1;
            let c = match rest.pop() {
                Some(c) => c,
                None => {
                    return None;
                },
            };
            assert(c == all[at]);
            if !c.is_valid() {
                return None;
            }
            if kept.contains_key(&c.id) {
                proof {
                    let j = choose|j: int| at < j < all.len() && (#[trigger] all[j]).id == c.id;
                    assert(all[at].id == all[j].id);
                }
                return None;
            }
            let ghost before = kept@;
            kept.insert(c.id, c);
            proof {
                assert forall|id: u64| #[trigger] kept@.contains_key(id) implies exists|i: int|
                    rest@.len() <= i < all.len() && (#[trigger] all[i]).id == id by {
                    if id == all[at].id {
                        assert(all[at].id == id);
                    } else {
                        assert(before.contains_key(id));
                        let i = choose|i: int| at < i < all.len() && (#[trigger] all[i]).id == id;
                        assert(all[i].id == id);
                    }
                }
            }
        }
        let mut left = nfts;
        let mut minted: HashMap<u64, SkillNFT> = HashMap::new();
        while left.len() > 0
            invariant
                left@.len() <= tokens.len(),
                left@ == tokens.subrange(0, left@.len() as int),
                forall|i: int|
                    left@.len() <= i < tokens.len() ==> minted@.contains_key(
                        (#[trigger] tokens[i]).token_id,
                    ) && minted@[tokens[i].token_id] == tokens[i],
                forall|i: int, j: int|
                    left@.len() <= i < tokens.len() && left@.len() <= j < tokens.len() && i != j
                        ==> (#[trigger] tokens[i]).token_id != (#[trigger] tokens[j]).token_id,
                forall|id: u64| #[trigger]
                    minted@.contains_key(id) ==> exists|i: int|
                        left@.len() <= i < tokens.len() && (#[trigger] tokens[i]).token_id == id,
            decreases left@.len(),
        {
            let ghost at = left@.len() - 1;
            let t = match left.pop() {
                Some(t) => t,
                None => {
                    return None;
                },
            };
            assert(t == tokens[at]);
            if minted.contains_key(&t.token_id) {
                proof {
                    let j = choose|j: int|
                        at < j < tokens.len() && (#[trigger] tokens[j]).token_id == t.token_id;
                    assert(tokens[at].token_id == tokens[j].token_id);
                }
                return None;
            }
            let ghost before = minted@;
            minted.insert(t.token_id, t);
            proof {
                assert forall|id: u64| #[trigger] minted@.contains_key(id) implies exists|i: int|
                    left@.len() <= i < tokens.len() && (#[trigger] tokens[i]).token_id == id by {
                    if id == tokens[at].token_id {
                        assert(tokens[at].token_id == id);
                    } else {
                        assert(before.contains_key(id));
                        let i = choose|i: int|
                            at < i < tokens.len() && (#[trigger] tokens[i]).token_id == id;
                        assert(tokens[i].token_id == id);
                    }
                }
            }
        }
        let r = ChainFundContract {
            admin,
            campaign_count,
            campaigns: kept,
            votes,
            nft_count,
            nfts: minted,
            payments: Vec::new(),
        };
        proof {
            assert forall|id: u64| #[trigger] r.campaigns@.contains_key(id) implies r.campaigns@[id].wf()
                && r@.campaigns[id].wf() && r@.campaigns[id].id == id by {
                let i = choose|i: int| 0 <= i < all.len() && (#[trigger] all[i]).id == id;
                assert(all[i].wf());
            }
            assert forall|id: u64| #[trigger] r@.nfts.contains_key(id) implies r@.nfts[id].token_id
                == id by {
                let i = choose|i: int| 0 <= i < tokens.len() && (#[trigger] tokens[i]).token_id == id;
                assert(minted@[tokens[i].token_id] == tokens[i]);
            }
        }
        Some(r)
    }

    /// Whether `voter` voted on the milestone `milestone_id` of the campaign
    /// `campaign_id`.
    pub fn has_voted(&self, campaign_id: u64, milestone_id: u32, voter: &Address) -> (r: bool)
        ensures
            r == has_voted(self@.votes, campaign_id, milestone_id, voter@),
    {
        let n = self.votes.len();
        let mut i: usize = 0;
        while i < n
            invariant
                i <= n,
                n == self.votes@.len(),
                forall|j: int|
                    0 <= j < i ==> !((#[trigger] self@.votes[j]).campaign_id == campaign_id
                        && self@.votes[j].milestone_id == milestone_id && self@.votes[j].voter
                        == voter@),
            decreases n - i,
        {
            assert(self@.votes[i as int] == self.votes@[i as int]@);
            if self.votes[i].campaign_id == campaign_id && self.votes[i].vote.milestone_id
                == milestone_id && self.votes[i].vote.voter.same(voter) {
                return true;
            }
            i += 1;
        }
        false
    }

    /// Whether the count of campaigns and the end date fit their 64 bits
    /// once `create_campaign` is called with these arguments: whether it can
    /// be called.
    pub fn create_campaign_fits(&self, goal_amount: i128, duration_days: u32, now: u64) -> (r: bool)
        ensures
            r == self@.create_fits(goal_amount as int, duration_days as nat, now as nat),
    {
        if goal_amount <= 0 {
            return true;
        }
        let span: u64 = (duration_days as u64) * SECONDS_PER_DAY;
        self.campaign_count < u64::MAX && span <= u64::MAX - now
    }

    /// Whether what was backed fits its 128 bits once `back_campaign` is
    /// called with these arguments: whether it can be called.
    pub fn back_campaign_fits(&self, campaign_id: u64, amount: i128, now: u64) -> (r: bool)
        requires
            self.wf(),
        ensures
            r == self@.back_fits(campaign_id, amount as int, now as nat),
    {
        if amount <= 0 {
            return true;
        }
        match self.campaigns.get(&campaign_id) {
            None => true,
            Some(c) => c.status != CampaignStatus::Active || now > c.end_date || amount
                <= i128::MAX - c.total_backed,
        }
    }

    /// Whether the tallies fit their 32 bits once `vote_milestone` is called
    /// with these arguments: whether it can be called.
    pub fn vote_milestone_fits(&self, voter: &Address, campaign_id: u64, milestone_id: u32) -> (r:
        bool)
        requires
            self.wf(),
        ensures
            r == self@.vote_fits(voter@, campaign_id, milestone_id),
    {
        match self.campaigns.get(&campaign_id) {
            None => true,
            Some(c) => {
                proof {
                    lemma_map_of_dom(c.backers.entries@);
                }
                if !c.backers.contains_key(voter) {
                    return true;
                }
                match c.find_milestone(milestone_id) {
                    None => true,
                    Some(i) => {
                        assert(c@.milestones[i as int] == c.milestones@[i as int]@);
                        proof {
                            assert(!milestone_missing(c@.milestones, milestone_id as nat)) by {
                                assert(c@.milestones[i as int].id == milestone_id);
                            }
                            assert forall|j: int|
                                milestone_at(c@.milestones, milestone_id as nat, j) implies j
                                == i by {
                                lemma_milestone_at_unique(
                                    c@.milestones,
                                    milestone_id as nat,
                                    i as int,
                                    j,
                                );
                            }
                        }
                        if c.milestones[i].status != MilestoneStatus::Pending {
                            return true;
                        }
                        if self.has_voted(campaign_id, milestone_id, voter) {
                            return true;
                        }
                        c.milestones[i].votes_for < u32::MAX - c.milestones[i].votes_against
                    },
                }
            },
        }
    }

    /// Whether the count of skill tokens fits its 64 bits once
    /// `mint_skill_nft` is called: whether it can be called.
    pub fn mint_skill_nft_fits(&self) -> (r: bool)
        ensures
            r == self@.mint_fits(),
    {
        self.admin.is_none() || self.nft_count < u64::MAX
    }

    /// Initializes the platform for `admin`. Refused once it is initialized.
    pub fn initialize(&mut self, admin: Address) -> (r: Result<(), ChainFundError>)
        requires
            old(self).wf(),
        ensures
            final(self).wf(),
            r == old(self)@.initialize_result(),
            r is Ok ==> final(self)@ == old(self)@.after_initialize(admin@),
            r is Err ==> *final(self) == *old(self),
    {
        CampaignContractImpl::initialize(self, admin)
    }

    /// Creates a campaign of `creator` with the goal `goal_amount` and the
    /// milestones `milestones`, to end `duration_days` days after `now`.
    /// Returns the id of the new campaign.
    pub fn create_campaign(
        &mut self,
        creator: Address,
        title: String,
        description: String,
        goal_amount: i128,
        milestones: Vec<Milestone>,
        duration_days: u32,
        now: u64,
    ) -> (r: Result<u64, ChainFundError>)
        requires
            old(self).wf(),
            old(self)@.create_fits(goal_amount as int, duration_days as nat, now as nat),
        ensures
            final(self).wf(),
            r == old(self)@.create_campaign_result(goal_amount as int),
            r is Ok ==> final(self)@ == old(self)@.after_create_campaign(
                creator@,
                title@,
                description@,
                goal_amount as int,
                milestones@.map_values(|m: Milestone| m@),
                duration_days as nat,
                now as nat,
            ),
            r is Err ==> *final(self) == *old(self),
    {
        CampaignContractImpl::create_campaign(
            self,
            creator,
            title,
            description,
            goal_amount,
            milestones,
            duration_days,
            now,
        )
    }

    /// Takes `amount` from `backer` for the campaign `campaign_id` at `now`.
    pub fn back_campaign(&mut self, backer: Address, campaign_id: u64, amount: i128, now: u64) -> (r:
        Result<(), ChainFundError>)
        requires
            old(self).wf(),
            old(self)@.back_fits(campaign_id, amount as int, now as nat),
        ensures
            final(self).wf(),
            r == old(self)@.back_campaign_result(campaign_id, amount as int, now as nat),
            r is Ok ==> final(self)@ == old(self)@.after_back_campaign(
                campaign_id,
                backer@,
                amount,
                now,
            ),
            r is Err ==> final(self)@ == old(self)@,
    {
        CampaignContractImpl::back_campaign(self, backer, campaign_id, amount, now)
    }

    /// Completes the active milestone `milestone_id` of the campaign
    /// `campaign_id`: its amount is to be paid to the creator.
    pub fn complete_milestone(&mut self, campaign_id: u64, milestone_id: u32) -> (r: Result<
        (),
        ChainFundError,
    >)
        requires
            old(self).wf(),
        ensures
            final(self).wf(),
            r == old(self)@.complete_milestone_result(campaign_id, milestone_id),
            r is Ok ==> exists|i: int|
                #[trigger] milestone_at(
                    old(self)@.campaigns[campaign_id].milestones,
                    milestone_id as nat,
                    i,
                ) && final(self)@ == old(self)@.after_complete_milestone(campaign_id, i),
            r is Err ==> final(self)@ == old(self)@,
    {
        CampaignContractImpl::complete_milestone(self, campaign_id, milestone_id)
    }

    /// The campaign `campaign_id`.
    pub fn get_campaign(&self, campaign_id: u64) -> (r: Result<&Campaign, ChainFundError>)
        ensures
            match r {
                Ok(c) => self@.campaigns.contains_key(campaign_id) && c@
                    == self@.campaigns[campaign_id],
                Err(e) => !self@.campaigns.contains_key(campaign_id) && e
                    == ChainFundError::CampaignNotFound,
            },
    {
        CampaignContractImpl::get_campaign(self, campaign_id)
    }

    /// The number of campaigns created.
    pub fn get_campaign_count(&self) -> (r: u64)
        ensures
            r == self@.campaign_count,
    {
        CampaignContractImpl::get_campaign_count(self)
    }

    /// Counts the vote of the backer `voter` at `now` on the pending
    /// milestone `milestone_id` of the campaign `campaign_id`.
    pub fn vote_milestone(
        &mut self,
        voter: Address,
        campaign_id: u64,
        milestone_id: u32,
        approve: bool,
        now: u64,
    ) -> (r: Result<(), ChainFundError>)
        requires
            old(self).wf(),
            old(self)@.vote_fits(voter@, campaign_id, milestone_id),
        ensures
            final(self).wf(),
            r == old(self)@.vote_milestone_result(voter@, campaign_id, milestone_id),
            r is Ok ==> exists|i: int|
                #[trigger] milestone_at(
                    old(self)@.campaigns[campaign_id].milestones,
                    milestone_id as nat,
                    i,
                ) && final(self)@ == old(self)@.after_vote_milestone(
                    voter@,
                    campaign_id,
                    i,
                    approve,
                    now as nat,
                ),
            r is Err ==> final(self)@ == old(self)@,
    {
        VotingContractImpl::vote_milestone(self, voter, campaign_id, milestone_id, approve, now)
    }

    /// Mints a skill token to `recipient` at `now`. Returns its id.
    pub fn mint_skill_nft(
        &mut self,
        recipient: Address,
        skill_score: u32,
        skill_level: String,
        now: u64,
    ) -> (r: Result<u64, ChainFundError>)
        requires
            old(self).wf(),
            old(self)@.mint_fits(),
        ensures
            final(self).wf(),
            r == old(self)@.mint_skill_nft_result(),
            r is Ok ==> final(self)@ == old(self)@.after_mint_skill_nft(
                recipient@,
                skill_score as nat,
                skill_level@,
                now as nat,
            ),
            r is Err ==> *final(self) == *old(self),
    {
        NFTContractImpl::mint_skill_nft(self, recipient, skill_score, skill_level, now)
    }

    /// The skill token `token_id`.
    pub fn get_skill_nft(&self, token_id: u64) -> (r: Result<&SkillNFT, ChainFundError>)
        ensures
            match r {
                Ok(t) => self@.nfts.contains_key(token_id) && t@ == self@.nfts[token_id],
                Err(e) => !self@.nfts.contains_key(token_id) && e
                    == ChainFundError::CampaignNotFound,
            },
    {
        NFTContractImpl::get_skill_nft(self, token_id)
    }

    /// The number of skill tokens minted.
    pub fn get_nft_count(&self) -> (r: u64)
        ensures
            r == self@.nft_count,
    {
        NFTContractImpl::get_nft_count(self)
    }
}

impl CampaignContractImpl {
    /// Initializes the platform `state` for `admin`. Refused once it is
    /// initialized.
    pub fn initialize(state: &mut ChainFundContract, admin: Address) -> (r: Result<
        (),
        ChainFundError,
    >)
        requires
            old(state).wf(),
        ensures
            final(state).wf(),
            r == old(state)@.initialize_result(),
            r is Ok ==> final(state)@ == old(state)@.after_initialize(admin@),
            r is Err ==> *final(state) == *old(state),
    {
        if state.admin.is_some() {
            return Err(ChainFundError::Unauthorized);
        }
        state.admin = Some(admin);
        state.campaign_count = 0;
        Ok(())
    }

    /// Creates a campaign on the platform `state`.
    pub fn create_campaign(
        state: &mut ChainFundContract,
        creator: Address,
        title: String,
        description: String,
        goal_amount: i128,
        milestones: Vec<Milestone>,
        duration_days: u32,
        now: u64,
    ) -> (r: Result<u64, ChainFundError>)
        requires
            old(state).wf(),
            old(state)@.create_fits(goal_amount as int, duration_days as nat, now as nat),
        ensures
            final(state).wf(),
            r == old(state)@.create_campaign_result(goal_amount as int),
            r is Ok ==> final(state)@ == old(state)@.after_create_campaign(
                creator@,
                title@,
                description@,
                goal_amount as int,
                milestones@.map_values(|m: Milestone| m@),
                duration_days as nat,
                now as nat,
            ),
            r is Err ==> *final(state) == *old(state),
    {
        if goal_amount <= 0 {
            return Err(ChainFundError::InvalidAmount);
        }
        let ghost before = state@;
        let id = state.campaign_count + 1;
        assert(now + duration_days * SECONDS_PER_DAY <= u64::MAX);
        assert(duration_days * SECONDS_PER_DAY <= u64::MAX) by (nonlinear_arith)
            requires
                now + duration_days * SECONDS_PER_DAY <= u64::MAX,
                now >= 0,
        ;
        let end_date = now + (duration_days as u64) * SECONDS_PER_DAY;
        let campaign = Campaign {
            id,
            creator,
            title,
            description,
            goal_amount,
            total_backed: 0,
            status: CampaignStatus::Active,
            milestones,
            backers: AddressMap::new(),
            created_at: now,
            end_date,
        };
        state.campaigns.insert(id, campaign);
        state.campaign_count = id;
        proof {
            let after = before.after_create_campaign(
                creator@,
                title@,
                description@,
                goal_amount as int,
                milestones@.map_values(|m: Milestone| m@),
                duration_days as nat,
                now as nat,
            );
            assert(state@.campaigns =~= after.campaigns);
            assert(state@ == after);
        }
        Ok(id)
    }

    /// Takes `amount` from `backer` for a campaign of the platform `state`.
    pub fn back_campaign(
        state: &mut ChainFundContract,
        backer: Address,
        campaign_id: u64,
        amount: i128,
        now: u64,
    ) -> (r: Result<(), ChainFundError>)
        requires
            old(state).wf(),
            old(state)@.back_fits(campaign_id, amount as int, now as nat),
        ensures
            final(state).wf(),
            r == old(state)@.back_campaign_result(campaign_id, amount as int, now as nat),
            r is Ok ==> final(state)@ == old(state)@.after_back_campaign(
                campaign_id,
                backer@,
                amount,
                now,
            ),
            r is Err ==> final(state)@ == old(state)@,
    {
        if amount <= 0 {
            return Err(ChainFundError::InvalidAmount);
        }
        let ghost before = state@;
        match state.campaigns.get(&campaign_id) {
            None => {
                return Err(ChainFundError::CampaignNotFound);
            },
            Some(c) => {
                if c.status != CampaignStatus::Active {
                    return Err(ChainFundError::CampaignNotActive);
                }
                if now > c.end_date {
                    return Err(ChainFundError::CampaignEnded);
                }
            },
        }
        let mut campaign = match state.campaigns.remove(&campaign_id) {
            Some(c) => c,
            None => {
                assert(state@.campaigns =~= before.campaigns);
                return Err(ChainFundError::CampaignNotFound);
            },
        };
        let ghost was = campaign@;
        proof {
            lemma_map_of_dom(campaign.backers.entries@);
        }
        let given = match campaign.backers.get(&backer) {
            Some(info) => info.amount,
            None => 0,
        };
        assert(given == was.given_by(backer@));
        campaign.backers.set(backer.clone(), BackerInfo { amount: given + amount, timestamp: now });
        campaign.total_backed = campaign.total_backed + amount;
        if campaign.total_backed >= campaign.goal_amount {
            campaign.status = CampaignStatus::Funded;
        }
        proof {
            let next = was.after_back(backer@, amount, now);
            assert(campaign@.backers =~= next.backers);
            assert(campaign@.milestones =~= next.milestones);
            assert(campaign@ == next);
            assert forall|k: Seq<char>| #[trigger] next.backers.contains_key(k) implies next.backers[k].amount
                <= next.total_backed by {
                if k != backer@ {
                    assert(was.backers.contains_key(k));
                }
            }
        }
        state.campaigns.insert(campaign_id, campaign);
        state.payments.push(Payment { from: Party::Account(backer), to: Party::Escrow, amount });
        proof {
            let after = before.after_back_campaign(campaign_id, backer@, amount, now);
            assert(state@.campaigns =~= after.campaigns);
            assert(state@.payments =~= after.payments);
            assert(state@ == after);
        }
        Ok(())
    }

    /// Completes an active milestone of a campaign of the platform `state`:
    /// its amount is to be paid to the creator.
    pub fn complete_milestone(state: &mut ChainFundContract, campaign_id: u64, milestone_id: u32) -> (r:
        Result<(), ChainFundError>)
        requires
            old(state).wf(),
        ensures
            final(state).wf(),
            r == old(state)@.complete_milestone_result(campaign_id, milestone_id),
            r is Ok ==> exists|i: int|
                #[trigger] milestone_at(
                    old(state)@.campaigns[campaign_id].milestones,
                    milestone_id as nat,
                    i,
                ) && final(state)@ == old(state)@.after_complete_milestone(campaign_id, i),
            r is Err ==> final(state)@ == old(state)@,
    {
        if state.admin.is_none() {
            return Err(ChainFundError::Unauthorized);
        }
        let ghost before = state@;
        let index = match state.campaigns.get(&campaign_id) {
            None => {
                return Err(ChainFundError::CampaignNotFound);
            },
            Some(c) => match c.find_milestone(milestone_id) {
                None => {
                    return Err(ChainFundError::MilestoneNotFound);
                },
                Some(i) => {
                    assert(c@.milestones[i as int] == c.milestones@[i as int]@);
                    proof {
                        assert(!milestone_missing(c@.milestones, milestone_id as nat)) by {
                            assert(c@.milestones[i as int].id == milestone_id);
                        }
                        assert forall|j: int|
                            milestone_at(c@.milestones, milestone_id as nat, j) implies j == i by {
                            lemma_milestone_at_unique(c@.milestones, milestone_id as nat, i as int, j);
                        }
                    }
                    if c.milestones[i].status != MilestoneStatus::Active {
                        return Err(ChainFundError::MilestoneNotPending);
                    }
                    i
                },
            },
        };
        let mut campaign = match state.campaigns.remove(&campaign_id) {
            Some(c) => c,
            None => {
                assert(state@.campaigns =~= before.campaigns);
                return Err(ChainFundError::CampaignNotFound);
            },
        };
        let ghost was = campaign@;
        assert(was.milestones[index as int] == campaign.milestones@[index as int]@);
        let amount = campaign.milestones[index].amount;
        let creator = campaign.creator.clone();
        campaign.milestones[index].status = MilestoneStatus::Completed;
        proof {
            assert(campaign@.milestones =~= was.milestones.update(
                index as int,
                crate::platform::types::MilestoneView {
                    status: MilestoneStatus::Completed,
                    ..was.milestones[index as int]
                },
            ));
            assert(campaign@.backers =~= was.backers);
        }
        state.campaigns.insert(campaign_id, campaign);
        state.payments.push(Payment { from: Party::Escrow, to: Party::Account(creator), amount });
        proof {
            let after = before.after_complete_milestone(campaign_id, index as int);
            assert(state@.campaigns =~= after.campaigns);
            assert(state@.payments =~= after.payments);
            assert(state@ == after);
            assert(milestone_at(
                before.campaigns[campaign_id].milestones,
                milestone_id as nat,
                index as int,
            ));
        }
        Ok(())
    }

    /// A campaign of the platform `state`.
    pub fn get_campaign(state: &ChainFundContract, campaign_id: u64) -> (r: Result<
        &Campaign,
        ChainFundError,
    >)
        ensures
            match r {
                Ok(c) => state@.campaigns.contains_key(campaign_id) && c@
                    == state@.campaigns[campaign_id],
                Err(e) => !state@.campaigns.contains_key(campaign_id) && e
                    == ChainFundError::CampaignNotFound,
            },
    {
        match state.campaigns.get(&campaign_id) {
            Some(c) => Ok(c),
            None => Err(ChainFundError::CampaignNotFound),
        }
    }

    /// The number of campaigns created on the platform `state`.
    pub fn get_campaign_count(state: &ChainFundContract) -> (r: u64)
        ensures
            r == state@.campaign_count,
    {
        state.campaign_count
    }
}

impl VotingContractImpl {
    /// Counts the vote of the backer `voter` at `now` on a pending milestone
    /// of a campaign of the platform `state`. With three votes the milestone
    /// is decided: active if more are for it than against it, and rejected
    /// if not.
    pub fn vote_milestone(
        state: &mut ChainFundContract,
        voter: Address,
        campaign_id: u64,
        milestone_id: u32,
        approve: bool,
        now: u64,
    ) -> (r: Result<(), ChainFundError>)
        requires
            old(state).wf(),
            old(state)@.vote_fits(voter@, campaign_id, milestone_id),
        ensures
            final(state).wf(),
            r == old(state)@.vote_milestone_result(voter@, campaign_id, milestone_id),
            r is Ok ==> exists|i: int|
                #[trigger] milestone_at(
                    old(state)@.campaigns[campaign_id].milestones,
                    milestone_id as nat,
                    i,
                ) && final(state)@ == old(state)@.after_vote_milestone(
                    voter@,
                    campaign_id,
                    i,
                    approve,
                    now as nat,
                ),
            r is Err ==> final(state)@ == old(state)@,
    {
        let ghost before = state@;
        let index = match state.campaigns.get(&campaign_id) {
            None => {
                return Err(ChainFundError::CampaignNotFound);
            },
            Some(c) => {
                proof {
                    lemma_map_of_dom(c.backers.entries@);
                }
                if !c.backers.contains_key(&voter) {
                    return Err(ChainFundError::Unauthorized);
                }
                match c.find_milestone(milestone_id) {
                    None => {
                        return Err(ChainFundError::MilestoneNotFound);
                    },
                    Some(i) => {
                        assert(c@.milestones[i as int] == c.milestones@[i as int]@);
                        proof {
                            assert(!milestone_missing(c@.milestones, milestone_id as nat)) by {
                                assert(c@.milestones[i as int].id == milestone_id);
                            }
                            assert forall|j: int|
                                milestone_at(c@.milestones, milestone_id as nat, j) implies j
                                == i by {
                                lemma_milestone_at_unique(
                                    c@.milestones,
                                    milestone_id as nat,
                                    i as int,
                                    j,
                                );
                            }
                        }
                        if c.milestones[i].status != MilestoneStatus::Pending {
                            return Err(ChainFundError::MilestoneNotPending);
                        }
                        i
                    },
                }
            },
        };
        if state.has_voted(campaign_id, milestone_id, &voter) {
            return Err(ChainFundError::AlreadyVoted);
        }
        let mut campaign = match state.campaigns.remove(&campaign_id) {
            Some(c) => c,
            None => {
                assert(state@.campaigns =~= before.campaigns);
                return Err(ChainFundError::CampaignNotFound);
            },
        };
        let ghost was = campaign@;
        assert(was.milestones[index as int] == campaign.milestones@[index as int]@);
        assert(milestone_at(was.milestones, milestone_id as nat, index as int));
        if approve {
            campaign.milestones[index].votes_for = campaign.milestones[index].votes_for + 1;
        } else {
            campaign.milestones[index].votes_against = campaign.milestones[index].votes_against + 1;
        }
        let votes_for = campaign.milestones[index].votes_for;
        let votes_against = campaign.milestones[index].votes_against;
        if votes_for + votes_against >= MIN_VOTES {
            if votes_for > votes_against {
                campaign.milestones[index].status = MilestoneStatus::Active;
            } else {
                campaign.milestones[index].status = MilestoneStatus::Rejected;
            }
        }
        proof {
            assert(campaign@.milestones =~= was.milestones.update(
                index as int,
                was.milestones[index as int].with_vote(approve),
            ));
            assert(campaign@.backers =~= was.backers);
        }
        state.campaigns.insert(campaign_id, campaign);
        state.votes.push(
            VoteRecord { campaign_id, vote: Vote { voter, milestone_id, approve, timestamp: now } },
        );
        proof {
            let after = before.after_vote_milestone(
                voter@,
                campaign_id,
                index as int,
                approve,
                now as nat,
            );
            assert(state@.campaigns =~= after.campaigns);
            assert(state@.votes =~= after.votes);
            assert(state@ == after);
        }
        Ok(())
    }
}

impl NFTContractImpl {
    /// Mints a skill token to `recipient` at `now` on the platform `state`.
    /// Returns its id.
    pub fn mint_skill_nft(
        state: &mut ChainFundContract,
        recipient: Address,
        skill_score: u32,
        skill_level: String,
        now: u64,
    ) -> (r: Result<u64, ChainFundError>)
        requires
            old(state).wf(),
            old(state)@.mint_fits(),
        ensures
            final(state).wf(),
            r == old(state)@.mint_skill_nft_result(),
            r is Ok ==> final(state)@ == old(state)@.after_mint_skill_nft(
                recipient@,
                skill_score as nat,
                skill_level@,
                now as nat,
            ),
            r is Err ==> *final(state) == *old(state),
    {
        if state.admin.is_none() {
            return Err(ChainFundError::Unauthorized);
        }
        let ghost before = state@;
        let id = state.nft_count + 1;
        let nft = SkillNFT { token_id: id, owner: recipient, skill_score, skill_level, minted_at: now };
        state.nfts.insert(id, nft);
        state.nft_count = id;
        proof {
            let after = before.after_mint_skill_nft(
                recipient@,
                skill_score as nat,
                skill_level@,
                now as nat,
            );
            assert(state@.nfts =~= after.nfts);
            assert(state@ == after);
        }
        Ok(id)
    }

    /// A skill token of the platform `state`.
    pub fn get_skill_nft(state: &ChainFundContract, token_id: u64) -> (r: Result<
        &SkillNFT,
        ChainFundError,
    >)
        ensures
            match r {
                Ok(t) => state@.nfts.contains_key(token_id) && t@ == state@.nfts[token_id],
                Err(e) => !state@.nfts.contains_key(token_id) && e
                    == ChainFundError::CampaignNotFound,
            },
    {
        match state.nfts.get(&token_id) {
            Some(t) => Ok(t),
            None => Err(ChainFundError::CampaignNotFound),
        }
    }

    /// The number of skill tokens minted on the platform `state`.
    pub fn get_nft_count(state: &ChainFundContract) -> (r: u64)
        ensures
            r == state@.nft_count,
    {
        state.nft_count
    }
}

} // verus!
