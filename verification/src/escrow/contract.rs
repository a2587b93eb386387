//! The operations of the escrow.
//!
//! The escrow decides; it moves no value and checks no signature. Whoever
//! runs it checks the caller's authorization before an operation, hands in
//! the time, carries out the transfer orders that the operation left, and
//! keeps the new state only if all of them went through.

use crate::address::{Address, AddressMap};
use crate::escrow::laws::{lemma_new_campaign_wf, lemma_sum_requested_grows};
use crate::escrow::machine::{
    DEFAULT_AI_TIMEOUT, DEFAULT_MIN_FUNDING, DEFAULT_PLATFORM_FEE_BPS, DEFAULT_VOTING_PERIOD,
};
use crate::escrow::model::{all_positive, new_campaign, new_milestone, sum_requested, zero_digest};
use crate::escrow::types::{
    requests, Campaign, CampaignStatus, CampaignView, ChainFundContract, ContractConfig,
    ContractError, ContractView, Digest, Event, EventView, Milestone, MilestoneStatus, Party,
    SbtRole, Transfer, TransferView, VerificationStatus,
};
use crate::math::{isqrt_wide, lemma_sqrt_floor_is, sqrt_floor};
use std::collections::HashMap;
use vstd::prelude::*;

verus! {

impl ChainFundContract {
    /// The escrow is well formed as mathematics, and so is each campaign as
    /// a record.
    pub open spec fn wf(&self) -> bool {
        &&& self@.wf()
        &&& forall|id: u32| #[trigger]
            self.campaigns@.contains_key(id) ==> self.campaigns@[id].wf()
    }

    /// An escrow that is not initialized yet.
    pub fn new() -> (r: Self)
        ensures
            r.wf(),
            r@.config is None,
            r@.next_id == 1,
            r@.campaigns == Map::<u32, CampaignView>::empty(),
            r@.transfers == Seq::<TransferView>::empty(),
            r@.events == Seq::<EventView>::empty(),
    {
        let r = ChainFundContract {
            config: None,
            token: None,
            next_id: 1,
            campaigns: HashMap::new(),
            transfers: Vec::new(),
            events: Vec::new(),
        };
        assert(r@.campaigns =~= Map::empty());
        assert(r@.transfers =~= Seq::empty());
        assert(r@.events =~= Seq::empty());
        r
    }

    /// What was kept of an escrow can be an escrow again: the settings and
    /// the token come together, the fee is at most the whole, there is no
    /// campaign without settings, and the campaigns are well formed, with
    /// ids of their own below the next id.
    pub open spec fn restorable(
        config: Option<ContractConfig>,
        token: Option<Address>,
        next_id: u32,
        campaigns: Seq<Campaign>,
    ) -> bool {
        &&& config is Some <==> token is Some
        &&& config is Some ==> config->0.platform_fee_bps <= 10000
        &&& config is None ==> next_id == 1 && campaigns.len() == 0
        &&& next_id >= 1
        &&& forall|i: int|
            0 <= i < campaigns.len() ==> (#[trigger] campaigns[i]).wf() && campaigns[i].id < next_id
        &&& forall|i: int, j: int|
            0 <= i < campaigns.len() && 0 <= j < campaigns.len() && i != j ==> (
            #[trigger] campaigns[i]).id != (#[trigger] campaigns[j]).id
    }

    /// The escrow that was kept as these settings, this token, this next id
    /// and these campaigns, with no transfer order and no notification left;
    /// nothing, where they cannot be an escrow.
    #[verifier::loop_isolation(false)]
    pub fn restore(
        config: Option<ContractConfig>,
        token: Option<Address>,
        next_id: u32,
        campaigns: Vec<Campaign>,
    ) -> (r: Option<Self>)
        ensures
            r is Some <==> Self::restorable(config, token, next_id, campaigns@),
            r is Some ==> {
                &&& r->0.wf()
                &&& r->0.config == config
                &&& r->0.token == token
                &&& r->0.next_id == next_id
                &&& r->0.transfers@.len() == 0
                &&& r->0.events@.len() == 0
                &&& forall|i: int|
                    0 <= i < campaigns@.len() ==> r->0.campaigns@.contains_key(
                        (#[trigger] campaigns@[i]).id,
                    ) && r->0.campaigns@[campaigns@[i].id] == campaigns@[i]
                &&& forall|id: u32| #[trigger]
                    r->0.campaigns@.contains_key(id) ==> exists|i: int|
                        0 <= i < campaigns@.len() && (#[trigger] campaigns@[i]).id == id
            },
    {
        let ghost all = campaigns@;
        match &config {
            Some(c) => {
                if token.is_none() || c.platform_fee_bps > 10000 {
                    return None;
                }
            },
            None => {
                if token.is_some() || next_id != 1 || campaigns.len() != 0 {
                    return None;
                }
            },
        }
        if next_id < 1 {
            return None;
        }
        let mut rest = campaigns;
        let mut kept: HashMap<u32, Campaign> = HashMap::new();
        while rest.len() > 0
            invariant
                rest@.len() <= all.len(),
                rest@ == all.subrange(0, rest@.len() as int),
                forall|i: int|
                    rest@.len() <= i < all.len() ==> (#[trigger] all[i]).wf() && all[i].id < next_id
                        && kept@.contains_key(all[i].id) && kept@[all[i].id] == all[i],
                forall|i: int, j: int|
                    rest@.len() <= i < all.len() && rest@.len() <= j < all.len() && i != j ==> (
                    #[trigger] all[i]).id != (#[trigger] all[j]).id,
                forall|id: u32| #[trigger]
                    kept@.contains_key(id) ==> exists|i: int|
                        rest@.len() <= i < all.len() && (#[trigger] all[i]).id == id,
            decreases rest@.len(),
        {
            let ghost at = rest@.len() - 1;
            let c = match rest.pop() {
                Some(c) => c,
                None => {
                    return None;
                },
            };
            assert(c == all[at]);
            if !c.is_valid() || c.id >= next_id {
                return None;
            }
            if kept.contains_key(&c.id) {
                proof {
                    let j = choose|j: int| at < j < all.len() && (#[trigger] all[j]).id == c.id;
                    assert(all[at].id == all[j].id);
                }
                return None;
            }
            let ghost before = kept@;
            kept.insert(c.id, c);
            proof {
                assert forall|id: u32| #[trigger] kept@.contains_key(id) implies exists|i: int|
                    rest@.len() <= i < all.len() && (#[trigger] all[i]).id == id by {
                    if id == all[at].id {
                        assert(all[at].id == id);
                    } else {
                        assert(before.contains_key(id));
                        let i = choose|i: int| at < i < all.len() && (#[trigger] all[i]).id == id;
                        assert(all[i].id == id);
                    }
                }
            }
        }
        let r = ChainFundContract {
            config,
            token,
            next_id,
            campaigns: kept,
            transfers: Vec::new(),
            events: Vec::new(),
        };
        proof {
            assert forall|id: u32| #[trigger] r.campaigns@.contains_key(id) implies r.campaigns@[id].wf()
                && r@.campaigns[id].wf() && r@.campaigns[id].id == id && id < r@.next_id by {
                let i = choose|i: int| 0 <= i < all.len() && (#[trigger] all[i]).id == id;
                assert(all[i].wf());
            }
            if config is None {
                assert(r@.campaigns =~= Map::empty());
            }
        }
        Some(r)
    }

    /// Initializes the escrow at `now` with its administrator, its oracle,
    /// the reputation subsystem and its token, under the initial settings.
    /// Refused once the escrow is initialized.
    pub fn initialize(
        &mut self,
        admin: Address,
        ai_oracle: Address,
        sbt_contract: Address,
        token_address: Address,
        now: u64,
    ) -> (r: Result<(), ContractError>)
        requires
            old(self).wf(),
        ensures
            final(self).wf(),
            r == old(self)@.initialize_result(),
            r is Ok ==> final(self)@ == old(self)@.after_initialize(
                admin@,
                ai_oracle@,
                sbt_contract@,
                token_address@,
                now as nat,
            ),
            r is Err ==> *final(self) == *old(self),
    {
        if self.config.is_some() {
            return Err(ContractError::CampaignAlreadyExists);
        }
        let ghost before = self@;
        self.events.push(Event::Initialized { admin: admin.clone(), at: now });
        self.config = Some(
            ContractConfig {
                admin,
                ai_oracle,
                sbt_contract,
                min_funding: DEFAULT_MIN_FUNDING,
                platform_fee_bps: DEFAULT_PLATFORM_FEE_BPS,
                voting_period: DEFAULT_VOTING_PERIOD,
                ai_timeout: DEFAULT_AI_TIMEOUT,
                is_paused: false,
            },
        );
        self.next_id = 1;
        self.token = Some(token_address);
        proof {
            let after = before.after_initialize(
                admin@,
                ai_oracle@,
                sbt_contract@,
                token_address@,
                now as nat,
            );
            assert(self@.events =~= after.events);
            assert(self@.campaigns =~= after.campaigns);
        }
        Ok(())
    }

    /// Whether a campaign with the goal `total_goal` and the milestones
    /// `milestone_configs` would be created.
    #[verifier::loop_isolation(false)]
    fn check_campaign(&self, total_goal: i128, milestone_configs: &Vec<(String, String, i128)>) -> (r:
        Result<(), ContractError>)
        requires
            self.wf(),
        ensures
            r is Ok <==> self@.create_campaign_result(
                total_goal as int,
                requests(milestone_configs@),
            ) is Ok,
            r is Err ==> self@.create_campaign_result(
                total_goal as int,
                requests(milestone_configs@),
            ) == Err::<u32, ContractError>(r->Err_0),
    {
        let ghost specs = requests(milestone_configs@);
        let (paused, min_funding) = match &self.config {
            Some(c) => (c.is_paused, c.min_funding),
            None => {
                return Err(ContractError::InvalidInput);
            },
        };
        if paused {
            return Err(ContractError::ContractPaused);
        }
        if total_goal < min_funding {
            return Err(ContractError::InvalidAmount);
        }
        let n = milestone_configs.len();
        if n == 0 {
            return Err(ContractError::InvalidInput);
        }
        if total_goal <= 0 {
            proof {
                if all_positive(specs) {
                    lemma_sum_requested_grows(specs, 0, n as int);
                }
            }
            return Err(ContractError::InvalidAmount);
        }
        let mut sum: i128 = 0;
        let mut i: usize = 0;
        while i < n
            invariant
                i <= n,
                0 <= sum <= total_goal,
                sum == sum_requested(specs, i as int),
                forall|j: int| 0 <= j < i ==> (#[trigger] specs[j]).amount > 0,
            decreases n - i,
        {
            let amount = milestone_configs[i].2;
            assert(specs[i as int].amount == amount);
            if amount <= 0 {
                return Err(ContractError::InvalidAmount);
            }
            if amount > total_goal - sum {
                proof {
                    if all_positive(specs) {
                        lemma_sum_requested_grows(specs, i as int + 1, n as int);
                    }
                }
                return Err(ContractError::InvalidAmount);
            }
            sum = sum + amount;
            i += 1;
        }
        if sum != total_goal {
            return Err(ContractError::InvalidAmount);
        }
        assert(all_positive(specs));
        if self.token.is_none() {
            return Err(ContractError::InvalidInput);
        }
        Ok(())
    }

    /// Whether the ids and the positions fit their 32 bits once `create_campaign`
    /// is called with these arguments: whether it can be called.
    pub fn create_campaign_fits(
        &self,
        total_goal: i128,
        milestone_configs: &Vec<(String, String, i128)>,
    ) -> (r: bool)
        requires
            self.wf(),
        ensures
            r == (self@.create_campaign_result(total_goal as int, requests(milestone_configs@)) is Ok
                ==> self.next_id < u32::MAX && milestone_configs@.len() <= u32::MAX),
    {
        if self.next_id < u32::MAX && milestone_configs.len() <= u32::MAX as usize {
            true
        } else {
            self.check_campaign(total_goal, milestone_configs).is_err()
        }
    }

    /// Creates a campaign of `creator` with the goal `total_goal`, to be paid
    /// out by the milestones `milestone_configs`, each a title, a description
    /// and an amount. The amounts are positive and sum to the goal, or no
    /// campaign is created. Returns the id of the new campaign.
    #[verifier::loop_isolation(false)]
    pub fn create_campaign(
        &mut self,
        creator: Address,
        title: String,
        description: String,
        ipfs_metadata: Digest,
        total_goal: i128,
        milestone_configs: Vec<(String, String, i128)>,
        now: u64,
    ) -> (r: Result<u32, ContractError>)
        requires
            old(self).wf(),
            old(self)@.create_campaign_result(total_goal as int, requests(milestone_configs@)) is Ok
                ==> old(self).next_id < u32::MAX && milestone_configs@.len() <= u32::MAX,
        ensures
            final(self).wf(),
            r == old(self)@.create_campaign_result(total_goal as int, requests(milestone_configs@)),
            r is Ok ==> final(self)@ == old(self)@.after_create_campaign(
                creator@,
                title@,
                description@,
                ipfs_metadata@,
                total_goal as int,
                requests(milestone_configs@),
                now as nat,
            ),
            r is Err ==> *final(self) == *old(self),
    {
        let ghost specs = requests(milestone_configs@);
        match self.check_campaign(total_goal, &milestone_configs) {
            Err(e) => {
                return Err(e);
            },
            Ok(()) => {},
        }
        let n = milestone_configs.len();
        let token_address = match &self.token {
            Some(t) => t.clone(),
            None => {
                return Err(ContractError::InvalidInput);
            },
        };
        let mut milestones: Vec<Milestone> = Vec::new();
        let mut k: usize = 0;
        while k < n
            invariant
                k <= n,
                n == milestone_configs@.len(),
                n <= u32::MAX,
                specs == requests(milestone_configs@),
                milestones@.len() == k,
                forall|j: int| 0 <= j < k ==> (#[trigger] milestones@[j])@ == new_milestone(j, specs[j]),
                forall|j: int| 0 <= j < k ==> (#[trigger] milestones@[j]).voters.wf(),
                forall|j: int| 0 <= j < k ==> (#[trigger] milestones@[j]).voters.entries@.len() == 0,
            decreases n - k,
        {
            let voters: AddressMap<i64> = AddressMap::new();
            let ipfs_proof: Digest = [0u8;32];
            let m = Milestone {
                id: k as u32,
                title: milestone_configs[k].0.clone(),
                description: milestone_configs[k].1.clone(),
                amount: milestone_configs[k].2,
                ipfs_proof,
                ai_verdict: VerificationStatus::NotSubmitted,
                ai_confidence: 0,
                votes_for: 0,
                votes_against: 0,
                voters,
                status: if k == 0 {
                    MilestoneStatus::InProgress
                } else {
                    MilestoneStatus::Pending
                },
                proof_submitted_at: 0,
                verified_at: 0,
                released_at: 0,
            };
            proof {
                assert(m@.ipfs_proof =~= zero_digest());
                assert(m@.voters =~= Map::empty());
                assert(m@ == new_milestone(k as int, specs[k as int]));
            }
            milestones.push(m);
            k += 1;
        }
        let id = self.next_id;
        let campaign = Campaign {
            id,
            creator,
            title,
            description,
            ipfs_metadata,
            total_goal,
            funds_raised: 0,
            funds_released: 0,
            funds_locked: 0,
            token_address,
            milestones,
            backers: AddressMap::new(),
            backer_count: 0,
            status: CampaignStatus::Active,
            created_at: now,
            funded_at: 0,
            completed_at: 0,
            current_milestone: 0,
        };
        proof {
            let fresh = new_campaign(
                id as nat,
                creator@,
                title@,
                description@,
                ipfs_metadata@,
                total_goal as int,
                specs,
                self@.token->0,
                now as nat,
            );
            lemma_new_campaign_wf(
                id as nat,
                creator@,
                title@,
                description@,
                ipfs_metadata@,
                total_goal as int,
                specs,
                self@.token->0,
                now as nat,
            );
            assert(campaign@.milestones =~= fresh.milestones);
            assert(campaign@.backers =~= fresh.backers);
            assert(campaign@.backer_order =~= fresh.backer_order);
            assert(campaign@ == fresh);
        }
        let ghost before = self@;
        self.events.push(
            Event::CampaignCreated { campaign_id: id, creator: campaign.creator.clone(), total_goal },
        );
        self.campaigns.insert(id, campaign);
        self.next_id = id + 1;
        proof {
            let after = before.after_create_campaign(
                creator@,
                title@,
                description@,
                ipfs_metadata@,
                total_goal as int,
                specs,
                now as nat,
            );
            assert(self@.campaigns =~= after.campaigns);
            assert(self@.events =~= after.events);
            assert(self@ == after);
        }
        Ok(id)
    }

    /// The campaign `id`.
    pub fn get_campaign(&self, campaign_id: u32) -> (r: Result<&Campaign, ContractError>)
        requires
            self.wf(),
        ensures
            match r {
                Ok(c) => self@.campaigns.contains_key(campaign_id) && c@
                    == self@.campaigns[campaign_id] && c.wf(),
                Err(e) => !self@.campaigns.contains_key(campaign_id) && e
                    == ContractError::CampaignNotFound,
            },
    {
        match self.campaigns.get(&campaign_id) {
            Some(c) => Ok(c),
            None => Err(ContractError::CampaignNotFound),
        }
    }

    /// Whether the count of backers fits its 32 bits once `fund_campaign` is
    /// called with these arguments: whether it can be called.
    pub fn fund_campaign_fits(&self, campaign_id: u32, backer: &Address, amount: i128) -> (r: bool)
        requires
            self.wf(),
        ensures
            r == (self@.fund_campaign_result(campaign_id, amount as int) is Ok
                ==> self@.campaigns[campaign_id].has_room_for(backer@)),
    {
        if amount <= 0 {
            return true;
        }
        match self.campaigns.get(&campaign_id) {
            None => true,
            Some(c) => {
                proof {
                    crate::address::lemma_map_of_dom(c.backers.entries@);
                }
                c.status != CampaignStatus::Active || amount > c.total_goal - c.funds_raised
                    || c.backer_count < u32::MAX || c.backers.contains_key(backer)
            },
        }
    }

    /// Takes `amount` from `backer` for the campaign `campaign_id`: the
    /// campaign counts it as raised and locked, and the ledger is ordered to
    /// move it into the escrow. Refused in full if it is not positive, if the
    /// campaign takes no funds, or if it would overshoot the goal.
    pub fn fund_campaign(&mut self, campaign_id: u32, backer: Address, amount: i128, now: u64) -> (r:
        Result<(), ContractError>)
        requires
            old(self).wf(),
            old(self)@.fund_campaign_result(campaign_id, amount as int) is Ok ==> old(
                self,
            )@.campaigns[campaign_id].has_room_for(backer@),
        ensures
            final(self).wf(),
            r == old(self)@.fund_campaign_result(campaign_id, amount as int),
            r is Ok ==> final(self)@ == old(self)@.after_fund_campaign(
                campaign_id,
                backer@,
                amount as int,
                now as nat,
            ),
            r is Err ==> final(self)@ == old(self)@,
    {
        if amount <= 0 {
            return Err(ContractError::InvalidAmount);
        }
        let ghost before = self@;
        let mut campaign = match self.campaigns.remove(&campaign_id) {
            Some(c) => c,
            None => {
                assert(self@.campaigns =~= before.campaigns);
                return Err(ContractError::CampaignNotFound);
            },
        };
        let token = campaign.token_address.clone();
        if campaign.status != CampaignStatus::Active {
            self.campaigns.insert(campaign_id, campaign);
            assert(self@.campaigns =~= before.campaigns);
            return Err(ContractError::CampaignNotActive);
        }
        if amount > campaign.total_goal - campaign.funds_raised {
            self.campaigns.insert(campaign_id, campaign);
            assert(self@.campaigns =~= before.campaigns);
            return Err(ContractError::FundingGoalExceeded);
        }
        let r = campaign.fund(backer.clone(), amount, now);
        let funds_raised = campaign.funds_raised;
        self.campaigns.insert(campaign_id, campaign);
        if r.is_ok() {
            self.events.push(
                Event::Funded { campaign_id, backer: backer.clone(), amount, funds_raised },
            );
            self.transfers.push(
                Transfer { token, from: Party::Account(backer), to: Party::Escrow, amount },
            );
            proof {
                let after = before.after_fund_campaign(
                    campaign_id,
                    backer@,
                    amount as int,
                    now as nat,
                );
                assert(self@.campaigns =~= after.campaigns);
                assert(self@.transfers =~= after.transfers);
                assert(self@.events =~= after.events);
            }
        } else {
            assert(self@.campaigns =~= before.campaigns);
        }
        r
    }

    /// Closes the campaign `campaign_id` at `now`, for its creator or the
    /// administrator, once every milestone is released.
    pub fn close_campaign(&mut self, campaign_id: u32, caller: Address, now: u64) -> (r: Result<
        (),
        ContractError,
    >)
        requires
            old(self).wf(),
        ensures
            final(self).wf(),
            r == old(self)@.close_campaign_result(campaign_id, caller@),
            r is Ok ==> final(self)@ == old(self)@.after_close_campaign(campaign_id, now as nat),
            r is Err ==> final(self)@ == old(self)@,
    {
        let ghost before = self@;
        let allowed = match self.campaigns.get(&campaign_id) {
            None => {
                return Err(ContractError::CampaignNotFound);
            },
            Some(c) => match &self.config {
                None => {
                    return Err(ContractError::InvalidInput);
                },
                Some(config) => {
                    if !caller.same(&c.creator) && !caller.same(&config.admin) {
                        return Err(ContractError::Unauthorized);
                    }
                    c.all_released()
                },
            },
        };
        if !allowed {
            return Err(ContractError::MilestoneNotReady);
        }
        let mut campaign = match self.campaigns.remove(&campaign_id) {
            Some(c) => c,
            None => {
                assert(self@.campaigns =~= before.campaigns);
                return Err(ContractError::CampaignNotFound);
            },
        };
        campaign.close(now);
        self.campaigns.insert(campaign_id, campaign);
        self.events.push(Event::CampaignClosed { campaign_id, at: now });
        proof {
            let after = before.after_close_campaign(campaign_id, now as nat);
            assert(self@.campaigns =~= after.campaigns);
            assert(self@.events =~= after.events);
        }
        Ok(())
    }

    /// Releases the milestone `milestone_id` of the campaign `campaign_id`
    /// at `now`, for whoever asks, provided its verdict is Completed or
    /// Partial, its for-side outweighs its against-side, and the escrow holds
    /// its amount. The ledger is ordered to pay the creator's share to the
    /// creator and the fee, unless it is zero, to the administrator. Returns
    /// the creator's share.
    pub fn release_funds(&mut self, campaign_id: u32, milestone_id: u32, now: u64) -> (r: Result<
        i128,
        ContractError,
    >)
        requires
            old(self).wf(),
        ensures
            final(self).wf(),
            r == old(self)@.release_funds_result(campaign_id, milestone_id),
            r is Ok ==> final(self)@ == old(self)@.after_release_funds(
                campaign_id,
                milestone_id,
                now as nat,
            ),
            r is Err ==> final(self)@ == old(self)@,
    {
        let ghost before = self@;
        let mut campaign = match self.campaigns.remove(&campaign_id) {
            Some(c) => c,
            None => {
                assert(self@.campaigns =~= before.campaigns);
                return Err(ContractError::CampaignNotFound);
            },
        };
        let (fee_bps, admin) = match &self.config {
            Some(config) => (Some(config.platform_fee_bps), Some(config.admin.clone())),
            None => (None, None),
        };
        let released = campaign.release(milestone_id, fee_bps, now);
        let r = match released {
            Ok((creator_amount, fee)) => {
                self.transfers.push(
                    Transfer {
                        token: campaign.token_address.clone(),
                        from: Party::Escrow,
                        to: Party::Account(campaign.creator.clone()),
                        amount: creator_amount,
                    },
                );
                match admin {
                    Some(admin) => {
                        if fee > 0 {
                            self.transfers.push(
                                Transfer {
                                    token: campaign.token_address.clone(),
                                    from: Party::Escrow,
                                    to: Party::Account(admin),
                                    amount: fee,
                                },
                            );
                        }
                    },
                    None => {},
                }
                self.events.push(
                    Event::Released { campaign_id, milestone_id, creator_amount, fee },
                );
                Ok(creator_amount)
            },
            Err(e) => Err(e),
        };
        self.campaigns.insert(campaign_id, campaign);
        proof {
            if r is Ok {
                let after = before.after_release_funds(campaign_id, milestone_id, now as nat);
                assert(before.campaigns[campaign_id].milestones[milestone_id as int].wf(
                    milestone_id as int,
                ));
                crate::escrow::laws::lemma_fee_splits_amount(
                    before.campaigns[campaign_id].milestones[milestone_id as int].amount,
                    before.config->0.platform_fee_bps,
                );
                assert(self@.campaigns =~= after.campaigns);
                assert(self@.transfers =~= after.transfers);
                assert(self@.events =~= after.events);
            } else {
                assert(self@.campaigns =~= before.campaigns);
            }
        }
        r
    }

    /// Fails the campaign `campaign_id` for the administrator, whatever its
    /// status: the ledger is ordered to give every backer back what they
    /// gave, nothing stays locked, and no backer is left. Returns the number
    /// of refunds.
    pub fn refund_backers(&mut self, campaign_id: u32, admin: Address) -> (r: Result<
        u32,
        ContractError,
    >)
        requires
            old(self).wf(),
        ensures
            final(self).wf(),
            r == old(self)@.refund_backers_result(campaign_id, admin@),
            r is Ok ==> final(self)@ == old(self)@.after_refund_backers(campaign_id),
            r is Err ==> final(self)@ == old(self)@,
    {
        let ghost before = self@;
        match &self.config {
            None => {
                return Err(ContractError::InvalidInput);
            },
            Some(config) => {
                if !admin.same(&config.admin) {
                    return Err(ContractError::Unauthorized);
                }
            },
        }
        let mut campaign = match self.campaigns.remove(&campaign_id) {
            Some(c) => c,
            None => {
                assert(self@.campaigns =~= before.campaigns);
                return Err(ContractError::CampaignNotFound);
            },
        };
        let mut orders = campaign.refund();
        let count = orders.len() as u32;
        let ghost added = orders@.map_values(|t: Transfer| t@);
        self.transfers.append(&mut orders);
        self.campaigns.insert(campaign_id, campaign);
        self.events.push(Event::Refunded { campaign_id, refund_count: count });
        proof {
            let after = before.after_refund_backers(campaign_id);
            assert(self@.campaigns =~= after.campaigns);
            assert(self@.transfers =~= before.transfers + added);
            assert(self@.events =~= after.events);
        }
        Ok(count)
    }

    /// Records the proof `ipfs_hash` that `creator` hands in at `now` for the
    /// milestone `milestone_id` of their campaign `campaign_id`, which must
    /// be in progress and without a proof. The verdict is pending from then
    /// on.
    pub fn submit_proof(
        &mut self,
        campaign_id: u32,
        milestone_id: u32,
        creator: Address,
        ipfs_hash: Digest,
        now: u64,
    ) -> (r: Result<(), ContractError>)
        requires
            old(self).wf(),
        ensures
            final(self).wf(),
            r == old(self)@.submit_proof_result(campaign_id, milestone_id, creator@),
            r is Ok ==> final(self)@ == old(self)@.after_submit_proof(
                campaign_id,
                milestone_id,
                ipfs_hash@,
                now as nat,
            ),
            r is Err ==> final(self)@ == old(self)@,
    {
        let ghost before = self@;
        let mut campaign = match self.campaigns.remove(&campaign_id) {
            Some(c) => c,
            None => {
                assert(self@.campaigns =~= before.campaigns);
                return Err(ContractError::CampaignNotFound);
            },
        };
        let r = campaign.submit_proof(milestone_id, &creator, ipfs_hash, now);
        self.campaigns.insert(campaign_id, campaign);
        if r.is_ok() {
            self.events.push(Event::ProofSubmitted { campaign_id, milestone_id, ipfs_hash });
        }
        proof {
            if r is Ok {
                let after = before.after_submit_proof(
                    campaign_id,
                    milestone_id,
                    ipfs_hash@,
                    now as nat,
                );
                assert(self@.campaigns =~= after.campaigns);
                assert(self@.events =~= after.events);
            } else {
                assert(self@.campaigns =~= before.campaigns);
            }
        }
        r
    }

    /// The milestone `milestone_id` of the campaign `campaign_id`.
    pub fn get_milestone(&self, campaign_id: u32, milestone_id: u32) -> (r: Result<
        &Milestone,
        ContractError,
    >)
        requires
            self.wf(),
        ensures
            match r {
                Ok(m) => {
                    &&& self@.campaigns.contains_key(campaign_id)
                    &&& milestone_id < self@.campaigns[campaign_id].milestones.len()
                    &&& m@ == self@.campaigns[campaign_id].milestones[milestone_id as int]
                },
                Err(e) => if self@.campaigns.contains_key(campaign_id) {
                    milestone_id >= self@.campaigns[campaign_id].milestones.len() && e
                        == ContractError::MilestoneNotFound
                } else {
                    e == ContractError::CampaignNotFound
                },
            },
    {
        match self.campaigns.get(&campaign_id) {
            None => Err(ContractError::CampaignNotFound),
            Some(c) => {
                let i = milestone_id as usize;
                if i < c.milestones.len() {
                    assert(c@.milestones[i as int] == c.milestones@[i as int]@);
                    Ok(&c.milestones[i])
                } else {
                    Err(ContractError::MilestoneNotFound)
                }
            },
        }
    }

    /// Records the verdict `status`, given with `confidence` at `now` by the
    /// oracle or the administrator, on the milestone `milestone_id` of the
    /// campaign `campaign_id`, whose proof must have been handed in.
    /// Completed and Partial open the vote, Suspicious disputes the
    /// milestone, and any other verdict rejects it.
    pub fn submit_ai_verdict(
        &mut self,
        campaign_id: u32,
        milestone_id: u32,
        oracle: Address,
        status: VerificationStatus,
        confidence: u32,
        now: u64,
    ) -> (r: Result<(), ContractError>)
        requires
            old(self).wf(),
        ensures
            final(self).wf(),
            r == old(self)@.submit_ai_verdict_result(campaign_id, milestone_id, oracle@),
            r is Ok ==> final(self)@ == old(self)@.after_submit_ai_verdict(
                campaign_id,
                milestone_id,
                status,
                confidence as nat,
                now as nat,
            ),
            r is Err ==> final(self)@ == old(self)@,
    {
        let ghost before = self@;
        match &self.config {
            None => {
                return Err(ContractError::InvalidInput);
            },
            Some(config) => {
                if !oracle.same(&config.ai_oracle) && !oracle.same(&config.admin) {
                    return Err(ContractError::UnauthorizedAIOracle);
                }
            },
        }
        let mut campaign = match self.campaigns.remove(&campaign_id) {
            Some(c) => c,
            None => {
                assert(self@.campaigns =~= before.campaigns);
                return Err(ContractError::CampaignNotFound);
            },
        };
        let r = campaign.record_verdict(milestone_id, status, confidence, now);
        self.campaigns.insert(campaign_id, campaign);
        if r.is_ok() {
            self.events.push(
                Event::VerdictSubmitted { campaign_id, milestone_id, status, confidence },
            );
        }
        proof {
            if r is Ok {
                let after = before.after_submit_ai_verdict(
                    campaign_id,
                    milestone_id,
                    status,
                    confidence as nat,
                    now as nat,
                );
                assert(self@.campaigns =~= after.campaigns);
                assert(self@.events =~= after.events);
            } else {
                assert(self@.campaigns =~= before.campaigns);
            }
        }
        r
    }

    /// Whether the tallies, the recorded weight and the count of voters fit
    /// their bits once `vote` is called with these arguments: whether it can
    /// be called.
    pub fn vote_fits(&self, campaign_id: u32, milestone_id: u32, voter: &Address, approve: bool) -> (r:
        bool)
        requires
            self.wf(),
        ensures
            r == (self@.vote_result(campaign_id, milestone_id, voter@) is Ok
                ==> self@.campaigns[campaign_id].vote_fits(milestone_id as nat, voter@, approve)),
    {
        let c = match self.campaigns.get(&campaign_id) {
            None => {
                return true;
            },
            Some(c) => c,
        };
        let i = milestone_id as usize;
        if i >= c.milestones.len() {
            return true;
        }
        let m = &c.milestones[i];
        proof {
            assert(c@.milestones[i as int] == c.milestones@[i as int]@);
            crate::address::lemma_map_of_dom(m.voters.entries@);
            crate::address::lemma_map_of_len(m.voters.entries@);
            crate::address::lemma_map_of_dom(c.backers.entries@);
            assert(m@.voters.dom() =~= m.voters@.dom());
        }
        if m.status != MilestoneStatus::VotingOpen && m.status != MilestoneStatus::AIVerified {
            return true;
        }
        if m.voters.contains_key(voter) {
            return true;
        }
        let contribution = match c.backers.get(voter) {
            Some(a) => a,
            None => {
                return true;
            },
        };
        if contribution <= 0 || self.config.is_none() {
            return true;
        }
        assert(contribution == c@.contribution(voter@));
        let power = isqrt_wide(contribution as u128) as u64;
        let votes = if approve {
            m.votes_for
        } else {
            m.votes_against
        };
        power <= i64::MAX as u64 && power <= u64::MAX - votes && m.voters.len() < u32::MAX as usize
    }

    /// Counts the vote of the backer `voter` for or against the milestone
    /// `milestone_id` of the campaign `campaign_id`, on which votes must be
    /// taken and `voter` must not have voted. The vote weighs the integer
    /// square root of what `voter` gave. The milestone is approved once its
    /// for-side holds more than twice its against-side. Returns the weight.
    pub fn vote(&mut self, campaign_id: u32, milestone_id: u32, voter: Address, approve: bool) -> (r:
        Result<u64, ContractError>)
        requires
            old(self).wf(),
            old(self)@.vote_result(campaign_id, milestone_id, voter@) is Ok ==> old(
                self,
            )@.campaigns[campaign_id].vote_fits(milestone_id as nat, voter@, approve),
        ensures
            final(self).wf(),
            r == old(self)@.vote_result(campaign_id, milestone_id, voter@),
            r is Ok ==> final(self)@ == old(self)@.after_vote(
                campaign_id,
                milestone_id,
                voter@,
                approve,
            ),
            r is Err ==> final(self)@ == old(self)@,
    {
        let ghost before = self@;
        let mut campaign = match self.campaigns.remove(&campaign_id) {
            Some(c) => c,
            None => {
                assert(self@.campaigns =~= before.campaigns);
                return Err(ContractError::CampaignNotFound);
            },
        };
        let configured = self.config.is_some();
        let r = campaign.cast_vote(milestone_id, voter.clone(), approve, configured);
        self.campaigns.insert(campaign_id, campaign);
        match r {
            Ok(voting_power) => {
                self.events.push(
                    Event::Voted { campaign_id, milestone_id, voter, approve, voting_power },
                );
            },
            Err(_) => {},
        }
        proof {
            if r is Ok {
                let after = before.after_vote(campaign_id, milestone_id, voter@, approve);
                assert(self@.campaigns =~= after.campaigns);
                assert(self@.events =~= after.events);
            } else {
                assert(self@.campaigns =~= before.campaigns);
            }
        }
        r
    }

    /// The tally of the milestone `milestone_id` of the campaign
    /// `campaign_id`: the weight for it, the weight against it, and the
    /// number of voters.
    pub fn get_vote_status(&self, campaign_id: u32, milestone_id: u32) -> (r: Result<
        (u64, u64, u32),
        ContractError,
    >)
        requires
            self.wf(),
        ensures
            match r {
                Ok((votes_for, votes_against, voters)) => {
                    &&& self@.campaigns.contains_key(campaign_id)
                    &&& milestone_id < self@.campaigns[campaign_id].milestones.len()
                    &&& votes_for
                        == self@.campaigns[campaign_id].milestones[milestone_id as int].votes_for
                    &&& votes_against
                        == self@.campaigns[campaign_id].milestones[milestone_id as int].votes_against
                    &&& voters
                        == self@.campaigns[campaign_id].milestones[milestone_id as int].voters.dom().len()
                },
                Err(e) => if self@.campaigns.contains_key(campaign_id) {
                    milestone_id >= self@.campaigns[campaign_id].milestones.len() && e
                        == ContractError::MilestoneNotFound
                } else {
                    e == ContractError::CampaignNotFound
                },
            },
    {
        match self.campaigns.get(&campaign_id) {
            None => Err(ContractError::CampaignNotFound),
            Some(c) => {
                let i = milestone_id as usize;
                if i < c.milestones.len() {
                    let m = &c.milestones[i];
                    proof {
                        assert(c@.milestones[i as int] == c.milestones@[i as int]@);
                        crate::address::lemma_map_of_len(m.voters.entries@);
                        assert(m@.voters.dom() =~= m.voters@.dom());
                    }
                    Ok((m.votes_for, m.votes_against, m.voters.len() as u32))
                } else {
                    Err(ContractError::MilestoneNotFound)
                }
            },
        }
    }

    /// Hands the request of `caller`, the creator or the administrator, for
    /// a reputation award to `recipient` in the role `role` for the completed
    /// campaign `campaign_id` on to the reputation subsystem. The escrow
    /// itself awards nothing and keeps its records as they are.
    pub fn award_sbt(&mut self, campaign_id: u32, recipient: Address, role: SbtRole, caller: Address) -> (r:
        Result<(), ContractError>)
        requires
            old(self).wf(),
        ensures
            final(self).wf(),
            r == old(self)@.award_sbt_result(campaign_id, caller@),
            r is Ok ==> final(self)@ == old(self)@.after_award_sbt(campaign_id, recipient@, role),
            r is Err ==> *final(self) == *old(self),
    {
        match self.campaigns.get(&campaign_id) {
            None => {
                return Err(ContractError::CampaignNotFound);
            },
            Some(c) => match &self.config {
                None => {
                    return Err(ContractError::InvalidInput);
                },
                Some(config) => {
                    if !caller.same(&c.creator) && !caller.same(&config.admin) {
                        return Err(ContractError::Unauthorized);
                    }
                    if c.status != CampaignStatus::Completed {
                        return Err(ContractError::CampaignNotActive);
                    }
                },
            },
        }
        let ghost before = self@;
        self.events.push(Event::SbtAwarded { campaign_id, recipient, role });
        proof {
            let after = before.after_award_sbt(campaign_id, recipient@, role);
            assert(self@.events =~= after.events);
        }
        Ok(())
    }

    /// The integer square root of `n`: the largest `r` with `r * r <= n`.
    pub fn integer_sqrt(n: u64) -> (r: u64)
        ensures
            r * r <= n < (r + 1) * (r + 1),
            r == sqrt_floor(n as int),
    {
        isqrt_wide(n as u128) as u64
    }

    /// The settings of the escrow, once it is initialized.
    pub fn get_config(&self) -> (r: Result<&ContractConfig, ContractError>)
        ensures
            match r {
                Ok(c) => self.config == Some(*c),
                Err(e) => self.config is None && e == ContractError::InvalidInput,
            },
    {
        match &self.config {
            Some(c) => Ok(c),
            None => Err(ContractError::InvalidInput),
        }
    }

    /// Makes `new_oracle` the attestation oracle, for the administrator.
    pub fn set_ai_oracle(&mut self, admin: Address, new_oracle: Address) -> (r: Result<
        (),
        ContractError,
    >)
        requires
            old(self).wf(),
        ensures
            final(self).wf(),
            r == old(self)@.admin_result(admin@),
            r is Ok ==> final(self)@ == old(self)@.after_set_ai_oracle(new_oracle@),
            r is Err ==> *final(self) == *old(self),
    {
        let ghost before = self@;
        match &mut self.config {
            None => {
                return Err(ContractError::InvalidInput);
            },
            Some(config) => {
                if !admin.same(&config.admin) {
                    return Err(ContractError::Unauthorized);
                }
                config.ai_oracle = new_oracle.clone();
            },
        }
        self.events.push(Event::OracleChanged { new_oracle });
        proof {
            let after = before.after_set_ai_oracle(new_oracle@);
            assert(self@.events =~= after.events);
            assert(self@.campaigns =~= after.campaigns);
        }
        Ok(())
    }

    /// Pauses the creation of campaigns, or lets it go on, for the
    /// administrator.
    pub fn set_paused(&mut self, admin: Address, paused: bool) -> (r: Result<(), ContractError>)
        requires
            old(self).wf(),
        ensures
            final(self).wf(),
            r == old(self)@.admin_result(admin@),
            r is Ok ==> final(self)@ == old(self)@.after_set_paused(paused),
            r is Err ==> *final(self) == *old(self),
    {
        let ghost before = self@;
        match &mut self.config {
            None => {
                return Err(ContractError::InvalidInput);
            },
            Some(config) => {
                if !admin.same(&config.admin) {
                    return Err(ContractError::Unauthorized);
                }
                config.is_paused = paused;
            },
        }
        self.events.push(Event::PauseChanged { paused });
        proof {
            let after = before.after_set_paused(paused);
            assert(self@.events =~= after.events);
            assert(self@.campaigns =~= after.campaigns);
        }
        Ok(())
    }

    /// What `backer` gave to the campaign `campaign_id`, and the voting power
    /// that it carries: its integer square root.
    pub fn get_backer(&self, campaign_id: u32, backer: &Address) -> (r: Result<
        (i128, u64),
        ContractError,
    >)
        requires
            self.wf(),
        ensures
            r == self@.get_backer_result(campaign_id, backer@),
    {
        match self.campaigns.get(&campaign_id) {
            None => Err(ContractError::CampaignNotFound),
            Some(c) => {
                let amount = match c.backers.get(backer) {
                    Some(a) => a,
                    None => 0,
                };
                proof {
                    crate::address::lemma_map_of_dom(c.backers.entries@);
                    assert(amount == c@.contribution(backer@));
                    if amount == 0 {
                        lemma_sqrt_floor_is(0, 0);
                    }
                }
                let power = isqrt_wide(amount as u128) as u64;
                Ok((amount, power))
            },
        }
    }

    /// Hands out the transfer orders that the operations left, for the
    /// ledger to carry out, and keeps none.
    pub fn take_transfers(&mut self) -> (orders: Vec<Transfer>)
        requires
            old(self).wf(),
        ensures
            final(self).wf(),
            orders@.map_values(|t: Transfer| t@) == old(self)@.transfers,
            final(self)@ == (ContractView { transfers: Seq::empty(), ..old(self)@ }),
    {
        let mut orders: Vec<Transfer> = Vec::new();
        orders.append(&mut self.transfers);
        assert(orders@ =~= old(self).transfers@);
        assert(self@.transfers =~= Seq::empty());
        orders
    }

    /// Hands out the notifications that the operations left, to be sent
    /// out, and keeps none.
    pub fn take_events(&mut self) -> (events: Vec<Event>)
        requires
            old(self).wf(),
        ensures
            final(self).wf(),
            events@.map_values(|e: Event| e@) == old(self)@.events,
            final(self)@ == (ContractView { events: Seq::empty(), ..old(self)@ }),
    {
        let mut events: Vec<Event> = Vec::new();
        events.append(&mut self.events);
        assert(events@ =~= old(self).events@);
        assert(self@.events =~= Seq::empty());
        events
    }
}

} // verus!
