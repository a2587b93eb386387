//! The escrow as a whole, as a state machine over mathematical values: what
//! each operation answers, and what it makes of the escrow when it succeeds.
//! An operation that fails leaves the escrow as it was.

use crate::escrow::model::{all_positive, new_campaign, sum_requested};
use crate::escrow::types::{
    CampaignStatus, CampaignView, ConfigView, ContractError, ContractView, EventView,
    MilestoneSpecView, PartyView, SbtRole, TransferView, VerificationStatus,
};
use crate::math::{fee_of, sqrt_floor};
use vstd::prelude::*;

verus! {

/// The smallest goal that a campaign may have under the initial settings.
pub const DEFAULT_MIN_FUNDING: i128 = 10_000_000_000;

/// The platform's fee under the initial settings, in basis points.
pub const DEFAULT_PLATFORM_FEE_BPS: u32 = 250;

/// The time for which votes are taken under the initial settings, in seconds.
pub const DEFAULT_VOTING_PERIOD: u64 = 604_800;

/// The time that the oracle is given under the initial settings, in seconds.
pub const DEFAULT_AI_TIMEOUT: u64 = 86_400;

/// The settings of an escrow that was just initialized.
pub open spec fn initial_config(
    admin: Seq<char>,
    ai_oracle: Seq<char>,
    sbt_contract: Seq<char>,
) -> ConfigView {
    ConfigView {
        admin,
        ai_oracle,
        sbt_contract,
        min_funding: DEFAULT_MIN_FUNDING as int,
        platform_fee_bps: DEFAULT_PLATFORM_FEE_BPS as nat,
        voting_period: DEFAULT_VOTING_PERIOD as nat,
        ai_timeout: DEFAULT_AI_TIMEOUT as nat,
        is_paused: false,
    }
}

/// The answer that `error` stands for: the error, or else `value`.
pub open spec fn answer<T>(error: Option<ContractError>, value: T) -> Result<T, ContractError> {
    match error {
        Some(e) => Err(e),
        None => Ok(value),
    }
}

impl ContractView {
    /// What holds of the escrow at all times: it has a token exactly when it
    /// has settings, its fee is at most the whole, it holds no campaign
    /// before it is initialized, and every campaign is well formed and
    /// stored under its own id, which is below the next one.
    pub open spec fn wf(self) -> bool {
        &&& self.config is Some <==> self.token is Some
        &&& self.config is Some ==> self.config->0.platform_fee_bps <= 10000
        &&& self.config is None ==> self.next_id == 1 && self.campaigns == Map::<
            u32,
            CampaignView,
        >::empty()
        &&& self.next_id >= 1
        &&& forall|id: u32| #[trigger]
            self.campaigns.contains_key(id) ==> {
                &&& self.campaigns[id].wf()
                &&& self.campaigns[id].id == id
                &&& id < self.next_id
            }
    }

    /// The escrow with `c` in place of the campaign of the same id.
    pub open spec fn with_campaign(self, c: CampaignView) -> ContractView {
        ContractView { campaigns: self.campaigns.insert(c.id as u32, c), ..self }
    }

    /// The escrow with `orders` added to what the ledger has to carry out.
    pub open spec fn with_orders(self, orders: Seq<TransferView>) -> ContractView {
        ContractView { transfers: self.transfers + orders, ..self }
    }

    /// The escrow with `event` added to the notifications that go out.
    pub open spec fn with_event(self, event: EventView) -> ContractView {
        ContractView { events: self.events.push(event), ..self }
    }

    /// The answer to an initialization.
    pub open spec fn initialize_result(self) -> Result<(), ContractError> {
        if self.config is Some {
            Err(ContractError::CampaignAlreadyExists)
        } else {
            Ok(())
        }
    }

    /// The escrow once it is initialized at `now`.
    pub open spec fn after_initialize(
        self,
        admin: Seq<char>,
        ai_oracle: Seq<char>,
        sbt_contract: Seq<char>,
        token: Seq<char>,
        now: nat,
    ) -> ContractView {
        ContractView {
            config: Some(initial_config(admin, ai_oracle, sbt_contract)),
            token: Some(token),
            next_id: 1,
            ..self
        }.with_event(EventView::Initialized { admin, at: now })
    }

    /// The answer to the creation of a campaign with the goal `total_goal`
    /// and the milestones `specs`: the id of the new campaign, or why there
    /// is none.
    pub open spec fn create_campaign_result(
        self,
        total_goal: int,
        specs: Seq<MilestoneSpecView>,
    ) -> Result<u32, ContractError> {
        if self.config is None {
            Err(ContractError::InvalidInput)
        } else if self.config->0.is_paused {
            Err(ContractError::ContractPaused)
        } else if total_goal < self.config->0.min_funding {
            Err(ContractError::InvalidAmount)
        } else if specs.len() == 0 {
            Err(ContractError::InvalidInput)
        } else if !all_positive(specs) || sum_requested(specs, specs.len() as int) != total_goal {
            Err(ContractError::InvalidAmount)
        } else if self.token is None {
            Err(ContractError::InvalidInput)
        } else {
            Ok(self.next_id as u32)
        }
    }

    /// The escrow once the campaign was created at `now`.
    pub open spec fn after_create_campaign(
        self,
        creator: Seq<char>,
        title: Seq<char>,
        description: Seq<char>,
        ipfs_metadata: Seq<u8>,
        total_goal: int,
        specs: Seq<MilestoneSpecView>,
        now: nat,
    ) -> ContractView {
        ContractView {
            campaigns: self.campaigns.insert(
                self.next_id as u32,
                new_campaign(
                    self.next_id,
                    creator,
                    title,
                    description,
                    ipfs_metadata,
                    total_goal,
                    specs,
                    self.token->0,
                    now,
                ),
            ),
            next_id: self.next_id + 1,
            ..self
        }.with_event(
            EventView::CampaignCreated { campaign_id: self.next_id as u32, creator, total_goal },
        )
    }

    /// Why the campaign `id` cannot be closed by `caller`, if it cannot.
    pub open spec fn close_campaign_result(self, id: u32, caller: Seq<char>) -> Result<
        (),
        ContractError,
    > {
        if !self.campaigns.contains_key(id) {
            Err(ContractError::CampaignNotFound)
        } else if self.config is None {
            Err(ContractError::InvalidInput)
        } else if caller != self.campaigns[id].creator && caller != self.config->0.admin {
            Err(ContractError::Unauthorized)
        } else if !self.campaigns[id].all_released() {
            Err(ContractError::MilestoneNotReady)
        } else {
            Ok(())
        }
    }

    /// The escrow once the campaign `id` was closed at `now`.
    pub open spec fn after_close_campaign(self, id: u32, now: nat) -> ContractView {
        self.with_campaign(self.campaigns[id].after_close(now)).with_event(
            EventView::CampaignClosed { campaign_id: id, at: now },
        )
    }

    /// The answer to `amount` offered to the campaign `id`.
    pub open spec fn fund_campaign_result(self, id: u32, amount: int) -> Result<(), ContractError> {
        if amount <= 0 {
            Err(ContractError::InvalidAmount)
        } else if !self.campaigns.contains_key(id) {
            Err(ContractError::CampaignNotFound)
        } else {
            answer(self.campaigns[id].fund_error(amount), ())
        }
    }

    /// The escrow once `backer` gave `amount` to the campaign `id` at `now`:
    /// the campaign holds it, and the ledger is to move it into the escrow.
    pub open spec fn after_fund_campaign(
        self,
        id: u32,
        backer: Seq<char>,
        amount: int,
        now: nat,
    ) -> ContractView {
        let c = self.campaigns[id];
        self.with_campaign(c.after_fund(backer, amount, now)).with_orders(
            seq![
                TransferView {
                    token: c.token_address,
                    from: PartyView::Account(backer),
                    to: PartyView::Escrow,
                    amount,
                },
            ],
        ).with_event(
            EventView::Funded {
                campaign_id: id,
                backer,
                amount,
                funds_raised: c.funds_raised + amount,
            },
        )
    }

    /// The platform's fee on the release of the milestone `milestone` of the
    /// campaign `id`.
    pub open spec fn release_fee(self, id: u32, milestone: u32) -> int {
        fee_of(
            self.campaigns[id].milestones[milestone as int].amount,
            self.config->0.platform_fee_bps,
        )
    }

    /// The answer to the release of the milestone `milestone` of the campaign
    /// `id`: the creator's share, or why nothing is released.
    pub open spec fn release_funds_result(self, id: u32, milestone: u32) -> Result<
        i128,
        ContractError,
    > {
        if !self.campaigns.contains_key(id) {
            Err(ContractError::CampaignNotFound)
        } else if self.campaigns[id].release_error(milestone as nat) is Some {
            Err(self.campaigns[id].release_error(milestone as nat)->0)
        } else if self.config is None {
            Err(ContractError::InvalidInput)
        } else {
            Ok(
                (self.campaigns[id].milestones[milestone as int].amount - self.release_fee(
                    id,
                    milestone,
                )) as i128,
            )
        }
    }

    /// The orders that a release gives: the creator's share to the creator,
    /// and the fee to the administrator unless it is zero.
    pub open spec fn release_orders(self, id: u32, milestone: u32) -> Seq<TransferView> {
        let c = self.campaigns[id];
        let fee = self.release_fee(id, milestone);
        let to_creator = TransferView {
            token: c.token_address,
            from: PartyView::Escrow,
            to: PartyView::Account(c.creator),
            amount: c.milestones[milestone as int].amount - fee,
        };
        let to_admin = TransferView {
            token: c.token_address,
            from: PartyView::Escrow,
            to: PartyView::Account(self.config->0.admin),
            amount: fee,
        };
        if fee > 0 {
            seq![to_creator, to_admin]
        } else {
            seq![to_creator]
        }
    }

    /// The escrow once the milestone was released at `now`.
    pub open spec fn after_release_funds(self, id: u32, milestone: u32, now: nat) -> ContractView {
        self.with_campaign(self.campaigns[id].after_release(milestone as nat, now)).with_orders(
            self.release_orders(id, milestone),
        ).with_event(
            EventView::Released {
                campaign_id: id,
                milestone_id: milestone,
                creator_amount: self.campaigns[id].milestones[milestone as int].amount
                    - self.release_fee(id, milestone),
                fee: self.release_fee(id, milestone),
            },
        )
    }

    /// The answer to a refund of the backers of the campaign `id`, asked for
    /// by `admin`: the number of refunds, or why there is none.
    pub open spec fn refund_backers_result(self, id: u32, admin: Seq<char>) -> Result<
        u32,
        ContractError,
    > {
        if self.config is None {
            Err(ContractError::InvalidInput)
        } else if admin != self.config->0.admin {
            Err(ContractError::Unauthorized)
        } else if !self.campaigns.contains_key(id) {
            Err(ContractError::CampaignNotFound)
        } else {
            Ok(self.campaigns[id].refund_orders().len() as u32)
        }
    }

    /// The escrow once the backers of the campaign `id` were refunded.
    pub open spec fn after_refund_backers(self, id: u32) -> ContractView {
        self.with_campaign(self.campaigns[id].after_refund()).with_orders(
            self.campaigns[id].refund_orders(),
        ).with_event(
            EventView::Refunded {
                campaign_id: id,
                refund_count: self.campaigns[id].refund_orders().len(),
            },
        )
    }

    /// The answer to a proof handed in by `creator` for a milestone.
    pub open spec fn submit_proof_result(self, id: u32, milestone: u32, creator: Seq<char>) -> Result<
        (),
        ContractError,
    > {
        if !self.campaigns.contains_key(id) {
            Err(ContractError::CampaignNotFound)
        } else {
            answer(self.campaigns[id].proof_error(milestone as nat, creator), ())
        }
    }

    /// The escrow once the proof was handed in at `now`.
    pub open spec fn after_submit_proof(
        self,
        id: u32,
        milestone: u32,
        proof: Seq<u8>,
        now: nat,
    ) -> ContractView {
        self.with_campaign(self.campaigns[id].after_proof(milestone as nat, proof, now)).with_event(
            EventView::ProofSubmitted { campaign_id: id, milestone_id: milestone, ipfs_hash: proof },
        )
    }

    /// The answer to a verdict given by `oracle` on a milestone.
    pub open spec fn submit_ai_verdict_result(self, id: u32, milestone: u32, oracle: Seq<char>) -> Result<
        (),
        ContractError,
    > {
        if self.config is None {
            Err(ContractError::InvalidInput)
        } else if oracle != self.config->0.ai_oracle && oracle != self.config->0.admin {
            Err(ContractError::UnauthorizedAIOracle)
        } else if !self.campaigns.contains_key(id) {
            Err(ContractError::CampaignNotFound)
        } else {
            answer(self.campaigns[id].verdict_error(milestone as nat), ())
        }
    }

    /// The escrow once the verdict was recorded at `now`.
    pub open spec fn after_submit_ai_verdict(
        self,
        id: u32,
        milestone: u32,
        verdict: VerificationStatus,
        confidence: nat,
        now: nat,
    ) -> ContractView {
        self.with_campaign(
            self.campaigns[id].after_verdict(milestone as nat, verdict, confidence, now),
        ).with_event(
            EventView::VerdictSubmitted {
                campaign_id: id,
                milestone_id: milestone,
                status: verdict,
                confidence,
            },
        )
    }

    /// The answer to a vote of `voter` on a milestone: the voting power
    /// granted, or why the vote is not counted.
    pub open spec fn vote_result(self, id: u32, milestone: u32, voter: Seq<char>) -> Result<
        u64,
        ContractError,
    > {
        if !self.campaigns.contains_key(id) {
            Err(ContractError::CampaignNotFound)
        } else if self.campaigns[id].vote_error(milestone as nat, voter) is Some {
            Err(self.campaigns[id].vote_error(milestone as nat, voter)->0)
        } else if self.config is None {
            Err(ContractError::InvalidInput)
        } else {
            Ok(self.campaigns[id].voting_power(voter) as u64)
        }
    }

    /// The escrow once the vote was counted.
    pub open spec fn after_vote(
        self,
        id: u32,
        milestone: u32,
        voter: Seq<char>,
        approve: bool,
    ) -> ContractView {
        self.with_campaign(
            self.campaigns[id].after_vote(milestone as nat, voter, approve),
        ).with_event(
            EventView::Voted {
                campaign_id: id,
                milestone_id: milestone,
                voter,
                approve,
                voting_power: self.campaigns[id].voting_power(voter),
            },
        )
    }

    /// The answer to a request by `caller` for a reputation award for the
    /// campaign `id`.
    pub open spec fn award_sbt_result(self, id: u32, caller: Seq<char>) -> Result<
        (),
        ContractError,
    > {
        if !self.campaigns.contains_key(id) {
            Err(ContractError::CampaignNotFound)
        } else if self.config is None {
            Err(ContractError::InvalidInput)
        } else if caller != self.campaigns[id].creator && caller != self.config->0.admin {
            Err(ContractError::Unauthorized)
        } else if self.campaigns[id].status != CampaignStatus::Completed {
            Err(ContractError::CampaignNotActive)
        } else {
            Ok(())
        }
    }

    /// The escrow once the request for an award went out.
    pub open spec fn after_award_sbt(self, id: u32, recipient: Seq<char>, role: SbtRole) -> ContractView {
        self.with_event(EventView::SbtAwarded { campaign_id: id, recipient, role })
    }

    /// The answer to a change of the settings asked for by `admin`.
    pub open spec fn admin_result(self, admin: Seq<char>) -> Result<(), ContractError> {
        if self.config is None {
            Err(ContractError::InvalidInput)
        } else if admin != self.config->0.admin {
            Err(ContractError::Unauthorized)
        } else {
            Ok(())
        }
    }

    /// The escrow with `oracle` as its attestation oracle.
    pub open spec fn after_set_ai_oracle(self, oracle: Seq<char>) -> ContractView {
        ContractView {
            config: Some(ConfigView { ai_oracle: oracle, ..self.config->0 }),
            ..self
        }.with_event(EventView::OracleChanged { new_oracle: oracle })
    }

    /// The escrow paused, or going again.
    pub open spec fn after_set_paused(self, paused: bool) -> ContractView {
        ContractView {
            config: Some(ConfigView { is_paused: paused, ..self.config->0 }),
            ..self
        }.with_event(EventView::PauseChanged { paused })
    }

    /// What `backer` gave to the campaign `id`, and the voting power that it
    /// carries.
    pub open spec fn get_backer_result(self, id: u32, backer: Seq<char>) -> Result<
        (i128, u64),
        ContractError,
    > {
        if !self.campaigns.contains_key(id) {
            Err(ContractError::CampaignNotFound)
        } else {
            Ok(
                (
                    self.campaigns[id].contribution(backer) as i128,
                    sqrt_floor(self.campaigns[id].contribution(backer)) as u64,
                ),
            )
        }
    }
}

} // verus!
