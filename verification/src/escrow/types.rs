//! The records of the escrow: campaigns, their milestones, the configuration,
//! and the transfer orders handed to the value ledger.

use crate::address::{Address, AddressMap};
use std::collections::HashMap;
use vstd::prelude::*;

verus! {

/// Why an operation of the escrow was refused.
#[derive(Clone, Copy, Debug, PartialEq, Eq, Structural)]
pub enum ContractError {
    CampaignNotFound,
    CampaignNotActive,
    CampaignAlreadyExists,
    MilestoneNotFound,
    MilestoneAlreadyReleased,
    MilestoneNotReady,
    ProofAlreadySubmitted,
    InvalidAmount,
    FundingGoalExceeded,
    InsufficientFunds,
    AlreadyVoted,
    VotingNotOpen,
    NotABacker,
    AIVerificationPending,
    AIVerificationFailed,
    UnauthorizedAIOracle,
    Unauthorized,
    NotCreator,
    InvalidInput,
    ContractPaused,
}

/// The verdict of the attestation oracle on a milestone's proof.
#[derive(Clone, Copy, Debug, PartialEq, Eq, Structural)]
pub enum VerificationStatus {
    NotSubmitted,
    Pending,
    Completed,
    Partial,
    Suspicious,
    Rejected,
}

/// Where a campaign stands.
#[derive(Clone, Copy, Debug, PartialEq, Eq, Structural)]
pub enum CampaignStatus {
    Draft,
    Active,
    Funded,
    Completed,
    Failed,
    Cancelled,
}

/// Where a milestone stands.
#[derive(Clone, Copy, Debug, PartialEq, Eq, Structural)]
pub enum MilestoneStatus {
    Pending,
    InProgress,
    ProofSubmitted,
    AIVerified,
    VotingOpen,
    Approved,
    Released,
    Disputed,
    Rejected,
}

/// The role for which a reputation award is requested.
#[derive(Clone, Copy, Debug, PartialEq, Eq, Structural)]
pub enum SbtRole {
    Creator,
    Backer,
    Developer,
    Designer,
    Tester,
    Mentor,
    Validator,
}

/// The reference to a document held elsewhere: thirty-two bytes, all zero
/// while nothing is referred to.
pub type Digest = [u8; 32];

/// A funding tranche, released on conditions of its own.
#[derive(Debug, PartialEq, Eq)]
pub struct Milestone {
    pub id: u32,
    pub title: String,
    pub description: String,
    pub amount: i128,
    pub ipfs_proof: Digest,
    pub ai_verdict: VerificationStatus,
    pub ai_confidence: u32,
    pub votes_for: u64,
    pub votes_against: u64,
    pub voters: AddressMap<i64>,
    pub status: MilestoneStatus,
    pub proof_submitted_at: u64,
    pub verified_at: u64,
    pub released_at: u64,
}

/// What a milestone is, as mathematics.
pub struct MilestoneView {
    pub id: nat,
    pub title: Seq<char>,
    pub description: Seq<char>,
    pub amount: int,
    pub ipfs_proof: Seq<u8>,
    pub ai_verdict: VerificationStatus,
    pub ai_confidence: nat,
    pub votes_for: nat,
    pub votes_against: nat,
    pub voters: Map<Seq<char>, int>,
    pub status: MilestoneStatus,
    pub proof_submitted_at: nat,
    pub verified_at: nat,
    pub released_at: nat,
}

impl View for Milestone {
    type V = MilestoneView;

    open spec fn view(&self) -> MilestoneView {
        MilestoneView {
            id: self.id as nat,
            title: self.title@,
            description: self.description@,
            amount: self.amount as int,
            ipfs_proof: self.ipfs_proof@,
            ai_verdict: self.ai_verdict,
            ai_confidence: self.ai_confidence as nat,
            votes_for: self.votes_for as nat,
            votes_against: self.votes_against as nat,
            voters: self.voters@.map_values(|w: i64| w as int),
            status: self.status,
            proof_submitted_at: self.proof_submitted_at as nat,
            verified_at: self.verified_at as nat,
            released_at: self.released_at as nat,
        }
    }
}

/// What a new campaign asks for one of its milestones, as mathematics: a
/// title, a description and an amount.
pub struct MilestoneSpecView {
    pub title: Seq<char>,
    pub description: Seq<char>,
    pub amount: int,
}

/// The requests that a list of triples of title, description and amount
/// stands for.
pub open spec fn requests(configs: Seq<(String, String, i128)>) -> Seq<MilestoneSpecView> {
    Seq::new(
        configs.len(),
        |i: int|
            MilestoneSpecView {
                title: configs[i].0@,
                description: configs[i].1@,
                amount: configs[i].2 as int,
            },
    )
}

/// A crowdfunding campaign: its schedule of milestones, what its backers
/// gave, and what of it is still held in escrow.
#[derive(Debug, PartialEq, Eq)]
pub struct Campaign {
    pub id: u32,
    pub creator: Address,
    pub title: String,
    pub description: String,
    pub ipfs_metadata: Digest,
    pub total_goal: i128,
    pub funds_raised: i128,
    pub funds_released: i128,
    pub funds_locked: i128,
    pub token_address: Address,
    pub milestones: Vec<Milestone>,
    pub backers: AddressMap<i128>,
    pub backer_count: u32,
    pub status: CampaignStatus,
    pub created_at: u64,
    pub funded_at: u64,
    pub completed_at: u64,
    pub current_milestone: u32,
}

/// What a campaign is, as mathematics.
pub struct CampaignView {
    pub id: nat,
    pub creator: Seq<char>,
    pub title: Seq<char>,
    pub description: Seq<char>,
    pub ipfs_metadata: Seq<u8>,
    pub total_goal: int,
    pub funds_raised: int,
    pub funds_released: int,
    pub funds_locked: int,
    pub token_address: Seq<char>,
    pub milestones: Seq<MilestoneView>,
    pub backers: Map<Seq<char>, int>,
    pub backer_order: Seq<Seq<char>>,
    pub backer_count: nat,
    pub status: CampaignStatus,
    pub created_at: nat,
    pub funded_at: nat,
    pub completed_at: nat,
    pub current_milestone: nat,
}

impl View for Campaign {
    type V = CampaignView;

    open spec fn view(&self) -> CampaignView {
        CampaignView {
            id: self.id as nat,
            creator: self.creator@,
            title: self.title@,
            description: self.description@,
            ipfs_metadata: self.ipfs_metadata@,
            total_goal: self.total_goal as int,
            funds_raised: self.funds_raised as int,
            funds_released: self.funds_released as int,
            funds_locked: self.funds_locked as int,
            token_address: self.token_address@,
            milestones: self.milestones@.map_values(|m: Milestone| m@),
            backers: self.backers@.map_values(|a: i128| a as int),
            backer_order: self.backers.keys(),
            backer_count: self.backer_count as nat,
            status: self.status,
            created_at: self.created_at as nat,
            funded_at: self.funded_at as nat,
            completed_at: self.completed_at as nat,
            current_milestone: self.current_milestone as nat,
        }
    }
}

/// The administrative settings of the escrow.
#[derive(Debug, PartialEq, Eq)]
pub struct ContractConfig {
    pub admin: Address,
    pub ai_oracle: Address,
    pub sbt_contract: Address,
    pub min_funding: i128,
    pub platform_fee_bps: u32,
    pub voting_period: u64,
    pub ai_timeout: u64,
    pub is_paused: bool,
}

/// What the settings are, as mathematics.
pub struct ConfigView {
    pub admin: Seq<char>,
    pub ai_oracle: Seq<char>,
    pub sbt_contract: Seq<char>,
    pub min_funding: int,
    pub platform_fee_bps: nat,
    pub voting_period: nat,
    pub ai_timeout: nat,
    pub is_paused: bool,
}

impl View for ContractConfig {
    type V = ConfigView;

    open spec fn view(&self) -> ConfigView {
        ConfigView {
            admin: self.admin@,
            ai_oracle: self.ai_oracle@,
            sbt_contract: self.sbt_contract@,
            min_funding: self.min_funding as int,
            platform_fee_bps: self.platform_fee_bps as nat,
            voting_period: self.voting_period as nat,
            ai_timeout: self.ai_timeout as nat,
            is_paused: self.is_paused,
        }
    }
}

/// One side of a transfer: the escrow itself, or an account.
#[derive(Debug, PartialEq, Eq)]
pub enum Party {
    Escrow,
    Account(Address),
}

/// One side of a transfer, as mathematics.
pub enum PartyView {
    Escrow,
    Account(Seq<char>),
}

impl View for Party {
    type V = PartyView;

    open spec fn view(&self) -> PartyView {
        match self {
            Party::Escrow => PartyView::Escrow,
            Party::Account(a) => PartyView::Account(a@),
        }
    }
}

/// An order to the value ledger: move `amount` of `token` from `from` to `to`.
#[derive(Debug, PartialEq, Eq)]
pub struct Transfer {
    pub token: Address,
    pub from: Party,
    pub to: Party,
    pub amount: i128,
}

/// A transfer order, as mathematics.
pub struct TransferView {
    pub token: Seq<char>,
    pub from: PartyView,
    pub to: PartyView,
    pub amount: int,
}

impl View for Transfer {
    type V = TransferView;

    open spec fn view(&self) -> TransferView {
        TransferView { token: self.token@, from: self.from@, to: self.to@, amount: self.amount as int }
    }
}

/// The notification that an operation leaves for those who watch the
/// escrow: the indexers, the attestation service and the reputation
/// subsystem.
#[derive(Debug, PartialEq, Eq)]
pub enum Event {
    Initialized { admin: Address, at: u64 },
    CampaignCreated { campaign_id: u32, creator: Address, total_goal: i128 },
    CampaignClosed { campaign_id: u32, at: u64 },
    Funded { campaign_id: u32, backer: Address, amount: i128, funds_raised: i128 },
    Released { campaign_id: u32, milestone_id: u32, creator_amount: i128, fee: i128 },
    Refunded { campaign_id: u32, refund_count: u32 },
    ProofSubmitted { campaign_id: u32, milestone_id: u32, ipfs_hash: Digest },
    VerdictSubmitted {
        campaign_id: u32,
        milestone_id: u32,
        status: VerificationStatus,
        confidence: u32,
    },
    Voted { campaign_id: u32, milestone_id: u32, voter: Address, approve: bool, voting_power: u64 },
    SbtAwarded { campaign_id: u32, recipient: Address, role: SbtRole },
    OracleChanged { new_oracle: Address },
    PauseChanged { paused: bool },
}

/// A notification, as mathematics.
pub enum EventView {
    Initialized { admin: Seq<char>, at: nat },
    CampaignCreated { campaign_id: u32, creator: Seq<char>, total_goal: int },
    CampaignClosed { campaign_id: u32, at: nat },
    Funded { campaign_id: u32, backer: Seq<char>, amount: int, funds_raised: int },
    Released { campaign_id: u32, milestone_id: u32, creator_amount: int, fee: int },
    Refunded { campaign_id: u32, refund_count: nat },
    ProofSubmitted { campaign_id: u32, milestone_id: u32, ipfs_hash: Seq<u8> },
    VerdictSubmitted {
        campaign_id: u32,
        milestone_id: u32,
        status: VerificationStatus,
        confidence: nat,
    },
    Voted { campaign_id: u32, milestone_id: u32, voter: Seq<char>, approve: bool, voting_power: nat },
    SbtAwarded { campaign_id: u32, recipient: Seq<char>, role: SbtRole },
    OracleChanged { new_oracle: Seq<char> },
    PauseChanged { paused: bool },
}

impl View for Event {
    type V = EventView;

    open spec fn view(&self) -> EventView {
        match self {
            Event::Initialized { admin, at } => EventView::Initialized {
                admin: admin@,
                at: *at as nat,
            },
            Event::CampaignCreated { campaign_id, creator, total_goal } => EventView::CampaignCreated {
                campaign_id: *campaign_id,
                creator: creator@,
                total_goal: *total_goal as int,
            },
            Event::CampaignClosed { campaign_id, at } => EventView::CampaignClosed {
                campaign_id: *campaign_id,
                at: *at as nat,
            },
            Event::Funded { campaign_id, backer, amount, funds_raised } => EventView::Funded {
                campaign_id: *campaign_id,
                backer: backer@,
                amount: *amount as int,
                funds_raised: *funds_raised as int,
            },
            Event::Released { campaign_id, milestone_id, creator_amount, fee } => EventView::Released {
                campaign_id: *campaign_id,
                milestone_id: *milestone_id,
                creator_amount: *creator_amount as int,
                fee: *fee as int,
            },
            Event::Refunded { campaign_id, refund_count } => EventView::Refunded {
                campaign_id: *campaign_id,
                refund_count: *refund_count as nat,
            },
            Event::ProofSubmitted { campaign_id, milestone_id, ipfs_hash } => EventView::ProofSubmitted {
                campaign_id: *campaign_id,
                milestone_id: *milestone_id,
                ipfs_hash: ipfs_hash@,
            },
            Event::VerdictSubmitted {
                campaign_id,
                milestone_id,
                status,
                confidence,
            } => EventView::VerdictSubmitted {
                campaign_id: *campaign_id,
                milestone_id: *milestone_id,
                status: *status,
                confidence: *confidence as nat,
            },
            Event::Voted { campaign_id, milestone_id, voter, approve, voting_power } => EventView::Voted {
                campaign_id: *campaign_id,
                milestone_id: *milestone_id,
                voter: voter@,
                approve: *approve,
                voting_power: *voting_power as nat,
            },
            Event::SbtAwarded { campaign_id, recipient, role } => EventView::SbtAwarded {
                campaign_id: *campaign_id,
                recipient: recipient@,
                role: *role,
            },
            Event::OracleChanged { new_oracle } => EventView::OracleChanged {
                new_oracle: new_oracle@,
            },
            Event::PauseChanged { paused } => EventView::PauseChanged { paused: *paused },
        }
    }
}

/// The escrow: its settings once it is initialized, the token it holds, the
/// id of the next campaign, the campaigns by id, the transfer orders that
/// the value ledger has still to carry out, and the notifications that are
/// still to go out.
#[derive(Debug)]
pub struct ChainFundContract {
    pub config: Option<ContractConfig>,
    pub token: Option<Address>,
    pub next_id: u32,
    pub campaigns: HashMap<u32, Campaign>,
    pub transfers: Vec<Transfer>,
    pub events: Vec<Event>,
}

/// What the escrow is, as mathematics.
pub struct ContractView {
    pub config: Option<ConfigView>,
    pub token: Option<Seq<char>>,
    pub next_id: nat,
    pub campaigns: Map<u32, CampaignView>,
    pub transfers: Seq<TransferView>,
    pub events: Seq<EventView>,
}

impl View for ChainFundContract {
    type V = ContractView;

    open spec fn view(&self) -> ContractView {
        ContractView {
            config: match self.config {
                Some(c) => Some(c@),
                None => None,
            },
            token: match self.token {
                Some(t) => Some(t@),
                None => None,
            },
            next_id: self.next_id as nat,
            campaigns: self.campaigns@.map_values(|c: Campaign| c@),
            transfers: self.transfers@.map_values(|t: Transfer| t@),
            events: self.events@.map_values(|e: Event| e@),
        }
    }
}

} // verus!
