//! The records of the plain campaign platform: campaigns with milestones
//! voted one vote per backer, and skill tokens.

use crate::address::{Address, AddressMap};
use crate::escrow::types::{Party, PartyView};
use std::collections::HashMap;
use vstd::prelude::*;

verus! {

/// Why an operation of the platform was refused.
#[derive(Clone, Copy, Debug, PartialEq, Eq, Structural)]
pub enum ChainFundError {
    CampaignNotFound,
    MilestoneNotFound,
    InsufficientFunds,
    Unauthorized,
    CampaignNotActive,
    MilestoneNotPending,
    AlreadyVoted,
    InvalidAmount,
    CampaignEnded,
}

/// Where a campaign stands.
#[derive(Clone, Copy, Debug, PartialEq, Eq, Structural)]
pub enum CampaignStatus {
    Active,
    Funded,
    Completed,
    Cancelled,
}

/// Where a milestone stands.
#[derive(Clone, Copy, Debug, PartialEq, Eq, Structural)]
pub enum MilestoneStatus {
    Pending,
    Active,
    Completed,
    Rejected,
}

/// A milestone of a campaign, with the votes counted for and against it.
#[derive(Debug, PartialEq, Eq)]
pub struct Milestone {
    pub id: u32,
    pub title: String,
    pub description: String,
    pub amount: i128,
    pub status: MilestoneStatus,
    pub votes_for: u32,
    pub votes_against: u32,
    pub created_at: u64,
}

/// What a milestone is, as mathematics.
pub struct MilestoneView {
    pub id: nat,
    pub title: Seq<char>,
    pub description: Seq<char>,
    pub amount: int,
    pub status: MilestoneStatus,
    pub votes_for: nat,
    pub votes_against: nat,
    pub created_at: nat,
}

impl View for Milestone {
    type V = MilestoneView;

    open spec fn view(&self) -> MilestoneView {
        MilestoneView {
            id: self.id as nat,
            title: self.title@,
            description: self.description@,
            amount: self.amount as int,
            status: self.status,
            votes_for: self.votes_for as nat,
            votes_against: self.votes_against as nat,
            created_at: self.created_at as nat,
        }
    }
}

/// What a backer gave, and when they last gave.
#[derive(Clone, Copy, Debug, PartialEq, Eq)]
pub struct BackerInfo {
    pub amount: i128,
    pub timestamp: u64,
}

/// A campaign that backers back until its end date.
#[derive(Debug, PartialEq, Eq)]
pub struct Campaign {
    pub id: u64,
    pub creator: Address,
    pub title: String,
    pub description: String,
    pub goal_amount: i128,
    pub total_backed: i128,
    pub status: CampaignStatus,
    pub milestones: Vec<Milestone>,
    pub backers: AddressMap<BackerInfo>,
    pub created_at: u64,
    pub end_date: u64,
}

/// What a campaign is, as mathematics.
pub struct CampaignView {
    pub id: nat,
    pub creator: Seq<char>,
    pub title: Seq<char>,
    pub description: Seq<char>,
    pub goal_amount: int,
    pub total_backed: int,
    pub status: CampaignStatus,
    pub milestones: Seq<MilestoneView>,
    pub backers: Map<Seq<char>, BackerInfo>,
    pub created_at: nat,
    pub end_date: nat,
}

impl View for Campaign {
    type V = CampaignView;

    open spec fn view(&self) -> CampaignView {
        CampaignView {
            id: self.id as nat,
            creator: self.creator@,
            title: self.title@,
            description: self.description@,
            goal_amount: self.goal_amount as int,
            total_backed: self.total_backed as int,
            status: self.status,
            milestones: self.milestones@.map_values(|m: Milestone| m@),
            backers: self.backers@,
            created_at: self.created_at as nat,
            end_date: self.end_date as nat,
        }
    }
}

/// The vote of a backer on a milestone.
#[derive(Debug, PartialEq, Eq)]
pub struct Vote {
    pub voter: Address,
    pub milestone_id: u32,
    pub approve: bool,
    pub timestamp: u64,
}

/// A vote, kept with the campaign that it belongs to.
#[derive(Debug, PartialEq, Eq)]
pub struct VoteRecord {
    pub campaign_id: u64,
    pub vote: Vote,
}

/// What a recorded vote is, as mathematics.
pub struct VoteView {
    pub campaign_id: u64,
    pub milestone_id: u32,
    pub voter: Seq<char>,
    pub approve: bool,
    pub timestamp: nat,
}

impl View for VoteRecord {
    type V = VoteView;

    open spec fn view(&self) -> VoteView {
        VoteView {
            campaign_id: self.campaign_id,
            milestone_id: self.vote.milestone_id,
            voter: self.vote.voter@,
            approve: self.vote.approve,
            timestamp: self.vote.timestamp as nat,
        }
    }
}

/// A token that attests a skill.
#[derive(Debug, PartialEq, Eq)]
pub struct SkillNFT {
    pub token_id: u64,
    pub owner: Address,
    pub skill_score: u32,
    pub skill_level: String,
    pub minted_at: u64,
}

/// What a skill token is, as mathematics.
pub struct SkillView {
    pub token_id: nat,
    pub owner: Seq<char>,
    pub skill_score: nat,
    pub skill_level: Seq<char>,
    pub minted_at: nat,
}

impl View for SkillNFT {
    type V = SkillView;

    open spec fn view(&self) -> SkillView {
        SkillView {
            token_id: self.token_id as nat,
            owner: self.owner@,
            skill_score: self.skill_score as nat,
            skill_level: self.skill_level@,
            minted_at: self.minted_at as nat,
        }
    }
}

/// An order to move `amount` from `from` to `to`.
#[derive(Debug, PartialEq, Eq)]
pub struct Payment {
    pub from: Party,
    pub to: Party,
    pub amount: i128,
}

/// A payment order, as mathematics.
pub struct PaymentView {
    pub from: PartyView,
    pub to: PartyView,
    pub amount: int,
}

impl View for Payment {
    type V = PaymentView;

    open spec fn view(&self) -> PaymentView {
        PaymentView { from: self.from@, to: self.to@, amount: self.amount as int }
    }
}

/// The platform: its administrator once it is initialized, the campaigns
/// and the votes on their milestones, the skill tokens, and the payment
/// orders that are still to be carried out.
#[derive(Debug)]
pub struct ChainFundContract {
    pub admin: Option<Address>,
    pub campaign_count: u64,
    pub campaigns: HashMap<u64, Campaign>,
    pub votes: Vec<VoteRecord>,
    pub nft_count: u64,
    pub nfts: HashMap<u64, SkillNFT>,
    pub payments: Vec<Payment>,
}

/// What the platform is, as mathematics.
pub struct PlatformView {
    pub admin: Option<Seq<char>>,
    pub campaign_count: nat,
    pub campaigns: Map<u64, CampaignView>,
    pub votes: Seq<VoteView>,
    pub nft_count: nat,
    pub nfts: Map<u64, SkillView>,
    pub payments: Seq<PaymentView>,
}

impl View for ChainFundContract {
    type V = PlatformView;

    open spec fn view(&self) -> PlatformView {
        PlatformView {
            admin: match self.admin {
                Some(a) => Some(a@),
                None => None,
            },
            campaign_count: self.campaign_count as nat,
            campaigns: self.campaigns@.map_values(|c: Campaign| c@),
            votes: self.votes@.map_values(|v: VoteRecord| v@),
            nft_count: self.nft_count as nat,
            nfts: self.nfts@.map_values(|n: SkillNFT| n@),
            payments: self.payments@.map_values(|p: Payment| p@),
        }
    }
}

/// The campaigns of the platform.
pub struct CampaignContractImpl;

/// The votes on the milestones of the platform's campaigns.
pub struct VotingContractImpl;

/// The skill tokens of the platform.
pub struct NFTContractImpl;

} // verus!
