//! The records of the reputation tokens: the tokens, the profile that
//! collects them, and the settings.

use crate::address::Address;
use std::collections::HashMap;
use vstd::prelude::*;

verus! {

/// Why an operation on the reputation tokens was refused.
#[derive(Clone, Copy, Debug, PartialEq, Eq, Structural)]
pub enum SbtError {
    NotInitialized,
    AlreadyInitialized,
    Unauthorized,
    InvalidInput,
    SbtNotFound,
    SbtAlreadyExists,
    SbtRevoked,
    TransferNotAllowed,
    InvalidRole,
    CampaignNotFound,
}

/// The kind of reputation that a token stands for.
#[derive(Clone, Copy, Debug, PartialEq, Eq, Structural)]
pub enum SbtRole {
    Creator,
    Backer,
    SuperBacker,
    Developer,
    Designer,
    Tester,
    Mentor,
    Validator,
    Ambassador,
    Pioneer,
}

/// The reputation that a token of the role `role` is worth.
pub open spec fn role_value(role: SbtRole) -> nat {
    match role {
        SbtRole::Creator => 100,
        SbtRole::Backer => 10,
        SbtRole::SuperBacker => 50,
        SbtRole::Developer => 30,
        SbtRole::Designer => 25,
        SbtRole::Tester => 20,
        SbtRole::Mentor => 40,
        SbtRole::Validator => 15,
        SbtRole::Ambassador => 75,
        SbtRole::Pioneer => 60,
    }
}

impl SbtRole {
    /// The reputation that a token of this role is worth.
    pub fn reputation_value(&self) -> (r: u32)
        ensures
            r == role_value(*self),
            10 <= r <= 100,
    {
        match self {
            SbtRole::Creator => 100,
            SbtRole::Backer => 10,
            SbtRole::SuperBacker => 50,
            SbtRole::Developer => 30,
            SbtRole::Designer => 25,
            SbtRole::Tester => 20,
            SbtRole::Mentor => 40,
            SbtRole::Validator => 15,
            SbtRole::Ambassador => 75,
            SbtRole::Pioneer => 60,
        }
    }
}

/// A reputation token: bound to its owner for good, and revocable.
#[derive(Debug, PartialEq, Eq)]
pub struct SoulBoundToken {
    pub id: u64,
    pub owner: Address,
    pub role: SbtRole,
    pub campaign_id: u32,
    pub metadata_uri: String,
    pub issued_at: u64,
    pub issued_by: Address,
    pub is_active: bool,
    pub revoked_at: u64,
    pub revocation_reason: String,
}

/// What a token is, as mathematics.
pub struct TokenView {
    pub id: nat,
    pub owner: Seq<char>,
    pub role: SbtRole,
    pub campaign_id: nat,
    pub metadata_uri: Seq<char>,
    pub issued_at: nat,
    pub issued_by: Seq<char>,
    pub is_active: bool,
    pub revoked_at: nat,
    pub revocation_reason: Seq<char>,
}

impl View for SoulBoundToken {
    type V = TokenView;

    open spec fn view(&self) -> TokenView {
        TokenView {
            id: self.id as nat,
            owner: self.owner@,
            role: self.role,
            campaign_id: self.campaign_id as nat,
            metadata_uri: self.metadata_uri@,
            issued_at: self.issued_at as nat,
            issued_by: self.issued_by@,
            is_active: self.is_active,
            revoked_at: self.revoked_at as nat,
            revocation_reason: self.revocation_reason@,
        }
    }
}

impl Clone for SoulBoundToken {
    fn clone(&self) -> (r: Self)
        ensures
            r == *self,
    {
        SoulBoundToken {
            id: self.id,
            owner: self.owner.clone(),
            role: self.role,
            campaign_id: self.campaign_id,
            metadata_uri: self.metadata_uri.clone(),
            issued_at: self.issued_at,
            issued_by: self.issued_by.clone(),
            is_active: self.is_active,
            revoked_at: self.revoked_at,
            revocation_reason: self.revocation_reason.clone(),
        }
    }
}

/// The collection of tokens and the reputation that they add up to.
#[derive(Debug, PartialEq, Eq)]
pub struct UserProfile {
    pub address: Address,
    pub tokens: Vec<u64>,
    pub total_reputation: u32,
    pub roles_held: Vec<SbtRole>,
    pub first_token_at: u64,
    pub last_token_at: u64,
}

/// What a profile is, as mathematics.
pub struct ProfileView {
    pub address: Seq<char>,
    pub tokens: Seq<u64>,
    pub total_reputation: nat,
    pub roles_held: Seq<SbtRole>,
    pub first_token_at: nat,
    pub last_token_at: nat,
}

impl View for UserProfile {
    type V = ProfileView;

    open spec fn view(&self) -> ProfileView {
        ProfileView {
            address: self.address@,
            tokens: self.tokens@,
            total_reputation: self.total_reputation as nat,
            roles_held: self.roles_held@,
            first_token_at: self.first_token_at as nat,
            last_token_at: self.last_token_at as nat,
        }
    }
}

/// The settings of the reputation tokens, with the counts of what was
/// minted and of what is still active.
#[derive(Debug, PartialEq, Eq)]
pub struct SbtConfig {
    pub admin: Address,
    pub core_contract: Address,
    pub name: String,
    pub symbol: String,
    pub total_supply: u64,
    pub active_supply: u64,
    pub is_paused: bool,
}

/// What the settings are, as mathematics.
pub struct SbtConfigView {
    pub admin: Seq<char>,
    pub core_contract: Seq<char>,
    pub name: Seq<char>,
    pub symbol: Seq<char>,
    pub total_supply: nat,
    pub active_supply: nat,
    pub is_paused: bool,
}

impl View for SbtConfig {
    type V = SbtConfigView;

    open spec fn view(&self) -> SbtConfigView {
        SbtConfigView {
            admin: self.admin@,
            core_contract: self.core_contract@,
            name: self.name@,
            symbol: self.symbol@,
            total_supply: self.total_supply as nat,
            active_supply: self.active_supply as nat,
            is_paused: self.is_paused,
        }
    }
}

/// The reputation tokens: the settings once they are initialized, the id of
/// the next token, the tokens by id, and the one profile that collects them.
#[derive(Debug)]
pub struct ChainFundSbtContract {
    pub config: Option<SbtConfig>,
    pub next_id: u64,
    pub tokens: HashMap<u64, SoulBoundToken>,
    pub profile: Option<UserProfile>,
}

/// What the reputation tokens are, as mathematics.
pub struct SbtView {
    pub config: Option<SbtConfigView>,
    pub next_id: nat,
    pub tokens: Map<u64, TokenView>,
    pub profile: Option<ProfileView>,
}

impl View for ChainFundSbtContract {
    type V = SbtView;

    open spec fn view(&self) -> SbtView {
        SbtView {
            config: match self.config {
                Some(c) => Some(c@),
                None => None,
            },
            next_id: self.next_id as nat,
            tokens: self.tokens@.map_values(|t: SoulBoundToken| t@),
            profile: match self.profile {
                Some(p) => Some(p@),
                None => None,
            },
        }
    }
}

} // verus!
