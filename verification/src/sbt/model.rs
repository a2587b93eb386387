//! The reputation tokens as a state machine over mathematical values.

use crate::sbt::types::{
    role_value, ProfileView, SbtConfigView, SbtError, SbtRole, SbtView, TokenView,
};
use vstd::prelude::*;

verus! {

/// The role `role` occurs among `roles`.
pub open spec fn holds_role(roles: Seq<SbtRole>, role: SbtRole) -> bool {
    exists|i: int| 0 <= i < roles.len() && #[trigger] roles[i] == role
}

/// The profile that collects the first token, which goes to `recipient`.
pub open spec fn empty_profile(recipient: Seq<char>) -> ProfileView {
    ProfileView {
        address: recipient,
        tokens: Seq::empty(),
        total_reputation: 0,
        roles_held: Seq::empty(),
        first_token_at: 0,
        last_token_at: 0,
    }
}

impl SbtView {
    /// What holds of the reputation tokens at all times: before they are
    /// initialized there is nothing; each token is stored under its own id,
    /// which is below the next one; as many tokens were minted as ids were
    /// given out, and no more are active than were minted; and every token
    /// of the profile exists.
    pub open spec fn wf(self) -> bool {
        &&& self.next_id >= 1
        &&& self.config is None ==> self.next_id == 1 && self.profile is None && self.tokens
            == Map::<u64, TokenView>::empty()
        &&& self.config is Some ==> self.config->0.total_supply + 1 == self.next_id
            && self.config->0.active_supply <= self.config->0.total_supply
        &&& forall|id: u64| #[trigger]
            self.tokens.contains_key(id) ==> self.tokens[id].id == id && 1 <= id < self.next_id
        &&& self.profile is Some ==> forall|i: int|
            0 <= i < self.profile->0.tokens.len() ==> self.tokens.contains_key(
                #[trigger] self.profile->0.tokens[i],
            )
    }

    /// The profile as it is, or as it begins with `recipient`.
    pub open spec fn profile_for(self, recipient: Seq<char>) -> ProfileView {
        match self.profile {
            Some(p) => p,
            None => empty_profile(recipient),
        }
    }

    /// `who` may mint: `who` is the administrator or the escrow.
    pub open spec fn may_mint(self, who: Seq<char>) -> bool {
        self.config is Some && (who == self.config->0.admin || who == self.config->0.core_contract)
    }

    /// The token `id` is active, of the role `role` and for the campaign
    /// `campaign_id`.
    pub open spec fn matches(self, id: u64, role: SbtRole, campaign_id: nat) -> bool {
        self.tokens[id].role == role && self.tokens[id].campaign_id == campaign_id
            && self.tokens[id].is_active
    }

    /// The profile holds an active token of the role `role` for the campaign
    /// `campaign_id`.
    pub open spec fn has_duplicate(self, role: SbtRole, campaign_id: nat) -> bool {
        self.profile is Some && exists|i: int|
            0 <= i < self.profile->0.tokens.len() && self.matches(
                #[trigger] self.profile->0.tokens[i],
                role,
                campaign_id,
            )
    }

    /// The answer to the minting of a token by `caller`: the id of the new
    /// token, or why there is none.
    pub open spec fn mint_result(self, caller: Seq<char>, role: SbtRole, campaign_id: nat) -> Result<
        u64,
        SbtError,
    > {
        if self.config is None {
            Err(SbtError::NotInitialized)
        } else if !self.may_mint(caller) {
            Err(SbtError::Unauthorized)
        } else if self.config->0.is_paused {
            Err(SbtError::InvalidInput)
        } else if self.has_duplicate(role, campaign_id) {
            Err(SbtError::SbtAlreadyExists)
        } else {
            Ok(self.next_id as u64)
        }
    }

    /// The token that is minted next.
    pub open spec fn minted(
        self,
        caller: Seq<char>,
        recipient: Seq<char>,
        role: SbtRole,
        campaign_id: nat,
        metadata_uri: Seq<char>,
        now: nat,
    ) -> TokenView {
        TokenView {
            id: self.next_id,
            owner: recipient,
            role,
            campaign_id,
            metadata_uri,
            issued_at: now,
            issued_by: caller,
            is_active: true,
            revoked_at: 0,
            revocation_reason: Seq::empty(),
        }
    }

    /// The tokens once one was minted at `now`: the token exists, the profile
    /// holds it and its reputation, and one more is minted and active.
    pub open spec fn after_mint(
        self,
        caller: Seq<char>,
        recipient: Seq<char>,
        role: SbtRole,
        campaign_id: nat,
        metadata_uri: Seq<char>,
        now: nat,
    ) -> SbtView {
        let p = self.profile_for(recipient);
        SbtView {
            config: Some(
                SbtConfigView {
                    total_supply: self.config->0.total_supply + 1,
                    active_supply: self.config->0.active_supply + 1,
                    ..self.config->0
                },
            ),
            next_id: self.next_id + 1,
            tokens: self.tokens.insert(
                self.next_id as u64,
                self.minted(caller, recipient, role, campaign_id, metadata_uri, now),
            ),
            profile: Some(
                ProfileView {
                    tokens: p.tokens.push(self.next_id as u64),
                    total_reputation: p.total_reputation + role_value(role),
                    roles_held: if holds_role(p.roles_held, role) {
                        p.roles_held
                    } else {
                        p.roles_held.push(role)
                    },
                    first_token_at: if p.first_token_at == 0 {
                        now
                    } else {
                        p.first_token_at
                    },
                    last_token_at: now,
                    ..p
                },
            ),
        }
    }

    /// The ids and the reputation still fit their bits once a token of the
    /// role `role` is minted for `recipient`.
    pub open spec fn mint_fits(self, recipient: Seq<char>, role: SbtRole) -> bool {
        self.next_id < u64::MAX && self.profile_for(recipient).total_reputation + role_value(role)
            <= u32::MAX
    }

    /// The ids and the reputation still fit their bits once `count` tokens
    /// are minted, whatever their roles.
    pub open spec fn batch_fits(self, count: nat) -> bool {
        self.next_id + count <= u64::MAX && (match self.profile {
            Some(p) => p.total_reputation,
            None => 0,
        }) + 100 * count <= u32::MAX
    }

    /// The tokens once the first `n` of `recipients` were minted for, one
    /// after the other, those left out for whom minting was refused.
    pub open spec fn after_batch(
        self,
        caller: Seq<char>,
        recipients: Seq<(Seq<char>, SbtRole)>,
        campaign_id: nat,
        metadata_uri: Seq<char>,
        now: nat,
        n: nat,
    ) -> SbtView
        decreases n,
    {
        if n == 0 {
            self
        } else {
            let s = self.after_batch(
                caller,
                recipients,
                campaign_id,
                metadata_uri,
                now,
                (n - 1) as nat,
            );
            let (recipient, role) = recipients[n - 1];
            if s.mint_result(caller, role, campaign_id) is Ok {
                s.after_mint(caller, recipient, role, campaign_id, metadata_uri, now)
            } else {
                s
            }
        }
    }

    /// The ids of the tokens minted for the first `n` of `recipients`.
    pub open spec fn batch_ids(
        self,
        caller: Seq<char>,
        recipients: Seq<(Seq<char>, SbtRole)>,
        campaign_id: nat,
        metadata_uri: Seq<char>,
        now: nat,
        n: nat,
    ) -> Seq<u64>
        decreases n,
    {
        if n == 0 {
            Seq::empty()
        } else {
            let s = self.after_batch(
                caller,
                recipients,
                campaign_id,
                metadata_uri,
                now,
                (n - 1) as nat,
            );
            let ids = self.batch_ids(
                caller,
                recipients,
                campaign_id,
                metadata_uri,
                now,
                (n - 1) as nat,
            );
            let (recipient, role) = recipients[n - 1];
            match s.mint_result(caller, role, campaign_id) {
                Ok(id) => ids.push(id),
                Err(_) => ids,
            }
        }
    }

    /// The answer to a batch of mintings asked for by `caller`.
    pub open spec fn batch_result(self, caller: Seq<char>) -> Result<(), SbtError> {
        if self.config is None {
            Err(SbtError::NotInitialized)
        } else if !self.may_mint(caller) {
            Err(SbtError::Unauthorized)
        } else {
            Ok(())
        }
    }

    /// The answer to the revocation of the token `id` by `admin`.
    pub open spec fn revoke_result(self, admin: Seq<char>, id: u64) -> Result<(), SbtError> {
        if self.config is None {
            Err(SbtError::NotInitialized)
        } else if admin != self.config->0.admin {
            Err(SbtError::Unauthorized)
        } else if !self.tokens.contains_key(id) {
            Err(SbtError::SbtNotFound)
        } else if !self.tokens[id].is_active {
            Err(SbtError::SbtRevoked)
        } else if self.profile is None {
            Err(SbtError::SbtNotFound)
        } else {
            Ok(())
        }
    }

    /// The tokens once the token `id` was revoked at `now` for `reason`: it
    /// is no longer active, the profile loses its reputation, as far as it
    /// has any, and one less is active.
    pub open spec fn after_revoke(self, id: u64, reason: Seq<char>, now: nat) -> SbtView {
        let worth = role_value(self.tokens[id].role);
        SbtView {
            config: Some(
                SbtConfigView {
                    active_supply: if self.config->0.active_supply >= 1 {
                        (self.config->0.active_supply - 1) as nat
                    } else {
                        0
                    },
                    ..self.config->0
                },
            ),
            tokens: self.tokens.insert(
                id,
                TokenView {
                    is_active: false,
                    revoked_at: now,
                    revocation_reason: reason,
                    ..self.tokens[id]
                },
            ),
            profile: Some(
                ProfileView {
                    total_reputation: if self.profile->0.total_reputation >= worth {
                        (self.profile->0.total_reputation - worth) as nat
                    } else {
                        0
                    },
                    ..self.profile->0
                },
            ),
            ..self
        }
    }

    /// The answer to a change of the settings asked for by `admin`.
    pub open spec fn admin_result(self, admin: Seq<char>) -> Result<(), SbtError> {
        if self.config is None {
            Err(SbtError::NotInitialized)
        } else if admin != self.config->0.admin {
            Err(SbtError::Unauthorized)
        } else {
            Ok(())
        }
    }

    /// The tokens of the profile, in the order in which they were minted.
    pub open spec fn profile_tokens(self) -> Seq<TokenView> {
        match self.profile {
            Some(p) => Seq::new(p.tokens.len(), |i: int| self.tokens[p.tokens[i]]),
            None => Seq::empty(),
        }
    }

    /// The tokens for the campaign `campaign_id` among those with the ids
    /// from 1 to `n`, by id.
    pub open spec fn campaign_tokens(self, campaign_id: nat, n: nat) -> Seq<TokenView>
        decreases n,
    {
        if n == 0 {
            Seq::empty()
        } else {
            let before = self.campaign_tokens(campaign_id, (n - 1) as nat);
            if self.tokens.contains_key(n as u64) && self.tokens[n as u64].campaign_id
                == campaign_id {
                before.push(self.tokens[n as u64])
            } else {
                before
            }
        }
    }
}

} // verus!
