//! The operations on the reputation tokens.
//!
//! As with the escrow, whoever runs them checks the caller's authorization
//! first and hands in the time.

use crate::address::Address;
use crate::sbt::model::holds_role;
use crate::sbt::types::{
    ChainFundSbtContract, SbtConfig, SbtError, SbtRole, SbtView, SoulBoundToken, TokenView,
    UserProfile,
};
use std::collections::HashMap;
use vstd::prelude::*;

verus! {

/// The principals and roles that a list of recipients stands for.
pub open spec fn recipients_view(recipients: Seq<(Address, SbtRole)>) -> Seq<(Seq<char>, SbtRole)> {
    Seq::new(recipients.len(), |i: int| (recipients[i].0@, recipients[i].1))
}

/// Some token of `tokens` has the id `id`.
pub open spec fn has_token(tokens: Seq<SoulBoundToken>, id: u64) -> bool {
    exists|i: int| 0 <= i < tokens.len() && (#[trigger] tokens[i]).id == id
}

/// Whether `role` occurs among `roles`.
pub fn role_is_held(roles: &Vec<SbtRole>, role: SbtRole) -> (r: bool)
    ensures
        r == holds_role(roles@, role),
{
    let n = roles.len();
    let mut i: usize = 0;
    while i < n
        invariant
            i <= n,
            n == roles@.len(),
            forall|j: int| 0 <= j < i ==> roles@[j] != role,
        decreases n - i,
    {
        if roles[i] == role {
            return true;
        }
        i += 1;
    }
    false
}

impl ChainFundSbtContract {
    /// The reputation tokens are well formed.
    pub open spec fn wf(&self) -> bool {
        self@.wf()
    }

    /// Reputation tokens that are not initialized yet.
    pub fn new() -> (r: Self)
        ensures
            r.wf(),
            r@.config is None,
            r@.profile is None,
            r@.next_id == 1,
            r@.tokens == Map::<u64, TokenView>::empty(),
    {
        let r = ChainFundSbtContract {
            config: None,
            next_id: 1,
            tokens: HashMap::new(),
            profile: None,
        };
        assert(r@.tokens =~= Map::empty());
        r
    }

    /// What was kept of the tokens can be the tokens again: without settings
    /// there is nothing; as many tokens were minted as ids were given out,
    /// and no more are active; each token has an id of its own, from 1 up to
    /// below the next id; and every token of the profile is among them.
    pub open spec fn restorable(
        config: Option<SbtConfig>,
        next_id: u64,
        tokens: Seq<SoulBoundToken>,
        profile: Option<UserProfile>,
    ) -> bool {
        &&& next_id >= 1
        &&& config is None ==> next_id == 1 && profile is None && tokens.len() == 0
        &&& config is Some ==> config->0.total_supply + 1 == next_id && config->0.active_supply
            <= config->0.total_supply
        &&& forall|i: int| 0 <= i < tokens.len() ==> 1 <= (#[trigger] tokens[i]).id < next_id
        &&& forall|i: int, j: int|
            0 <= i < tokens.len() && 0 <= j < tokens.len() && i != j ==> (#[trigger] tokens[i]).id
                != (#[trigger] tokens[j]).id
        &&& profile is Some ==> forall|k: int|
            0 <= k < profile->0.tokens@.len() ==> has_token(tokens, #[trigger] profile->0.tokens@[k])
    }

    /// The tokens that were kept as these settings, this next id, these
    /// tokens and this profile; nothing, where they cannot be the tokens.
    #[verifier::loop_isolation(false)]
    pub fn restore(
        config: Option<SbtConfig>,
        next_id: u64,
        tokens: Vec<SoulBoundToken>,
        profile: Option<UserProfile>,
    ) -> (r: Option<Self>)
        ensures
            r is Some <==> Self::restorable(config, next_id, tokens@, profile),
            r is Some ==> {
                &&& r->0.wf()
                &&& r->0.config == config
                &&& r->0.next_id == next_id
                &&& r->0.profile == profile
                &&& forall|i: int|
                    0 <= i < tokens@.len() ==> r->0.tokens@.contains_key(
                        (#[trigger] tokens@[i]).id,
                    ) && r->0.tokens@[tokens@[i].id] == tokens@[i]
                &&& forall|id: u64| #[trigger]
                    r->0.tokens@.contains_key(id) ==> exists|i: int|
                        0 <= i < tokens@.len() && (#[trigger] tokens@[i]).id == id
            },
    {
        let ghost all = tokens@;
        if next_id < 1 {
            return None;
        }
        match &config {
            Some(c) => {
                if c.total_supply != next_id - 1 || c.active_supply > c.total_supply {
                    return None;
                }
            },
            None => {
                if next_id != 1 || profile.is_some() || tokens.len() != 0 {
                    return None;
                }
            },
        }
        let mut rest = tokens;
        let mut kept: HashMap<u64, SoulBoundToken> = HashMap::new();
        while rest.len() > 0
            invariant
                rest@.len() <= all.len(),
                rest@ == all.subrange(0, rest@.len() as int),
                forall|i: int|
                    rest@.len() <= i < all.len() ==> 1 <= (#[trigger] all[i]).id < next_id
                        && kept@.contains_key(all[i].id) && kept@[all[i].id] == all[i],
                forall|i: int, j: int|
                    rest@.len() <= i < all.len() && rest@.len() <= j < all.len() && i != j ==> (
                    #[trigger] all[i]).id != (#[trigger] all[j]).id,
                forall|id: u64| #[trigger]
                    kept@.contains_key(id) ==> exists|i: int|
                        rest@.len() <= i < all.len() && (#[trigger] all[i]).id == id,
            decreases rest@.len(),
        {
            let ghost at = rest@.len() - 1;
            let t = match rest.pop() {
                Some(t) => t,
                None => {
                    return None;
                },
            };
            assert(t == all[at]);
            if t.id < 1 || t.id >= next_id {
                return None;
            }
            if kept.contains_key(&t.id) {
                proof {
                    let j = choose|j: int| at < j < all.len() && (#[trigger] all[j]).id == t.id;
                    assert(all[at].id == all[j].id);
                }
                return None;
            }
            let ghost before = kept@;
            kept.insert(t.id, t);
            proof {
                assert forall|id: u64| #[trigger] kept@.contains_key(id) implies exists|i: int|
                    rest@.len() <= i < all.len() && (#[trigger] all[i]).id == id by {
                    if id == all[at].id {
                        assert(all[at].id == id);
                    } else {
                        assert(before.contains_key(id));
                        let i = choose|i: int| at < i < all.len() && (#[trigger] all[i]).id == id;
                        assert(all[i].id == id);
                    }
                }
            }
        }
        match &profile {
            None => {},
            Some(p) => {
                let n = p.tokens.len();
                let mut k: usize = 0;
                while k < n
                    invariant
                        k <= n,
                        n == p.tokens@.len(),
                        forall|j: int| 0 <= j < k ==> kept@.contains_key(#[trigger] p.tokens@[j]),
                    decreases n - k,
                {
                    if !kept.contains_key(&p.tokens[k]) {
                        proof {
                            if has_token(all, p.tokens@[k as int]) {
                                let i = choose|i: int|
                                    0 <= i < all.len() && (#[trigger] all[i]).id == p.tokens@[k as int];
                                assert(kept@.contains_key(all[i].id));
                            }
                        }
                        return None;
                    }
                    k += 1;
                }
                assert forall|j: int| 0 <= j < p.tokens@.len() implies has_token(
                    all,
                    #[trigger] p.tokens@[j],
                ) by {
                    assert(kept@.contains_key(p.tokens@[j]));
                    let i = choose|i: int| 0 <= i < all.len() && (#[trigger] all[i]).id == p.tokens@[j];
                    assert(all[i].id == p.tokens@[j]);
                }
            },
        }
        let r = ChainFundSbtContract { config, next_id, tokens: kept, profile };
        proof {
            assert forall|id: u64| #[trigger] r@.tokens.contains_key(id) implies r@.tokens[id].id == id
                && 1 <= id < r@.next_id by {
                let i = choose|i: int| 0 <= i < all.len() && (#[trigger] all[i]).id == id;
                assert(kept@[all[i].id] == all[i]);
            }
            if config is None {
                assert(r@.tokens =~= Map::empty());
            }
            if profile is Some {
                assert forall|k: int| 0 <= k < r@.profile->0.tokens.len() implies r@.tokens.contains_key(
                    #[trigger] r@.profile->0.tokens[k],
                ) by {
                    assert(kept@.contains_key(profile->0.tokens@[k]));
                }
            }
        }
        Some(r)
    }

    /// Initializes the tokens with their administrator, the escrow that may
    /// mint them, and their name and symbol. Refused once they are
    /// initialized.
    pub fn initialize(
        &mut self,
        admin: Address,
        core_contract: Address,
        name: String,
        symbol: String,
    ) -> (r: Result<(), SbtError>)
        requires
            old(self).wf(),
        ensures
            final(self).wf(),
            r is Ok <==> old(self)@.config is None,
            r is Err ==> r == Err::<(), SbtError>(SbtError::AlreadyInitialized) && *final(self)
                == *old(self),
            r is Ok ==> final(self)@ == (SbtView {
                config: Some(
                    crate::sbt::types::SbtConfigView {
                        admin: admin@,
                        core_contract: core_contract@,
                        name: name@,
                        symbol: symbol@,
                        total_supply: 0,
                        active_supply: 0,
                        is_paused: false,
                    },
                ),
                next_id: 1,
                ..old(self)@
            }),
    {
        if self.config.is_some() {
            return Err(SbtError::AlreadyInitialized);
        }
        self.config = Some(
            SbtConfig {
                admin,
                core_contract,
                name,
                symbol,
                total_supply: 0,
                active_supply: 0,
                is_paused: false,
            },
        );
        self.next_id = 1;
        Ok(())
    }

    /// Whether the profile holds an active token of the role `role` for the
    /// campaign `campaign_id`.
    fn has_duplicate(&self, role: SbtRole, campaign_id: u32) -> (r: bool)
        requires
            self.wf(),
        ensures
            r == self@.has_duplicate(role, campaign_id as nat),
    {
        match &self.profile {
            None => false,
            Some(p) => {
                let n = p.tokens.len();
                let mut i: usize = 0;
                while i < n
                    invariant
                        i <= n,
                        n == p.tokens@.len(),
                        self.wf(),
                        self.profile == Some(*p),
                        forall|j: int|
                            0 <= j < i ==> !self@.matches(
                                #[trigger] p.tokens@[j],
                                role,
                                campaign_id as nat,
                            ),
                    decreases n - i,
                {
                    let id = p.tokens[i];
                    assert(self@.tokens.contains_key(self@.profile->0.tokens[i as int]));
                    match self.tokens.get(&id) {
                        Some(t) => {
                            if t.role == role && t.campaign_id == campaign_id && t.is_active {
                                assert(self@.matches(
                                    self@.profile->0.tokens[i as int],
                                    role,
                                    campaign_id as nat,
                                ));
                                return true;
                            }
                        },
                        None => {},
                    }
                    i += 1;
                }
                false
            },
        }
    }

    /// Whether the ids and the reputation fit their bits once `mint` is
    /// called with these arguments: whether it can be called.
    pub fn mint_fits(&self, caller: &Address, recipient: &Address, role: SbtRole, campaign_id: u32) -> (r:
        bool)
        requires
            self.wf(),
        ensures
            r == (self@.mint_result(caller@, role, campaign_id as nat) is Ok ==> self@.mint_fits(
                recipient@,
                role,
            )),
    {
        let reputation = match &self.profile {
            Some(p) => p.total_reputation,
            None => 0,
        };
        if self.next_id < u64::MAX && reputation <= u32::MAX - role.reputation_value() {
            return true;
        }
        match &self.config {
            None => true,
            Some(config) => {
                if !caller.same(&config.admin) && !caller.same(&config.core_contract) {
                    true
                } else if config.is_paused {
                    true
                } else {
                    self.has_duplicate(role, campaign_id)
                }
            },
        }
    }

    /// Whether the ids and the reputation fit their bits once `batch_mint`
    /// is called by `caller` for `count` recipients: whether it can be
    /// called.
    pub fn batch_mint_fits(&self, caller: &Address, count: usize) -> (r: bool)
        ensures
            r == (self@.batch_result(caller@) is Ok ==> self@.batch_fits(count as nat)),
    {
        match &self.config {
            None => true,
            Some(config) => {
                if !caller.same(&config.admin) && !caller.same(&config.core_contract) {
                    return true;
                }
                let reputation = match &self.profile {
                    Some(p) => p.total_reputation,
                    None => 0,
                };
                let room = (u32::MAX - reputation) / 100;
                count as u128 <= (u64::MAX - self.next_id) as u128 && count as u128 <= room as u128
            },
        }
    }

    /// Mints a token of the role `role` for the campaign `campaign_id` to
    /// `recipient` at `now`, for the administrator or the escrow, unless
    /// minting is paused or the profile holds an active token of that role
    /// for that campaign. Returns the id of the new token.
    pub fn mint(
        &mut self,
        caller: Address,
        recipient: Address,
        role: SbtRole,
        campaign_id: u32,
        metadata_uri: String,
        now: u64,
    ) -> (r: Result<u64, SbtError>)
        requires
            old(self).wf(),
            old(self)@.mint_result(caller@, role, campaign_id as nat) is Ok ==> old(self)@.mint_fits(
                recipient@,
                role,
            ),
        ensures
            final(self).wf(),
            r == old(self)@.mint_result(caller@, role, campaign_id as nat),
            r is Ok ==> final(self)@ == old(self)@.after_mint(
                caller@,
                recipient@,
                role,
                campaign_id as nat,
                metadata_uri@,
                now as nat,
            ),
            r is Err ==> *final(self) == *old(self),
    {
        match &self.config {
            None => {
                return Err(SbtError::NotInitialized);
            },
            Some(config) => {
                if !caller.same(&config.admin) && !caller.same(&config.core_contract) {
                    return Err(SbtError::Unauthorized);
                }
                if config.is_paused {
                    return Err(SbtError::InvalidInput);
                }
            },
        }
        if self.has_duplicate(role, campaign_id) {
            return Err(SbtError::SbtAlreadyExists);
        }
        let ghost before = self@;
        let token_id = self.next_id;
        let mut profile = match self.profile.take() {
            Some(p) => p,
            None => UserProfile {
                address: recipient.clone(),
                tokens: Vec::new(),
                total_reputation: 0,
                roles_held: Vec::new(),
                first_token_at: 0,
                last_token_at: 0,
            },
        };
        assert(profile@.tokens =~= before.profile_for(recipient@).tokens);
        assert(profile@.roles_held =~= before.profile_for(recipient@).roles_held);
        assert(profile@ == before.profile_for(recipient@));
        let sbt = SoulBoundToken {
            id: token_id,
            owner: recipient,
            role,
            campaign_id,
            metadata_uri,
            issued_at: now,
            issued_by: caller,
            is_active: true,
            revoked_at: 0,
            revocation_reason: String::new(),
        };
        self.tokens.insert(token_id, sbt);
        profile.tokens.push(token_id);
        profile.total_reputation = profile.total_reputation + role.reputation_value();
        if !role_is_held(&profile.roles_held, role) {
            profile.roles_held.push(role);
        }
        if profile.first_token_at == 0 {
            profile.first_token_at = now;
        }
        profile.last_token_at = now;
        self.profile = Some(profile);
        match &mut self.config {
            Some(config) => {
                config.total_supply = config.total_supply + 1;
                config.active_supply = config.active_supply + 1;
            },
            None => {},
        }
        self.next_id = token_id + 1;
        proof {
            let after = before.after_mint(
                caller@,
                recipient@,
                role,
                campaign_id as nat,
                metadata_uri@,
                now as nat,
            );
            assert(self@.tokens =~= after.tokens);
            assert(self@.profile->0.tokens =~= after.profile->0.tokens);
            assert(self@.profile->0.roles_held =~= after.profile->0.roles_held);
            assert(self@.profile == after.profile);
            assert(self@.config == after.config);
            assert(self@ == after);
            assert forall|i: int| 0 <= i < after.profile->0.tokens.len() implies after.tokens.contains_key(
                #[trigger] after.profile->0.tokens[i],
            ) by {
                if i < before.profile_for(recipient@).tokens.len() {
                    assert(before.tokens.contains_key(before.profile->0.tokens[i]));
                }
            }
        }
        Ok(token_id)
    }

    /// Mints a token for the campaign `campaign_id` to each of `recipients`
    /// in turn, in the role named with them, for the administrator or the
    /// escrow. A recipient for whom minting is refused is passed over.
    /// Returns the ids of the new tokens.
    pub fn batch_mint(
        &mut self,
        caller: Address,
        recipients: Vec<(Address, SbtRole)>,
        campaign_id: u32,
        metadata_uri: String,
        now: u64,
    ) -> (r: Result<Vec<u64>, SbtError>)
        requires
            old(self).wf(),
            old(self)@.batch_result(caller@) is Ok ==> old(self)@.batch_fits(recipients@.len()),
        ensures
            final(self).wf(),
            match r {
                Ok(ids) => {
                    &&& old(self)@.batch_result(caller@) is Ok
                    &&& ids@ == old(self)@.batch_ids(
                        caller@,
                        recipients_view(recipients@),
                        campaign_id as nat,
                        metadata_uri@,
                        now as nat,
                        recipients@.len(),
                    )
                    &&& final(self)@ == old(self)@.after_batch(
                        caller@,
                        recipients_view(recipients@),
                        campaign_id as nat,
                        metadata_uri@,
                        now as nat,
                        recipients@.len(),
                    )
                },
                Err(e) => old(self)@.batch_result(caller@) == Err::<(), SbtError>(e) && *final(self)
                    == *old(self),
            },
    {
        match &self.config {
            None => {
                return Err(SbtError::NotInitialized);
            },
            Some(config) => {
                if !caller.same(&config.admin) && !caller.same(&config.core_contract) {
                    return Err(SbtError::Unauthorized);
                }
            },
        }
        let ghost before = self@;
        let ghost list = recipients_view(recipients@);
        let mut minted: Vec<u64> = Vec::new();
        let n = recipients.len();
        let mut i: usize = 0;
        while i < n
            invariant
                i <= n,
                n == recipients@.len(),
                list == recipients_view(recipients@),
                self.wf(),
                before.next_id + n <= u64::MAX,
                self@.next_id <= before.next_id + i,
                (match self@.profile {
                    Some(p) => p.total_reputation,
                    None => 0,
                }) + 100 * (n - i) <= u32::MAX,
                self@ == before.after_batch(
                    caller@,
                    list,
                    campaign_id as nat,
                    metadata_uri@,
                    now as nat,
                    i as nat,
                ),
                minted@ == before.batch_ids(
                    caller@,
                    list,
                    campaign_id as nat,
                    metadata_uri@,
                    now as nat,
                    i as nat,
                ),
            decreases n - i,
        {
            let role = recipients[i].1;
            assert(list[i as int] == (recipients@[i as int].0@, role));
            match self.mint(
                caller.clone(),
                recipients[i].0.clone(),
                role,
                campaign_id,
                metadata_uri.clone(),
                now,
            ) {
                Ok(id) => {
                    minted.push(id);
                },
                Err(_) => {},
            }
            i += 1;
        }
        Ok(minted)
    }

    /// Revokes the token `token_id` at `now` for `reason`, for the
    /// administrator: the token is no longer active, and the profile loses
    /// what the token was worth, as far as it has that much.
    pub fn revoke(&mut self, admin: Address, token_id: u64, reason: String, now: u64) -> (r: Result<
        (),
        SbtError,
    >)
        requires
            old(self).wf(),
        ensures
            final(self).wf(),
            r == old(self)@.revoke_result(admin@, token_id),
            r is Ok ==> final(self)@ == old(self)@.after_revoke(token_id, reason@, now as nat),
            r is Err ==> final(self)@ == old(self)@,
    {
        match &self.config {
            None => {
                return Err(SbtError::NotInitialized);
            },
            Some(config) => {
                if !admin.same(&config.admin) {
                    return Err(SbtError::Unauthorized);
                }
            },
        }
        match self.tokens.get(&token_id) {
            None => {
                return Err(SbtError::SbtNotFound);
            },
            Some(t) => {
                if !t.is_active {
                    return Err(SbtError::SbtRevoked);
                }
            },
        }
        if self.profile.is_none() {
            return Err(SbtError::SbtNotFound);
        }
        let ghost before = self@;
        let mut sbt = match self.tokens.remove(&token_id) {
            Some(t) => t,
            None => {
                assert(self@.tokens =~= before.tokens);
                return Err(SbtError::SbtNotFound);
            },
        };
        sbt.is_active = false;
        sbt.revoked_at = now;
        sbt.revocation_reason = reason;
        let worth = sbt.role.reputation_value();
        self.tokens.insert(token_id, sbt);
        match &mut self.profile {
            Some(p) => {
                p.total_reputation = if p.total_reputation >= worth {
                    p.total_reputation - worth
                } else {
                    0
                };
            },
            None => {},
        }
        match &mut self.config {
            Some(config) => {
                config.active_supply = if config.active_supply >= 1 {
                    config.active_supply - 1
                } else {
                    0
                };
            },
            None => {},
        }
        proof {
            let after = before.after_revoke(token_id, reason@, now as nat);
            assert(self@.tokens =~= after.tokens);
            assert(self@.profile == after.profile);
            assert(self@.config == after.config);
            assert(self@ == after);
            assert forall|i: int| 0 <= i < after.profile->0.tokens.len() implies after.tokens.contains_key(
                #[trigger] after.profile->0.tokens[i],
            ) by {
                assert(before.tokens.contains_key(before.profile->0.tokens[i]));
            }
        }
        Ok(())
    }

    /// The token `token_id`.
    pub fn get_sbt(&self, token_id: u64) -> (r: Result<&SoulBoundToken, SbtError>)
        ensures
            match r {
                Ok(t) => self@.tokens.contains_key(token_id) && t@ == self@.tokens[token_id],
                Err(e) => !self@.tokens.contains_key(token_id) && e == SbtError::SbtNotFound,
            },
    {
        match self.tokens.get(&token_id) {
            Some(t) => Ok(t),
            None => Err(SbtError::SbtNotFound),
        }
    }

    /// The profile, which is the same for every user.
    pub fn get_profile(&self, user: &Address) -> (r: Result<&UserProfile, SbtError>)
        ensures
            match r {
                Ok(p) => self.profile == Some(*p),
                Err(e) => self.profile is None && e == SbtError::SbtNotFound,
            },
    {
        match &self.profile {
            Some(p) => Ok(p),
            None => Err(SbtError::SbtNotFound),
        }
    }

    /// The reputation of the profile; none before the first token.
    pub fn get_reputation(&self, user: &Address) -> (r: u32)
        ensures
            r == (match self@.profile {
                Some(p) => p.total_reputation,
                None => 0,
            }),
    {
        match &self.profile {
            Some(p) => p.total_reputation,
            None => 0,
        }
    }

    /// Whether the profile holds the role `role`.
    pub fn has_role(&self, user: &Address, role: SbtRole) -> (r: bool)
        ensures
            r == (self@.profile is Some && holds_role(self@.profile->0.roles_held, role)),
    {
        match &self.profile {
            Some(p) => role_is_held(&p.roles_held, role),
            None => false,
        }
    }

    /// The tokens of the profile, in the order in which they were minted.
    pub fn get_user_sbts(&self, user: &Address) -> (r: Vec<SoulBoundToken>)
        requires
            self.wf(),
        ensures
            r@.map_values(|t: SoulBoundToken| t@) == self@.profile_tokens(),
    {
        let mut sbts: Vec<SoulBoundToken> = Vec::new();
        match &self.profile {
            None => {
                assert(sbts@.map_values(|t: SoulBoundToken| t@) =~= self@.profile_tokens());
            },
            Some(p) => {
                let n = p.tokens.len();
                let mut i: usize = 0;
                while i < n
                    invariant
                        i <= n,
                        n == p.tokens@.len(),
                        self.wf(),
                        self.profile == Some(*p),
                        sbts@.len() == i,
                        forall|j: int| 0 <= j < i ==> (#[trigger] sbts@[j])@ == self@.profile_tokens()[j],
                    decreases n - i,
                {
                    let id = p.tokens[i];
                    assert(self@.tokens.contains_key(self@.profile->0.tokens[i as int]));
                    match self.tokens.get(&id) {
                        Some(t) => {
                            sbts.push(t.clone());
                        },
                        None => {},
                    }
                    i += 1;
                }
                assert(sbts@.map_values(|t: SoulBoundToken| t@) =~= self@.profile_tokens());
            },
        }
        sbts
    }

    /// The tokens for the campaign `campaign_id`, by id.
    pub fn get_campaign_sbts(&self, campaign_id: u32) -> (r: Vec<SoulBoundToken>)
        requires
            self.wf(),
        ensures
            r@.map_values(|t: SoulBoundToken| t@) == (match self@.config {
                Some(c) => self@.campaign_tokens(campaign_id as nat, c.total_supply),
                None => Seq::empty(),
            }),
    {
        let mut sbts: Vec<SoulBoundToken> = Vec::new();
        let total = match &self.config {
            Some(c) => c.total_supply,
            None => {
                assert(sbts@.map_values(|t: SoulBoundToken| t@) =~= Seq::<TokenView>::empty());
                return sbts;
            },
        };
        let mut id: u64 = 0;
        while id < total
            invariant
                id <= total,
                sbts@.map_values(|t: SoulBoundToken| t@) == self@.campaign_tokens(
                    campaign_id as nat,
                    id as nat,
                ),
            decreases total - id,
        {
            id += 1;
            let ghost listed = sbts@.map_values(|t: SoulBoundToken| t@);
            match self.tokens.get(&id) {
                Some(t) => {
                    if t.campaign_id == campaign_id {
                        sbts.push(t.clone());
                        assert(sbts@.map_values(|t: SoulBoundToken| t@) =~= listed.push(
                            self@.tokens[id],
                        ));
                    }
                },
                None => {},
            }
        }
        sbts
    }

    /// The settings, once the tokens are initialized.
    pub fn get_config(&self) -> (r: Result<&SbtConfig, SbtError>)
        ensures
            match r {
                Ok(c) => self.config == Some(*c),
                Err(e) => self.config is None && e == SbtError::NotInitialized,
            },
    {
        match &self.config {
            Some(c) => Ok(c),
            None => Err(SbtError::NotInitialized),
        }
    }

    /// A token is bound to its owner: it is never transferred.
    pub fn transfer(&self, from: &Address, to: &Address, token_id: u64) -> (r: Result<(), SbtError>)
        ensures
            r == Err::<(), SbtError>(SbtError::TransferNotAllowed),
    {
        Err(SbtError::TransferNotAllowed)
    }

    /// A token is bound to its owner: nobody is approved to transfer it.
    pub fn approve(&self, owner: &Address, spender: &Address, token_id: u64) -> (r: Result<
        (),
        SbtError,
    >)
        ensures
            r == Err::<(), SbtError>(SbtError::TransferNotAllowed),
    {
        Err(SbtError::TransferNotAllowed)
    }

    /// Makes `new_core` the escrow that may mint, for the administrator.
    pub fn set_core_contract(&mut self, admin: Address, new_core: Address) -> (r: Result<
        (),
        SbtError,
    >)
        requires
            old(self).wf(),
        ensures
            final(self).wf(),
            r == old(self)@.admin_result(admin@),
            r is Ok ==> final(self)@ == (SbtView {
                config: Some(
                    crate::sbt::types::SbtConfigView {
                        core_contract: new_core@,
                        ..old(self)@.config->0
                    },
                ),
                ..old(self)@
            }),
            r is Err ==> *final(self) == *old(self),
    {
        match &mut self.config {
            None => Err(SbtError::NotInitialized),
            Some(config) => {
                if !admin.same(&config.admin) {
                    return Err(SbtError::Unauthorized);
                }
                config.core_contract = new_core;
                Ok(())
            },
        }
    }

    /// Pauses minting, or lets it go on, for the administrator.
    pub fn set_paused(&mut self, admin: Address, paused: bool) -> (r: Result<(), SbtError>)
        requires
            old(self).wf(),
        ensures
            final(self).wf(),
            r == old(self)@.admin_result(admin@),
            r is Ok ==> final(self)@ == (SbtView {
                config: Some(
                    crate::sbt::types::SbtConfigView { is_paused: paused, ..old(self)@.config->0 },
                ),
                ..old(self)@
            }),
            r is Err ==> *final(self) == *old(self),
    {
        match &mut self.config {
            None => Err(SbtError::NotInitialized),
            Some(config) => {
                if !admin.same(&config.admin) {
                    return Err(SbtError::Unauthorized);
                }
                config.is_paused = paused;
                Ok(())
            },
        }
    }

    /// Hands the administration over to `new_admin`, for the administrator.
    pub fn set_admin(&mut self, current_admin: Address, new_admin: Address) -> (r: Result<
        (),
        SbtError,
    >)
        requires
            old(self).wf(),
        ensures
            final(self).wf(),
            r == old(self)@.admin_result(current_admin@),
            r is Ok ==> final(self)@ == (SbtView {
                config: Some(
                    crate::sbt::types::SbtConfigView { admin: new_admin@, ..old(self)@.config->0 },
                ),
                ..old(self)@
            }),
            r is Err ==> *final(self) == *old(self),
    {
        match &mut self.config {
            None => Err(SbtError::NotInitialized),
            Some(config) => {
                if !current_admin.same(&config.admin) {
                    return Err(SbtError::Unauthorized);
                }
                config.admin = new_admin;
                Ok(())
            },
        }
    }
}

} // verus!
