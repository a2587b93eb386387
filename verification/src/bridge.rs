//! The bridge between chains: tokens registered for transfer, and transfer
//! requests that validators confirm before they are executed.
//!
//! The bridge decides and records; whoever runs it checks the caller's
//! authorization first and announces what was done. An operation that the
//! bridge cannot perform is not asked of it: each says what it requires, and
//! a test for it stands beside it.

use crate::address::Address;
use std::collections::HashMap;
use vstd::prelude::*;

verus! {

/// A chain that the bridge connects.
#[derive(Clone, Copy, Debug, PartialEq, Eq, Structural)]
pub enum ChainId {
    Stellar,
    Ethereum,
}

/// Where a transfer request stands.
#[derive(Clone, Copy, Debug, PartialEq, Eq, Structural)]
pub enum RequestStatus {
    Pending,
    Confirmed,
    Executed,
    Failed,
}

/// A token that the bridge transfers, with the bounds of one transfer.
#[derive(Debug, PartialEq, Eq)]
pub struct TokenConfig {
    pub name: String,
    pub symbol: String,
    pub decimals: u32,
    pub native_chain: ChainId,
    pub native_address: Vec<u8>,
    pub wrapped_address: Address,
    pub min_transfer: i128,
    pub max_transfer: i128,
}

/// What a registered token is, as mathematics.
pub struct TokenConfigView {
    pub name: Seq<char>,
    pub symbol: Seq<char>,
    pub decimals: nat,
    pub native_chain: ChainId,
    pub native_address: Seq<u8>,
    pub wrapped_address: Seq<char>,
    pub min_transfer: int,
    pub max_transfer: int,
}

impl View for TokenConfig {
    type V = TokenConfigView;

    open spec fn view(&self) -> TokenConfigView {
        TokenConfigView {
            name: self.name@,
            symbol: self.symbol@,
            decimals: self.decimals as nat,
            native_chain: self.native_chain,
            native_address: self.native_address@,
            wrapped_address: self.wrapped_address@,
            min_transfer: self.min_transfer as int,
            max_transfer: self.max_transfer as int,
        }
    }
}

/// The settings of the bridge: its administrator and validators, the
/// confirmations that a transfer needs, the tokens by symbol, and the number
/// of transfers begun towards each chain.
#[derive(Debug, PartialEq, Eq)]
pub struct BridgeConfig {
    pub admin: Address,
    pub validators: Vec<Address>,
    pub required_confirmations: u32,
    pub supported_tokens: Vec<TokenConfig>,
    pub stellar_nonce: u64,
    pub ethereum_nonce: u64,
}

/// What the settings are, as mathematics.
pub struct BridgeConfigView {
    pub admin: Seq<char>,
    pub validators: Seq<Seq<char>>,
    pub required_confirmations: nat,
    pub supported_tokens: Seq<TokenConfigView>,
    pub stellar_nonce: nat,
    pub ethereum_nonce: nat,
}

impl View for BridgeConfig {
    type V = BridgeConfigView;

    open spec fn view(&self) -> BridgeConfigView {
        BridgeConfigView {
            admin: self.admin@,
            validators: self.validators@.map_values(|a: Address| a@),
            required_confirmations: self.required_confirmations as nat,
            supported_tokens: self.supported_tokens@.map_values(|t: TokenConfig| t@),
            stellar_nonce: self.stellar_nonce as nat,
            ethereum_nonce: self.ethereum_nonce as nat,
        }
    }
}

/// A request to transfer an amount of a token to another chain.
#[derive(Debug, PartialEq, Eq)]
pub struct BridgeRequest {
    pub request_id: u64,
    pub from_chain: ChainId,
    pub to_chain: ChainId,
    pub token_symbol: String,
    pub amount: i128,
    pub sender: Address,
    pub recipient: Vec<u8>,
    pub status: RequestStatus,
    pub confirmations: Vec<Address>,
    pub nonce: u64,
}

/// What a transfer request is, as mathematics.
pub struct BridgeRequestView {
    pub request_id: nat,
    pub from_chain: ChainId,
    pub to_chain: ChainId,
    pub token_symbol: Seq<char>,
    pub amount: int,
    pub sender: Seq<char>,
    pub recipient: Seq<u8>,
    pub status: RequestStatus,
    pub confirmations: Seq<Seq<char>>,
    pub nonce: nat,
}

impl View for BridgeRequest {
    type V = BridgeRequestView;

    open spec fn view(&self) -> BridgeRequestView {
        BridgeRequestView {
            request_id: self.request_id as nat,
            from_chain: self.from_chain,
            to_chain: self.to_chain,
            token_symbol: self.token_symbol@,
            amount: self.amount as int,
            sender: self.sender@,
            recipient: self.recipient@,
            status: self.status,
            confirmations: self.confirmations@.map_values(|a: Address| a@),
            nonce: self.nonce as nat,
        }
    }
}

/// The bridge: its settings once it is initialized, the id of the next
/// request, and the requests by id.
#[derive(Debug)]
pub struct CrossChainBridge {
    pub config: Option<BridgeConfig>,
    pub next_request_id: u64,
    pub requests: HashMap<u64, BridgeRequest>,
}

/// What the bridge is, as mathematics.
pub struct BridgeView {
    pub config: Option<BridgeConfigView>,
    pub next_request_id: nat,
    pub requests: Map<u64, BridgeRequestView>,
}

impl View for CrossChainBridge {
    type V = BridgeView;

    open spec fn view(&self) -> BridgeView {
        BridgeView {
            config: match self.config {
                Some(c) => Some(c@),
                None => None,
            },
            next_request_id: self.next_request_id as nat,
            requests: self.requests@.map_values(|r: BridgeRequest| r@),
        }
    }
}

/// `who` occurs among `list`.
pub open spec fn listed(list: Seq<Seq<char>>, who: Seq<char>) -> bool {
    exists|i: int| 0 <= i < list.len() && #[trigger] list[i] == who
}

/// The position `i` is the first at which `tokens` holds the symbol
/// `symbol`.
pub open spec fn token_at(tokens: Seq<TokenConfigView>, symbol: Seq<char>, i: int) -> bool {
    &&& 0 <= i < tokens.len()
    &&& tokens[i].symbol == symbol
    &&& forall|j: int| 0 <= j < i ==> (#[trigger] tokens[j]).symbol != symbol
}

/// The first position from `from` on at which `tokens` holds the symbol
/// `symbol`, or the number of tokens if there is none.
pub open spec fn first_with_symbol(tokens: Seq<TokenConfigView>, symbol: Seq<char>, from: int) -> int
    decreases tokens.len() - from,
{
    if from < 0 || from >= tokens.len() {
        tokens.len() as int
    } else if tokens[from].symbol == symbol {
        from
    } else {
        first_with_symbol(tokens, symbol, from + 1)
    }
}

/// Where no position before `i` holds the symbol and `i` does, the first
/// position from `from` on is `i`.
pub proof fn lemma_first_from(tokens: Seq<TokenConfigView>, symbol: Seq<char>, i: int, from: int)
    requires
        token_at(tokens, symbol, i),
        0 <= from <= i,
    ensures
        first_with_symbol(tokens, symbol, from) == i,
    decreases i - from,
{
    if from < i {
        assert(tokens[from].symbol != symbol);
        lemma_first_from(tokens, symbol, i, from + 1);
    }
}

/// The first token of a symbol is where the symbol is first found.
pub proof fn lemma_first_token(tokens: Seq<TokenConfigView>, symbol: Seq<char>, i: int)
    requires
        token_at(tokens, symbol, i),
    ensures
        first_with_symbol(tokens, symbol, 0) == i,
{
    lemma_first_from(tokens, symbol, i, 0);
}

/// Where no token has the symbol, the first position from `from` on is the
/// number of tokens.
pub proof fn lemma_none_from(tokens: Seq<TokenConfigView>, symbol: Seq<char>, from: int)
    requires
        token_missing(tokens, symbol),
        0 <= from,
    ensures
        first_with_symbol(tokens, symbol, from) == tokens.len(),
    decreases tokens.len() - from,
{
    if from < tokens.len() {
        assert(tokens[from].symbol != symbol);
        lemma_none_from(tokens, symbol, from + 1);
    }
}

/// Where no token has the symbol, there is no first token of it.
pub proof fn lemma_no_first_token(tokens: Seq<TokenConfigView>, symbol: Seq<char>)
    requires
        token_missing(tokens, symbol),
    ensures
        first_with_symbol(tokens, symbol, 0) == tokens.len(),
{
    lemma_none_from(tokens, symbol, 0);
}

/// No token of `tokens` has the symbol `symbol`.
pub open spec fn token_missing(tokens: Seq<TokenConfigView>, symbol: Seq<char>) -> bool {
    forall|j: int| 0 <= j < tokens.len() ==> (#[trigger] tokens[j]).symbol != symbol
}

impl BridgeConfigView {
    /// The number of transfers begun towards `chain`.
    pub open spec fn nonce(self, chain: ChainId) -> nat {
        match chain {
            ChainId::Stellar => self.stellar_nonce,
            ChainId::Ethereum => self.ethereum_nonce,
        }
    }

    /// The position of the first token with the symbol `symbol`, or the
    /// number of tokens if there is none.
    pub open spec fn first_token(self, symbol: Seq<char>) -> int {
        first_with_symbol(self.supported_tokens, symbol, 0)
    }

    /// The settings with `token` registered: in place of the first token of
    /// its symbol, or after all the others if there is none.
    pub open spec fn with_token(self, token: TokenConfigView) -> BridgeConfigView {
        let i = self.first_token(token.symbol);
        BridgeConfigView {
            supported_tokens: if i < self.supported_tokens.len() {
                self.supported_tokens.update(i, token)
            } else {
                self.supported_tokens.push(token)
            },
            ..self
        }
    }

    /// The settings with one more transfer begun towards `chain`.
    pub open spec fn with_next_nonce(self, chain: ChainId) -> BridgeConfigView {
        match chain {
            ChainId::Stellar => BridgeConfigView { stellar_nonce: self.stellar_nonce + 1, ..self },
            ChainId::Ethereum => BridgeConfigView {
                ethereum_nonce: self.ethereum_nonce + 1,
                ..self
            },
        }
    }
}

impl BridgeView {
    /// `admin` may register a token: the bridge is initialized, and `admin`
    /// administers it.
    pub open spec fn can_register(self, admin: Seq<char>) -> bool {
        self.config is Some && self.config->0.admin == admin
    }

    /// A transfer of `amount` of the token `symbol` towards `chain` can
    /// begin: the token is registered at `i`, the amount is within its
    /// bounds, and the counters have room.
    pub open spec fn can_initiate(self, symbol: Seq<char>, amount: int, chain: ChainId, i: int) -> bool {
        &&& self.config is Some
        &&& token_at(self.config->0.supported_tokens, symbol, i)
        &&& self.config->0.supported_tokens[i].min_transfer <= amount
            <= self.config->0.supported_tokens[i].max_transfer
        &&& self.config->0.nonce(chain) < u64::MAX
        &&& self.next_request_id < u64::MAX
    }

    /// `validator` can confirm the request `id`: `validator` is one of the
    /// validators and has not confirmed it, and the request is pending.
    pub open spec fn can_confirm(self, validator: Seq<char>, id: u64) -> bool {
        &&& self.config is Some
        &&& listed(self.config->0.validators, validator)
        &&& self.requests.contains_key(id)
        &&& self.requests[id].status == RequestStatus::Pending
        &&& !listed(self.requests[id].confirmations, validator)
    }

    /// The request `id` can be executed: it is confirmed, and its token is
    /// registered.
    pub open spec fn can_execute(self, id: u64) -> bool {
        &&& self.requests.contains_key(id)
        &&& self.requests[id].status == RequestStatus::Confirmed
        &&& self.config is Some
        &&& !token_missing(self.config->0.supported_tokens, self.requests[id].token_symbol)
    }
}

/// Whether `who` occurs among `list`.
pub fn is_listed(list: &Vec<Address>, who: &Address) -> (r: bool)
    ensures
        r == listed(list@.map_values(|a: Address| a@), who@),
{
    let ghost names = list@.map_values(|a: Address| a@);
    let n = list.len();
    let mut i: usize = 0;
    while i < n
        invariant
            i <= n,
            n == list@.len(),
            names == list@.map_values(|a: Address| a@),
            forall|j: int| 0 <= j < i ==> names[j] != who@,
        decreases n - i,
    {
        if list[i].same(who) {
            assert(names[i as int] == who@);
            return true;
        }
        i += 1;
    }
    false
}

/// The first position at which `tokens` holds the symbol `symbol`, if any.
pub fn find_token(tokens: &Vec<TokenConfig>, symbol: &String) -> (r: Option<usize>)
    ensures
        match r {
            Some(i) => token_at(tokens@.map_values(|t: TokenConfig| t@), symbol@, i as int),
            None => token_missing(tokens@.map_values(|t: TokenConfig| t@), symbol@),
        },
{
    let ghost views = tokens@.map_values(|t: TokenConfig| t@);
    let n = tokens.len();
    let mut i: usize = 0;
    while i < n
        invariant
            i <= n,
            n == tokens@.len(),
            views == tokens@.map_values(|t: TokenConfig| t@),
            forall|j: int| 0 <= j < i ==> (#[trigger] views[j]).symbol != symbol@,
        decreases n - i,
    {
        assert(views[i as int] == tokens@[i as int]@);
        if tokens[i].symbol == *symbol {
            return Some(i);
        }
        i += 1;
    }
    None
}

impl CrossChainBridge {
    /// Every request is stored under its own id.
    pub open spec fn wf(&self) -> bool {
        &&& self.next_request_id >= 1
        &&& forall|id: u64| #[trigger]
            self@.requests.contains_key(id) ==> self@.requests[id].request_id == id && id
                < self.next_request_id
    }

    /// A bridge that is not initialized yet.
    pub fn new() -> (r: Self)
        ensures
            r.wf(),
            r@.config is None,
            r@.next_request_id == 1,
            r@.requests == Map::<u64, BridgeRequestView>::empty(),
    {
        let r = CrossChainBridge { config: None, next_request_id: 1, requests: HashMap::new() };
        assert(r@.requests =~= Map::empty());
        r
    }

    /// What was kept of a bridge can be a bridge again: the requests have
    /// ids of their own below the next id.
    pub open spec fn restorable(next_request_id: u64, requests: Seq<BridgeRequest>) -> bool {
        &&& next_request_id >= 1
        &&& forall|i: int|
            0 <= i < requests.len() ==> (#[trigger] requests[i]).request_id < next_request_id
        &&& forall|i: int, j: int|
            0 <= i < requests.len() && 0 <= j < requests.len() && i != j ==> (
            #[trigger] requests[i]).request_id != (#[trigger] requests[j]).request_id
    }

    /// The bridge that was kept as these settings, this next id and these
    /// requests; nothing, where they cannot be a bridge.
    #[verifier::loop_isolation(false)]
    pub fn restore(
        config: Option<BridgeConfig>,
        next_request_id: u64,
        requests: Vec<BridgeRequest>,
    ) -> (r: Option<Self>)
        ensures
            r is Some <==> Self::restorable(next_request_id, requests@),
            r is Some ==> {
                &&& r->0.wf()
                &&& r->0.config == config
                &&& r->0.next_request_id == next_request_id
                &&& forall|i: int|
                    0 <= i < requests@.len() ==> r->0.requests@.contains_key(
                        (#[trigger] requests@[i]).request_id,
                    ) && r->0.requests@[requests@[i].request_id] == requests@[i]
                &&& forall|id: u64| #[trigger]
                    r->0.requests@.contains_key(id) ==> exists|i: int|
                        0 <= i < requests@.len() && (#[trigger] requests@[i]).request_id == id
            },
    {
        let ghost all = requests@;
        if next_request_id < 1 {
            return None;
        }
        let mut rest = requests;
        let mut kept: HashMap<u64, BridgeRequest> = HashMap::new();
        while rest.len() > 0
            invariant
                rest@.len() <= all.len(),
                rest@ == all.subrange(0, rest@.len() as int),
                forall|i: int|
                    rest@.len() <= i < all.len() ==> (#[trigger] all[i]).request_id
                        < next_request_id && kept@.contains_key(all[i].request_id)
                        && kept@[all[i].request_id] == all[i],
                forall|i: int, j: int|
                    rest@.len() <= i < all.len() && rest@.len() <= j < all.len() && i != j ==> (
                    #[trigger] all[i]).request_id != (#[trigger] all[j]).request_id,
                forall|id: u64| #[trigger]
                    kept@.contains_key(id) ==> exists|i: int|
                        rest@.len() <= i < all.len() && (#[trigger] all[i]).request_id == id,
            decreases rest@.len(),
        {
            let ghost at = rest@.len() - 1;
            let q = match rest.pop() {
                Some(q) => q,
                None => {
                    return None;
                },
            };
            assert(q == all[at]);
            if q.request_id >= next_request_id {
                return None;
            }
            if kept.contains_key(&q.request_id) {
                proof {
                    let j = choose|j: int|
                        at < j < all.len() && (#[trigger] all[j]).request_id == q.request_id;
                    assert(all[at].request_id == all[j].request_id);
                }
                return None;
            }
            let ghost before = kept@;
            kept.insert(q.request_id, q);
            proof {
                assert forall|id: u64| #[trigger] kept@.contains_key(id) implies exists|i: int|
                    rest@.len() <= i < all.len() && (#[trigger] all[i]).request_id == id by {
                    if id == all[at].request_id {
                        assert(all[at].request_id == id);
                    } else {
                        assert(before.contains_key(id));
                        let i = choose|i: int|
                            at < i < all.len() && (#[trigger] all[i]).request_id == id;
                        assert(all[i].request_id == id);
                    }
                }
            }
        }
        let r = CrossChainBridge { config, next_request_id, requests: kept };
        proof {
            assert forall|id: u64| #[trigger] r@.requests.contains_key(id) implies r@.requests[id].request_id
                == id && id < r.next_request_id by {
                let i = choose|i: int| 0 <= i < all.len() && (#[trigger] all[i]).request_id == id;
                assert(kept@[all[i].request_id] == all[i]);
            }
        }
        Some(r)
    }

    /// Gives the bridge its administrator, its validators and the number of
    /// confirmations that a transfer needs. Whatever tokens were registered
    /// and transfers counted are forgotten; the requests stay.
    pub fn initialize(
        &mut self,
        admin: Address,
        initial_validators: Vec<Address>,
        required_confirmations: u32,
    )
        requires
            old(self).wf(),
        ensures
            final(self).wf(),
            final(self)@ == (BridgeView {
                config: Some(
                    BridgeConfigView {
                        admin: admin@,
                        validators: initial_validators@.map_values(|a: Address| a@),
                        required_confirmations: required_confirmations as nat,
                        supported_tokens: Seq::empty(),
                        stellar_nonce: 0,
                        ethereum_nonce: 0,
                    },
                ),
                ..old(self)@
            }),
    {
        let config = BridgeConfig {
            admin,
            validators: initial_validators,
            required_confirmations,
            supported_tokens: Vec::new(),
            stellar_nonce: 0,
            ethereum_nonce: 0,
        };
        assert(config@.supported_tokens =~= Seq::empty());
        self.config = Some(config);
    }

    /// Whether `admin` may register a token.
    pub fn may_register(&self, admin: &Address) -> (r: bool)
        ensures
            r == self@.can_register(admin@),
    {
        match &self.config {
            Some(c) => c.admin.same(admin),
            None => false,
        }
    }

    /// Registers a token for the administrator `admin`, in place of a token
    /// of the same symbol if there is one, and returns `true`.
    pub fn register_token(
        &mut self,
        admin: &Address,
        name: String,
        symbol: String,
        decimals: u32,
        native_chain: ChainId,
        native_address: Vec<u8>,
        wrapped_address: Address,
        min_transfer: i128,
        max_transfer: i128,
    ) -> (r: bool)
        requires
            old(self).wf(),
            old(self)@.can_register(admin@),
        ensures
            final(self).wf(),
            r,
            final(self)@ == (BridgeView {
                config: Some(
                    old(self)@.config->0.with_token(
                        TokenConfigView {
                            name: name@,
                            symbol: symbol@,
                            decimals: decimals as nat,
                            native_chain,
                            native_address: native_address@,
                            wrapped_address: wrapped_address@,
                            min_transfer: min_transfer as int,
                            max_transfer: max_transfer as int,
                        },
                    ),
                ),
                ..old(self)@
            }),
    {
        let token = TokenConfig {
            name,
            symbol,
            decimals,
            native_chain,
            native_address,
            wrapped_address,
            min_transfer,
            max_transfer,
        };
        match &mut self.config {
            None => {},
            Some(config) => {
                let ghost before = config@;
                match find_token(&config.supported_tokens, &token.symbol) {
                    Some(i) => {
                        proof {
                            lemma_first_token(before.supported_tokens, token@.symbol, i as int);
                        }
                        config.supported_tokens.set(i, token);
                        assert(config@.supported_tokens =~= before.supported_tokens.update(
                            i as int,
                            token@,
                        ));
                    },
                    None => {
                        proof {
                            lemma_no_first_token(before.supported_tokens, token@.symbol);
                        }
                        config.supported_tokens.push(token);
                        assert(config@.supported_tokens =~= before.supported_tokens.push(token@));
                    },
                }
                assert(config@.validators =~= before.validators);
                assert(config@ == before.with_token(token@));
            },
        }
        true
    }

    /// The position of the token `token_symbol`, if a transfer of `amount`
    /// of it towards `to_chain` can begin.
    pub fn may_initiate(&self, token_symbol: &String, amount: i128, to_chain: ChainId) -> (r: Option<
        usize,
    >)
        ensures
            match r {
                Some(i) => self@.can_initiate(token_symbol@, amount as int, to_chain, i as int),
                None => forall|i: int|
                    !self@.can_initiate(token_symbol@, amount as int, to_chain, i),
            },
    {
        let config = match &self.config {
            Some(c) => c,
            None => {
                return None;
            },
        };
        let i = match find_token(&config.supported_tokens, token_symbol) {
            Some(i) => i,
            None => {
                assert forall|j: int| !token_at(config@.supported_tokens, token_symbol@, j) by {
                    if 0 <= j < config@.supported_tokens.len() {
                        assert(config@.supported_tokens[j].symbol != token_symbol@);
                    }
                }
                return None;
            },
        };
        assert(config@.supported_tokens[i as int] == config.supported_tokens@[i as int]@);
        assert forall|j: int| token_at(config@.supported_tokens, token_symbol@, j) implies j == i by {
            if j < i {
                assert(config@.supported_tokens[j].symbol != token_symbol@);
            } else if j > i {
                assert(config@.supported_tokens[i as int].symbol != token_symbol@);
            }
        }
        let token = &config.supported_tokens[i];
        let nonce = match to_chain {
            ChainId::Stellar => config.stellar_nonce,
            ChainId::Ethereum => config.ethereum_nonce,
        };
        if amount < token.min_transfer || amount > token.max_transfer || nonce == u64::MAX
            || self.next_request_id == u64::MAX {
            return None;
        }
        Some(i)
    }

    /// Begins a transfer of `amount` of the token `token_symbol` from
    /// `sender` to `recipient` on `to_chain`: a pending request is recorded
    /// under the next id, with the number of transfers begun towards that
    /// chain before it. Returns the id of the request.
    pub fn initiate_transfer(
        &mut self,
        sender: Address,
        token_symbol: String,
        amount: i128,
        to_chain: ChainId,
        recipient: Vec<u8>,
    ) -> (r: u64)
        requires
            old(self).wf(),
            exists|i: int| old(self)@.can_initiate(token_symbol@, amount as int, to_chain, i),
        ensures
            final(self).wf(),
            r == old(self)@.next_request_id,
            final(self)@ == (BridgeView {
                config: Some(old(self)@.config->0.with_next_nonce(to_chain)),
                next_request_id: old(self)@.next_request_id + 1,
                requests: old(self)@.requests.insert(
                    r,
                    BridgeRequestView {
                        request_id: r as nat,
                        from_chain: ChainId::Stellar,
                        to_chain,
                        token_symbol: token_symbol@,
                        amount: amount as int,
                        sender: sender@,
                        recipient: recipient@,
                        status: RequestStatus::Pending,
                        confirmations: Seq::empty(),
                        nonce: old(self)@.config->0.nonce(to_chain),
                    },
                ),
            }),
    {
        let ghost before = self@;
        let mut nonce: u64 = 0;
        match &mut self.config {
            None => {},
            Some(config) => {
                let ghost was = config@;
                match to_chain {
                    ChainId::Stellar => {
                        nonce = config.stellar_nonce;
                        config.stellar_nonce = nonce + 1;
                    },
                    ChainId::Ethereum => {
                        nonce = config.ethereum_nonce;
                        config.ethereum_nonce = nonce + 1;
                    },
                }
                assert(config@.validators =~= was.validators);
                assert(config@.supported_tokens =~= was.supported_tokens);
                assert(config@ == was.with_next_nonce(to_chain));
            },
        }
        let request_id = self.next_request_id;
        let request = BridgeRequest {
            request_id,
            from_chain: ChainId::Stellar,
            to_chain,
            token_symbol,
            amount,
            sender,
            recipient,
            status: RequestStatus::Pending,
            confirmations: Vec::new(),
            nonce,
        };
        assert(request@.confirmations =~= Seq::empty());
        self.requests.insert(request_id, request);
        self.next_request_id = request_id + 1;
        assert(self@.requests =~= before.requests.insert(request_id, request@));
        request_id
    }

    /// Whether `validator` can confirm the request `request_id`.
    pub fn may_confirm(&self, validator: &Address, request_id: u64) -> (r: bool)
        ensures
            r == self@.can_confirm(validator@, request_id),
    {
        match &self.config {
            None => false,
            Some(config) => {
                if !is_listed(&config.validators, validator) {
                    return false;
                }
                match self.requests.get(&request_id) {
                    None => false,
                    Some(request) => request.status == RequestStatus::Pending && !is_listed(
                        &request.confirmations,
                        validator,
                    ),
                }
            },
        }
    }

    /// Records that `validator` confirms the request `request_id`, which is
    /// confirmed once it has as many confirmations as a transfer needs, and
    /// returns `true`.
    pub fn confirm_transfer(&mut self, validator: Address, request_id: u64) -> (r: bool)
        requires
            old(self).wf(),
            old(self)@.can_confirm(validator@, request_id),
        ensures
            final(self).wf(),
            r,
            final(self)@ == (BridgeView {
                requests: old(self)@.requests.insert(
                    request_id,
                    BridgeRequestView {
                        confirmations: old(self)@.requests[request_id].confirmations.push(
                            validator@,
                        ),
                        status: if old(self)@.requests[request_id].confirmations.len() + 1 >= old(
                            self,
                        )@.config->0.required_confirmations {
                            RequestStatus::Confirmed
                        } else {
                            RequestStatus::Pending
                        },
                        ..old(self)@.requests[request_id]
                    },
                ),
                ..old(self)@
            }),
    {
        let ghost before = self@;
        let required = match &self.config {
            Some(c) => c.required_confirmations,
            None => 0,
        };
        let mut request = match self.requests.remove(&request_id) {
            Some(r) => r,
            None => {
                return true;
            },
        };
        let ghost was = request@;
        request.confirmations.push(validator);
        if request.confirmations.len() >= required as usize {
            request.status = RequestStatus::Confirmed;
        }
        assert(request@.confirmations =~= was.confirmations.push(validator@));
        self.requests.insert(request_id, request);
        assert(self@.requests =~= before.requests.insert(request_id, request@));
        true
    }

    /// Whether the request `request_id` can be executed.
    pub fn may_execute(&self, request_id: u64) -> (r: bool)
        ensures
            r == self@.can_execute(request_id),
    {
        match self.requests.get(&request_id) {
            None => false,
            Some(request) => {
                if request.status != RequestStatus::Confirmed {
                    return false;
                }
                match &self.config {
                    None => false,
                    Some(config) => {
                        let found = find_token(&config.supported_tokens, &request.token_symbol);
                        proof {
                            if found is Some {
                                assert(config@.supported_tokens[found->0 as int].symbol
                                    == request@.token_symbol);
                            }
                        }
                        found.is_some()
                    },
                }
            },
        }
    }

    /// Marks the confirmed request `request_id` as executed, and returns
    /// `true`.
    pub fn execute_transfer(&mut self, executor: &Address, request_id: u64) -> (r: bool)
        requires
            old(self).wf(),
            old(self)@.can_execute(request_id),
        ensures
            final(self).wf(),
            r,
            final(self)@ == (BridgeView {
                requests: old(self)@.requests.insert(
                    request_id,
                    BridgeRequestView {
                        status: RequestStatus::Executed,
                        ..old(self)@.requests[request_id]
                    },
                ),
                ..old(self)@
            }),
    {
        let ghost before = self@;
        let mut request = match self.requests.remove(&request_id) {
            Some(r) => r,
            None => {
                return true;
            },
        };
        let ghost was = request@;
        request.status = RequestStatus::Executed;
        assert(request@.confirmations =~= was.confirmations);
        self.requests.insert(request_id, request);
        assert(self@.requests =~= before.requests.insert(request_id, request@));
        true
    }

    /// The request `request_id`, if there is one.
    pub fn get_request(&self, request_id: u64) -> (r: Option<&BridgeRequest>)
        ensures
            match r {
                Some(q) => self@.requests.contains_key(request_id) && q@
                    == self@.requests[request_id],
                None => !self@.requests.contains_key(request_id),
            },
    {
        self.requests.get(&request_id)
    }

    /// The token registered under `symbol`, if the bridge is initialized and
    /// has one.
    pub fn get_token_config(&self, symbol: &String) -> (r: Option<&TokenConfig>)
        ensures
            match r {
                Some(t) => self@.config is Some && exists|i: int|
                    token_at(self@.config->0.supported_tokens, symbol@, i)
                        && self@.config->0.supported_tokens[i] == t@,
                None => self@.config is None || token_missing(
                    self@.config->0.supported_tokens,
                    symbol@,
                ),
            },
    {
        match &self.config {
            None => None,
            Some(config) => match find_token(&config.supported_tokens, symbol) {
                None => None,
                Some(i) => {
                    assert(config@.supported_tokens[i as int] == config.supported_tokens@[i as int]@);
                    assert(token_at(self@.config->0.supported_tokens, symbol@, i as int));
                    Some(&config.supported_tokens[i])
                },
            },
        }
    }

    /// Whether `address` is a validator; nothing, before the bridge is
    /// initialized.
    pub fn is_validator(&self, address: &Address) -> (r: Option<bool>)
        ensures
            match r {
                Some(b) => self@.config is Some && b == listed(self@.config->0.validators, address@),
                None => self@.config is None,
            },
    {
        match &self.config {
            None => None,
            Some(config) => Some(is_listed(&config.validators, address)),
        }
    }
}

} // verus!
