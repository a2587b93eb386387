//! The reward token: balances that administrators mint and holders transfer.

use crate::address::{lemma_map_of_dom, Address, AddressMap};
use vstd::prelude::*;

verus! {

/// The reward token: who administers it, its name and symbol, what was
/// minted, and what each account holds.
#[derive(Debug)]
pub struct RewardToken {
    pub admins: AddressMap<bool>,
    pub name: Option<String>,
    pub symbol: Option<String>,
    pub supply: Option<i128>,
    pub balances: AddressMap<i128>,
}

/// What the reward token is, as mathematics.
pub struct RewardView {
    pub admins: Map<Seq<char>, bool>,
    pub name: Option<Seq<char>>,
    pub symbol: Option<Seq<char>>,
    pub supply: Option<int>,
    pub balances: Map<Seq<char>, int>,
}

impl View for RewardToken {
    type V = RewardView;

    open spec fn view(&self) -> RewardView {
        RewardView {
            admins: self.admins@,
            name: match self.name {
                Some(n) => Some(n@),
                None => None,
            },
            symbol: match self.symbol {
                Some(s) => Some(s@),
                None => None,
            },
            supply: match self.supply {
                Some(s) => Some(s as int),
                None => None,
            },
            balances: self.balances@.map_values(|b: i128| b as int),
        }
    }
}

impl RewardView {
    /// `who` administers the token.
    pub open spec fn is_admin(self, who: Seq<char>) -> bool {
        self.admins.contains_key(who) && self.admins[who]
    }

    /// What `who` holds.
    pub open spec fn balance_of(self, who: Seq<char>) -> int {
        if self.balances.contains_key(who) {
            self.balances[who]
        } else {
            0
        }
    }

    /// What was minted in all.
    pub open spec fn total_supply(self) -> int {
        match self.supply {
            Some(s) => s,
            None => 0,
        }
    }

    /// The token once `to` was given `amount` more.
    pub open spec fn after_mint(self, to: Seq<char>, amount: int) -> RewardView {
        RewardView {
            balances: self.balances.insert(to, self.balance_of(to) + amount),
            supply: Some(self.total_supply() + amount),
            ..self
        }
    }

    /// The token once `amount` went from `from` to `to`: `from` holds that
    /// much less, and then `to` holds that much more than it held before.
    pub open spec fn after_transfer(self, from: Seq<char>, to: Seq<char>, amount: int) -> RewardView {
        RewardView {
            balances: self.balances.insert(from, self.balance_of(from) - amount).insert(
                to,
                self.balance_of(to) + amount,
            ),
            ..self
        }
    }
}

impl RewardToken {
    /// No principal occurs twice among the administrators or the accounts.
    pub open spec fn wf(&self) -> bool {
        self.admins.wf() && self.balances.wf()
    }

    /// Whether no principal occurs twice among the administrators or the
    /// accounts.
    pub fn is_valid(&self) -> (r: bool)
        ensures
            r == self.wf(),
    {
        self.admins.is_valid() && self.balances.is_valid()
    }

    /// A token without administrator, name or balance.
    pub fn new() -> (r: Self)
        ensures
            r.wf(),
            r@.admins == Map::<Seq<char>, bool>::empty(),
            r@.balances == Map::<Seq<char>, int>::empty(),
            r@.name is None,
            r@.symbol is None,
            r@.supply is None,
    {
        let r = RewardToken {
            admins: AddressMap::new(),
            name: None,
            symbol: None,
            supply: None,
            balances: AddressMap::new(),
        };
        assert(r@.balances =~= Map::empty());
        r
    }

    /// Makes `admin` an administrator, names the token, and counts what was
    /// minted from zero again. The balances stay as they are.
    pub fn initialize(&mut self, admin: Address, name: String, symbol: String)
        requires
            old(self).wf(),
        ensures
            final(self).wf(),
            final(self)@ == (RewardView {
                admins: old(self)@.admins.insert(admin@, true),
                name: Some(name@),
                symbol: Some(symbol@),
                supply: Some(0int),
                ..old(self)@
            }),
    {
        self.admins.set(admin, true);
        self.name = Some(name);
        self.symbol = Some(symbol);
        self.supply = Some(0);
    }

    /// Whether the balance and the supply fit their 128 bits once
    /// `mint_reward` is called with these arguments: whether it can be
    /// called.
    pub fn mint_reward_fits(&self, admin: &Address, to: &Address, amount: i128) -> (r: bool)
        requires
            self.wf(),
        ensures
            r == (self@.is_admin(admin@) ==> {
                &&& i128::MIN <= self@.balance_of(to@) + amount <= i128::MAX
                &&& i128::MIN <= self@.total_supply() + amount <= i128::MAX
            }),
    {
        proof {
            lemma_map_of_dom(self.admins.entries@);
        }
        let allowed = match self.admins.get(admin) {
            Some(flag) => flag,
            None => false,
        };
        if !allowed {
            return true;
        }
        let balance = self.get_balance(to);
        let supply = self.get_total_supply();
        balance.checked_add(amount).is_some() && supply.checked_add(amount).is_some()
    }

    /// Whether the balances fit their 128 bits once `transfer` is called
    /// with these arguments: whether it can be called.
    pub fn transfer_fits(&self, from: &Address, to: &Address, amount: i128) -> (r: bool)
        requires
            self.wf(),
        ensures
            r == (self@.balance_of(from@) >= amount ==> {
                &&& i128::MIN <= self@.balance_of(from@) - amount <= i128::MAX
                &&& i128::MIN <= self@.balance_of(to@) + amount <= i128::MAX
            }),
    {
        let from_balance = self.get_balance(from);
        let to_balance = self.get_balance(to);
        if from_balance < amount {
            return true;
        }
        from_balance.checked_sub(amount).is_some() && to_balance.checked_add(amount).is_some()
    }

    /// Gives `amount` more to `to`, for an administrator, and returns `true`;
    /// for anybody else nothing is minted, and `false` is returned.
    pub fn mint_reward(&mut self, admin: &Address, to: Address, amount: i128) -> (r: bool)
        requires
            old(self).wf(),
            old(self)@.is_admin(admin@) ==> {
                &&& i128::MIN <= old(self)@.balance_of(to@) + amount <= i128::MAX
                &&& i128::MIN <= old(self)@.total_supply() + amount <= i128::MAX
            },
        ensures
            final(self).wf(),
            r == old(self)@.is_admin(admin@),
            r ==> final(self)@ == old(self)@.after_mint(to@, amount as int),
            !r ==> *final(self) == *old(self),
    {
        proof {
            lemma_map_of_dom(self.admins.entries@);
            lemma_map_of_dom(self.balances.entries@);
        }
        let allowed = match self.admins.get(admin) {
            Some(flag) => flag,
            None => false,
        };
        if !allowed {
            return false;
        }
        let ghost before = self@;
        let current = match self.balances.get(&to) {
            Some(b) => b,
            None => 0,
        };
        assert(current == before.balance_of(to@));
        self.balances.set(to, current + amount);
        let total = match self.supply {
            Some(s) => s,
            None => 0,
        };
        self.supply = Some(total + amount);
        assert(self@.balances =~= before.after_mint(to@, amount as int).balances);
        true
    }

    /// What `account` holds.
    pub fn get_balance(&self, account: &Address) -> (r: i128)
        requires
            self.wf(),
        ensures
            r == self@.balance_of(account@),
    {
        proof {
            lemma_map_of_dom(self.balances.entries@);
        }
        match self.balances.get(account) {
            Some(b) => b,
            None => 0,
        }
    }

    /// Moves `amount` from `from` to `to` and returns `true`, unless `from`
    /// holds less: then nothing moves, and `false` is returned.
    pub fn transfer(&mut self, from: Address, to: Address, amount: i128) -> (r: bool)
        requires
            old(self).wf(),
            old(self)@.balance_of(from@) >= amount ==> {
                &&& i128::MIN <= old(self)@.balance_of(from@) - amount <= i128::MAX
                &&& i128::MIN <= old(self)@.balance_of(to@) + amount <= i128::MAX
            },
        ensures
            final(self).wf(),
            r == (old(self)@.balance_of(from@) >= amount),
            r ==> final(self)@ == old(self)@.after_transfer(from@, to@, amount as int),
            !r ==> *final(self) == *old(self),
    {
        proof {
            lemma_map_of_dom(self.balances.entries@);
        }
        let ghost before = self@;
        let from_balance = match self.balances.get(&from) {
            Some(b) => b,
            None => 0,
        };
        let to_balance = match self.balances.get(&to) {
            Some(b) => b,
            None => 0,
        };
        if from_balance < amount {
            return false;
        }
        self.balances.set(from, from_balance - amount);
        self.balances.set(to, to_balance + amount);
        assert(self@.balances =~= before.after_transfer(from@, to@, amount as int).balances);
        true
    }

    /// The name and the symbol of the token, empty while it has none, and
    /// what was minted in all.
    pub fn get_metadata(&self) -> (r: (String, String, i128))
        ensures
            r.0@ == (match self@.name {
                Some(n) => n,
                None => Seq::<char>::empty(),
            }),
            r.1@ == (match self@.symbol {
                Some(s) => s,
                None => Seq::<char>::empty(),
            }),
            r.2 == self@.total_supply(),
    {
        let name = match &self.name {
            Some(n) => n.clone(),
            None => String::new(),
        };
        let symbol = match &self.symbol {
            Some(s) => s.clone(),
            None => String::new(),
        };
        let supply = match self.supply {
            Some(s) => s,
            None => 0,
        };
        (name, symbol, supply)
    }

    /// What was minted in all.
    pub fn get_total_supply(&self) -> (r: i128)
        ensures
            r == self@.total_supply(),
    {
        match self.supply {
            Some(s) => s,
            None => 0,
        }
    }
}

} // verus!
