//! The contract's storage, and the steps that its requests are made of.

use vstd::prelude::*;

use crate::state::{
    admin_signature, balance_read, balance_write, blank, instance_renewal, put, renewal,
    user_renewal, without, State,
};
use crate::table::Table;
use crate::text::{Address, Text};
use crate::types::{
    option_view, Action, ActionView, DataKey, Entry, EntryView, Env, Error, PayLinkData,
    LEDGER_TTL_EXTEND_TO, LEDGER_TTL_THRESHOLD, TOKEN_ID_MAX_LEN, TOKEN_ID_MIN_LEN,
    USERNAME_MAX_LEN, USERNAME_MIN_LEN,
};

verus! {

/// The contract: what its storage holds.
///
/// A value need not hold every entry of the chain: it is enough to `store` those
/// that a request is about.
#[derive(Debug)]
pub struct CheesePay {
    pub admin: Option<Address>,
    pub usdc_token: Option<Address>,
    pub fee_rate_bps: Option<u32>,
    pub fee_treasury: Option<Address>,
    pub paused: Option<bool>,
    pub total_balance: Option<i128>,
    pub min_withdrawal: Option<i128>,
    pub pending_admin: Option<Address>,
    pub balances: Table<i128>,
    pub address_of: Table<Address>,
    pub username_of: Table<Text>,
    pub paylinks: Table<PayLinkData>,
    pub deposits: Table<bool>,
}

impl View for CheesePay {
    type V = State;

    open spec fn view(&self) -> State {
        State {
            admin: option_view(self.admin),
            usdc_token: option_view(self.usdc_token),
            fee_rate_bps: self.fee_rate_bps,
            fee_treasury: option_view(self.fee_treasury),
            paused: self.paused,
            total_balance: self.total_balance,
            min_withdrawal: self.min_withdrawal,
            pending_admin: option_view(self.pending_admin),
            balances: self.balances@,
            address_of: self.address_of@,
            username_of: self.username_of@,
            paylinks: self.paylinks@,
            deposits: self.deposits@.dom(),
        }
    }
}

/// Whether a username has an admissible length.
pub open spec fn valid_username(username: Seq<u8>) -> bool {
    USERNAME_MIN_LEN <= username.len() <= USERNAME_MAX_LEN
}

/// Whether a payment link id has an admissible length.
pub open spec fn valid_token_id(token_id: Seq<u8>) -> bool {
    TOKEN_ID_MIN_LEN <= token_id.len() <= TOKEN_ID_MAX_LEN
}

impl CheesePay {
    /// A contract with no entries.
    pub fn new() -> (pay: CheesePay)
        ensures
            pay@ == blank(),
    {
        let pay = CheesePay {
            admin: None,
            usdc_token: None,
            fee_rate_bps: None,
            fee_treasury: None,
            paused: None,
            total_balance: None,
            min_withdrawal: None,
            pending_admin: None,
            balances: Table::new(),
            address_of: Table::new(),
            username_of: Table::new(),
            paylinks: Table::new(),
            deposits: Table::new(),
        };
        assert(pay@ =~= blank());
        pay
    }

    /// Holds an entry from now on.
    pub fn store(&mut self, entry: Entry)
        ensures
            final(self)@ == put(old(self)@, entry@),
    {
        match entry {
            Entry::Admin(admin) => self.admin = Some(admin),
            Entry::UsdcToken(token) => self.usdc_token = Some(token),
            Entry::FeeRateBps(bps) => self.fee_rate_bps = Some(bps),
            Entry::FeeTreasury(treasury) => self.fee_treasury = Some(treasury),
            Entry::Paused(paused) => self.paused = Some(paused),
            Entry::TotalBalance(total) => self.total_balance = Some(total),
            Entry::MinWithdrawal(amount) => self.min_withdrawal = Some(amount),
            Entry::PendingAdmin(candidate) => self.pending_admin = Some(candidate),
            Entry::Balance(username, amount) => self.balances.set(username, amount),
            Entry::UsernameToAddr(username, address) => self.address_of.set(username, address),
            Entry::AddrToUsername(address, username) => self.username_of.set(
                address.strkey().clone(),
                username,
            ),
            Entry::PayLink(token_id, link) => self.paylinks.set(token_id, link),
            Entry::ProcessedDeposit(deposit_id) => self.deposits.set(deposit_id, true),
        }
        assert(self@ =~= put(old(self)@, entry@));
    }

    /// Holds no entry under a key from now on.
    pub fn erase(&mut self, key: &DataKey)
        ensures
            final(self)@ == without(old(self)@, key@),
    {
        match key {
            DataKey::Admin => self.admin = None,
            DataKey::UsdcToken => self.usdc_token = None,
            DataKey::FeeRateBps => self.fee_rate_bps = None,
            DataKey::FeeTreasury => self.fee_treasury = None,
            DataKey::Paused => self.paused = None,
            DataKey::TotalBalance => self.total_balance = None,
            DataKey::MinWithdrawal => self.min_withdrawal = None,
            DataKey::PendingAdmin => self.pending_admin = None,
            DataKey::Balance(username) => self.balances.remove(username),
            DataKey::UsernameToAddr(username) => self.address_of.remove(username),
            DataKey::AddrToUsername(address) => self.username_of.remove(address.strkey()),
            DataKey::PayLink(token_id) => self.paylinks.remove(token_id),
            DataKey::ProcessedDeposit(deposit_id) => self.deposits.remove(deposit_id),
        }
        assert(self@ =~= without(old(self)@, key@));
    }

    /// Writes an entry, here and on the chain.
    pub(crate) fn write(&mut self, env: &mut Env, entry: Entry)
        ensures
            final(self)@ == put(old(self)@, entry@),
            final(env).sequence == old(env).sequence,
            final(env)@ == old(env)@.push(ActionView::Put(entry@)),
    {
        env.ask(Action::Put(entry.clone()));
        self.store(entry);
    }

    /// Deletes an entry, here and on the chain.
    pub(crate) fn delete(&mut self, env: &mut Env, key: DataKey)
        ensures
            final(self)@ == without(old(self)@, key@),
            final(env).sequence == old(env).sequence,
            final(env)@ == old(env)@.push(ActionView::Remove(key@)),
    {
        self.erase(&key);
        env.ask(Action::Remove(key));
    }

    /// Demands the admin's signature.
    pub(crate) fn require_admin(&self, env: &mut Env) -> (answer: Result<(), Error>)
        ensures
            answer == (if self@.admin is Some {
                Ok(())
            } else {
                Err::<(), Error>(Error::NotInitialized)
            }),
            final(env).sequence == old(env).sequence,
            final(env)@ == old(env)@ + admin_signature(self@),
    {
        match &self.admin {
            Some(admin) => {
                env.ask(Action::RequireAuth(admin.clone()));
                assert(env@ =~= old(env)@ + admin_signature(self@));
                Ok(())
            },
            None => {
                assert(env@ =~= old(env)@ + admin_signature(self@));
                Err(Error::NotInitialized)
            },
        }
    }

    pub(crate) fn require_not_paused(&self) -> (answer: Result<(), Error>)
        ensures
            answer == (if self@.is_paused() {
                Err::<(), Error>(Error::ContractPaused)
            } else {
                Ok(())
            }),
    {
        if self.paused.unwrap_or(false) {
            Err(Error::ContractPaused)
        } else {
            Ok(())
        }
    }

    pub(crate) fn require_user_exists(&self, username: &Text) -> (answer: Result<(), Error>)
        ensures
            answer == (if self@.registered(username@) {
                Ok(())
            } else {
                Err::<(), Error>(Error::UsernameNotFound)
            }),
    {
        if !self.address_of.has(username) {
            return Err(Error::UsernameNotFound);
        }
        Ok(())
    }

    /// Keeps the instance entries alive.
    pub(crate) fn extend_instance_ttl(env: &mut Env)
        ensures
            final(env).sequence == old(env).sequence,
            final(env)@ == old(env)@ + instance_renewal(),
    {
        env.ask(
            Action::ExtendInstanceTtl {
                threshold: LEDGER_TTL_THRESHOLD,
                extend_to: LEDGER_TTL_EXTEND_TO,
            },
        );
        assert(env@ =~= old(env)@ + instance_renewal());
    }

    /// Keeps one user entry alive.
    pub(crate) fn extend_ttl(env: &mut Env, key: DataKey)
        ensures
            final(env).sequence == old(env).sequence,
            final(env)@ == old(env)@.push(renewal(key@)),
    {
        env.ask(
            Action::ExtendTtl {
                key,
                threshold: LEDGER_TTL_THRESHOLD,
                extend_to: LEDGER_TTL_EXTEND_TO,
            },
        );
    }

    /// Keeps the three entries of a user alive.
    pub(crate) fn extend_user_keys(&self, env: &mut Env, username: &Text)
        requires
            self@.user_complete(username@),
        ensures
            final(env).sequence == old(env).sequence,
            final(env)@ == old(env)@ + user_renewal(self@, username@),
    {
        Self::extend_ttl(env, DataKey::UsernameToAddr(username.clone()));
        if let Some(address) = self.address_of.get(username) {
            Self::extend_ttl(env, DataKey::AddrToUsername(address.clone()));
        }
        Self::extend_ttl(env, DataKey::Balance(username.clone()));
        assert(env@ =~= old(env)@ + user_renewal(self@, username@));
    }

    /// Reads a balance and keeps it alive.
    pub(crate) fn read_balance(&self, env: &mut Env, username: &Text) -> (balance: i128)
        requires
            self@.balances.contains_key(username@),
        ensures
            balance == self@.balances[username@],
            final(env).sequence == old(env).sequence,
            final(env)@ == old(env)@ + balance_read(username@),
    {
        let balance = self.balance_or_zero(username);
        Self::extend_ttl(env, DataKey::Balance(username.clone()));
        assert(env@ =~= old(env)@ + balance_read(username@));
        balance
    }

    /// A balance as it stands; zero if there is none.
    pub(crate) fn balance_or_zero(&self, username: &Text) -> (balance: i128)
        ensures
            balance == (if self@.balances.contains_key(username@) {
                self@.balances[username@]
            } else {
                0
            }),
    {
        match self.balances.get(username) {
            Some(balance) => *balance,
            None => 0,
        }
    }

    /// Writes a balance and keeps it alive.
    pub(crate) fn write_balance(&mut self, env: &mut Env, username: &Text, amount: i128)
        ensures
            final(self)@ == put(old(self)@, EntryView::Balance(username@, amount)),
            final(env).sequence == old(env).sequence,
            final(env)@ == old(env)@ + balance_write(username@, amount),
    {
        self.write(env, Entry::Balance(username.clone(), amount));
        Self::extend_ttl(env, DataKey::Balance(username.clone()));
        assert(env@ =~= old(env)@ + balance_write(username@, amount));
    }

    /// Moves the running sum of all balances by `delta`.
    pub(crate) fn adjust_total_balance(&mut self, env: &mut Env, delta: i128)
        requires
            i128::MIN <= old(self)@.total() + delta <= i128::MAX,
        ensures
            final(self)@ == put(
                old(self)@,
                EntryView::TotalBalance((old(self)@.total() + delta) as i128),
            ),
            final(env).sequence == old(env).sequence,
            final(env)@ == old(env)@.push(
                ActionView::Put(EntryView::TotalBalance((old(self)@.total() + delta) as i128)),
            ),
    {
        let current: i128 = self.total_balance.unwrap_or(0);
        self.write(env, Entry::TotalBalance(current + delta));
    }

    pub(crate) fn validate_username(username: &Text) -> (answer: Result<(), Error>)
        ensures
            answer == (if valid_username(username@) {
                Ok(())
            } else {
                Err::<(), Error>(Error::InvalidUsername)
            }),
    {
        let len = username.len();
        if len < USERNAME_MIN_LEN as usize || len > USERNAME_MAX_LEN as usize {
            return Err(Error::InvalidUsername);
        }
        Ok(())
    }

    pub(crate) fn validate_token_id(token_id: &Text) -> (answer: Result<(), Error>)
        ensures
            answer == (if valid_token_id(token_id@) {
                Ok(())
            } else {
                Err::<(), Error>(Error::InvalidTokenId)
            }),
    {
        let len = token_id.len();
        if len < TOKEN_ID_MIN_LEN as usize || len > TOKEN_ID_MAX_LEN as usize {
            return Err(Error::InvalidTokenId);
        }
        Ok(())
    }
}

} // verus!
