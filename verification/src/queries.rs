//! Questions about the contract's storage.

use vstd::prelude::*;

use crate::ledger::CheesePay;
use crate::state::balance_read;
use crate::text::{Address, Text};
use crate::types::{option_view, ActionView, DataKeyView, Env, Error, PayLinkData};

verus! {

impl CheesePay {
    /// The balance of a user, in stroops: ten million to the USDC. Asking keeps
    /// the balance alive, and fails where there is none.
    pub fn balance(&self, env: &mut Env, username: &Text) -> (balance: i128)
        requires
            self@.balances.contains_key(username@),
        ensures
            balance == self@.balances[username@],
            final(env)@ == old(env)@ + balance_read(username@),
            final(env)@ == old(env)@.push(
                ActionView::ExtendTtl {
                    key: DataKeyView::Balance(username@),
                    threshold: 518_400,
                    extend_to: 1_036_800,
                },
            ),
            final(env).sequence == old(env).sequence,
    {
        self.read_balance(env, username)
    }

    /// The address that a username is bound to.
    pub fn resolve_username(&self, username: &Text) -> (answer: Result<Address, Error>)
        ensures
            match answer {
                Ok(address) => self@.address_of.contains_key(username@) && address@
                    == self@.address_of[username@],
                Err(error) => !self@.address_of.contains_key(username@) && error
                    == Error::UsernameNotFound,
            },
    {
        match self.address_of.get(username) {
            Some(address) => Ok(address.clone()),
            None => Err(Error::UsernameNotFound),
        }
    }

    /// The username that an address is bound to.
    pub fn get_username(&self, address: &Address) -> (answer: Result<Text, Error>)
        ensures
            match answer {
                Ok(username) => self@.username_of.contains_key(address@) && username@
                    == self@.username_of[address@],
                Err(error) => !self@.username_of.contains_key(address@) && error
                    == Error::UserNotFound,
            },
    {
        match self.username_of.get(address.strkey()) {
            Some(username) => Ok(username.clone()),
            None => Err(Error::UserNotFound),
        }
    }

    /// The payment link under an id.
    pub fn get_paylink(&self, token_id: &Text) -> (answer: Result<PayLinkData, Error>)
        ensures
            match answer {
                Ok(link) => self@.paylinks.contains_key(token_id@) && link@
                    == self@.paylinks[token_id@],
                Err(error) => !self@.paylinks.contains_key(token_id@) && error
                    == Error::PayLinkNotFound,
            },
    {
        match self.paylinks.get(token_id) {
            Some(link) => Ok(link.clone()),
            None => Err(Error::PayLinkNotFound),
        }
    }

    /// Whether a username is registered.
    pub fn is_registered(&self, username: &Text) -> (registered: bool)
        ensures
            registered == self@.address_of.contains_key(username@),
    {
        self.address_of.has(username)
    }

    /// Whether an address is registered.
    pub fn is_address_registered(&self, address: &Address) -> (registered: bool)
        ensures
            registered == self@.username_of.contains_key(address@),
    {
        self.username_of.has(address.strkey())
    }

    /// The fee rate, in basis points.
    pub fn fee_rate(&self) -> (bps: u32)
        ensures
            bps == self@.fee_bps(),
            match self@.fee_rate_bps {
                Some(set) => bps == set,
                None => bps == 0,
            },
    {
        self.fee_rate_bps.unwrap_or(0)
    }

    /// Whether the contract is paused.
    pub fn is_paused(&self) -> (paused: bool)
        ensures
            paused == self@.is_paused(),
            paused == (self@.paused == Some(true)),
    {
        self.paused.unwrap_or(false)
    }

    /// The running sum of all balances, in stroops. The contract should hold no
    /// less USDC.
    pub fn total_internal_balance(&self) -> (total: i128)
        ensures
            total == self@.total(),
            match self@.total_balance {
                Some(recorded) => total == recorded,
                None => total == 0,
            },
    {
        self.total_balance.unwrap_or(0)
    }

    /// The admin.
    pub fn get_admin(&self) -> (answer: Result<Address, Error>)
        ensures
            match answer {
                Ok(admin) => self@.admin == Some(admin@),
                Err(error) => self@.admin is None && error == Error::NotInitialized,
            },
    {
        match &self.admin {
            Some(admin) => Ok(admin.clone()),
            None => Err(Error::NotInitialized),
        }
    }

    /// The address that receives the fees.
    pub fn get_fee_treasury(&self) -> (answer: Result<Address, Error>)
        ensures
            match answer {
                Ok(treasury) => self@.fee_treasury == Some(treasury@),
                Err(error) => self@.fee_treasury is None && error == Error::NotInitialized,
            },
    {
        match &self.fee_treasury {
            Some(treasury) => Ok(treasury.clone()),
            None => Err(Error::NotInitialized),
        }
    }

    /// The address of the USDC token contract.
    pub fn get_usdc_token(&self) -> (answer: Result<Address, Error>)
        ensures
            match answer {
                Ok(token) => self@.usdc_token == Some(token@),
                Err(error) => self@.usdc_token is None && error == Error::NotInitialized,
            },
    {
        match &self.usdc_token {
            Some(token) => Ok(token.clone()),
            None => Err(Error::NotInitialized),
        }
    }

    /// The least amount of one withdrawal, in stroops.
    pub fn get_min_withdrawal(&self) -> (amount: i128)
        ensures
            amount == self@.least_withdrawal(),
            match self@.min_withdrawal {
                Some(set) => amount == set,
                None => amount == 0,
            },
    {
        self.min_withdrawal.unwrap_or(0)
    }

    /// The admin who has been proposed, if one has.
    pub fn get_pending_admin(&self) -> (candidate: Option<Address>)
        ensures
            option_view(candidate) == self@.pending_admin,
            match candidate {
                Some(address) => self@.pending_admin == Some(address@),
                None => self@.pending_admin is None,
            },
    {
        match &self.pending_admin {
            Some(candidate) => Some(candidate.clone()),
            None => None,
        }
    }
}

} // verus!
