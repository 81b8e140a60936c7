//! Whether a request runs to its end.
//!
//! An invocation fails that renews an entry which is not there, that is to send
//! USDC, or ask how much there is, while the address of the USDC token is not
//! there, or whose amounts leave the range of the numbers the contract counts
//! with. These functions tell beforehand.

use vstd::prelude::*;

use crate::funds::{
    crediting_runs, deposit_by_address_runs, deposit_runs, movement_runs, sweep_excess_runs,
    transfer_runs, withdraw_runs,
};
use crate::ledger::CheesePay;
use crate::paylinks::pay_paylink_runs;
use crate::text::{Address, Text};
use crate::types::{Env, BATCH_MAX_SIZE};
use crate::users::{
    batch_extend_user_ttl_runs, extend_user_ttl_runs, texts, update_address_runs,
};

verus! {

impl CheesePay {
    /// Whether the three entries of a user are all there.
    fn has_user(&self, username: &Text) -> (complete: bool)
        ensures
            complete == self@.user_complete(username@),
    {
        match self.address_of.get(username) {
            Some(address) => self.username_of.has(address.strkey()) && self.balances.has(username),
            None => false,
        }
    }

    /// Whether `balance` can be called.
    pub fn can_balance(&self, username: &Text) -> (runs: bool)
        ensures
            runs == self@.balances.contains_key(username@),
    {
        self.balances.has(username)
    }

    /// Whether `update_address` can be called.
    pub fn can_update_address(&self, username: &Text, new_address: &Address) -> (runs: bool)
        ensures
            runs == update_address_runs(self@, username@, new_address@),
    {
        match self.address_of.get(username) {
            Some(address) => self.admin.is_none() || *address == *new_address
                || self.username_of.has(new_address.strkey()) || self.balances.has(username),
            None => true,
        }
    }

    /// Whether `extend_user_ttl` can be called.
    pub fn can_extend_user_ttl(&self, username: &Text) -> (runs: bool)
        ensures
            runs == extend_user_ttl_runs(self@, username@),
    {
        self.admin.is_none() || !self.address_of.has(username) || self.has_user(username)
    }

    /// Whether `batch_extend_user_ttl` can be called.
    pub fn can_batch_extend_user_ttl(&self, usernames: &Vec<Text>) -> (runs: bool)
        ensures
            runs == batch_extend_user_ttl_runs(self@, texts(usernames@)),
    {
        if self.admin.is_none() || usernames.len() > BATCH_MAX_SIZE as usize {
            return true;
        }
        let ghost us = texts(usernames@);
        let mut i: usize = 0;
        while i < usernames.len()
            invariant
                i <= usernames@.len(),
                us == texts(usernames@),
                us.len() <= BATCH_MAX_SIZE,
                self@.admin is Some,
                forall|j: int|
                    0 <= j < i && self@.registered(#[trigger] us[j]) ==> self@.user_complete(us[j]),
            decreases usernames@.len() - i,
        {
            assert(us[i as int] == usernames@[i as int]@);
            if self.address_of.has(&usernames[i]) && !self.has_user(&usernames[i]) {
                return false;
            }
            i += 1;
        }
        true
    }

    /// Whether `amount` can be credited to a user.
    fn can_credit(&self, username: &Text, amount: i128) -> (runs: bool)
        ensures
            runs == crediting_runs(self@, username@, amount),
    {
        self.has_user(username) && self.balance_or_zero(username).checked_add(amount).is_some()
            && self.total_balance.unwrap_or(0).checked_add(amount).is_some()
    }

    /// Whether nothing that a deposit is checked for, apart from its receiver,
    /// refuses it.
    fn passes_deposit_screen(&self, amount: i128, deposit_id: &Text) -> (passes: bool)
        ensures
            passes == (crate::funds::deposit_screen(self@, amount, deposit_id@) is None),
    {
        self.admin.is_some() && !self.paused.unwrap_or(false) && amount > 0 && !self.deposits.has(
            deposit_id,
        )
    }

    /// Whether `deposit` can be called.
    pub fn can_deposit(&self, username: &Text, amount: i128, deposit_id: &Text) -> (runs: bool)
        ensures
            runs == deposit_runs(self@, username@, amount, deposit_id@),
    {
        !self.passes_deposit_screen(amount, deposit_id) || !self.address_of.has(username)
            || self.can_credit(username, amount)
    }

    /// Whether `deposit_by_address` can be called.
    pub fn can_deposit_by_address(
        &self,
        address: &Address,
        amount: i128,
        deposit_id: &Text,
    ) -> (runs: bool)
        ensures
            runs == deposit_by_address_runs(self@, address@, amount, deposit_id@),
    {
        if !self.passes_deposit_screen(amount, deposit_id) {
            return true;
        }
        match self.username_of.get(address.strkey()) {
            Some(username) => self.can_credit(username, amount),
            None => true,
        }
    }

    /// Whether `withdraw` can be called.
    pub fn can_withdraw(&self, username: &Text, amount: i128) -> (runs: bool)
        ensures
            runs == withdraw_runs(self@, username@, amount),
    {
        if self.admin.is_none() || self.paused.unwrap_or(false) || amount <= 0 || amount
            < self.min_withdrawal.unwrap_or(0) {
            return true;
        }
        match self.balances.get(username) {
            Some(balance) => *balance < amount || (self.has_user(username)
                && self.total_balance.unwrap_or(0).checked_sub(amount).is_some()
                && self.usdc_token.is_some()),
            None => false,
        }
    }

    /// Whether `amount` can move from one user to another at `bps` basis points.
    fn can_move(&self, from: &Text, to: &Text, amount: i128, bps: u32) -> (runs: bool)
        ensures
            runs == movement_runs(self@, from@, to@, amount as int, bps as int),
    {
        if amount.checked_mul(bps as i128).is_none() {
            return false;
        }
        let fee = Self::fee(amount, bps);
        let net = match amount.checked_sub(fee) {
            Some(net) => net,
            None => {
                return false;
            },
        };
        let balance = match self.balances.get(from) {
            Some(balance) => *balance,
            None => {
                return false;
            },
        };
        if balance < amount {
            return true;
        }
        let rest = match balance.checked_sub(amount) {
            Some(rest) => rest,
            None => {
                return false;
            },
        };
        if !self.has_user(from) || !self.has_user(to) {
            return false;
        }
        let received = if *from == *to {
            rest
        } else {
            self.balance_or_zero(to)
        };
        received.checked_add(net).is_some() && (fee <= 0 || (
        self.total_balance.unwrap_or(0).checked_sub(fee).is_some() && (self.fee_treasury.is_none()
            || self.usdc_token.is_some())))
    }

    /// Whether `transfer` can be called.
    pub fn can_transfer(
        &self,
        from_username: &Text,
        to_username: &Text,
        amount: i128,
    ) -> (runs: bool)
        ensures
            runs == transfer_runs(self@, from_username@, to_username@, amount),
    {
        self.admin.is_none() || self.paused.unwrap_or(false) || amount <= 0 || *from_username
            == *to_username || !self.address_of.has(from_username) || !self.address_of.has(
            to_username,
        ) || self.can_move(from_username, to_username, amount, self.fee_rate_bps.unwrap_or(0))
    }

    /// Whether `pay_paylink` can be called.
    pub fn can_pay_paylink(&self, env: &Env, payer_username: &Text, token_id: &Text) -> (runs: bool)
        ensures
            runs == pay_paylink_runs(self@, env.sequence, payer_username@, token_id@),
    {
        if self.admin.is_none() || self.paused.unwrap_or(false) || Self::validate_token_id(
            token_id,
        ).is_err() || !self.address_of.has(payer_username) {
            return true;
        }
        match self.paylinks.get(token_id) {
            Some(link) => link.paid || link.cancelled || env.sequence > link.expiration_ledger
                || self.can_move(
                payer_username,
                &link.creator_username,
                link.amount,
                self.fee_rate_bps.unwrap_or(0),
            ),
            None => true,
        }
    }

    /// Whether `sweep_excess` can be called.
    pub fn can_sweep_excess(&self, contract_usdc: i128) -> (runs: bool)
        ensures
            runs == sweep_excess_runs(self@, contract_usdc),
    {
        self.admin.is_none() || (self.usdc_token.is_some() && contract_usdc.checked_sub(
            self.total_balance.unwrap_or(0),
        ).is_some())
    }
}

} // verus!
