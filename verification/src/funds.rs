//! Money: deposits, withdrawals, transfers, and sweeping what nobody owns.

use vstd::prelude::*;

use crate::ledger::CheesePay;
use crate::state::{
    admin_entry, balance_read, balance_write, fee_on, fits, granted, refused, user_renewal,
    Outcome, State,
};
use crate::text::{Address, Text};
use crate::types::{
    Action, ActionView, DataKey, DataKeyView, Entry, EntryView, Env, Error, Event, EventView,
    DEPOSIT_ID_TTL,
};

verus! {

/// The storage after `amount` is credited to a user under a deposit id.
pub open spec fn credited(
    s: State,
    username: Seq<u8>,
    amount: i128,
    deposit_id: Seq<u8>,
) -> State {
    State {
        balances: s.balances.insert(username, (s.balances[username] + amount) as i128),
        total_balance: Some((s.total() + amount) as i128),
        deposits: s.deposits.insert(deposit_id),
        ..s
    }
}

/// What crediting `amount` to a user asks of the chain, apart from the event.
pub open spec fn crediting(
    s: State,
    username: Seq<u8>,
    amount: i128,
    deposit_id: Seq<u8>,
) -> Seq<ActionView> {
    seq![
        ActionView::Put(EntryView::ProcessedDeposit(deposit_id)),
        ActionView::FixTtl {
            key: DataKeyView::ProcessedDeposit(deposit_id),
            ttl: DEPOSIT_ID_TTL,
        },
    ] + balance_read(username) + balance_write(
        username,
        (s.balances[username] + amount) as i128,
    ) + user_renewal(s, username) + seq![
        ActionView::Put(EntryView::TotalBalance((s.total() + amount) as i128)),
    ]
}

/// Whether crediting `amount` to a user runs to its end: it fails where an entry
/// of the user is not there and where a sum is too large.
pub open spec fn crediting_runs(s: State, username: Seq<u8>, amount: i128) -> bool {
    &&& s.user_complete(username)
    &&& fits(s.balances[username] + amount)
    &&& fits(s.total() + amount)
}

/// Why a deposit is refused, whoever it is for, if it is.
pub open spec fn deposit_screen(s: State, amount: i128, deposit_id: Seq<u8>) -> Option<Error> {
    if s.admin is None {
        Some(Error::NotInitialized)
    } else if s.is_paused() {
        Some(Error::ContractPaused)
    } else if amount <= 0 {
        Some(Error::InvalidAmount)
    } else if s.deposits.contains(deposit_id) {
        Some(Error::DepositAlreadyProcessed)
    } else {
        None
    }
}

/// Crediting a deposit to a username.
pub open spec fn deposit(
    s: State,
    username: Seq<u8>,
    amount: i128,
    deposit_id: Seq<u8>,
) -> Outcome {
    match deposit_screen(s, amount, deposit_id) {
        Some(error) => refused(s, error),
        None => if !s.registered(username) {
            refused(s, Error::UsernameNotFound)
        } else {
            granted(
                credited(s, username, amount, deposit_id),
                admin_entry(s) + crediting(s, username, amount, deposit_id) + seq![
                    ActionView::Publish(EventView::Deposit { username, amount, deposit_id }),
                ],
            )
        },
    }
}

/// Whether crediting a deposit to a username runs to its end.
pub open spec fn deposit_runs(
    s: State,
    username: Seq<u8>,
    amount: i128,
    deposit_id: Seq<u8>,
) -> bool {
    deposit(s, username, amount, deposit_id).result is Ok ==> crediting_runs(s, username, amount)
}

/// Crediting a deposit to the user who has an address.
pub open spec fn deposit_by_address(
    s: State,
    address: Seq<u8>,
    amount: i128,
    deposit_id: Seq<u8>,
) -> Outcome {
    match deposit_screen(s, amount, deposit_id) {
        Some(error) => refused(s, error),
        None => if !s.username_of.contains_key(address) {
            refused(s, Error::UserNotFound)
        } else {
            let username = s.username_of[address];
            granted(
                credited(s, username, amount, deposit_id),
                admin_entry(s) + crediting(s, username, amount, deposit_id) + seq![
                    ActionView::Publish(
                        EventView::DepositByAddress { username, amount, address, deposit_id },
                    ),
                ],
            )
        },
    }
}

/// Whether crediting a deposit to the user who has an address runs to its end.
pub open spec fn deposit_by_address_runs(
    s: State,
    address: Seq<u8>,
    amount: i128,
    deposit_id: Seq<u8>,
) -> bool {
    deposit_by_address(s, address, amount, deposit_id).result is Ok ==> crediting_runs(
        s,
        s.username_of[address],
        amount,
    )
}

/// Why a withdrawal of `amount` is refused, whatever the balance, if it is.
pub open spec fn withdraw_screen(s: State, amount: i128) -> Option<Error> {
    if s.admin is None {
        Some(Error::NotInitialized)
    } else if s.is_paused() {
        Some(Error::ContractPaused)
    } else if amount <= 0 {
        Some(Error::InvalidAmount)
    } else if amount < s.least_withdrawal() {
        Some(Error::BelowMinWithdrawal)
    } else {
        None
    }
}

/// Paying out of a user's balance to an address.
pub open spec fn withdraw(
    s: State,
    username: Seq<u8>,
    amount: i128,
    to_address: Seq<u8>,
) -> Outcome {
    match withdraw_screen(s, amount) {
        Some(error) => refused(s, error),
        None => if s.balances[username] < amount {
            refused(s, Error::InsufficientBalance)
        } else {
            let rest = (s.balances[username] - amount) as i128;
            let total = (s.total() - amount) as i128;
            granted(
                State {
                    balances: s.balances.insert(username, rest),
                    total_balance: Some(total),
                    ..s
                },
                admin_entry(s) + balance_read(username) + balance_write(username, rest)
                    + user_renewal(s, username) + seq![
                    ActionView::Put(EntryView::TotalBalance(total)),
                    ActionView::UsdcTransfer {
                        token: s.usdc_token->Some_0,
                        to: to_address,
                        amount,
                    },
                    ActionView::Publish(EventView::Withdraw { username, amount, to_address }),
                ],
            )
        },
    }
}

/// Whether a withdrawal runs to its end: it fails where an entry of the user, or
/// the address of the USDC token, is not there, and where a difference is too
/// small.
pub open spec fn withdraw_runs(s: State, username: Seq<u8>, amount: i128) -> bool {
    withdraw_screen(s, amount) is None ==> {
        &&& s.balances.contains_key(username)
        &&& s.balances[username] >= amount ==> {
            &&& s.user_complete(username)
            &&& fits(s.total() - amount)
            &&& s.usdc_token is Some
        }
    }
}

/// The balances after `amount` moves from one user to another, less `fee`.
pub open spec fn balances_after(
    balances: Map<Seq<u8>, i128>,
    from: Seq<u8>,
    to: Seq<u8>,
    amount: int,
    fee: int,
) -> Map<Seq<u8>, i128> {
    let debited = balances.insert(from, (balances[from] - amount) as i128);
    debited.insert(to, (debited[to] + (amount - fee)) as i128)
}

/// The storage after `amount` moves from one user to another, less `fee`, which
/// leaves the contract.
pub open spec fn moved(s: State, from: Seq<u8>, to: Seq<u8>, amount: int, fee: int) -> State {
    State {
        balances: balances_after(s.balances, from, to, amount, fee),
        total_balance: if fee > 0 {
            Some((s.total() - fee) as i128)
        } else {
            s.total_balance
        },
        ..s
    }
}

/// What moving `amount` from one user to another asks of the chain, apart from
/// the event.
pub open spec fn movement(
    s: State,
    from: Seq<u8>,
    to: Seq<u8>,
    amount: int,
    fee: int,
) -> Seq<ActionView> {
    let after = balances_after(s.balances, from, to, amount, fee);
    balance_read(from) + balance_write(from, (s.balances[from] - amount) as i128) + user_renewal(
        s,
        from,
    ) + balance_read(to) + balance_write(to, after[to]) + user_renewal(s, to) + (if fee > 0 {
        seq![
            ActionView::Put(EntryView::TotalBalance((s.total() - fee) as i128)),
            ActionView::UsdcTransfer {
                token: s.usdc_token->Some_0,
                to: s.fee_treasury->Some_0,
                amount: fee as i128,
            },
        ]
    } else {
        seq![]
    })
}

/// Why `amount` cannot move out of a user's balance, less `fee`, if it cannot.
pub open spec fn movement_refusal(
    s: State,
    from: Seq<u8>,
    amount: int,
    fee: int,
) -> Option<Error> {
    if s.balances[from] < amount {
        Some(Error::InsufficientBalance)
    } else if fee > 0 && s.fee_treasury is None {
        Some(Error::NotInitialized)
    } else {
        None
    }
}

/// Whether moving `amount` at `bps` basis points from one user to another runs to
/// its end: it fails where an entry of one of them, or the address of the USDC
/// token, is not there, and where a number is too large or too small.
pub open spec fn movement_runs(
    s: State,
    from: Seq<u8>,
    to: Seq<u8>,
    amount: int,
    bps: int,
) -> bool {
    let fee = fee_on(amount, bps);
    &&& fits(amount * bps)
    &&& fits(amount - fee)
    &&& s.balances.contains_key(from)
    &&& s.balances[from] >= amount ==> {
        &&& fits(s.balances[from] - amount)
        &&& s.user_complete(from)
        &&& s.user_complete(to)
        &&& fits(
            s.balances.insert(from, (s.balances[from] - amount) as i128)[to] + (amount - fee),
        )
        &&& fee > 0 ==> fits(s.total() - fee) && (s.fee_treasury is Some ==> s.usdc_token is Some)
    }
}

/// Why a transfer is refused, whatever the balances, if it is.
pub open spec fn transfer_screen(
    s: State,
    from_username: Seq<u8>,
    to_username: Seq<u8>,
    amount: i128,
) -> Option<Error> {
    if s.admin is None {
        Some(Error::NotInitialized)
    } else if s.is_paused() {
        Some(Error::ContractPaused)
    } else if amount <= 0 {
        Some(Error::InvalidAmount)
    } else if from_username == to_username {
        Some(Error::SelfTransfer)
    } else if !s.registered(from_username) || !s.registered(to_username) {
        Some(Error::UsernameNotFound)
    } else {
        None
    }
}

/// Moving `amount` from one user to another; the fee goes to the treasury.
pub open spec fn transfer(
    s: State,
    from_username: Seq<u8>,
    to_username: Seq<u8>,
    amount: i128,
) -> Outcome {
    let fee = fee_on(amount as int, s.fee_bps() as int);
    match transfer_screen(s, from_username, to_username, amount) {
        Some(error) => refused(s, error),
        None => match movement_refusal(s, from_username, amount as int, fee) {
            Some(error) => refused(s, error),
            None => granted(
                moved(s, from_username, to_username, amount as int, fee),
                admin_entry(s) + movement(s, from_username, to_username, amount as int, fee)
                    + seq![
                    ActionView::Publish(
                        EventView::Transfer {
                            from_username,
                            to_username,
                            amount,
                            fee: fee as i128,
                        },
                    ),
                ],
            ),
        },
    }
}

/// Whether a transfer runs to its end.
pub open spec fn transfer_runs(
    s: State,
    from_username: Seq<u8>,
    to_username: Seq<u8>,
    amount: i128,
) -> bool {
    transfer_screen(s, from_username, to_username, amount) is None ==> movement_runs(
        s,
        from_username,
        to_username,
        amount as int,
        s.fee_bps() as int,
    )
}

/// Sending to `recipient` what the contract holds, `contract_usdc`, beyond the
/// sum of all balances. Nothing is sent if there is no such excess.
pub open spec fn sweep_excess(s: State, recipient: Seq<u8>, contract_usdc: i128) -> Outcome {
    let excess = (contract_usdc - s.total()) as i128;
    if s.admin is None {
        refused(s, Error::NotInitialized)
    } else if contract_usdc <= s.total() {
        granted(s, admin_entry(s))
    } else {
        granted(
            s,
            admin_entry(s) + seq![
                ActionView::UsdcTransfer {
                    token: s.usdc_token->Some_0,
                    to: recipient,
                    amount: excess,
                },
                ActionView::Publish(EventView::Sweep { excess, recipient }),
            ],
        )
    }
}

/// Whether sweeping runs to its end: it fails where the address of the USDC
/// token is not there and where the excess is too large or too small a number.
pub open spec fn sweep_excess_runs(s: State, contract_usdc: i128) -> bool {
    s.admin is Some ==> s.usdc_token is Some && fits(contract_usdc - s.total())
}

impl CheesePay {
    /// Why a deposit is refused, whoever it is for, or `Ok`.
    fn screen_deposit(&self, env: &mut Env, amount: i128, deposit_id: &Text) -> (answer: Result<
        (),
        Error,
    >)
        ensures
            answer == (match deposit_screen(self@, amount, deposit_id@) {
                Some(error) => Err::<(), Error>(error),
                None => Ok(()),
            }),
            final(env).sequence == old(env).sequence,
            final(env)@ == old(env)@ + crate::state::admin_signature(self@),
    {
        if let Err(error) = self.require_admin(env) {
            return Err(error);
        }
        if let Err(error) = self.require_not_paused() {
            return Err(error);
        }
        if amount <= 0 {
            return Err(Error::InvalidAmount);
        }
        if self.deposits.has(deposit_id) {
            return Err(Error::DepositAlreadyProcessed);
        }
        Ok(())
    }

    /// Credits `amount` to a user and records the deposit id.
    fn credit(&mut self, env: &mut Env, username: &Text, amount: i128, deposit_id: &Text)
        requires
            crediting_runs(old(self)@, username@, amount),
        ensures
            final(self)@ == credited(old(self)@, username@, amount, deposit_id@),
            final(env).sequence == old(env).sequence,
            final(env)@ == old(env)@ + crediting(old(self)@, username@, amount, deposit_id@),
    {
        self.write(env, Entry::ProcessedDeposit(deposit_id.clone()));
        env.ask(
            Action::FixTtl {
                key: DataKey::ProcessedDeposit(deposit_id.clone()),
                ttl: DEPOSIT_ID_TTL,
            },
        );
        let current = self.read_balance(env, username);
        self.write_balance(env, username, current + amount);
        self.extend_user_keys(env, username);
        self.adjust_total_balance(env, amount);
        assert(self@ =~= credited(old(self)@, username@, amount, deposit_id@));
        assert(env@ =~= old(env)@ + crediting(old(self)@, username@, amount, deposit_id@));
    }

    /// Credits USDC that has reached the contract to a username.
    ///
    /// `deposit_id` identifies the payment, so that one payment is not credited
    /// twice when it is reported twice.
    pub fn deposit(
        &mut self,
        env: &mut Env,
        username: &Text,
        amount: i128,
        deposit_id: &Text,
    ) -> (answer: Result<(), Error>)
        requires
            deposit_runs(old(self)@, username@, amount, deposit_id@),
        ensures
            answer == deposit(old(self)@, username@, amount, deposit_id@).result,
            final(self)@ == deposit(old(self)@, username@, amount, deposit_id@).state,
            final(env)@ == old(env)@ + deposit(
                old(self)@,
                username@,
                amount,
                deposit_id@,
            ).actions,
            final(env).sequence == old(env).sequence,
    {
        if let Err(error) = self.screen_deposit(env, amount, deposit_id) {
            return Err(error);
        }
        if let Err(error) = self.require_user_exists(username) {
            return Err(error);
        }
        Self::extend_instance_ttl(env);
        self.credit(env, username, amount, deposit_id);
        env.ask(
            Action::Publish(
                Event::Deposit {
                    username: username.clone(),
                    amount,
                    deposit_id: deposit_id.clone(),
                },
            ),
        );
        assert(env@ =~= old(env)@ + deposit(
            old(self)@,
            username@,
            amount,
            deposit_id@,
        ).actions);
        Ok(())
    }

    /// Credits USDC that has reached the contract to the user who has `address`.
    pub fn deposit_by_address(
        &mut self,
        env: &mut Env,
        address: &Address,
        amount: i128,
        deposit_id: &Text,
    ) -> (answer: Result<(), Error>)
        requires
            deposit_by_address_runs(old(self)@, address@, amount, deposit_id@),
        ensures
            answer == deposit_by_address(old(self)@, address@, amount, deposit_id@).result,
            final(self)@ == deposit_by_address(old(self)@, address@, amount, deposit_id@).state,
            final(env)@ == old(env)@ + deposit_by_address(
                old(self)@,
                address@,
                amount,
                deposit_id@,
            ).actions,
            final(env).sequence == old(env).sequence,
    {
        if let Err(error) = self.screen_deposit(env, amount, deposit_id) {
            return Err(error);
        }
        let username = match self.username_of.get(address.strkey()) {
            Some(username) => username.clone(),
            None => {
                return Err(Error::UserNotFound);
            },
        };
        Self::extend_instance_ttl(env);
        self.credit(env, &username, amount, deposit_id);
        env.ask(
            Action::Publish(
                Event::DepositByAddress {
                    username,
                    amount,
                    address: address.clone(),
                    deposit_id: deposit_id.clone(),
                },
            ),
        );
        assert(env@ =~= old(env)@ + deposit_by_address(
            old(self)@,
            address@,
            amount,
            deposit_id@,
        ).actions);
        Ok(())
    }

    /// Pays `amount` out of a user's balance to `to_address`. The balance goes
    /// down and the USDC goes out in one step.
    pub fn withdraw(
        &mut self,
        env: &mut Env,
        username: &Text,
        amount: i128,
        to_address: &Address,
    ) -> (answer: Result<(), Error>)
        requires
            withdraw_runs(old(self)@, username@, amount),
        ensures
            answer == withdraw(old(self)@, username@, amount, to_address@).result,
            final(self)@ == withdraw(old(self)@, username@, amount, to_address@).state,
            final(env)@ == old(env)@ + withdraw(
                old(self)@,
                username@,
                amount,
                to_address@,
            ).actions,
            final(env).sequence == old(env).sequence,
    {
        if let Err(error) = self.require_admin(env) {
            return Err(error);
        }
        if let Err(error) = self.require_not_paused() {
            return Err(error);
        }
        if amount <= 0 {
            return Err(Error::InvalidAmount);
        }
        if amount < self.min_withdrawal.unwrap_or(0) {
            return Err(Error::BelowMinWithdrawal);
        }
        if self.balance_or_zero(username) < amount {
            return Err(Error::InsufficientBalance);
        }
        Self::extend_instance_ttl(env);
        let balance = self.read_balance(env, username);
        self.write_balance(env, username, balance - amount);
        self.extend_user_keys(env, username);
        self.adjust_total_balance(env, -amount);
        if let Some(token) = &self.usdc_token {
            env.ask(
                Action::UsdcTransfer { token: token.clone(), to: to_address.clone(), amount },
            );
        }
        env.ask(
            Action::Publish(
                Event::Withdraw {
                    username: username.clone(),
                    amount,
                    to_address: to_address.clone(),
                },
            ),
        );
        assert(self@ =~= withdraw(old(self)@, username@, amount, to_address@).state);
        assert(env@ =~= old(env)@ + withdraw(
            old(self)@,
            username@,
            amount,
            to_address@,
        ).actions);
        Ok(())
    }

    /// The fee on `amount` at `bps` basis points.
    pub(crate) fn fee(amount: i128, bps: u32) -> (fee: i128)
        requires
            fits(amount * bps),
        ensures
            fee == fee_on(amount as int, bps as int),
    {
        let product: i128 = amount * bps as i128;
        assert(-amount * bps == -(amount * bps)) by (nonlinear_arith);
        assert(amount >= 0 ==> amount * bps >= 0) by (nonlinear_arith)
            requires
                bps >= 0,
        ;
        assert(amount < 0 ==> amount * bps <= 0) by (nonlinear_arith)
            requires
                bps >= 0,
        ;
        product / 10_000
    }

    /// Moves `amount` from one user to another, less `fee`, which goes to the
    /// treasury.
    pub(crate) fn settle(
        &mut self,
        env: &mut Env,
        from: &Text,
        to: &Text,
        amount: i128,
        fee: i128,
    )
        requires
            movement_runs(old(self)@, from@, to@, amount as int, old(self)@.fee_bps() as int),
            fee == fee_on(amount as int, old(self)@.fee_bps() as int),
            movement_refusal(old(self)@, from@, amount as int, fee as int) is None,
        ensures
            final(self)@ == moved(old(self)@, from@, to@, amount as int, fee as int),
            final(env).sequence == old(env).sequence,
            final(env)@ == old(env)@ + movement(
                old(self)@,
                from@,
                to@,
                amount as int,
                fee as int,
            ),
    {
        let from_balance = self.read_balance(env, from);
        self.write_balance(env, from, from_balance - amount);
        self.extend_user_keys(env, from);
        let to_balance = self.read_balance(env, to);
        self.write_balance(env, to, to_balance + (amount - fee));
        self.extend_user_keys(env, to);
        if fee > 0 {
            self.adjust_total_balance(env, -fee);
            if let (Some(token), Some(treasury)) = (&self.usdc_token, &self.fee_treasury) {
                env.ask(
                    Action::UsdcTransfer {
                        token: token.clone(),
                        to: treasury.clone(),
                        amount: fee,
                    },
                );
            }
        }
        assert(self@ =~= moved(old(self)@, from@, to@, amount as int, fee as int));
        assert(env@ =~= old(env)@ + movement(old(self)@, from@, to@, amount as int, fee as int));
    }

    /// Moves `amount` from one user to another. The fee is taken out of the
    /// amount and goes to the treasury; no other USDC leaves the contract.
    ///
    /// At 30 basis points, of 10_000_000 stroops 30_000 are the fee, and the
    /// recipient gets 9_970_000.
    pub fn transfer(
        &mut self,
        env: &mut Env,
        from_username: &Text,
        to_username: &Text,
        amount: i128,
    ) -> (answer: Result<(), Error>)
        requires
            transfer_runs(old(self)@, from_username@, to_username@, amount),
        ensures
            answer == transfer(old(self)@, from_username@, to_username@, amount).result,
            final(self)@ == transfer(old(self)@, from_username@, to_username@, amount).state,
            final(env)@ == old(env)@ + transfer(
                old(self)@,
                from_username@,
                to_username@,
                amount,
            ).actions,
            final(env).sequence == old(env).sequence,
    {
        if let Err(error) = self.require_admin(env) {
            return Err(error);
        }
        if let Err(error) = self.require_not_paused() {
            return Err(error);
        }
        if amount <= 0 {
            return Err(Error::InvalidAmount);
        }
        if *from_username == *to_username {
            return Err(Error::SelfTransfer);
        }
        if let Err(error) = self.require_user_exists(from_username) {
            return Err(error);
        }
        if let Err(error) = self.require_user_exists(to_username) {
            return Err(error);
        }
        let fee = Self::fee(amount, self.fee_rate_bps.unwrap_or(0));
        if self.balance_or_zero(from_username) < amount {
            return Err(Error::InsufficientBalance);
        }
        if fee > 0 && self.fee_treasury.is_none() {
            return Err(Error::NotInitialized);
        }
        Self::extend_instance_ttl(env);
        self.settle(env, from_username, to_username, amount, fee);
        env.ask(
            Action::Publish(
                Event::Transfer {
                    from_username: from_username.clone(),
                    to_username: to_username.clone(),
                    amount,
                    fee,
                },
            ),
        );
        assert(env@ =~= old(env)@ + transfer(
            old(self)@,
            from_username@,
            to_username@,
            amount,
        ).actions);
        Ok(())
    }

    /// Sends to `recipient` what the contract holds beyond the sum of all
    /// balances. `contract_usdc` is what the contract holds. Nothing is sent if
    /// there is no excess.
    pub fn sweep_excess(
        &self,
        env: &mut Env,
        recipient: &Address,
        contract_usdc: i128,
    ) -> (answer: Result<(), Error>)
        requires
            sweep_excess_runs(self@, contract_usdc),
        ensures
            answer == sweep_excess(self@, recipient@, contract_usdc).result,
            final(env)@ == old(env)@ + sweep_excess(self@, recipient@, contract_usdc).actions,
            final(env).sequence == old(env).sequence,
    {
        if let Err(error) = self.require_admin(env) {
            return Err(error);
        }
        Self::extend_instance_ttl(env);
        let excess: i128 = contract_usdc - self.total_balance.unwrap_or(0);
        if excess <= 0 {
            assert(env@ =~= old(env)@ + admin_entry(self@));
            return Ok(());
        }
        if let Some(token) = &self.usdc_token {
            env.ask(
                Action::UsdcTransfer {
                    token: token.clone(),
                    to: recipient.clone(),
                    amount: excess,
                },
            );
        }
        env.ask(Action::Publish(Event::Sweep { excess, recipient: recipient.clone() }));
        assert(env@ =~= old(env)@ + sweep_excess(self@, recipient@, contract_usdc).actions);
        Ok(())
    }
}

} // verus!
