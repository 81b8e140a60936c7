//! Administration: setting the contract up, its configuration, the change of
//! admin, pausing, and replacing the code.

use vstd::prelude::*;

use crate::ledger::CheesePay;
use crate::state::{admin_entry, granted, instance_renewal, refused, Outcome, State};
use crate::text::Address;
use crate::types::{
    Action, ActionView, DataKey, DataKeyView, Entry, EntryView, Env, Error, Event, EventView,
    FEE_RATE_MAX_BPS,
};

verus! {

/// Setting the contract up. The admin to be must sign, so that nobody can get
/// ahead of them.
pub open spec fn initialize(
    s: State,
    admin: Seq<u8>,
    usdc_token: Seq<u8>,
    fee_rate_bps: u32,
    fee_treasury: Seq<u8>,
) -> Outcome {
    let signature = seq![ActionView::RequireAuth(admin)];
    if s.admin is Some {
        Outcome { result: Err(Error::AlreadyInitialized), state: s, actions: signature }
    } else if fee_rate_bps > FEE_RATE_MAX_BPS {
        Outcome { result: Err(Error::FeeTooHigh), state: s, actions: signature }
    } else {
        granted(
            State {
                admin: Some(admin),
                usdc_token: Some(usdc_token),
                fee_rate_bps: Some(fee_rate_bps),
                fee_treasury: Some(fee_treasury),
                paused: Some(false),
                total_balance: Some(0),
                min_withdrawal: Some(0),
                ..s
            },
            signature + seq![
                ActionView::Put(EntryView::Admin(admin)),
                ActionView::Put(EntryView::UsdcToken(usdc_token)),
                ActionView::Put(EntryView::FeeRateBps(fee_rate_bps)),
                ActionView::Put(EntryView::FeeTreasury(fee_treasury)),
                ActionView::Put(EntryView::Paused(false)),
                ActionView::Put(EntryView::TotalBalance(0)),
                ActionView::Put(EntryView::MinWithdrawal(0)),
            ] + instance_renewal(),
        )
    }
}

/// A change of one configuration entry, with its event.
pub open spec fn configured(
    s: State,
    after: State,
    entry: EntryView,
    event: EventView,
) -> Outcome {
    granted(
        after,
        admin_entry(s) + seq![ActionView::Put(entry), ActionView::Publish(event)],
    )
}

/// Changing the fee rate.
pub open spec fn set_fee_rate(s: State, new_fee_bps: u32) -> Outcome {
    if s.admin is None {
        refused(s, Error::NotInitialized)
    } else if new_fee_bps > FEE_RATE_MAX_BPS {
        refused(s, Error::FeeTooHigh)
    } else {
        configured(
            s,
            State { fee_rate_bps: Some(new_fee_bps), ..s },
            EntryView::FeeRateBps(new_fee_bps),
            EventView::FeeSet { fee_bps: new_fee_bps },
        )
    }
}

/// Changing the treasury.
pub open spec fn set_fee_treasury(s: State, new_treasury: Seq<u8>) -> Outcome {
    if s.admin is None {
        refused(s, Error::NotInitialized)
    } else {
        configured(
            s,
            State { fee_treasury: Some(new_treasury), ..s },
            EntryView::FeeTreasury(new_treasury),
            EventView::TrsrySet { treasury: new_treasury },
        )
    }
}

/// Changing the USDC token.
pub open spec fn set_usdc_token(s: State, new_token: Seq<u8>) -> Outcome {
    if s.admin is None {
        refused(s, Error::NotInitialized)
    } else {
        configured(
            s,
            State { usdc_token: Some(new_token), ..s },
            EntryView::UsdcToken(new_token),
            EventView::UsdcSet { token: new_token },
        )
    }
}

/// Changing the least amount of one withdrawal.
pub open spec fn set_min_withdrawal(s: State, min_amount: i128) -> Outcome {
    if s.admin is None {
        refused(s, Error::NotInitialized)
    } else if min_amount < 0 {
        refused(s, Error::InvalidAmount)
    } else {
        configured(
            s,
            State { min_withdrawal: Some(min_amount), ..s },
            EntryView::MinWithdrawal(min_amount),
            EventView::MinWdraw { amount: min_amount },
        )
    }
}

/// Proposing another admin.
pub open spec fn propose_admin(s: State, new_admin: Seq<u8>) -> Outcome {
    if s.admin is None {
        refused(s, Error::NotInitialized)
    } else {
        configured(
            s,
            State { pending_admin: Some(new_admin), ..s },
            EntryView::PendingAdmin(new_admin),
            EventView::AdmProp { candidate: new_admin },
        )
    }
}

/// Accepting the proposal to be the admin. The candidate signs, not the admin.
pub open spec fn accept_admin(s: State) -> Outcome {
    match s.pending_admin {
        None => Outcome { result: Err(Error::NoPendingAdmin), state: s, actions: seq![] },
        Some(candidate) => granted(
            State { admin: Some(candidate), pending_admin: None, ..s },
            instance_renewal() + seq![
                ActionView::RequireAuth(candidate),
                ActionView::Put(EntryView::Admin(candidate)),
                ActionView::Remove(DataKeyView::PendingAdmin),
                ActionView::Publish(EventView::AdmAccpt { admin: candidate }),
            ],
        ),
    }
}

/// Pausing the contract.
pub open spec fn pause(s: State) -> Outcome {
    if s.admin is None {
        refused(s, Error::NotInitialized)
    } else {
        configured(
            s,
            State { paused: Some(true), ..s },
            EntryView::Paused(true),
            EventView::Paused,
        )
    }
}

/// Ending a pause.
pub open spec fn unpause(s: State) -> Outcome {
    if s.admin is None {
        refused(s, Error::NotInitialized)
    } else {
        configured(
            s,
            State { paused: Some(false), ..s },
            EntryView::Paused(false),
            EventView::Unpaused,
        )
    }
}

/// Replacing the contract's code; the storage stays as it is.
pub open spec fn upgrade(s: State, new_wasm_hash: [u8; 32]) -> Outcome {
    if s.admin is None {
        refused(s, Error::NotInitialized)
    } else {
        granted(s, admin_entry(s) + seq![ActionView::UpdateWasm(new_wasm_hash)])
    }
}

impl CheesePay {
    /// Sets the contract up, once.
    pub fn initialize(
        &mut self,
        env: &mut Env,
        admin: &Address,
        usdc_token: &Address,
        fee_rate_bps: u32,
        fee_treasury: &Address,
    ) -> (answer: Result<(), Error>)
        ensures
            answer == initialize(
                old(self)@,
                admin@,
                usdc_token@,
                fee_rate_bps,
                fee_treasury@,
            ).result,
            final(self)@ == initialize(
                old(self)@,
                admin@,
                usdc_token@,
                fee_rate_bps,
                fee_treasury@,
            ).state,
            final(env)@ == old(env)@ + initialize(
                old(self)@,
                admin@,
                usdc_token@,
                fee_rate_bps,
                fee_treasury@,
            ).actions,
            final(env).sequence == old(env).sequence,
    {
        env.ask(Action::RequireAuth(admin.clone()));
        assert(env@ =~= old(env)@ + seq![ActionView::RequireAuth(admin@)]);
        if self.admin.is_some() {
            return Err(Error::AlreadyInitialized);
        }
        if fee_rate_bps > FEE_RATE_MAX_BPS {
            return Err(Error::FeeTooHigh);
        }
        self.write(env, Entry::Admin(admin.clone()));
        self.write(env, Entry::UsdcToken(usdc_token.clone()));
        self.write(env, Entry::FeeRateBps(fee_rate_bps));
        self.write(env, Entry::FeeTreasury(fee_treasury.clone()));
        self.write(env, Entry::Paused(false));
        self.write(env, Entry::TotalBalance(0));
        self.write(env, Entry::MinWithdrawal(0));
        Self::extend_instance_ttl(env);
        assert(env@ =~= old(env)@ + initialize(
            old(self)@,
            admin@,
            usdc_token@,
            fee_rate_bps,
            fee_treasury@,
        ).actions);
        Ok(())
    }

    /// Writes one configuration entry and publishes its event.
    fn configure(&mut self, env: &mut Env, entry: Entry, event: Event)
        requires
            old(self)@.admin is Some,
        ensures
            final(self)@ == crate::state::put(old(self)@, entry@),
            final(env).sequence == old(env).sequence,
            final(env)@ == old(env)@ + instance_renewal() + seq![
                ActionView::Put(entry@),
                ActionView::Publish(event@),
            ],
    {
        Self::extend_instance_ttl(env);
        self.write(env, entry);
        env.ask(Action::Publish(event));
        assert(env@ =~= old(env)@ + instance_renewal() + seq![
            ActionView::Put(entry@),
            ActionView::Publish(event@),
        ]);
    }

    /// Changes the fee rate, in basis points.
    pub fn set_fee_rate(&mut self, env: &mut Env, new_fee_bps: u32) -> (answer: Result<(), Error>)
        ensures
            answer == set_fee_rate(old(self)@, new_fee_bps).result,
            final(self)@ == set_fee_rate(old(self)@, new_fee_bps).state,
            final(env)@ == old(env)@ + set_fee_rate(old(self)@, new_fee_bps).actions,
            final(env).sequence == old(env).sequence,
    {
        if let Err(error) = self.require_admin(env) {
            return Err(error);
        }
        if new_fee_bps > FEE_RATE_MAX_BPS {
            return Err(Error::FeeTooHigh);
        }
        self.configure(
            env,
            Entry::FeeRateBps(new_fee_bps),
            Event::FeeSet { fee_bps: new_fee_bps },
        );
        assert(env@ =~= old(env)@ + set_fee_rate(old(self)@, new_fee_bps).actions);
        Ok(())
    }

    /// Changes the address that receives the fees.
    pub fn set_fee_treasury(&mut self, env: &mut Env, new_treasury: &Address) -> (answer: Result<
        (),
        Error,
    >)
        ensures
            answer == set_fee_treasury(old(self)@, new_treasury@).result,
            final(self)@ == set_fee_treasury(old(self)@, new_treasury@).state,
            final(env)@ == old(env)@ + set_fee_treasury(old(self)@, new_treasury@).actions,
            final(env).sequence == old(env).sequence,
    {
        if let Err(error) = self.require_admin(env) {
            return Err(error);
        }
        self.configure(
            env,
            Entry::FeeTreasury(new_treasury.clone()),
            Event::TrsrySet { treasury: new_treasury.clone() },
        );
        assert(env@ =~= old(env)@ + set_fee_treasury(old(self)@, new_treasury@).actions);
        Ok(())
    }

    /// Changes the address of the USDC token contract.
    pub fn set_usdc_token(&mut self, env: &mut Env, new_token: &Address) -> (answer: Result<
        (),
        Error,
    >)
        ensures
            answer == set_usdc_token(old(self)@, new_token@).result,
            final(self)@ == set_usdc_token(old(self)@, new_token@).state,
            final(env)@ == old(env)@ + set_usdc_token(old(self)@, new_token@).actions,
            final(env).sequence == old(env).sequence,
    {
        if let Err(error) = self.require_admin(env) {
            return Err(error);
        }
        self.configure(
            env,
            Entry::UsdcToken(new_token.clone()),
            Event::UsdcSet { token: new_token.clone() },
        );
        assert(env@ =~= old(env)@ + set_usdc_token(old(self)@, new_token@).actions);
        Ok(())
    }

    /// Changes the least amount of one withdrawal, in stroops; zero is none.
    pub fn set_min_withdrawal(&mut self, env: &mut Env, min_amount: i128) -> (answer: Result<
        (),
        Error,
    >)
        ensures
            answer == set_min_withdrawal(old(self)@, min_amount).result,
            final(self)@ == set_min_withdrawal(old(self)@, min_amount).state,
            final(env)@ == old(env)@ + set_min_withdrawal(old(self)@, min_amount).actions,
            final(env).sequence == old(env).sequence,
    {
        if let Err(error) = self.require_admin(env) {
            return Err(error);
        }
        if min_amount < 0 {
            return Err(Error::InvalidAmount);
        }
        self.configure(
            env,
            Entry::MinWithdrawal(min_amount),
            Event::MinWdraw { amount: min_amount },
        );
        assert(env@ =~= old(env)@ + set_min_withdrawal(old(self)@, min_amount).actions);
        Ok(())
    }

    /// Proposes another admin, who becomes it by `accept_admin`.
    pub fn propose_admin(&mut self, env: &mut Env, new_admin: &Address) -> (answer: Result<
        (),
        Error,
    >)
        ensures
            answer == propose_admin(old(self)@, new_admin@).result,
            final(self)@ == propose_admin(old(self)@, new_admin@).state,
            final(env)@ == old(env)@ + propose_admin(old(self)@, new_admin@).actions,
            final(env).sequence == old(env).sequence,
    {
        if let Err(error) = self.require_admin(env) {
            return Err(error);
        }
        self.configure(
            env,
            Entry::PendingAdmin(new_admin.clone()),
            Event::AdmProp { candidate: new_admin.clone() },
        );
        assert(env@ =~= old(env)@ + propose_admin(old(self)@, new_admin@).actions);
        Ok(())
    }

    /// Makes the proposed admin the admin. They sign, which shows that they hold
    /// the key.
    pub fn accept_admin(&mut self, env: &mut Env) -> (answer: Result<(), Error>)
        ensures
            answer == accept_admin(old(self)@).result,
            final(self)@ == accept_admin(old(self)@).state,
            final(env)@ == old(env)@ + accept_admin(old(self)@).actions,
            final(env).sequence == old(env).sequence,
    {
        let candidate = match &self.pending_admin {
            Some(candidate) => candidate.clone(),
            None => {
                assert(env@ =~= old(env)@ + accept_admin(old(self)@).actions);
                return Err(Error::NoPendingAdmin);
            },
        };
        Self::extend_instance_ttl(env);
        env.ask(Action::RequireAuth(candidate.clone()));
        self.write(env, Entry::Admin(candidate.clone()));
        self.delete(env, DataKey::PendingAdmin);
        env.ask(Action::Publish(Event::AdmAccpt { admin: candidate }));
        assert(env@ =~= old(env)@ + accept_admin(old(self)@).actions);
        Ok(())
    }

    /// Stops everything that moves money.
    pub fn pause(&mut self, env: &mut Env) -> (answer: Result<(), Error>)
        ensures
            answer == pause(old(self)@).result,
            final(self)@ == pause(old(self)@).state,
            final(env)@ == old(env)@ + pause(old(self)@).actions,
            final(env).sequence == old(env).sequence,
    {
        if let Err(error) = self.require_admin(env) {
            return Err(error);
        }
        self.configure(env, Entry::Paused(true), Event::Paused);
        assert(env@ =~= old(env)@ + pause(old(self)@).actions);
        Ok(())
    }

    /// Ends a pause.
    pub fn unpause(&mut self, env: &mut Env) -> (answer: Result<(), Error>)
        ensures
            answer == unpause(old(self)@).result,
            final(self)@ == unpause(old(self)@).state,
            final(env)@ == old(env)@ + unpause(old(self)@).actions,
            final(env).sequence == old(env).sequence,
    {
        if let Err(error) = self.require_admin(env) {
            return Err(error);
        }
        self.configure(env, Entry::Paused(false), Event::Unpaused);
        assert(env@ =~= old(env)@ + unpause(old(self)@).actions);
        Ok(())
    }

    /// Replaces the contract's code by the uploaded code with this hash. The
    /// storage stays as it is.
    pub fn upgrade(&self, env: &mut Env, new_wasm_hash: [u8; 32]) -> (answer: Result<(), Error>)
        ensures
            answer == upgrade(self@, new_wasm_hash).result,
            final(env)@ == old(env)@ + upgrade(self@, new_wasm_hash).actions,
            final(env).sequence == old(env).sequence,
    {
        if let Err(error) = self.require_admin(env) {
            return Err(error);
        }
        Self::extend_instance_ttl(env);
        env.ask(Action::UpdateWasm(new_wasm_hash));
        assert(env@ =~= old(env)@ + upgrade(self@, new_wasm_hash).actions);
        Ok(())
    }
}

} // verus!
