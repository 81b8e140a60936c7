//! Payment links: creating, paying and cancelling them.

use vstd::prelude::*;

use crate::funds::{moved, movement, movement_refusal, movement_runs};
use crate::ledger::{valid_token_id, CheesePay};
use crate::state::{admin_entry, fee_on, granted, refused, Outcome, State};
use crate::text::Text;
use crate::types::{
    Action, ActionView, DataKey, DataKeyView, Entry, EntryView, Env, Error, Event, EventView,
    PayLinkData, PayLinkView, NOTE_MAX_LEN, PAYLINK_TTL_EXTEND_TO, PAYLINK_TTL_THRESHOLD,
};

verus! {

/// The renewal of a payment link.
pub open spec fn paylink_renewal(token_id: Seq<u8>) -> ActionView {
    ActionView::ExtendTtl {
        key: DataKeyView::PayLink(token_id),
        threshold: PAYLINK_TTL_THRESHOLD,
        extend_to: PAYLINK_TTL_EXTEND_TO,
    }
}

/// A payment link as it is created.
pub open spec fn fresh_link(
    sequence: u32,
    creator_username: Seq<u8>,
    amount: i128,
    note: Seq<u8>,
    expiration_ledger: u32,
) -> PayLinkView {
    PayLinkView {
        creator_username,
        amount,
        note,
        paid: false,
        cancelled: false,
        expiration_ledger,
        created_at_ledger: sequence,
        payer_username: None,
        paid_at_ledger: None,
    }
}

/// Why a payment link is not created, if it is not.
pub open spec fn create_paylink_refusal(
    s: State,
    sequence: u32,
    creator_username: Seq<u8>,
    token_id: Seq<u8>,
    amount: i128,
    note: Seq<u8>,
    expiration_ledger: u32,
) -> Option<Error> {
    if s.admin is None {
        Some(Error::NotInitialized)
    } else if s.is_paused() {
        Some(Error::ContractPaused)
    } else if !valid_token_id(token_id) {
        Some(Error::InvalidTokenId)
    } else if amount <= 0 {
        Some(Error::InvalidAmount)
    } else if note.len() > NOTE_MAX_LEN {
        Some(Error::NoteTooLong)
    } else if !s.registered(creator_username) {
        Some(Error::UsernameNotFound)
    } else if s.paylinks.contains_key(token_id) {
        Some(Error::PayLinkAlreadyExists)
    } else if expiration_ledger <= sequence {
        Some(Error::PayLinkExpired)
    } else {
        None
    }
}

/// Creating a payment link at ledger `sequence`.
pub open spec fn create_paylink(
    s: State,
    sequence: u32,
    creator_username: Seq<u8>,
    token_id: Seq<u8>,
    amount: i128,
    note: Seq<u8>,
    expiration_ledger: u32,
) -> Outcome {
    match create_paylink_refusal(
        s,
        sequence,
        creator_username,
        token_id,
        amount,
        note,
        expiration_ledger,
    ) {
        Some(error) => refused(s, error),
        None => {
            let link = fresh_link(sequence, creator_username, amount, note, expiration_ledger);
            granted(
                State { paylinks: s.paylinks.insert(token_id, link), ..s },
                admin_entry(s) + seq![
                    ActionView::Put(EntryView::PayLink(token_id, link)),
                    paylink_renewal(token_id),
                    ActionView::Publish(
                        EventView::PlCreate { creator_username, token_id, amount },
                    ),
                ],
            )
        },
    }
}

/// A payment link after it is paid.
pub open spec fn paid_link(
    link: PayLinkView,
    sequence: u32,
    payer_username: Seq<u8>,
) -> PayLinkView {
    PayLinkView {
        paid: true,
        payer_username: Some(payer_username),
        paid_at_ledger: Some(sequence),
        ..link
    }
}

/// Why a payment link cannot be paid, whatever the balances, if it cannot.
pub open spec fn pay_paylink_screen(
    s: State,
    sequence: u32,
    payer_username: Seq<u8>,
    token_id: Seq<u8>,
) -> Option<Error> {
    let link = s.paylinks[token_id];
    if s.admin is None {
        Some(Error::NotInitialized)
    } else if s.is_paused() {
        Some(Error::ContractPaused)
    } else if !valid_token_id(token_id) {
        Some(Error::InvalidTokenId)
    } else if !s.registered(payer_username) {
        Some(Error::UsernameNotFound)
    } else if !s.paylinks.contains_key(token_id) {
        Some(Error::PayLinkNotFound)
    } else if link.paid {
        Some(Error::PayLinkAlreadyPaid)
    } else if link.cancelled {
        Some(Error::PayLinkCancelled)
    } else if sequence > link.expiration_ledger {
        Some(Error::PayLinkExpired)
    } else {
        None
    }
}

/// Paying a payment link at ledger `sequence` out of a user's balance; the fee
/// goes to the treasury.
pub open spec fn pay_paylink(
    s: State,
    sequence: u32,
    payer_username: Seq<u8>,
    token_id: Seq<u8>,
) -> Outcome {
    let link = s.paylinks[token_id];
    let creator_username = link.creator_username;
    let amount = link.amount;
    let fee = fee_on(amount as int, s.fee_bps() as int);
    let paid = paid_link(link, sequence, payer_username);
    match pay_paylink_screen(s, sequence, payer_username, token_id) {
        Some(error) => refused(s, error),
        None => match movement_refusal(s, payer_username, amount as int, fee) {
            Some(error) => refused(s, error),
            None => granted(
                State {
                    paylinks: s.paylinks.insert(token_id, paid),
                    ..moved(s, payer_username, creator_username, amount as int, fee)
                },
                admin_entry(s) + movement(
                    s,
                    payer_username,
                    creator_username,
                    amount as int,
                    fee,
                ) + seq![
                    ActionView::Put(EntryView::PayLink(token_id, paid)),
                    ActionView::Publish(
                        EventView::PlPaid {
                            payer_username,
                            creator_username,
                            token_id,
                            amount,
                            fee: fee as i128,
                        },
                    ),
                ],
            ),
        },
    }
}

/// Whether paying a payment link runs to its end. It fails, besides where a
/// transfer does, where the creator is not registered any more.
pub open spec fn pay_paylink_runs(
    s: State,
    sequence: u32,
    payer_username: Seq<u8>,
    token_id: Seq<u8>,
) -> bool {
    pay_paylink_screen(s, sequence, payer_username, token_id) is None ==> movement_runs(
        s,
        payer_username,
        s.paylinks[token_id].creator_username,
        s.paylinks[token_id].amount as int,
        s.fee_bps() as int,
    )
}

/// A payment link after it is cancelled.
pub open spec fn cancelled_link(link: PayLinkView) -> PayLinkView {
    PayLinkView { cancelled: true, ..link }
}

/// Why there is no open payment link under an id, if there is none.
pub open spec fn open_link_refusal(s: State, token_id: Seq<u8>) -> Option<Error> {
    if !s.paylinks.contains_key(token_id) {
        Some(Error::PayLinkNotFound)
    } else if s.paylinks[token_id].paid {
        Some(Error::PayLinkAlreadyPaid)
    } else if s.paylinks[token_id].cancelled {
        Some(Error::PayLinkCancelled)
    } else {
        None
    }
}

/// Cancelling a payment link in the name of its creator. It is possible while
/// the contract is paused, for it moves no money.
pub open spec fn cancel_paylink(
    s: State,
    creator_username: Seq<u8>,
    token_id: Seq<u8>,
) -> Outcome {
    if s.admin is None {
        refused(s, Error::NotInitialized)
    } else if !valid_token_id(token_id) {
        refused(s, Error::InvalidTokenId)
    } else if s.paylinks.contains_key(token_id) && s.paylinks[token_id].creator_username
        != creator_username {
        refused(s, Error::NotPayLinkCreator)
    } else {
        match open_link_refusal(s, token_id) {
            Some(error) => refused(s, error),
            None => {
                let link = cancelled_link(s.paylinks[token_id]);
                granted(
                    State { paylinks: s.paylinks.insert(token_id, link), ..s },
                    admin_entry(s) + seq![
                        ActionView::Put(EntryView::PayLink(token_id, link)),
                        ActionView::Publish(EventView::PlCancel { creator_username, token_id }),
                    ],
                )
            },
        }
    }
}

/// Cancelling a payment link, whoever created it. It is possible while the
/// contract is paused. The record is renewed, so that it can be audited.
pub open spec fn admin_cancel_paylink(s: State, token_id: Seq<u8>) -> Outcome {
    if s.admin is None {
        refused(s, Error::NotInitialized)
    } else if !valid_token_id(token_id) {
        refused(s, Error::InvalidTokenId)
    } else {
        match open_link_refusal(s, token_id) {
            Some(error) => refused(s, error),
            None => {
                let link = cancelled_link(s.paylinks[token_id]);
                granted(
                    State { paylinks: s.paylinks.insert(token_id, link), ..s },
                    admin_entry(s) + seq![
                        ActionView::Put(EntryView::PayLink(token_id, link)),
                        paylink_renewal(token_id),
                        ActionView::Publish(
                            EventView::AdmCncl {
                                creator_username: link.creator_username,
                                token_id,
                            },
                        ),
                    ],
                )
            },
        }
    }
}

/// Renewing a payment link.
pub open spec fn extend_paylink_ttl(s: State, token_id: Seq<u8>) -> Outcome {
    if s.admin is None {
        refused(s, Error::NotInitialized)
    } else if !valid_token_id(token_id) {
        refused(s, Error::InvalidTokenId)
    } else if !s.paylinks.contains_key(token_id) {
        refused(s, Error::PayLinkNotFound)
    } else {
        granted(s, admin_entry(s) + seq![paylink_renewal(token_id)])
    }
}

impl CheesePay {
    /// Keeps a payment link alive.
    fn renew_paylink(env: &mut Env, token_id: &Text)
        ensures
            final(env).sequence == old(env).sequence,
            final(env)@ == old(env)@.push(paylink_renewal(token_id@)),
    {
        env.ask(
            Action::ExtendTtl {
                key: DataKey::PayLink(token_id.clone()),
                threshold: PAYLINK_TTL_THRESHOLD,
                extend_to: PAYLINK_TTL_EXTEND_TO,
            },
        );
    }

    /// Creates a payment request of `amount` to a user.
    pub fn create_paylink(
        &mut self,
        env: &mut Env,
        creator_username: &Text,
        token_id: &Text,
        amount: i128,
        note: &Text,
        expiration_ledger: u32,
    ) -> (answer: Result<(), Error>)
        ensures
            answer == create_paylink(
                old(self)@,
                old(env).sequence,
                creator_username@,
                token_id@,
                amount,
                note@,
                expiration_ledger,
            ).result,
            final(self)@ == create_paylink(
                old(self)@,
                old(env).sequence,
                creator_username@,
                token_id@,
                amount,
                note@,
                expiration_ledger,
            ).state,
            final(env)@ == old(env)@ + create_paylink(
                old(self)@,
                old(env).sequence,
                creator_username@,
                token_id@,
                amount,
                note@,
                expiration_ledger,
            ).actions,
            final(env).sequence == old(env).sequence,
    {
        if let Err(error) = self.require_admin(env) {
            return Err(error);
        }
        if let Err(error) = self.require_not_paused() {
            return Err(error);
        }
        if let Err(error) = Self::validate_token_id(token_id) {
            return Err(error);
        }
        if amount <= 0 {
            return Err(Error::InvalidAmount);
        }
        if note.len() > NOTE_MAX_LEN as usize {
            return Err(Error::NoteTooLong);
        }
        if let Err(error) = self.require_user_exists(creator_username) {
            return Err(error);
        }
        if self.paylinks.has(token_id) {
            return Err(Error::PayLinkAlreadyExists);
        }
        if expiration_ledger <= env.sequence {
            return Err(Error::PayLinkExpired);
        }
        let link = PayLinkData {
            creator_username: creator_username.clone(),
            amount,
            note: note.clone(),
            paid: false,
            cancelled: false,
            expiration_ledger,
            created_at_ledger: env.sequence,
            payer_username: None,
            paid_at_ledger: None,
        };
        Self::extend_instance_ttl(env);
        self.write(env, Entry::PayLink(token_id.clone(), link));
        Self::renew_paylink(env, token_id);
        env.ask(
            Action::Publish(
                Event::PlCreate {
                    creator_username: creator_username.clone(),
                    token_id: token_id.clone(),
                    amount,
                },
            ),
        );
        assert(env@ =~= old(env)@ + create_paylink(
            old(self)@,
            old(env).sequence,
            creator_username@,
            token_id@,
            amount,
            note@,
            expiration_ledger,
        ).actions);
        Ok(())
    }

    /// Pays a payment link out of a user's balance.
    pub fn pay_paylink(
        &mut self,
        env: &mut Env,
        payer_username: &Text,
        token_id: &Text,
    ) -> (answer: Result<(), Error>)
        requires
            pay_paylink_runs(old(self)@, old(env).sequence, payer_username@, token_id@),
        ensures
            answer == pay_paylink(
                old(self)@,
                old(env).sequence,
                payer_username@,
                token_id@,
            ).result,
            final(self)@ == pay_paylink(
                old(self)@,
                old(env).sequence,
                payer_username@,
                token_id@,
            ).state,
            final(env)@ == old(env)@ + pay_paylink(
                old(self)@,
                old(env).sequence,
                payer_username@,
                token_id@,
            ).actions,
            final(env).sequence == old(env).sequence,
    {
        if let Err(error) = self.require_admin(env) {
            return Err(error);
        }
        if let Err(error) = self.require_not_paused() {
            return Err(error);
        }
        if let Err(error) = Self::validate_token_id(token_id) {
            return Err(error);
        }
        if let Err(error) = self.require_user_exists(payer_username) {
            return Err(error);
        }
        let mut link = match self.paylinks.get(token_id) {
            Some(link) => link.clone(),
            None => {
                return Err(Error::PayLinkNotFound);
            },
        };
        if link.paid {
            return Err(Error::PayLinkAlreadyPaid);
        }
        if link.cancelled {
            return Err(Error::PayLinkCancelled);
        }
        if env.sequence > link.expiration_ledger {
            return Err(Error::PayLinkExpired);
        }
        let fee = Self::fee(link.amount, self.fee_rate_bps.unwrap_or(0));
        if self.balance_or_zero(payer_username) < link.amount {
            return Err(Error::InsufficientBalance);
        }
        if fee > 0 && self.fee_treasury.is_none() {
            return Err(Error::NotInitialized);
        }
        Self::extend_instance_ttl(env);
        let creator_username = link.creator_username.clone();
        let amount = link.amount;
        self.settle(env, payer_username, &creator_username, amount, fee);
        link.paid = true;
        link.payer_username = Some(payer_username.clone());
        link.paid_at_ledger = Some(env.sequence);
        self.write(env, Entry::PayLink(token_id.clone(), link));
        env.ask(
            Action::Publish(
                Event::PlPaid {
                    payer_username: payer_username.clone(),
                    creator_username,
                    token_id: token_id.clone(),
                    amount,
                    fee,
                },
            ),
        );
        assert(env@ =~= old(env)@ + pay_paylink(
            old(self)@,
            old(env).sequence,
            payer_username@,
            token_id@,
        ).actions);
        Ok(())
    }

    /// Cancels an unpaid payment link in the name of its creator.
    pub fn cancel_paylink(
        &mut self,
        env: &mut Env,
        creator_username: &Text,
        token_id: &Text,
    ) -> (answer: Result<(), Error>)
        ensures
            answer == cancel_paylink(old(self)@, creator_username@, token_id@).result,
            final(self)@ == cancel_paylink(old(self)@, creator_username@, token_id@).state,
            final(env)@ == old(env)@ + cancel_paylink(
                old(self)@,
                creator_username@,
                token_id@,
            ).actions,
            final(env).sequence == old(env).sequence,
    {
        if let Err(error) = self.require_admin(env) {
            return Err(error);
        }
        if let Err(error) = Self::validate_token_id(token_id) {
            return Err(error);
        }
        let mut link = match self.paylinks.get(token_id) {
            Some(link) => link.clone(),
            None => {
                return Err(Error::PayLinkNotFound);
            },
        };
        if link.creator_username != *creator_username {
            return Err(Error::NotPayLinkCreator);
        }
        if link.paid {
            return Err(Error::PayLinkAlreadyPaid);
        }
        if link.cancelled {
            return Err(Error::PayLinkCancelled);
        }
        Self::extend_instance_ttl(env);
        link.cancelled = true;
        self.write(env, Entry::PayLink(token_id.clone(), link));
        env.ask(
            Action::Publish(
                Event::PlCancel {
                    creator_username: creator_username.clone(),
                    token_id: token_id.clone(),
                },
            ),
        );
        assert(env@ =~= old(env)@ + cancel_paylink(
            old(self)@,
            creator_username@,
            token_id@,
        ).actions);
        Ok(())
    }

    /// Cancels an unpaid payment link, whoever created it: the answer to fraud
    /// and disputes.
    pub fn admin_cancel_paylink(&mut self, env: &mut Env, token_id: &Text) -> (answer: Result<
        (),
        Error,
    >)
        ensures
            answer == admin_cancel_paylink(old(self)@, token_id@).result,
            final(self)@ == admin_cancel_paylink(old(self)@, token_id@).state,
            final(env)@ == old(env)@ + admin_cancel_paylink(old(self)@, token_id@).actions,
            final(env).sequence == old(env).sequence,
    {
        if let Err(error) = self.require_admin(env) {
            return Err(error);
        }
        if let Err(error) = Self::validate_token_id(token_id) {
            return Err(error);
        }
        let mut link = match self.paylinks.get(token_id) {
            Some(link) => link.clone(),
            None => {
                return Err(Error::PayLinkNotFound);
            },
        };
        if link.paid {
            return Err(Error::PayLinkAlreadyPaid);
        }
        if link.cancelled {
            return Err(Error::PayLinkCancelled);
        }
        Self::extend_instance_ttl(env);
        link.cancelled = true;
        let creator_username = link.creator_username.clone();
        self.write(env, Entry::PayLink(token_id.clone(), link));
        Self::renew_paylink(env, token_id);
        env.ask(
            Action::Publish(Event::AdmCncl { creator_username, token_id: token_id.clone() }),
        );
        assert(env@ =~= old(env)@ + admin_cancel_paylink(old(self)@, token_id@).actions);
        Ok(())
    }

    /// Renews a payment link that expires later than its entry would.
    pub fn extend_paylink_ttl(&self, env: &mut Env, token_id: &Text) -> (answer: Result<
        (),
        Error,
    >)
        ensures
            answer == extend_paylink_ttl(self@, token_id@).result,
            final(env)@ == old(env)@ + extend_paylink_ttl(self@, token_id@).actions,
            final(env).sequence == old(env).sequence,
    {
        if let Err(error) = self.require_admin(env) {
            return Err(error);
        }
        if let Err(error) = Self::validate_token_id(token_id) {
            return Err(error);
        }
        if !self.paylinks.has(token_id) {
            return Err(Error::PayLinkNotFound);
        }
        Self::extend_instance_ttl(env);
        Self::renew_paylink(env, token_id);
        assert(env@ =~= old(env)@ + extend_paylink_ttl(self@, token_id@).actions);
        Ok(())
    }
}

} // verus!
