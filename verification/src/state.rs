//! The mathematical model of the contract's storage, and of what a request
//! does to it.

use vstd::prelude::*;

use crate::types::{
    ActionView, DataKeyView, EntryView, Error, PayLinkView, LEDGER_TTL_EXTEND_TO,
    LEDGER_TTL_THRESHOLD,
};

verus! {

/// What the contract's storage holds. An instance entry that was never written,
/// or was deleted, is `None`.
#[verifier::ext_equal]
pub struct State {
    pub admin: Option<Seq<u8>>,
    pub usdc_token: Option<Seq<u8>>,
    pub fee_rate_bps: Option<u32>,
    pub fee_treasury: Option<Seq<u8>>,
    pub paused: Option<bool>,
    pub total_balance: Option<i128>,
    pub min_withdrawal: Option<i128>,
    pub pending_admin: Option<Seq<u8>>,
    /// From username to balance.
    pub balances: Map<Seq<u8>, i128>,
    /// From username to address.
    pub address_of: Map<Seq<u8>, Seq<u8>>,
    /// From address to username.
    pub username_of: Map<Seq<u8>, Seq<u8>>,
    /// From payment link id to payment link.
    pub paylinks: Map<Seq<u8>, PayLinkView>,
    /// The ids of the deposits that have been credited.
    pub deposits: Set<Seq<u8>>,
}

/// The storage of a contract that was never called.
pub open spec fn blank() -> State {
    State {
        admin: None,
        usdc_token: None,
        fee_rate_bps: None,
        fee_treasury: None,
        paused: None,
        total_balance: None,
        min_withdrawal: None,
        pending_admin: None,
        balances: Map::empty(),
        address_of: Map::empty(),
        username_of: Map::empty(),
        paylinks: Map::empty(),
        deposits: Set::empty(),
    }
}

impl State {
    /// The fee rate in basis points; zero if none was set.
    pub open spec fn fee_bps(self) -> u32 {
        match self.fee_rate_bps {
            Some(bps) => bps,
            None => 0,
        }
    }

    /// Whether the contract is paused.
    pub open spec fn is_paused(self) -> bool {
        self.paused == Some(true)
    }

    /// The running sum of all balances; zero if none was recorded.
    pub open spec fn total(self) -> i128 {
        match self.total_balance {
            Some(total) => total,
            None => 0,
        }
    }

    /// The least amount of one withdrawal; zero if there is none.
    pub open spec fn least_withdrawal(self) -> i128 {
        match self.min_withdrawal {
            Some(amount) => amount,
            None => 0,
        }
    }

    /// Whether a username is registered.
    pub open spec fn registered(self, username: Seq<u8>) -> bool {
        self.address_of.contains_key(username)
    }

    /// Whether the three entries of a user are all there. Renewing an entry that
    /// is not there makes the chain fail the invocation.
    pub open spec fn user_complete(self, username: Seq<u8>) -> bool {
        &&& self.address_of.contains_key(username)
        &&& self.username_of.contains_key(self.address_of[username])
        &&& self.balances.contains_key(username)
    }
}

/// The storage after an entry is written.
pub open spec fn put(s: State, entry: EntryView) -> State {
    match entry {
        EntryView::Admin(admin) => State { admin: Some(admin), ..s },
        EntryView::UsdcToken(token) => State { usdc_token: Some(token), ..s },
        EntryView::FeeRateBps(bps) => State { fee_rate_bps: Some(bps), ..s },
        EntryView::FeeTreasury(treasury) => State { fee_treasury: Some(treasury), ..s },
        EntryView::Paused(paused) => State { paused: Some(paused), ..s },
        EntryView::TotalBalance(total) => State { total_balance: Some(total), ..s },
        EntryView::MinWithdrawal(amount) => State { min_withdrawal: Some(amount), ..s },
        EntryView::PendingAdmin(candidate) => State { pending_admin: Some(candidate), ..s },
        EntryView::Balance(username, amount) => State {
            balances: s.balances.insert(username, amount),
            ..s
        },
        EntryView::UsernameToAddr(username, address) => State {
            address_of: s.address_of.insert(username, address),
            ..s
        },
        EntryView::AddrToUsername(address, username) => State {
            username_of: s.username_of.insert(address, username),
            ..s
        },
        EntryView::PayLink(token_id, link) => State {
            paylinks: s.paylinks.insert(token_id, link),
            ..s
        },
        EntryView::ProcessedDeposit(deposit_id) => State {
            deposits: s.deposits.insert(deposit_id),
            ..s
        },
    }
}

/// The storage after an entry is deleted.
pub open spec fn without(s: State, key: DataKeyView) -> State {
    match key {
        DataKeyView::Admin => State { admin: None, ..s },
        DataKeyView::UsdcToken => State { usdc_token: None, ..s },
        DataKeyView::FeeRateBps => State { fee_rate_bps: None, ..s },
        DataKeyView::FeeTreasury => State { fee_treasury: None, ..s },
        DataKeyView::Paused => State { paused: None, ..s },
        DataKeyView::TotalBalance => State { total_balance: None, ..s },
        DataKeyView::MinWithdrawal => State { min_withdrawal: None, ..s },
        DataKeyView::PendingAdmin => State { pending_admin: None, ..s },
        DataKeyView::Balance(username) => State { balances: s.balances.remove(username), ..s },
        DataKeyView::UsernameToAddr(username) => State {
            address_of: s.address_of.remove(username),
            ..s
        },
        DataKeyView::AddrToUsername(address) => State {
            username_of: s.username_of.remove(address),
            ..s
        },
        DataKeyView::PayLink(token_id) => State { paylinks: s.paylinks.remove(token_id), ..s },
        DataKeyView::ProcessedDeposit(deposit_id) => State {
            deposits: s.deposits.remove(deposit_id),
            ..s
        },
    }
}

/// What a request comes to: its answer, the storage that it leaves, and the
/// actions that it asks of the chain, in order.
pub struct Outcome {
    pub result: Result<(), Error>,
    pub state: State,
    pub actions: Seq<ActionView>,
}

/// The demand for the admin's signature, with which every request of the admin
/// begins.
pub open spec fn admin_signature(s: State) -> Seq<ActionView> {
    match s.admin {
        Some(admin) => seq![ActionView::RequireAuth(admin)],
        None => seq![],
    }
}

/// The renewal of the instance entries.
pub open spec fn instance_renewal() -> Seq<ActionView> {
    seq![
        ActionView::ExtendInstanceTtl {
            threshold: LEDGER_TTL_THRESHOLD,
            extend_to: LEDGER_TTL_EXTEND_TO,
        },
    ]
}

/// What every request of the admin asks first once it is granted.
pub open spec fn admin_entry(s: State) -> Seq<ActionView> {
    admin_signature(s) + instance_renewal()
}

/// A request of the admin that is turned down. Nothing is written, published or
/// sent; only the admin's signature is still demanded.
pub open spec fn refused(s: State, error: Error) -> Outcome {
    Outcome { result: Err(error), state: s, actions: admin_signature(s) }
}

/// A request that is granted.
pub open spec fn granted(state: State, actions: Seq<ActionView>) -> Outcome {
    Outcome { result: Ok(()), state, actions }
}

/// The renewal of one user entry.
pub open spec fn renewal(key: DataKeyView) -> ActionView {
    ActionView::ExtendTtl {
        key,
        threshold: LEDGER_TTL_THRESHOLD,
        extend_to: LEDGER_TTL_EXTEND_TO,
    }
}

/// The renewal of the three entries of a registered user.
pub open spec fn user_renewal(s: State, username: Seq<u8>) -> Seq<ActionView> {
    seq![
        renewal(DataKeyView::UsernameToAddr(username)),
        renewal(DataKeyView::AddrToUsername(s.address_of[username])),
        renewal(DataKeyView::Balance(username)),
    ]
}

/// Reading a balance renews it.
pub open spec fn balance_read(username: Seq<u8>) -> Seq<ActionView> {
    seq![renewal(DataKeyView::Balance(username))]
}

/// Writing a balance renews it.
pub open spec fn balance_write(username: Seq<u8>, amount: i128) -> Seq<ActionView> {
    seq![
        ActionView::Put(EntryView::Balance(username, amount)),
        renewal(DataKeyView::Balance(username)),
    ]
}

/// Whether a number fits into the amounts that the contract counts with.
pub open spec fn fits(n: int) -> bool {
    i128::MIN <= n <= i128::MAX
}

/// The fee on `amount` at `bps` basis points, rounded toward zero.
pub open spec fn fee_on(amount: int, bps: int) -> int {
    if amount >= 0 {
        (amount * bps) / 10_000
    } else {
        -((-amount * bps) / 10_000)
    }
}

} // verus!
