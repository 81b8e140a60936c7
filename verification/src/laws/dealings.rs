//! What a granted request asks of the chain: whom it pays, what it publishes, what it
//! renews and for how long, and that it asks for nothing else.

use vstd::prelude::*;

use crate::funds::{
    sweep_excess, sweep_excess_runs, transfer, transfer_runs, withdraw, withdraw_runs,
};
use crate::laws::effects::{holds, key_of, recorded};
use crate::paylinks::{
    admin_cancel_paylink, create_paylink, extend_paylink_ttl, pay_paylink, pay_paylink_runs,
};
use crate::requests::{outcome, runs, Request};
use crate::state::State;
use crate::text::{Address, Text};
use crate::types::{ActionView, DataKeyView, EntryView, EventView};
use crate::users::{addresses, batch_register_users, enroll_all, renew_all, texts};

verus! {

// Payments.

/// Whether a list of actions sends USDC once, and in this way.
pub open spec fn pays_once(
    actions: Seq<ActionView>,
    token: Option<Seq<u8>>,
    to: Option<Seq<u8>>,
    amount: int,
) -> bool {
    exists|i: int|
        #![trigger actions[i]]
        0 <= i < actions.len() && pays(actions[i], token, to, amount) && pays_nothing_but(
            actions,
            i,
        )
}

/// Whether an action sends `amount` of a token to an address.
pub open spec fn pays(
    action: ActionView,
    token: Option<Seq<u8>>,
    to: Option<Seq<u8>>,
    amount: int,
) -> bool {
    match action {
        ActionView::UsdcTransfer { token: t, to: a, amount: n } => Some(t) == token && Some(a) == to
            && n == amount,
        _ => false,
    }
}

/// Whether a list of actions sends no USDC, apart from the action at `i`.
pub open spec fn pays_nothing_but(actions: Seq<ActionView>, i: int) -> bool {
    forall|j: int|
        0 <= j < actions.len() && j != i ==> !((#[trigger] actions[j]) is UsdcTransfer)
}

/// A granted withdrawal pays once: the amount asked for, in the token that is set, to
/// the address that was given.
pub proof fn law_withdrawal_pays_the_given_address(
    s: State,
    username: Seq<u8>,
    amount: i128,
    to_address: Seq<u8>,
)
    requires
        withdraw_runs(s, username, amount),
        withdraw(s, username, amount, to_address).result is Ok,
    ensures
        pays_once(
            withdraw(s, username, amount, to_address).actions,
            s.usdc_token,
            Some(to_address),
            amount as int,
        ),
{
    let actions = withdraw(s, username, amount, to_address).actions;
    assert(actions.len() == 11);
    assert(pays(actions[9], s.usdc_token, Some(to_address), amount as int));
    assert(pays_nothing_but(actions, 9));
}

/// Every USDC transfer of a granted transfer, and of a granted payment of a link, goes
/// to the treasury that is set, in the token that is set.
pub proof fn law_fee_goes_to_the_treasury(
    s: State,
    from_username: Seq<u8>,
    to_username: Seq<u8>,
    amount: i128,
    sequence: u32,
    token_id: Seq<u8>,
)
    ensures
        transfer_runs(s, from_username, to_username, amount) && transfer(
            s,
            from_username,
            to_username,
            amount,
        ).result is Ok ==> {
            let actions = transfer(s, from_username, to_username, amount).actions;
            forall|i: int|
                0 <= i < actions.len() && (#[trigger] actions[i]) is UsdcTransfer ==> {
                    &&& s.fee_treasury == Some(actions[i]->to)
                    &&& s.usdc_token == Some(actions[i]->token)
                }
        },
        pay_paylink_runs(s, sequence, from_username, token_id) && pay_paylink(
            s,
            sequence,
            from_username,
            token_id,
        ).result is Ok ==> {
            let actions = pay_paylink(s, sequence, from_username, token_id).actions;
            forall|i: int|
                0 <= i < actions.len() && (#[trigger] actions[i]) is UsdcTransfer ==> {
                    &&& s.fee_treasury == Some(actions[i]->to)
                    &&& s.usdc_token == Some(actions[i]->token)
                }
        },
{
}

/// A granted transfer sends the treasury exactly what the total falls by, in one piece,
/// and sends nothing if that is nothing.
pub proof fn law_transfer_pays_the_fee(
    s: State,
    from_username: Seq<u8>,
    to_username: Seq<u8>,
    amount: i128,
)
    requires
        transfer_runs(s, from_username, to_username, amount),
        transfer(s, from_username, to_username, amount).result is Ok,
    ensures
        ({
            let out = transfer(s, from_username, to_username, amount);
            let fee = recorded(s.total_balance) - recorded(out.state.total_balance);
            &&& fee > 0 ==> pays_once(out.actions, s.usdc_token, s.fee_treasury, fee)
            &&& fee == 0 ==> pays_nothing_but(out.actions, -1)
        }),
{
    let out = transfer(s, from_username, to_username, amount);
    let fee = recorded(s.total_balance) - recorded(out.state.total_balance);
    if fee > 0 {
        assert(out.actions.len() == 17);
        assert(pays(out.actions[15], s.usdc_token, s.fee_treasury, fee));
        assert(pays_nothing_but(out.actions, 15));
    }
}

/// A granted payment sends the treasury exactly what the total falls by, in one piece,
/// and sends nothing if that is nothing.
pub proof fn law_payment_pays_the_fee(
    s: State,
    sequence: u32,
    payer_username: Seq<u8>,
    token_id: Seq<u8>,
)
    requires
        pay_paylink_runs(s, sequence, payer_username, token_id),
        pay_paylink(s, sequence, payer_username, token_id).result is Ok,
    ensures
        ({
            let out = pay_paylink(s, sequence, payer_username, token_id);
            let fee = recorded(s.total_balance) - recorded(out.state.total_balance);
            &&& fee > 0 ==> pays_once(out.actions, s.usdc_token, s.fee_treasury, fee)
            &&& fee == 0 ==> pays_nothing_but(out.actions, -1)
        }),
{
    let out = pay_paylink(s, sequence, payer_username, token_id);
    let fee = recorded(s.total_balance) - recorded(out.state.total_balance);
    if fee > 0 {
        assert(out.actions.len() == 18);
        assert(pays(out.actions[15], s.usdc_token, s.fee_treasury, fee));
        assert(pays_nothing_but(out.actions, 15));
    }
}

/// Sweeping pays once, to the recipient, what the contract holds beyond the recorded
/// total, and sends nothing if there is no such excess.
pub proof fn law_sweep_pays_the_recipient(s: State, recipient: Seq<u8>, contract_usdc: i128)
    requires
        s.admin is Some,
        sweep_excess_runs(s, contract_usdc),
    ensures
        ({
            let actions = sweep_excess(s, recipient, contract_usdc).actions;
            let excess = contract_usdc - recorded(s.total_balance);
            &&& excess > 0 ==> pays_once(actions, s.usdc_token, Some(recipient), excess)
            &&& excess <= 0 ==> pays_nothing_but(actions, -1)
        }),
{
    let actions = sweep_excess(s, recipient, contract_usdc).actions;
    let excess = contract_usdc - recorded(s.total_balance);
    if excess > 0 {
        assert(pays(actions[2], s.usdc_token, Some(recipient), excess));
        assert(pays_nothing_but(actions, 2));
    }
}

/// USDC leaves the contract only once the books say so: in a granted withdrawal,
/// transfer or payment, every balance and the total are written before USDC is sent.
pub proof fn law_books_come_before_payment(s: State, sequence: u32, request: Request)
    requires
        request is Withdraw || request is Transfer || request is PayPaylink,
        outcome(s, sequence, request).result is Ok,
    ensures
        ({
            let actions = outcome(s, sequence, request).actions;
            forall|i: int, j: int|
                0 <= i < actions.len() && 0 <= j < actions.len() && (
                #[trigger] actions[i]) is UsdcTransfer && (
                (#[trigger] actions[j]) matches ActionView::Put(entry) && (entry is Balance
                    || entry is TotalBalance)) ==> j < i
        }),
{
    match request {
        Request::Withdraw { username, amount, to_address } => {
            assert(withdraw(s, username, amount, to_address).actions.len() == 11);
        },
        Request::Transfer { .. } => {},
        _ => {},
    }
}

// Everything that is asked for.

/// What a request is to publish when it is granted, if anything. `after` is the storage
/// that it leaves. A batch publishes each of its registrations.
pub open spec fn published(s: State, request: Request, after: State) -> Option<EventView> {
    let fee = recorded(s.total_balance) - recorded(after.total_balance);
    match request {
        Request::RegisterUser { username, address } => Some(
            EventView::RegUser { username, address },
        ),
        Request::DeregisterUser { username } => Some(
            EventView::Dereg { username, address: s.address_of[username] },
        ),
        Request::UpdateAddress { username, new_address } => if s.address_of[username]
            == new_address {
            None
        } else {
            Some(
                EventView::UpdAddr {
                    username,
                    old_address: s.address_of[username],
                    new_address,
                },
            )
        },
        Request::Deposit { username, amount, deposit_id } => Some(
            EventView::Deposit { username, amount, deposit_id },
        ),
        Request::DepositByAddress { address, amount, deposit_id } => Some(
            EventView::DepositByAddress {
                username: s.username_of[address],
                amount,
                address,
                deposit_id,
            },
        ),
        Request::Withdraw { username, amount, to_address } => Some(
            EventView::Withdraw { username, amount, to_address },
        ),
        Request::Transfer { from_username, to_username, amount } => Some(
            EventView::Transfer { from_username, to_username, amount, fee: fee as i128 },
        ),
        Request::CreatePaylink { creator_username, token_id, amount, .. } => Some(
            EventView::PlCreate { creator_username, token_id, amount },
        ),
        Request::PayPaylink { payer_username, token_id } => Some(
            EventView::PlPaid {
                payer_username,
                creator_username: s.paylinks[token_id].creator_username,
                token_id,
                amount: s.paylinks[token_id].amount,
                fee: fee as i128,
            },
        ),
        Request::CancelPaylink { creator_username, token_id } => Some(
            EventView::PlCancel { creator_username, token_id },
        ),
        Request::AdminCancelPaylink { token_id } => Some(
            EventView::AdmCncl {
                creator_username: s.paylinks[token_id].creator_username,
                token_id,
            },
        ),
        Request::SetFeeRate { new_fee_bps } => Some(EventView::FeeSet { fee_bps: new_fee_bps }),
        Request::SetFeeTreasury { new_treasury } => Some(
            EventView::TrsrySet { treasury: new_treasury },
        ),
        Request::SetUsdcToken { new_token } => Some(EventView::UsdcSet { token: new_token }),
        Request::SetMinWithdrawal { min_amount } => Some(
            EventView::MinWdraw { amount: min_amount },
        ),
        Request::ProposeAdmin { new_admin } => Some(EventView::AdmProp { candidate: new_admin }),
        Request::AcceptAdmin => Some(EventView::AdmAccpt { admin: s.pending_admin->Some_0 }),
        Request::Pause => Some(EventView::Paused),
        Request::Unpause => Some(EventView::Unpaused),
        Request::SweepExcess { recipient, contract_usdc } => {
            let excess = contract_usdc - recorded(s.total_balance);
            if excess > 0 {
                Some(EventView::Sweep { excess: excess as i128, recipient })
            } else {
                None
            }
        },
        _ => None,
    }
}

/// Whether a key is one of the three of a user who has an address.
pub open spec fn is_user_key(key: DataKeyView, username: Seq<u8>, address: Seq<u8>) -> bool {
    ||| key == DataKeyView::UsernameToAddr(username)
    ||| key == DataKeyView::AddrToUsername(address)
    ||| key == DataKeyView::Balance(username)
}

/// Whether a key is one of a user who is registered in a batch.
pub open spec fn is_enrolled_key(
    usernames: Seq<Seq<u8>>,
    addresses: Seq<Seq<u8>>,
    key: DataKeyView,
) -> bool {
    exists|i: int|
        0 <= i < usernames.len() && is_user_key(key, #[trigger] usernames[i], addresses[i])
}

/// Whether an event says that a user of a batch is registered.
pub open spec fn is_enrolled_event(
    usernames: Seq<Seq<u8>>,
    addresses: Seq<Seq<u8>>,
    event: EventView,
) -> bool {
    exists|i: int|
        0 <= i < usernames.len() && event == (EventView::RegUser {
            username: #[trigger] usernames[i],
            address: addresses[i],
        })
}

/// Whether a key is one of a registered user in a list.
pub open spec fn is_listed_key(s: State, usernames: Seq<Seq<u8>>, key: DataKeyView) -> bool {
    exists|i: int|
        0 <= i < usernames.len() && s.address_of.contains_key(#[trigger] usernames[i])
            && is_user_key(key, usernames[i], s.address_of[usernames[i]])
}

/// Whether a request may renew the entry under a key: only entries of users, and of
/// links, that it is about.
pub open spec fn may_renew(s: State, request: Request, key: DataKeyView) -> bool {
    match request {
        Request::RegisterUser { username, address } => is_user_key(key, username, address),
        Request::BatchRegisterUsers { usernames, addresses } => is_enrolled_key(
            usernames,
            addresses,
            key,
        ),
        Request::UpdateAddress { username, new_address } => is_user_key(
            key,
            username,
            new_address,
        ),
        Request::ExtendUserTtl { username } => is_user_key(key, username, s.address_of[username]),
        Request::BatchExtendUserTtl { usernames } => is_listed_key(s, usernames, key),
        Request::Deposit { username, .. } => is_user_key(key, username, s.address_of[username]),
        Request::DepositByAddress { address, .. } => is_user_key(
            key,
            s.username_of[address],
            s.address_of[s.username_of[address]],
        ),
        Request::Withdraw { username, .. } => is_user_key(key, username, s.address_of[username]),
        Request::Transfer { from_username, to_username, .. } => is_user_key(
            key,
            from_username,
            s.address_of[from_username],
        ) || is_user_key(key, to_username, s.address_of[to_username]),
        Request::PayPaylink { payer_username, token_id } => {
            let creator = s.paylinks[token_id].creator_username;
            is_user_key(key, payer_username, s.address_of[payer_username]) || is_user_key(
                key,
                creator,
                s.address_of[creator],
            )
        },
        Request::CreatePaylink { token_id, .. } => key == DataKeyView::PayLink(token_id),
        Request::AdminCancelPaylink { token_id } => key == DataKeyView::PayLink(token_id),
        Request::ExtendPaylinkTtl { token_id } => key == DataKeyView::PayLink(token_id),
        _ => false,
    }
}

/// Whether a request may delete the entry under a key.
pub open spec fn may_delete(s: State, request: Request, key: DataKeyView) -> bool {
    match request {
        Request::DeregisterUser { username } => is_user_key(
            key,
            username,
            s.address_of[username],
        ),
        Request::UpdateAddress { username, .. } => key == DataKeyView::AddrToUsername(
            s.address_of[username],
        ),
        Request::AcceptAdmin => key is PendingAdmin,
        _ => false,
    }
}

/// Whether a granted request that leaves the storage `after` calls for an action.
pub open spec fn called_for(
    s: State,
    request: Request,
    after: State,
    action: ActionView,
) -> bool {
    match action {
        // The signature of who is in charge, and of nobody else.
        ActionView::RequireAuth(who) => match request {
            Request::Initialize { admin, .. } => who == admin,
            Request::AcceptAdmin => s.pending_admin == Some(who),
            _ => s.admin == Some(who),
        },
        // Entries as they stand afterwards. Where one user is both payer and creator,
        // the balance is written twice.
        ActionView::Put(entry) => holds(after, entry) || match request {
            Request::PayPaylink { payer_username, token_id } => entry is Balance
                && payer_username == s.paylinks[token_id].creator_username,
            _ => false,
        },
        ActionView::Remove(key) => may_delete(s, request, key),
        // About 30 days before its end, instance and user entries get about 60 days.
        ActionView::ExtendInstanceTtl { threshold, extend_to } => threshold == 518_400 && extend_to
            == 1_036_800,
        ActionView::ExtendTtl { key, threshold, extend_to } => {
            &&& may_renew(s, request, key)
            // About 6 days before its end, a link gets about 12 days.
            &&& key is PayLink ==> threshold == 103_680 && extend_to == 207_360
            &&& !(key is PayLink) ==> threshold == 518_400 && extend_to == 1_036_800
        },
        // A deposit id is kept about 30 days.
        ActionView::FixTtl { key, ttl } => ttl == 518_400 && match request {
            Request::Deposit { deposit_id, .. } => key == DataKeyView::ProcessedDeposit(deposit_id),
            Request::DepositByAddress { deposit_id, .. } => key == DataKeyView::ProcessedDeposit(
                deposit_id,
            ),
            _ => false,
        },
        ActionView::UsdcTransfer { .. } => request is Withdraw || request is Transfer || request
            is PayPaylink || request is SweepExcess,
        ActionView::Publish(event) => match request {
            Request::BatchRegisterUsers { usernames, addresses } => is_enrolled_event(
                usernames,
                addresses,
                event,
            ),
            _ => published(s, request, after) == Some(event),
        },
        ActionView::UpdateWasm(hash) => request == (Request::Upgrade { new_wasm_hash: hash }),
    }
}

/// Whether a granted request calls for every action of a list.
#[verifier::opaque]
spec fn all_called_for(
    s: State,
    request: Request,
    after: State,
    actions: Seq<ActionView>,
) -> bool {
    forall|i: int| 0 <= i < actions.len() ==> called_for(s, request, after, #[trigger] actions[i])
}

proof fn lemma_called_for_by_initialize(s: State, sequence: u32, request: Request)
    requires
        request is Initialize,
        runs(s, sequence, request),
        outcome(s, sequence, request).result is Ok,
    ensures
        all_called_for(
            s,
            request,
            outcome(s, sequence, request).state,
            outcome(s, sequence, request).actions,
        ),
{
    reveal(all_called_for);
}

proof fn lemma_called_for_by_register_user(s: State, sequence: u32, request: Request)
    requires
        request is RegisterUser,
        runs(s, sequence, request),
        outcome(s, sequence, request).result is Ok,
    ensures
        all_called_for(
            s,
            request,
            outcome(s, sequence, request).state,
            outcome(s, sequence, request).actions,
        ),
{
    reveal(all_called_for);
}

proof fn lemma_called_for_by_deregister_user(s: State, sequence: u32, request: Request)
    requires
        request is DeregisterUser,
        runs(s, sequence, request),
        outcome(s, sequence, request).result is Ok,
    ensures
        all_called_for(
            s,
            request,
            outcome(s, sequence, request).state,
            outcome(s, sequence, request).actions,
        ),
{
    reveal(all_called_for);
}

proof fn lemma_called_for_by_update_address(s: State, sequence: u32, request: Request)
    requires
        request is UpdateAddress,
        runs(s, sequence, request),
        outcome(s, sequence, request).result is Ok,
    ensures
        all_called_for(
            s,
            request,
            outcome(s, sequence, request).state,
            outcome(s, sequence, request).actions,
        ),
{
    reveal(all_called_for);
}

proof fn lemma_called_for_by_extend_user_ttl(s: State, sequence: u32, request: Request)
    requires
        request is ExtendUserTtl,
        runs(s, sequence, request),
        outcome(s, sequence, request).result is Ok,
    ensures
        all_called_for(
            s,
            request,
            outcome(s, sequence, request).state,
            outcome(s, sequence, request).actions,
        ),
{
    reveal(all_called_for);
}

proof fn lemma_called_for_by_deposit(s: State, sequence: u32, request: Request)
    requires
        request is Deposit,
        runs(s, sequence, request),
        outcome(s, sequence, request).result is Ok,
    ensures
        all_called_for(
            s,
            request,
            outcome(s, sequence, request).state,
            outcome(s, sequence, request).actions,
        ),
{
    reveal(all_called_for);
}

proof fn lemma_called_for_by_deposit_by_address(s: State, sequence: u32, request: Request)
    requires
        request is DepositByAddress,
        runs(s, sequence, request),
        outcome(s, sequence, request).result is Ok,
    ensures
        all_called_for(
            s,
            request,
            outcome(s, sequence, request).state,
            outcome(s, sequence, request).actions,
        ),
{
    reveal(all_called_for);
}

proof fn lemma_called_for_by_withdraw(s: State, sequence: u32, request: Request)
    requires
        request is Withdraw,
        runs(s, sequence, request),
        outcome(s, sequence, request).result is Ok,
    ensures
        all_called_for(
            s,
            request,
            outcome(s, sequence, request).state,
            outcome(s, sequence, request).actions,
        ),
{
    reveal(all_called_for);
}

proof fn lemma_called_for_by_transfer(s: State, sequence: u32, request: Request)
    requires
        request is Transfer,
        runs(s, sequence, request),
        outcome(s, sequence, request).result is Ok,
    ensures
        all_called_for(
            s,
            request,
            outcome(s, sequence, request).state,
            outcome(s, sequence, request).actions,
        ),
{
    reveal(all_called_for);
}

proof fn lemma_called_for_by_create_paylink(s: State, sequence: u32, request: Request)
    requires
        request is CreatePaylink,
        runs(s, sequence, request),
        outcome(s, sequence, request).result is Ok,
    ensures
        all_called_for(
            s,
            request,
            outcome(s, sequence, request).state,
            outcome(s, sequence, request).actions,
        ),
{
    reveal(all_called_for);
}

proof fn lemma_called_for_by_pay_paylink(s: State, sequence: u32, request: Request)
    requires
        request is PayPaylink,
        runs(s, sequence, request),
        outcome(s, sequence, request).result is Ok,
        s.paylinks[request->PayPaylink_token_id].amount > 0,
    ensures
        all_called_for(
            s,
            request,
            outcome(s, sequence, request).state,
            outcome(s, sequence, request).actions,
        ),
{
    reveal(all_called_for);
}

proof fn lemma_called_for_by_cancel_paylink(s: State, sequence: u32, request: Request)
    requires
        request is CancelPaylink,
        runs(s, sequence, request),
        outcome(s, sequence, request).result is Ok,
    ensures
        all_called_for(
            s,
            request,
            outcome(s, sequence, request).state,
            outcome(s, sequence, request).actions,
        ),
{
    reveal(all_called_for);
}

proof fn lemma_called_for_by_admin_cancel_paylink(s: State, sequence: u32, request: Request)
    requires
        request is AdminCancelPaylink,
        runs(s, sequence, request),
        outcome(s, sequence, request).result is Ok,
    ensures
        all_called_for(
            s,
            request,
            outcome(s, sequence, request).state,
            outcome(s, sequence, request).actions,
        ),
{
    reveal(all_called_for);
}

proof fn lemma_called_for_by_sweep_excess(s: State, sequence: u32, request: Request)
    requires
        request is SweepExcess,
        runs(s, sequence, request),
        outcome(s, sequence, request).result is Ok,
    ensures
        all_called_for(
            s,
            request,
            outcome(s, sequence, request).state,
            outcome(s, sequence, request).actions,
        ),
{
    reveal(all_called_for);
}

/// The requests that change one setting, renew a link or replace the code.
proof fn lemma_called_for_by_the_others(s: State, sequence: u32, request: Request)
    requires
        request is ExtendPaylinkTtl || request is SetFeeRate || request is SetFeeTreasury
            || request is SetUsdcToken || request is SetMinWithdrawal || request is ProposeAdmin
            || request is AcceptAdmin || request is Pause || request is Unpause || request
            is Upgrade,
        outcome(s, sequence, request).result is Ok,
    ensures
        all_called_for(
            s,
            request,
            outcome(s, sequence, request).state,
            outcome(s, sequence, request).actions,
        ),
{
    reveal(all_called_for);
}

proof fn lemma_called_for_by_batch_register_users(
    s: State,
    usernames: Seq<Seq<u8>>,
    addresses: Seq<Seq<u8>>,
)
    requires
        batch_register_users(s, usernames, addresses).result is Ok,
    ensures
        all_called_for(
            s,
            Request::BatchRegisterUsers { usernames, addresses },
            batch_register_users(s, usernames, addresses).state,
            batch_register_users(s, usernames, addresses).actions,
        ),
{
    let request = Request::BatchRegisterUsers { usernames, addresses };
    let after = batch_register_users(s, usernames, addresses).state;
    let actions = batch_register_users(s, usernames, addresses).actions;
    crate::laws::effects::law_batch_binds_every_user(s, usernames, addresses);
    law_batch_asks_for_each_user(s, usernames, addresses);
    reveal(all_called_for);
    assert forall|i: int| 0 <= i < actions.len() implies called_for(
        s,
        request,
        after,
        #[trigger] actions[i],
    ) by {
        if i >= 2 {
            let k = (i - 2) / 7;
            let r = (i - 2) % 7;
            assert(i == 2 + 7 * k + r);
            assert(r == 0 || r == 1 || r == 2 || r == 3 || r == 4 || r == 5 || r == 6);
            assert(0 <= k < usernames.len());
            let u = usernames[k];
            let a = addresses[k];
            assert(asks_for_user(actions, 2 + 7 * k, usernames[k], addresses[k]));
            assert(is_enrolled_key(usernames, addresses, DataKeyView::UsernameToAddr(u)));
            assert(is_enrolled_key(usernames, addresses, DataKeyView::AddrToUsername(a)));
            assert(is_enrolled_key(usernames, addresses, DataKeyView::Balance(u)));
            let event = EventView::RegUser { username: u, address: a };
            assert(is_enrolled_event(usernames, addresses, event));
        }
    }
}

proof fn lemma_called_for_by_batch_extend_user_ttl(
    s: State,
    usernames: Seq<Seq<u8>>,
    all: Seq<Seq<u8>>,
    after: State,
)
    requires
        usernames.len() <= all.len(),
        usernames == all.take(usernames.len() as int),
    ensures
        all_called_for(
            s,
            Request::BatchExtendUserTtl { usernames: all },
            after,
            renew_all(s, usernames),
        ),
    decreases usernames.len(),
{
    reveal(all_called_for);
    if usernames.len() > 0 {
        let n = usernames.len() - 1;
        assert(usernames.drop_last() == all.take(n));
        lemma_called_for_by_batch_extend_user_ttl(s, usernames.drop_last(), all, after);
        let request = Request::BatchExtendUserTtl { usernames: all };
        let before = renew_all(s, usernames.drop_last());
        let actions = renew_all(s, usernames);
        assert(usernames.last() == all[n]);
        assert forall|i: int| 0 <= i < actions.len() implies called_for(
            s,
            request,
            after,
            #[trigger] actions[i],
        ) by {
            if i < before.len() {
                assert(actions[i] == before[i]);
            } else {
                assert(s.address_of.contains_key(all[n]));
                assert(is_user_key(actions[i]->ExtendTtl_key, all[n], s.address_of[all[n]]));
                assert(0 <= n < all.len());
                assert(is_listed_key(s, all, actions[i]->ExtendTtl_key));
            }
        }
    }
}

proof fn lemma_all_called_for(s: State, sequence: u32, request: Request)
    requires
        runs(s, sequence, request),
        outcome(s, sequence, request).result is Ok,
        request is PayPaylink ==> s.paylinks[request->PayPaylink_token_id].amount > 0,
    ensures
        all_called_for(
            s,
            request,
            outcome(s, sequence, request).state,
            outcome(s, sequence, request).actions,
        ),
{
    match request {
        Request::BatchRegisterUsers { usernames, addresses } => {
            lemma_called_for_by_batch_register_users(s, usernames, addresses);
        },
        Request::BatchExtendUserTtl { usernames } => {
            let after = outcome(s, sequence, request).state;
            let actions = outcome(s, sequence, request).actions;
            let batch = renew_all(s, usernames);
            assert(usernames == usernames.take(usernames.len() as int));
            lemma_called_for_by_batch_extend_user_ttl(s, usernames, usernames, after);
            reveal(all_called_for);
            assert forall|i: int| 0 <= i < actions.len() implies called_for(
                s,
                request,
                after,
                #[trigger] actions[i],
            ) by {
                if i >= 2 {
                    assert(actions[i] == batch[i - 2]);
                }
            }
        },
        Request::Initialize { .. } => {
            lemma_called_for_by_initialize(s, sequence, request);
        },
        Request::RegisterUser { .. } => {
            lemma_called_for_by_register_user(s, sequence, request);
        },
        Request::DeregisterUser { .. } => {
            lemma_called_for_by_deregister_user(s, sequence, request);
        },
        Request::UpdateAddress { .. } => {
            lemma_called_for_by_update_address(s, sequence, request);
        },
        Request::ExtendUserTtl { .. } => {
            lemma_called_for_by_extend_user_ttl(s, sequence, request);
        },
        Request::Deposit { .. } => {
            lemma_called_for_by_deposit(s, sequence, request);
        },
        Request::DepositByAddress { .. } => {
            lemma_called_for_by_deposit_by_address(s, sequence, request);
        },
        Request::Withdraw { .. } => {
            lemma_called_for_by_withdraw(s, sequence, request);
        },
        Request::Transfer { .. } => {
            lemma_called_for_by_transfer(s, sequence, request);
        },
        Request::CreatePaylink { .. } => {
            lemma_called_for_by_create_paylink(s, sequence, request);
        },
        Request::PayPaylink { .. } => {
            lemma_called_for_by_pay_paylink(s, sequence, request);
        },
        Request::CancelPaylink { .. } => {
            lemma_called_for_by_cancel_paylink(s, sequence, request);
        },
        Request::AdminCancelPaylink { .. } => {
            lemma_called_for_by_admin_cancel_paylink(s, sequence, request);
        },
        Request::SweepExcess { .. } => {
            lemma_called_for_by_sweep_excess(s, sequence, request);
        },
        _ => {
            lemma_called_for_by_the_others(s, sequence, request);
        },
    }
}

/// A granted request asks for nothing that it does not call for: for no signature but
/// that of who is in charge, no entry but as it stands afterwards, no deletion or
/// renewal but of what it is about, no life but the usual, and no other event.
pub proof fn law_nothing_else_is_asked_for(s: State, sequence: u32, request: Request, i: int)
    requires
        runs(s, sequence, request),
        outcome(s, sequence, request).result is Ok,
        request is PayPaylink ==> s.paylinks[request->PayPaylink_token_id].amount > 0,
        0 <= i < outcome(s, sequence, request).actions.len(),
    ensures
        called_for(
            s,
            request,
            outcome(s, sequence, request).state,
            outcome(s, sequence, request).actions[i],
        ),
{
    lemma_all_called_for(s, sequence, request);
    reveal(all_called_for);
}

/// Whether a list of actions asks for a signature at `i`, and for no other.
pub open spec fn asks_for_one_signature(actions: Seq<ActionView>, i: int) -> bool {
    forall|j: int|
        0 <= j < actions.len() ==> ((#[trigger] actions[j]) is RequireAuth <==> j == i)
}

/// Whether a list of actions ends with this event and publishes no other, or, where
/// there is none, publishes nothing.
pub open spec fn publishes(actions: Seq<ActionView>, event: Option<EventView>) -> bool {
    let n = actions.len() - 1;
    &&& event is Some ==> n >= 0 && actions[n] == ActionView::Publish(event->Some_0)
    &&& forall|i: int|
        0 <= i < actions.len() && (i < n || event is None) ==> !((
        #[trigger] actions[i]) is Publish)
}

proof fn lemma_shape_of_initialize(s: State, sequence: u32, request: Request)
    requires
        request is Initialize,
        runs(s, sequence, request),
        outcome(s, sequence, request).result is Ok,
    ensures
        publishes(
            outcome(s, sequence, request).actions,
            published(s, request, outcome(s, sequence, request).state),
        ),
        asks_for_one_signature(outcome(s, sequence, request).actions, 0),
{
}

proof fn lemma_shape_of_register_user(s: State, sequence: u32, request: Request)
    requires
        request is RegisterUser,
        runs(s, sequence, request),
        outcome(s, sequence, request).result is Ok,
    ensures
        publishes(
            outcome(s, sequence, request).actions,
            published(s, request, outcome(s, sequence, request).state),
        ),
        asks_for_one_signature(outcome(s, sequence, request).actions, 0),
{
}

proof fn lemma_shape_of_deregister_user(s: State, sequence: u32, request: Request)
    requires
        request is DeregisterUser,
        runs(s, sequence, request),
        outcome(s, sequence, request).result is Ok,
    ensures
        publishes(
            outcome(s, sequence, request).actions,
            published(s, request, outcome(s, sequence, request).state),
        ),
        asks_for_one_signature(outcome(s, sequence, request).actions, 0),
{
}

proof fn lemma_shape_of_update_address(s: State, sequence: u32, request: Request)
    requires
        request is UpdateAddress,
        runs(s, sequence, request),
        outcome(s, sequence, request).result is Ok,
    ensures
        publishes(
            outcome(s, sequence, request).actions,
            published(s, request, outcome(s, sequence, request).state),
        ),
        asks_for_one_signature(outcome(s, sequence, request).actions, 0),
{
}

proof fn lemma_shape_of_extend_user_ttl(s: State, sequence: u32, request: Request)
    requires
        request is ExtendUserTtl,
        runs(s, sequence, request),
        outcome(s, sequence, request).result is Ok,
    ensures
        publishes(
            outcome(s, sequence, request).actions,
            published(s, request, outcome(s, sequence, request).state),
        ),
        asks_for_one_signature(outcome(s, sequence, request).actions, 0),
{
}

proof fn lemma_shape_of_deposit(s: State, sequence: u32, request: Request)
    requires
        request is Deposit,
        runs(s, sequence, request),
        outcome(s, sequence, request).result is Ok,
    ensures
        publishes(
            outcome(s, sequence, request).actions,
            published(s, request, outcome(s, sequence, request).state),
        ),
        asks_for_one_signature(outcome(s, sequence, request).actions, 0),
{
}

proof fn lemma_shape_of_deposit_by_address(s: State, sequence: u32, request: Request)
    requires
        request is DepositByAddress,
        runs(s, sequence, request),
        outcome(s, sequence, request).result is Ok,
    ensures
        publishes(
            outcome(s, sequence, request).actions,
            published(s, request, outcome(s, sequence, request).state),
        ),
        asks_for_one_signature(outcome(s, sequence, request).actions, 0),
{
}

proof fn lemma_shape_of_withdraw(s: State, sequence: u32, request: Request)
    requires
        request is Withdraw,
        runs(s, sequence, request),
        outcome(s, sequence, request).result is Ok,
    ensures
        publishes(
            outcome(s, sequence, request).actions,
            published(s, request, outcome(s, sequence, request).state),
        ),
        asks_for_one_signature(outcome(s, sequence, request).actions, 0),
{
}

proof fn lemma_shape_of_transfer(s: State, sequence: u32, request: Request)
    requires
        request is Transfer,
        runs(s, sequence, request),
        outcome(s, sequence, request).result is Ok,
    ensures
        publishes(
            outcome(s, sequence, request).actions,
            published(s, request, outcome(s, sequence, request).state),
        ),
        asks_for_one_signature(outcome(s, sequence, request).actions, 0),
{
}

proof fn lemma_shape_of_create_paylink(s: State, sequence: u32, request: Request)
    requires
        request is CreatePaylink,
        runs(s, sequence, request),
        outcome(s, sequence, request).result is Ok,
    ensures
        publishes(
            outcome(s, sequence, request).actions,
            published(s, request, outcome(s, sequence, request).state),
        ),
        asks_for_one_signature(outcome(s, sequence, request).actions, 0),
{
}

proof fn lemma_shape_of_pay_paylink(s: State, sequence: u32, request: Request)
    requires
        request is PayPaylink,
        runs(s, sequence, request),
        outcome(s, sequence, request).result is Ok,
        s.paylinks[request->PayPaylink_token_id].amount > 0,
    ensures
        publishes(
            outcome(s, sequence, request).actions,
            published(s, request, outcome(s, sequence, request).state),
        ),
        asks_for_one_signature(outcome(s, sequence, request).actions, 0),
{
}

proof fn lemma_shape_of_cancel_paylink(s: State, sequence: u32, request: Request)
    requires
        request is CancelPaylink,
        runs(s, sequence, request),
        outcome(s, sequence, request).result is Ok,
    ensures
        publishes(
            outcome(s, sequence, request).actions,
            published(s, request, outcome(s, sequence, request).state),
        ),
        asks_for_one_signature(outcome(s, sequence, request).actions, 0),
{
}

proof fn lemma_shape_of_admin_cancel_paylink(s: State, sequence: u32, request: Request)
    requires
        request is AdminCancelPaylink,
        runs(s, sequence, request),
        outcome(s, sequence, request).result is Ok,
    ensures
        publishes(
            outcome(s, sequence, request).actions,
            published(s, request, outcome(s, sequence, request).state),
        ),
        asks_for_one_signature(outcome(s, sequence, request).actions, 0),
{
}

proof fn lemma_shape_of_sweep_excess(s: State, sequence: u32, request: Request)
    requires
        request is SweepExcess,
        runs(s, sequence, request),
        outcome(s, sequence, request).result is Ok,
    ensures
        publishes(
            outcome(s, sequence, request).actions,
            published(s, request, outcome(s, sequence, request).state),
        ),
        asks_for_one_signature(outcome(s, sequence, request).actions, 0),
{
}

/// A granted request publishes its event once, as the last thing it does, and a request
/// without an event publishes nothing.
pub proof fn law_event_is_published_once(s: State, sequence: u32, request: Request)
    requires
        !(request is BatchRegisterUsers),
        runs(s, sequence, request),
        outcome(s, sequence, request).result is Ok,
        request is PayPaylink ==> s.paylinks[request->PayPaylink_token_id].amount > 0,
    ensures
        publishes(
            outcome(s, sequence, request).actions,
            published(s, request, outcome(s, sequence, request).state),
        ),
{
    match request {
        Request::BatchRegisterUsers { .. } => {},
        Request::BatchExtendUserTtl { usernames } => {
            let actions = outcome(s, sequence, request).actions;
            lemma_renewals_publish_nothing(s, usernames);
            assert forall|i: int| 0 <= i < actions.len() implies !((
            #[trigger] actions[i]) is Publish) by {
                if i >= 2 {
                    assert(actions[i] == renew_all(s, usernames)[i - 2]);
                }
            }
        },
        Request::Initialize { .. } => {
            lemma_shape_of_initialize(s, sequence, request);
        },
        Request::RegisterUser { .. } => {
            lemma_shape_of_register_user(s, sequence, request);
        },
        Request::DeregisterUser { .. } => {
            lemma_shape_of_deregister_user(s, sequence, request);
        },
        Request::UpdateAddress { .. } => {
            lemma_shape_of_update_address(s, sequence, request);
        },
        Request::ExtendUserTtl { .. } => {
            lemma_shape_of_extend_user_ttl(s, sequence, request);
        },
        Request::Deposit { .. } => {
            lemma_shape_of_deposit(s, sequence, request);
        },
        Request::DepositByAddress { .. } => {
            lemma_shape_of_deposit_by_address(s, sequence, request);
        },
        Request::Withdraw { .. } => {
            lemma_shape_of_withdraw(s, sequence, request);
        },
        Request::Transfer { .. } => {
            lemma_shape_of_transfer(s, sequence, request);
        },
        Request::CreatePaylink { .. } => {
            lemma_shape_of_create_paylink(s, sequence, request);
        },
        Request::PayPaylink { .. } => {
            lemma_shape_of_pay_paylink(s, sequence, request);
        },
        Request::CancelPaylink { .. } => {
            lemma_shape_of_cancel_paylink(s, sequence, request);
        },
        Request::AdminCancelPaylink { .. } => {
            lemma_shape_of_admin_cancel_paylink(s, sequence, request);
        },
        Request::SweepExcess { .. } => {
            lemma_shape_of_sweep_excess(s, sequence, request);
        },
        _ => {},
    }
}

/// A granted request asks for a signature once: before anything else, or, where a
/// candidate becomes the admin, right after the instance is renewed.
pub proof fn law_signature_is_asked_for_once(s: State, sequence: u32, request: Request)
    requires
        runs(s, sequence, request),
        outcome(s, sequence, request).result is Ok,
        request is PayPaylink ==> s.paylinks[request->PayPaylink_token_id].amount > 0,
    ensures
        asks_for_one_signature(
            outcome(s, sequence, request).actions,
            if request is AcceptAdmin {
                1
            } else {
                0
            },
        ),
{
    let actions = outcome(s, sequence, request).actions;
    match request {
        Request::BatchRegisterUsers { usernames, addresses } => {
            law_batch_asks_for_each_user(s, usernames, addresses);
            assert forall|j: int| 0 <= j < actions.len() implies ((
            #[trigger] actions[j]) is RequireAuth <==> j == 0) by {
                if j >= 2 {
                    let k = (j - 2) / 7;
                    let r = (j - 2) % 7;
                    assert(j == 2 + 7 * k + r);
                    assert(r == 0 || r == 1 || r == 2 || r == 3 || r == 4 || r == 5 || r == 6);
                    assert(0 <= k < usernames.len());
                    assert(asks_for_user(actions, 2 + 7 * k, usernames[k], addresses[k]));
                }
            }
        },
        Request::BatchExtendUserTtl { usernames } => {
            lemma_renewals_publish_nothing(s, usernames);
            assert forall|j: int| 0 <= j < actions.len() implies ((
            #[trigger] actions[j]) is RequireAuth <==> j == 0) by {
                if j >= 2 {
                    assert(actions[j] == renew_all(s, usernames)[j - 2]);
                }
            }
        },
        Request::Initialize { .. } => {
            lemma_shape_of_initialize(s, sequence, request);
        },
        Request::RegisterUser { .. } => {
            lemma_shape_of_register_user(s, sequence, request);
        },
        Request::DeregisterUser { .. } => {
            lemma_shape_of_deregister_user(s, sequence, request);
        },
        Request::UpdateAddress { .. } => {
            lemma_shape_of_update_address(s, sequence, request);
        },
        Request::ExtendUserTtl { .. } => {
            lemma_shape_of_extend_user_ttl(s, sequence, request);
        },
        Request::Deposit { .. } => {
            lemma_shape_of_deposit(s, sequence, request);
        },
        Request::DepositByAddress { .. } => {
            lemma_shape_of_deposit_by_address(s, sequence, request);
        },
        Request::Withdraw { .. } => {
            lemma_shape_of_withdraw(s, sequence, request);
        },
        Request::Transfer { .. } => {
            lemma_shape_of_transfer(s, sequence, request);
        },
        Request::CreatePaylink { .. } => {
            lemma_shape_of_create_paylink(s, sequence, request);
        },
        Request::PayPaylink { .. } => {
            lemma_shape_of_pay_paylink(s, sequence, request);
        },
        Request::CancelPaylink { .. } => {
            lemma_shape_of_cancel_paylink(s, sequence, request);
        },
        Request::AdminCancelPaylink { .. } => {
            lemma_shape_of_admin_cancel_paylink(s, sequence, request);
        },
        Request::SweepExcess { .. } => {
            lemma_shape_of_sweep_excess(s, sequence, request);
        },
        _ => {},
    }
}

proof fn lemma_renewals_publish_nothing(s: State, usernames: Seq<Seq<u8>>)
    ensures
        forall|i: int|
            0 <= i < renew_all(s, usernames).len() ==> (#[trigger] renew_all(
                s,
                usernames,
            )[i]) is ExtendTtl,
    decreases usernames.len(),
{
    if usernames.len() > 0 {
        lemma_renewals_publish_nothing(s, usernames.drop_last());
    }
}

/// Whether a list of actions, from `i` on, writes the three entries of a new user,
/// renews them for about 60 days, and publishes the registration.
pub open spec fn asks_for_user(
    actions: Seq<ActionView>,
    i: int,
    username: Seq<u8>,
    address: Seq<u8>,
) -> bool {
    &&& actions[i] == ActionView::Put(EntryView::UsernameToAddr(username, address))
    &&& actions[i + 1] == ActionView::Put(EntryView::AddrToUsername(address, username))
    &&& actions[i + 2] == ActionView::Put(EntryView::Balance(username, 0))
    &&& actions[i + 3] == (ActionView::ExtendTtl {
        key: DataKeyView::UsernameToAddr(username),
        threshold: 518_400,
        extend_to: 1_036_800,
    })
    &&& actions[i + 4] == (ActionView::ExtendTtl {
        key: DataKeyView::AddrToUsername(address),
        threshold: 518_400,
        extend_to: 1_036_800,
    })
    &&& actions[i + 5] == (ActionView::ExtendTtl {
        key: DataKeyView::Balance(username),
        threshold: 518_400,
        extend_to: 1_036_800,
    })
    &&& actions[i + 6] == ActionView::Publish(EventView::RegUser { username, address })
}

proof fn lemma_enroll_all_asks_for_each_user(
    s: State,
    usernames: Seq<Seq<u8>>,
    addresses: Seq<Seq<u8>>,
)
    requires
        usernames.len() == addresses.len(),
        enroll_all(s, usernames, addresses).result is Ok,
    ensures
        enroll_all(s, usernames, addresses).actions.len() == 7 * usernames.len(),
        forall|k: int|
            0 <= k < usernames.len() ==> asks_for_user(
                enroll_all(s, usernames, addresses).actions,
                7 * k,
                #[trigger] usernames[k],
                addresses[k],
            ),
    decreases usernames.len(),
{
    if usernames.len() > 0 {
        let n = usernames.len() - 1;
        let us = usernames.drop_last();
        let ads = addresses.drop_last();
        lemma_enroll_all_asks_for_each_user(s, us, ads);
        let before = enroll_all(s, us, ads).actions;
        let actions = enroll_all(s, usernames, addresses).actions;
        assert forall|k: int| 0 <= k < usernames.len() implies asks_for_user(
            actions,
            7 * k,
            #[trigger] usernames[k],
            addresses[k],
        ) by {
            if k < n {
                assert(us[k] == usernames[k] && ads[k] == addresses[k]);
                assert(asks_for_user(before, 7 * k, us[k], ads[k]));
            }
        }
    }
}

/// A granted batch asks for each of its users in order, and for nothing else but the
/// admin's signature and the renewal of the instance before them.
pub proof fn law_batch_asks_for_each_user(
    s: State,
    usernames: Seq<Seq<u8>>,
    addresses: Seq<Seq<u8>>,
)
    requires
        batch_register_users(s, usernames, addresses).result is Ok,
    ensures
        ({
            let actions = batch_register_users(s, usernames, addresses).actions;
            &&& actions.len() == 2 + 7 * usernames.len()
            &&& s.admin is Some && actions[0] == ActionView::RequireAuth(s.admin->Some_0)
            &&& actions[1] == (ActionView::ExtendInstanceTtl {
                threshold: 518_400,
                extend_to: 1_036_800,
            })
            &&& forall|k: int|
                0 <= k < usernames.len() ==> asks_for_user(
                    actions,
                    2 + 7 * k,
                    #[trigger] usernames[k],
                    addresses[k],
                )
        }),
{
    lemma_enroll_all_asks_for_each_user(s, usernames, addresses);
    let batch = enroll_all(s, usernames, addresses).actions;
    let actions = batch_register_users(s, usernames, addresses).actions;
    assert forall|k: int| 0 <= k < usernames.len() implies asks_for_user(
        actions,
        2 + 7 * k,
        #[trigger] usernames[k],
        addresses[k],
    ) by {
        assert(asks_for_user(batch, 7 * k, usernames[k], addresses[k]));
    }
}

/// Every granted request keeps the instance entries for about 60 days.
pub proof fn law_instance_is_kept_alive(s: State, sequence: u32, request: Request)
    requires
        outcome(s, sequence, request).result is Ok,
    ensures
        outcome(s, sequence, request).actions.contains(
            ActionView::ExtendInstanceTtl { threshold: 518_400, extend_to: 1_036_800 },
        ),
{
    let actions = outcome(s, sequence, request).actions;
    let renewal = ActionView::ExtendInstanceTtl { threshold: 518_400, extend_to: 1_036_800 };
    if request is Initialize {
        assert(actions[8] == renewal);
    } else if request is AcceptAdmin {
        assert(actions[0] == renewal);
    } else {
        assert(actions[1] == renewal);
    }
}

/// A link is kept for about 12 days when it is created, when the admin cancels it, and
/// when its renewal is asked for.
pub proof fn law_links_are_kept_alive(
    s: State,
    sequence: u32,
    creator_username: Seq<u8>,
    token_id: Seq<u8>,
    amount: i128,
    note: Seq<u8>,
    expiration_ledger: u32,
)
    ensures
        ({
            let renewal = ActionView::ExtendTtl {
                key: DataKeyView::PayLink(token_id),
                threshold: 103_680,
                extend_to: 207_360,
            };
            let created = create_paylink(
                s,
                sequence,
                creator_username,
                token_id,
                amount,
                note,
                expiration_ledger,
            );
            let cancelled = admin_cancel_paylink(s, token_id);
            let renewed = extend_paylink_ttl(s, token_id);
            &&& created.result is Ok ==> created.actions.contains(renewal)
            &&& cancelled.result is Ok ==> cancelled.actions.contains(renewal)
            &&& renewed.result is Ok ==> renewed.actions.contains(renewal)
        }),
{
    let renewal = ActionView::ExtendTtl {
        key: DataKeyView::PayLink(token_id),
        threshold: 103_680,
        extend_to: 207_360,
    };
    let created = create_paylink(
        s,
        sequence,
        creator_username,
        token_id,
        amount,
        note,
        expiration_ledger,
    );
    if created.result is Ok {
        assert(created.actions[3] == renewal);
    }
    if admin_cancel_paylink(s, token_id).result is Ok {
        assert(admin_cancel_paylink(s, token_id).actions[3] == renewal);
    }
    if extend_paylink_ttl(s, token_id).result is Ok {
        assert(extend_paylink_ttl(s, token_id).actions[2] == renewal);
    }
}

/// Whether, if a list of actions writes a user entry at `i`, it renews it later for
/// about 60 days.
pub open spec fn renewed_later(actions: Seq<ActionView>, i: int) -> bool {
    match actions[i] {
        ActionView::Put(entry) => (entry is Balance || entry is UsernameToAddr || entry
            is AddrToUsername) ==> exists|j: int|
            i < j < actions.len() && (#[trigger] actions[j]) == (ActionView::ExtendTtl {
                key: key_of(entry),
                threshold: 518_400,
                extend_to: 1_036_800,
            }),
        _ => true,
    }
}

proof fn lemma_written_by_register_user(s: State, sequence: u32, request: Request, i: int)
    requires
        request is RegisterUser,
        outcome(s, sequence, request).result is Ok,
        0 <= i < outcome(s, sequence, request).actions.len(),
    ensures
        renewed_later(outcome(s, sequence, request).actions, i),
{
    let actions = outcome(s, sequence, request).actions;
    if i == 2 {
        assert(actions[5] is ExtendTtl);
    }
    if i == 3 {
        assert(actions[6] is ExtendTtl);
    }
    if i == 4 {
        assert(actions[7] is ExtendTtl);
    }
}

proof fn lemma_written_by_update_address(s: State, sequence: u32, request: Request, i: int)
    requires
        request is UpdateAddress,
        outcome(s, sequence, request).result is Ok,
        0 <= i < outcome(s, sequence, request).actions.len(),
    ensures
        renewed_later(outcome(s, sequence, request).actions, i),
{
    let actions = outcome(s, sequence, request).actions;
    if i == 3 {
        assert(actions[5] is ExtendTtl);
    }
    if i == 4 {
        assert(actions[6] is ExtendTtl);
    }
}

proof fn lemma_written_by_deposit(s: State, sequence: u32, request: Request, i: int)
    requires
        request is Deposit,
        outcome(s, sequence, request).result is Ok,
        0 <= i < outcome(s, sequence, request).actions.len(),
    ensures
        renewed_later(outcome(s, sequence, request).actions, i),
{
    let actions = outcome(s, sequence, request).actions;
    if i == 5 {
        assert(actions[6] is ExtendTtl);
    }
}

proof fn lemma_written_by_deposit_by_address(s: State, sequence: u32, request: Request, i: int)
    requires
        request is DepositByAddress,
        outcome(s, sequence, request).result is Ok,
        0 <= i < outcome(s, sequence, request).actions.len(),
    ensures
        renewed_later(outcome(s, sequence, request).actions, i),
{
    let actions = outcome(s, sequence, request).actions;
    if i == 5 {
        assert(actions[6] is ExtendTtl);
    }
}

proof fn lemma_written_by_withdraw(s: State, sequence: u32, request: Request, i: int)
    requires
        request is Withdraw,
        outcome(s, sequence, request).result is Ok,
        0 <= i < outcome(s, sequence, request).actions.len(),
    ensures
        renewed_later(outcome(s, sequence, request).actions, i),
{
    let actions = outcome(s, sequence, request).actions;
    if i == 3 {
        assert(actions[4] is ExtendTtl);
    }
}

proof fn lemma_written_by_transfer(s: State, sequence: u32, request: Request, i: int)
    requires
        request is Transfer,
        outcome(s, sequence, request).result is Ok,
        0 <= i < outcome(s, sequence, request).actions.len(),
    ensures
        renewed_later(outcome(s, sequence, request).actions, i),
{
    let actions = outcome(s, sequence, request).actions;
    if i == 3 {
        assert(actions[4] is ExtendTtl);
    }
    if i == 9 {
        assert(actions[10] is ExtendTtl);
    }
}

proof fn lemma_written_by_pay_paylink(s: State, sequence: u32, request: Request, i: int)
    requires
        request is PayPaylink,
        outcome(s, sequence, request).result is Ok,
        0 <= i < outcome(s, sequence, request).actions.len(),
    ensures
        renewed_later(outcome(s, sequence, request).actions, i),
{
    let actions = outcome(s, sequence, request).actions;
    if i == 3 {
        assert(actions[4] is ExtendTtl);
    }
    if i == 9 {
        assert(actions[10] is ExtendTtl);
    }
}

/// Every user entry that a granted request writes is renewed after it is written.
pub proof fn law_written_users_are_renewed(s: State, sequence: u32, request: Request, i: int)
    requires
        outcome(s, sequence, request).result is Ok,
        0 <= i < outcome(s, sequence, request).actions.len(),
    ensures
        renewed_later(outcome(s, sequence, request).actions, i),
{
    let actions = outcome(s, sequence, request).actions;
    match request {
        Request::BatchRegisterUsers { usernames, addresses } => {
            law_batch_asks_for_each_user(s, usernames, addresses);
            if i >= 2 {
                let k = (i - 2) / 7;
                let r = (i - 2) % 7;
                assert(i == 2 + 7 * k + r);
                assert(r == 0 || r == 1 || r == 2 || r == 3 || r == 4 || r == 5 || r == 6);
                assert(0 <= k < usernames.len());
                assert(asks_for_user(actions, 2 + 7 * k, usernames[k], addresses[k]));
                if r < 3 {
                    assert(actions[i + 3] is ExtendTtl);
                }
            }
        },
        Request::BatchExtendUserTtl { usernames } => {
            lemma_renewals_publish_nothing(s, usernames);
            if i >= 2 {
                assert(actions[i] == renew_all(s, usernames)[i - 2]);
            }
        },
        Request::RegisterUser { .. } => {
            lemma_written_by_register_user(s, sequence, request, i);
        },
        Request::UpdateAddress { .. } => {
            lemma_written_by_update_address(s, sequence, request, i);
        },
        Request::Deposit { .. } => {
            lemma_written_by_deposit(s, sequence, request, i);
        },
        Request::DepositByAddress { .. } => {
            lemma_written_by_deposit_by_address(s, sequence, request, i);
        },
        Request::Withdraw { .. } => {
            lemma_written_by_withdraw(s, sequence, request, i);
        },
        Request::Transfer { .. } => {
            lemma_written_by_transfer(s, sequence, request, i);
        },
        Request::PayPaylink { .. } => {
            lemma_written_by_pay_paylink(s, sequence, request, i);
        },
        _ => {},
    }
}

/// Whether the storage holds an entry under a key.
pub open spec fn has_entry(s: State, key: DataKeyView) -> bool {
    match key {
        DataKeyView::Admin => s.admin is Some,
        DataKeyView::UsdcToken => s.usdc_token is Some,
        DataKeyView::FeeRateBps => s.fee_rate_bps is Some,
        DataKeyView::FeeTreasury => s.fee_treasury is Some,
        DataKeyView::Paused => s.paused is Some,
        DataKeyView::TotalBalance => s.total_balance is Some,
        DataKeyView::MinWithdrawal => s.min_withdrawal is Some,
        DataKeyView::PendingAdmin => s.pending_admin is Some,
        DataKeyView::Balance(username) => s.balances.contains_key(username),
        DataKeyView::UsernameToAddr(username) => s.address_of.contains_key(username),
        DataKeyView::AddrToUsername(address) => s.username_of.contains_key(address),
        DataKeyView::PayLink(token_id) => s.paylinks.contains_key(token_id),
        DataKeyView::ProcessedDeposit(deposit_id) => s.deposits.contains(deposit_id),
    }
}

/// Whether the actions from `first` to before `last` do not delete an entry.
pub open spec fn spared(
    actions: Seq<ActionView>,
    first: int,
    last: int,
    key: DataKeyView,
) -> bool {
    forall|j: int| first <= j < last ==> #[trigger] actions[j] != ActionView::Remove(key)
}

/// Whether there is an entry under a key when it comes to the action at `i`: it was there
/// from the start or was written before, and was not deleted since.
pub open spec fn there_by_now(
    s: State,
    actions: Seq<ActionView>,
    i: int,
    key: DataKeyView,
) -> bool {
    ||| has_entry(s, key) && spared(actions, 0, i, key)
    ||| exists|p: int|
        0 <= p < i && (#[trigger] actions[p] matches ActionView::Put(entry) && key_of(entry)
            == key) && spared(actions, p, i, key)
}

/// Whether the action at `i`, if it is about the life of an entry, finds the entry there.
pub open spec fn renews_what_is_there(s: State, actions: Seq<ActionView>, i: int) -> bool {
    match actions[i] {
        ActionView::ExtendTtl { key, .. } => there_by_now(s, actions, i, key),
        ActionView::FixTtl { key, .. } => there_by_now(s, actions, i, key),
        _ => true,
    }
}

proof fn lemma_renewed_by_register_user(s: State, sequence: u32, request: Request, i: int)
    requires
        request is RegisterUser,
        runs(s, sequence, request),
        outcome(s, sequence, request).result is Ok,
        0 <= i < outcome(s, sequence, request).actions.len(),
    ensures
        renews_what_is_there(s, outcome(s, sequence, request).actions, i),
{
    let actions = outcome(s, sequence, request).actions;
    if i == 5 {
        assert(actions[2] is Put);
    }
    if i == 6 {
        assert(actions[3] is Put);
    }
    if i == 7 {
        assert(actions[4] is Put);
    }
}

proof fn lemma_renewed_by_update_address(s: State, sequence: u32, request: Request, i: int)
    requires
        request is UpdateAddress,
        runs(s, sequence, request),
        outcome(s, sequence, request).result is Ok,
        0 <= i < outcome(s, sequence, request).actions.len(),
    ensures
        renews_what_is_there(s, outcome(s, sequence, request).actions, i),
{
    let actions = outcome(s, sequence, request).actions;
    if i == 6 {
        assert(actions[4] is Put);
    }
}

proof fn lemma_renewed_by_extend_user_ttl(s: State, sequence: u32, request: Request, i: int)
    requires
        request is ExtendUserTtl,
        runs(s, sequence, request),
        outcome(s, sequence, request).result is Ok,
        0 <= i < outcome(s, sequence, request).actions.len(),
    ensures
        renews_what_is_there(s, outcome(s, sequence, request).actions, i),
{
}

proof fn lemma_renewed_by_deposit(s: State, sequence: u32, request: Request, i: int)
    requires
        request is Deposit,
        runs(s, sequence, request),
        outcome(s, sequence, request).result is Ok,
        0 <= i < outcome(s, sequence, request).actions.len(),
    ensures
        renews_what_is_there(s, outcome(s, sequence, request).actions, i),
{
    let actions = outcome(s, sequence, request).actions;
    if i == 3 {
        assert(actions[2] is Put);
    }
}

proof fn lemma_renewed_by_deposit_by_address(s: State, sequence: u32, request: Request, i: int)
    requires
        request is DepositByAddress,
        runs(s, sequence, request),
        outcome(s, sequence, request).result is Ok,
        0 <= i < outcome(s, sequence, request).actions.len(),
    ensures
        renews_what_is_there(s, outcome(s, sequence, request).actions, i),
{
    let actions = outcome(s, sequence, request).actions;
    if i == 3 {
        assert(actions[2] is Put);
    }
}

proof fn lemma_renewed_by_withdraw(s: State, sequence: u32, request: Request, i: int)
    requires
        request is Withdraw,
        runs(s, sequence, request),
        outcome(s, sequence, request).result is Ok,
        0 <= i < outcome(s, sequence, request).actions.len(),
    ensures
        renews_what_is_there(s, outcome(s, sequence, request).actions, i),
{
}

proof fn lemma_renewed_by_transfer(s: State, sequence: u32, request: Request, i: int)
    requires
        request is Transfer,
        runs(s, sequence, request),
        outcome(s, sequence, request).result is Ok,
        0 <= i < outcome(s, sequence, request).actions.len(),
    ensures
        renews_what_is_there(s, outcome(s, sequence, request).actions, i),
{
}

proof fn lemma_renewed_by_pay_paylink(s: State, sequence: u32, request: Request, i: int)
    requires
        request is PayPaylink,
        runs(s, sequence, request),
        outcome(s, sequence, request).result is Ok,
        0 <= i < outcome(s, sequence, request).actions.len(),
    ensures
        renews_what_is_there(s, outcome(s, sequence, request).actions, i),
{
}

proof fn lemma_renewed_by_create_paylink(s: State, sequence: u32, request: Request, i: int)
    requires
        request is CreatePaylink,
        runs(s, sequence, request),
        outcome(s, sequence, request).result is Ok,
        0 <= i < outcome(s, sequence, request).actions.len(),
    ensures
        renews_what_is_there(s, outcome(s, sequence, request).actions, i),
{
    let actions = outcome(s, sequence, request).actions;
    if i == 3 {
        assert(actions[2] is Put);
    }
}

proof fn lemma_renewed_by_admin_cancel_paylink(s: State, sequence: u32, request: Request, i: int)
    requires
        request is AdminCancelPaylink,
        runs(s, sequence, request),
        outcome(s, sequence, request).result is Ok,
        0 <= i < outcome(s, sequence, request).actions.len(),
    ensures
        renews_what_is_there(s, outcome(s, sequence, request).actions, i),
{
}

proof fn lemma_batches_delete_nothing(s: State, sequence: u32, request: Request, key: DataKeyView)
    requires
        request is BatchRegisterUsers || request is BatchExtendUserTtl,
        outcome(s, sequence, request).result is Ok,
        runs(s, sequence, request),
    ensures
        spared(
            outcome(s, sequence, request).actions,
            0,
            outcome(s, sequence, request).actions.len() as int,
            key,
        ),
{
    let actions = outcome(s, sequence, request).actions;
    assert forall|j: int| 0 <= j < actions.len() implies #[trigger] actions[j]
        != ActionView::Remove(key) by {
        law_nothing_else_is_asked_for(s, sequence, request, j);
    }
}

/// A request that runs to its end, if it is granted, renews only entries that are there
/// when it comes to it, so that the chain does not fail it.
pub proof fn law_renewed_entries_are_there(s: State, sequence: u32, request: Request, i: int)
    requires
        runs(s, sequence, request),
        outcome(s, sequence, request).result is Ok,
        0 <= i < outcome(s, sequence, request).actions.len(),
    ensures
        renews_what_is_there(s, outcome(s, sequence, request).actions, i),
{
    let actions = outcome(s, sequence, request).actions;
    match request {
        Request::BatchRegisterUsers { usernames, addresses } => {
            law_batch_asks_for_each_user(s, usernames, addresses);
            if i >= 2 {
                let k = (i - 2) / 7;
                let r = (i - 2) % 7;
                assert(i == 2 + 7 * k + r);
                assert(r == 0 || r == 1 || r == 2 || r == 3 || r == 4 || r == 5 || r == 6);
                assert(0 <= k < usernames.len());
                assert(asks_for_user(actions, 2 + 7 * k, usernames[k], addresses[k]));
                if 3 <= r <= 5 {
                    let key = actions[i]->ExtendTtl_key;
                    lemma_batches_delete_nothing(s, sequence, request, key);
                    assert(actions[i - 3] is Put);
                    assert(there_by_now(s, actions, i, key));
                }
            }
        },
        Request::BatchExtendUserTtl { usernames } => {
            if actions[i] is ExtendTtl || actions[i] is FixTtl {
                law_nothing_else_is_asked_for(s, sequence, request, i);
                let key = actions[i]->ExtendTtl_key;
                lemma_batches_delete_nothing(s, sequence, request, key);
                assert(is_listed_key(s, usernames, key));
                let k = choose|k: int|
                    0 <= k < usernames.len() && s.address_of.contains_key(#[trigger] usernames[k])
                        && is_user_key(key, usernames[k], s.address_of[usernames[k]]);
                assert(s.registered(usernames[k]));
                assert(s.user_complete(usernames[k]));
            }
        },
        Request::RegisterUser { .. } => {
            lemma_renewed_by_register_user(s, sequence, request, i);
        },
        Request::UpdateAddress { .. } => {
            lemma_renewed_by_update_address(s, sequence, request, i);
        },
        Request::ExtendUserTtl { .. } => {
            lemma_renewed_by_extend_user_ttl(s, sequence, request, i);
        },
        Request::Deposit { .. } => {
            lemma_renewed_by_deposit(s, sequence, request, i);
        },
        Request::DepositByAddress { .. } => {
            lemma_renewed_by_deposit_by_address(s, sequence, request, i);
        },
        Request::Withdraw { .. } => {
            lemma_renewed_by_withdraw(s, sequence, request, i);
        },
        Request::Transfer { .. } => {
            lemma_renewed_by_transfer(s, sequence, request, i);
        },
        Request::PayPaylink { .. } => {
            lemma_renewed_by_pay_paylink(s, sequence, request, i);
        },
        Request::CreatePaylink { .. } => {
            lemma_renewed_by_create_paylink(s, sequence, request, i);
        },
        Request::AdminCancelPaylink { .. } => {
            lemma_renewed_by_admin_cancel_paylink(s, sequence, request, i);
        },
        _ => {},
    }
}

/// The views of a list say of each place what stands there.
pub proof fn law_lists_are_viewed_in_place(names: Seq<Text>, places: Seq<Address>)
    ensures
        texts(names).len() == names.len(),
        forall|i: int| 0 <= i < names.len() ==> #[trigger] texts(names)[i] == names[i]@,
        addresses(places).len() == places.len(),
        forall|i: int| 0 <= i < places.len() ==> #[trigger] addresses(places)[i] == places[i]@,
{
}

} // verus!
