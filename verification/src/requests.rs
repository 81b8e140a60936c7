//! Every request that can change the contract, as one type.

use vstd::prelude::*;

use crate::admin::{
    accept_admin, initialize, pause, propose_admin, set_fee_rate, set_fee_treasury,
    set_min_withdrawal, set_usdc_token, unpause, upgrade,
};
use crate::funds::{
    deposit, deposit_by_address, deposit_by_address_runs, deposit_runs, sweep_excess,
    sweep_excess_runs, transfer, transfer_runs, withdraw, withdraw_runs,
};
use crate::paylinks::{
    admin_cancel_paylink, cancel_paylink, create_paylink, extend_paylink_ttl, pay_paylink,
    pay_paylink_runs,
};
use crate::state::{put, without, Outcome, State};
use crate::types::ActionView;
use crate::users::{
    batch_extend_user_ttl, batch_extend_user_ttl_runs, batch_register_users, deregister_user,
    extend_user_ttl, extend_user_ttl_runs, register_user, update_address, update_address_runs,
};

verus! {

/// A request, with what it is about.
pub enum Request {
    Initialize {
        admin: Seq<u8>,
        usdc_token: Seq<u8>,
        fee_rate_bps: u32,
        fee_treasury: Seq<u8>,
    },
    RegisterUser { username: Seq<u8>, address: Seq<u8> },
    BatchRegisterUsers { usernames: Seq<Seq<u8>>, addresses: Seq<Seq<u8>> },
    DeregisterUser { username: Seq<u8> },
    UpdateAddress { username: Seq<u8>, new_address: Seq<u8> },
    ExtendUserTtl { username: Seq<u8> },
    BatchExtendUserTtl { usernames: Seq<Seq<u8>> },
    Deposit { username: Seq<u8>, amount: i128, deposit_id: Seq<u8> },
    DepositByAddress { address: Seq<u8>, amount: i128, deposit_id: Seq<u8> },
    Withdraw { username: Seq<u8>, amount: i128, to_address: Seq<u8> },
    Transfer { from_username: Seq<u8>, to_username: Seq<u8>, amount: i128 },
    CreatePaylink {
        creator_username: Seq<u8>,
        token_id: Seq<u8>,
        amount: i128,
        note: Seq<u8>,
        expiration_ledger: u32,
    },
    PayPaylink { payer_username: Seq<u8>, token_id: Seq<u8> },
    CancelPaylink { creator_username: Seq<u8>, token_id: Seq<u8> },
    AdminCancelPaylink { token_id: Seq<u8> },
    ExtendPaylinkTtl { token_id: Seq<u8> },
    SetFeeRate { new_fee_bps: u32 },
    SetFeeTreasury { new_treasury: Seq<u8> },
    SetUsdcToken { new_token: Seq<u8> },
    SetMinWithdrawal { min_amount: i128 },
    ProposeAdmin { new_admin: Seq<u8> },
    AcceptAdmin,
    Pause,
    Unpause,
    SweepExcess { recipient: Seq<u8>, contract_usdc: i128 },
    Upgrade { new_wasm_hash: [u8; 32] },
}

/// What a request at ledger `sequence` comes to.
pub open spec fn outcome(s: State, sequence: u32, request: Request) -> Outcome {
    match request {
        Request::Initialize { admin, usdc_token, fee_rate_bps, fee_treasury } => initialize(
            s,
            admin,
            usdc_token,
            fee_rate_bps,
            fee_treasury,
        ),
        Request::RegisterUser { username, address } => register_user(s, username, address),
        Request::BatchRegisterUsers { usernames, addresses } => batch_register_users(
            s,
            usernames,
            addresses,
        ),
        Request::DeregisterUser { username } => deregister_user(s, username),
        Request::UpdateAddress { username, new_address } => update_address(
            s,
            username,
            new_address,
        ),
        Request::ExtendUserTtl { username } => extend_user_ttl(s, username),
        Request::BatchExtendUserTtl { usernames } => batch_extend_user_ttl(s, usernames),
        Request::Deposit { username, amount, deposit_id } => deposit(
            s,
            username,
            amount,
            deposit_id,
        ),
        Request::DepositByAddress { address, amount, deposit_id } => deposit_by_address(
            s,
            address,
            amount,
            deposit_id,
        ),
        Request::Withdraw { username, amount, to_address } => withdraw(
            s,
            username,
            amount,
            to_address,
        ),
        Request::Transfer { from_username, to_username, amount } => transfer(
            s,
            from_username,
            to_username,
            amount,
        ),
        Request::CreatePaylink { creator_username, token_id, amount, note, expiration_ledger } =>
        create_paylink(s, sequence, creator_username, token_id, amount, note, expiration_ledger),
        Request::PayPaylink { payer_username, token_id } => pay_paylink(
            s,
            sequence,
            payer_username,
            token_id,
        ),
        Request::CancelPaylink { creator_username, token_id } => cancel_paylink(
            s,
            creator_username,
            token_id,
        ),
        Request::AdminCancelPaylink { token_id } => admin_cancel_paylink(s, token_id),
        Request::ExtendPaylinkTtl { token_id } => extend_paylink_ttl(s, token_id),
        Request::SetFeeRate { new_fee_bps } => set_fee_rate(s, new_fee_bps),
        Request::SetFeeTreasury { new_treasury } => set_fee_treasury(s, new_treasury),
        Request::SetUsdcToken { new_token } => set_usdc_token(s, new_token),
        Request::SetMinWithdrawal { min_amount } => set_min_withdrawal(s, min_amount),
        Request::ProposeAdmin { new_admin } => propose_admin(s, new_admin),
        Request::AcceptAdmin => accept_admin(s),
        Request::Pause => pause(s),
        Request::Unpause => unpause(s),
        Request::SweepExcess { recipient, contract_usdc } => sweep_excess(
            s,
            recipient,
            contract_usdc,
        ),
        Request::Upgrade { new_wasm_hash } => upgrade(s, new_wasm_hash),
    }
}

/// Whether a request at ledger `sequence` runs to its end, granted or refused.
pub open spec fn runs(s: State, sequence: u32, request: Request) -> bool {
    match request {
        Request::UpdateAddress { username, new_address } => update_address_runs(
            s,
            username,
            new_address,
        ),
        Request::ExtendUserTtl { username } => extend_user_ttl_runs(s, username),
        Request::BatchExtendUserTtl { usernames } => batch_extend_user_ttl_runs(s, usernames),
        Request::Deposit { username, amount, deposit_id } => deposit_runs(
            s,
            username,
            amount,
            deposit_id,
        ),
        Request::DepositByAddress { address, amount, deposit_id } => deposit_by_address_runs(
            s,
            address,
            amount,
            deposit_id,
        ),
        Request::Withdraw { username, amount, to_address } => withdraw_runs(s, username, amount),
        Request::Transfer { from_username, to_username, amount } => transfer_runs(
            s,
            from_username,
            to_username,
            amount,
        ),
        Request::PayPaylink { payer_username, token_id } => pay_paylink_runs(
            s,
            sequence,
            payer_username,
            token_id,
        ),
        Request::SweepExcess { recipient, contract_usdc } => sweep_excess_runs(s, contract_usdc),
        _ => true,
    }
}

/// A request with the ledger at which it is made.
pub struct Step {
    pub sequence: u32,
    pub request: Request,
}

/// The storage after a list of requests, one after the other.
pub open spec fn after_all(s: State, steps: Seq<Step>) -> State
    decreases steps.len(),
{
    if steps.len() == 0 {
        s
    } else {
        let before = after_all(s, steps.drop_last());
        outcome(before, steps.last().sequence, steps.last().request).state
    }
}

/// Whether each of a list of requests runs to its end.
pub open spec fn all_run(s: State, steps: Seq<Step>) -> bool
    decreases steps.len(),
{
    steps.len() > 0 ==> {
        let before = after_all(s, steps.drop_last());
        &&& all_run(s, steps.drop_last())
        &&& runs(before, steps.last().sequence, steps.last().request)
    }
}

/// The storage after an action.
pub open spec fn performed(s: State, action: ActionView) -> State {
    match action {
        ActionView::Put(entry) => put(s, entry),
        ActionView::Remove(key) => without(s, key),
        _ => s,
    }
}

/// The storage after a list of actions, one after the other.
pub open spec fn all_performed(s: State, actions: Seq<ActionView>) -> State
    decreases actions.len(),
{
    if actions.len() == 0 {
        s
    } else {
        performed(all_performed(s, actions.drop_last()), actions.last())
    }
}

/// The USDC that a list of actions sends out of the contract.
pub open spec fn usdc_sent(actions: Seq<ActionView>) -> int
    decreases actions.len(),
{
    if actions.len() == 0 {
        0
    } else {
        usdc_sent(actions.drop_last()) + match actions.last() {
            ActionView::UsdcTransfer { amount, .. } => amount as int,
            _ => 0,
        }
    }
}

} // verus!
