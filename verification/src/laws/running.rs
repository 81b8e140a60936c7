//! A contract in order does not fail.

use vstd::prelude::*;

use crate::funds::{
    deposit_by_address_runs, deposit_runs, movement_runs, sweep_excess_runs, transfer_runs,
    withdraw_runs,
};
use crate::paylinks::pay_paylink_runs;
use crate::requests::{runs, Request};
use crate::soundness::{law_fee_is_capped, sound};
use crate::state::{fee_on, fits, State};
use crate::sums::{lemma_sum_bounds, lemma_sum_not_negative};
use crate::users::{
    batch_extend_user_ttl, batch_extend_user_ttl_runs, extend_user_ttl_runs, update_address_runs,
};

verus! {

/// What a request must keep to, besides being made of a contract in order: sums
/// and products must not outgrow the numbers, a withdrawal must be of a
/// registered user, and a payment to one.
pub open spec fn within_limits(s: State, request: Request) -> bool {
    match request {
        Request::Deposit { amount, .. } => fits(s.total() + amount),
        Request::DepositByAddress { amount, .. } => fits(s.total() + amount),
        Request::Withdraw { username, .. } => s.registered(username),
        Request::Transfer { amount, .. } => fits(amount * s.fee_bps()),
        Request::PayPaylink { token_id, .. } => s.paylinks.contains_key(token_id) ==> {
            &&& s.registered(s.paylinks[token_id].creator_username)
            &&& fits(s.paylinks[token_id].amount * s.fee_bps())
        },
        Request::SweepExcess { contract_usdc, .. } => contract_usdc >= 0,
        _ => true,
    }
}

/// Within these limits, every request of a contract in order runs to its end.
pub proof fn law_sound_contract_runs(s: State, sequence: u32, request: Request)
    requires
        sound(s),
        within_limits(s, request),
    ensures
        runs(s, sequence, request),
{
    if s.admin is Some {
        lemma_sum_not_negative(s.balances);
        match request {
            Request::Deposit { username, amount, deposit_id } => {
                if s.registered(username) {
                    assert(s.balances.contains_key(username));
                    lemma_sum_bounds(s.balances, username, username);
                }
            },
            Request::DepositByAddress { address, amount, deposit_id } => {
                if s.username_of.contains_key(address) {
                    let username = s.username_of[address];
                    assert(s.balances.contains_key(username));
                    lemma_sum_bounds(s.balances, username, username);
                }
            },
            Request::Withdraw { username, amount, to_address } => {
                assert(s.balances.contains_key(username));
            },
            Request::Transfer { from_username, to_username, amount } => {
                if amount > 0 && s.registered(from_username) && s.registered(to_username) {
                    lemma_movement_runs(s, from_username, to_username, amount as int);
                }
            },
            Request::PayPaylink { payer_username, token_id } => {
                if s.registered(payer_username) && s.paylinks.contains_key(token_id) {
                    let link = s.paylinks[token_id];
                    lemma_movement_runs(
                        s,
                        payer_username,
                        link.creator_username,
                        link.amount as int,
                    );
                }
            },
            _ => {},
        }
    }
}

proof fn lemma_movement_runs(s: State, from: Seq<u8>, to: Seq<u8>, amount: int)
    requires
        sound(s),
        s.admin is Some,
        s.registered(from),
        s.registered(to),
        amount > 0,
        fits(amount * s.fee_bps()),
        fits(amount),
    ensures
        movement_runs(s, from, to, amount, s.fee_bps() as int),
{
    let fee = fee_on(amount, s.fee_bps() as int);
    law_fee_is_capped(amount, s.fee_bps() as int);
    assert(s.balances.contains_key(from));
    assert(s.balances.contains_key(to));
    lemma_sum_bounds(s.balances, from, to);
}

/// A contract in order fails exactly these requests: a deposit, otherwise granted, that
/// the total has no room for; a withdrawal, otherwise within its limits, of a name that is
/// not registered; a transfer or a payment whose amount times the rate is too large a
/// number; a payment, otherwise granted, to a creator who is not registered any more; and
/// a sweep whose excess is too large a negative number. Every other request runs to its
/// end.
pub proof fn law_sound_contract_fails_only_at_its_limits(
    s: State,
    sequence: u32,
    request: Request,
)
    requires
        sound(s),
    ensures
        ({
            let open = s.admin is Some && s.paused != Some(true);
            let total = s.total_balance->Some_0;
            let rate = s.fee_rate_bps->Some_0;
            match request {
                Request::Deposit { username, amount, deposit_id } => runs(s, sequence, request)
                    <==> (open && amount > 0 && !s.deposits.contains(deposit_id)
                    && s.address_of.contains_key(username) ==> total + amount <= i128::MAX),
                Request::DepositByAddress { address, amount, deposit_id } => runs(
                    s,
                    sequence,
                    request,
                ) <==> (open && amount > 0 && !s.deposits.contains(deposit_id)
                    && s.username_of.contains_key(address) ==> total + amount <= i128::MAX),
                Request::Withdraw { username, amount, .. } => runs(s, sequence, request) <==> (open
                    && amount > 0 && amount >= s.min_withdrawal->Some_0
                    ==> s.address_of.contains_key(username)),
                Request::Transfer { from_username, to_username, amount } => runs(
                    s,
                    sequence,
                    request,
                ) <==> (open && amount > 0 && from_username != to_username
                    && s.address_of.contains_key(from_username) && s.address_of.contains_key(
                    to_username,
                ) ==> amount * rate <= i128::MAX),
                Request::PayPaylink { payer_username, token_id } => {
                    let link = s.paylinks[token_id];
                    runs(s, sequence, request) <==> (open && s.address_of.contains_key(
                        payer_username,
                    ) && s.paylinks.contains_key(token_id) && !link.paid && !link.cancelled
                        && sequence <= link.expiration_ledger ==> link.amount * rate <= i128::MAX
                        && (link.amount <= s.balances[payer_username]
                        ==> s.address_of.contains_key(link.creator_username)))
                },
                Request::SweepExcess { contract_usdc, .. } => runs(s, sequence, request) <==> (
                s.admin is Some ==> contract_usdc - total >= i128::MIN),
                _ => runs(s, sequence, request),
            }
        }),
{
    if s.admin is Some {
        lemma_sum_not_negative(s.balances);
        match request {
            Request::Deposit { username, .. } => {
                if s.registered(username) {
                    assert(s.balances.contains_key(username));
                    lemma_sum_bounds(s.balances, username, username);
                }
            },
            Request::DepositByAddress { address, .. } => {
                if s.username_of.contains_key(address) {
                    let username = s.username_of[address];
                    assert(s.balances.contains_key(username));
                    lemma_sum_bounds(s.balances, username, username);
                }
            },
            Request::Withdraw { username, .. } => {
                assert(s.balances.contains_key(username) == s.registered(username));
            },
            Request::Transfer { from_username, to_username, amount } => {
                lemma_product_not_negative(amount as int, s.fee_bps() as int);
                if amount > 0 && s.registered(from_username) && s.registered(to_username)
                    && fits(amount * s.fee_bps()) {
                    lemma_movement_runs(s, from_username, to_username, amount as int);
                }
            },
            Request::PayPaylink { payer_username, token_id } => {
                if s.registered(payer_username) && s.paylinks.contains_key(token_id) {
                    let link = s.paylinks[token_id];
                    lemma_product_not_negative(link.amount as int, s.fee_bps() as int);
                    law_fee_is_capped(link.amount as int, s.fee_bps() as int);
                    assert(s.balances.contains_key(payer_username));
                    if s.registered(link.creator_username) && fits(link.amount * s.fee_bps()) {
                        lemma_movement_runs(
                            s,
                            payer_username,
                            link.creator_username,
                            link.amount as int,
                        );
                    }
                }
            },
            _ => {},
        }
    }
}

proof fn lemma_product_not_negative(amount: int, bps: int)
    requires
        bps >= 0,
    ensures
        amount >= 0 ==> amount * bps >= 0,
{
    assert(amount >= 0 ==> amount * bps >= 0) by (nonlinear_arith)
        requires
            bps >= 0,
    ;
}

/// Whether the three entries of a user are there.
pub open spec fn all_there(s: State, username: Seq<u8>) -> bool {
    &&& s.address_of.contains_key(username)
    &&& s.username_of.contains_key(s.address_of[username])
    &&& s.balances.contains_key(username)
}

/// Whatever the storage holds, a request about users alone fails exactly if it comes to
/// renewing an entry that is not there.
pub proof fn law_user_requests_fail_at_missing_entries(
    s: State,
    username: Seq<u8>,
    new_address: Seq<u8>,
    usernames: Seq<Seq<u8>>,
)
    ensures
        update_address_runs(s, username, new_address) <==> (s.admin is Some
            && s.address_of.contains_key(username) && s.address_of[username] != new_address
            && !s.username_of.contains_key(new_address) ==> s.balances.contains_key(username)),
        extend_user_ttl_runs(s, username) <==> (s.admin is Some && s.address_of.contains_key(
            username,
        ) ==> all_there(s, username)),
        batch_extend_user_ttl_runs(s, usernames) <==> (s.admin is Some && usernames.len() <= 50
            ==> forall|i: int|
            0 <= i < usernames.len() && s.address_of.contains_key(#[trigger] usernames[i])
                ==> all_there(s, usernames[i])),
{
    let ok = batch_extend_user_ttl(s, usernames).result is Ok;
    assert(ok <==> s.admin is Some && usernames.len() <= 50);
    if forall|i: int|
        0 <= i < usernames.len() && s.address_of.contains_key(#[trigger] usernames[i])
            ==> all_there(s, usernames[i]) {
        assert forall|i: int|
            0 <= i < usernames.len() && s.registered(#[trigger] usernames[i]) implies
            s.user_complete(usernames[i]) by {
            assert(s.address_of.contains_key(usernames[i]));
            assert(all_there(s, usernames[i]));
        }
    }
    if ok && batch_extend_user_ttl_runs(s, usernames) {
        assert forall|i: int|
            0 <= i < usernames.len() && s.address_of.contains_key(#[trigger] usernames[i]) implies
            all_there(s, usernames[i]) by {
            assert(s.registered(usernames[i]));
        }
    }
}

/// Whatever the storage holds, a deposit that passes its checks fails exactly if an entry
/// of the user is not there, or the balance or the total has no room for it.
pub proof fn law_deposits_fail_at_missing_entries_and_limits(
    s: State,
    username: Seq<u8>,
    address: Seq<u8>,
    amount: i128,
    deposit_id: Seq<u8>,
)
    ensures
        ({
            let open = s.admin is Some && s.paused != Some(true);
            let asked = open && amount > 0 && !s.deposits.contains(deposit_id);
            let total = if let Some(total) = s.total_balance { total } else { 0 };
            let owner = s.username_of[address];
            &&& deposit_runs(s, username, amount, deposit_id) <==> (asked
                && s.address_of.contains_key(username) ==> all_there(s, username)
                && s.balances[username] + amount <= i128::MAX && total + amount <= i128::MAX)
            &&& deposit_by_address_runs(s, address, amount, deposit_id) <==> (asked
                && s.username_of.contains_key(address) ==> all_there(s, owner)
                && s.balances[owner] + amount <= i128::MAX && total + amount <= i128::MAX)
        }),
{
}

/// Whatever the storage holds, a withdrawal that passes its checks fails exactly if there
/// is no balance, or, where the balance is enough, another entry of the user or the address
/// of the USDC token is not there, or the total is too small a number.
pub proof fn law_withdrawals_fail_at_missing_entries_and_limits(
    s: State,
    username: Seq<u8>,
    amount: i128,
)
    ensures
        ({
            let open = s.admin is Some && s.paused != Some(true);
            let least = if let Some(least) = s.min_withdrawal { least } else { 0 };
            let total = if let Some(total) = s.total_balance { total } else { 0 };
            withdraw_runs(s, username, amount) <==> (open && amount > 0 && amount >= least
                ==> s.balances.contains_key(username) && (s.balances[username] >= amount
                ==> all_there(s, username) && s.usdc_token is Some && total - amount
                >= i128::MIN))
        }),
{
}

/// What moving `amount` less `fee` needs so as not to fail, whatever the storage holds.
pub open spec fn can_be_moved(
    s: State,
    from: Seq<u8>,
    to: Seq<u8>,
    amount: int,
    rate: int,
    fee: int,
) -> bool {
    let total = if let Some(total) = s.total_balance { total } else { 0 };
    let held = if from == to { s.balances[from] - amount } else { s.balances[to] as int };
    &&& amount * rate <= i128::MAX
    &&& amount - fee >= i128::MIN
    &&& s.balances.contains_key(from)
    &&& s.balances[from] >= amount ==> {
        &&& all_there(s, from)
        &&& all_there(s, to)
        &&& i128::MIN <= held + amount - fee <= i128::MAX
        &&& fee > 0 ==> total - fee >= i128::MIN && (s.fee_treasury is Some ==> s.usdc_token
            is Some)
    }
}

/// Whatever the storage holds, a transfer or a payment that passes its checks fails
/// exactly if the money cannot be moved.
pub proof fn law_movements_fail_at_missing_entries_and_limits(
    s: State,
    sequence: u32,
    from_username: Seq<u8>,
    to_username: Seq<u8>,
    token_id: Seq<u8>,
    amount: i128,
    fee: int,
)
    ensures
        ({
            let open = s.admin is Some && s.paused != Some(true);
            let rate = if let Some(bps) = s.fee_rate_bps { bps as int } else { 0 };
            10_000 * fee <= amount * rate < 10_000 * (fee + 1) ==> {
                &&& transfer_runs(s, from_username, to_username, amount) <==> (open && amount > 0
                    && from_username != to_username && s.address_of.contains_key(from_username)
                    && s.address_of.contains_key(to_username) ==> can_be_moved(
                    s,
                    from_username,
                    to_username,
                    amount as int,
                    rate,
                    fee,
                ))
                &&& s.paylinks[token_id].amount == amount && amount > 0 ==> {
                    let link = s.paylinks[token_id];
                    pay_paylink_runs(s, sequence, from_username, token_id) <==> (open && 1
                        <= token_id.len() <= 64 && s.address_of.contains_key(from_username)
                        && s.paylinks.contains_key(token_id) && !link.paid && !link.cancelled
                        && sequence <= link.expiration_ledger ==> can_be_moved(
                        s,
                        from_username,
                        link.creator_username,
                        amount as int,
                        rate,
                        fee,
                    ))
                }
            }
        }),
{
    let rate = if let Some(bps) = s.fee_rate_bps { bps as int } else { 0 };
    lemma_product_not_negative(amount as int, rate);
    if amount > 0 && 10_000 * fee <= amount * rate < 10_000 * (fee + 1) {
        assert(fee == fee_on(amount as int, s.fee_bps() as int));
        lemma_can_be_moved(s, from_username, to_username, amount as int, fee);
        lemma_can_be_moved(
            s,
            from_username,
            s.paylinks[token_id].creator_username,
            amount as int,
            fee,
        );
    }
}

proof fn lemma_can_be_moved(s: State, from: Seq<u8>, to: Seq<u8>, amount: int, fee: int)
    requires
        0 < amount <= i128::MAX,
        fee == fee_on(amount, s.fee_bps() as int),
        0 <= amount * s.fee_bps(),
    ensures
        movement_runs(s, from, to, amount, s.fee_bps() as int) <==> can_be_moved(
            s,
            from,
            to,
            amount,
            s.fee_bps() as int,
            fee,
        ),
{
}

/// Whatever the storage holds, sweeping fails exactly if the address of the USDC token is
/// not there or the excess is too large or too small a number.
pub proof fn law_sweeps_fail_at_limits(s: State, contract_usdc: i128)
    ensures
        ({
            let total = if let Some(total) = s.total_balance { total } else { 0 };
            sweep_excess_runs(s, contract_usdc) <==> (s.admin is Some ==> s.usdc_token is Some
                && i128::MIN <= contract_usdc - total <= i128::MAX)
        }),
{
}

} // verus!
