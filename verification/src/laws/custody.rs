//! Where the money is: the books follow the USDC, and no request loses any.

use vstd::prelude::*;

use crate::funds::{deposit, deposit_by_address, movement, sweep_excess, transfer, withdraw};
use crate::paylinks::pay_paylink;
use crate::requests::{after_all, all_run, outcome, runs, usdc_sent, Request, Step};
use crate::soundness::{law_contract_stays_sound, law_fee_is_capped, sound};
use crate::state::{admin_entry, blank, fee_on, fits, State};
use crate::sums::{lemma_sum_bounds, sum};
use crate::types::ActionView;
use crate::users::{enroll_all, lemma_enroll_all_frame, renew_all};

verus! {

/// Whether a list of actions sends no USDC.
spec fn sends_nothing(actions: Seq<ActionView>) -> bool {
    forall|i: int| 0 <= i < actions.len() ==> !((#[trigger] actions[i]) is UsdcTransfer)
}

proof fn lemma_sends_nothing(actions: Seq<ActionView>)
    requires
        sends_nothing(actions),
    ensures
        usdc_sent(actions) == 0,
    decreases actions.len(),
{
    if actions.len() > 0 {
        assert forall|i: int| 0 <= i < actions.drop_last().len() implies !((
        #[trigger] actions.drop_last()[i]) is UsdcTransfer) by {
            assert(actions.drop_last()[i] == actions[i]);
        }
        lemma_sends_nothing(actions.drop_last());
    }
}

proof fn lemma_sent_split(first: Seq<ActionView>, second: Seq<ActionView>)
    ensures
        usdc_sent(first + second) == usdc_sent(first) + usdc_sent(second),
    decreases second.len(),
{
    if second.len() == 0 {
        assert(first + second == first);
    } else {
        lemma_sent_split(first, second.drop_last());
        assert((first + second).drop_last() == first + second.drop_last());
    }
}

/// A list in which only the action at `i` sends USDC.
proof fn lemma_sends_once(actions: Seq<ActionView>, i: int)
    requires
        0 <= i < actions.len(),
        actions[i] is UsdcTransfer,
        sends_nothing(actions.take(i)),
        sends_nothing(actions.skip(i + 1)),
    ensures
        usdc_sent(actions) == actions[i]->UsdcTransfer_amount,
{
    let head = actions.take(i + 1);
    assert(actions =~= head + actions.skip(i + 1));
    lemma_sent_split(head, actions.skip(i + 1));
    lemma_sends_nothing(actions.skip(i + 1));
    assert(head.drop_last() == actions.take(i));
    lemma_sends_nothing(actions.take(i));
}

proof fn lemma_enroll_all_sends_nothing(
    s: State,
    usernames: Seq<Seq<u8>>,
    addresses: Seq<Seq<u8>>,
)
    ensures
        sends_nothing(enroll_all(s, usernames, addresses).actions),
    decreases usernames.len(),
{
    if usernames.len() > 0 {
        lemma_enroll_all_sends_nothing(s, usernames.drop_last(), addresses.drop_last());
    }
}

proof fn lemma_renew_all_sends_nothing(s: State, usernames: Seq<Seq<u8>>)
    ensures
        sends_nothing(renew_all(s, usernames)),
    decreases usernames.len(),
{
    if usernames.len() > 0 {
        lemma_renew_all_sends_nothing(s, usernames.drop_last());
    }
}

/// Moving an amount sends the fee, and nothing else, out of the contract.
proof fn lemma_movement_sends_the_fee(
    s: State,
    from: Seq<u8>,
    to: Seq<u8>,
    amount: int,
    fee: int,
)
    requires
        0 <= fee,
        fits(fee),
    ensures
        usdc_sent(movement(s, from, to, amount, fee)) == fee,
{
    let actions = movement(s, from, to, amount, fee);
    if fee > 0 {
        assert(actions.len() == 14);
        lemma_sends_once(actions, 13);
    } else {
        lemma_sends_nothing(actions);
    }
}

/// A withdrawal sends out exactly what it takes off the balance and off the
/// total, and to the address that was given.
pub proof fn law_withdrawal_sends_what_it_debits(
    s: State,
    username: Seq<u8>,
    amount: i128,
    to_address: Seq<u8>,
)
    requires
        runs(s, 0, Request::Withdraw { username, amount, to_address }),
        withdraw(s, username, amount, to_address).result is Ok,
    ensures
        withdraw(s, username, amount, to_address).state.balances[username] == s.balances[username]
            - amount,
        withdraw(s, username, amount, to_address).state.total() == s.total() - amount,
        usdc_sent(withdraw(s, username, amount, to_address).actions) == amount,
        withdraw(s, username, amount, to_address).actions.contains(
            ActionView::UsdcTransfer { token: s.usdc_token->Some_0, to: to_address, amount },
        ),
{
    let actions = withdraw(s, username, amount, to_address).actions;
    assert(actions.len() == 11);
    lemma_sends_once(actions, 9);
    assert(actions[9] == (ActionView::UsdcTransfer {
        token: s.usdc_token->Some_0,
        to: to_address,
        amount,
    }));
}

/// A transfer takes the amount from the sender and gives it to the recipient less
/// the fee; the total falls by the fee, which is all that leaves the contract.
pub proof fn law_transfer_conserves_money(
    s: State,
    from_username: Seq<u8>,
    to_username: Seq<u8>,
    amount: i128,
)
    requires
        sound(s),
        runs(s, 0, Request::Transfer { from_username, to_username, amount }),
        transfer(s, from_username, to_username, amount).result is Ok,
    ensures
        ({
            let after = transfer(s, from_username, to_username, amount).state;
            let fee = fee_on(amount as int, s.fee_bps() as int);
            &&& after.balances[from_username] == s.balances[from_username] - amount
            &&& after.balances[to_username] == s.balances[to_username] + (amount - fee)
            &&& after.total() == s.total() - fee
            &&& usdc_sent(transfer(s, from_username, to_username, amount).actions) == fee
        }),
{
    let fee = fee_on(amount as int, s.fee_bps() as int);
    law_fee_is_capped(amount as int, s.fee_bps() as int);
    lemma_movement_sends_the_fee(s, from_username, to_username, amount as int, fee);
    let actions = transfer(s, from_username, to_username, amount).actions;
    let walk = movement(s, from_username, to_username, amount as int, fee);
    lemma_sent_split(admin_entry(s) + walk, seq![actions.last()]);
    lemma_sent_split(admin_entry(s), walk);
    lemma_sends_nothing(admin_entry(s));
    lemma_sends_nothing(seq![actions.last()]);
    lemma_sum_bounds(s.balances, from_username, to_username);
}

/// Paying a link takes its amount from the payer and gives it to the creator less
/// the fee; a creator who pays their own link loses just the fee. The total falls
/// by the fee, which is all that leaves the contract.
pub proof fn law_payment_conserves_money(
    s: State,
    sequence: u32,
    payer_username: Seq<u8>,
    token_id: Seq<u8>,
)
    requires
        sound(s),
        runs(s, sequence, Request::PayPaylink { payer_username, token_id }),
        pay_paylink(s, sequence, payer_username, token_id).result is Ok,
    ensures
        ({
            let after = pay_paylink(s, sequence, payer_username, token_id).state;
            let creator = s.paylinks[token_id].creator_username;
            let amount = s.paylinks[token_id].amount;
            let fee = fee_on(amount as int, s.fee_bps() as int);
            &&& payer_username != creator ==> after.balances[payer_username]
                == s.balances[payer_username] - amount
            &&& payer_username != creator ==> after.balances[creator] == s.balances[creator] + (
            amount - fee)
            &&& payer_username == creator ==> after.balances[creator] == s.balances[creator] - fee
            &&& after.total() == s.total() - fee
            &&& usdc_sent(pay_paylink(s, sequence, payer_username, token_id).actions) == fee
        }),
{
    let creator = s.paylinks[token_id].creator_username;
    let amount = s.paylinks[token_id].amount;
    let fee = fee_on(amount as int, s.fee_bps() as int);
    law_fee_is_capped(amount as int, s.fee_bps() as int);
    lemma_movement_sends_the_fee(s, payer_username, creator, amount as int, fee);
    let actions = pay_paylink(s, sequence, payer_username, token_id).actions;
    let walk = movement(s, payer_username, creator, amount as int, fee);
    let tail = actions.skip((admin_entry(s) + walk).len() as int);
    assert(actions =~= admin_entry(s) + walk + tail);
    lemma_sent_split(admin_entry(s) + walk, tail);
    lemma_sent_split(admin_entry(s), walk);
    lemma_sends_nothing(admin_entry(s));
    lemma_sends_nothing(tail);
    lemma_sum_bounds(s.balances, payer_username, creator);
}

/// The USDC that a request books as having come in.
pub open spec fn usdc_booked(s: State, sequence: u32, request: Request) -> int {
    if outcome(s, sequence, request).result is Err {
        0
    } else {
        match request {
            Request::Deposit { amount, .. } => amount as int,
            Request::DepositByAddress { amount, .. } => amount as int,
            _ => 0,
        }
    }
}

/// Requests of the other kinds send nothing.
proof fn lemma_quiet_request(s: State, sequence: u32, request: Request)
    requires
        !(request is Withdraw),
        !(request is Transfer),
        !(request is PayPaylink),
        !(request is SweepExcess),
    ensures
        usdc_sent(outcome(s, sequence, request).actions) == 0,
{
    let out = outcome(s, sequence, request);
    match request {
        Request::BatchRegisterUsers { usernames, addresses } => {
            lemma_enroll_all_sends_nothing(s, usernames, addresses);
            lemma_sends_nothing(out.actions);
        },
        Request::BatchExtendUserTtl { usernames } => {
            lemma_renew_all_sends_nothing(s, usernames);
            lemma_sends_nothing(out.actions);
        },
        Request::Initialize { .. } => {
            lemma_sends_nothing(out.actions);
        },
        Request::RegisterUser { .. } => {
            lemma_sends_nothing(out.actions);
        },
        Request::DeregisterUser { .. } => {
            lemma_sends_nothing(out.actions);
        },
        Request::UpdateAddress { .. } => {
            lemma_sends_nothing(out.actions);
        },
        Request::ExtendUserTtl { .. } => {
            lemma_sends_nothing(out.actions);
        },
        Request::Deposit { .. } => {
            lemma_sends_nothing(out.actions);
        },
        Request::DepositByAddress { .. } => {
            lemma_sends_nothing(out.actions);
        },
        Request::CreatePaylink { .. } => {
            lemma_sends_nothing(out.actions);
        },
        Request::CancelPaylink { .. } => {
            lemma_sends_nothing(out.actions);
        },
        Request::AdminCancelPaylink { .. } => {
            lemma_sends_nothing(out.actions);
        },
        _ => {
            lemma_sends_nothing(out.actions);
        },
    }
}

/// Requests of the other kinds leave the total, but for what is deposited.
proof fn lemma_quiet_total(s: State, sequence: u32, request: Request)
    requires
        sound(s),
        runs(s, sequence, request),
        !(request is Withdraw),
        !(request is Transfer),
        !(request is PayPaylink),
        !(request is SweepExcess),
    ensures
        outcome(s, sequence, request).state.total() == s.total() + usdc_booked(
            s,
            sequence,
            request,
        ),
{
    if let Request::BatchRegisterUsers { usernames, addresses } = request {
        lemma_enroll_all_frame(s, usernames, addresses);
    }
}

/// The running total follows the USDC: apart from sweeping, every request raises
/// it by what it books as come in and lowers it by what it sends out. Sweeping
/// leaves it as it is.
pub proof fn law_total_follows_usdc(s: State, sequence: u32, request: Request)
    requires
        sound(s),
        runs(s, sequence, request),
    ensures
        !(request is SweepExcess) ==> outcome(s, sequence, request).state.total() == s.total()
            + usdc_booked(s, sequence, request) - usdc_sent(
            outcome(s, sequence, request).actions,
        ),
        request is SweepExcess ==> outcome(s, sequence, request).state == s,
{
    let out = outcome(s, sequence, request);
    match request {
        Request::Withdraw { username, amount, to_address } => {
            if out.result is Ok {
                law_withdrawal_sends_what_it_debits(s, username, amount, to_address);
            } else {
                lemma_sends_nothing(out.actions);
            }
        },
        Request::Transfer { from_username, to_username, amount } => {
            if out.result is Ok {
                law_transfer_conserves_money(s, from_username, to_username, amount);
            } else {
                lemma_sends_nothing(out.actions);
            }
        },
        Request::PayPaylink { payer_username, token_id } => {
            if out.result is Ok {
                law_payment_conserves_money(s, sequence, payer_username, token_id);
            } else {
                lemma_sends_nothing(out.actions);
            }
        },
        Request::SweepExcess { .. } => {},
        _ => {
            lemma_quiet_request(s, sequence, request);
            lemma_quiet_total(s, sequence, request);
        },
    }
}

/// Sweeping sends exactly what the contract holds beyond the total, to the
/// recipient, and nothing if there is no excess; a second sweep then finds
/// nothing to send.
pub proof fn law_sweep_sends_the_excess(s: State, recipient: Seq<u8>, contract_usdc: i128)
    requires
        s.admin is Some,
        runs(s, 0, Request::SweepExcess { recipient, contract_usdc }),
    ensures
        sweep_excess(s, recipient, contract_usdc).result is Ok,
        contract_usdc > s.total() ==> usdc_sent(
            sweep_excess(s, recipient, contract_usdc).actions,
        ) == contract_usdc - s.total(),
        contract_usdc > s.total() ==> sweep_excess(s, recipient, contract_usdc).actions.contains(
            ActionView::UsdcTransfer {
                token: s.usdc_token->Some_0,
                to: recipient,
                amount: (contract_usdc - s.total()) as i128,
            },
        ),
        contract_usdc <= s.total() ==> usdc_sent(
            sweep_excess(s, recipient, contract_usdc).actions,
        ) == 0,
        usdc_sent(sweep_excess(s, recipient, s.total()).actions) == 0,
{
    let actions = sweep_excess(s, recipient, contract_usdc).actions;
    if contract_usdc > s.total() {
        lemma_sends_once(actions, 2);
        assert(actions[2] == (ActionView::UsdcTransfer {
            token: s.usdc_token->Some_0,
            to: recipient,
            amount: (contract_usdc - s.total()) as i128,
        }));
    } else {
        lemma_sends_nothing(actions);
    }
    lemma_sends_nothing(sweep_excess(s, recipient, s.total()).actions);
}

/// A contract that holds at least the sum of all balances goes on doing so,
/// whatever is asked of it, as long as the USDC of a deposit has arrived before
/// it is booked and sweeping is told what the contract holds.
pub proof fn law_contract_stays_solvent(s: State, sequence: u32, request: Request, held: int)
    requires
        sound(s),
        runs(s, sequence, request),
        held >= s.total() + usdc_booked(s, sequence, request),
        request is SweepExcess ==> request->contract_usdc == held,
    ensures
        held - usdc_sent(outcome(s, sequence, request).actions) >= outcome(
            s,
            sequence,
            request,
        ).state.total(),
{
    law_total_follows_usdc(s, sequence, request);
    if let Request::SweepExcess { recipient, contract_usdc } = request {
        if s.admin is Some {
            law_sweep_sends_the_excess(s, recipient, contract_usdc);
        } else {
            lemma_sends_nothing(outcome(s, sequence, request).actions);
        }
    }
}

/// What a list of requests books as come in, less what they send out other than
/// by sweeping.
pub open spec fn net_booked(s: State, steps: Seq<Step>) -> int
    decreases steps.len(),
{
    if steps.len() == 0 {
        0
    } else {
        let before = after_all(s, steps.drop_last());
        let sequence = steps.last().sequence;
        let request = steps.last().request;
        net_booked(s, steps.drop_last()) + usdc_booked(before, sequence, request) - if request
            is SweepExcess {
            0
        } else {
            usdc_sent(outcome(before, sequence, request).actions)
        }
    }
}

/// Whatever requests are made of a contract from its start, the balances together
/// are what was booked as come in less what was sent out.
pub proof fn law_books_follow_usdc(steps: Seq<Step>)
    requires
        all_run(blank(), steps),
    ensures
        sum(after_all(blank(), steps).balances) == net_booked(blank(), steps),
        after_all(blank(), steps).total() == net_booked(blank(), steps),
    decreases steps.len(),
{
    law_contract_stays_sound(steps);
    if steps.len() > 0 {
        law_contract_stays_sound(steps.drop_last());
        law_books_follow_usdc(steps.drop_last());
        law_total_follows_usdc(
            after_all(blank(), steps.drop_last()),
            steps.last().sequence,
            steps.last().request,
        );
    }
}

/// The USDC that the contract holds after a list of requests, of which each is
/// made once `arrived` of the same place has come in.
pub open spec fn holdings(s: State, steps: Seq<Step>, arrived: Seq<nat>) -> int
    decreases steps.len(),
{
    if steps.len() == 0 {
        0
    } else {
        let before = after_all(s, steps.drop_last());
        holdings(s, steps.drop_last(), arrived.drop_last()) + arrived.last() - usdc_sent(
            outcome(before, steps.last().sequence, steps.last().request).actions,
        )
    }
}

/// Whether, in a list of requests, each deposit is of USDC that is there and not
/// booked yet, and each sweep is told what the contract holds.
pub open spec fn backed(s: State, steps: Seq<Step>, arrived: Seq<nat>) -> bool
    decreases steps.len(),
{
    steps.len() > 0 ==> {
        let before = after_all(s, steps.drop_last());
        let sequence = steps.last().sequence;
        let request = steps.last().request;
        let held = holdings(s, steps.drop_last(), arrived.drop_last()) + arrived.last();
        &&& backed(s, steps.drop_last(), arrived.drop_last())
        &&& usdc_booked(before, sequence, request) > 0 ==> held >= before.total() + usdc_booked(
            before,
            sequence,
            request,
        )
        &&& request is SweepExcess ==> request->contract_usdc == held
    }
}

/// Whatever requests are made of a contract from its start, it holds at least the
/// sum of all balances, as long as each deposit is backed by USDC that has come in
/// and each sweep is told what the contract holds.
pub proof fn law_contract_stays_solvent_for_good(steps: Seq<Step>, arrived: Seq<nat>)
    requires
        steps.len() == arrived.len(),
        all_run(blank(), steps),
        backed(blank(), steps, arrived),
    ensures
        holdings(blank(), steps, arrived) >= sum(after_all(blank(), steps).balances),
    decreases steps.len(),
{
    law_contract_stays_sound(steps);
    if steps.len() > 0 {
        let before = after_all(blank(), steps.drop_last());
        law_contract_stays_sound(steps.drop_last());
        law_contract_stays_solvent_for_good(steps.drop_last(), arrived.drop_last());
        law_contract_stays_solvent(
            before,
            steps.last().sequence,
            steps.last().request,
            holdings(blank(), steps.drop_last(), arrived.drop_last()) + arrived.last(),
        );
    } else {
        assert(after_all(blank(), steps) == blank());
    }
}

/// Whether a request is about the balance of a user.
pub open spec fn concerns(s: State, request: Request, username: Seq<u8>) -> bool {
    match request {
        Request::RegisterUser { username: u, .. } => u == username,
        Request::BatchRegisterUsers { usernames, .. } => usernames.contains(username),
        Request::DeregisterUser { username: u } => u == username,
        Request::Deposit { username: u, .. } => u == username,
        Request::DepositByAddress { address, .. } => s.username_of.contains_key(address)
            && s.username_of[address] == username,
        Request::Withdraw { username: u, .. } => u == username,
        Request::Transfer { from_username, to_username, .. } => from_username == username
            || to_username == username,
        Request::PayPaylink { payer_username, token_id } => payer_username == username || (
        s.paylinks.contains_key(token_id) && s.paylinks[token_id].creator_username == username),
        _ => false,
    }
}

/// No request touches the balance of a user whom it is not about.
pub proof fn law_other_balances_are_untouched(
    s: State,
    sequence: u32,
    request: Request,
    username: Seq<u8>,
)
    requires
        !concerns(s, request, username),
    ensures
        outcome(s, sequence, request).state.balances.contains_key(username)
            == s.balances.contains_key(username),
        s.balances.contains_key(username) ==> outcome(s, sequence, request).state.balances[username]
            == s.balances[username],
{
    if let Request::BatchRegisterUsers { usernames, addresses } = request {
        lemma_enroll_all_untouched(s, usernames, addresses, username);
    }
}

proof fn lemma_enroll_all_untouched(
    s: State,
    usernames: Seq<Seq<u8>>,
    addresses: Seq<Seq<u8>>,
    username: Seq<u8>,
)
    requires
        !usernames.contains(username),
    ensures
        enroll_all(s, usernames, addresses).state.balances.contains_key(username)
            == s.balances.contains_key(username),
        s.balances.contains_key(username) ==> enroll_all(
            s,
            usernames,
            addresses,
        ).state.balances[username] == s.balances[username],
    decreases usernames.len(),
{
    if usernames.len() > 0 {
        assert(usernames.last() != username) by {
            assert(usernames.contains(usernames.last()));
        }
        assert(!usernames.drop_last().contains(username)) by {
            if usernames.drop_last().contains(username) {
                let i = choose|i: int|
                    0 <= i < usernames.drop_last().len() && usernames.drop_last()[i] == username;
                assert(usernames[i] == username);
            }
        }
        lemma_enroll_all_untouched(s, usernames.drop_last(), addresses.drop_last(), username);
    }
}

/// A deposit by address does what the deposit to the address's username does.
pub proof fn law_deposit_by_address_is_a_deposit(
    s: State,
    address: Seq<u8>,
    amount: i128,
    deposit_id: Seq<u8>,
)
    requires
        sound(s),
        s.username_of.contains_key(address),
    ensures
        deposit_by_address(s, address, amount, deposit_id).result == deposit(
            s,
            s.username_of[address],
            amount,
            deposit_id,
        ).result,
        deposit_by_address(s, address, amount, deposit_id).state == deposit(
            s,
            s.username_of[address],
            amount,
            deposit_id,
        ).state,
{
}

} // verus!
