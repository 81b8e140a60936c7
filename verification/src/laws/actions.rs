//! What the actions of a request do to the storage.

use vstd::prelude::*;

use crate::admin::{accept_admin, initialize};
use crate::funds::{credited, crediting, moved, movement, withdraw};
use crate::paylinks::pay_paylink;
use crate::requests::{all_performed, outcome, performed, Request};
use crate::state::{admin_entry, balance_read, balance_write, fee_on, put, user_renewal, State};
use crate::types::{ActionView, EntryView};
use crate::users::{enroll_all, enrolled, enrollment, renew_all};

verus! {

/// Whether a list of actions neither writes nor deletes.
spec fn inert(actions: Seq<ActionView>) -> bool {
    forall|i: int|
        0 <= i < actions.len() ==> !((#[trigger] actions[i]) is Put) && !(actions[i] is Remove)
}

proof fn lemma_inert(s: State, actions: Seq<ActionView>)
    requires
        inert(actions),
    ensures
        all_performed(s, actions) == s,
    decreases actions.len(),
{
    if actions.len() > 0 {
        assert forall|i: int| 0 <= i < actions.drop_last().len() implies !((
        #[trigger] actions.drop_last()[i]) is Put) && !(actions.drop_last()[i] is Remove) by {
            assert(actions.drop_last()[i] == actions[i]);
        }
        lemma_inert(s, actions.drop_last());
    }
}

proof fn lemma_split(s: State, first: Seq<ActionView>, second: Seq<ActionView>)
    ensures
        all_performed(s, first + second) == all_performed(all_performed(s, first), second),
    decreases second.len(),
{
    if second.len() == 0 {
        assert(first + second == first);
    } else {
        lemma_split(s, first, second.drop_last());
        assert((first + second).drop_last() == first + second.drop_last());
    }
}

/// The first action of a list can be performed on its own.
proof fn lemma_first(s: State, actions: Seq<ActionView>)
    requires
        actions.len() > 0,
    ensures
        all_performed(s, actions) == all_performed(performed(s, actions[0]), actions.skip(1)),
{
    lemma_split(s, actions.take(1), actions.skip(1));
    assert(actions.take(1) + actions.skip(1) == actions);
    assert(actions.take(1).drop_last() == Seq::<ActionView>::empty());
    assert(all_performed(s, Seq::<ActionView>::empty()) == s);
}

proof fn lemma_balance_write(s: State, username: Seq<u8>, amount: i128)
    ensures
        all_performed(s, balance_write(username, amount)) == put(
            s,
            EntryView::Balance(username, amount),
        ),
{
    let actions = balance_write(username, amount);
    lemma_first(s, actions);
    lemma_inert(performed(s, actions[0]), actions.skip(1));
}

proof fn lemma_enrollment(s: State, username: Seq<u8>, address: Seq<u8>)
    ensures
        all_performed(s, enrollment(username, address)) == enrolled(s, username, address),
{
    let actions = enrollment(username, address);
    let s1 = performed(s, actions[0]);
    let s2 = performed(s1, actions[1]);
    let s3 = performed(s2, actions[2]);
    lemma_first(s, actions);
    lemma_first(s1, actions.skip(1));
    assert(actions.skip(1).skip(1) == actions.skip(2));
    lemma_first(s2, actions.skip(2));
    assert(actions.skip(2).skip(1) == actions.skip(3));
    lemma_inert(s3, actions.skip(3));
    assert(s3 =~= enrolled(s, username, address));
}

proof fn lemma_enroll_all(s: State, usernames: Seq<Seq<u8>>, addresses: Seq<Seq<u8>>)
    requires
        enroll_all(s, usernames, addresses).result is Ok,
    ensures
        all_performed(s, enroll_all(s, usernames, addresses).actions) == enroll_all(
            s,
            usernames,
            addresses,
        ).state,
    decreases usernames.len(),
{
    if usernames.len() > 0 {
        let before = enroll_all(s, usernames.drop_last(), addresses.drop_last());
        lemma_enroll_all(s, usernames.drop_last(), addresses.drop_last());
        lemma_split(s, before.actions, enrollment(usernames.last(), addresses.last()));
        lemma_enrollment(before.state, usernames.last(), addresses.last());
    }
}

proof fn lemma_renew_all(s: State, usernames: Seq<Seq<u8>>)
    ensures
        inert(renew_all(s, usernames)),
    decreases usernames.len(),
{
    if usernames.len() > 0 {
        lemma_renew_all(s, usernames.drop_last());
    }
}

proof fn lemma_crediting(s: State, username: Seq<u8>, amount: i128, deposit_id: Seq<u8>)
    ensures
        all_performed(s, crediting(s, username, amount, deposit_id)) == credited(
            s,
            username,
            amount,
            deposit_id,
        ),
{
    let actions = crediting(s, username, amount, deposit_id);
    let balance = (s.balances[username] + amount) as i128;
    let total = (s.total() + amount) as i128;
    let recorded = put(s, EntryView::ProcessedDeposit(deposit_id));
    lemma_first(s, actions);
    let rest = actions.skip(1);
    let quiet = seq![actions[1]] + balance_read(username);
    let last = user_renewal(s, username) + seq![
        ActionView::Put(EntryView::TotalBalance(total)),
    ];
    assert(rest =~= quiet + balance_write(username, balance) + last);
    lemma_split(recorded, quiet + balance_write(username, balance), last);
    lemma_split(recorded, quiet, balance_write(username, balance));
    lemma_inert(recorded, quiet);
    lemma_balance_write(recorded, username, balance);
    let written = put(recorded, EntryView::Balance(username, balance));
    lemma_split(
        written,
        user_renewal(s, username),
        seq![ActionView::Put(EntryView::TotalBalance(total))],
    );
    lemma_inert(written, user_renewal(s, username));
    lemma_first(written, seq![ActionView::Put(EntryView::TotalBalance(total))]);
    assert(seq![ActionView::Put(EntryView::TotalBalance(total))].skip(1) == Seq::<
        ActionView,
    >::empty());
}

proof fn lemma_movement(s: State, from: Seq<u8>, to: Seq<u8>, amount: int, fee: int)
    ensures
        all_performed(s, movement(s, from, to, amount, fee)) == moved(s, from, to, amount, fee),
{
    let debit = balance_write(from, (s.balances[from] - amount) as i128);
    let after = crate::funds::balances_after(s.balances, from, to, amount, fee);
    let credit = balance_write(to, after[to]);
    let payment = movement(s, from, to, amount, fee).skip(12);
    let s1 = put(s, EntryView::Balance(from, (s.balances[from] - amount) as i128));
    let s2 = put(s1, EntryView::Balance(to, after[to]));
    let quiet = user_renewal(s, from) + balance_read(to);
    assert(movement(s, from, to, amount, fee) =~= balance_read(from) + debit + quiet + credit
        + user_renewal(s, to) + payment);
    lemma_split(
        s,
        balance_read(from) + debit + quiet + credit + user_renewal(s, to),
        payment,
    );
    lemma_split(s, balance_read(from) + debit + quiet + credit, user_renewal(s, to));
    lemma_split(s, balance_read(from) + debit + quiet, credit);
    lemma_split(s, balance_read(from) + debit, quiet);
    lemma_split(s, balance_read(from), debit);
    lemma_inert(s, balance_read(from));
    lemma_balance_write(s, from, (s.balances[from] - amount) as i128);
    lemma_inert(s1, quiet);
    lemma_balance_write(s1, to, after[to]);
    lemma_inert(s2, user_renewal(s, to));
    if fee > 0 {
        lemma_first(s2, payment);
        lemma_inert(performed(s2, payment[0]), payment.skip(1));
        assert(performed(s2, payment[0]) =~= moved(s, from, to, amount, fee));
    } else {
        lemma_inert(s2, payment);
        assert(s2 =~= moved(s, from, to, amount, fee));
    }
}

/// One write after the admin's entry, and nothing but events and renewals after
/// it.
proof fn lemma_one_write(s: State, actions: Seq<ActionView>)
    requires
        actions.len() >= 3,
        inert(actions.take(2)),
        inert(actions.skip(3)),
    ensures
        all_performed(s, actions) == performed(s, actions[2]),
{
    assert(actions =~= actions.take(2) + actions.skip(2));
    lemma_split(s, actions.take(2), actions.skip(2));
    lemma_inert(s, actions.take(2));
    lemma_first(s, actions.skip(2));
    assert(actions.skip(2).skip(1) == actions.skip(3));
    lemma_inert(performed(s, actions[2]), actions.skip(3));
}

/// Three writes after the admin's entry, and nothing but events and renewals
/// after them.
proof fn lemma_three_writes(s: State, actions: Seq<ActionView>)
    requires
        actions.len() >= 5,
        inert(actions.take(2)),
        inert(actions.skip(5)),
    ensures
        all_performed(s, actions) == performed(
            performed(performed(s, actions[2]), actions[3]),
            actions[4],
        ),
{
    let a = actions.skip(2);
    let s1 = performed(s, a[0]);
    let s2 = performed(s1, a[1]);
    assert(actions =~= actions.take(2) + a);
    lemma_split(s, actions.take(2), a);
    lemma_inert(s, actions.take(2));
    lemma_first(s, a);
    lemma_first(s1, a.skip(1));
    assert(a.skip(1).skip(1) == a.skip(2));
    lemma_first(s2, a.skip(2));
    assert(a.skip(2).skip(1) == actions.skip(5));
    lemma_inert(performed(s2, a[2]), actions.skip(5));
}

proof fn lemma_initialize(
    s: State,
    admin: Seq<u8>,
    usdc_token: Seq<u8>,
    fee_rate_bps: u32,
    fee_treasury: Seq<u8>,
)
    requires
        initialize(s, admin, usdc_token, fee_rate_bps, fee_treasury).result is Ok,
    ensures
        all_performed(
            s,
            initialize(s, admin, usdc_token, fee_rate_bps, fee_treasury).actions,
        ) == initialize(s, admin, usdc_token, fee_rate_bps, fee_treasury).state,
{
    let a = initialize(s, admin, usdc_token, fee_rate_bps, fee_treasury).actions;
    let s1 = performed(s, a[1]);
    let s2 = performed(s1, a[2]);
    let s3 = performed(s2, a[3]);
    let s4 = performed(s3, a[4]);
    let s5 = performed(s4, a[5]);
    let s6 = performed(s5, a[6]);
    let s7 = performed(s6, a[7]);
    lemma_first(s, a);
    lemma_first(s, a.skip(1));
    assert(a.skip(1).skip(1) == a.skip(2));
    lemma_first(s1, a.skip(2));
    assert(a.skip(2).skip(1) == a.skip(3));
    lemma_first(s2, a.skip(3));
    assert(a.skip(3).skip(1) == a.skip(4));
    lemma_first(s3, a.skip(4));
    assert(a.skip(4).skip(1) == a.skip(5));
    lemma_first(s4, a.skip(5));
    assert(a.skip(5).skip(1) == a.skip(6));
    lemma_first(s5, a.skip(6));
    assert(a.skip(6).skip(1) == a.skip(7));
    lemma_first(s6, a.skip(7));
    assert(a.skip(7).skip(1) == a.skip(8));
    lemma_inert(s7, a.skip(8));
}

proof fn lemma_withdraw(s: State, username: Seq<u8>, amount: i128, to_address: Seq<u8>)
    requires
        withdraw(s, username, amount, to_address).result is Ok,
    ensures
        all_performed(s, withdraw(s, username, amount, to_address).actions) == withdraw(
            s,
            username,
            amount,
            to_address,
        ).state,
{
    let a = withdraw(s, username, amount, to_address).actions;
    let rest = (s.balances[username] - amount) as i128;
    let quiet = admin_entry(s) + balance_read(username);
    let debit = balance_write(username, rest);
    let renewals = user_renewal(s, username);
    let tail = a.skip(8);
    assert(a =~= quiet + debit + renewals + tail);
    lemma_split(s, quiet + debit + renewals, tail);
    lemma_split(s, quiet + debit, renewals);
    lemma_split(s, quiet, debit);
    lemma_inert(s, quiet);
    lemma_balance_write(s, username, rest);
    let s1 = put(s, EntryView::Balance(username, rest));
    lemma_inert(s1, renewals);
    lemma_first(s1, tail);
    lemma_inert(performed(s1, tail[0]), tail.skip(1));
}

proof fn lemma_pay_paylink(s: State, sequence: u32, payer_username: Seq<u8>, token_id: Seq<u8>)
    requires
        pay_paylink(s, sequence, payer_username, token_id).result is Ok,
    ensures
        all_performed(
            s,
            pay_paylink(s, sequence, payer_username, token_id).actions,
        ) == pay_paylink(s, sequence, payer_username, token_id).state,
{
    let a = pay_paylink(s, sequence, payer_username, token_id).actions;
    let link = s.paylinks[token_id];
    let amount = link.amount as int;
    let fee = fee_on(amount, s.fee_bps() as int);
    let start = admin_entry(s);
    let walk = movement(s, payer_username, link.creator_username, amount, fee);
    let tail = a.skip((start + walk).len() as int);
    assert(a =~= start + walk + tail);
    lemma_split(s, start + walk, tail);
    lemma_split(s, start, walk);
    lemma_inert(s, start);
    lemma_movement(s, payer_username, link.creator_username, amount, fee);
    let s1 = moved(s, payer_username, link.creator_username, amount, fee);
    lemma_first(s1, tail);
    lemma_inert(performed(s1, tail[0]), tail.skip(1));
}

/// The admin's entry, then `walk`, then an event.
proof fn lemma_walk(s: State, walk: Seq<ActionView>, event: ActionView)
    requires
        event is Publish,
    ensures
        all_performed(s, admin_entry(s) + walk + seq![event]) == all_performed(s, walk),
{
    lemma_split(s, admin_entry(s) + walk, seq![event]);
    lemma_split(s, admin_entry(s), walk);
    lemma_inert(s, admin_entry(s));
    lemma_inert(all_performed(s, walk), seq![event]);
}

proof fn lemma_accept_admin(s: State)
    requires
        accept_admin(s).result is Ok,
    ensures
        all_performed(s, accept_admin(s).actions) == accept_admin(s).state,
{
    let a = accept_admin(s).actions;
    let rest = a.skip(2);
    assert(a =~= a.take(2) + rest);
    lemma_split(s, a.take(2), rest);
    lemma_inert(s, a.take(2));
    lemma_first(s, rest);
    let s1 = performed(s, rest[0]);
    lemma_first(s1, rest.skip(1));
    assert(rest.skip(1).skip(1) == rest.skip(2));
    lemma_inert(performed(s1, rest[1]), rest.skip(2));
}

/// The actions that a request asks for bring the chain's storage into exactly the
/// state that the request leaves.
pub proof fn law_actions_bring_about_the_state(s: State, sequence: u32, request: Request)
    ensures
        all_performed(s, outcome(s, sequence, request).actions) == outcome(
            s,
            sequence,
            request,
        ).state,
{
    let out = outcome(s, sequence, request);
    if out.result is Err {
        lemma_inert(s, out.actions);
    } else {
        match request {
            Request::Initialize { admin, usdc_token, fee_rate_bps, fee_treasury } => {
                lemma_initialize(s, admin, usdc_token, fee_rate_bps, fee_treasury);
            },
            Request::RegisterUser { username, address } => {
                lemma_split(s, admin_entry(s), enrollment(username, address));
                lemma_inert(s, admin_entry(s));
                lemma_enrollment(s, username, address);
            },
            Request::BatchRegisterUsers { usernames, addresses } => {
                lemma_split(s, admin_entry(s), enroll_all(s, usernames, addresses).actions);
                lemma_inert(s, admin_entry(s));
                lemma_enroll_all(s, usernames, addresses);
            },
            Request::DeregisterUser { username } => {
                lemma_three_writes(s, out.actions);
            },
            Request::UpdateAddress { username, new_address } => {
                if s.address_of[username] == new_address {
                    lemma_inert(s, out.actions);
                } else {
                    lemma_three_writes(s, out.actions);
                }
            },
            Request::BatchExtendUserTtl { usernames } => {
                lemma_renew_all(s, usernames);
                lemma_inert(s, out.actions);
            },
            Request::Deposit { username, amount, deposit_id } => {
                lemma_walk(s, crediting(s, username, amount, deposit_id), out.actions.last());
                lemma_crediting(s, username, amount, deposit_id);
            },
            Request::DepositByAddress { address, amount, deposit_id } => {
                let username = s.username_of[address];
                lemma_walk(s, crediting(s, username, amount, deposit_id), out.actions.last());
                lemma_crediting(s, username, amount, deposit_id);
            },
            Request::Withdraw { username, amount, to_address } => {
                lemma_withdraw(s, username, amount, to_address);
            },
            Request::Transfer { from_username, to_username, amount } => {
                let fee = fee_on(amount as int, s.fee_bps() as int);
                lemma_walk(
                    s,
                    movement(s, from_username, to_username, amount as int, fee),
                    out.actions.last(),
                );
                lemma_movement(s, from_username, to_username, amount as int, fee);
            },
            Request::PayPaylink { payer_username, token_id } => {
                lemma_pay_paylink(s, sequence, payer_username, token_id);
            },
            Request::AcceptAdmin => {
                lemma_accept_admin(s);
            },
            Request::ExtendUserTtl { .. } => {
                lemma_inert(s, out.actions);
            },
            Request::ExtendPaylinkTtl { .. } => {
                lemma_inert(s, out.actions);
            },
            Request::SweepExcess { .. } => {
                lemma_inert(s, out.actions);
            },
            Request::Upgrade { .. } => {
                lemma_inert(s, out.actions);
            },
            _ => {
                lemma_one_write(s, out.actions);
            },
        }
    }
}

} // verus!
