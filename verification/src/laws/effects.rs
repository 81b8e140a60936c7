//! What a granted request does to the storage, and that it does nothing else.

use vstd::prelude::*;

use crate::admin::{
    accept_admin, initialize, pause, propose_admin, set_fee_rate, set_fee_treasury,
    set_min_withdrawal, set_usdc_token, unpause,
};
use crate::funds::{
    deposit, deposit_by_address, deposit_by_address_runs, deposit_runs, sweep_excess, transfer,
    transfer_runs, withdraw, withdraw_runs,
};
use crate::laws::locality::agree_at;
use crate::paylinks::{
    admin_cancel_paylink, cancel_paylink, create_paylink, pay_paylink, pay_paylink_runs,
};
use crate::state::{blank, put, without, State};
use crate::types::{DataKeyView, EntryView, PayLinkView};
use crate::users::{
    batch_register_users, deregister_user, enroll_all, lemma_enroll_all_frame, register_user,
    update_address,
};

verus! {

/// A recorded amount; zero if none is recorded.
pub open spec fn recorded(amount: Option<i128>) -> int {
    match amount {
        Some(amount) => amount as int,
        None => 0,
    }
}

/// Whether two maps agree about every key but two, which may be the same.
pub open spec fn agree_elsewhere<V>(
    first: Map<Seq<u8>, V>,
    second: Map<Seq<u8>, V>,
    a: Seq<u8>,
    b: Seq<u8>,
) -> bool {
    forall|key: Seq<u8>| key != a && key != b ==> #[trigger] agree_at(first, second, key)
}

// Money.

/// A granted deposit raises the balance and the total by the amount, records the id,
/// and does nothing else.
pub proof fn law_deposit_raises_balance_and_total(
    s: State,
    username: Seq<u8>,
    amount: i128,
    deposit_id: Seq<u8>,
)
    requires
        deposit_runs(s, username, amount, deposit_id),
        deposit(s, username, amount, deposit_id).result is Ok,
    ensures
        ({
            let after = deposit(s, username, amount, deposit_id).state;
            &&& after.balances.contains_key(username)
            &&& after.balances[username] == s.balances[username] + amount
            &&& agree_elsewhere(after.balances, s.balances, username, username)
            &&& after.total_balance is Some
            &&& recorded(after.total_balance) == recorded(s.total_balance) + amount
            &&& forall|id: Seq<u8>| #[trigger]
                after.deposits.contains(id) <==> s.deposits.contains(id) || id == deposit_id
            &&& after == (State {
                balances: after.balances,
                total_balance: after.total_balance,
                deposits: after.deposits,
                ..s
            })
        }),
{
}

/// A granted deposit by address raises the balance of the user who has the address,
/// and the total, by the amount, records the id, and does nothing else.
pub proof fn law_deposit_by_address_raises_balance_and_total(
    s: State,
    address: Seq<u8>,
    amount: i128,
    deposit_id: Seq<u8>,
)
    requires
        deposit_by_address_runs(s, address, amount, deposit_id),
        deposit_by_address(s, address, amount, deposit_id).result is Ok,
    ensures
        ({
            let after = deposit_by_address(s, address, amount, deposit_id).state;
            let username = s.username_of[address];
            &&& after.balances.contains_key(username)
            &&& after.balances[username] == s.balances[username] + amount
            &&& agree_elsewhere(after.balances, s.balances, username, username)
            &&& after.total_balance is Some
            &&& recorded(after.total_balance) == recorded(s.total_balance) + amount
            &&& forall|id: Seq<u8>| #[trigger]
                after.deposits.contains(id) <==> s.deposits.contains(id) || id == deposit_id
            &&& after == (State {
                balances: after.balances,
                total_balance: after.total_balance,
                deposits: after.deposits,
                ..s
            })
        }),
{
}

/// A granted withdrawal lowers the balance and the total by the amount and does
/// nothing else.
pub proof fn law_withdrawal_lowers_balance_and_total(
    s: State,
    username: Seq<u8>,
    amount: i128,
    to_address: Seq<u8>,
)
    requires
        withdraw_runs(s, username, amount),
        withdraw(s, username, amount, to_address).result is Ok,
    ensures
        ({
            let after = withdraw(s, username, amount, to_address).state;
            &&& after.balances.contains_key(username)
            &&& after.balances[username] == s.balances[username] - amount
            &&& agree_elsewhere(after.balances, s.balances, username, username)
            &&& after.total_balance is Some
            &&& recorded(after.total_balance) == recorded(s.total_balance) - amount
            &&& after == (State {
                balances: after.balances,
                total_balance: after.total_balance,
                ..s
            })
        }),
{
}

/// A granted transfer takes the amount from the sender and gives the recipient all of
/// it but the fee, which is the whole part of the amount times the rate in force,
/// divided by 10_000. The total falls by the fee, and nothing else changes.
pub proof fn law_transfer_takes_the_fee_at_the_rate(
    s: State,
    from_username: Seq<u8>,
    to_username: Seq<u8>,
    amount: i128,
)
    requires
        transfer_runs(s, from_username, to_username, amount),
        transfer(s, from_username, to_username, amount).result is Ok,
    ensures
        ({
            let after = transfer(s, from_username, to_username, amount).state;
            let fee = recorded(s.total_balance) - recorded(after.total_balance);
            let rate = match s.fee_rate_bps {
                Some(bps) => bps as int,
                None => 0,
            };
            &&& 10_000 * fee <= amount * rate < 10_000 * (fee + 1)
            &&& after.balances.contains_key(from_username)
            &&& after.balances.contains_key(to_username)
            &&& after.balances[from_username] == s.balances[from_username] - amount
            &&& after.balances[to_username] == s.balances[to_username] + amount - fee
            &&& agree_elsewhere(after.balances, s.balances, from_username, to_username)
            &&& fee == 0 ==> after.total_balance == s.total_balance
            &&& after == (State {
                balances: after.balances,
                total_balance: after.total_balance,
                ..s
            })
        }),
{
    let rate = match s.fee_rate_bps {
        Some(bps) => bps as int,
        None => 0,
    };
    assert(amount * rate >= 0) by (nonlinear_arith)
        requires
            amount > 0,
            rate >= 0,
    ;
}

/// A granted payment takes the link's amount from the payer and gives the creator all
/// of it but the fee, which is the whole part of the amount times the rate in force,
/// divided by 10_000. The total falls by the fee; the link is marked as paid, with the
/// payer and the ledger; and nothing else changes.
pub proof fn law_payment_takes_the_fee_at_the_rate(
    s: State,
    sequence: u32,
    payer_username: Seq<u8>,
    token_id: Seq<u8>,
)
    requires
        s.paylinks[token_id].amount > 0,
        pay_paylink_runs(s, sequence, payer_username, token_id),
        pay_paylink(s, sequence, payer_username, token_id).result is Ok,
    ensures
        ({
            let after = pay_paylink(s, sequence, payer_username, token_id).state;
            let link = s.paylinks[token_id];
            let paid = after.paylinks[token_id];
            let creator = link.creator_username;
            let fee = recorded(s.total_balance) - recorded(after.total_balance);
            let rate = match s.fee_rate_bps {
                Some(bps) => bps as int,
                None => 0,
            };
            &&& 10_000 * fee <= link.amount * rate < 10_000 * (fee + 1)
            &&& after.balances.contains_key(payer_username)
            &&& after.balances.contains_key(creator)
            &&& payer_username != creator ==> after.balances[payer_username]
                == s.balances[payer_username] - link.amount
            &&& payer_username != creator ==> after.balances[creator] == s.balances[creator]
                + link.amount - fee
            &&& payer_username == creator ==> after.balances[creator] == s.balances[creator] - fee
            &&& agree_elsewhere(after.balances, s.balances, payer_username, creator)
            &&& fee == 0 ==> after.total_balance == s.total_balance
            &&& after.paylinks.contains_key(token_id)
            &&& paid.paid
            &&& paid.payer_username == Some(payer_username)
            &&& paid.paid_at_ledger == Some(sequence)
            &&& paid == (PayLinkView {
                paid: paid.paid,
                payer_username: paid.payer_username,
                paid_at_ledger: paid.paid_at_ledger,
                ..link
            })
            &&& agree_elsewhere(after.paylinks, s.paylinks, token_id, token_id)
            &&& after == (State {
                balances: after.balances,
                total_balance: after.total_balance,
                paylinks: after.paylinks,
                ..s
            })
        }),
{
    let amount = s.paylinks[token_id].amount;
    let rate = match s.fee_rate_bps {
        Some(bps) => bps as int,
        None => 0,
    };
    assert(amount * rate >= 0) by (nonlinear_arith)
        requires
            amount > 0,
            rate >= 0,
    ;
}

/// Sweeping changes nothing in the storage.
pub proof fn law_sweep_changes_no_entry(s: State, recipient: Seq<u8>, contract_usdc: i128)
    ensures
        sweep_excess(s, recipient, contract_usdc).state == s,
{
}

// Users.

/// A granted registration binds the username and the address to each other, with a
/// zero balance, and does nothing else.
pub proof fn law_registration_binds_one_user(s: State, username: Seq<u8>, address: Seq<u8>)
    requires
        register_user(s, username, address).result is Ok,
    ensures
        ({
            let after = register_user(s, username, address).state;
            &&& after.address_of.contains_key(username) && after.address_of[username] == address
            &&& after.username_of.contains_key(address) && after.username_of[address] == username
            &&& after.balances.contains_key(username) && after.balances[username] == 0
            &&& agree_elsewhere(after.address_of, s.address_of, username, username)
            &&& agree_elsewhere(after.username_of, s.username_of, address, address)
            &&& agree_elsewhere(after.balances, s.balances, username, username)
            &&& after == (State {
                address_of: after.address_of,
                username_of: after.username_of,
                balances: after.balances,
                ..s
            })
        }),
{
}

proof fn lemma_enroll_all_binds(s: State, usernames: Seq<Seq<u8>>, addresses: Seq<Seq<u8>>)
    requires
        usernames.len() == addresses.len(),
        enroll_all(s, usernames, addresses).result is Ok,
    ensures
        ({
            let after = enroll_all(s, usernames, addresses).state;
            &&& forall|i: int|
                #![trigger usernames[i]]
                #![trigger addresses[i]]
                0 <= i < usernames.len() ==> {
                    &&& after.address_of.contains_key(usernames[i])
                    &&& after.address_of[usernames[i]] == addresses[i]
                    &&& after.username_of.contains_key(addresses[i])
                    &&& after.username_of[addresses[i]] == usernames[i]
                    &&& after.balances.contains_key(usernames[i])
                    &&& after.balances[usernames[i]] == 0
                }
            &&& forall|name: Seq<u8>|
                !usernames.contains(name) ==> #[trigger] agree_at(
                    after.address_of,
                    s.address_of,
                    name,
                )
            &&& forall|name: Seq<u8>|
                !usernames.contains(name) ==> #[trigger] agree_at(after.balances, s.balances, name)
            &&& forall|address: Seq<u8>|
                !addresses.contains(address) ==> #[trigger] agree_at(
                    after.username_of,
                    s.username_of,
                    address,
                )
        }),
    decreases usernames.len(),
{
    if usernames.len() > 0 {
        let n = usernames.len() - 1;
        let us = usernames.drop_last();
        let ads = addresses.drop_last();
        lemma_enroll_all_binds(s, us, ads);
        let before = enroll_all(s, us, ads).state;
        let after = enroll_all(s, usernames, addresses).state;
        assert forall|i: int|
            #![trigger usernames[i]]
            #![trigger addresses[i]]
            0 <= i < usernames.len() implies {
            &&& after.address_of.contains_key(usernames[i])
            &&& after.address_of[usernames[i]] == addresses[i]
            &&& after.username_of.contains_key(addresses[i])
            &&& after.username_of[addresses[i]] == usernames[i]
            &&& after.balances.contains_key(usernames[i])
            &&& after.balances[usernames[i]] == 0
        } by {
            if i < n {
                assert(us[i] == usernames[i]);
                assert(ads[i] == addresses[i]);
                assert(before.address_of.contains_key(us[i]));
                assert(before.username_of.contains_key(ads[i]));
            }
        }
        assert forall|name: Seq<u8>| !usernames.contains(name) implies #[trigger] agree_at(
            after.address_of,
            s.address_of,
            name,
        ) && agree_at(after.balances, s.balances, name) by {
            lemma_not_among_fewer(usernames, name);
            assert(agree_at(before.address_of, s.address_of, name));
            assert(agree_at(before.balances, s.balances, name));
        }
        assert forall|name: Seq<u8>| !usernames.contains(name) implies #[trigger] agree_at(
            after.balances,
            s.balances,
            name,
        ) by {
            assert(agree_at(after.address_of, s.address_of, name));
        }
        assert forall|address: Seq<u8>| !addresses.contains(address) implies #[trigger] agree_at(
            after.username_of,
            s.username_of,
            address,
        ) by {
            lemma_not_among_fewer(addresses, address);
            assert(agree_at(before.username_of, s.username_of, address));
        }
    }
}

/// What is not in a list is not in the list without its last, nor that last.
proof fn lemma_not_among_fewer(list: Seq<Seq<u8>>, key: Seq<u8>)
    requires
        list.len() > 0,
        !list.contains(key),
    ensures
        !list.drop_last().contains(key),
        list.last() != key,
{
    assert(list.contains(list.last()));
    if list.drop_last().contains(key) {
        let i = list.drop_last().index_of(key);
        assert(list[i] == key);
    }
}

/// A granted batch binds each username and the address at the same place to each
/// other, with a zero balance, and does nothing else.
pub proof fn law_batch_binds_every_user(
    s: State,
    usernames: Seq<Seq<u8>>,
    addresses: Seq<Seq<u8>>,
)
    requires
        batch_register_users(s, usernames, addresses).result is Ok,
    ensures
        ({
            let after = batch_register_users(s, usernames, addresses).state;
            &&& forall|i: int|
                #![trigger usernames[i]]
                #![trigger addresses[i]]
                0 <= i < usernames.len() ==> {
                    &&& after.address_of.contains_key(usernames[i])
                    &&& after.address_of[usernames[i]] == addresses[i]
                    &&& after.username_of.contains_key(addresses[i])
                    &&& after.username_of[addresses[i]] == usernames[i]
                    &&& after.balances.contains_key(usernames[i])
                    &&& after.balances[usernames[i]] == 0
                }
            &&& forall|name: Seq<u8>|
                !usernames.contains(name) ==> #[trigger] agree_at(
                    after.address_of,
                    s.address_of,
                    name,
                )
            &&& forall|name: Seq<u8>|
                !usernames.contains(name) ==> #[trigger] agree_at(after.balances, s.balances, name)
            &&& forall|address: Seq<u8>|
                !addresses.contains(address) ==> #[trigger] agree_at(
                    after.username_of,
                    s.username_of,
                    address,
                )
            &&& after == (State {
                address_of: after.address_of,
                username_of: after.username_of,
                balances: after.balances,
                ..s
            })
        }),
{
    lemma_enroll_all_binds(s, usernames, addresses);
    lemma_enroll_all_frame(s, usernames, addresses);
}

/// A granted removal frees the username and the address, takes the balance away, and
/// does nothing else.
pub proof fn law_deregistration_removes_one_user(s: State, username: Seq<u8>)
    requires
        deregister_user(s, username).result is Ok,
    ensures
        ({
            let after = deregister_user(s, username).state;
            let address = s.address_of[username];
            &&& !after.address_of.contains_key(username)
            &&& !after.username_of.contains_key(address)
            &&& !after.balances.contains_key(username)
            &&& agree_elsewhere(after.address_of, s.address_of, username, username)
            &&& agree_elsewhere(after.username_of, s.username_of, address, address)
            &&& agree_elsewhere(after.balances, s.balances, username, username)
            &&& after == (State {
                address_of: after.address_of,
                username_of: after.username_of,
                balances: after.balances,
                ..s
            })
        }),
{
}

/// A granted change of address binds the username and the new address to each other,
/// frees the old address, and does nothing else; nothing at all if the address is the
/// one that the username has.
pub proof fn law_address_change_rebinds_one_user(
    s: State,
    username: Seq<u8>,
    new_address: Seq<u8>,
)
    requires
        update_address(s, username, new_address).result is Ok,
    ensures
        ({
            let after = update_address(s, username, new_address).state;
            let old_address = s.address_of[username];
            &&& old_address == new_address ==> after == s
            &&& old_address != new_address ==> {
                &&& after.address_of.contains_key(username)
                &&& after.address_of[username] == new_address
                &&& after.username_of.contains_key(new_address)
                &&& after.username_of[new_address] == username
                &&& !after.username_of.contains_key(old_address)
                &&& agree_elsewhere(after.address_of, s.address_of, username, username)
                &&& agree_elsewhere(after.username_of, s.username_of, old_address, new_address)
                &&& after == (State {
                    address_of: after.address_of,
                    username_of: after.username_of,
                    ..s
                })
            }
        }),
{
}

// Payment links.

/// A granted request for a link stores it as asked for, open, and does nothing else.
pub proof fn law_creation_adds_one_link(
    s: State,
    sequence: u32,
    creator_username: Seq<u8>,
    token_id: Seq<u8>,
    amount: i128,
    note: Seq<u8>,
    expiration_ledger: u32,
)
    requires
        create_paylink(
            s,
            sequence,
            creator_username,
            token_id,
            amount,
            note,
            expiration_ledger,
        ).result is Ok,
    ensures
        ({
            let after = create_paylink(
                s,
                sequence,
                creator_username,
                token_id,
                amount,
                note,
                expiration_ledger,
            ).state;
            let link = after.paylinks[token_id];
            &&& after.paylinks.contains_key(token_id)
            &&& link.creator_username == creator_username
            &&& link.amount == amount
            &&& link.note == note
            &&& link.created_at_ledger == sequence
            &&& link.expiration_ledger == expiration_ledger
            &&& !link.paid && link.payer_username is None && link.paid_at_ledger is None
            &&& !link.cancelled
            &&& agree_elsewhere(after.paylinks, s.paylinks, token_id, token_id)
            &&& after == (State { paylinks: after.paylinks, ..s })
        }),
{
}

/// A granted cancellation, the creator's or the admin's, marks the link as cancelled
/// and does nothing else.
pub proof fn law_cancellation_marks_one_link(
    s: State,
    creator_username: Seq<u8>,
    token_id: Seq<u8>,
)
    ensures
        ({
            let out = cancel_paylink(s, creator_username, token_id);
            let link = out.state.paylinks[token_id];
            out.result is Ok ==> {
                &&& out.state.paylinks.contains_key(token_id)
                &&& link.cancelled
                &&& link == (PayLinkView { cancelled: link.cancelled, ..s.paylinks[token_id] })
                &&& agree_elsewhere(out.state.paylinks, s.paylinks, token_id, token_id)
                &&& out.state == (State { paylinks: out.state.paylinks, ..s })
            }
        }),
        ({
            let out = admin_cancel_paylink(s, token_id);
            let link = out.state.paylinks[token_id];
            out.result is Ok ==> {
                &&& out.state.paylinks.contains_key(token_id)
                &&& link.cancelled
                &&& link == (PayLinkView { cancelled: link.cancelled, ..s.paylinks[token_id] })
                &&& agree_elsewhere(out.state.paylinks, s.paylinks, token_id, token_id)
                &&& out.state == (State { paylinks: out.state.paylinks, ..s })
            }
        }),
{
}

// Administration.

/// Setting up records the admin, the token, the rate and the treasury as given, with
/// no pause, no money and no minimum, and does nothing else.
pub proof fn law_setup_records_what_is_given(
    s: State,
    admin: Seq<u8>,
    usdc_token: Seq<u8>,
    fee_rate_bps: u32,
    fee_treasury: Seq<u8>,
)
    requires
        initialize(s, admin, usdc_token, fee_rate_bps, fee_treasury).result is Ok,
    ensures
        ({
            let after = initialize(s, admin, usdc_token, fee_rate_bps, fee_treasury).state;
            &&& after.admin == Some(admin)
            &&& after.usdc_token == Some(usdc_token)
            &&& after.fee_rate_bps == Some(fee_rate_bps)
            &&& after.fee_treasury == Some(fee_treasury)
            &&& after.paused == Some(false)
            &&& after.total_balance == Some(0i128)
            &&& after.min_withdrawal == Some(0i128)
            &&& after.pending_admin == s.pending_admin
            &&& after.balances == s.balances
            &&& after.address_of == s.address_of
            &&& after.username_of == s.username_of
            &&& after.paylinks == s.paylinks
            &&& after.deposits == s.deposits
        }),
{
}

/// Each setting is the value that was set last, and setting it changes no other entry.
pub proof fn law_settings_are_what_was_set(
    s: State,
    fee_bps: u32,
    min_amount: i128,
    address: Seq<u8>,
)
    ensures
        set_fee_rate(s, fee_bps).result is Ok ==> {
            let after = set_fee_rate(s, fee_bps).state;
            after.fee_rate_bps == Some(fee_bps) && State {
                fee_rate_bps: s.fee_rate_bps,
                ..after
            } == s
        },
        set_min_withdrawal(s, min_amount).result is Ok ==> {
            let after = set_min_withdrawal(s, min_amount).state;
            after.min_withdrawal == Some(min_amount) && State {
                min_withdrawal: s.min_withdrawal,
                ..after
            } == s
        },
        set_fee_treasury(s, address).result is Ok ==> {
            let after = set_fee_treasury(s, address).state;
            after.fee_treasury == Some(address) && State {
                fee_treasury: s.fee_treasury,
                ..after
            } == s
        },
        set_usdc_token(s, address).result is Ok ==> {
            let after = set_usdc_token(s, address).state;
            after.usdc_token == Some(address) && State { usdc_token: s.usdc_token, ..after } == s
        },
        propose_admin(s, address).result is Ok ==> {
            let after = propose_admin(s, address).state;
            after.pending_admin == Some(address) && State {
                pending_admin: s.pending_admin,
                ..after
            } == s
        },
        pause(s).result is Ok ==> {
            let after = pause(s).state;
            after.paused == Some(true) && State { paused: s.paused, ..after } == s
        },
        unpause(s).result is Ok ==> {
            let after = unpause(s).state;
            after.paused == Some(false) && State { paused: s.paused, ..after } == s
        },
        accept_admin(s).result is Ok ==> {
            let after = accept_admin(s).state;
            after.admin == s.pending_admin && after.pending_admin is None && State {
                admin: s.admin,
                pending_admin: s.pending_admin,
                ..after
            } == s
        },
{
}

// Entries.

/// What the storage holds of an entry's kind and key.
pub open spec fn holds(s: State, entry: EntryView) -> bool {
    match entry {
        EntryView::Admin(admin) => s.admin == Some(admin),
        EntryView::UsdcToken(token) => s.usdc_token == Some(token),
        EntryView::FeeRateBps(bps) => s.fee_rate_bps == Some(bps),
        EntryView::FeeTreasury(treasury) => s.fee_treasury == Some(treasury),
        EntryView::Paused(paused) => s.paused == Some(paused),
        EntryView::TotalBalance(total) => s.total_balance == Some(total),
        EntryView::MinWithdrawal(amount) => s.min_withdrawal == Some(amount),
        EntryView::PendingAdmin(candidate) => s.pending_admin == Some(candidate),
        EntryView::Balance(username, amount) => s.balances.contains_key(username)
            && s.balances[username] == amount,
        EntryView::UsernameToAddr(username, address) => s.address_of.contains_key(username)
            && s.address_of[username] == address,
        EntryView::AddrToUsername(address, username) => s.username_of.contains_key(address)
            && s.username_of[address] == username,
        EntryView::PayLink(token_id, link) => s.paylinks.contains_key(token_id)
            && s.paylinks[token_id] == link,
        EntryView::ProcessedDeposit(deposit_id) => s.deposits.contains(deposit_id),
    }
}

/// The key that an entry is stored under.
pub open spec fn key_of(entry: EntryView) -> DataKeyView {
    match entry {
        EntryView::Admin(_) => DataKeyView::Admin,
        EntryView::UsdcToken(_) => DataKeyView::UsdcToken,
        EntryView::FeeRateBps(_) => DataKeyView::FeeRateBps,
        EntryView::FeeTreasury(_) => DataKeyView::FeeTreasury,
        EntryView::Paused(_) => DataKeyView::Paused,
        EntryView::TotalBalance(_) => DataKeyView::TotalBalance,
        EntryView::MinWithdrawal(_) => DataKeyView::MinWithdrawal,
        EntryView::PendingAdmin(_) => DataKeyView::PendingAdmin,
        EntryView::Balance(username, _) => DataKeyView::Balance(username),
        EntryView::UsernameToAddr(username, _) => DataKeyView::UsernameToAddr(username),
        EntryView::AddrToUsername(address, _) => DataKeyView::AddrToUsername(address),
        EntryView::PayLink(token_id, _) => DataKeyView::PayLink(token_id),
        EntryView::ProcessedDeposit(deposit_id) => DataKeyView::ProcessedDeposit(deposit_id),
    }
}

/// After an entry is written the storage holds it, in place of what it held under the
/// same key, and holds every other entry exactly if it did before.
pub proof fn law_written_entry_is_held(s: State, entry: EntryView, other: EntryView)
    ensures
        holds(put(s, entry), entry),
        key_of(other) == key_of(entry) ==> (holds(put(s, entry), other) <==> other == entry),
        key_of(other) != key_of(entry) ==> (holds(put(s, entry), other) <==> holds(s, other)),
{
}

/// After an entry is deleted the storage holds none under its key, and holds every
/// other entry exactly if it did before.
pub proof fn law_deleted_entry_is_gone(s: State, key: DataKeyView, entry: EntryView)
    ensures
        holds(without(s, key), entry) <==> holds(s, entry) && key_of(entry) != key,
{
}

/// A contract that was never called holds no entry.
pub proof fn law_blank_holds_nothing(entry: EntryView)
    ensures
        !holds(blank(), entry),
{
}

} // verus!
