//! Which entries decide a request: the others need not be known.

use vstd::prelude::*;

use crate::funds::{crediting, movement, movement_refusal, movement_runs};
use crate::requests::{outcome, runs, Request};
use crate::state::{fee_on, user_renewal, State};
use crate::users::{enroll_all, renew_all};

verus! {

/// Whether two maps agree about a key.
pub open spec fn agree_at<V>(
    first: Map<Seq<u8>, V>,
    second: Map<Seq<u8>, V>,
    key: Seq<u8>,
) -> bool {
    &&& first.contains_key(key) == second.contains_key(key)
    &&& first.contains_key(key) ==> first[key] == second[key]
}

/// Whether two storages agree about the instance entries.
pub open spec fn agree_on_config(first: State, second: State) -> bool {
    &&& first.admin == second.admin
    &&& first.usdc_token == second.usdc_token
    &&& first.fee_rate_bps == second.fee_rate_bps
    &&& first.fee_treasury == second.fee_treasury
    &&& first.paused == second.paused
    &&& first.total_balance == second.total_balance
    &&& first.min_withdrawal == second.min_withdrawal
    &&& first.pending_admin == second.pending_admin
}

/// Whether two storages agree about the three entries of a user.
pub open spec fn agree_on_user(first: State, second: State, username: Seq<u8>) -> bool {
    &&& agree_at(first.address_of, second.address_of, username)
    &&& agree_at(first.balances, second.balances, username)
    &&& first.registered(username) ==> agree_at(
        first.username_of,
        second.username_of,
        first.address_of[username],
    )
}

/// Whether two storages agree about the entries that a request is about.
pub open spec fn agree_on(first: State, second: State, request: Request) -> bool {
    &&& agree_on_config(first, second)
    &&& match request {
        Request::RegisterUser { username, address } => {
            &&& agree_at(first.address_of, second.address_of, username)
            &&& agree_at(first.username_of, second.username_of, address)
        },
        Request::BatchRegisterUsers { usernames, addresses } => {
            &&& forall|i: int|
                0 <= i < usernames.len() ==> agree_at(
                    first.address_of,
                    second.address_of,
                    #[trigger] usernames[i],
                )
            &&& forall|i: int|
                0 <= i < addresses.len() ==> agree_at(
                    first.username_of,
                    second.username_of,
                    #[trigger] addresses[i],
                )
        },
        Request::DeregisterUser { username } => {
            &&& agree_at(first.address_of, second.address_of, username)
            &&& agree_at(first.balances, second.balances, username)
        },
        Request::UpdateAddress { username, new_address } => {
            &&& agree_on_user(first, second, username)
            &&& agree_at(first.username_of, second.username_of, new_address)
        },
        Request::ExtendUserTtl { username } => agree_on_user(first, second, username),
        Request::BatchExtendUserTtl { usernames } => forall|i: int|
            0 <= i < usernames.len() ==> agree_on_user(first, second, #[trigger] usernames[i]),
        Request::Deposit { username, deposit_id, .. } => {
            &&& agree_on_user(first, second, username)
            &&& first.deposits.contains(deposit_id) == second.deposits.contains(deposit_id)
        },
        Request::DepositByAddress { address, deposit_id, .. } => {
            &&& agree_at(first.username_of, second.username_of, address)
            &&& first.username_of.contains_key(address) ==> agree_on_user(
                first,
                second,
                first.username_of[address],
            )
            &&& first.deposits.contains(deposit_id) == second.deposits.contains(deposit_id)
        },
        Request::Withdraw { username, .. } => agree_on_user(first, second, username),
        Request::Transfer { from_username, to_username, .. } => {
            &&& agree_on_user(first, second, from_username)
            &&& agree_on_user(first, second, to_username)
        },
        Request::CreatePaylink { creator_username, token_id, .. } => {
            &&& agree_at(first.address_of, second.address_of, creator_username)
            &&& agree_at(first.paylinks, second.paylinks, token_id)
        },
        Request::PayPaylink { payer_username, token_id } => {
            &&& agree_on_user(first, second, payer_username)
            &&& agree_at(first.paylinks, second.paylinks, token_id)
            &&& first.paylinks.contains_key(token_id) ==> agree_on_user(
                first,
                second,
                first.paylinks[token_id].creator_username,
            )
        },
        Request::CancelPaylink { token_id, .. } => agree_at(
            first.paylinks,
            second.paylinks,
            token_id,
        ),
        Request::AdminCancelPaylink { token_id } => agree_at(
            first.paylinks,
            second.paylinks,
            token_id,
        ),
        Request::ExtendPaylinkTtl { token_id } => agree_at(
            first.paylinks,
            second.paylinks,
            token_id,
        ),
        _ => true,
    }
}

/// Enrolling users goes the same way in two storages that agree about all of them.
proof fn lemma_enroll_all_agrees(
    first: State,
    second: State,
    usernames: Seq<Seq<u8>>,
    addresses: Seq<Seq<u8>>,
    names: Seq<Seq<u8>>,
    places: Seq<Seq<u8>>,
)
    requires
        usernames.len() == addresses.len(),
        forall|i: int|
            0 <= i < names.len() ==> agree_at(
                first.address_of,
                second.address_of,
                #[trigger] names[i],
            ),
        forall|i: int|
            0 <= i < places.len() ==> agree_at(
                first.username_of,
                second.username_of,
                #[trigger] places[i],
            ),
        forall|i: int| 0 <= i < usernames.len() ==> names.contains(#[trigger] usernames[i]),
        forall|i: int| 0 <= i < addresses.len() ==> places.contains(#[trigger] addresses[i]),
    ensures
        ({
            let one = enroll_all(first, usernames, addresses);
            let other = enroll_all(second, usernames, addresses);
            &&& one.result == other.result
            &&& one.result is Ok ==> {
                &&& one.actions == other.actions
                &&& forall|i: int|
                    0 <= i < names.len() ==> agree_at(
                        one.state.address_of,
                        other.state.address_of,
                        #[trigger] names[i],
                    )
                &&& forall|i: int|
                    0 <= i < places.len() ==> agree_at(
                        one.state.username_of,
                        other.state.username_of,
                        #[trigger] places[i],
                    )
            }
        }),
    decreases usernames.len(),
{
    if usernames.len() > 0 {
        let n = usernames.len() - 1;
        let us = usernames.drop_last();
        let ads = addresses.drop_last();
        assert forall|i: int| 0 <= i < us.len() implies names.contains(#[trigger] us[i]) by {
            assert(us[i] == usernames[i]);
        }
        assert forall|i: int| 0 <= i < ads.len() implies places.contains(#[trigger] ads[i]) by {
            assert(ads[i] == addresses[i]);
        }
        lemma_enroll_all_agrees(first, second, us, ads, names, places);
        assert(names.contains(usernames[n]));
        assert(places.contains(addresses[n]));
        let one = enroll_all(first, us, ads).state;
        let other = enroll_all(second, us, ads).state;
        let i = choose|i: int| 0 <= i < names.len() && names[i] == usernames[n];
        let j = choose|j: int| 0 <= j < places.len() && places[j] == addresses[n];
        assert(enroll_all(first, us, ads).result is Ok ==> agree_at(
            one.address_of,
            other.address_of,
            names[i],
        ) && agree_at(one.username_of, other.username_of, places[j]));
    }
}

proof fn lemma_renew_all_agrees(first: State, second: State, usernames: Seq<Seq<u8>>)
    requires
        forall|i: int|
            0 <= i < usernames.len() ==> agree_at(
                first.address_of,
                second.address_of,
                #[trigger] usernames[i],
            ),
    ensures
        renew_all(first, usernames) == renew_all(second, usernames),
    decreases usernames.len(),
{
    if usernames.len() > 0 {
        let us = usernames.drop_last();
        assert forall|i: int| 0 <= i < us.len() implies agree_at(
            first.address_of,
            second.address_of,
            #[trigger] us[i],
        ) by {
            assert(us[i] == usernames[i]);
        }
        lemma_renew_all_agrees(first, second, us);
        assert(usernames.last() == usernames[usernames.len() - 1]);
        if first.registered(usernames.last()) {
            assert(user_renewal(first, usernames.last()) == user_renewal(second, usernames.last()));
        }
    }
}

proof fn lemma_crediting_agrees(
    first: State,
    second: State,
    username: Seq<u8>,
    amount: i128,
    deposit_id: Seq<u8>,
)
    requires
        agree_on_config(first, second),
        agree_on_user(first, second, username),
        first.user_complete(username),
    ensures
        crediting(first, username, amount, deposit_id) == crediting(
            second,
            username,
            amount,
            deposit_id,
        ),
{
    assert(user_renewal(first, username) == user_renewal(second, username));
}

proof fn lemma_movement_agrees(
    first: State,
    second: State,
    from: Seq<u8>,
    to: Seq<u8>,
    amount: int,
)
    requires
        agree_on_config(first, second),
        agree_on_user(first, second, from),
        agree_on_user(first, second, to),
    ensures
        ({
            let bps = first.fee_bps() as int;
            let fee = fee_on(amount, bps);
            &&& movement_runs(first, from, to, amount, bps) == movement_runs(
                second,
                from,
                to,
                amount,
                bps,
            )
            &&& movement_runs(first, from, to, amount, bps) ==> {
                &&& movement_refusal(first, from, amount, fee) == movement_refusal(
                    second,
                    from,
                    amount,
                    fee,
                )
                &&& movement_refusal(first, from, amount, fee) is None ==> movement(
                    first,
                    from,
                    to,
                    amount,
                    fee,
                ) == movement(second, from, to, amount, fee)
            }
        }),
{
    let bps = first.fee_bps() as int;
    let fee = fee_on(amount, bps);
    if movement_runs(first, from, to, amount, bps) && movement_refusal(
        first,
        from,
        amount,
        fee,
    ) is None {
        assert(user_renewal(first, from) == user_renewal(second, from));
        assert(user_renewal(first, to) == user_renewal(second, to));
    }
}

/// A request is decided by the entries that it is about: two storages that agree
/// about these let it run to its end alike, answer it alike, and ask for the same
/// actions.
pub proof fn law_only_named_entries_decide(
    first: State,
    second: State,
    sequence: u32,
    request: Request,
)
    requires
        agree_on(first, second, request),
    ensures
        runs(first, sequence, request) == runs(second, sequence, request),
        runs(first, sequence, request) ==> {
            &&& outcome(first, sequence, request).result == outcome(
                second,
                sequence,
                request,
            ).result
            &&& outcome(first, sequence, request).actions == outcome(
                second,
                sequence,
                request,
            ).actions
        },
{
    match request {
        Request::RegisterUser { .. } => {},
        Request::BatchRegisterUsers { usernames, addresses } => {
            if usernames.len() == addresses.len() {
                lemma_enroll_all_agrees(
                    first,
                    second,
                    usernames,
                    addresses,
                    usernames,
                    addresses,
                );
            }
        },
        Request::DeregisterUser { .. } => {},
        Request::UpdateAddress { .. } => {},
        Request::ExtendUserTtl { username } => {
            if first.registered(username) {
                assert(user_renewal(first, username) == user_renewal(second, username));
            }
        },
        Request::BatchExtendUserTtl { usernames } => {
            lemma_renew_all_agrees(first, second, usernames);
        },
        Request::Deposit { username, amount, deposit_id } => {
            if first.user_complete(username) {
                lemma_crediting_agrees(first, second, username, amount, deposit_id);
            }
        },
        Request::DepositByAddress { address, amount, deposit_id } => {
            if first.username_of.contains_key(address) && first.user_complete(
                first.username_of[address],
            ) {
                lemma_crediting_agrees(
                    first,
                    second,
                    first.username_of[address],
                    amount,
                    deposit_id,
                );
            }
        },
        Request::Withdraw { username, .. } => {
            if first.registered(username) {
                assert(user_renewal(first, username) == user_renewal(second, username));
            }
        },
        Request::Transfer { from_username, to_username, amount } => {
            lemma_movement_agrees(first, second, from_username, to_username, amount as int);
        },
        Request::PayPaylink { payer_username, token_id } => {
            if first.paylinks.contains_key(token_id) {
                let link = first.paylinks[token_id];
                lemma_movement_agrees(
                    first,
                    second,
                    payer_username,
                    link.creator_username,
                    link.amount as int,
                );
            }
        },
        Request::CreatePaylink { .. } => {},
        Request::CancelPaylink { .. } => {},
        Request::AdminCancelPaylink { .. } => {},
        _ => {},
    }
}

} // verus!
