//! When a request is granted, and why it is refused otherwise.
//!
//! The conditions of one request exclude one another and leave nothing over, so
//! that together they fix its answer for all arguments and all storages.

use vstd::prelude::*;

use crate::admin::{
    accept_admin, initialize, pause, propose_admin, set_fee_rate, set_fee_treasury,
    set_min_withdrawal, set_usdc_token, unpause, upgrade,
};
use crate::funds::{deposit, deposit_by_address, sweep_excess, transfer, withdraw};
use crate::paylinks::{
    admin_cancel_paylink, cancel_paylink, create_paylink, extend_paylink_ttl, pay_paylink,
};
use crate::state::State;
use crate::types::Error;
use crate::users::{
    batch_extend_user_ttl, batch_register_users, deregister_user, enroll_all,
    enrollment_refusal, extend_user_ttl, lemma_enroll_all_fails, lemma_enroll_all_names,
    register_user, update_address,
};

verus! {

/// Setting up is granted exactly if there is no admin yet and the rate is at most five
/// percent.
pub proof fn law_initialize_is_granted_once_and_under_the_cap(
    s: State,
    admin: Seq<u8>,
    usdc_token: Seq<u8>,
    fee_rate_bps: u32,
    fee_treasury: Seq<u8>,
)
    ensures
        ({
            let answer = initialize(s, admin, usdc_token, fee_rate_bps, fee_treasury).result;
            &&& answer is Ok <==> s.admin is None && fee_rate_bps <= 500
            &&& answer == Err::<(), Error>(Error::AlreadyInitialized) <==> s.admin is Some
            &&& answer == Err::<(), Error>(Error::FeeTooHigh) <==> s.admin is None
                && fee_rate_bps > 500
        }),
{
}

/// A registration is granted exactly if the username has 1 to 32 bytes and neither it
/// nor the address is bound.
pub proof fn law_registration_is_granted_to_new_names(
    s: State,
    username: Seq<u8>,
    address: Seq<u8>,
)
    ensures
        ({
            let answer = register_user(s, username, address).result;
            let fit = 1 <= username.len() <= 32;
            let taken = s.address_of.contains_key(username);
            let bound = s.username_of.contains_key(address);
            &&& answer is Ok <==> s.admin is Some && fit && !taken && !bound
            &&& answer == Err::<(), Error>(Error::NotInitialized) <==> s.admin is None
            &&& answer == Err::<(), Error>(Error::InvalidUsername) <==> s.admin is Some && !fit
            &&& answer == Err::<(), Error>(Error::UsernameTaken) <==> s.admin is Some && fit
                && taken
            &&& answer == Err::<(), Error>(Error::UserAlreadyRegistered) <==> s.admin is Some
                && fit && !taken && bound
        }),
{
}

/// A user is removed exactly if they are registered and have no balance but zero.
pub proof fn law_deregistration_is_granted_at_zero_balance(
    s: State,
    username: Seq<u8>,
)
    ensures
        ({
            let answer = deregister_user(s, username).result;
            let known = s.address_of.contains_key(username);
            let owed = s.balances.contains_key(username) && s.balances[username] != 0;
            &&& answer is Ok <==> s.admin is Some && known && !owed
            &&& answer == Err::<(), Error>(Error::NotInitialized) <==> s.admin is None
            &&& answer == Err::<(), Error>(Error::UsernameNotFound) <==> s.admin is Some && !known
            &&& answer == Err::<(), Error>(Error::NonZeroBalance) <==> s.admin is Some
                && known && owed
        }),
{
}

/// A change of address is granted exactly if the username is registered and the new
/// address is its own or nobody's.
pub proof fn law_address_change_is_granted_to_free_addresses(
    s: State,
    username: Seq<u8>,
    new_address: Seq<u8>,
)
    ensures
        ({
            let answer = update_address(s, username, new_address).result;
            let known = s.address_of.contains_key(username);
            let own = s.address_of[username] == new_address;
            let bound = s.username_of.contains_key(new_address);
            &&& answer is Ok <==> s.admin is Some && known && (own || !bound)
            &&& answer == Err::<(), Error>(Error::NotInitialized) <==> s.admin is None
            &&& answer == Err::<(), Error>(Error::UsernameNotFound) <==> s.admin is Some && !known
            &&& answer == Err::<(), Error>(Error::UserAlreadyRegistered) <==> s.admin is Some
                && known && !own && bound
        }),
{
}

/// The entries of a user are renewed exactly if the username is registered.
pub proof fn law_user_renewal_is_granted_to_the_registered(
    s: State,
    username: Seq<u8>,
)
    ensures
        ({
            let answer = extend_user_ttl(s, username).result;
            let known = s.address_of.contains_key(username);
            &&& answer is Ok <==> s.admin is Some && known
            &&& answer == Err::<(), Error>(Error::NotInitialized) <==> s.admin is None
            &&& answer == Err::<(), Error>(Error::UsernameNotFound) <==> s.admin is Some && !known
        }),
{
}

/// A batch of renewals is granted exactly if it names at most 50 users.
pub proof fn law_batch_renewal_is_granted_to_fifty(
    s: State,
    usernames: Seq<Seq<u8>>,
)
    ensures
        ({
            let answer = batch_extend_user_ttl(s, usernames).result;
            &&& answer is Ok <==> s.admin is Some && usernames.len() <= 50
            &&& answer == Err::<(), Error>(Error::NotInitialized) <==> s.admin is None
            &&& answer == Err::<(), Error>(Error::BatchTooLarge) <==> s.admin is Some
                && usernames.len() > 50
        }),
{
}

/// A deposit is granted exactly if the contract is set up and not paused, the amount is
/// positive, the id is not recorded yet and the username is registered. Any id will do.
pub proof fn law_deposit_is_granted_to_new_payments(
    s: State,
    username: Seq<u8>,
    amount: i128,
    deposit_id: Seq<u8>,
)
    ensures
        ({
            let answer = deposit(s, username, amount, deposit_id).result;
            let open = s.admin is Some && s.paused != Some(true);
            let seen = s.deposits.contains(deposit_id);
            let known = s.address_of.contains_key(username);
            &&& answer is Ok <==> open && amount > 0 && !seen && known
            &&& answer == Err::<(), Error>(Error::NotInitialized) <==> s.admin is None
            &&& answer == Err::<(), Error>(Error::ContractPaused) <==> s.admin is Some
                && s.paused == Some(true)
            &&& answer == Err::<(), Error>(Error::InvalidAmount) <==> open && amount <= 0
            &&& answer == Err::<(), Error>(Error::DepositAlreadyProcessed) <==> open
                && amount > 0 && seen
            &&& answer == Err::<(), Error>(Error::UsernameNotFound) <==> open && amount > 0
                && !seen && !known
        }),
{
}

/// A deposit by address is granted exactly if the contract is set up and not paused, the
/// amount is positive, the id is not recorded yet and the address belongs to a user.
pub proof fn law_deposit_by_address_is_granted_to_new_payments(
    s: State,
    address: Seq<u8>,
    amount: i128,
    deposit_id: Seq<u8>,
)
    ensures
        ({
            let answer = deposit_by_address(s, address, amount, deposit_id).result;
            let open = s.admin is Some && s.paused != Some(true);
            let seen = s.deposits.contains(deposit_id);
            let known = s.username_of.contains_key(address);
            &&& answer is Ok <==> open && amount > 0 && !seen && known
            &&& answer == Err::<(), Error>(Error::NotInitialized) <==> s.admin is None
            &&& answer == Err::<(), Error>(Error::ContractPaused) <==> s.admin is Some
                && s.paused == Some(true)
            &&& answer == Err::<(), Error>(Error::InvalidAmount) <==> open && amount <= 0
            &&& answer == Err::<(), Error>(Error::DepositAlreadyProcessed) <==> open
                && amount > 0 && seen
            &&& answer == Err::<(), Error>(Error::UserNotFound) <==> open && amount > 0
                && !seen && !known
        }),
{
}

/// A withdrawal is granted exactly if the contract is set up and not paused, the amount
/// is positive, at least the minimum that was set, and at most the balance. None below
/// the minimum is granted.
pub proof fn law_withdrawal_is_granted_from_the_minimum_to_the_balance(
    s: State,
    username: Seq<u8>,
    amount: i128,
    to_address: Seq<u8>,
)
    ensures
        ({
            let answer = withdraw(s, username, amount, to_address).result;
            let open = s.admin is Some && s.paused != Some(true);
            let least = if let Some(amount) = s.min_withdrawal { amount } else { 0 };
            &&& answer is Ok <==> open && amount > 0 && least <= amount <= s.balances[username]
            &&& answer == Err::<(), Error>(Error::NotInitialized) <==> s.admin is None
            &&& answer == Err::<(), Error>(Error::ContractPaused) <==> s.admin is Some
                && s.paused == Some(true)
            &&& answer == Err::<(), Error>(Error::InvalidAmount) <==> open && amount <= 0
            &&& answer == Err::<(), Error>(Error::BelowMinWithdrawal) <==> open
                && 0 < amount < least
            &&& answer == Err::<(), Error>(Error::InsufficientBalance) <==> open
                && amount > 0 && amount >= least && amount > s.balances[username]
        }),
{
}

/// A transfer is granted exactly if the contract is set up and not paused, the amount is
/// positive, the two usernames differ and are registered, the sender has the amount, and
/// there is a treasury if the fee comes to a stroop or more.
pub proof fn law_transfer_is_granted_up_to_the_balance(
    s: State,
    from_username: Seq<u8>,
    to_username: Seq<u8>,
    amount: i128,
)
    ensures
        ({
            let answer = transfer(s, from_username, to_username, amount).result;
            let open = s.admin is Some && s.paused != Some(true);
            let apart = from_username != to_username;
            let known = s.address_of.contains_key(from_username)
                && s.address_of.contains_key(to_username);
            let bps = if let Some(bps) = s.fee_rate_bps { bps } else { 0 };
            let stuck = amount * bps >= 10_000 && s.fee_treasury is None;
            let asked = open && amount > 0 && apart && known;
            &&& answer is Ok <==> asked && amount <= s.balances[from_username] && !stuck
            &&& answer == Err::<(), Error>(Error::NotInitialized) <==> s.admin is None
                || (asked && amount <= s.balances[from_username] && stuck)
            &&& answer == Err::<(), Error>(Error::ContractPaused) <==> s.admin is Some
                && s.paused == Some(true)
            &&& answer == Err::<(), Error>(Error::InvalidAmount) <==> open && amount <= 0
            &&& answer == Err::<(), Error>(Error::SelfTransfer) <==> open && amount > 0 && !apart
            &&& answer == Err::<(), Error>(Error::UsernameNotFound) <==> open && amount > 0
                && apart && !known
            &&& answer == Err::<(), Error>(Error::InsufficientBalance) <==> asked
                && amount > s.balances[from_username]
        }),
{
}

/// A payment link is created exactly if the contract is set up and not paused, the id has
/// 1 to 64 bytes and is unused, the amount is positive, the note has at most 256 bytes,
/// the creator is registered, and the last ledger is yet to come, however far off.
pub proof fn law_paylink_is_created_under_a_new_id(
    s: State,
    sequence: u32,
    creator_username: Seq<u8>,
    token_id: Seq<u8>,
    amount: i128,
    note: Seq<u8>,
    expiration_ledger: u32,
)
    ensures
        ({
            let answer = create_paylink(
                s,
                sequence,
                creator_username,
                token_id,
                amount,
                note,
                expiration_ledger,
            ).result;
            let open = s.admin is Some && s.paused != Some(true);
            let fit = 1 <= token_id.len() <= 64;
            let asked = open && fit && amount > 0;
            let short = note.len() <= 256;
            let known = s.address_of.contains_key(creator_username);
            let used = s.paylinks.contains_key(token_id);
            &&& answer is Ok <==> asked && short && known && !used && expiration_ledger > sequence
            &&& answer == Err::<(), Error>(Error::NotInitialized) <==> s.admin is None
            &&& answer == Err::<(), Error>(Error::ContractPaused) <==> s.admin is Some
                && s.paused == Some(true)
            &&& answer == Err::<(), Error>(Error::InvalidTokenId) <==> open && !fit
            &&& answer == Err::<(), Error>(Error::InvalidAmount) <==> open && fit && amount <= 0
            &&& answer == Err::<(), Error>(Error::NoteTooLong) <==> asked && !short
            &&& answer == Err::<(), Error>(Error::UsernameNotFound) <==> asked && short && !known
            &&& answer == Err::<(), Error>(Error::PayLinkAlreadyExists) <==> asked && short
                && known && used
            &&& answer == Err::<(), Error>(Error::PayLinkExpired) <==> asked && short
                && known && !used && expiration_ledger <= sequence
        }),
{
}

/// A payment is granted exactly if the contract is set up and not paused, the id has 1 to
/// 64 bytes, the payer is registered, the link is there, neither paid nor cancelled, its
/// last ledger is not over, the payer has its amount, and there is a treasury if the fee
/// comes to a stroop or more.
pub proof fn law_payment_is_granted_of_open_links(
    s: State,
    sequence: u32,
    payer_username: Seq<u8>,
    token_id: Seq<u8>,
)
    requires
        s.paylinks.contains_key(token_id) ==> s.paylinks[token_id].amount >= 0,
    ensures
        ({
            let answer = pay_paylink(s, sequence, payer_username, token_id).result;
            let open = s.admin is Some && s.paused != Some(true);
            let fit = 1 <= token_id.len() <= 64;
            let known = s.address_of.contains_key(payer_username);
            let there = s.paylinks.contains_key(token_id);
            let link = s.paylinks[token_id];
            let asked = open && fit && known && there;
            let payable = asked && !link.paid && !link.cancelled
                && sequence <= link.expiration_ledger;
            let bps = if let Some(bps) = s.fee_rate_bps { bps } else { 0 };
            let stuck = link.amount * bps >= 10_000 && s.fee_treasury is None;
            &&& answer is Ok <==> payable && link.amount <= s.balances[payer_username] && !stuck
            &&& answer == Err::<(), Error>(Error::NotInitialized) <==> s.admin is None
                || (payable && link.amount <= s.balances[payer_username] && stuck)
            &&& answer == Err::<(), Error>(Error::ContractPaused) <==> s.admin is Some
                && s.paused == Some(true)
            &&& answer == Err::<(), Error>(Error::InvalidTokenId) <==> open && !fit
            &&& answer == Err::<(), Error>(Error::UsernameNotFound) <==> open && fit && !known
            &&& answer == Err::<(), Error>(Error::PayLinkNotFound) <==> open && fit && known
                && !there
            &&& answer == Err::<(), Error>(Error::PayLinkAlreadyPaid) <==> asked && link.paid
            &&& answer == Err::<(), Error>(Error::PayLinkCancelled) <==> asked && !link.paid
                && link.cancelled
            &&& answer == Err::<(), Error>(Error::PayLinkExpired) <==> asked && !link.paid
                && !link.cancelled && sequence > link.expiration_ledger
            &&& answer == Err::<(), Error>(Error::InsufficientBalance) <==> payable
                && link.amount > s.balances[payer_username]
        }),
{
}

/// A link is cancelled in the name of a user exactly if that user created it and it is
/// neither paid nor cancelled. A pause does not matter.
pub proof fn law_creator_cancels_open_links(
    s: State,
    creator_username: Seq<u8>,
    token_id: Seq<u8>,
)
    ensures
        ({
            let answer = cancel_paylink(s, creator_username, token_id).result;
            let fit = 1 <= token_id.len() <= 64;
            let there = s.paylinks.contains_key(token_id);
            let link = s.paylinks[token_id];
            let asked = s.admin is Some && fit && there;
            let own = link.creator_username == creator_username;
            &&& answer is Ok <==> asked && own && !link.paid && !link.cancelled
            &&& answer == Err::<(), Error>(Error::NotInitialized) <==> s.admin is None
            &&& answer == Err::<(), Error>(Error::InvalidTokenId) <==> s.admin is Some && !fit
            &&& answer == Err::<(), Error>(Error::PayLinkNotFound) <==> s.admin is Some
                && fit && !there
            &&& answer == Err::<(), Error>(Error::NotPayLinkCreator) <==> asked && !own
            &&& answer == Err::<(), Error>(Error::PayLinkAlreadyPaid) <==> asked && own && link.paid
            &&& answer == Err::<(), Error>(Error::PayLinkCancelled) <==> asked && own
                && !link.paid && link.cancelled
        }),
{
}

/// A link is cancelled by the admin exactly if it is neither paid nor cancelled, whoever
/// created it. A pause does not matter.
pub proof fn law_admin_cancels_open_links(
    s: State,
    token_id: Seq<u8>,
)
    ensures
        ({
            let answer = admin_cancel_paylink(s, token_id).result;
            let fit = 1 <= token_id.len() <= 64;
            let there = s.paylinks.contains_key(token_id);
            let link = s.paylinks[token_id];
            let asked = s.admin is Some && fit && there;
            &&& answer is Ok <==> asked && !link.paid && !link.cancelled
            &&& answer == Err::<(), Error>(Error::NotInitialized) <==> s.admin is None
            &&& answer == Err::<(), Error>(Error::InvalidTokenId) <==> s.admin is Some && !fit
            &&& answer == Err::<(), Error>(Error::PayLinkNotFound) <==> s.admin is Some
                && fit && !there
            &&& answer == Err::<(), Error>(Error::PayLinkAlreadyPaid) <==> asked && link.paid
            &&& answer == Err::<(), Error>(Error::PayLinkCancelled) <==> asked && !link.paid
                && link.cancelled
        }),
{
}

/// A link is renewed exactly if it is there.
pub proof fn law_link_renewal_is_granted_to_links(
    s: State,
    token_id: Seq<u8>,
)
    ensures
        ({
            let answer = extend_paylink_ttl(s, token_id).result;
            let fit = 1 <= token_id.len() <= 64;
            let there = s.paylinks.contains_key(token_id);
            &&& answer is Ok <==> s.admin is Some && fit && there
            &&& answer == Err::<(), Error>(Error::NotInitialized) <==> s.admin is None
            &&& answer == Err::<(), Error>(Error::InvalidTokenId) <==> s.admin is Some && !fit
            &&& answer == Err::<(), Error>(Error::PayLinkNotFound) <==> s.admin is Some
                && fit && !there
        }),
{
}

/// A fee rate is set exactly if it is at most five percent.
pub proof fn law_fee_rate_is_set_under_the_cap(
    s: State,
    new_fee_bps: u32,
)
    ensures
        ({
            let answer = set_fee_rate(s, new_fee_bps).result;
            &&& answer is Ok <==> s.admin is Some && new_fee_bps <= 500
            &&& answer == Err::<(), Error>(Error::NotInitialized) <==> s.admin is None
            &&& answer == Err::<(), Error>(Error::FeeTooHigh) <==> s.admin is Some
                && new_fee_bps > 500
        }),
{
}

/// A minimum for withdrawals is set exactly if it is not negative.
pub proof fn law_minimum_is_set_from_zero(
    s: State,
    min_amount: i128,
)
    ensures
        ({
            let answer = set_min_withdrawal(s, min_amount).result;
            &&& answer is Ok <==> s.admin is Some && min_amount >= 0
            &&& answer == Err::<(), Error>(Error::NotInitialized) <==> s.admin is None
            &&& answer == Err::<(), Error>(Error::InvalidAmount) <==> s.admin is Some
                && min_amount < 0
        }),
{
}

/// Becoming the admin is granted exactly if a candidate has been proposed.
pub proof fn law_proposal_is_accepted_if_there_is_one(
    s: State,
)
    ensures
        ({
            let answer = accept_admin(s).result;
            &&& answer is Ok <==> s.pending_admin is Some
            &&& answer == Err::<(), Error>(Error::NoPendingAdmin) <==> s.pending_admin is None
        }),
{
}

/// The other requests of the admin are granted exactly if the contract is set up.
pub proof fn law_admin_is_not_refused(
    s: State,
    address: Seq<u8>,
    contract_usdc: i128,
    new_wasm_hash: [u8; 32],
)
    ensures
        set_fee_treasury(s, address).result == if s.admin is Some {
            Ok(())
        } else {
            Err::<(), Error>(Error::NotInitialized)
        },
        set_usdc_token(s, address).result == if s.admin is Some {
            Ok(())
        } else {
            Err::<(), Error>(Error::NotInitialized)
        },
        propose_admin(s, address).result == if s.admin is Some {
            Ok(())
        } else {
            Err::<(), Error>(Error::NotInitialized)
        },
        pause(s).result == if s.admin is Some {
            Ok(())
        } else {
            Err::<(), Error>(Error::NotInitialized)
        },
        unpause(s).result == if s.admin is Some {
            Ok(())
        } else {
            Err::<(), Error>(Error::NotInitialized)
        },
        sweep_excess(s, address, contract_usdc).result == if s.admin is Some {
            Ok(())
        } else {
            Err::<(), Error>(Error::NotInitialized)
        },
        upgrade(s, new_wasm_hash).result == if s.admin is Some {
            Ok(())
        } else {
            Err::<(), Error>(Error::NotInitialized)
        },
{
}

/// Whether the entry of a batch at `i` can be bound once those before it are: its
/// name has 1 to 32 bytes, and neither its name nor its address is bound already
/// or stands in the batch before it.
pub open spec fn entry_stands(
    s: State,
    usernames: Seq<Seq<u8>>,
    addresses: Seq<Seq<u8>>,
    i: int,
) -> bool {
    &&& 1 <= usernames[i].len() <= 32
    &&& !s.address_of.contains_key(usernames[i])
    &&& !s.username_of.contains_key(addresses[i])
    &&& forall|j: int| 0 <= j < i ==> #[trigger] usernames[j] != usernames[i]
    &&& forall|j: int| 0 <= j < i ==> #[trigger] addresses[j] != addresses[i]
}

/// If all entries of a list stand, the list is enrolled.
proof fn lemma_standing_entries_are_enrolled(
    s: State,
    usernames: Seq<Seq<u8>>,
    addresses: Seq<Seq<u8>>,
    n: int,
)
    requires
        usernames.len() == addresses.len(),
        0 <= n <= usernames.len(),
        forall|i: int| 0 <= i < n ==> #[trigger] entry_stands(s, usernames, addresses, i),
    ensures
        enroll_all(s, usernames.take(n), addresses.take(n)).result is Ok,
    decreases n,
{
    if n > 0 {
        let us = usernames.take(n - 1);
        let ads = addresses.take(n - 1);
        lemma_standing_entries_are_enrolled(s, usernames, addresses, n - 1);
        lemma_enroll_all_names(s, us, ads);
        assert(usernames.take(n).drop_last() == us);
        assert(addresses.take(n).drop_last() == ads);
        assert(entry_stands(s, usernames, addresses, n - 1));
        assert(!us.contains(usernames[n - 1])) by {
            if us.contains(usernames[n - 1]) {
                let j = us.index_of(usernames[n - 1]);
                assert(us[j] == usernames[j]);
            }
        }
        assert(!ads.contains(addresses[n - 1])) by {
            if ads.contains(addresses[n - 1]) {
                let j = ads.index_of(addresses[n - 1]);
                assert(ads[j] == addresses[j]);
            }
        }
    }
}

/// The first entry that does not stand decides the answer.
proof fn lemma_first_fallen_entry(
    s: State,
    usernames: Seq<Seq<u8>>,
    addresses: Seq<Seq<u8>>,
    k: int,
)
    requires
        usernames.len() == addresses.len(),
        0 <= k < usernames.len(),
        forall|i: int| 0 <= i < k ==> #[trigger] entry_stands(s, usernames, addresses, i),
        !entry_stands(s, usernames, addresses, k),
    ensures
        ({
            let fit = 1 <= usernames[k].len() <= 32;
            let fresh = !s.address_of.contains_key(usernames[k]) && forall|j: int|
                0 <= j < k ==> #[trigger] usernames[j] != usernames[k];
            enroll_all(s, usernames, addresses).result == Err::<(), Error>(
                if !fit {
                    Error::InvalidUsername
                } else if !fresh {
                    Error::UsernameTaken
                } else {
                    Error::UserAlreadyRegistered
                },
            )
        }),
{
    let us = usernames.take(k);
    let ads = addresses.take(k);
    lemma_standing_entries_are_enrolled(s, usernames, addresses, k);
    lemma_enroll_all_names(s, us, ads);
    assert(usernames.take(k + 1).drop_last() == us);
    assert(addresses.take(k + 1).drop_last() == ads);
    assert(us.contains(usernames[k]) == exists|j: int|
        0 <= j < k && #[trigger] usernames[j] == usernames[k]) by {
        if us.contains(usernames[k]) {
            let j = us.index_of(usernames[k]);
            assert(us[j] == usernames[j]);
        }
        if exists|j: int| 0 <= j < k && #[trigger] usernames[j] == usernames[k] {
            let j = choose|j: int| 0 <= j < k && #[trigger] usernames[j] == usernames[k];
            assert(us[j] == usernames[k]);
        }
    }
    assert(ads.contains(addresses[k]) == exists|j: int|
        0 <= j < k && #[trigger] addresses[j] == addresses[k]) by {
        if ads.contains(addresses[k]) {
            let j = ads.index_of(addresses[k]);
            assert(ads[j] == addresses[j]);
        }
        if exists|j: int| 0 <= j < k && #[trigger] addresses[j] == addresses[k] {
            let j = choose|j: int| 0 <= j < k && #[trigger] addresses[j] == addresses[k];
            assert(ads[j] == addresses[k]);
        }
    }
    let before = enroll_all(s, us, ads).state;
    assert(enrollment_refusal(before, usernames[k], addresses[k]) is Some);
    lemma_enroll_all_fails(s, usernames, addresses, k + 1);
}

/// A batch is granted exactly if it has as many usernames as addresses, at most 50,
/// and every entry can be bound once those before it are.
pub proof fn law_batch_is_granted_if_every_entry_stands(
    s: State,
    usernames: Seq<Seq<u8>>,
    addresses: Seq<Seq<u8>>,
)
    ensures
        ({
            let answer = batch_register_users(s, usernames, addresses).result;
            let even = usernames.len() == addresses.len();
            &&& answer is Ok <==> s.admin is Some && even && usernames.len() <= 50 && forall|i: int|
                0 <= i < usernames.len() ==> #[trigger] entry_stands(s, usernames, addresses, i)
            &&& answer == Err::<(), Error>(Error::NotInitialized) <==> s.admin is None
            &&& answer == Err::<(), Error>(Error::BatchLengthMismatch) <==> s.admin is Some && !even
            &&& answer == Err::<(), Error>(Error::BatchTooLarge) <==> s.admin is Some && even
                && usernames.len() > 50
        }),
{
    if s.admin is Some && usernames.len() == addresses.len() && usernames.len() <= 50 {
        if forall|i: int|
            0 <= i < usernames.len() ==> #[trigger] entry_stands(s, usernames, addresses, i) {
            lemma_standing_entries_are_enrolled(
                s,
                usernames,
                addresses,
                usernames.len() as int,
            );
            assert(usernames.take(usernames.len() as int) == usernames);
            assert(addresses.take(addresses.len() as int) == addresses);
        } else {
            let k = first_fallen(s, usernames, addresses, usernames.len());
            lemma_first_fallen_is_first(s, usernames, addresses, usernames.len());
            lemma_first_fallen_entry(s, usernames, addresses, k);
        }
    }
}

/// The first of the first `n` entries that does not stand, or `n`.
spec fn first_fallen(
    s: State,
    usernames: Seq<Seq<u8>>,
    addresses: Seq<Seq<u8>>,
    n: nat,
) -> int
    decreases n,
{
    if n == 0 {
        0
    } else {
        let k = first_fallen(s, usernames, addresses, (n - 1) as nat);
        if k < n - 1 || !entry_stands(s, usernames, addresses, k) {
            k
        } else {
            n as int
        }
    }
}

proof fn lemma_first_fallen_is_first(
    s: State,
    usernames: Seq<Seq<u8>>,
    addresses: Seq<Seq<u8>>,
    n: nat,
)
    ensures
        0 <= first_fallen(s, usernames, addresses, n) <= n,
        first_fallen(s, usernames, addresses, n) < n ==> !entry_stands(
            s,
            usernames,
            addresses,
            first_fallen(s, usernames, addresses, n),
        ),
        forall|i: int|
            0 <= i < first_fallen(s, usernames, addresses, n) ==> #[trigger] entry_stands(
                s,
                usernames,
                addresses,
                i,
            ),
    decreases n,
{
    if n > 0 {
        lemma_first_fallen_is_first(s, usernames, addresses, (n - 1) as nat);
    }
}

/// The first entry of a batch that cannot be bound says why the batch is refused.
pub proof fn law_first_bad_entry_decides_the_refusal(
    s: State,
    usernames: Seq<Seq<u8>>,
    addresses: Seq<Seq<u8>>,
    k: int,
)
    requires
        s.admin is Some,
        usernames.len() == addresses.len(),
        usernames.len() <= 50,
        0 <= k < usernames.len(),
        forall|i: int| 0 <= i < k ==> #[trigger] entry_stands(s, usernames, addresses, i),
        !entry_stands(s, usernames, addresses, k),
    ensures
        ({
            let answer = batch_register_users(s, usernames, addresses).result;
            let fit = 1 <= usernames[k].len() <= 32;
            let fresh = !s.address_of.contains_key(usernames[k]) && forall|j: int|
                0 <= j < k ==> #[trigger] usernames[j] != usernames[k];
            &&& answer == Err::<(), Error>(Error::InvalidUsername) <==> !fit
            &&& answer == Err::<(), Error>(Error::UsernameTaken) <==> fit && !fresh
            &&& answer == Err::<(), Error>(Error::UserAlreadyRegistered) <==> fit && fresh
        }),
{
    lemma_first_fallen_entry(s, usernames, addresses, k);
}

} // verus!
