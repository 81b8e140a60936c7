//! What every request keeps: the registry, the books, the configuration and the
//! payment links stay in order.

use vstd::prelude::*;

use crate::funds::{balances_after, credited, moved};
use crate::ledger::{valid_token_id, valid_username};
use crate::requests::{after_all, all_run, outcome, runs, Request, Step};
use crate::state::{blank, fee_on, fits, State};
use crate::sums::{lemma_sum_bounds, lemma_sum_insert, lemma_sum_remove, sum};
use crate::types::{PayLinkView, FEE_RATE_MAX_BPS, NOTE_MAX_LEN};
use crate::users::{enroll_all, enrolled, lemma_enroll_all_frame, rebound};

verus! {

/// Usernames and addresses are bound one to one, and every username has an
/// admissible length.
pub open spec fn registry_sound(s: State) -> bool {
    &&& forall|username: Seq<u8>| #[trigger]
        s.address_of.contains_key(username) ==> {
            &&& valid_username(username)
            &&& s.username_of.contains_key(s.address_of[username])
            &&& s.username_of[s.address_of[username]] == username
        }
    &&& forall|address: Seq<u8>| #[trigger]
        s.username_of.contains_key(address) ==> {
            &&& s.address_of.contains_key(s.username_of[address])
            &&& s.address_of[s.username_of[address]] == address
        }
}

/// The registered users, and no others, have a balance; no balance is negative;
/// and the running total is the sum of all balances.
pub open spec fn books_sound(s: State) -> bool {
    &&& s.balances.dom() == s.address_of.dom()
    &&& s.balances.dom().finite()
    &&& forall|username: Seq<u8>|
        s.balances.contains_key(username) ==> #[trigger] s.balances[username] >= 0
    &&& s.total() == sum(s.balances)
}

/// The contract is blank until it is set up; from then on, every setting has a
/// value within its limits.
pub open spec fn config_sound(s: State) -> bool {
    match s.admin {
        None => s == blank(),
        Some(_) => {
            &&& s.usdc_token is Some
            &&& s.fee_rate_bps is Some
            &&& s.fee_bps() <= FEE_RATE_MAX_BPS
            &&& s.fee_treasury is Some
            &&& s.paused is Some
            &&& s.total_balance is Some
            &&& s.min_withdrawal is Some
            &&& s.least_withdrawal() >= 0
        },
    }
}

/// A payment link asks for a positive amount, expires after it was created, is
/// not both paid and cancelled, and knows who paid it, and when, exactly if it
/// is paid, which is not after it expires.
pub open spec fn link_sound(link: PayLinkView) -> bool {
    &&& link.amount > 0
    &&& link.note.len() <= NOTE_MAX_LEN
    &&& link.created_at_ledger < link.expiration_ledger
    &&& !(link.paid && link.cancelled)
    &&& link.paid == (link.payer_username is Some)
    &&& link.paid == (link.paid_at_ledger is Some)
    &&& link.paid ==> link.paid_at_ledger->Some_0 <= link.expiration_ledger
}

/// Every payment link is in order and has an id of admissible length.
pub open spec fn links_sound(s: State) -> bool {
    forall|token_id: Seq<u8>| #[trigger]
        s.paylinks.contains_key(token_id) ==> valid_token_id(token_id) && link_sound(
            s.paylinks[token_id],
        )
}

/// The storage is in order.
pub open spec fn sound(s: State) -> bool {
    &&& registry_sound(s)
    &&& books_sound(s)
    &&& config_sound(s)
    &&& links_sound(s)
}

/// A contract that was never called is in order.
pub proof fn law_blank_is_sound()
    ensures
        sound(blank()),
{
}

/// At no more than the highest rate, a fee on an amount that is not negative is
/// neither negative nor more than a twentieth of the amount.
pub proof fn law_fee_is_capped(amount: int, bps: int)
    requires
        amount >= 0,
        0 <= bps <= FEE_RATE_MAX_BPS,
    ensures
        0 <= fee_on(amount, bps),
        20 * fee_on(amount, bps) <= amount,
{
    assert(0 <= amount * bps <= amount * 500) by (nonlinear_arith)
        requires
            amount >= 0,
            0 <= bps <= 500,
    ;
}

proof fn lemma_enrolled_sound(s: State, username: Seq<u8>, address: Seq<u8>)
    requires
        sound(s),
        s.admin is Some,
        valid_username(username),
        !s.address_of.contains_key(username),
        !s.username_of.contains_key(address),
    ensures
        sound(enrolled(s, username, address)),
{
    lemma_sum_insert(s.balances, username, 0);
    let after = enrolled(s, username, address);
    assert(after.balances.dom() =~= after.address_of.dom());
}

proof fn lemma_enroll_all_sound(s: State, usernames: Seq<Seq<u8>>, addresses: Seq<Seq<u8>>)
    requires
        sound(s),
        s.admin is Some,
        enroll_all(s, usernames, addresses).result is Ok,
    ensures
        sound(enroll_all(s, usernames, addresses).state),
    decreases usernames.len(),
{
    if usernames.len() > 0 {
        lemma_enroll_all_sound(s, usernames.drop_last(), addresses.drop_last());
        lemma_enroll_all_frame(s, usernames.drop_last(), addresses.drop_last());
        let before = enroll_all(s, usernames.drop_last(), addresses.drop_last()).state;
        lemma_enrolled_sound(before, usernames.last(), addresses.last());
    }
}

proof fn lemma_deregistered_sound(s: State, username: Seq<u8>)
    requires
        sound(s),
        s.admin is Some,
        s.address_of.contains_key(username),
        s.balances[username] == 0,
    ensures
        sound(
            State {
                address_of: s.address_of.remove(username),
                username_of: s.username_of.remove(s.address_of[username]),
                balances: s.balances.remove(username),
                ..s
            },
        ),
{
    lemma_sum_remove(s.balances, username);
    assert(s.balances.contains_key(username));
    assert(s.balances.remove(username).dom() =~= s.address_of.remove(username).dom());
}

proof fn lemma_rebound_sound(s: State, username: Seq<u8>, new_address: Seq<u8>)
    requires
        sound(s),
        s.admin is Some,
        s.address_of.contains_key(username),
        !s.username_of.contains_key(new_address),
    ensures
        sound(rebound(s, username, new_address)),
{
    let after = rebound(s, username, new_address);
    assert(after.address_of.dom() =~= s.address_of.dom());
}

proof fn lemma_credited_sound(s: State, username: Seq<u8>, amount: i128, deposit_id: Seq<u8>)
    requires
        sound(s),
        s.admin is Some,
        s.address_of.contains_key(username),
        amount > 0,
        fits(s.balances[username] + amount),
        fits(s.total() + amount),
    ensures
        sound(credited(s, username, amount, deposit_id)),
{
    let after = credited(s, username, amount, deposit_id);
    assert(s.balances.contains_key(username));
    lemma_sum_insert(s.balances, username, (s.balances[username] + amount) as i128);
    assert(after.balances.dom() =~= s.balances.dom());
}

proof fn lemma_withdrawn_sound(s: State, username: Seq<u8>, amount: i128)
    requires
        sound(s),
        s.admin is Some,
        s.balances.contains_key(username),
        0 < amount <= s.balances[username],
        fits(s.total() - amount),
    ensures
        sound(
            State {
                balances: s.balances.insert(username, (s.balances[username] - amount) as i128),
                total_balance: Some((s.total() - amount) as i128),
                ..s
            },
        ),
{
    let after = s.balances.insert(username, (s.balances[username] - amount) as i128);
    lemma_sum_insert(s.balances, username, (s.balances[username] - amount) as i128);
    assert(after.dom() =~= s.balances.dom());
}

/// Moving an amount from one user to another keeps the books in order.
proof fn lemma_moved_sound(s: State, from: Seq<u8>, to: Seq<u8>, amount: int, fee: int)
    requires
        sound(s),
        s.admin is Some,
        s.balances.contains_key(from),
        s.balances.contains_key(to),
        0 < amount <= s.balances[from],
        0 <= fee <= amount,
    ensures
        sound(moved(s, from, to, amount, fee)),
        fits(s.balances[to] + (amount - fee)) || from == to,
        fits(s.total() - fee),
{
    let debited = s.balances.insert(from, (s.balances[from] - amount) as i128);
    let after = balances_after(s.balances, from, to, amount, fee);
    lemma_sum_bounds(s.balances, from, to);
    lemma_sum_insert(s.balances, from, (s.balances[from] - amount) as i128);
    lemma_sum_insert(debited, to, (debited[to] + (amount - fee)) as i128);
    assert(after.dom() =~= s.balances.dom());
}

/// Every request that runs to its end leaves in order what it found in order.
pub proof fn law_requests_keep_soundness(s: State, sequence: u32, request: Request)
    requires
        sound(s),
        runs(s, sequence, request),
    ensures
        sound(outcome(s, sequence, request).state),
{
    if outcome(s, sequence, request).result is Ok {
        match request {
            Request::Initialize { admin, usdc_token, fee_rate_bps, fee_treasury } => {},
            Request::RegisterUser { username, address } => {
                lemma_enrolled_sound(s, username, address);
            },
            Request::BatchRegisterUsers { usernames, addresses } => {
                lemma_enroll_all_sound(s, usernames, addresses);
            },
            Request::DeregisterUser { username } => {
                assert(s.balances.contains_key(username));
                lemma_deregistered_sound(s, username);
            },
            Request::UpdateAddress { username, new_address } => {
                if s.address_of[username] != new_address {
                    lemma_rebound_sound(s, username, new_address);
                }
            },
            Request::Deposit { username, amount, deposit_id } => {
                lemma_credited_sound(s, username, amount, deposit_id);
            },
            Request::DepositByAddress { address, amount, deposit_id } => {
                lemma_credited_sound(s, s.username_of[address], amount, deposit_id);
            },
            Request::Withdraw { username, amount, to_address } => {
                lemma_withdrawn_sound(s, username, amount);
            },
            Request::Transfer { from_username, to_username, amount } => {
                let fee = fee_on(amount as int, s.fee_bps() as int);
                law_fee_is_capped(amount as int, s.fee_bps() as int);
                lemma_moved_sound(s, from_username, to_username, amount as int, fee);
            },
            Request::PayPaylink { payer_username, token_id } => {
                let link = s.paylinks[token_id];
                let fee = fee_on(link.amount as int, s.fee_bps() as int);
                law_fee_is_capped(link.amount as int, s.fee_bps() as int);
                lemma_moved_sound(
                    s,
                    payer_username,
                    link.creator_username,
                    link.amount as int,
                    fee,
                );
            },
            _ => {},
        }
    }
}

/// Whatever requests are made of a contract from its start, it stays in order.
pub proof fn law_contract_stays_sound(steps: Seq<Step>)
    requires
        all_run(blank(), steps),
    ensures
        sound(after_all(blank(), steps)),
    decreases steps.len(),
{
    if steps.len() > 0 {
        law_contract_stays_sound(steps.drop_last());
        law_requests_keep_soundness(
            after_all(blank(), steps.drop_last()),
            steps.last().sequence,
            steps.last().request,
        );
    }
}

} // verus!
