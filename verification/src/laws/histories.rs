//! What stays so through any number of requests.

use vstd::prelude::*;

use crate::admin::{accept_admin, initialize, propose_admin};
use crate::funds::deposit;
use crate::ledger::valid_token_id;
use crate::paylinks::{admin_cancel_paylink, cancel_paylink, create_paylink, paid_link, pay_paylink};
use crate::requests::{after_all, all_run, outcome, Request, Step};
use crate::soundness::{law_contract_stays_sound, link_sound};
use crate::state::{blank, State};
use crate::types::{Error, PayLinkView, FEE_RATE_MAX_BPS};
use crate::users::lemma_enroll_all_frame;

verus! {

// Deposits.

/// No request forgets a deposit id.
pub proof fn law_deposit_ids_are_kept(
    s: State,
    sequence: u32,
    request: Request,
    deposit_id: Seq<u8>,
)
    requires
        s.deposits.contains(deposit_id),
    ensures
        outcome(s, sequence, request).state.deposits.contains(deposit_id),
{
    if let Request::BatchRegisterUsers { usernames, addresses } = request {
        lemma_enroll_all_frame(s, usernames, addresses);
    }
}

proof fn lemma_deposit_ids_stay(s: State, steps: Seq<Step>, deposit_id: Seq<u8>)
    requires
        s.deposits.contains(deposit_id),
    ensures
        after_all(s, steps).deposits.contains(deposit_id),
    decreases steps.len(),
{
    if steps.len() > 0 {
        lemma_deposit_ids_stay(s, steps.drop_last(), deposit_id);
        law_deposit_ids_are_kept(
            after_all(s, steps.drop_last()),
            steps.last().sequence,
            steps.last().request,
            deposit_id,
        );
    }
}

/// Whether a request deposits under an id.
pub open spec fn deposits_under(request: Request, deposit_id: Seq<u8>) -> bool {
    match request {
        Request::Deposit { deposit_id: id, .. } => id == deposit_id,
        Request::DepositByAddress { deposit_id: id, .. } => id == deposit_id,
        _ => false,
    }
}

/// A payment is credited once: after a deposit is granted, no deposit under the
/// same id is, to whomever and however many requests later, for as long as the
/// chain keeps the record of the id.
pub proof fn law_deposit_is_credited_once(
    s: State,
    first: Step,
    between: Seq<Step>,
    second: Step,
    deposit_id: Seq<u8>,
)
    requires
        deposits_under(first.request, deposit_id),
        deposits_under(second.request, deposit_id),
        outcome(s, first.sequence, first.request).result is Ok,
    ensures
        outcome(
            after_all(outcome(s, first.sequence, first.request).state, between),
            second.sequence,
            second.request,
        ).result is Err,
{
    lemma_deposit_ids_stay(
        outcome(s, first.sequence, first.request).state,
        between,
        deposit_id,
    );
}

/// The second of two deposits under one id is refused as already processed, if
/// nothing that is checked before speaks against it.
pub proof fn law_repeated_deposit_is_told_apart(
    s: State,
    username: Seq<u8>,
    amount: i128,
    deposit_id: Seq<u8>,
)
    requires
        deposit(s, username, amount, deposit_id).result is Ok,
    ensures
        deposit(
            deposit(s, username, amount, deposit_id).state,
            username,
            amount,
            deposit_id,
        ).result == Err::<(), Error>(Error::DepositAlreadyProcessed),
        deposit(
            deposit(s, username, amount, deposit_id).state,
            username,
            amount,
            deposit_id,
        ).state == deposit(s, username, amount, deposit_id).state,
{
}

// Payment links.

/// Whether two payment links ask for the same.
pub open spec fn same_terms(first: PayLinkView, second: PayLinkView) -> bool {
    &&& first.creator_username == second.creator_username
    &&& first.amount == second.amount
    &&& first.note == second.note
    &&& first.expiration_ledger == second.expiration_ledger
    &&& first.created_at_ledger == second.created_at_ledger
}

/// No request removes a payment link or changes what it asks for, and one that is
/// paid or cancelled is not changed at all.
pub proof fn law_links_are_kept(s: State, sequence: u32, request: Request, token_id: Seq<u8>)
    requires
        s.paylinks.contains_key(token_id),
    ensures
        outcome(s, sequence, request).state.paylinks.contains_key(token_id),
        same_terms(
            outcome(s, sequence, request).state.paylinks[token_id],
            s.paylinks[token_id],
        ),
        s.paylinks[token_id].paid || s.paylinks[token_id].cancelled ==> outcome(
            s,
            sequence,
            request,
        ).state.paylinks[token_id] == s.paylinks[token_id],
{
    if let Request::BatchRegisterUsers { usernames, addresses } = request {
        lemma_enroll_all_frame(s, usernames, addresses);
    }
}

/// A payment link keeps its terms for good, and one that is paid or cancelled
/// stays just as it is, whatever requests are made.
pub proof fn law_settled_links_are_final(s: State, steps: Seq<Step>, token_id: Seq<u8>)
    requires
        s.paylinks.contains_key(token_id),
    ensures
        after_all(s, steps).paylinks.contains_key(token_id),
        same_terms(after_all(s, steps).paylinks[token_id], s.paylinks[token_id]),
        s.paylinks[token_id].paid || s.paylinks[token_id].cancelled ==> after_all(
            s,
            steps,
        ).paylinks[token_id] == s.paylinks[token_id],
    decreases steps.len(),
{
    if steps.len() > 0 {
        law_settled_links_are_final(s, steps.drop_last(), token_id);
        law_links_are_kept(
            after_all(s, steps.drop_last()),
            steps.last().sequence,
            steps.last().request,
            token_id,
        );
    }
}

/// A granted payment records who paid and when.
pub proof fn law_payment_is_recorded(
    s: State,
    sequence: u32,
    payer_username: Seq<u8>,
    token_id: Seq<u8>,
)
    requires
        pay_paylink(s, sequence, payer_username, token_id).result is Ok,
    ensures
        pay_paylink(s, sequence, payer_username, token_id).state.paylinks.contains_key(token_id),
        pay_paylink(s, sequence, payer_username, token_id).state.paylinks[token_id] == paid_link(
            s.paylinks[token_id],
            sequence,
            payer_username,
        ),
{
}

/// A link is paid once: after it is paid, no payment of it is granted, by
/// whomever and however many requests later, nor is it cancelled.
pub proof fn law_link_is_paid_once(
    s: State,
    sequence: u32,
    payer_username: Seq<u8>,
    token_id: Seq<u8>,
    between: Seq<Step>,
    later_sequence: u32,
    later_username: Seq<u8>,
)
    requires
        pay_paylink(s, sequence, payer_username, token_id).result is Ok,
    ensures
        ({
            let later = after_all(
                pay_paylink(s, sequence, payer_username, token_id).state,
                between,
            );
            &&& pay_paylink(later, later_sequence, later_username, token_id).result is Err
            &&& later.admin is Some && !later.is_paused() && later.registered(later_username)
                ==> pay_paylink(later, later_sequence, later_username, token_id).result == Err::<
                (),
                Error,
            >(Error::PayLinkAlreadyPaid)
            &&& cancel_paylink(later, later_username, token_id).result is Err
            &&& admin_cancel_paylink(later, token_id).result is Err
        }),
{
    law_settled_links_are_final(
        pay_paylink(s, sequence, payer_username, token_id).state,
        between,
        token_id,
    );
}

/// Whether a request cancels a payment link.
pub open spec fn cancels(request: Request, token_id: Seq<u8>) -> bool {
    match request {
        Request::CancelPaylink { token_id: id, .. } => id == token_id,
        Request::AdminCancelPaylink { token_id: id } => id == token_id,
        _ => false,
    }
}

/// A cancelled link is never paid, whoever cancelled it, by whomever and however
/// many requests later; nor is it cancelled again.
pub proof fn law_cancelled_link_is_not_paid(
    s: State,
    cancellation: Step,
    token_id: Seq<u8>,
    between: Seq<Step>,
    sequence: u32,
    username: Seq<u8>,
)
    requires
        cancels(cancellation.request, token_id),
        outcome(s, cancellation.sequence, cancellation.request).result is Ok,
    ensures
        ({
            let cancelled = outcome(s, cancellation.sequence, cancellation.request).state;
            let later = after_all(cancelled, between);
            &&& pay_paylink(later, sequence, username, token_id).result is Err
            &&& later.admin is Some && !later.is_paused() && later.registered(username)
                ==> pay_paylink(later, sequence, username, token_id).result == Err::<(), Error>(
                Error::PayLinkCancelled,
            )
            &&& cancel_paylink(later, username, token_id).result is Err
            &&& admin_cancel_paylink(later, token_id).result is Err
        }),
{
    let cancelled = outcome(s, cancellation.sequence, cancellation.request).state;
    law_settled_links_are_final(cancelled, between, token_id);
}

/// The creator's cancellation leaves the link as the admin's does, and is granted
/// to nobody else.
pub proof fn law_cancellations_agree(s: State, creator_username: Seq<u8>, token_id: Seq<u8>)
    ensures
        cancel_paylink(s, creator_username, token_id).result is Ok ==> {
            &&& creator_username == s.paylinks[token_id].creator_username
            &&& admin_cancel_paylink(s, token_id).result is Ok
            &&& cancel_paylink(s, creator_username, token_id).state == admin_cancel_paylink(
                s,
                token_id,
            ).state
        },
        admin_cancel_paylink(s, token_id).result is Ok ==> cancel_paylink(
            s,
            s.paylinks[token_id].creator_username,
            token_id,
        ).result is Ok,
{
}

/// A payment link id is used once: after a link is created, none is created under
/// the same id, by whomever and however many requests later.
pub proof fn law_token_id_is_used_once(
    s: State,
    token_id: Seq<u8>,
    between: Seq<Step>,
    sequence: u32,
    creator_username: Seq<u8>,
    amount: i128,
    note: Seq<u8>,
    expiration_ledger: u32,
)
    requires
        s.paylinks.contains_key(token_id),
    ensures
        create_paylink(
            after_all(s, between),
            sequence,
            creator_username,
            token_id,
            amount,
            note,
            expiration_ledger,
        ).result is Err,
{
    law_settled_links_are_final(s, between, token_id);
}

/// A link that is created can be found, as it was asked for, unpaid and not
/// cancelled.
pub proof fn law_created_link_is_found(
    s: State,
    sequence: u32,
    creator_username: Seq<u8>,
    token_id: Seq<u8>,
    amount: i128,
    note: Seq<u8>,
    expiration_ledger: u32,
)
    requires
        create_paylink(
            s,
            sequence,
            creator_username,
            token_id,
            amount,
            note,
            expiration_ledger,
        ).result is Ok,
    ensures
        ({
            let after = create_paylink(
                s,
                sequence,
                creator_username,
                token_id,
                amount,
                note,
                expiration_ledger,
            ).state;
            let link = after.paylinks[token_id];
            &&& !s.paylinks.contains_key(token_id)
            &&& after.paylinks.contains_key(token_id)
            &&& link.creator_username == creator_username
            &&& link.amount == amount
            &&& link.note == note
            &&& link.expiration_ledger == expiration_ledger
            &&& link.created_at_ledger == sequence
            &&& !link.paid && !link.cancelled
            &&& link.payer_username is None && link.paid_at_ledger is None
        }),
{
}

/// A link can be paid up to its last ledger, and not after it: later no payment is
/// granted, and until then none is refused as too late.
pub proof fn law_link_expires_after_its_last_ledger(
    s: State,
    sequence: u32,
    payer_username: Seq<u8>,
    token_id: Seq<u8>,
)
    requires
        s.paylinks.contains_key(token_id),
    ensures
        sequence > s.paylinks[token_id].expiration_ledger ==> pay_paylink(
            s,
            sequence,
            payer_username,
            token_id,
        ).result is Err,
        sequence <= s.paylinks[token_id].expiration_ledger ==> pay_paylink(
            s,
            sequence,
            payer_username,
            token_id,
        ).result != Err::<(), Error>(Error::PayLinkExpired),
{
}

/// Whether the ledgers of a list of requests never fall.
pub open spec fn in_ledger_order(steps: Seq<Step>) -> bool {
    forall|i: int, j: int|
        0 <= i <= j < steps.len() ==> (#[trigger] steps[i]).sequence <= (
        #[trigger] steps[j]).sequence
}

/// No link is younger than the last request, nor was it paid before it was created.
proof fn lemma_link_ledgers(steps: Seq<Step>, token_id: Seq<u8>)
    requires
        in_ledger_order(steps),
        after_all(blank(), steps).paylinks.contains_key(token_id),
    ensures
        steps.len() > 0,
        ({
            let link = after_all(blank(), steps).paylinks[token_id];
            &&& link.created_at_ledger <= steps.last().sequence
            &&& link.paid ==> link.created_at_ledger <= link.paid_at_ledger->Some_0
        }),
    decreases steps.len(),
{
    if steps.len() > 0 {
        let earlier = steps.drop_last();
        let before = after_all(blank(), earlier);
        assert(in_ledger_order(earlier)) by {
            assert forall|i: int, j: int| 0 <= i <= j < earlier.len() implies (
            #[trigger] earlier[i]).sequence <= (#[trigger] earlier[j]).sequence by {
                assert(earlier[i] == steps[i] && earlier[j] == steps[j]);
            }
        }
        if before.paylinks.contains_key(token_id) {
            lemma_link_ledgers(earlier, token_id);
            assert(steps[earlier.len() - 1].sequence <= steps[steps.len() - 1].sequence);
        }
        if let Request::BatchRegisterUsers { usernames, addresses } = steps.last().request {
            lemma_enroll_all_frame(before, usernames, addresses);
        }
    }
}

/// As ledgers never fall, a link that is paid was paid no earlier than it was
/// created, whatever requests are made of a contract from its start.
pub proof fn law_link_is_paid_after_its_creation(steps: Seq<Step>)
    requires
        in_ledger_order(steps),
    ensures
        forall|token_id: Seq<u8>| #[trigger]
            after_all(blank(), steps).paylinks.contains_key(token_id) ==> {
                let link = after_all(blank(), steps).paylinks[token_id];
                link.paid ==> link.created_at_ledger <= link.paid_at_ledger->Some_0
            },
{
    assert forall|token_id: Seq<u8>| #[trigger]
        after_all(blank(), steps).paylinks.contains_key(token_id) implies {
        let link = after_all(blank(), steps).paylinks[token_id];
        link.paid ==> link.created_at_ledger <= link.paid_at_ledger->Some_0
    } by {
        lemma_link_ledgers(steps, token_id);
    }
}

/// Every link that can be found is in order: it has an id of admissible length,
/// asks for a positive amount with a note that is not too long, expires after it
/// was created, is not both paid and cancelled, and knows who paid it, and when,
/// exactly if it is paid, which is between its creation and its last ledger.
pub proof fn law_found_link_is_in_order(steps: Seq<Step>, token_id: Seq<u8>)
    requires
        all_run(blank(), steps),
        in_ledger_order(steps),
        after_all(blank(), steps).paylinks.contains_key(token_id),
    ensures
        valid_token_id(token_id),
        ({
            let link = after_all(blank(), steps).paylinks[token_id];
            &&& link_sound(link)
            &&& link.paid ==> link.created_at_ledger <= link.paid_at_ledger->Some_0
                <= link.expiration_ledger
        }),
{
    law_contract_stays_sound(steps);
    law_link_is_paid_after_its_creation(steps);
}

// Administration.

/// The admin, once there is one, changes only by a candidate's acceptance.
pub proof fn law_admin_changes_by_acceptance(s: State, sequence: u32, request: Request)
    requires
        s.admin is Some,
    ensures
        outcome(s, sequence, request).state.admin is Some,
        outcome(s, sequence, request).state.admin != s.admin ==> request is AcceptAdmin && outcome(
            s,
            sequence,
            request,
        ).state.admin == s.pending_admin,
{
    if let Request::BatchRegisterUsers { usernames, addresses } = request {
        lemma_enroll_all_frame(s, usernames, addresses);
    }
}

proof fn lemma_admin_stays(s: State, steps: Seq<Step>)
    requires
        s.admin is Some,
    ensures
        after_all(s, steps).admin is Some,
    decreases steps.len(),
{
    if steps.len() > 0 {
        lemma_admin_stays(s, steps.drop_last());
        law_admin_changes_by_acceptance(
            after_all(s, steps.drop_last()),
            steps.last().sequence,
            steps.last().request,
        );
    }
}

/// The contract is set up once: after that, setting it up is refused, by whomever
/// and however many requests later.
pub proof fn law_contract_is_set_up_once(
    s: State,
    steps: Seq<Step>,
    admin: Seq<u8>,
    usdc_token: Seq<u8>,
    fee_rate_bps: u32,
    fee_treasury: Seq<u8>,
)
    requires
        s.admin is Some,
    ensures
        initialize(
            after_all(s, steps),
            admin,
            usdc_token,
            fee_rate_bps,
            fee_treasury,
        ).result == Err::<(), Error>(Error::AlreadyInitialized),
{
    lemma_admin_stays(s, steps);
}

/// A proposal leaves the admin in office; its acceptance puts the candidate there,
/// closes the proposal, and changes nothing else.
pub proof fn law_admin_changes_in_two_steps(s: State, new_admin: Seq<u8>)
    requires
        s.admin is Some,
    ensures
        ({
            let proposed = propose_admin(s, new_admin);
            let accepted = accept_admin(proposed.state);
            &&& proposed.result is Ok
            &&& proposed.state.admin == s.admin
            &&& accepted.result is Ok
            &&& accepted.state == (State { admin: Some(new_admin), pending_admin: None, ..s })
            &&& accept_admin(accepted.state).result == Err::<(), Error>(Error::NoPendingAdmin)
        }),
{
}

/// The fee rate never exceeds its cap, whatever requests are made of a contract
/// from its start.
pub proof fn law_fee_rate_never_exceeds_the_cap(steps: Seq<Step>)
    requires
        all_run(blank(), steps),
    ensures
        after_all(blank(), steps).fee_bps() <= FEE_RATE_MAX_BPS,
{
    law_contract_stays_sound(steps);
}

} // verus!
