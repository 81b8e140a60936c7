//! Refusals, signatures, errors and pauses.

use vstd::prelude::*;

use crate::admin::{pause, unpause, upgrade};
use crate::requests::{outcome, Request};
use crate::state::{instance_renewal, State};
use crate::types::{error_code, ActionView, Error};

verus! {

/// A refused request changes nothing: it writes, deletes, publishes and sends
/// nothing. All it may ask for is a signature.
pub proof fn law_refusal_changes_nothing(s: State, sequence: u32, request: Request)
    requires
        outcome(s, sequence, request).result is Err,
    ensures
        outcome(s, sequence, request).state == s,
        forall|i: int|
            0 <= i < outcome(s, sequence, request).actions.len() ==> (#[trigger] outcome(
                s,
                sequence,
                request,
            ).actions[i]) is RequireAuth,
{
}

/// Whose signature a request needs.
pub open spec fn signer(s: State, request: Request) -> Option<Seq<u8>> {
    match request {
        Request::Initialize { admin, .. } => Some(admin),
        Request::AcceptAdmin => s.pending_admin,
        _ => s.admin,
    }
}

/// No request is granted without a signature: that of the admin, except that the
/// first admin signs for setting the contract up, and a candidate for becoming
/// the admin.
pub proof fn law_every_granted_request_is_signed(s: State, sequence: u32, request: Request)
    requires
        outcome(s, sequence, request).result is Ok,
    ensures
        signer(s, request) is Some,
        outcome(s, sequence, request).actions.contains(
            ActionView::RequireAuth(signer(s, request)->Some_0),
        ),
{
    let actions = outcome(s, sequence, request).actions;
    if request is AcceptAdmin {
        assert(actions[1] == ActionView::RequireAuth(signer(s, request)->Some_0));
    } else {
        assert(actions[0] == ActionView::RequireAuth(signer(s, request)->Some_0));
    }
}

/// The signature of the admin is demanded before anything else, even of a request
/// that is then refused.
pub proof fn law_admin_signs_first(s: State, sequence: u32, request: Request)
    requires
        s.admin is Some,
        !(request is Initialize),
        !(request is AcceptAdmin),
    ensures
        outcome(s, sequence, request).actions.len() > 0,
        outcome(s, sequence, request).actions[0] == ActionView::RequireAuth(s.admin->Some_0),
{
}

/// A refused request asks for one signature and nothing else: that of the admin to be
/// where the contract is to be set up, otherwise that of the admin; and for nothing where
/// there is no admin, or no candidate for becoming it.
pub proof fn law_refusal_asks_for_one_signature(s: State, sequence: u32, request: Request)
    requires
        outcome(s, sequence, request).result is Err,
    ensures
        ({
            let actions = outcome(s, sequence, request).actions;
            match request {
                Request::Initialize { admin, .. } => actions.len() == 1 && actions[0]
                    == ActionView::RequireAuth(admin),
                Request::AcceptAdmin => actions.len() == 0,
                _ => match s.admin {
                    Some(admin) => actions.len() == 1 && actions[0] == ActionView::RequireAuth(
                        admin,
                    ),
                    None => actions.len() == 0,
                },
            }
        }),
{
}

/// Every granted request keeps the instance entries alive.
pub proof fn law_every_granted_request_renews_the_instance(
    s: State,
    sequence: u32,
    request: Request,
)
    requires
        outcome(s, sequence, request).result is Ok,
    ensures
        outcome(s, sequence, request).actions.contains(instance_renewal()[0]),
{
    let actions = outcome(s, sequence, request).actions;
    if request is Initialize {
        assert(actions[8] == instance_renewal()[0]);
    } else if request is AcceptAdmin {
        assert(actions[0] == instance_renewal()[0]);
    } else {
        assert(actions[1] == instance_renewal()[0]);
    }
}

/// Different errors have different numbers.
pub proof fn law_error_codes_differ(first: Error, second: Error)
    requires
        first != second,
    ensures
        error_code(first) != error_code(second),
{
}

/// While the contract is paused, nothing that moves money, and no new payment
/// link, is granted.
pub proof fn law_pause_stops_money(s: State, sequence: u32, request: Request)
    requires
        s.admin is Some,
        s.is_paused(),
        request is Deposit || request is DepositByAddress || request is Withdraw || request
            is Transfer || request is CreatePaylink || request is PayPaylink,
    ensures
        outcome(s, sequence, request).result == Err::<(), Error>(Error::ContractPaused),
{
}

/// A pause is felt by nothing else: every other request is answered as it would
/// be without the pause.
pub proof fn law_pause_stops_nothing_else(
    s: State,
    sequence: u32,
    request: Request,
    paused: Option<bool>,
)
    requires
        !(request is Deposit || request is DepositByAddress || request is Withdraw || request
            is Transfer || request is CreatePaylink || request is PayPaylink),
    ensures
        outcome(State { paused, ..s }, sequence, request).result == outcome(
            s,
            sequence,
            request,
        ).result,
{
    if let Request::BatchRegisterUsers { usernames, addresses } = request {
        lemma_enroll_all_ignores_pause(s, usernames, addresses, paused);
    }
}

proof fn lemma_enroll_all_ignores_pause(
    s: State,
    usernames: Seq<Seq<u8>>,
    addresses: Seq<Seq<u8>>,
    paused: Option<bool>,
)
    ensures
        crate::users::enroll_all(State { paused, ..s }, usernames, addresses).result
            == crate::users::enroll_all(s, usernames, addresses).result,
        crate::users::enroll_all(s, usernames, addresses).result is Ok
            ==> crate::users::enroll_all(State { paused, ..s }, usernames, addresses).state
            == (State { paused, ..crate::users::enroll_all(s, usernames, addresses).state }),
    decreases usernames.len(),
{
    if usernames.len() > 0 {
        lemma_enroll_all_ignores_pause(s, usernames.drop_last(), addresses.drop_last(), paused);
    }
}

/// A pause and its end change nothing but that the contract is not paused.
pub proof fn law_unpause_undoes_pause(s: State)
    requires
        s.admin is Some,
    ensures
        pause(s).result is Ok,
        pause(s).state.is_paused(),
        unpause(pause(s).state).result is Ok,
        unpause(pause(s).state).state == (State { paused: Some(false), ..s }),
        s.paused == Some(false) ==> unpause(pause(s).state).state == s,
{
}

/// An upgrade replaces the code and keeps the storage.
pub proof fn law_upgrade_keeps_the_storage(s: State, new_wasm_hash: [u8; 32])
    requires
        s.admin is Some,
    ensures
        upgrade(s, new_wasm_hash).result is Ok,
        upgrade(s, new_wasm_hash).state == s,
        upgrade(s, new_wasm_hash).actions.contains(ActionView::UpdateWasm(new_wasm_hash)),
        forall|i: int, j: int|
            0 <= i < j < upgrade(s, new_wasm_hash).actions.len() ==> !((#[trigger] upgrade(
                s,
                new_wasm_hash,
            ).actions[i]) is UpdateWasm && (#[trigger] upgrade(
                s,
                new_wasm_hash,
            ).actions[j]) is UpdateWasm),
{
    assert(upgrade(s, new_wasm_hash).actions[2] == ActionView::UpdateWasm(new_wasm_hash));
}

} // verus!
