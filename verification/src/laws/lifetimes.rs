//! How long the entries live.

use vstd::prelude::*;

use crate::laws::histories::deposits_under;
use crate::requests::{outcome, Request};
use crate::state::{admin_entry, renewal, user_renewal, State};
use crate::types::{ActionView, DataKeyView};
use crate::users::{batch_extend_user_ttl, enroll_all, enrollment, renew_all};

verus! {

/// Whether a list of actions renews an entry when about 30 days are left, for about 60.
pub open spec fn renews(actions: Seq<ActionView>, key: DataKeyView) -> bool {
    actions.contains(ActionView::ExtendTtl { key, threshold: 518_400, extend_to: 1_036_800 })
}

/// Whether a list of actions renews the three entries of a user.
pub open spec fn renews_user(
    actions: Seq<ActionView>,
    username: Seq<u8>,
    address: Seq<u8>,
) -> bool {
    &&& renews(actions, DataKeyView::UsernameToAddr(username))
    &&& renews(actions, DataKeyView::AddrToUsername(address))
    &&& renews(actions, DataKeyView::Balance(username))
}

proof fn lemma_renewed_at(
    actions: Seq<ActionView>,
    i: int,
    username: Seq<u8>,
    address: Seq<u8>,
)
    requires
        0 <= i,
        i + 2 < actions.len(),
        actions[i] == renewal(DataKeyView::UsernameToAddr(username)),
        actions[i + 1] == renewal(DataKeyView::AddrToUsername(address)),
        actions[i + 2] == renewal(DataKeyView::Balance(username)),
    ensures
        renews_user(actions, username, address),
{
}

/// What a part of a list of actions renews, the list renews.
proof fn lemma_renewed_before(
    first: Seq<ActionView>,
    second: Seq<ActionView>,
    username: Seq<u8>,
    address: Seq<u8>,
)
    requires
        renews_user(first, username, address),
    ensures
        renews_user(first + second, username, address),
{
    let name = renewal(DataKeyView::UsernameToAddr(username));
    let back = renewal(DataKeyView::AddrToUsername(address));
    let balance = renewal(DataKeyView::Balance(username));
    assert((first + second)[first.index_of(name)] == name);
    assert((first + second)[first.index_of(back)] == back);
    assert((first + second)[first.index_of(balance)] == balance);
}

/// What a later part of a list of actions renews, the list renews.
proof fn lemma_renewed_within(
    first: Seq<ActionView>,
    second: Seq<ActionView>,
    username: Seq<u8>,
    address: Seq<u8>,
)
    requires
        renews_user(second, username, address),
    ensures
        renews_user(first + second, username, address),
{
    let name = renewal(DataKeyView::UsernameToAddr(username));
    let back = renewal(DataKeyView::AddrToUsername(address));
    let balance = renewal(DataKeyView::Balance(username));
    assert((first + second)[first.len() + second.index_of(name)] == name);
    assert((first + second)[first.len() + second.index_of(back)] == back);
    assert((first + second)[first.len() + second.index_of(balance)] == balance);
}

proof fn lemma_enrolled_users_are_renewed(
    s: State,
    usernames: Seq<Seq<u8>>,
    addresses: Seq<Seq<u8>>,
)
    requires
        usernames.len() == addresses.len(),
        enroll_all(s, usernames, addresses).result is Ok,
    ensures
        forall|i: int|
            0 <= i < usernames.len() ==> renews_user(
                enroll_all(s, usernames, addresses).actions,
                #[trigger] usernames[i],
                addresses[i],
            ),
    decreases usernames.len(),
{
    if usernames.len() > 0 {
        let n = usernames.len() - 1;
        let before = enroll_all(s, usernames.drop_last(), addresses.drop_last()).actions;
        let last = enrollment(usernames[n], addresses[n]);
        lemma_enrolled_users_are_renewed(s, usernames.drop_last(), addresses.drop_last());
        assert forall|i: int| 0 <= i < usernames.len() implies renews_user(
            before + last,
            #[trigger] usernames[i],
            addresses[i],
        ) by {
            if i < n {
                assert(usernames.drop_last()[i] == usernames[i]);
                assert(addresses.drop_last()[i] == addresses[i]);
                lemma_renewed_before(before, last, usernames[i], addresses[i]);
            } else {
                lemma_renewed_at(last, 3, usernames[i], addresses[i]);
                lemma_renewed_within(before, last, usernames[i], addresses[i]);
            }
        }
    }
}

proof fn lemma_listed_users_are_renewed(s: State, usernames: Seq<Seq<u8>>)
    ensures
        forall|i: int|
            0 <= i < usernames.len() && s.registered(#[trigger] usernames[i]) ==> renews_user(
                renew_all(s, usernames),
                usernames[i],
                s.address_of[usernames[i]],
            ),
    decreases usernames.len(),
{
    if usernames.len() > 0 {
        let n = usernames.len() - 1;
        let before = renew_all(s, usernames.drop_last());
        let last = user_renewal(s, usernames[n]);
        lemma_listed_users_are_renewed(s, usernames.drop_last());
        assert forall|i: int|
            0 <= i < usernames.len() && s.registered(#[trigger] usernames[i]) implies renews_user(
            renew_all(s, usernames),
            usernames[i],
            s.address_of[usernames[i]],
        ) by {
            if i < n {
                assert(usernames.drop_last()[i] == usernames[i]);
                lemma_renewed_before(before, last, usernames[i], s.address_of[usernames[i]]);
            } else {
                lemma_renewed_at(last, 0, usernames[i], s.address_of[usernames[i]]);
                lemma_renewed_within(before, last, usernames[i], s.address_of[usernames[i]]);
            }
        }
    }
}

/// A granted request that registers a user, binds them anew, renews them, or moves
/// their money renews all three entries of each user it is about, so that none of
/// them expires while the others live.
pub proof fn law_touched_users_are_renewed(s: State, sequence: u32, request: Request)
    requires
        outcome(s, sequence, request).result is Ok,
    ensures
        ({
            let out = outcome(s, sequence, request);
            match request {
                Request::RegisterUser { username, address } => renews_user(
                    out.actions,
                    username,
                    address,
                ),
                Request::BatchRegisterUsers { usernames, addresses } => forall|i: int|
                    0 <= i < usernames.len() ==> renews_user(
                        out.actions,
                        #[trigger] usernames[i],
                        addresses[i],
                    ),
                Request::BatchExtendUserTtl { usernames } => forall|i: int|
                    0 <= i < usernames.len() && s.registered(#[trigger] usernames[i])
                        ==> renews_user(out.actions, usernames[i], s.address_of[usernames[i]]),
                Request::UpdateAddress { username, new_address } => s.address_of[username]
                    != new_address ==> renews_user(out.actions, username, new_address),
                Request::ExtendUserTtl { username } => renews_user(
                    out.actions,
                    username,
                    s.address_of[username],
                ),
                Request::Deposit { username, .. } => renews_user(
                    out.actions,
                    username,
                    s.address_of[username],
                ),
                Request::DepositByAddress { address, .. } => renews_user(
                    out.actions,
                    s.username_of[address],
                    s.address_of[s.username_of[address]],
                ),
                Request::Withdraw { username, .. } => renews_user(
                    out.actions,
                    username,
                    s.address_of[username],
                ),
                Request::Transfer { from_username, to_username, .. } => renews_user(
                    out.actions,
                    from_username,
                    s.address_of[from_username],
                ) && renews_user(out.actions, to_username, s.address_of[to_username]),
                Request::PayPaylink { payer_username, token_id } => {
                    let creator = s.paylinks[token_id].creator_username;
                    renews_user(out.actions, payer_username, s.address_of[payer_username])
                        && renews_user(out.actions, creator, s.address_of[creator])
                },
                _ => true,
            }
        }),
{
    let a = outcome(s, sequence, request).actions;
    match request {
        Request::RegisterUser { username, address } => {
            lemma_renewed_at(a, 5, username, address);
        },
        Request::BatchRegisterUsers { usernames, addresses } => {
            lemma_enrolled_users_are_renewed(s, usernames, addresses);
            let batch = enroll_all(s, usernames, addresses).actions;
            assert forall|i: int| 0 <= i < usernames.len() implies renews_user(
                a,
                #[trigger] usernames[i],
                addresses[i],
            ) by {
                lemma_renewed_within(admin_entry(s), batch, usernames[i], addresses[i]);
            }
        },
        Request::BatchExtendUserTtl { usernames } => {
            lemma_listed_users_are_renewed(s, usernames);
            let batch = renew_all(s, usernames);
            assert forall|i: int|
                0 <= i < usernames.len() && s.registered(#[trigger] usernames[i]) implies
                renews_user(a, usernames[i], s.address_of[usernames[i]]) by {
                lemma_renewed_within(
                    admin_entry(s),
                    batch,
                    usernames[i],
                    s.address_of[usernames[i]],
                );
            }
        },
        Request::UpdateAddress { username, new_address } => {
            if s.address_of[username] != new_address {
                lemma_renewed_at(a, 5, username, new_address);
            }
        },
        Request::ExtendUserTtl { username } => {
            lemma_renewed_at(a, 2, username, s.address_of[username]);
        },
        Request::Deposit { username, .. } => {
            lemma_renewed_at(a, 7, username, s.address_of[username]);
        },
        Request::DepositByAddress { address, .. } => {
            let username = s.username_of[address];
            lemma_renewed_at(a, 7, username, s.address_of[username]);
        },
        Request::Withdraw { username, .. } => {
            lemma_renewed_at(a, 5, username, s.address_of[username]);
        },
        Request::Transfer { from_username, to_username, .. } => {
            lemma_renewed_at(a, 5, from_username, s.address_of[from_username]);
            lemma_renewed_at(a, 11, to_username, s.address_of[to_username]);
        },
        Request::PayPaylink { payer_username, token_id } => {
            let creator = s.paylinks[token_id].creator_username;
            lemma_renewed_at(a, 5, payer_username, s.address_of[payer_username]);
            lemma_renewed_at(a, 11, creator, s.address_of[creator]);
        },
        _ => {},
    }
}

/// Renewing users skips the names that are not registered: they may stand in the
/// list or not.
pub proof fn law_unknown_users_are_skipped(
    s: State,
    first: Seq<Seq<u8>>,
    unknown: Seq<u8>,
    second: Seq<Seq<u8>>,
)
    requires
        !s.registered(unknown),
    ensures
        renew_all(s, first.push(unknown) + second) == renew_all(s, first + second),
        batch_extend_user_ttl(s, first.push(unknown) + second).result is Ok
            ==> batch_extend_user_ttl(s, first.push(unknown) + second) == batch_extend_user_ttl(
            s,
            first + second,
        ),
    decreases second.len(),
{
    if second.len() == 0 {
        assert((first.push(unknown) + second).drop_last() == first);
        assert(first + second == first);
    } else {
        law_unknown_users_are_skipped(s, first, unknown, second.drop_last());
        assert((first.push(unknown) + second).drop_last() == first.push(unknown)
            + second.drop_last());
        assert((first + second).drop_last() == first + second.drop_last());
    }
}

/// Renewing entries changes none of them.
pub proof fn law_renewals_change_nothing(s: State, sequence: u32, request: Request)
    requires
        request is ExtendUserTtl || request is BatchExtendUserTtl || request is ExtendPaylinkTtl,
    ensures
        outcome(s, sequence, request).state == s,
{
}

/// Whether an action sets or renews how long the record of a deposit id lives.
pub open spec fn prolongs_deposit(action: ActionView) -> bool {
    match action {
        ActionView::FixTtl { key, .. } => key is ProcessedDeposit,
        ActionView::ExtendTtl { key, .. } => key is ProcessedDeposit,
        _ => false,
    }
}

/// Whether no action of a list is about how long the record of a deposit id lives.
spec fn prolongs_none(actions: Seq<ActionView>) -> bool {
    forall|i: int| 0 <= i < actions.len() ==> !prolongs_deposit(#[trigger] actions[i])
}

proof fn lemma_enroll_all_prolongs_none(
    s: State,
    usernames: Seq<Seq<u8>>,
    addresses: Seq<Seq<u8>>,
)
    ensures
        prolongs_none(enroll_all(s, usernames, addresses).actions),
    decreases usernames.len(),
{
    if usernames.len() > 0 {
        lemma_enroll_all_prolongs_none(s, usernames.drop_last(), addresses.drop_last());
    }
}

proof fn lemma_renew_all_prolongs_none(s: State, usernames: Seq<Seq<u8>>)
    ensures
        prolongs_none(renew_all(s, usernames)),
    decreases usernames.len(),
{
    if usernames.len() > 0 {
        lemma_renew_all_prolongs_none(s, usernames.drop_last());
    }
}

/// Requests that are no deposits prolong no record of a deposit id.
proof fn lemma_other_requests_prolong_none(s: State, sequence: u32, request: Request)
    requires
        !(request is Deposit),
        !(request is DepositByAddress),
    ensures
        prolongs_none(outcome(s, sequence, request).actions),
{
    let actions = outcome(s, sequence, request).actions;
    match request {
        Request::BatchRegisterUsers { usernames, addresses } => {
            lemma_enroll_all_prolongs_none(s, usernames, addresses);
        },
        Request::BatchExtendUserTtl { usernames } => {
            lemma_renew_all_prolongs_none(s, usernames);
        },
        Request::Initialize { .. } => {
            assert(prolongs_none(actions));
        },
        Request::RegisterUser { .. } => {
            assert(prolongs_none(actions));
        },
        Request::DeregisterUser { .. } => {
            assert(prolongs_none(actions));
        },
        Request::UpdateAddress { .. } => {
            assert(prolongs_none(actions));
        },
        Request::ExtendUserTtl { .. } => {
            assert(prolongs_none(actions));
        },
        Request::Withdraw { .. } => {
            assert(prolongs_none(actions));
        },
        Request::Transfer { .. } => {
            assert(prolongs_none(actions));
        },
        Request::CreatePaylink { .. } => {
            assert(prolongs_none(actions));
        },
        Request::PayPaylink { .. } => {
            assert(prolongs_none(actions));
        },
        Request::CancelPaylink { .. } => {
            assert(prolongs_none(actions));
        },
        Request::AdminCancelPaylink { .. } => {
            assert(prolongs_none(actions));
        },
        Request::SweepExcess { .. } => {
            assert(prolongs_none(actions));
        },
        _ => {
            assert(prolongs_none(actions));
        },
    }
}

/// The record of a deposit id has a fixed life: a granted deposit sets it once,
/// when the record is written, and no request, not even another deposit, sets or
/// renews it otherwise.
pub proof fn law_deposit_record_has_a_fixed_life(
    s: State,
    sequence: u32,
    request: Request,
    deposit_id: Seq<u8>,
)
    ensures
        deposits_under(request, deposit_id) && outcome(s, sequence, request).result is Ok ==> {
            &&& !s.deposits.contains(deposit_id)
            &&& outcome(s, sequence, request).actions[3] == (ActionView::FixTtl {
                key: DataKeyView::ProcessedDeposit(deposit_id),
                ttl: 518_400,
            })
        },
        forall|i: int|
            0 <= i < outcome(s, sequence, request).actions.len() && prolongs_deposit(
                #[trigger] outcome(s, sequence, request).actions[i],
            ) ==> i == 3 && (request is Deposit || request is DepositByAddress),
{
    match request {
        Request::Deposit { .. } => {},
        Request::DepositByAddress { .. } => {},
        _ => {
            lemma_other_requests_prolong_none(s, sequence, request);
        },
    }
}

} // verus!
