//! What is stated of links, entries, events and actions is true of their fields.

use vstd::prelude::*;

use crate::types::{
    Action, ActionView, Entry, EntryView, Env, Event, EventView, PayLinkData,
};

verus! {

/// A payment link says what its fields hold.
pub proof fn law_link_says_what_it_holds(link: PayLinkData)
    ensures
        link@.creator_username == link.creator_username@,
        link@.amount == link.amount,
        link@.note == link.note@,
        link@.paid == link.paid,
        link@.cancelled == link.cancelled,
        link@.expiration_ledger == link.expiration_ledger,
        link@.created_at_ledger == link.created_at_ledger,
        link@.paid_at_ledger == link.paid_at_ledger,
        link@.payer_username is Some <==> link.payer_username is Some,
        link.payer_username matches Some(payer) ==> link@.payer_username == Some(payer@),
{
}

/// An entry about money or a setting says the number or the address that it holds.
pub proof fn law_entry_says_what_it_holds(entry: Entry)
    ensures
        entry@ matches EntryView::Admin(said) ==> entry matches Entry::Admin(held) && said
            == held@,
        entry@ matches EntryView::UsdcToken(said) ==> entry matches Entry::UsdcToken(held) && said
            == held@,
        entry@ matches EntryView::FeeRateBps(said) ==> entry matches Entry::FeeRateBps(held)
            && said == held,
        entry@ matches EntryView::FeeTreasury(said) ==> entry matches Entry::FeeTreasury(held)
            && said == held@,
        entry@ matches EntryView::Paused(said) ==> entry matches Entry::Paused(held) && said
            == held,
        entry@ matches EntryView::TotalBalance(said) ==> entry matches Entry::TotalBalance(held)
            && said == held,
        entry@ matches EntryView::MinWithdrawal(said) ==> entry matches Entry::MinWithdrawal(held)
            && said == held,
        entry@ matches EntryView::PendingAdmin(said) ==> entry matches Entry::PendingAdmin(held)
            && said == held@,
        entry@ matches EntryView::Balance(name, said) ==> entry matches Entry::Balance(u, held)
            && name == u@ && said == held,
        entry@ matches EntryView::UsernameToAddr(name, said)
            ==> entry matches Entry::UsernameToAddr(u, held) && name == u@ && said == held@,
        entry@ matches EntryView::AddrToUsername(place, said)
            ==> entry matches Entry::AddrToUsername(a, held) && place == a@ && said == held@,
        entry@ matches EntryView::PayLink(id, said) ==> entry matches Entry::PayLink(t, held)
            && id == t@ && said == held@,
        entry@ matches EntryView::ProcessedDeposit(said)
            ==> entry matches Entry::ProcessedDeposit(held) && said == held@,
{
}

/// An event about money says the users and the numbers that it holds.
pub proof fn law_event_says_what_it_holds(event: Event)
    ensures
        event@ matches EventView::Deposit { username, amount, deposit_id }
            ==> event matches Event::Deposit { username: u, amount: n, deposit_id: d } && username
            == u@ && amount == n && deposit_id == d@,
        event@ matches EventView::DepositByAddress { username, amount, address, deposit_id }
            ==> event matches Event::DepositByAddress {
            username: u,
            amount: n,
            address: a,
            deposit_id: d,
        } && username == u@ && amount == n && address == a@ && deposit_id == d@,
        event@ matches EventView::Withdraw { username, amount, to_address }
            ==> event matches Event::Withdraw { username: u, amount: n, to_address: a } && username
            == u@ && amount == n && to_address == a@,
        event@ matches EventView::Transfer { from_username, to_username, amount, fee }
            ==> event matches Event::Transfer {
            from_username: f,
            to_username: t,
            amount: n,
            fee: c,
        } && from_username == f@ && to_username == t@ && amount == n && fee == c,
        event@ matches EventView::PlCreate { creator_username, token_id, amount }
            ==> event matches Event::PlCreate { creator_username: u, token_id: t, amount: n }
            && creator_username == u@ && token_id == t@ && amount == n,
        event@ matches EventView::PlPaid {
            payer_username,
            creator_username,
            token_id,
            amount,
            fee,
        } ==> event matches Event::PlPaid {
            payer_username: p,
            creator_username: u,
            token_id: t,
            amount: n,
            fee: c,
        } && payer_username == p@ && creator_username == u@ && token_id == t@ && amount == n && fee
            == c,
        event@ matches EventView::FeeSet { fee_bps } ==> event matches Event::FeeSet { fee_bps: n }
            && fee_bps == n,
        event@ matches EventView::MinWdraw { amount } ==> event matches Event::MinWdraw {
            amount: n,
        } && amount == n,
        event@ matches EventView::Sweep { excess, recipient } ==> event matches Event::Sweep {
            excess: n,
            recipient: a,
        } && excess == n && recipient == a@,
{
}

/// An action says what it holds.
pub proof fn law_action_says_what_it_holds(action: Action)
    ensures
        action@ matches ActionView::RequireAuth(who) ==> action matches Action::RequireAuth(a)
            && who == a@,
        action@ matches ActionView::Put(said) ==> action matches Action::Put(entry) && said
            == entry@,
        action@ matches ActionView::Remove(said) ==> action matches Action::Remove(key) && said
            == key@,
        action@ matches ActionView::ExtendInstanceTtl { threshold, extend_to }
            ==> action matches Action::ExtendInstanceTtl { threshold: n, extend_to: m }
            && threshold == n && extend_to == m,
        action@ matches ActionView::ExtendTtl { key, threshold, extend_to }
            ==> action matches Action::ExtendTtl { key: k, threshold: n, extend_to: m } && key
            == k@ && threshold == n && extend_to == m,
        action@ matches ActionView::FixTtl { key, ttl } ==> action matches Action::FixTtl {
            key: k,
            ttl: n,
        } && key == k@ && ttl == n,
        action@ matches ActionView::UsdcTransfer { token, to, amount }
            ==> action matches Action::UsdcTransfer { token: t, to: a, amount: n } && token == t@
            && to == a@ && amount == n,
        action@ matches ActionView::Publish(said) ==> action matches Action::Publish(event)
            && said == event@,
        action@ matches ActionView::UpdateWasm(said) ==> action matches Action::UpdateWasm(hash)
            && said == hash,
{
}

/// An environment says, in order, the actions that it holds, and no others.
pub proof fn law_environment_says_what_it_holds(env: Env)
    ensures
        env@.len() == env.actions@.len(),
        forall|i: int| 0 <= i < env@.len() ==> #[trigger] env@[i] == env.actions@[i]@,
{
}

} // verus!
