//! Usernames and addresses.

use vstd::prelude::*;

use crate::soundness::sound;
use crate::state::State;
use crate::types::BATCH_MAX_SIZE;
use crate::users::{
    batch_register_users, deregister_user, enroll_all, lemma_enroll_all_frame, register_user,
    update_address,
};

verus! {

/// A username resolves to an address exactly if the address belongs to the
/// username.
pub proof fn law_lookups_are_inverse(s: State, username: Seq<u8>, address: Seq<u8>)
    requires
        sound(s),
    ensures
        (s.address_of.contains_key(username) && s.address_of[username] == address) <==> (
        s.username_of.contains_key(address) && s.username_of[address] == username),
{
}

/// A user who is registered can be looked up both ways, and has a zero balance.
pub proof fn law_registration_is_found(s: State, username: Seq<u8>, address: Seq<u8>)
    requires
        register_user(s, username, address).result is Ok,
    ensures
        ({
            let after = register_user(s, username, address).state;
            &&& after.address_of.contains_key(username)
            &&& after.address_of[username] == address
            &&& after.username_of.contains_key(address)
            &&& after.username_of[address] == username
            &&& after.balances.contains_key(username)
            &&& after.balances[username] == 0
        }),
{
}

/// Removing a user who was just registered restores the storage.
pub proof fn law_deregistration_undoes_registration(
    s: State,
    username: Seq<u8>,
    address: Seq<u8>,
)
    requires
        sound(s),
        register_user(s, username, address).result is Ok,
    ensures
        deregister_user(register_user(s, username, address).state, username).result is Ok,
        deregister_user(register_user(s, username, address).state, username).state == s,
{
    let after = deregister_user(register_user(s, username, address).state, username).state;
    assert(!s.balances.contains_key(username));
    assert(after.balances =~= s.balances);
    assert(after.address_of =~= s.address_of);
    assert(after.username_of =~= s.username_of);
}

/// After a user is removed, the username can be registered again, with any free
/// address and with the old one.
pub proof fn law_deregistration_frees_the_username(
    s: State,
    username: Seq<u8>,
    address: Seq<u8>,
)
    requires
        sound(s),
        deregister_user(s, username).result is Ok,
        !s.username_of.contains_key(address) || address == s.address_of[username],
    ensures
        !deregister_user(s, username).state.registered(username),
        register_user(deregister_user(s, username).state, username, address).result is Ok,
{
}

/// A user with money cannot be removed.
pub proof fn law_balance_prevents_deregistration(s: State, username: Seq<u8>)
    requires
        s.balances.contains_key(username),
        s.balances[username] != 0,
    ensures
        deregister_user(s, username).result is Err,
{
}

/// After a change of address, the username resolves to the new address and back,
/// the old address is free, the balance is the same, and changing back restores
/// the storage.
pub proof fn law_address_change_can_be_undone(
    s: State,
    username: Seq<u8>,
    new_address: Seq<u8>,
)
    requires
        sound(s),
        update_address(s, username, new_address).result is Ok,
        s.address_of[username] != new_address,
    ensures
        ({
            let old_address = s.address_of[username];
            let after = update_address(s, username, new_address).state;
            &&& after.address_of[username] == new_address
            &&& after.username_of.contains_key(new_address)
            &&& after.username_of[new_address] == username
            &&& !after.username_of.contains_key(old_address)
            &&& after.balances == s.balances
            &&& update_address(after, username, old_address).result is Ok
            &&& update_address(after, username, old_address).state == s
        }),
{
    let old_address = s.address_of[username];
    let after = update_address(s, username, new_address).state;
    let back = update_address(after, username, old_address).state;
    assert(back.address_of =~= s.address_of);
    assert(back.username_of =~= s.username_of);
}

/// A granted batch registers every username of it with the address at the same
/// place, a refused one registers nobody.
pub proof fn law_batch_is_all_or_nothing(
    s: State,
    usernames: Seq<Seq<u8>>,
    addresses: Seq<Seq<u8>>,
)
    ensures
        ({
            let out = batch_register_users(s, usernames, addresses);
            &&& out.result is Err ==> out.state == s
            &&& out.result is Ok ==> forall|i: int|
                0 <= i < usernames.len() ==> {
                    &&& out.state.address_of.contains_key(#[trigger] usernames[i])
                    &&& out.state.address_of[usernames[i]] == addresses[i]
                }
        }),
{
    if batch_register_users(s, usernames, addresses).result is Ok {
        lemma_enroll_all_registers(s, usernames, addresses);
    }
}

proof fn lemma_enroll_all_registers(s: State, usernames: Seq<Seq<u8>>, addresses: Seq<Seq<u8>>)
    requires
        usernames.len() == addresses.len(),
        enroll_all(s, usernames, addresses).result is Ok,
    ensures
        forall|i: int|
            0 <= i < usernames.len() ==> {
                &&& enroll_all(s, usernames, addresses).state.address_of.contains_key(
                    #[trigger] usernames[i],
                )
                &&& enroll_all(s, usernames, addresses).state.address_of[usernames[i]]
                    == addresses[i]
            },
    decreases usernames.len(),
{
    if usernames.len() > 0 {
        lemma_enroll_all_registers(s, usernames.drop_last(), addresses.drop_last());
        let before = enroll_all(s, usernames.drop_last(), addresses.drop_last()).state;
        let after = enroll_all(s, usernames, addresses).state;
        assert forall|i: int| 0 <= i < usernames.len() implies after.address_of.contains_key(
            #[trigger] usernames[i],
        ) && after.address_of[usernames[i]] == addresses[i] by {
            if i < usernames.len() - 1 {
                assert(usernames.drop_last()[i] == usernames[i]);
                assert(addresses.drop_last()[i] == addresses[i]);
            }
        }
    }
}

/// A batch does what registering its entries one by one does: with one more entry
/// it is granted exactly if that entry can be registered after the others, with
/// the same storage.
pub proof fn law_batch_registers_one_by_one(
    s: State,
    usernames: Seq<Seq<u8>>,
    addresses: Seq<Seq<u8>>,
    username: Seq<u8>,
    address: Seq<u8>,
)
    requires
        batch_register_users(s, usernames, addresses).result is Ok,
        usernames.len() < BATCH_MAX_SIZE,
    ensures
        ({
            let before = batch_register_users(s, usernames, addresses).state;
            let batch = batch_register_users(
                s,
                usernames.push(username),
                addresses.push(address),
            );
            let single = register_user(before, username, address);
            &&& batch.result == single.result
            &&& batch.result is Ok ==> batch.state == single.state
        }),
{
    assert(usernames.push(username).drop_last() == usernames);
    assert(addresses.push(address).drop_last() == addresses);
    lemma_enroll_all_frame(s, usernames, addresses);
}

} // verus!
