//! Registration: binding usernames to addresses.

use vstd::prelude::*;

use crate::ledger::{valid_username, CheesePay};
use crate::state::{admin_entry, granted, refused, renewal, user_renewal, Outcome, State};
use crate::text::{Address, Text};
use crate::types::{
    Action, ActionView, DataKey, DataKeyView, Entry, EntryView, Env, Error, Event, EventView,
    BATCH_MAX_SIZE,
};

verus! {

/// The views of a list of byte strings.
pub open spec fn texts(list: Seq<Text>) -> Seq<Seq<u8>> {
    list.map_values(|text: Text| text@)
}

/// The views of a list of addresses.
pub open spec fn addresses(list: Seq<Address>) -> Seq<Seq<u8>> {
    list.map_values(|address: Address| address@)
}

/// Why a username cannot be bound to an address, if it cannot.
pub open spec fn enrollment_refusal(
    s: State,
    username: Seq<u8>,
    address: Seq<u8>,
) -> Option<Error> {
    if !valid_username(username) {
        Some(Error::InvalidUsername)
    } else if s.address_of.contains_key(username) {
        Some(Error::UsernameTaken)
    } else if s.username_of.contains_key(address) {
        Some(Error::UserAlreadyRegistered)
    } else {
        None
    }
}

/// The storage after a username is bound to an address, with a zero balance.
pub open spec fn enrolled(s: State, username: Seq<u8>, address: Seq<u8>) -> State {
    State {
        address_of: s.address_of.insert(username, address),
        username_of: s.username_of.insert(address, username),
        balances: s.balances.insert(username, 0),
        ..s
    }
}

/// What binding a username to an address asks of the chain.
pub open spec fn enrollment(username: Seq<u8>, address: Seq<u8>) -> Seq<ActionView> {
    seq![
        ActionView::Put(EntryView::UsernameToAddr(username, address)),
        ActionView::Put(EntryView::AddrToUsername(address, username)),
        ActionView::Put(EntryView::Balance(username, 0)),
        renewal(DataKeyView::UsernameToAddr(username)),
        renewal(DataKeyView::AddrToUsername(address)),
        renewal(DataKeyView::Balance(username)),
        ActionView::Publish(EventView::RegUser { username, address }),
    ]
}

/// Registering a user.
pub open spec fn register_user(s: State, username: Seq<u8>, address: Seq<u8>) -> Outcome {
    if s.admin is None {
        refused(s, Error::NotInitialized)
    } else {
        match enrollment_refusal(s, username, address) {
            Some(error) => refused(s, error),
            None => granted(
                enrolled(s, username, address),
                admin_entry(s) + enrollment(username, address),
            ),
        }
    }
}

/// Binding each username of a list to the address at the same place, in order.
/// The first entry that cannot be bound decides the error.
pub open spec fn enroll_all(
    s: State,
    usernames: Seq<Seq<u8>>,
    addresses: Seq<Seq<u8>>,
) -> Outcome
    decreases usernames.len(),
{
    if usernames.len() == 0 {
        granted(s, seq![])
    } else {
        let before = enroll_all(s, usernames.drop_last(), addresses.drop_last());
        let username = usernames.last();
        let address = addresses.last();
        if before.result is Err {
            before
        } else {
            match enrollment_refusal(before.state, username, address) {
                Some(error) => refused(s, error),
                None => granted(
                    enrolled(before.state, username, address),
                    before.actions + enrollment(username, address),
                ),
            }
        }
    }
}

/// Registering several users, all or none.
pub open spec fn batch_register_users(
    s: State,
    usernames: Seq<Seq<u8>>,
    addresses: Seq<Seq<u8>>,
) -> Outcome {
    if s.admin is None {
        refused(s, Error::NotInitialized)
    } else if usernames.len() != addresses.len() {
        refused(s, Error::BatchLengthMismatch)
    } else if usernames.len() > BATCH_MAX_SIZE {
        refused(s, Error::BatchTooLarge)
    } else {
        let all = enroll_all(s, usernames, addresses);
        match all.result {
            Err(error) => refused(s, error),
            Ok(_) => granted(all.state, admin_entry(s) + all.actions),
        }
    }
}

/// Removing a user whose balance is zero.
pub open spec fn deregister_user(s: State, username: Seq<u8>) -> Outcome {
    if s.admin is None {
        refused(s, Error::NotInitialized)
    } else if !s.registered(username) {
        refused(s, Error::UsernameNotFound)
    } else if s.balances.contains_key(username) && s.balances[username] != 0 {
        refused(s, Error::NonZeroBalance)
    } else {
        let address = s.address_of[username];
        granted(
            State {
                address_of: s.address_of.remove(username),
                username_of: s.username_of.remove(address),
                balances: s.balances.remove(username),
                ..s
            },
            admin_entry(s) + seq![
                ActionView::Remove(DataKeyView::UsernameToAddr(username)),
                ActionView::Remove(DataKeyView::AddrToUsername(address)),
                ActionView::Remove(DataKeyView::Balance(username)),
                ActionView::Publish(EventView::Dereg { username, address }),
            ],
        )
    }
}

/// The storage after a username is bound to another address.
pub open spec fn rebound(s: State, username: Seq<u8>, new_address: Seq<u8>) -> State {
    State {
        address_of: s.address_of.insert(username, new_address),
        username_of: s.username_of.remove(s.address_of[username]).insert(new_address, username),
        ..s
    }
}

/// Binding a registered username to another address. Nothing changes if it is
/// the address that the username has.
pub open spec fn update_address(s: State, username: Seq<u8>, new_address: Seq<u8>) -> Outcome {
    if s.admin is None {
        refused(s, Error::NotInitialized)
    } else if !s.registered(username) {
        refused(s, Error::UsernameNotFound)
    } else if s.address_of[username] == new_address {
        granted(s, admin_entry(s))
    } else if s.username_of.contains_key(new_address) {
        refused(s, Error::UserAlreadyRegistered)
    } else {
        let old_address = s.address_of[username];
        let after = rebound(s, username, new_address);
        granted(
            after,
            admin_entry(s) + seq![
                ActionView::Remove(DataKeyView::AddrToUsername(old_address)),
                ActionView::Put(EntryView::UsernameToAddr(username, new_address)),
                ActionView::Put(EntryView::AddrToUsername(new_address, username)),
            ] + user_renewal(after, username) + seq![
                ActionView::Publish(EventView::UpdAddr { username, old_address, new_address }),
            ],
        )
    }
}

/// Whether changing an address runs to its end: it fails where the user's
/// balance is to be renewed but is not there.
pub open spec fn update_address_runs(
    s: State,
    username: Seq<u8>,
    new_address: Seq<u8>,
) -> bool {
    update_address(s, username, new_address).result is Ok && s.address_of[username] != new_address
        ==> s.balances.contains_key(username)
}

/// Renewing the entries of a user.
pub open spec fn extend_user_ttl(s: State, username: Seq<u8>) -> Outcome {
    if s.admin is None {
        refused(s, Error::NotInitialized)
    } else if !s.registered(username) {
        refused(s, Error::UsernameNotFound)
    } else {
        granted(s, admin_entry(s) + user_renewal(s, username))
    }
}

/// Whether renewing the entries of a user runs to its end: it fails where one of
/// them is not there.
pub open spec fn extend_user_ttl_runs(s: State, username: Seq<u8>) -> bool {
    extend_user_ttl(s, username).result is Ok ==> s.user_complete(username)
}

/// Renewing the entries of those users in a list that are registered.
pub open spec fn renew_all(s: State, usernames: Seq<Seq<u8>>) -> Seq<ActionView>
    decreases usernames.len(),
{
    if usernames.len() == 0 {
        seq![]
    } else {
        let before = renew_all(s, usernames.drop_last());
        if s.registered(usernames.last()) {
            before + user_renewal(s, usernames.last())
        } else {
            before
        }
    }
}

/// Renewing the entries of several users; names that are not registered are
/// skipped.
pub open spec fn batch_extend_user_ttl(s: State, usernames: Seq<Seq<u8>>) -> Outcome {
    if s.admin is None {
        refused(s, Error::NotInitialized)
    } else if usernames.len() > BATCH_MAX_SIZE {
        refused(s, Error::BatchTooLarge)
    } else {
        granted(s, admin_entry(s) + renew_all(s, usernames))
    }
}

/// Whether renewing the entries of several users runs to its end: it fails where
/// a registered one lacks an entry.
pub open spec fn batch_extend_user_ttl_runs(s: State, usernames: Seq<Seq<u8>>) -> bool {
    batch_extend_user_ttl(s, usernames).result is Ok ==> forall|i: int|
        0 <= i < usernames.len() && s.registered(#[trigger] usernames[i]) ==> s.user_complete(
            usernames[i],
        )
}

/// A list of bindings leaves everything alone but usernames, addresses and balances.
pub proof fn lemma_enroll_all_frame(
    s: State,
    usernames: Seq<Seq<u8>>,
    addresses: Seq<Seq<u8>>,
)
    ensures
        ({
            let after = enroll_all(s, usernames, addresses).state;
            after == (State {
                address_of: after.address_of,
                username_of: after.username_of,
                balances: after.balances,
                ..s
            })
        }),
    decreases usernames.len(),
{
    if usernames.len() > 0 {
        lemma_enroll_all_frame(s, usernames.drop_last(), addresses.drop_last());
    }
}

/// After a list of bindings, the bound usernames and addresses are those from
/// before and those in the list.
pub proof fn lemma_enroll_all_names(s: State, usernames: Seq<Seq<u8>>, addresses: Seq<Seq<u8>>)
    requires
        usernames.len() == addresses.len(),
        enroll_all(s, usernames, addresses).result is Ok,
    ensures
        forall|name: Seq<u8>| #[trigger]
            enroll_all(s, usernames, addresses).state.address_of.contains_key(name) <==> (
            s.address_of.contains_key(name) || usernames.contains(name)),
        forall|address: Seq<u8>| #[trigger]
            enroll_all(s, usernames, addresses).state.username_of.contains_key(address) <==> (
            s.username_of.contains_key(address) || addresses.contains(address)),
    decreases usernames.len(),
{
    if usernames.len() > 0 {
        lemma_enroll_all_names(s, usernames.drop_last(), addresses.drop_last());
        assert(usernames == usernames.drop_last().push(usernames.last()));
        assert(addresses == addresses.drop_last().push(addresses.last()));
        broadcast use vstd::seq_lib::group_seq_properties;

    }
}

/// A list of bindings fails as soon as a part of it from the front does.
pub proof fn lemma_enroll_all_fails(
    s: State,
    usernames: Seq<Seq<u8>>,
    addresses: Seq<Seq<u8>>,
    n: int,
)
    requires
        usernames.len() == addresses.len(),
        0 <= n <= usernames.len(),
        enroll_all(s, usernames.take(n), addresses.take(n)).result is Err,
    ensures
        enroll_all(s, usernames, addresses).result == enroll_all(
            s,
            usernames.take(n),
            addresses.take(n),
        ).result,
    decreases usernames.len(),
{
    if n == usernames.len() {
        assert(usernames.take(n) == usernames);
        assert(addresses.take(n) == addresses);
    } else {
        assert(usernames.drop_last().take(n) == usernames.take(n));
        assert(addresses.drop_last().take(n) == addresses.take(n));
        lemma_enroll_all_fails(s, usernames.drop_last(), addresses.drop_last(), n);
    }
}

/// Whether one of the first `n` byte strings of a list is `text`.
fn text_among(list: &Vec<Text>, n: usize, text: &Text) -> (found: bool)
    requires
        n <= list@.len(),
    ensures
        found == texts(list@).take(n as int).contains(text@),
{
    let mut i: usize = 0;
    while i < n
        invariant
            i <= n <= list@.len(),
            forall|j: int| 0 <= j < i ==> list@[j]@ != text@,
        decreases n - i,
    {
        if list[i] == *text {
            assert(texts(list@).take(n as int)[i as int] == text@);
            return true;
        }
        i += 1;
    }
    false
}

/// Whether one of the first `n` addresses of a list is `address`.
fn address_among(list: &Vec<Address>, n: usize, address: &Address) -> (found: bool)
    requires
        n <= list@.len(),
    ensures
        found == addresses(list@).take(n as int).contains(address@),
{
    let mut i: usize = 0;
    while i < n
        invariant
            i <= n <= list@.len(),
            forall|j: int| 0 <= j < i ==> list@[j]@ != address@,
        decreases n - i,
    {
        if list[i] == *address {
            assert(addresses(list@).take(n as int)[i as int] == address@);
            return true;
        }
        i += 1;
    }
    false
}

impl CheesePay {
    /// Binds a username to an address that can be bound.
    fn enroll(&mut self, env: &mut Env, username: &Text, address: &Address)
        ensures
            final(self)@ == enrolled(old(self)@, username@, address@),
            final(env).sequence == old(env).sequence,
            final(env)@ == old(env)@ + enrollment(username@, address@),
    {
        self.write(env, Entry::UsernameToAddr(username.clone(), address.clone()));
        self.write(env, Entry::AddrToUsername(address.clone(), username.clone()));
        self.write(env, Entry::Balance(username.clone(), 0));
        self.extend_user_keys(env, username);
        env.ask(
            Action::Publish(
                Event::RegUser { username: username.clone(), address: address.clone() },
            ),
        );
        assert(self@ =~= enrolled(old(self)@, username@, address@));
        assert(env@ =~= old(env)@ + enrollment(username@, address@));
    }

    /// Why a username cannot be bound to an address, or `Ok`.
    fn check_enrollment(&self, username: &Text, address: &Address) -> (answer: Result<(), Error>)
        ensures
            answer == (match enrollment_refusal(self@, username@, address@) {
                Some(error) => Err::<(), Error>(error),
                None => Ok(()),
            }),
    {
        if let Err(error) = Self::validate_username(username) {
            return Err(error);
        }
        if self.address_of.has(username) {
            return Err(Error::UsernameTaken);
        }
        if self.username_of.has(address.strkey()) {
            return Err(Error::UserAlreadyRegistered);
        }
        Ok(())
    }

    /// Registers a user at the moment of signup: `username` is the chosen handle,
    /// `stellar_address` the address that was generated for the user.
    pub fn register_user(
        &mut self,
        env: &mut Env,
        username: &Text,
        stellar_address: &Address,
    ) -> (answer: Result<(), Error>)
        ensures
            answer == register_user(old(self)@, username@, stellar_address@).result,
            final(self)@ == register_user(old(self)@, username@, stellar_address@).state,
            final(env)@ == old(env)@ + register_user(
                old(self)@,
                username@,
                stellar_address@,
            ).actions,
            final(env).sequence == old(env).sequence,
    {
        if let Err(error) = self.require_admin(env) {
            return Err(error);
        }
        if let Err(error) = self.check_enrollment(username, stellar_address) {
            return Err(error);
        }
        Self::extend_instance_ttl(env);
        self.enroll(env, username, stellar_address);
        assert(env@ =~= old(env)@ + register_user(
            old(self)@,
            username@,
            stellar_address@,
        ).actions);
        Ok(())
    }

    /// Registers several users at once, all or none: if any entry fails, nothing
    /// is registered.
    pub fn batch_register_users(
        &mut self,
        env: &mut Env,
        usernames: &Vec<Text>,
        addresses: &Vec<Address>,
    ) -> (answer: Result<(), Error>)
        ensures
            answer == batch_register_users(
                old(self)@,
                texts(usernames@),
                crate::users::addresses(addresses@),
            ).result,
            final(self)@ == batch_register_users(
                old(self)@,
                texts(usernames@),
                crate::users::addresses(addresses@),
            ).state,
            final(env)@ == old(env)@ + batch_register_users(
                old(self)@,
                texts(usernames@),
                crate::users::addresses(addresses@),
            ).actions,
            final(env).sequence == old(env).sequence,
    {
        let ghost s = self@;
        let ghost us = texts(usernames@);
        let ghost ads = crate::users::addresses(addresses@);
        if let Err(error) = self.require_admin(env) {
            return Err(error);
        }
        if usernames.len() != addresses.len() {
            return Err(Error::BatchLengthMismatch);
        }
        if usernames.len() > BATCH_MAX_SIZE as usize {
            return Err(Error::BatchTooLarge);
        }
        let len: usize = usernames.len();
        let mut i: usize = 0;
        assert(us.take(0).len() == 0);
        while i < len
            invariant
                i <= len,
                len == usernames@.len(),
                len == addresses@.len(),
                us == texts(usernames@),
                ads == crate::users::addresses(addresses@),
                self@ == s,
                enroll_all(s, us.take(i as int), ads.take(i as int)).result is Ok,
                old(self)@ == s,
                s.admin is Some,
                len <= BATCH_MAX_SIZE,
                env@ == old(env)@ + crate::state::admin_signature(s),
                env.sequence == old(env).sequence,
            decreases len - i,
        {
            let username = &usernames[i];
            let address = &addresses[i];
            proof {
                lemma_enroll_all_names(s, us.take(i as int), ads.take(i as int));
                assert(us.take(i + 1).drop_last() == us.take(i as int));
                assert(ads.take(i + 1).drop_last() == ads.take(i as int));
                assert(us.take(i + 1).last() == username@);
                assert(ads.take(i + 1).last() == address@);
                if enroll_all(s, us.take(i + 1), ads.take(i + 1)).result is Err {
                    lemma_enroll_all_fails(s, us, ads, i + 1);
                }
            }
            if let Err(error) = Self::validate_username(username) {
                return Err(error);
            }
            if self.address_of.has(username) || text_among(usernames, i, username) {
                return Err(Error::UsernameTaken);
            }
            if self.username_of.has(address.strkey()) || address_among(addresses, i, address) {
                return Err(Error::UserAlreadyRegistered);
            }
            i += 1;
        }
        assert(us.take(len as int) == us);
        assert(ads.take(len as int) == ads);
        Self::extend_instance_ttl(env);
        let mut i: usize = 0;
        assert(env@ =~= old(env)@ + admin_entry(s) + enroll_all(
            s,
            us.take(0),
            ads.take(0),
        ).actions);
        while i < len
            invariant
                i <= len,
                len == usernames@.len(),
                len == addresses@.len(),
                us == texts(usernames@),
                ads == crate::users::addresses(addresses@),
                enroll_all(s, us, ads).result is Ok,
                enroll_all(s, us.take(i as int), ads.take(i as int)).result is Ok,
                self@ == enroll_all(s, us.take(i as int), ads.take(i as int)).state,
                env@ == old(env)@ + admin_entry(s) + enroll_all(
                    s,
                    us.take(i as int),
                    ads.take(i as int),
                ).actions,
                env.sequence == old(env).sequence,
            decreases len - i,
        {
            proof {
                assert(us.take(i + 1).drop_last() == us.take(i as int));
                assert(ads.take(i + 1).drop_last() == ads.take(i as int));
                assert(us.take(i + 1).last() == usernames@[i as int]@);
                assert(ads.take(i + 1).last() == addresses@[i as int]@);
                if enroll_all(s, us.take(i + 1), ads.take(i + 1)).result is Err {
                    lemma_enroll_all_fails(s, us, ads, i + 1);
                }
            }
            self.enroll(env, &usernames[i], &addresses[i]);
            assert(env@ =~= old(env)@ + admin_entry(s) + enroll_all(
                s,
                us.take(i + 1),
                ads.take(i + 1),
            ).actions);
            i += 1;
        }
        assert(us.take(len as int) == us);
        assert(ads.take(len as int) == ads);
        assert(env@ =~= old(env)@ + batch_register_users(s, us, ads).actions);
        Ok(())
    }

    /// Removes a user, whose balance must be zero, and frees the username.
    pub fn deregister_user(&mut self, env: &mut Env, username: &Text) -> (answer: Result<
        (),
        Error,
    >)
        ensures
            answer == deregister_user(old(self)@, username@).result,
            final(self)@ == deregister_user(old(self)@, username@).state,
            final(env)@ == old(env)@ + deregister_user(old(self)@, username@).actions,
            final(env).sequence == old(env).sequence,
    {
        if let Err(error) = self.require_admin(env) {
            return Err(error);
        }
        let address = match self.address_of.get(username) {
            Some(address) => address.clone(),
            None => {
                return Err(Error::UsernameNotFound);
            },
        };
        if self.balance_or_zero(username) != 0 {
            return Err(Error::NonZeroBalance);
        }
        Self::extend_instance_ttl(env);
        self.delete(env, DataKey::UsernameToAddr(username.clone()));
        self.delete(env, DataKey::AddrToUsername(address.clone()));
        self.delete(env, DataKey::Balance(username.clone()));
        env.ask(Action::Publish(Event::Dereg { username: username.clone(), address }));
        assert(self@ =~= deregister_user(old(self)@, username@).state);
        assert(env@ =~= old(env)@ + deregister_user(old(self)@, username@).actions);
        Ok(())
    }

    /// Binds a username to another address. The old binding goes; nothing
    /// changes if the address is the one that the username has.
    pub fn update_address(
        &mut self,
        env: &mut Env,
        username: &Text,
        new_address: &Address,
    ) -> (answer: Result<(), Error>)
        requires
            update_address_runs(old(self)@, username@, new_address@),
        ensures
            answer == update_address(old(self)@, username@, new_address@).result,
            final(self)@ == update_address(old(self)@, username@, new_address@).state,
            final(env)@ == old(env)@ + update_address(old(self)@, username@, new_address@).actions,
            final(env).sequence == old(env).sequence,
    {
        if let Err(error) = self.require_admin(env) {
            return Err(error);
        }
        let old_address = match self.address_of.get(username) {
            Some(address) => address.clone(),
            None => {
                return Err(Error::UsernameNotFound);
            },
        };
        if old_address == *new_address {
            Self::extend_instance_ttl(env);
            assert(env@ =~= old(env)@ + admin_entry(old(self)@));
            return Ok(());
        }
        if self.username_of.has(new_address.strkey()) {
            return Err(Error::UserAlreadyRegistered);
        }
        Self::extend_instance_ttl(env);
        self.delete(env, DataKey::AddrToUsername(old_address.clone()));
        self.write(env, Entry::UsernameToAddr(username.clone(), new_address.clone()));
        self.write(env, Entry::AddrToUsername(new_address.clone(), username.clone()));
        assert(self@ =~= rebound(old(self)@, username@, new_address@));
        self.extend_user_keys(env, username);
        env.ask(
            Action::Publish(
                Event::UpdAddr {
                    username: username.clone(),
                    old_address,
                    new_address: new_address.clone(),
                },
            ),
        );
        assert(env@ =~= old(env)@ + update_address(old(self)@, username@, new_address@).actions);
        Ok(())
    }

    /// Renews the entries of a user who has been inactive for long.
    pub fn extend_user_ttl(&self, env: &mut Env, username: &Text) -> (answer: Result<(), Error>)
        requires
            extend_user_ttl_runs(self@, username@),
        ensures
            answer == extend_user_ttl(self@, username@).result,
            final(env)@ == old(env)@ + extend_user_ttl(self@, username@).actions,
            final(env).sequence == old(env).sequence,
    {
        if let Err(error) = self.require_admin(env) {
            return Err(error);
        }
        if let Err(error) = self.require_user_exists(username) {
            return Err(error);
        }
        Self::extend_instance_ttl(env);
        self.extend_user_keys(env, username);
        assert(env@ =~= old(env)@ + extend_user_ttl(self@, username@).actions);
        Ok(())
    }

    /// Renews the entries of several users; names that are not registered are
    /// skipped.
    pub fn batch_extend_user_ttl(&self, env: &mut Env, usernames: &Vec<Text>) -> (answer: Result<
        (),
        Error,
    >)
        requires
            batch_extend_user_ttl_runs(self@, texts(usernames@)),
        ensures
            answer == batch_extend_user_ttl(self@, texts(usernames@)).result,
            final(env)@ == old(env)@ + batch_extend_user_ttl(self@, texts(usernames@)).actions,
            final(env).sequence == old(env).sequence,
    {
        let ghost us = texts(usernames@);
        if let Err(error) = self.require_admin(env) {
            return Err(error);
        }
        if usernames.len() > BATCH_MAX_SIZE as usize {
            return Err(Error::BatchTooLarge);
        }
        Self::extend_instance_ttl(env);
        let len: usize = usernames.len();
        let mut i: usize = 0;
        assert(env@ =~= old(env)@ + admin_entry(self@) + renew_all(self@, us.take(0)));
        while i < len
            invariant
                i <= len,
                len == usernames@.len(),
                us == texts(usernames@),
                forall|j: int|
                    0 <= j < us.len() && self@.registered(#[trigger] us[j])
                        ==> self@.user_complete(us[j]),
                env@ == old(env)@ + admin_entry(self@) + renew_all(self@, us.take(i as int)),
                env.sequence == old(env).sequence,
            decreases len - i,
        {
            proof {
                assert(us.take(i + 1).drop_last() == us.take(i as int));
                assert(us.take(i + 1).last() == us[i as int]);
            }
            if self.address_of.has(&usernames[i]) {
                self.extend_user_keys(env, &usernames[i]);
            }
            assert(env@ =~= old(env)@ + admin_entry(self@) + renew_all(self@, us.take(i + 1)));
            i += 1;
        }
        assert(us.take(len as int) == us);
        assert(env@ =~= old(env)@ + batch_extend_user_ttl(self@, us).actions);
        Ok(())
    }
}

} // verus!
