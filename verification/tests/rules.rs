//! The rules of single requests: errors, limits, exact amounts and exact actions.

use cheese_pay::{Action, Address, CheesePay, DataKey, Entry, Env, Error, Event, PayLinkData, Text};

fn text(s: &str) -> Text {
    Text::from_str(s)
}

fn address(s: &str) -> Address {
    Address::new(text(s))
}

/// A contract that is set up, at 30 basis points.
fn ready() -> CheesePay {
    let mut pay = CheesePay::new();
    let mut env = Env::new(100);
    let answer = pay.initialize(
        &mut env,
        &address("ADMIN"),
        &address("USDC"),
        30,
        &address("TREASURY"),
    );
    assert_eq!(answer, Ok(()));
    pay
}

/// A contract with the users `ann`, who has 1_000_000, and `bob`, who has nothing.
fn populated() -> CheesePay {
    let mut pay = ready();
    let mut env = Env::new(100);
    assert_eq!(pay.register_user(&mut env, &text("ann"), &address("A")), Ok(()));
    assert_eq!(pay.register_user(&mut env, &text("bob"), &address("B")), Ok(()));
    assert_eq!(pay.deposit(&mut env, &text("ann"), 1_000_000, &text("first")), Ok(()));
    pay
}

fn balance(pay: &CheesePay, name: &str) -> i128 {
    assert!(pay.can_balance(&text(name)));
    pay.balance(&mut Env::new(100), &text(name))
}

/// The actions of a request that must be granted.
fn granted(
    pay: &mut CheesePay,
    request: impl FnOnce(&mut CheesePay, &mut Env) -> Result<(), Error>,
) -> Vec<Action> {
    let mut env = Env::new(100);
    assert_eq!(request(pay, &mut env), Ok(()));
    env.actions
}

/// The error of a request that must be refused, which may ask for nothing but the
/// admin's signature.
fn refused(
    pay: &mut CheesePay,
    request: impl FnOnce(&mut CheesePay, &mut Env) -> Result<(), Error>,
) -> Error {
    let signed: Vec<Action> = pay.get_admin().into_iter().map(Action::RequireAuth).collect();
    let mut env = Env::new(100);
    let error = request(pay, &mut env).unwrap_err();
    assert_eq!(env.actions, signed);
    error
}

fn sent(actions: &[Action]) -> i128 {
    actions
        .iter()
        .map(|action| match action {
            Action::UsdcTransfer { amount, .. } => *amount,
            _ => 0,
        })
        .sum()
}

fn renew(key: DataKey) -> Action {
    Action::ExtendTtl { key, threshold: 518_400, extend_to: 1_036_800 }
}

fn entry_actions() -> Vec<Action> {
    vec![
        Action::RequireAuth(address("ADMIN")),
        Action::ExtendInstanceTtl { threshold: 518_400, extend_to: 1_036_800 },
    ]
}

fn user_renewals(name: &str, addr: &str) -> Vec<Action> {
    vec![
        renew(DataKey::UsernameToAddr(text(name))),
        renew(DataKey::AddrToUsername(address(addr))),
        renew(DataKey::Balance(text(name))),
    ]
}

// Text and tables.

#[test]
fn text_counts_bytes() {
    assert_eq!(text("temi").len(), 4);
    assert_eq!(text("é").len(), 2);
    assert_eq!(text("").len(), 0);
    assert_eq!(Text::new(vec![0xff, 0x00]).as_bytes(), &vec![0xff, 0x00]);
    assert_eq!(text("ab").as_bytes(), &vec![97, 98]);
    assert_ne!(text("ab"), text("abc"));
    assert_ne!(text("ab"), text("ac"));
    assert_eq!(text("ab").clone(), text("ab"));
    assert_eq!(address("G1").strkey(), &text("G1"));
    assert_ne!(address("G1"), address("G2"));
}

#[test]
fn table_keeps_the_last_value() {
    let mut table = cheese_pay::Table::<i128>::new();
    table.set(text("a"), 1);
    table.set(text("b"), 2);
    table.set(text("a"), 3);
    assert_eq!(table.get(&text("a")), Some(&3));
    assert_eq!(table.get(&text("b")), Some(&2));
    table.remove(&text("a"));
    assert_eq!(table.get(&text("a")), None);
    assert!(!table.has(&text("a")));
    assert!(table.has(&text("b")));
    table.remove(&text("missing"));
    assert_eq!(table.get(&text("b")), Some(&2));
}

// Errors.

#[test]
fn error_codes_are_those_of_the_chain() {
    let codes: Vec<u32> = [
        Error::AlreadyInitialized,
        Error::NotInitialized,
        Error::ContractPaused,
        Error::InsufficientBalance,
        Error::InvalidAmount,
        Error::PayLinkNotFound,
        Error::PayLinkAlreadyPaid,
        Error::PayLinkCancelled,
        Error::PayLinkAlreadyExists,
        Error::PayLinkExpired,
        Error::NotPayLinkCreator,
        Error::FeeTooHigh,
        Error::UsernameTaken,
        Error::UsernameNotFound,
        Error::UserAlreadyRegistered,
        Error::UserNotFound,
        Error::SelfTransfer,
        Error::NonZeroBalance,
        Error::InvalidUsername,
        Error::InvalidTokenId,
        Error::BelowMinWithdrawal,
        Error::DepositAlreadyProcessed,
        Error::NoPendingAdmin,
        Error::BatchLengthMismatch,
        Error::NoteTooLong,
        Error::BatchTooLarge,
    ]
    .iter()
    .map(|error| error.code())
    .collect();
    let mut expected: Vec<u32> = (1..=27).collect();
    expected.retain(|code| *code != 4);
    assert_eq!(codes, expected);
}

#[test]
fn nothing_is_granted_before_setup() {
    let mut pay = CheesePay::new();
    let (u, v, a) = (text("ann"), text("bob"), address("A"));
    let none = Error::NotInitialized;
    assert_eq!(refused(&mut pay, |p, e| p.register_user(e, &u, &a)), none);
    assert_eq!(refused(&mut pay, |p, e| p.batch_register_users(e, &vec![], &vec![])), none);
    assert_eq!(refused(&mut pay, |p, e| p.deregister_user(e, &u)), none);
    assert_eq!(refused(&mut pay, |p, e| p.update_address(e, &u, &a)), none);
    assert_eq!(refused(&mut pay, |p, e| p.extend_user_ttl(e, &u)), none);
    assert_eq!(refused(&mut pay, |p, e| p.batch_extend_user_ttl(e, &vec![])), none);
    assert_eq!(refused(&mut pay, |p, e| p.deposit(e, &u, 1, &v)), none);
    assert_eq!(refused(&mut pay, |p, e| p.deposit_by_address(e, &a, 1, &v)), none);
    assert_eq!(refused(&mut pay, |p, e| p.withdraw(e, &u, 1, &a)), none);
    assert_eq!(refused(&mut pay, |p, e| p.transfer(e, &u, &v, 1)), none);
    assert_eq!(refused(&mut pay, |p, e| p.create_paylink(e, &u, &v, 1, &u, 200)), none);
    assert_eq!(refused(&mut pay, |p, e| p.pay_paylink(e, &u, &v)), none);
    assert_eq!(refused(&mut pay, |p, e| p.cancel_paylink(e, &u, &v)), none);
    assert_eq!(refused(&mut pay, |p, e| p.admin_cancel_paylink(e, &v)), none);
    assert_eq!(refused(&mut pay, |p, e| p.extend_paylink_ttl(e, &v)), none);
    assert_eq!(refused(&mut pay, |p, e| p.set_fee_rate(e, 1)), none);
    assert_eq!(refused(&mut pay, |p, e| p.set_fee_treasury(e, &a)), none);
    assert_eq!(refused(&mut pay, |p, e| p.set_usdc_token(e, &a)), none);
    assert_eq!(refused(&mut pay, |p, e| p.set_min_withdrawal(e, 1)), none);
    assert_eq!(refused(&mut pay, |p, e| p.propose_admin(e, &a)), none);
    assert_eq!(refused(&mut pay, |p, e| p.pause(e)), none);
    assert_eq!(refused(&mut pay, |p, e| p.unpause(e)), none);
    assert_eq!(refused(&mut pay, |p, e| p.sweep_excess(e, &a, 5)), none);
    assert_eq!(refused(&mut pay, |p, e| p.upgrade(e, [7; 32])), none);
    assert_eq!(refused(&mut pay, |p, e| p.accept_admin(e)), Error::NoPendingAdmin);
    assert_eq!(pay.get_admin(), Err(none));
    assert_eq!(pay.get_fee_treasury(), Err(none));
    assert_eq!(pay.get_usdc_token(), Err(none));
    assert_eq!(pay.get_min_withdrawal(), 0);
    assert_eq!(pay.fee_rate(), 0);
    assert_eq!(pay.total_internal_balance(), 0);
    assert!(!pay.is_paused());
    assert_eq!(pay.resolve_username(&u), Err(Error::UsernameNotFound));
    assert_eq!(pay.get_username(&a), Err(Error::UserNotFound));
    assert_eq!(pay.get_paylink(&v), Err(Error::PayLinkNotFound));
}

#[test]
fn setup_happens_once_and_caps_the_fee() {
    let mut pay = CheesePay::new();
    let (admin, usdc, treasury) = (address("ADMIN"), address("USDC"), address("TREASURY"));
    let mut env = Env::new(1);
    let answer = pay.initialize(&mut env, &admin, &usdc, 501, &treasury);
    assert_eq!(answer, Err(Error::FeeTooHigh));
    assert_eq!(env.actions, vec![Action::RequireAuth(admin.clone())]);
    assert_eq!(pay.get_admin(), Err(Error::NotInitialized));

    let mut env = Env::new(1);
    assert_eq!(pay.initialize(&mut env, &admin, &usdc, 500, &treasury), Ok(()));
    assert_eq!(
        env.actions,
        vec![
            Action::RequireAuth(admin.clone()),
            Action::Put(Entry::Admin(admin.clone())),
            Action::Put(Entry::UsdcToken(usdc.clone())),
            Action::Put(Entry::FeeRateBps(500)),
            Action::Put(Entry::FeeTreasury(treasury.clone())),
            Action::Put(Entry::Paused(false)),
            Action::Put(Entry::TotalBalance(0)),
            Action::Put(Entry::MinWithdrawal(0)),
            Action::ExtendInstanceTtl { threshold: 518_400, extend_to: 1_036_800 },
        ]
    );

    let other = address("OTHER");
    let mut env = Env::new(1);
    let answer = pay.initialize(&mut env, &other, &usdc, 30, &treasury);
    assert_eq!(answer, Err(Error::AlreadyInitialized));
    assert_eq!(env.actions, vec![Action::RequireAuth(other)]);
    assert_eq!(pay.get_admin(), Ok(admin));
    assert_eq!(pay.fee_rate(), 500);
}

// Registration.

#[test]
fn usernames_are_measured_in_bytes() {
    let mut pay = ready();
    let longest = text(&"u".repeat(32));
    granted(&mut pay, |p, e| p.register_user(e, &longest, &address("A")));
    let wide = text(&"é".repeat(17));
    assert_eq!(
        refused(&mut pay, |p, e| p.register_user(e, &wide, &address("B"))),
        Error::InvalidUsername
    );
}

#[test]
fn names_and_addresses_are_bound_one_to_one() {
    let mut pay = populated();
    assert_eq!(
        refused(&mut pay, |p, e| p.register_user(e, &text("ann"), &address("C"))),
        Error::UsernameTaken
    );
    assert_eq!(
        refused(&mut pay, |p, e| p.register_user(e, &text("cid"), &address("A"))),
        Error::UserAlreadyRegistered
    );
    assert_eq!(pay.resolve_username(&text("ann")), Ok(address("A")));
    assert_eq!(pay.get_username(&address("A")), Ok(text("ann")));
}

#[test]
fn registration_asks_for_its_entries() {
    let mut pay = ready();
    let actions = granted(&mut pay, |p, e| p.register_user(e, &text("ann"), &address("A")));
    let mut expected = entry_actions();
    expected.push(Action::Put(Entry::UsernameToAddr(text("ann"), address("A"))));
    expected.push(Action::Put(Entry::AddrToUsername(address("A"), text("ann"))));
    expected.push(Action::Put(Entry::Balance(text("ann"), 0)));
    expected.extend(user_renewals("ann", "A"));
    expected.push(Action::Publish(Event::RegUser { username: text("ann"), address: address("A") }));
    assert_eq!(actions, expected);
    assert_eq!(balance(&pay, "ann"), 0);
}

#[test]
fn batch_registers_all_or_none() {
    let mut pay = ready();
    let names = vec![text("a"), text("b"), text("a")];
    let addresses = vec![address("1"), address("2"), address("3")];
    assert_eq!(
        refused(&mut pay, |p, e| p.batch_register_users(e, &names, &addresses)),
        Error::UsernameTaken
    );
    assert!(!pay.is_registered(&text("a")));
    assert!(!pay.is_registered(&text("b")));
    assert!(!pay.is_address_registered(&address("1")));

    let names = vec![text("a"), text("b")];
    let addresses = vec![address("1"), address("1")];
    assert_eq!(
        refused(&mut pay, |p, e| p.batch_register_users(e, &names, &addresses)),
        Error::UserAlreadyRegistered
    );
    assert!(!pay.is_registered(&text("a")));

    let names = vec![text("a"), text("")];
    let addresses = vec![address("1"), address("2")];
    assert_eq!(
        refused(&mut pay, |p, e| p.batch_register_users(e, &names, &addresses)),
        Error::InvalidUsername
    );
    assert!(!pay.is_registered(&text("a")));

    // The first entry that fails decides the error.
    let names = vec![text(""), text("a"), text("a")];
    let addresses = vec![address("1"), address("2"), address("2")];
    assert_eq!(
        refused(&mut pay, |p, e| p.batch_register_users(e, &names, &addresses)),
        Error::InvalidUsername
    );

    granted(&mut pay, |p, e| p.batch_register_users(e, &vec![], &vec![]));
}

#[test]
fn batch_does_what_single_registrations_do() {
    let names = vec![text("a"), text("b")];
    let addresses = vec![address("1"), address("2")];
    let mut whole = ready();
    let mut single = ready();
    let actions = granted(&mut whole, |p, e| p.batch_register_users(e, &names, &addresses));
    let mut parts = entry_actions();
    for (name, addr) in names.iter().zip(addresses.iter()) {
        let part = granted(&mut single, |p, e| p.register_user(e, name, addr));
        parts.extend(part.into_iter().skip(2));
    }
    assert_eq!(actions, parts);
    for (name, addr) in names.iter().zip(addresses.iter()) {
        assert_eq!(whole.resolve_username(name), Ok(addr.clone()));
        assert_eq!(single.resolve_username(name), Ok(addr.clone()));
    }
}

#[test]
fn batch_of_fifty_is_accepted() {
    let mut pay = ready();
    let names: Vec<Text> = (0..50).map(|i| text(&format!("user{}", i))).collect();
    let addresses: Vec<Address> = (0..50).map(|i| address(&format!("G{}", i))).collect();
    granted(&mut pay, |p, e| p.batch_register_users(e, &names, &addresses));
    assert_eq!(pay.resolve_username(&text("user49")), Ok(address("G49")));
    let actions = granted(&mut pay, |p, e| p.batch_extend_user_ttl(e, &names));
    assert_eq!(actions.len(), 2 + 3 * 50);
    let mut more = names;
    more.push(text("user50"));
    assert_eq!(
        refused(&mut pay, |p, e| p.batch_extend_user_ttl(e, &more)),
        Error::BatchTooLarge
    );
}

#[test]
fn deregistration_undoes_registration_and_frees_the_name() {
    let mut pay = populated();
    let actions = granted(&mut pay, |p, e| p.deregister_user(e, &text("bob")));
    let mut expected = entry_actions();
    expected.push(Action::Remove(DataKey::UsernameToAddr(text("bob"))));
    expected.push(Action::Remove(DataKey::AddrToUsername(address("B"))));
    expected.push(Action::Remove(DataKey::Balance(text("bob"))));
    expected.push(Action::Publish(Event::Dereg { username: text("bob"), address: address("B") }));
    assert_eq!(actions, expected);
    assert!(!pay.is_registered(&text("bob")));
    assert!(!pay.is_address_registered(&address("B")));
    assert!(!pay.can_balance(&text("bob")));
    assert_eq!(
        refused(&mut pay, |p, e| p.deregister_user(e, &text("bob"))),
        Error::UsernameNotFound
    );
    granted(&mut pay, |p, e| p.register_user(e, &text("bob"), &address("B2")));
    assert_eq!(pay.resolve_username(&text("bob")), Ok(address("B2")));
}

#[test]
fn address_change_can_be_undone() {
    let mut pay = populated();
    let actions = granted(&mut pay, |p, e| p.update_address(e, &text("ann"), &address("A2")));
    let mut expected = entry_actions();
    expected.push(Action::Remove(DataKey::AddrToUsername(address("A"))));
    expected.push(Action::Put(Entry::UsernameToAddr(text("ann"), address("A2"))));
    expected.push(Action::Put(Entry::AddrToUsername(address("A2"), text("ann"))));
    expected.extend(user_renewals("ann", "A2"));
    expected.push(Action::Publish(Event::UpdAddr {
        username: text("ann"),
        old_address: address("A"),
        new_address: address("A2"),
    }));
    assert_eq!(actions, expected);
    assert_eq!(balance(&pay, "ann"), 1_000_000);
    granted(&mut pay, |p, e| p.update_address(e, &text("ann"), &address("A")));
    assert_eq!(pay.resolve_username(&text("ann")), Ok(address("A")));
    assert!(!pay.is_address_registered(&address("A2")));

    let actions = granted(&mut pay, |p, e| p.update_address(e, &text("ann"), &address("A")));
    assert_eq!(actions, entry_actions());
    assert_eq!(
        refused(&mut pay, |p, e| p.update_address(e, &text("cid"), &address("C"))),
        Error::UsernameNotFound
    );
}

#[test]
fn renewals_touch_registered_users_only() {
    let mut pay = populated();
    let actions = granted(&mut pay, |p, e| p.extend_user_ttl(e, &text("ann")));
    let mut expected = entry_actions();
    expected.extend(user_renewals("ann", "A"));
    assert_eq!(actions, expected);
    assert_eq!(
        refused(&mut pay, |p, e| p.extend_user_ttl(e, &text("ghost"))),
        Error::UsernameNotFound
    );

    let names = vec![text("bob"), text("ghost"), text("ann")];
    let actions = granted(&mut pay, |p, e| p.batch_extend_user_ttl(e, &names));
    let mut expected = entry_actions();
    expected.extend(user_renewals("bob", "B"));
    expected.extend(user_renewals("ann", "A"));
    assert_eq!(actions, expected);
}

// Deposits.

#[test]
fn deposit_asks_for_its_entries() {
    let mut pay = populated();
    let actions = granted(&mut pay, |p, e| p.deposit(e, &text("ann"), 5, &text("second")));
    let mut expected = entry_actions();
    expected.push(Action::Put(Entry::ProcessedDeposit(text("second"))));
    expected.push(Action::FixTtl {
        key: DataKey::ProcessedDeposit(text("second")),
        ttl: 518_400,
    });
    expected.push(renew(DataKey::Balance(text("ann"))));
    expected.push(Action::Put(Entry::Balance(text("ann"), 1_000_005)));
    expected.push(renew(DataKey::Balance(text("ann"))));
    expected.extend(user_renewals("ann", "A"));
    expected.push(Action::Put(Entry::TotalBalance(1_000_005)));
    expected.push(Action::Publish(Event::Deposit {
        username: text("ann"),
        amount: 5,
        deposit_id: text("second"),
    }));
    assert_eq!(actions, expected);
}

#[test]
fn deposits_are_checked_in_order() {
    let mut pay = populated();
    let (ann, id) = (text("ann"), text("new"));
    assert_eq!(refused(&mut pay, |p, e| p.deposit(e, &ann, 0, &id)), Error::InvalidAmount);
    assert_eq!(refused(&mut pay, |p, e| p.deposit(e, &ann, -5, &id)), Error::InvalidAmount);
    assert_eq!(
        refused(&mut pay, |p, e| p.deposit(e, &text("ghost"), 5, &text("first"))),
        Error::DepositAlreadyProcessed
    );
    assert_eq!(
        refused(&mut pay, |p, e| p.deposit(e, &text("ghost"), 5, &id)),
        Error::UsernameNotFound
    );
    // A refused deposit does not use its id up.
    granted(&mut pay, |p, e| p.deposit(e, &ann, 5, &id));
    assert_eq!(balance(&pay, "ann"), 1_000_005);
}

#[test]
fn deposit_by_address_credits_the_owner() {
    let mut pay = populated();
    let (b, id) = (address("B"), text("new"));
    assert_eq!(
        refused(&mut pay, |p, e| p.deposit_by_address(e, &address("Z"), 7, &id)),
        Error::UserNotFound
    );
    assert_eq!(
        refused(&mut pay, |p, e| p.deposit_by_address(e, &b, 0, &id)),
        Error::InvalidAmount
    );
    assert_eq!(
        refused(&mut pay, |p, e| p.deposit_by_address(e, &b, 7, &text("first"))),
        Error::DepositAlreadyProcessed
    );
    assert!(pay.can_deposit_by_address(&b, 7, &id));
    let actions = granted(&mut pay, |p, e| p.deposit_by_address(e, &b, 7, &id));
    assert_eq!(
        actions.last(),
        Some(&Action::Publish(Event::DepositByAddress {
            username: text("bob"),
            amount: 7,
            address: b.clone(),
            deposit_id: id.clone(),
        }))
    );
    assert_eq!(balance(&pay, "bob"), 7);
    assert_eq!(pay.total_internal_balance(), 1_000_007);
    // The two kinds of deposit share their ids.
    assert_eq!(
        refused(&mut pay, |p, e| p.deposit(e, &text("bob"), 7, &id)),
        Error::DepositAlreadyProcessed
    );
}

#[test]
fn deposit_id_stays_used_through_other_requests() {
    let mut pay = populated();
    granted(&mut pay, |p, e| p.withdraw(e, &text("ann"), 1_000_000, &address("OUT")));
    granted(&mut pay, |p, e| p.deregister_user(e, &text("ann")));
    granted(&mut pay, |p, e| p.register_user(e, &text("ann"), &address("A9")));
    granted(&mut pay, |p, e| p.pause(e));
    granted(&mut pay, |p, e| p.unpause(e));
    assert_eq!(
        refused(&mut pay, |p, e| p.deposit(e, &text("ann"), 3, &text("first"))),
        Error::DepositAlreadyProcessed
    );
}

// Withdrawals.

#[test]
fn withdrawal_sends_what_it_debits() {
    let mut pay = populated();
    let out = address("OUT");
    let actions = granted(&mut pay, |p, e| p.withdraw(e, &text("ann"), 400_000, &out));
    let mut expected = entry_actions();
    expected.push(renew(DataKey::Balance(text("ann"))));
    expected.push(Action::Put(Entry::Balance(text("ann"), 600_000)));
    expected.push(renew(DataKey::Balance(text("ann"))));
    expected.extend(user_renewals("ann", "A"));
    expected.push(Action::Put(Entry::TotalBalance(600_000)));
    expected.push(Action::UsdcTransfer {
        token: address("USDC"),
        to: out.clone(),
        amount: 400_000,
    });
    expected.push(Action::Publish(Event::Withdraw {
        username: text("ann"),
        amount: 400_000,
        to_address: out,
    }));
    assert_eq!(actions, expected);
    assert_eq!(sent(&actions), 400_000);
    assert_eq!(balance(&pay, "bob"), 0);
}

#[test]
fn withdrawals_are_checked_in_order() {
    let mut pay = populated();
    let (ann, out) = (text("ann"), address("OUT"));
    granted(&mut pay, |p, e| p.set_min_withdrawal(e, 10));
    assert_eq!(refused(&mut pay, |p, e| p.withdraw(e, &ann, 0, &out)), Error::InvalidAmount);
    assert_eq!(refused(&mut pay, |p, e| p.withdraw(e, &ann, 9, &out)), Error::BelowMinWithdrawal);
    assert_eq!(
        refused(&mut pay, |p, e| p.withdraw(e, &ann, 1_000_001, &out)),
        Error::InsufficientBalance
    );
    granted(&mut pay, |p, e| p.withdraw(e, &ann, 1_000_000, &out));
    assert_eq!(balance(&pay, "ann"), 0);
    assert_eq!(pay.total_internal_balance(), 0);
}

// Transfers.

#[test]
fn transfer_conserves_money() {
    let mut pay = populated();
    let (ann, bob) = (text("ann"), text("bob"));
    let actions = granted(&mut pay, |p, e| p.transfer(e, &ann, &bob, 100_000));
    let mut expected = entry_actions();
    expected.push(renew(DataKey::Balance(text("ann"))));
    expected.push(Action::Put(Entry::Balance(text("ann"), 900_000)));
    expected.push(renew(DataKey::Balance(text("ann"))));
    expected.extend(user_renewals("ann", "A"));
    expected.push(renew(DataKey::Balance(text("bob"))));
    expected.push(Action::Put(Entry::Balance(text("bob"), 99_700)));
    expected.push(renew(DataKey::Balance(text("bob"))));
    expected.extend(user_renewals("bob", "B"));
    expected.push(Action::Put(Entry::TotalBalance(999_700)));
    expected.push(Action::UsdcTransfer {
        token: address("USDC"),
        to: address("TREASURY"),
        amount: 300,
    });
    expected.push(Action::Publish(Event::Transfer {
        from_username: ann,
        to_username: bob,
        amount: 100_000,
        fee: 300,
    }));
    assert_eq!(actions, expected);
    assert_eq!(balance(&pay, "ann") + balance(&pay, "bob"), pay.total_internal_balance());
}

#[test]
fn fee_is_rounded_down() {
    let mut pay = populated();
    let (ann, bob) = (text("ann"), text("bob"));
    // 333 * 30 / 10_000 is less than one.
    let actions = granted(&mut pay, |p, e| p.transfer(e, &ann, &bob, 333));
    assert_eq!(sent(&actions), 0);
    assert_eq!(balance(&pay, "bob"), 333);
    assert_eq!(pay.total_internal_balance(), 1_000_000);
    // 334 * 30 / 10_000 is more than one.
    let actions = granted(&mut pay, |p, e| p.transfer(e, &ann, &bob, 334));
    assert_eq!(sent(&actions), 1);
    assert_eq!(balance(&pay, "bob"), 333 + 333);
    assert_eq!(pay.total_internal_balance(), 999_999);
}

#[test]
fn fee_is_at_most_a_twentieth() {
    let mut pay = populated();
    assert_eq!(refused(&mut pay, |p, e| p.set_fee_rate(e, 501)), Error::FeeTooHigh);
    granted(&mut pay, |p, e| p.set_fee_rate(e, 500));
    let actions = granted(&mut pay, |p, e| p.transfer(e, &text("ann"), &text("bob"), 1_000));
    assert_eq!(sent(&actions), 50);
    granted(&mut pay, |p, e| p.set_fee_rate(e, 0));
    let actions = granted(&mut pay, |p, e| p.transfer(e, &text("ann"), &text("bob"), 1_000));
    assert_eq!(sent(&actions), 0);
}

#[test]
fn transfers_are_checked_in_order() {
    let mut pay = populated();
    let (ann, bob, ghost) = (text("ann"), text("bob"), text("ghost"));
    assert_eq!(refused(&mut pay, |p, e| p.transfer(e, &ann, &ann, 0)), Error::InvalidAmount);
    assert_eq!(refused(&mut pay, |p, e| p.transfer(e, &ghost, &ghost, 1)), Error::SelfTransfer);
    assert_eq!(refused(&mut pay, |p, e| p.transfer(e, &ghost, &bob, 1)), Error::UsernameNotFound);
    assert_eq!(refused(&mut pay, |p, e| p.transfer(e, &ann, &ghost, 1)), Error::UsernameNotFound);
    assert_eq!(
        refused(&mut pay, |p, e| p.transfer(e, &bob, &ann, 1)),
        Error::InsufficientBalance
    );
    granted(&mut pay, |p, e| p.transfer(e, &ann, &bob, 1_000_000));
}

#[test]
fn fee_needs_a_treasury() {
    let mut pay = populated();
    pay.erase(&DataKey::FeeTreasury);
    assert!(pay.can_transfer(&text("ann"), &text("bob"), 10_000));
    assert_eq!(
        refused(&mut pay, |p, e| p.transfer(e, &text("ann"), &text("bob"), 10_000)),
        Error::NotInitialized
    );
    assert_eq!(balance(&pay, "ann"), 1_000_000);
    // Without a fee, no treasury is needed.
    granted(&mut pay, |p, e| p.transfer(e, &text("ann"), &text("bob"), 333));
}

// Payment links.

fn with_link(pay: &mut CheesePay) -> Text {
    let id = text("CHZ-1");
    let actions =
        granted(pay, |p, e| p.create_paylink(e, &text("bob"), &id, 20_000, &text("tea"), 200));
    let mut expected = entry_actions();
    expected.push(Action::Put(Entry::PayLink(
        id.clone(),
        PayLinkData {
            creator_username: text("bob"),
            amount: 20_000,
            note: text("tea"),
            paid: false,
            cancelled: false,
            expiration_ledger: 200,
            created_at_ledger: 100,
            payer_username: None,
            paid_at_ledger: None,
        },
    )));
    expected.push(Action::ExtendTtl {
        key: DataKey::PayLink(id.clone()),
        threshold: 103_680,
        extend_to: 207_360,
    });
    expected.push(Action::Publish(Event::PlCreate {
        creator_username: text("bob"),
        token_id: id.clone(),
        amount: 20_000,
    }));
    assert_eq!(actions, expected);
    id
}

#[test]
fn payment_is_recorded_and_made_once() {
    let mut pay = populated();
    let id = with_link(&mut pay);
    let ann = text("ann");
    let mut env = Env::new(200);
    assert!(pay.can_pay_paylink(&env, &ann, &id));
    assert_eq!(pay.pay_paylink(&mut env, &ann, &id), Ok(()));
    let link = pay.get_paylink(&id).unwrap();
    assert!(link.paid && !link.cancelled);
    assert_eq!(link.payer_username, Some(text("ann")));
    assert_eq!(link.paid_at_ledger, Some(200));
    assert_eq!(link.creator_username, text("bob"));
    assert_eq!(link.amount, 20_000);
    assert_eq!(link.created_at_ledger, 100);
    assert_eq!(sent(&env.actions), 60);
    assert_eq!(
        env.actions.last(),
        Some(&Action::Publish(Event::PlPaid {
            payer_username: text("ann"),
            creator_username: text("bob"),
            token_id: id.clone(),
            amount: 20_000,
            fee: 60,
        }))
    );
    assert_eq!(balance(&pay, "ann"), 980_000);
    assert_eq!(balance(&pay, "bob"), 19_940);
    assert_eq!(pay.total_internal_balance(), 999_940);

    assert_eq!(refused(&mut pay, |p, e| p.pay_paylink(e, &ann, &id)), Error::PayLinkAlreadyPaid);
    assert_eq!(
        refused(&mut pay, |p, e| p.cancel_paylink(e, &text("bob"), &id)),
        Error::PayLinkAlreadyPaid
    );
    assert_eq!(
        refused(&mut pay, |p, e| p.admin_cancel_paylink(e, &id)),
        Error::PayLinkAlreadyPaid
    );
    assert_eq!(balance(&pay, "ann"), 980_000);
}

#[test]
fn creator_who_pays_loses_the_fee() {
    let mut pay = populated();
    let id = text("own");
    granted(&mut pay, |p, e| p.create_paylink(e, &text("ann"), &id, 20_000, &text(""), 200));
    granted(&mut pay, |p, e| p.pay_paylink(e, &text("ann"), &id));
    assert_eq!(balance(&pay, "ann"), 999_940);
    assert_eq!(pay.total_internal_balance(), 999_940);
}

#[test]
fn link_expires_after_its_last_ledger() {
    let mut pay = populated();
    let id = with_link(&mut pay);
    let mut env = Env::new(201);
    assert_eq!(pay.pay_paylink(&mut env, &text("ann"), &id), Err(Error::PayLinkExpired));
    assert_eq!(
        refused(&mut pay, |p, e| p.create_paylink(e, &text("ann"), &text("x"), 1, &text(""), 100)),
        Error::PayLinkExpired
    );
    granted(&mut pay, |p, e| p.create_paylink(e, &text("ann"), &text("x"), 1, &text(""), 101));
}

#[test]
fn links_are_checked_in_order() {
    let mut pay = populated();
    let id = with_link(&mut pay);
    let (ann, ghost, none) = (text("ann"), text("ghost"), text("none"));
    let long = text(&"t".repeat(65));
    let note = text(&"n".repeat(256));
    let empty = text("");
    assert_eq!(
        refused(&mut pay, |p, e| p.create_paylink(e, &ann, &long, 0, &note, 200)),
        Error::InvalidTokenId
    );
    assert_eq!(
        refused(&mut pay, |p, e| p.create_paylink(e, &ann, &none, 0, &note, 200)),
        Error::InvalidAmount
    );
    assert_eq!(
        refused(&mut pay, |p, e| p.create_paylink(e, &ghost, &none, 1, &note, 200)),
        Error::UsernameNotFound
    );
    assert_eq!(
        refused(&mut pay, |p, e| p.create_paylink(e, &ann, &id, 1, &note, 1)),
        Error::PayLinkAlreadyExists
    );
    let longest = text(&"t".repeat(64));
    granted(&mut pay, |p, e| p.create_paylink(e, &ann, &longest, 1, &note, 200));

    assert_eq!(refused(&mut pay, |p, e| p.pay_paylink(e, &ann, &long)), Error::InvalidTokenId);
    assert_eq!(refused(&mut pay, |p, e| p.pay_paylink(e, &ghost, &none)), Error::UsernameNotFound);
    assert_eq!(refused(&mut pay, |p, e| p.pay_paylink(e, &ann, &none)), Error::PayLinkNotFound);
    assert_eq!(
        refused(&mut pay, |p, e| p.pay_paylink(e, &text("bob"), &id)),
        Error::InsufficientBalance
    );

    assert_eq!(
        refused(&mut pay, |p, e| p.cancel_paylink(e, &ann, &empty)),
        Error::InvalidTokenId
    );
    assert_eq!(
        refused(&mut pay, |p, e| p.cancel_paylink(e, &ann, &none)),
        Error::PayLinkNotFound
    );
    assert_eq!(
        refused(&mut pay, |p, e| p.cancel_paylink(e, &ann, &id)),
        Error::NotPayLinkCreator
    );
    assert_eq!(
        refused(&mut pay, |p, e| p.admin_cancel_paylink(e, &empty)),
        Error::InvalidTokenId
    );
    assert_eq!(
        refused(&mut pay, |p, e| p.admin_cancel_paylink(e, &none)),
        Error::PayLinkNotFound
    );
    assert_eq!(
        refused(&mut pay, |p, e| p.extend_paylink_ttl(e, &empty)),
        Error::InvalidTokenId
    );
    assert_eq!(
        refused(&mut pay, |p, e| p.extend_paylink_ttl(e, &none)),
        Error::PayLinkNotFound
    );
    let actions = granted(&mut pay, |p, e| p.extend_paylink_ttl(e, &id));
    assert_eq!(
        actions[2],
        Action::ExtendTtl {
            key: DataKey::PayLink(id.clone()),
            threshold: 103_680,
            extend_to: 207_360,
        }
    );
}

#[test]
fn cancellations_agree_and_are_final() {
    let mut by_creator = populated();
    let mut by_admin = populated();
    let id = with_link(&mut by_creator);
    with_link(&mut by_admin);
    // A pause does not stop a cancellation.
    granted(&mut by_creator, |p, e| p.pause(e));
    granted(&mut by_admin, |p, e| p.pause(e));
    let bob = text("bob");
    let creator_actions = granted(&mut by_creator, |p, e| p.cancel_paylink(e, &bob, &id));
    let admin_actions = granted(&mut by_admin, |p, e| p.admin_cancel_paylink(e, &id));
    assert_eq!(by_creator.get_paylink(&id), by_admin.get_paylink(&id));
    assert!(by_admin.get_paylink(&id).unwrap().cancelled);
    assert_eq!(creator_actions[2], admin_actions[2]);
    assert_eq!(
        creator_actions[3],
        Action::Publish(Event::PlCancel { creator_username: bob.clone(), token_id: id.clone() })
    );
    assert_eq!(
        admin_actions[3],
        Action::ExtendTtl {
            key: DataKey::PayLink(id.clone()),
            threshold: 103_680,
            extend_to: 207_360,
        }
    );
    assert_eq!(
        admin_actions[4],
        Action::Publish(Event::AdmCncl { creator_username: bob.clone(), token_id: id.clone() })
    );
    granted(&mut by_admin, |p, e| p.unpause(e));
    assert_eq!(
        refused(&mut by_admin, |p, e| p.pay_paylink(e, &text("ann"), &id)),
        Error::PayLinkCancelled
    );
    assert_eq!(
        refused(&mut by_admin, |p, e| p.cancel_paylink(e, &bob, &id)),
        Error::PayLinkCancelled
    );
    assert_eq!(
        refused(&mut by_admin, |p, e| p.admin_cancel_paylink(e, &id)),
        Error::PayLinkCancelled
    );
    assert_eq!(
        refused(&mut by_admin, |p, e| p.create_paylink(e, &bob, &id, 1, &text(""), 200)),
        Error::PayLinkAlreadyExists
    );
}

// Administration.

#[test]
fn pause_stops_money() {
    let mut pay = populated();
    let id = with_link(&mut pay);
    let actions = granted(&mut pay, |p, e| p.pause(e));
    assert_eq!(actions[2], Action::Put(Entry::Paused(true)));
    assert_eq!(actions[3], Action::Publish(Event::Paused));
    assert!(pay.is_paused());
    let (ann, bob, a) = (text("ann"), text("bob"), address("A"));
    let stop = Error::ContractPaused;
    assert_eq!(refused(&mut pay, |p, e| p.deposit(e, &ann, 1, &text("n"))), stop);
    assert_eq!(refused(&mut pay, |p, e| p.deposit_by_address(e, &a, 1, &text("n"))), stop);
    assert_eq!(refused(&mut pay, |p, e| p.withdraw(e, &ann, 1, &a)), stop);
    assert_eq!(refused(&mut pay, |p, e| p.transfer(e, &ann, &bob, 1)), stop);
    assert_eq!(
        refused(&mut pay, |p, e| p.create_paylink(e, &ann, &text("y"), 1, &text(""), 200)),
        stop
    );
    assert_eq!(refused(&mut pay, |p, e| p.pay_paylink(e, &ann, &id)), stop);
    let actions = granted(&mut pay, |p, e| p.unpause(e));
    assert_eq!(actions[2], Action::Put(Entry::Paused(false)));
    assert_eq!(actions[3], Action::Publish(Event::Unpaused));
    assert!(!pay.is_paused());
    granted(&mut pay, |p, e| p.pay_paylink(e, &ann, &id));
}

#[test]
fn settings_are_written_and_published() {
    let mut pay = ready();
    let actions = granted(&mut pay, |p, e| p.set_fee_rate(e, 45));
    let mut expected = entry_actions();
    expected.push(Action::Put(Entry::FeeRateBps(45)));
    expected.push(Action::Publish(Event::FeeSet { fee_bps: 45 }));
    assert_eq!(actions, expected);
    assert_eq!(pay.fee_rate(), 45);

    let actions = granted(&mut pay, |p, e| p.set_fee_treasury(e, &address("T2")));
    assert_eq!(actions[2], Action::Put(Entry::FeeTreasury(address("T2"))));
    assert_eq!(actions[3], Action::Publish(Event::TrsrySet { treasury: address("T2") }));
    assert_eq!(pay.get_fee_treasury(), Ok(address("T2")));

    let actions = granted(&mut pay, |p, e| p.set_usdc_token(e, &address("U2")));
    assert_eq!(actions[2], Action::Put(Entry::UsdcToken(address("U2"))));
    assert_eq!(actions[3], Action::Publish(Event::UsdcSet { token: address("U2") }));

    let actions = granted(&mut pay, |p, e| p.set_min_withdrawal(e, 12));
    assert_eq!(actions[2], Action::Put(Entry::MinWithdrawal(12)));
    assert_eq!(actions[3], Action::Publish(Event::MinWdraw { amount: 12 }));
    assert_eq!(pay.get_min_withdrawal(), 12);
    assert_eq!(refused(&mut pay, |p, e| p.set_min_withdrawal(e, -1)), Error::InvalidAmount);
    granted(&mut pay, |p, e| p.set_min_withdrawal(e, 0));

    let actions = granted(&mut pay, |p, e| p.upgrade(e, [9; 32]));
    let mut expected = entry_actions();
    expected.push(Action::UpdateWasm([9; 32]));
    assert_eq!(actions, expected);
}

#[test]
fn admin_changes_in_two_steps() {
    let mut pay = ready();
    let next = address("NEXT");
    let actions = granted(&mut pay, |p, e| p.propose_admin(e, &next));
    assert_eq!(actions[2], Action::Put(Entry::PendingAdmin(next.clone())));
    assert_eq!(actions[3], Action::Publish(Event::AdmProp { candidate: next.clone() }));
    assert_eq!(pay.get_admin(), Ok(address("ADMIN")));

    let actions = granted(&mut pay, |p, e| p.accept_admin(e));
    assert_eq!(
        actions,
        vec![
            Action::ExtendInstanceTtl { threshold: 518_400, extend_to: 1_036_800 },
            Action::RequireAuth(next.clone()),
            Action::Put(Entry::Admin(next.clone())),
            Action::Remove(DataKey::PendingAdmin),
            Action::Publish(Event::AdmAccpt { admin: next.clone() }),
        ]
    );
    assert_eq!(pay.get_admin(), Ok(next.clone()));

    let mut env = Env::new(100);
    assert_eq!(pay.accept_admin(&mut env), Err(Error::NoPendingAdmin));
    assert_eq!(env.actions, vec![]);

    // From now on the new admin signs.
    let actions = granted(&mut pay, |p, e| p.pause(e));
    assert_eq!(actions[0], Action::RequireAuth(next));
}

#[test]
fn sweep_sends_the_excess_once() {
    let mut pay = populated();
    let to = address("SAFE");
    let actions = granted(&mut pay, |p, e| p.sweep_excess(e, &to, 1_000_250));
    let mut expected = entry_actions();
    expected.push(Action::UsdcTransfer { token: address("USDC"), to: to.clone(), amount: 250 });
    expected.push(Action::Publish(Event::Sweep { excess: 250, recipient: to.clone() }));
    assert_eq!(actions, expected);
    assert_eq!(granted(&mut pay, |p, e| p.sweep_excess(e, &to, 1_000_000)), entry_actions());
    assert_eq!(granted(&mut pay, |p, e| p.sweep_excess(e, &to, 10)), entry_actions());
    assert_eq!(pay.total_internal_balance(), 1_000_000);
}

// Requests that cannot run to their end.

#[test]
fn missing_entries_are_noticed() {
    let mut pay = populated();
    let ghost = text("ghost");
    assert!(!pay.can_balance(&ghost));
    assert!(!pay.can_withdraw(&ghost, 1));
    // Checks that come before the balance is read still answer.
    assert!(pay.can_withdraw(&ghost, 0));

    let id = with_link(&mut pay);
    granted(&mut pay, |p, e| p.deregister_user(e, &text("bob")));
    assert!(!pay.can_pay_paylink(&Env::new(100), &text("ann"), &id));
    assert!(pay.can_pay_paylink(&Env::new(201), &text("ann"), &id));
    granted(&mut pay, |p, e| p.register_user(e, &text("bob"), &address("B3")));
    assert!(pay.can_pay_paylink(&Env::new(100), &text("ann"), &id));

    pay.erase(&DataKey::Balance(text("bob")));
    assert!(!pay.can_update_address(&text("bob"), &address("B4")));
    assert!(pay.can_update_address(&text("bob"), &address("B3")));
    assert!(!pay.can_extend_user_ttl(&text("bob")));
    assert!(!pay.can_batch_extend_user_ttl(&vec![text("ann"), text("bob")]));
    assert!(!pay.can_deposit(&text("bob"), 1, &text("z")));
    assert!(!pay.can_deposit_by_address(&address("B3"), 1, &text("z")));
    assert!(!pay.can_transfer(&text("ann"), &text("bob"), 1));

    pay.erase(&DataKey::UsdcToken);
    assert!(!pay.can_withdraw(&text("ann"), 1));
    assert!(!pay.can_sweep_excess(0));
}

#[test]
fn numbers_that_do_not_fit_are_noticed() {
    let pay = populated();
    let (ann, bob) = (text("ann"), text("bob"));
    assert!(pay.can_deposit(&ann, i128::MAX - 1_000_000, &text("z")));
    assert!(!pay.can_deposit(&ann, i128::MAX - 999_999, &text("z")));
    // The id is refused before anything is summed.
    assert!(pay.can_deposit(&ann, i128::MAX, &text("first")));
    assert!(pay.can_transfer(&ann, &bob, i128::MAX / 30));
    assert!(!pay.can_transfer(&ann, &bob, i128::MAX / 30 + 1));
    assert!(pay.can_sweep_excess(0));
    assert!(!pay.can_sweep_excess(i128::MIN));
}

// Actions.

#[test]
fn actions_bring_about_the_state() {
    let mut pay = CheesePay::new();
    let mut copy = CheesePay::new();
    let mut env = Env::new(100);
    let (ann, bob, id) = (text("ann"), text("bob"), text("CHZ-1"));
    assert_eq!(
        pay.initialize(&mut env, &address("ADMIN"), &address("USDC"), 30, &address("T")),
        Ok(())
    );
    assert_eq!(pay.register_user(&mut env, &ann, &address("A")), Ok(()));
    assert_eq!(pay.register_user(&mut env, &bob, &address("B")), Ok(()));
    assert_eq!(pay.deposit(&mut env, &ann, 1_000_000, &text("d")), Ok(()));
    assert_eq!(pay.transfer(&mut env, &ann, &bob, 50_000), Ok(()));
    assert_eq!(pay.create_paylink(&mut env, &bob, &id, 10_000, &text(""), 300), Ok(()));
    assert_eq!(pay.pay_paylink(&mut env, &ann, &id), Ok(()));
    assert_eq!(pay.update_address(&mut env, &bob, &address("B2")), Ok(()));
    assert_eq!(pay.withdraw(&mut env, &ann, 1_000, &address("OUT")), Ok(()));
    assert_eq!(pay.propose_admin(&mut env, &address("NEXT")), Ok(()));
    assert_eq!(pay.accept_admin(&mut env), Ok(()));
    for action in &env.actions {
        match action {
            Action::Put(entry) => copy.store(entry.clone()),
            Action::Remove(key) => copy.erase(key),
            _ => (),
        }
    }
    assert_eq!(copy.get_admin(), pay.get_admin());
    assert_eq!(copy.get_pending_admin(), None);
    assert_eq!(copy.total_internal_balance(), pay.total_internal_balance());
    assert_eq!(copy.get_paylink(&id), pay.get_paylink(&id));
    assert_eq!(copy.resolve_username(&bob), Ok(address("B2")));
    assert!(!copy.is_address_registered(&address("B")));
    assert_eq!(balance(&copy, "ann"), balance(&pay, "ann"));
    assert_eq!(balance(&copy, "bob"), balance(&pay, "bob"));
    // What was booked, less what was sent, is the total.
    assert_eq!(1_000_000 - sent(&env.actions), pay.total_internal_balance());
    assert_eq!(balance(&pay, "ann") + balance(&pay, "bob"), pay.total_internal_balance());
}

#[test]
fn asking_for_a_balance_renews_it() {
    let pay = populated();
    let mut env = Env::new(7);
    assert_eq!(pay.balance(&mut env, &text("ann")), 1_000_000);
    assert_eq!(env.actions, vec![renew(DataKey::Balance(text("ann")))]);
    assert_eq!(env.sequence, 7);
}

#[test]
fn events_have_their_topics() {
    let (t, a) = (text("x"), address("A"));
    let topic = |event: Event| event.topic();
    assert_eq!(topic(Event::RegUser { username: t.clone(), address: a.clone() }), "reg_user");
    assert_eq!(topic(Event::Dereg { username: t.clone(), address: a.clone() }), "dereg");
    assert_eq!(
        topic(Event::UpdAddr {
            username: t.clone(),
            old_address: a.clone(),
            new_address: a.clone(),
        }),
        "upd_addr"
    );
    assert_eq!(
        topic(Event::Deposit { username: t.clone(), amount: 1, deposit_id: t.clone() }),
        "deposit"
    );
    assert_eq!(
        topic(Event::DepositByAddress {
            username: t.clone(),
            amount: 1,
            address: a.clone(),
            deposit_id: t.clone(),
        }),
        "deposit"
    );
    assert_eq!(
        topic(Event::Withdraw { username: t.clone(), amount: 1, to_address: a.clone() }),
        "withdraw"
    );
    assert_eq!(
        topic(Event::Transfer {
            from_username: t.clone(),
            to_username: t.clone(),
            amount: 1,
            fee: 0,
        }),
        "transfer"
    );
    assert_eq!(
        topic(Event::PlCreate { creator_username: t.clone(), token_id: t.clone(), amount: 1 }),
        "pl_create"
    );
    assert_eq!(
        topic(Event::PlPaid {
            payer_username: t.clone(),
            creator_username: t.clone(),
            token_id: t.clone(),
            amount: 1,
            fee: 0,
        }),
        "pl_paid"
    );
    assert_eq!(
        topic(Event::PlCancel { creator_username: t.clone(), token_id: t.clone() }),
        "pl_cancel"
    );
    assert_eq!(
        topic(Event::AdmCncl { creator_username: t.clone(), token_id: t.clone() }),
        "adm_cncl"
    );
    assert_eq!(topic(Event::FeeSet { fee_bps: 1 }), "fee_set");
    assert_eq!(topic(Event::TrsrySet { treasury: a.clone() }), "trsry_set");
    assert_eq!(topic(Event::UsdcSet { token: a.clone() }), "usdc_set");
    assert_eq!(topic(Event::MinWdraw { amount: 1 }), "min_wdraw");
    assert_eq!(topic(Event::AdmProp { candidate: a.clone() }), "adm_prop");
    assert_eq!(topic(Event::AdmAccpt { admin: a.clone() }), "adm_accpt");
    assert_eq!(topic(Event::Paused), "paused");
    assert_eq!(topic(Event::Unpaused), "unpaused");
    assert_eq!(topic(Event::Sweep { excess: 1, recipient: a }), "sweep");
}

#[test]
fn contract_stays_solvent() {
    let mut pay = ready();
    let mut held: i128 = 0;
    let (ann, bob) = (text("ann"), text("bob"));
    granted(&mut pay, |p, e| p.register_user(e, &ann, &address("A")));
    granted(&mut pay, |p, e| p.register_user(e, &bob, &address("B")));

    held += 500_000;
    held -= sent(&granted(&mut pay, |p, e| p.deposit(e, &ann, 500_000, &text("1"))));
    assert_eq!(held, pay.total_internal_balance());
    held -= sent(&granted(&mut pay, |p, e| p.transfer(e, &ann, &bob, 100_001)));
    assert_eq!(held, pay.total_internal_balance());
    assert_eq!(held, 499_700);
    held -= sent(&granted(&mut pay, |p, e| p.withdraw(e, &bob, 700, &address("OUT"))));
    assert_eq!(held, pay.total_internal_balance());

    // What arrives without being booked is excess.
    held += 40;
    held -= sent(&granted(&mut pay, |p, e| p.sweep_excess(e, &address("SAFE"), 499_040)));
    assert_eq!(held, 499_000);
    assert_eq!(held, pay.total_internal_balance());
    assert_eq!(held, balance(&pay, "ann") + balance(&pay, "bob"));
}

#[test]
fn deposit_record_has_a_fixed_life() {
    let mut pay = populated();
    let prolonged = |actions: &[Action]| {
        actions
            .iter()
            .filter(|action| match action {
                Action::FixTtl { key, .. } => matches!(key, DataKey::ProcessedDeposit(_)),
                Action::ExtendTtl { key, .. } => matches!(key, DataKey::ProcessedDeposit(_)),
                _ => false,
            })
            .count()
    };
    let actions = granted(&mut pay, |p, e| p.deposit(e, &text("ann"), 5, &text("2")));
    assert_eq!(prolonged(&actions), 1);
    let actions = granted(&mut pay, |p, e| p.withdraw(e, &text("ann"), 5, &address("OUT")));
    assert_eq!(prolonged(&actions), 0);
    let actions = granted(&mut pay, |p, e| p.extend_user_ttl(e, &text("ann")));
    assert_eq!(prolonged(&actions), 0);
}

#[test]
fn only_named_entries_decide() {
    let mut whole = populated();
    granted(&mut whole, |p, e| p.register_user(e, &text("cid"), &address("C")));
    granted(&mut whole, |p, e| p.deposit(e, &text("cid"), 77, &text("other")));

    // What a transfer from ann to bob is about, and nothing of cid.
    let mut part = CheesePay::new();
    part.store(Entry::Admin(address("ADMIN")));
    part.store(Entry::UsdcToken(address("USDC")));
    part.store(Entry::FeeRateBps(30));
    part.store(Entry::FeeTreasury(address("TREASURY")));
    part.store(Entry::Paused(false));
    part.store(Entry::TotalBalance(1_000_077));
    part.store(Entry::MinWithdrawal(0));
    part.store(Entry::UsernameToAddr(text("ann"), address("A")));
    part.store(Entry::AddrToUsername(address("A"), text("ann")));
    part.store(Entry::Balance(text("ann"), 1_000_000));
    part.store(Entry::UsernameToAddr(text("bob"), address("B")));
    part.store(Entry::AddrToUsername(address("B"), text("bob")));
    part.store(Entry::Balance(text("bob"), 0));

    let (ann, bob) = (text("ann"), text("bob"));
    let from_whole = granted(&mut whole, |p, e| p.transfer(e, &ann, &bob, 50_000));
    let from_part = granted(&mut part, |p, e| p.transfer(e, &ann, &bob, 50_000));
    assert_eq!(from_whole, from_part);
}

#[test]
fn link_is_paid_between_its_creation_and_its_last_ledger() {
    // At the ledger at which it is created, and at the last one.
    for ledger in [100, 200] {
        let mut pay = populated();
        let id = with_link(&mut pay);
        assert_eq!(pay.pay_paylink(&mut Env::new(ledger), &text("ann"), &id), Ok(()));
        let link = pay.get_paylink(&id).unwrap();
        assert_eq!(link.created_at_ledger, 100);
        assert_eq!(link.paid_at_ledger, Some(ledger));
        assert!(link.created_at_ledger <= ledger && ledger <= link.expiration_ledger);
    }
}
