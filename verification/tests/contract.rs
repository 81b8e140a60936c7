//! The contract as its users see it: whole sequences of requests.

use cheese_pay::{Action, Address, CheesePay, Env, Error, PayLinkData, Text};

fn text(s: &str) -> Text {
    Text::from_str(s)
}

/// A chain with the contract on it and a USDC token: it performs the actions that
/// the contract asks for.
struct Chain {
    pay: CheesePay,
    sequence: u32,
    contract: Address,
    usdc: Vec<(Address, i128)>,
    made: u32,
}

impl Chain {
    fn new() -> Chain {
        Chain {
            pay: CheesePay::new(),
            sequence: 0,
            contract: Address::new(text("CONTRACT")),
            usdc: Vec::new(),
            made: 0,
        }
    }

    fn address(&mut self) -> Address {
        self.made += 1;
        Address::new(text(&format!("G{:055}", self.made)))
    }

    fn usdc_balance(&self, owner: &Address) -> i128 {
        self.usdc.iter().filter(|(a, _)| a == owner).map(|(_, n)| *n).sum()
    }

    fn mint(&mut self, owner: &Address, amount: i128) {
        self.usdc.push((owner.clone(), amount));
    }

    fn mint_to_contract(&mut self, amount: i128) {
        let contract = self.contract.clone();
        self.mint(&contract, amount);
    }

    fn invoke<T>(&mut self, request: impl FnOnce(&mut CheesePay, &mut Env) -> T) -> T {
        let mut env = Env::new(self.sequence);
        let answer = request(&mut self.pay, &mut env);
        for action in &env.actions {
            if let Action::UsdcTransfer { to, amount, .. } = action {
                assert!(self.usdc_balance(&self.contract) >= *amount);
                self.usdc.push((self.contract.clone(), -*amount));
                self.usdc.push((to.clone(), *amount));
            }
        }
        answer
    }

    fn register_user(&mut self, username: &Text, address: &Address) -> Result<(), Error> {
        self.invoke(|pay, env| pay.register_user(env, username, address))
    }

    fn register(&mut self, username: &Text) {
        let address = self.address();
        assert_eq!(self.register_user(username, &address), Ok(()));
    }

    fn deposit(&mut self, username: &Text, amount: i128, id: &Text) -> Result<(), Error> {
        assert!(self.pay.can_deposit(username, amount, id));
        self.invoke(|pay, env| pay.deposit(env, username, amount, id))
    }

    fn mint_and_deposit(&mut self, username: &Text, amount: i128, id: &Text) {
        self.mint_to_contract(amount);
        assert_eq!(self.deposit(username, amount, id), Ok(()));
    }

    fn withdraw(&mut self, username: &Text, amount: i128, to: &Address) -> Result<(), Error> {
        assert!(self.pay.can_withdraw(username, amount));
        self.invoke(|pay, env| pay.withdraw(env, username, amount, to))
    }

    fn transfer(&mut self, from: &Text, to: &Text, amount: i128) -> Result<(), Error> {
        assert!(self.pay.can_transfer(from, to, amount));
        self.invoke(|pay, env| pay.transfer(env, from, to, amount))
    }

    fn create_paylink(
        &mut self,
        creator: &Text,
        token_id: &Text,
        amount: i128,
        note: &Text,
        expiry: u32,
    ) -> Result<(), Error> {
        self.invoke(|pay, env| pay.create_paylink(env, creator, token_id, amount, note, expiry))
    }

    fn pay_paylink(&mut self, payer: &Text, token_id: &Text) -> Result<(), Error> {
        assert!(self.pay.can_pay_paylink(&Env::new(self.sequence), payer, token_id));
        self.invoke(|pay, env| pay.pay_paylink(env, payer, token_id))
    }

    fn update_address(&mut self, username: &Text, address: &Address) -> Result<(), Error> {
        assert!(self.pay.can_update_address(username, address));
        self.invoke(|pay, env| pay.update_address(env, username, address))
    }

    fn balance(&mut self, username: &Text) -> i128 {
        assert!(self.pay.can_balance(username));
        self.invoke(|pay, env| pay.balance(env, username))
    }

    fn paylink(&self, token_id: &Text) -> PayLinkData {
        self.pay.get_paylink(token_id).unwrap()
    }
}

/// A chain with the contract set up, its token, its admin and its treasury.
fn setup() -> (Chain, Address, Address, Address) {
    let mut chain = Chain::new();
    let admin = chain.address();
    let treasury = chain.address();
    let usdc = chain.address();
    let answer = chain.invoke(|pay, env| pay.initialize(env, &admin, &usdc, 30, &treasury));
    assert_eq!(answer, Ok(()));
    (chain, usdc, admin, treasury)
}

// Registration.

#[test]
fn test_register_and_deposit() {
    let (mut chain, _, _, _) = setup();
    let user = text("temi");
    chain.register(&user);

    chain.mint_and_deposit(&user, 10_000_000, &text("d1"));

    assert_eq!(chain.balance(&user), 10_000_000);
    assert_eq!(chain.pay.total_internal_balance(), 10_000_000);
    assert!(chain.pay.is_registered(&user));
}

#[test]
fn test_invalid_username_rejected() {
    let (mut chain, _, _, _) = setup();

    // No bytes at all.
    let address = chain.address();
    assert_eq!(chain.register_user(&text(""), &address), Err(Error::InvalidUsername));

    // More than 32 bytes.
    let long = text("this_username_is_way_too_long_123");
    let address = chain.address();
    assert_eq!(chain.register_user(&long, &address), Err(Error::InvalidUsername));
}

#[test]
fn test_batch_register_users() {
    let (mut chain, _, _, _) = setup();
    let usernames = vec![text("akin"), text("bola"), text("chidi")];
    let addresses = vec![chain.address(), chain.address(), chain.address()];

    let answer = chain.invoke(|pay, env| pay.batch_register_users(env, &usernames, &addresses));
    assert_eq!(answer, Ok(()));

    assert!(chain.pay.is_registered(&text("akin")));
    assert!(chain.pay.is_registered(&text("bola")));
    assert!(chain.pay.is_registered(&text("chidi")));
}

#[test]
fn test_batch_length_mismatch() {
    let (mut chain, _, _, _) = setup();
    let usernames = vec![text("akin"), text("bola")];
    let addresses = vec![chain.address()];

    let answer = chain.invoke(|pay, env| pay.batch_register_users(env, &usernames, &addresses));
    assert_eq!(answer, Err(Error::BatchLengthMismatch));
}

#[test]
fn test_deregister_user() {
    let (mut chain, _, _, _) = setup();
    let user = text("temi");
    chain.register(&user);
    assert!(chain.pay.is_registered(&user));

    assert_eq!(chain.invoke(|pay, env| pay.deregister_user(env, &user)), Ok(()));

    assert!(!chain.pay.is_registered(&user));
}

#[test]
fn test_deregister_user_with_balance_fails() {
    let (mut chain, _, _, _) = setup();
    let user = text("temi");
    chain.register(&user);
    chain.mint_and_deposit(&user, 1_000_000, &text("d1"));

    let answer = chain.invoke(|pay, env| pay.deregister_user(env, &user));
    assert_eq!(answer, Err(Error::NonZeroBalance));
}

#[test]
fn test_update_address() {
    let (mut chain, _, _, _) = setup();
    let user = text("temi");
    let old_addr = chain.address();
    let new_addr = chain.address();

    assert_eq!(chain.register_user(&user, &old_addr), Ok(()));
    assert!(chain.pay.is_address_registered(&old_addr));
    assert!(!chain.pay.is_address_registered(&new_addr));

    assert_eq!(chain.update_address(&user, &new_addr), Ok(()));

    assert!(!chain.pay.is_address_registered(&old_addr));
    assert!(chain.pay.is_address_registered(&new_addr));
    assert_eq!(chain.pay.resolve_username(&user), Ok(new_addr.clone()));
    assert_eq!(chain.pay.get_username(&new_addr), Ok(user));
}

#[test]
fn test_update_address_noop_when_same() {
    let (mut chain, _, _, _) = setup();
    let user = text("temi");
    let addr = chain.address();
    assert_eq!(chain.register_user(&user, &addr), Ok(()));

    assert_eq!(chain.update_address(&user, &addr), Ok(()));
    assert_eq!(chain.pay.resolve_username(&user), Ok(addr));
}

#[test]
fn test_update_address_taken_fails() {
    let (mut chain, _, _, _) = setup();
    let user_a = text("temi");
    let user_b = text("ade");
    let addr_a = chain.address();
    let addr_b = chain.address();

    assert_eq!(chain.register_user(&user_a, &addr_a), Ok(()));
    assert_eq!(chain.register_user(&user_b, &addr_b), Ok(()));

    assert_eq!(chain.update_address(&user_a, &addr_b), Err(Error::UserAlreadyRegistered));
}

// Deposits.

#[test]
fn test_duplicate_deposit_rejected() {
    let (mut chain, _, _, _) = setup();
    let user = text("temi");
    chain.register(&user);
    chain.mint_to_contract(20_000_000);

    let id = text("horizon-tx-abc123");
    assert_eq!(chain.deposit(&user, 10_000_000, &id), Ok(()));

    // The same deposit id a second time must fail.
    assert_eq!(chain.deposit(&user, 10_000_000, &id), Err(Error::DepositAlreadyProcessed));

    // The balance must remain unchanged.
    assert_eq!(chain.balance(&user), 10_000_000);
}

#[test]
fn test_distinct_deposit_ids_accepted() {
    let (mut chain, _, _, _) = setup();
    let user = text("temi");
    chain.register(&user);
    chain.mint_to_contract(20_000_000);

    assert_eq!(chain.deposit(&user, 10_000_000, &text("dep-001")), Ok(()));
    assert_eq!(chain.deposit(&user, 10_000_000, &text("dep-002")), Ok(()));

    assert_eq!(chain.balance(&user), 20_000_000);
}

// Transfers.

#[test]
fn test_transfer_with_fee() {
    let (mut chain, _, _, treasury) = setup();
    let user_a = text("temi");
    let user_b = text("ade");
    chain.register(&user_a);
    chain.register(&user_b);

    chain.mint_and_deposit(&user_a, 10_000_000, &text("d1"));

    // 30 basis points of 10_000_000 are 30_000.
    assert_eq!(chain.transfer(&user_a, &user_b, 10_000_000), Ok(()));

    assert_eq!(chain.balance(&user_a), 0);
    assert_eq!(chain.balance(&user_b), 9_970_000);
    assert_eq!(chain.pay.total_internal_balance(), 9_970_000);

    assert_eq!(chain.usdc_balance(&treasury), 30_000);
}

#[test]
fn test_self_transfer_rejected() {
    let (mut chain, _, _, _) = setup();
    let user = text("temi");
    chain.register(&user);
    chain.mint_and_deposit(&user, 5_000_000, &text("d1"));

    assert_eq!(chain.transfer(&user, &user, 1_000_000), Err(Error::SelfTransfer));
}

// Withdrawals.

#[test]
fn test_withdraw_on_chain() {
    let (mut chain, _, _, _) = setup();
    let user = text("temi");
    let dest = chain.address();
    chain.register(&user);
    chain.mint_and_deposit(&user, 10_000_000, &text("d1"));

    assert_eq!(chain.withdraw(&user, 6_000_000, &dest), Ok(()));

    assert_eq!(chain.balance(&user), 4_000_000);
    assert_eq!(chain.pay.total_internal_balance(), 4_000_000);

    assert_eq!(chain.usdc_balance(&dest), 6_000_000);
}

#[test]
fn test_min_withdrawal_enforced() {
    let (mut chain, _, _, _) = setup();
    let user = text("temi");
    let dest = chain.address();
    chain.register(&user);
    chain.mint_and_deposit(&user, 10_000_000, &text("d1"));

    assert_eq!(chain.invoke(|pay, env| pay.set_min_withdrawal(env, 1_000_000)), Ok(()));

    // Below the minimum.
    assert_eq!(chain.withdraw(&user, 500_000, &dest), Err(Error::BelowMinWithdrawal));

    // Exactly the minimum.
    assert_eq!(chain.withdraw(&user, 1_000_000, &dest), Ok(()));
    assert_eq!(chain.balance(&user), 9_000_000);
}

// Payment links.

#[test]
fn test_paylink_flow_with_metadata() {
    let (mut chain, _, _, _) = setup();
    let creator = text("seun");
    let payer = text("kolade");
    let token_id = text("CHZ-abc123");
    let note = text("Dinner split");

    chain.register(&creator);
    chain.register(&payer);

    chain.mint_to_contract(5_000_000);
    assert_eq!(chain.deposit(&payer, 5_000_000, &text("d1")), Ok(()));

    let expiry = chain.sequence + 103_680;
    assert_eq!(chain.create_paylink(&creator, &token_id, 5_000_000, &note, expiry), Ok(()));

    let link_before = chain.paylink(&token_id);
    assert_eq!(link_before.created_at_ledger, chain.sequence);
    assert_eq!(link_before.payer_username, None);
    assert_eq!(link_before.paid_at_ledger, None);

    assert_eq!(chain.pay_paylink(&payer, &token_id), Ok(()));

    let link_after = chain.paylink(&token_id);
    assert!(link_after.paid);
    assert_eq!(link_after.payer_username, Some(payer.clone()));
    assert_eq!(link_after.paid_at_ledger, Some(chain.sequence));

    assert_eq!(chain.balance(&payer), 0);
    assert!(chain.balance(&creator) > 0);
}

#[test]
fn test_admin_cancel_paylink() {
    let (mut chain, _, _, _) = setup();
    let creator = text("seun");
    let payer = text("kolade");
    let token_id = text("CHZ-fraud");
    let note = text("");

    chain.register(&creator);
    chain.register(&payer);
    chain.mint_to_contract(5_000_000);
    assert_eq!(chain.deposit(&payer, 5_000_000, &text("d1")), Ok(()));

    let expiry = chain.sequence + 103_680;
    assert_eq!(chain.create_paylink(&creator, &token_id, 5_000_000, &note, expiry), Ok(()));

    // The admin cancels regardless of who created the link.
    assert_eq!(chain.invoke(|pay, env| pay.admin_cancel_paylink(env, &token_id)), Ok(()));

    let link = chain.paylink(&token_id);
    assert!(link.cancelled);

    // It can no longer be paid.
    assert_eq!(chain.pay_paylink(&payer, &token_id), Err(Error::PayLinkCancelled));
}

#[test]
fn test_extend_paylink_ttl() {
    let (mut chain, _, _, _) = setup();
    let creator = text("seun");
    let token_id = text("CHZ-longrun");
    let note = text("");

    chain.register(&creator);

    let expiry = chain.sequence + 103_680;
    assert_eq!(chain.create_paylink(&creator, &token_id, 1_000_000, &note, expiry), Ok(()));

    assert_eq!(chain.invoke(|pay, env| pay.extend_paylink_ttl(env, &token_id)), Ok(()));
}

#[test]
fn test_invalid_token_id_rejected() {
    let (mut chain, _, _, _) = setup();
    let creator = text("seun");
    chain.register(&creator);

    let note = text("");
    let expiry = chain.sequence + 103_680;

    let answer = chain.create_paylink(&creator, &text(""), 1_000_000, &note, expiry);
    assert_eq!(answer, Err(Error::InvalidTokenId));
}

#[test]
#[should_panic]
fn test_double_payment_prevented() {
    let (mut chain, _, _, _) = setup();
    let creator = text("seun");
    let payer = text("kolade");
    let token_id = text("CHZ-xyz");
    let note = text("");

    chain.register(&creator);
    chain.register(&payer);
    chain.mint_to_contract(20_000_000);
    assert_eq!(chain.deposit(&payer, 20_000_000, &text("d1")), Ok(()));

    let expiry = chain.sequence + 103_680;
    assert_eq!(chain.create_paylink(&creator, &token_id, 5_000_000, &note, expiry), Ok(()));
    if chain.pay_paylink(&payer, &token_id).is_err() {
        return;
    }
    chain.pay_paylink(&payer, &token_id).unwrap();
}

// Administration.

#[test]
fn test_propose_accept_admin() {
    let (mut chain, _, _, _) = setup();
    let new_admin = chain.address();

    assert_eq!(chain.invoke(|pay, env| pay.propose_admin(env, &new_admin)), Ok(()));
    assert_eq!(chain.pay.get_pending_admin(), Some(new_admin.clone()));

    assert_eq!(chain.invoke(|pay, env| pay.accept_admin(env)), Ok(()));
    assert_eq!(chain.pay.get_admin(), Ok(new_admin));
    assert_eq!(chain.pay.get_pending_admin(), None);
}

#[test]
fn test_accept_admin_without_proposal_fails() {
    let (mut chain, _, _, _) = setup();

    assert_eq!(chain.invoke(|pay, env| pay.accept_admin(env)), Err(Error::NoPendingAdmin));
}

// Questions.

#[test]
fn test_view_functions() {
    let (mut chain, usdc_addr, admin, treasury) = setup();

    assert_eq!(chain.pay.get_admin(), Ok(admin));
    assert_eq!(chain.pay.get_fee_treasury(), Ok(treasury));
    assert_eq!(chain.pay.get_usdc_token(), Ok(usdc_addr));
    assert_eq!(chain.pay.get_min_withdrawal(), 0);
    assert_eq!(chain.pay.fee_rate(), 30);
    assert!(!chain.pay.is_paused());

    let user = text("temi");
    assert!(!chain.pay.is_registered(&user));
    chain.register(&user);
    assert!(chain.pay.is_registered(&user));
}

#[test]
fn test_is_address_registered() {
    let (mut chain, _, _, _) = setup();
    let addr = chain.address();
    assert!(!chain.pay.is_address_registered(&addr));

    assert_eq!(chain.register_user(&text("temi"), &addr), Ok(()));
    assert!(chain.pay.is_address_registered(&addr));
}

#[test]
fn test_set_usdc_token() {
    let (mut chain, _, _, _) = setup();
    let new_token = chain.address();

    assert_eq!(chain.invoke(|pay, env| pay.set_usdc_token(env, &new_token)), Ok(()));
    assert_eq!(chain.pay.get_usdc_token(), Ok(new_token));
}

#[test]
fn test_sweep_excess() {
    let (mut chain, _, _, _) = setup();
    let recipient = chain.address();
    let user = text("temi");
    chain.register(&user);

    // 15 USDC arrive, but only 10 of them are deposited.
    chain.mint_to_contract(15_000_000);
    assert_eq!(chain.deposit(&user, 10_000_000, &text("d1")), Ok(()));

    let held = chain.usdc_balance(&chain.contract);
    assert!(chain.pay.can_sweep_excess(held));
    assert_eq!(chain.invoke(|pay, env| pay.sweep_excess(env, &recipient, held)), Ok(()));

    assert_eq!(chain.usdc_balance(&recipient), 5_000_000);
    assert_eq!(chain.balance(&user), 10_000_000);
    assert_eq!(chain.pay.total_internal_balance(), 10_000_000);
}

// Limits.

#[test]
fn test_note_too_long_rejected() {
    let (mut chain, _, _, _) = setup();
    let creator = text("seun");
    let token_id = text("CHZ-note");
    // One byte over the limit.
    let long_note = text(&"x".repeat(257));
    let expiry = chain.sequence + 103_680;

    chain.register(&creator);

    let answer = chain.create_paylink(&creator, &token_id, 1_000_000, &long_note, expiry);
    assert_eq!(answer, Err(Error::NoteTooLong));
}

#[test]
fn test_batch_too_large_rejected() {
    let (mut chain, _, _, _) = setup();

    // One entry over the limit. That all entries have one name does not matter,
    // for the size is checked first.
    let mut usernames = Vec::new();
    let mut addresses = Vec::new();
    for _ in 0u32..51 {
        usernames.push(text("x"));
        addresses.push(chain.address());
    }

    let answer = chain.invoke(|pay, env| pay.batch_register_users(env, &usernames, &addresses));
    assert_eq!(answer, Err(Error::BatchTooLarge));
}

// Renewals.

#[test]
fn test_extend_user_ttl() {
    let (mut chain, _, _, _) = setup();
    let user = text("temi");
    chain.register(&user);
    assert!(chain.pay.can_extend_user_ttl(&user));
    assert_eq!(chain.invoke(|pay, env| pay.extend_user_ttl(env, &user)), Ok(()));
}

#[test]
fn test_batch_extend_user_ttl() {
    let (mut chain, _, _, _) = setup();
    let user_a = text("temi");
    let user_b = text("ade");
    chain.register(&user_a);
    chain.register(&user_b);

    // Names that are not registered are skipped.
    let batch = vec![user_a.clone(), user_b.clone(), text("ghost")];
    assert!(chain.pay.can_batch_extend_user_ttl(&batch));
    assert_eq!(chain.invoke(|pay, env| pay.batch_extend_user_ttl(env, &batch)), Ok(()));
}
