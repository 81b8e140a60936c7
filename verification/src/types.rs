//! The ledger's vocabulary: errors, storage entries, events, and the actions
//! that an invocation asks of the chain.

use vstd::prelude::*;

use crate::text::{Address, Text};

verus! {

/// Instance and user entries are renewed when fewer ledgers than this are left
/// to them (about 30 days).
pub const LEDGER_TTL_THRESHOLD: u32 = 518_400;

/// The time to live that a renewal gives to instance and user entries (about 60
/// days).
pub const LEDGER_TTL_EXTEND_TO: u32 = 1_036_800;

/// Payment links are renewed when fewer ledgers than this are left to them
/// (about 6 days).
pub const PAYLINK_TTL_THRESHOLD: u32 = 103_680;

/// The time to live that a renewal gives to a payment link (about 12 days).
pub const PAYLINK_TTL_EXTEND_TO: u32 = 207_360;

/// The time to live of a deposit id, which is never renewed (about 30 days).
pub const DEPOSIT_ID_TTL: u32 = 518_400;

/// The least number of bytes in a username.
pub const USERNAME_MIN_LEN: u32 = 1;

/// The greatest number of bytes in a username.
pub const USERNAME_MAX_LEN: u32 = 32;

/// The least number of bytes in a payment link id.
pub const TOKEN_ID_MIN_LEN: u32 = 1;

/// The greatest number of bytes in a payment link id.
pub const TOKEN_ID_MAX_LEN: u32 = 64;

/// The greatest number of bytes in the note of a payment link.
pub const NOTE_MAX_LEN: u32 = 256;

/// The greatest number of entries in a batch.
pub const BATCH_MAX_SIZE: u32 = 50;

/// The highest fee rate, in basis points.
pub const FEE_RATE_MAX_BPS: u32 = 500;

/// Why a request is refused.
#[derive(Clone, Copy, Debug, PartialEq, Eq, Structural)]
pub enum Error {
    AlreadyInitialized,
    NotInitialized,
    ContractPaused,
    InsufficientBalance,
    InvalidAmount,
    PayLinkNotFound,
    PayLinkAlreadyPaid,
    PayLinkCancelled,
    PayLinkAlreadyExists,
    PayLinkExpired,
    NotPayLinkCreator,
    FeeTooHigh,
    UsernameTaken,
    UsernameNotFound,
    UserAlreadyRegistered,
    UserNotFound,
    SelfTransfer,
    NonZeroBalance,
    InvalidUsername,
    InvalidTokenId,
    BelowMinWithdrawal,
    DepositAlreadyProcessed,
    NoPendingAdmin,
    BatchLengthMismatch,
    NoteTooLong,
    BatchTooLarge,
}

/// The number that stands for an error on the chain.
pub open spec fn error_code(error: Error) -> u32 {
    match error {
        Error::AlreadyInitialized => 1,
        Error::NotInitialized => 2,
        Error::ContractPaused => 3,
        Error::InsufficientBalance => 5,
        Error::InvalidAmount => 6,
        Error::PayLinkNotFound => 7,
        Error::PayLinkAlreadyPaid => 8,
        Error::PayLinkCancelled => 9,
        Error::PayLinkAlreadyExists => 10,
        Error::PayLinkExpired => 11,
        Error::NotPayLinkCreator => 12,
        Error::FeeTooHigh => 13,
        Error::UsernameTaken => 14,
        Error::UsernameNotFound => 15,
        Error::UserAlreadyRegistered => 16,
        Error::UserNotFound => 17,
        Error::SelfTransfer => 18,
        Error::NonZeroBalance => 19,
        Error::InvalidUsername => 20,
        Error::InvalidTokenId => 21,
        Error::BelowMinWithdrawal => 22,
        Error::DepositAlreadyProcessed => 23,
        Error::NoPendingAdmin => 24,
        Error::BatchLengthMismatch => 25,
        Error::NoteTooLong => 26,
        Error::BatchTooLarge => 27,
    }
}

impl Error {
    /// The number that stands for the error on the chain.
    pub fn code(&self) -> (code: u32)
        ensures
            code == error_code(*self),
    {
        match self {
            Error::AlreadyInitialized => 1,
            Error::NotInitialized => 2,
            Error::ContractPaused => 3,
            Error::InsufficientBalance => 5,
            Error::InvalidAmount => 6,
            Error::PayLinkNotFound => 7,
            Error::PayLinkAlreadyPaid => 8,
            Error::PayLinkCancelled => 9,
            Error::PayLinkAlreadyExists => 10,
            Error::PayLinkExpired => 11,
            Error::NotPayLinkCreator => 12,
            Error::FeeTooHigh => 13,
            Error::UsernameTaken => 14,
            Error::UsernameNotFound => 15,
            Error::UserAlreadyRegistered => 16,
            Error::UserNotFound => 17,
            Error::SelfTransfer => 18,
            Error::NonZeroBalance => 19,
            Error::InvalidUsername => 20,
            Error::InvalidTokenId => 21,
            Error::BelowMinWithdrawal => 22,
            Error::DepositAlreadyProcessed => 23,
            Error::NoPendingAdmin => 24,
            Error::BatchLengthMismatch => 25,
            Error::NoteTooLong => 26,
            Error::BatchTooLarge => 27,
        }
    }
}

/// The view of an optional value.
pub open spec fn option_view<T: View>(value: Option<T>) -> Option<T::V> {
    match value {
        Some(v) => Some(v@),
        None => None,
    }
}

/// A payment request.
///
/// `expiration_ledger` is the last ledger at which the link can be paid.
/// `payer_username` and `paid_at_ledger` are filled in when it is.
#[derive(Debug, PartialEq, Eq)]
pub struct PayLinkData {
    pub creator_username: Text,
    pub amount: i128,
    pub note: Text,
    pub paid: bool,
    pub cancelled: bool,
    pub expiration_ledger: u32,
    pub created_at_ledger: u32,
    pub payer_username: Option<Text>,
    pub paid_at_ledger: Option<u32>,
}

/// What a payment request says.
pub struct PayLinkView {
    pub creator_username: Seq<u8>,
    pub amount: i128,
    pub note: Seq<u8>,
    pub paid: bool,
    pub cancelled: bool,
    pub expiration_ledger: u32,
    pub created_at_ledger: u32,
    pub payer_username: Option<Seq<u8>>,
    pub paid_at_ledger: Option<u32>,
}

impl View for PayLinkData {
    type V = PayLinkView;

    open spec fn view(&self) -> PayLinkView {
        PayLinkView {
            creator_username: self.creator_username@,
            amount: self.amount,
            note: self.note@,
            paid: self.paid,
            cancelled: self.cancelled,
            expiration_ledger: self.expiration_ledger,
            created_at_ledger: self.created_at_ledger,
            payer_username: option_view(self.payer_username),
            paid_at_ledger: self.paid_at_ledger,
        }
    }
}

impl Clone for PayLinkData {
    fn clone(&self) -> (copy: Self)
        ensures
            copy@ == self@,
    {
        PayLinkData {
            creator_username: self.creator_username.clone(),
            amount: self.amount,
            note: self.note.clone(),
            paid: self.paid,
            cancelled: self.cancelled,
            expiration_ledger: self.expiration_ledger,
            created_at_ledger: self.created_at_ledger,
            payer_username: match &self.payer_username {
                Some(payer) => Some(payer.clone()),
                None => None,
            },
            paid_at_ledger: self.paid_at_ledger,
        }
    }
}

/// The keys of the contract's storage.
///
/// The first eight are instance entries, the others persistent ones.
#[derive(Debug, PartialEq, Eq)]
pub enum DataKey {
    Admin,
    UsdcToken,
    FeeRateBps,
    FeeTreasury,
    Paused,
    /// The running sum of all user balances.
    TotalBalance,
    /// The least amount of one withdrawal; zero if there is none.
    MinWithdrawal,
    /// The candidate of an unfinished change of admin.
    PendingAdmin,
    Balance(Text),
    UsernameToAddr(Text),
    AddrToUsername(Address),
    PayLink(Text),
    ProcessedDeposit(Text),
}

/// What a storage key says.
pub enum DataKeyView {
    Admin,
    UsdcToken,
    FeeRateBps,
    FeeTreasury,
    Paused,
    TotalBalance,
    MinWithdrawal,
    PendingAdmin,
    Balance(Seq<u8>),
    UsernameToAddr(Seq<u8>),
    AddrToUsername(Seq<u8>),
    PayLink(Seq<u8>),
    ProcessedDeposit(Seq<u8>),
}

impl View for DataKey {
    type V = DataKeyView;

    open spec fn view(&self) -> DataKeyView {
        match self {
            DataKey::Admin => DataKeyView::Admin,
            DataKey::UsdcToken => DataKeyView::UsdcToken,
            DataKey::FeeRateBps => DataKeyView::FeeRateBps,
            DataKey::FeeTreasury => DataKeyView::FeeTreasury,
            DataKey::Paused => DataKeyView::Paused,
            DataKey::TotalBalance => DataKeyView::TotalBalance,
            DataKey::MinWithdrawal => DataKeyView::MinWithdrawal,
            DataKey::PendingAdmin => DataKeyView::PendingAdmin,
            DataKey::Balance(username) => DataKeyView::Balance(username@),
            DataKey::UsernameToAddr(username) => DataKeyView::UsernameToAddr(username@),
            DataKey::AddrToUsername(address) => DataKeyView::AddrToUsername(address@),
            DataKey::PayLink(token_id) => DataKeyView::PayLink(token_id@),
            DataKey::ProcessedDeposit(deposit_id) => DataKeyView::ProcessedDeposit(deposit_id@),
        }
    }
}

/// A storage key with its value.
#[derive(Debug, PartialEq, Eq)]
pub enum Entry {
    Admin(Address),
    UsdcToken(Address),
    FeeRateBps(u32),
    FeeTreasury(Address),
    Paused(bool),
    TotalBalance(i128),
    MinWithdrawal(i128),
    PendingAdmin(Address),
    Balance(Text, i128),
    UsernameToAddr(Text, Address),
    AddrToUsername(Address, Text),
    PayLink(Text, PayLinkData),
    /// A deposit id that has been credited; its value is always true.
    ProcessedDeposit(Text),
}

/// What a storage entry says.
pub enum EntryView {
    Admin(Seq<u8>),
    UsdcToken(Seq<u8>),
    FeeRateBps(u32),
    FeeTreasury(Seq<u8>),
    Paused(bool),
    TotalBalance(i128),
    MinWithdrawal(i128),
    PendingAdmin(Seq<u8>),
    Balance(Seq<u8>, i128),
    UsernameToAddr(Seq<u8>, Seq<u8>),
    AddrToUsername(Seq<u8>, Seq<u8>),
    PayLink(Seq<u8>, PayLinkView),
    ProcessedDeposit(Seq<u8>),
}

impl View for Entry {
    type V = EntryView;

    open spec fn view(&self) -> EntryView {
        match self {
            Entry::Admin(admin) => EntryView::Admin(admin@),
            Entry::UsdcToken(token) => EntryView::UsdcToken(token@),
            Entry::FeeRateBps(bps) => EntryView::FeeRateBps(*bps),
            Entry::FeeTreasury(treasury) => EntryView::FeeTreasury(treasury@),
            Entry::Paused(paused) => EntryView::Paused(*paused),
            Entry::TotalBalance(total) => EntryView::TotalBalance(*total),
            Entry::MinWithdrawal(amount) => EntryView::MinWithdrawal(*amount),
            Entry::PendingAdmin(candidate) => EntryView::PendingAdmin(candidate@),
            Entry::Balance(username, amount) => EntryView::Balance(username@, *amount),
            Entry::UsernameToAddr(username, address) => EntryView::UsernameToAddr(
                username@,
                address@,
            ),
            Entry::AddrToUsername(address, username) => EntryView::AddrToUsername(
                address@,
                username@,
            ),
            Entry::PayLink(token_id, link) => EntryView::PayLink(token_id@, link@),
            Entry::ProcessedDeposit(deposit_id) => EntryView::ProcessedDeposit(deposit_id@),
        }
    }
}

impl Clone for Entry {
    fn clone(&self) -> (copy: Self)
        ensures
            copy@ == self@,
    {
        match self {
            Entry::Admin(admin) => Entry::Admin(admin.clone()),
            Entry::UsdcToken(token) => Entry::UsdcToken(token.clone()),
            Entry::FeeRateBps(bps) => Entry::FeeRateBps(*bps),
            Entry::FeeTreasury(treasury) => Entry::FeeTreasury(treasury.clone()),
            Entry::Paused(paused) => Entry::Paused(*paused),
            Entry::TotalBalance(total) => Entry::TotalBalance(*total),
            Entry::MinWithdrawal(amount) => Entry::MinWithdrawal(*amount),
            Entry::PendingAdmin(candidate) => Entry::PendingAdmin(candidate.clone()),
            Entry::Balance(username, amount) => Entry::Balance(username.clone(), *amount),
            Entry::UsernameToAddr(username, address) => Entry::UsernameToAddr(
                username.clone(),
                address.clone(),
            ),
            Entry::AddrToUsername(address, username) => Entry::AddrToUsername(
                address.clone(),
                username.clone(),
            ),
            Entry::PayLink(token_id, link) => Entry::PayLink(token_id.clone(), link.clone()),
            Entry::ProcessedDeposit(deposit_id) => Entry::ProcessedDeposit(deposit_id.clone()),
        }
    }
}

/// An event that the contract publishes.
#[derive(Debug, PartialEq, Eq)]
pub enum Event {
    RegUser { username: Text, address: Address },
    Dereg { username: Text, address: Address },
    UpdAddr { username: Text, old_address: Address, new_address: Address },
    Deposit { username: Text, amount: i128, deposit_id: Text },
    DepositByAddress { username: Text, amount: i128, address: Address, deposit_id: Text },
    Withdraw { username: Text, amount: i128, to_address: Address },
    Transfer { from_username: Text, to_username: Text, amount: i128, fee: i128 },
    PlCreate { creator_username: Text, token_id: Text, amount: i128 },
    PlPaid {
        payer_username: Text,
        creator_username: Text,
        token_id: Text,
        amount: i128,
        fee: i128,
    },
    PlCancel { creator_username: Text, token_id: Text },
    AdmCncl { creator_username: Text, token_id: Text },
    FeeSet { fee_bps: u32 },
    TrsrySet { treasury: Address },
    UsdcSet { token: Address },
    MinWdraw { amount: i128 },
    AdmProp { candidate: Address },
    AdmAccpt { admin: Address },
    Paused,
    Unpaused,
    Sweep { excess: i128, recipient: Address },
}

/// What an event says.
pub enum EventView {
    RegUser { username: Seq<u8>, address: Seq<u8> },
    Dereg { username: Seq<u8>, address: Seq<u8> },
    UpdAddr { username: Seq<u8>, old_address: Seq<u8>, new_address: Seq<u8> },
    Deposit { username: Seq<u8>, amount: i128, deposit_id: Seq<u8> },
    DepositByAddress { username: Seq<u8>, amount: i128, address: Seq<u8>, deposit_id: Seq<u8> },
    Withdraw { username: Seq<u8>, amount: i128, to_address: Seq<u8> },
    Transfer { from_username: Seq<u8>, to_username: Seq<u8>, amount: i128, fee: i128 },
    PlCreate { creator_username: Seq<u8>, token_id: Seq<u8>, amount: i128 },
    PlPaid {
        payer_username: Seq<u8>,
        creator_username: Seq<u8>,
        token_id: Seq<u8>,
        amount: i128,
        fee: i128,
    },
    PlCancel { creator_username: Seq<u8>, token_id: Seq<u8> },
    AdmCncl { creator_username: Seq<u8>, token_id: Seq<u8> },
    FeeSet { fee_bps: u32 },
    TrsrySet { treasury: Seq<u8> },
    UsdcSet { token: Seq<u8> },
    MinWdraw { amount: i128 },
    AdmProp { candidate: Seq<u8> },
    AdmAccpt { admin: Seq<u8> },
    Paused,
    Unpaused,
    Sweep { excess: i128, recipient: Seq<u8> },
}

impl View for Event {
    type V = EventView;

    open spec fn view(&self) -> EventView {
        match self {
            Event::RegUser { username, address } => EventView::RegUser {
                username: username@,
                address: address@,
            },
            Event::Dereg { username, address } => EventView::Dereg {
                username: username@,
                address: address@,
            },
            Event::UpdAddr { username, old_address, new_address } => EventView::UpdAddr {
                username: username@,
                old_address: old_address@,
                new_address: new_address@,
            },
            Event::Deposit { username, amount, deposit_id } => EventView::Deposit {
                username: username@,
                amount: *amount,
                deposit_id: deposit_id@,
            },
            Event::DepositByAddress { username, amount, address, deposit_id } =>
            EventView::DepositByAddress {
                username: username@,
                amount: *amount,
                address: address@,
                deposit_id: deposit_id@,
            },
            Event::Withdraw { username, amount, to_address } => EventView::Withdraw {
                username: username@,
                amount: *amount,
                to_address: to_address@,
            },
            Event::Transfer { from_username, to_username, amount, fee } => EventView::Transfer {
                from_username: from_username@,
                to_username: to_username@,
                amount: *amount,
                fee: *fee,
            },
            Event::PlCreate { creator_username, token_id, amount } => EventView::PlCreate {
                creator_username: creator_username@,
                token_id: token_id@,
                amount: *amount,
            },
            Event::PlPaid { payer_username, creator_username, token_id, amount, fee } =>
            EventView::PlPaid {
                payer_username: payer_username@,
                creator_username: creator_username@,
                token_id: token_id@,
                amount: *amount,
                fee: *fee,
            },
            Event::PlCancel { creator_username, token_id } => EventView::PlCancel {
                creator_username: creator_username@,
                token_id: token_id@,
            },
            Event::AdmCncl { creator_username, token_id } => EventView::AdmCncl {
                creator_username: creator_username@,
                token_id: token_id@,
            },
            Event::FeeSet { fee_bps } => EventView::FeeSet { fee_bps: *fee_bps },
            Event::TrsrySet { treasury } => EventView::TrsrySet { treasury: treasury@ },
            Event::UsdcSet { token } => EventView::UsdcSet { token: token@ },
            Event::MinWdraw { amount } => EventView::MinWdraw { amount: *amount },
            Event::AdmProp { candidate } => EventView::AdmProp { candidate: candidate@ },
            Event::AdmAccpt { admin } => EventView::AdmAccpt { admin: admin@ },
            Event::Paused => EventView::Paused,
            Event::Unpaused => EventView::Unpaused,
            Event::Sweep { excess, recipient } => EventView::Sweep {
                excess: *excess,
                recipient: recipient@,
            },
        }
    }
}

/// The first topic under which an event is published.
pub open spec fn event_topic(event: EventView) -> Seq<char> {
    match event {
        EventView::RegUser { .. } => "reg_user"@,
        EventView::Dereg { .. } => "dereg"@,
        EventView::UpdAddr { .. } => "upd_addr"@,
        EventView::Deposit { .. } => "deposit"@,
        EventView::DepositByAddress { .. } => "deposit"@,
        EventView::Withdraw { .. } => "withdraw"@,
        EventView::Transfer { .. } => "transfer"@,
        EventView::PlCreate { .. } => "pl_create"@,
        EventView::PlPaid { .. } => "pl_paid"@,
        EventView::PlCancel { .. } => "pl_cancel"@,
        EventView::AdmCncl { .. } => "adm_cncl"@,
        EventView::FeeSet { .. } => "fee_set"@,
        EventView::TrsrySet { .. } => "trsry_set"@,
        EventView::UsdcSet { .. } => "usdc_set"@,
        EventView::MinWdraw { .. } => "min_wdraw"@,
        EventView::AdmProp { .. } => "adm_prop"@,
        EventView::AdmAccpt { .. } => "adm_accpt"@,
        EventView::Paused => "paused"@,
        EventView::Unpaused => "unpaused"@,
        EventView::Sweep { .. } => "sweep"@,
    }
}

impl Event {
    /// The first topic under which the event is published.
    pub fn topic(&self) -> (topic: &'static str)
        ensures
            topic@ == event_topic(self@),
    {
        match self {
            Event::RegUser { .. } => "reg_user",
            Event::Dereg { .. } => "dereg",
            Event::UpdAddr { .. } => "upd_addr",
            Event::Deposit { .. } => "deposit",
            Event::DepositByAddress { .. } => "deposit",
            Event::Withdraw { .. } => "withdraw",
            Event::Transfer { .. } => "transfer",
            Event::PlCreate { .. } => "pl_create",
            Event::PlPaid { .. } => "pl_paid",
            Event::PlCancel { .. } => "pl_cancel",
            Event::AdmCncl { .. } => "adm_cncl",
            Event::FeeSet { .. } => "fee_set",
            Event::TrsrySet { .. } => "trsry_set",
            Event::UsdcSet { .. } => "usdc_set",
            Event::MinWdraw { .. } => "min_wdraw",
            Event::AdmProp { .. } => "adm_prop",
            Event::AdmAccpt { .. } => "adm_accpt",
            Event::Paused => "paused",
            Event::Unpaused => "unpaused",
            Event::Sweep { .. } => "sweep",
        }
    }
}

/// One thing that an invocation asks of the chain.
#[derive(Debug, PartialEq, Eq)]
pub enum Action {
    /// Fail unless this address has signed the invocation.
    RequireAuth(Address),
    /// Write a storage entry.
    Put(Entry),
    /// Delete a storage entry, if it is there.
    Remove(DataKey),
    /// Renew the instance entries if at most `threshold` ledgers are left.
    ExtendInstanceTtl { threshold: u32, extend_to: u32 },
    /// Renew a persistent entry if at most `threshold` ledgers are left.
    ExtendTtl { key: DataKey, threshold: u32, extend_to: u32 },
    /// Keep a persistent entry for `ttl` ledgers from now. One that has more left
    /// keeps it: the chain lengthens lives and never shortens them.
    FixTtl { key: DataKey, ttl: u32 },
    /// Send USDC out of the contract's own holdings.
    UsdcTransfer { token: Address, to: Address, amount: i128 },
    /// Publish an event.
    Publish(Event),
    /// Replace the contract's code by the uploaded code with this hash.
    UpdateWasm([u8; 32]),
}

/// What an action says.
pub enum ActionView {
    RequireAuth(Seq<u8>),
    Put(EntryView),
    Remove(DataKeyView),
    ExtendInstanceTtl { threshold: u32, extend_to: u32 },
    ExtendTtl { key: DataKeyView, threshold: u32, extend_to: u32 },
    FixTtl { key: DataKeyView, ttl: u32 },
    UsdcTransfer { token: Seq<u8>, to: Seq<u8>, amount: i128 },
    Publish(EventView),
    UpdateWasm([u8; 32]),
}

impl View for Action {
    type V = ActionView;

    open spec fn view(&self) -> ActionView {
        match self {
            Action::RequireAuth(address) => ActionView::RequireAuth(address@),
            Action::Put(entry) => ActionView::Put(entry@),
            Action::Remove(key) => ActionView::Remove(key@),
            Action::ExtendInstanceTtl { threshold, extend_to } => ActionView::ExtendInstanceTtl {
                threshold: *threshold,
                extend_to: *extend_to,
            },
            Action::ExtendTtl { key, threshold, extend_to } => ActionView::ExtendTtl {
                key: key@,
                threshold: *threshold,
                extend_to: *extend_to,
            },
            Action::FixTtl { key, ttl } => ActionView::FixTtl { key: key@, ttl: *ttl },
            Action::UsdcTransfer { token, to, amount } => ActionView::UsdcTransfer {
                token: token@,
                to: to@,
                amount: *amount,
            },
            Action::Publish(event) => ActionView::Publish(event@),
            Action::UpdateWasm(hash) => ActionView::UpdateWasm(*hash),
        }
    }
}

/// The chain as one invocation sees it: the current ledger, and the actions
/// that the invocation has asked for so far, in order.
#[derive(Debug)]
pub struct Env {
    pub sequence: u32,
    pub actions: Vec<Action>,
}

impl View for Env {
    type V = Seq<ActionView>;

    open spec fn view(&self) -> Seq<ActionView> {
        self.actions@.map_values(|action: Action| action@)
    }
}

impl Env {
    /// The environment of an invocation at ledger `sequence`.
    pub fn new(sequence: u32) -> (env: Env)
        ensures
            env.sequence == sequence,
            env@ == Seq::<ActionView>::empty(),
    {
        let env = Env { sequence, actions: Vec::new() };
        assert(env@ == Seq::<ActionView>::empty());
        env
    }

    /// Asks for one more action.
    pub fn ask(&mut self, action: Action)
        ensures
            final(self).sequence == old(self).sequence,
            final(self)@ == old(self)@.push(action@),
    {
        self.actions.push(action);
        assert(self@ == old(self)@.push(action@));
    }
}

} // verus!
