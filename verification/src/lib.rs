//! Cheese Pay: a custodial USDC ledger with usernames, internal transfers and
//! payment links.
//!
//! A [`CheesePay`] holds storage entries of the contract. A request is a method
//! on it: it answers with `Ok` or an [`Error`], changes the entries, and adds to
//! an [`Env`] the [`Action`]s that are to be performed on the chain. Beside each
//! request stands a specification function of the same name that says all three,
//! as an [`Outcome`](crate::state::Outcome) over the model in [`state`].
//!
//! What is true of all requests together is stated in [`soundness`] and [`laws`].

pub mod admin;
pub mod funds;
pub mod guards;
pub mod laws;
pub mod ledger;
pub mod paylinks;
pub mod queries;
pub mod requests;
pub mod soundness;
pub mod state;
pub mod sums;
pub mod table;
pub mod text;
pub mod types;
pub mod users;

pub use crate::ledger::CheesePay;
pub use crate::table::Table;
pub use crate::text::{Address, Text};
pub use crate::types::{Action, DataKey, Entry, Env, Error, Event, PayLinkData};
