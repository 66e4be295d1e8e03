//! A weighted multi-party governance engine.
//!
//! Members of a governed unit ("supersig") share control of the unit's account.
//! Any account can submit a proposal (an opaque encoded command) against a
//! deposit; members vote on it with a weight that depends on their role, and
//! once the accumulated weight reaches a simple majority of the membership the
//! proposal is consumed and handed to the host for execution on behalf of the
//! unit's account.
//!
//! The crate is organised leaf-first:
//! - `types`: identifiers, roles, errors and events;
//! - `deposit`: the deposit calculator and the vote-weight rule;
//! - `address`: the mapping between unit ids and their governed accounts;
//! - `ledger`: the in-memory balances ledger that deposits are reserved on;
//! - `model`: the abstract state of the engine and what each operation does
//!   to it and to the ledger;
//! - `pallet`: the governance engine, its operations and queries, each proved
//!   against `model`;
//! - `rpc`: the projection of a proposal that queries return;
//! - `supersig_rpc`: a query handle over a shared engine;
//! - `laws`: general properties of the engine, stated and proved.

pub mod types;
pub mod deposit;
pub mod address;
pub mod ledger;
pub mod model;
pub mod pallet;
pub mod rpc;
pub mod supersig_rpc;
pub mod laws;

pub use types::{
    AccountId, Balance, CallId, Error, Event, LedgerError, PreimageCall, Role, SupersigId,
    ACCOUNT_ID_SIZE,
};
