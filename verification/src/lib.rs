//! A ledger-and-rules engine that accrues, caps, and settles a tiered
//! cashback reward, funded from a finite, time-boxed reward campaign.
//!
//! The engine is a pure state machine: every operation takes the current
//! state and the external inputs it depends on (the clock, the caller, the
//! user's balance, a price table) as plain values, and either returns an
//! error leaving the state untouched, or commits all of its effects at once.

pub mod asset;
pub mod cash_back;
pub mod contract;
pub mod error;
pub mod helpers;
pub mod msg;
pub mod percent;
pub mod state;
