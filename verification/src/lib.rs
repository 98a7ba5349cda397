//! A verified model of two cooperating ledgers that live on a serializing
//! execution substrate: an invoice registry that issues and tracks unique
//! invoice records per owner, and a lending pool that accepts deposits of a
//! fungible asset and disburses loans against pooled liquidity.
//!
//! The substrate itself — signature checks, durable storage, the asset
//! contract, event transport — is an external collaborator. It is modeled
//! here by plain values: an [`auth::AuthorizationGate`] stands for the set of
//! principals that approved the current call, a [`token::TokenLedger`] stands
//! for the external asset ledger, and each contract owns its instance state
//! directly. Every entry point is a verified transition on that state: it
//! either commits all of its effects and returns `Ok`, or returns an error
//! and leaves every ledger exactly as it found it.

pub mod auth;
pub mod invoice;
pub mod pool;
pub mod token;
