//! Core mechanisms of a mesh of cooperating services: restart-safe keyed
//! storage, an authenticated record store with Merkle witnesses, an
//! at-least-once message relay with archival, and a payment-order state
//! machine reconciled against an external ledger.

pub mod codec;
pub mod principal;
pub mod text;
pub mod digest;
pub mod certificate;
pub mod message;
pub mod relay;
pub mod payment;
pub mod consumer;
pub mod certified;
pub mod user_types;
pub mod space_types;
pub mod license;
pub mod constant;
pub mod space_store;
pub mod platform;
pub mod dao;
pub mod indexer;
pub mod durable;
