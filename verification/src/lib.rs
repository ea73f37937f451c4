//! A vault kernel: secret containers, authenticated encryption, state integrity
//! checks, an attempt rate limiter, a tamper-evident audit chain and the sealed
//! vault state of a trusted platform module.

pub mod error;
pub mod bytes;
pub mod keys;
pub mod mac;
pub mod state_validator;
pub mod rate_limiter;
pub mod audit;
pub mod tpm;
pub mod database;
pub mod key_hex;
