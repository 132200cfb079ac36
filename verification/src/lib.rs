//! A coffee-consumption tracker: registered users record timestamped shot
//! counts and read them back later, scoped by a per-user API key.
//!
//! The service core lives here, verified: key issuance and validation
//! (`keygen`), the relational store with its uniqueness and ownership
//! invariants (`db`), and the request-handling facade (`service`).
//! Transport and file plumbing stay outside the library.

pub mod client;
pub mod db;
pub mod keygen;
pub mod service;
