//! Ticket validation and allocation for raffles paid for on chain.
//!
//! A purchase names a raffle and a payment. The payment is looked up with a
//! block explorer (`solscan_api`), checked against the raffle (`validator`),
//! turned into a whole number of tickets (`validator`, `amount`) and granted
//! by the store in one step. `store` says what a store holds and how it
//! answers; `db` is the store kept in memory, the reference for a store that
//! keeps the records in a database, which has to answer as
//! `store::StoreState::insert_verdict` says. `purchase` leads a request
//! through these stages; `laws` states what holds however many requests are
//! served side by side, and `serial` that they are granted what they would be
//! granted one after another.

pub mod ambient;
pub mod amount;
pub mod config_loader;
pub mod db;
pub mod laws;
pub mod model;
pub mod purchase;
pub mod serial;
pub mod solscan_api;
pub mod store;
pub mod text;
pub mod validator;
