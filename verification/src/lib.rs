//! A simulation of the Sei chain's custom modules for contract testing.
//!
//! The engine keeps an order book in a byte-oriented key/value store,
//! computes time-weighted average prices from oracle histories and from
//! the orders of a contract, simulates the execution of an order against
//! resting orders, and records who may mint and burn the denominations
//! of the token factory. Every function states what it returns and what
//! it does to the store, and is proved to do so.
//!
//! - [`module`]: the chain module, which takes messages and queries.
//! - [`order_book`], [`consistency`]: placement, cancellation and lookup
//!   of orders, and what holds from one operation to the next.
//! - [`oracle`], [`dex`]: average prices and order simulation.
//! - [`token_factory`]: ownership of denominations.
//! - [`store`], [`kv`], [`keys`]: the store and the keys of its entries.
//! - [`codec`], [`json`], [`encoding`], [`text`]: the stored values.
//! - [`decimal`], [`block`], [`sei_types`], [`proto_structs`], [`msg`],
//!   [`query`], [`route`], [`error`], [`tx`]: the values that travel.
//! - [`contract`], [`contract_msg`], [`contract_types`], [`querier`]: the
//!   tester contract and the requests that it sends.

pub mod block;
pub mod codec;
pub mod consistency;
pub mod contract;
pub mod contract_msg;
pub mod contract_types;
pub mod decimal;
pub mod dex;
pub mod encoding;
pub mod error;
pub mod json;
pub mod keys;
pub mod kv;
pub mod module;
pub mod msg;
pub mod oracle;
pub mod order_book;
pub mod proto_structs;
pub mod querier;
pub mod query;
pub mod route;
pub mod sei_types;
pub mod store;
pub mod text;
pub mod token_factory;
pub mod tx;
