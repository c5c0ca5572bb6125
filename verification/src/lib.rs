//! The decision core of a liquidator for over-collateralized lending positions.
//!
//! The core watches a book of positions. On every tick of a timer it sweeps the
//! book, and for each position that is liquidable it estimates the profit of a
//! liquidation, net of slippage and fees, and has it executed where the profit
//! reaches a threshold. Between sweeps it files the updates that a producer
//! sends and has the book saved.
//!
//! The core computes and decides; it performs no input or output. The
//! [`monitoring`] service is a machine that takes [`protocol::Event`]s and
//! answers with [`protocol::Action`]s for its driver to carry out.
//!
//! - [`value`]: the numbers that decimals stand for, and their arithmetic.
//! - [`decimal`]: exact decimals, computed by `bigdecimal`.
//! - [`profitability`]: the sizes and the profit of a liquidation.
//! - [`position`]: positions and the book that holds them.
//! - [`chain`]: transaction calls and hashes.
//! - [`protocol`]: events, actions and errors.
//! - [`monitoring`]: the service itself.

pub mod chain;
pub mod decimal;
pub mod monitoring;
pub mod position;
pub mod profitability;
pub mod protocol;
pub mod value;
