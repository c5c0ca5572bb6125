//! What passes between the monitoring service and whoever drives it: the
//! events that come in, the actions that go out, and the errors that end it.

use vstd::prelude::*;
use crate::chain::ContractCall;
use crate::decimal::Decimal;
use crate::position::Position;
use crate::profitability::LiquidationMode;

verus! {

/// Why monitoring stopped. None of these is recovered from.
#[derive(Clone, Copy, Debug, PartialEq, Eq, Structural)]
pub enum MonitoringError {
    /// The producer of position updates is gone.
    ProducerClosed,
    /// The oracle, the chain or the account failed, or handed back a
    /// transaction hash that cannot be read.
    Chain,
    /// The book could not be saved.
    Storage,
    /// A decimal came in with a scale beyond [`crate::decimal::SCALE_LIMIT`].
    Arithmetic,
    /// An event came in that answers nothing the service had asked for.
    OutOfTurn,
}

impl MonitoringError {
    /// The message of the error, as a text.
    pub open spec fn text(self) -> Seq<char> {
        match self {
            MonitoringError::ProducerClosed => "Monitoring stopped unexpectedly."@,
            MonitoringError::Chain => "A call to the chain failed."@,
            MonitoringError::Storage => "The positions could not be saved."@,
            MonitoringError::Arithmetic => "A decimal is out of range."@,
            MonitoringError::OutOfTurn => "An event came out of turn."@,
        }
    }

    /// The message of the error.
    pub fn message(&self) -> (message: String)
        ensures
            message@ == self.text(),
    {
        match self {
            MonitoringError::ProducerClosed => "Monitoring stopped unexpectedly.".to_string(),
            MonitoringError::Chain => "A call to the chain failed.".to_string(),
            MonitoringError::Storage => "The positions could not be saved.".to_string(),
            MonitoringError::Arithmetic => "A decimal is out of range.".to_string(),
            MonitoringError::OutOfTurn => "An event came out of turn.".to_string(),
        }
    }
}

/// The protocol settings. They stay as they are for the life of the service.
#[derive(Clone, Debug)]
pub struct Config {
    pub liquidation_mode: LiquidationMode,
    /// The address of the liquidation contract, as 32 big-endian bytes.
    pub liquidate_address: [u8; 32],
}

/// What the liquidability check says of a position.
#[derive(Clone, Copy, Debug, PartialEq, Eq, Structural)]
pub enum Verdict {
    Liquidable,
    Healthy,
    /// The oracle has no price for one of the position's assets. Such a
    /// position counts as not liquidable.
    PriceMissing,
}

/// What happened outside the service.
#[derive(Debug)]
pub enum Event {
    /// The timer fired.
    Tick,
    /// The producer sent a new or updated position, seen at `block_number`.
    Update { block_number: u64, position: Position },
    /// The producer is gone for good.
    ProducerClosed,
    /// The book was saved.
    Saved,
    /// The liquidability check of the position under examination answered.
    Assessed(Verdict),
    /// The liquidable amounts and the liquidation factor of the position under
    /// examination are known.
    Sized { liquidable_debt: Decimal, liquidable_collateral: Decimal, liquidation_factor: Decimal },
    /// The liquidation transactions were built.
    Built { transactions: Vec<ContractCall> },
    /// The execution fees of the built transactions were estimated.
    FeesEstimated { execution_fees: Decimal },
    /// The transactions were submitted; the chain knows them under `tx_hash`,
    /// given as 32 big-endian bytes.
    Submitted { tx_hash: [u8; 32] },
    /// The chain accepted the submitted transaction.
    Accepted,
    /// What the service had asked for failed.
    Failed,
}

/// The one thing to do next.
#[derive(Debug)]
pub enum Action {
    /// Wait for whichever comes first: a tick of the timer, or a message of the
    /// producer.
    AwaitEvent,
    /// Save the whole book as it stands, together with `block_number`.
    Persist { block_number: u64 },
    /// Ask whether the position with this key is liquidable at the latest
    /// oracle prices.
    CheckLiquidable { key: u64 },
    /// Ask for the liquidable amounts of the position, in the given mode, and
    /// for its liquidation factor.
    ComputeAmounts { key: u64, liquidation_mode: LiquidationMode },
    /// Build the transactions that liquidate the position.
    BuildTransactions {
        key: u64,
        liquidate_address: [u8; 32],
        debt_to_liquidate: Decimal,
        min_collateral_to_receive: Decimal,
    },
    /// Estimate the execution fees of the transactions that were just built.
    EstimateFees,
    /// Submit the transactions.
    Execute { transactions: Vec<ContractCall> },
    /// Wait until the chain accepts the transaction with this hash, given as 32
    /// big-endian bytes, or gives up on it.
    AwaitAcceptance { tx_hash: [u8; 32] },
    /// Stop: monitoring has failed.
    Halt(MonitoringError),
}

/// How an attempt to liquidate a position ended.
#[derive(Debug)]
pub struct Attempt {
    pub key: u64,
    /// The estimated profit: what was computed, not what the chain paid out.
    pub profit: Decimal,
    /// The hash of the accepted transaction, in hexadecimal, or `None` where
    /// the profit was below the threshold and nothing was submitted.
    pub tx_hash: Option<String>,
}

/// The answer to one event.
#[derive(Debug)]
pub struct Step {
    pub action: Action,
    /// The attempt that this event brought to its end, if it did.
    pub attempt: Option<Attempt>,
}

} // verus!
