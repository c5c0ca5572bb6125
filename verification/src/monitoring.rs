//! The monitoring loop as a machine: it takes one event at a time and answers
//! with the one thing to do next.
//!
//! The service does nothing by itself. Whoever drives it performs each
//! [`Action`] (waiting for the timer or the producer, asking the oracle, calling
//! the chain, saving the book) and hands the outcome back as an [`Event`]. One
//! event is handled to its end before the next is taken, so a sweep and an update
//! never interleave.

use vstd::prelude::*;
use crate::chain::{felt_bytes_from_hex, felt_from_hex, felt_hex_text, felt_to_hex, ContractCall};
use crate::decimal::{Decimal, SCALE_LIMIT};
use crate::position::{lemma_last_write_wins, merged, Position, PositionBook};
use crate::protocol::{Action, Attempt, Config, Event, MonitoringError, Step, Verdict};
use crate::profitability::{
    compute_profitability, debt_to_liquidate, final_profit, lemma_threshold_is_inclusive,
    liquidation_sizing, min_collateral_to_receive, simulated_profit, LiquidationMode,
};
use crate::value::{lemma_at_least_eqv, lemma_eqv_reflexive, DecimalValue};

verus! {

/// What the service is waiting for.
#[derive(Debug)]
pub enum Phase {
    /// A tick or a message.
    Idle,
    /// The book being saved.
    Saving,
    /// The liquidability of the position under examination.
    Assessing,
    /// Its liquidable amounts and liquidation factor.
    Sizing,
    /// Its liquidation transactions.
    Building { simulated_profit: Decimal },
    /// The fees of those transactions.
    Estimating { simulated_profit: Decimal, transactions: Vec<ContractCall> },
    /// The hash of the submitted transaction.
    Submitting { profit: Decimal },
    /// The acceptance of the submitted transaction.
    Confirming { profit: Decimal, tx_hash: String },
    /// Nothing any more.
    Stopped(MonitoringError),
}

/// Watches a book of positions and liquidates those that are worth it.
pub struct MonitoringService {
    config: Config,
    positions: PositionBook,
    check_positions_interval: u64,
    min_profit: Decimal,
    phase: Phase,
    /// The keys of the sweep in progress, in the order of the sweep.
    sweep: Vec<u64>,
    /// The place in `sweep` of the position under examination.
    cursor: usize,
}

impl MonitoringService {
    /// The protocol settings.
    pub closed spec fn config(&self) -> Config {
        self.config
    }

    /// The book, as a map from key to position.
    pub closed spec fn book(&self) -> Map<u64, Position> {
        self.positions@
    }

    /// The seconds between two sweeps.
    pub closed spec fn interval(&self) -> u64 {
        self.check_positions_interval
    }

    /// The least profit for which a liquidation is executed.
    pub closed spec fn threshold(&self) -> Decimal {
        self.min_profit
    }

    /// What the service is waiting for.
    pub closed spec fn phase(&self) -> Phase {
        self.phase
    }

    /// The keys of the sweep in progress, in the order of the sweep.
    pub closed spec fn sweep(&self) -> Seq<u64> {
        self.sweep@
    }

    /// The place in the sweep of the position under examination.
    pub closed spec fn cursor(&self) -> int {
        self.cursor as int
    }

    /// The key of the position under examination.
    pub open spec fn current_key(&self) -> u64 {
        self.sweep()[self.cursor()]
    }

    /// A sweep is in progress, and one of its positions is under examination.
    pub open spec fn examining(&self) -> bool {
        match self.phase() {
            Phase::Idle | Phase::Saving | Phase::Stopped(_) => false,
            _ => true,
        }
    }

    /// While a sweep is in progress, the cursor stands on one of its keys, and
    /// all of them are keys of the book.
    pub closed spec fn sweeping(&self) -> bool {
        &&& self.cursor < self.sweep@.len()
        &&& forall|i: int| 0 <= i < self.sweep@.len() ==> self.positions@.contains_key(self.sweep@[i])
    }

    /// The state is one that the service can be in.
    pub closed spec fn well_formed(&self) -> bool {
        &&& self.positions.well_formed()
        &&& self.min_profit.fits()
        &&& self.check_positions_interval > 0
        &&& match self.phase {
            Phase::Idle | Phase::Saving | Phase::Stopped(_) => true,
            Phase::Assessing | Phase::Sizing => self.sweeping(),
            Phase::Building { simulated_profit } => self.sweeping() && simulated_profit@.within(
                2 * SCALE_LIMIT,
            ),
            Phase::Estimating { simulated_profit, .. } => self.sweeping()
                && simulated_profit@.within(2 * SCALE_LIMIT),
            Phase::Submitting { .. } | Phase::Confirming { .. } => self.sweeping(),
        }
    }

    /// The settings are those of `before`.
    pub open spec fn settings_kept(&self, before: &MonitoringService) -> bool {
        &&& self.config() == before.config()
        &&& self.interval() == before.interval()
        &&& self.threshold() == before.threshold()
    }

    /// The sweep stands where it stood in `before`, over the same book.
    pub open spec fn place_kept(&self, before: &MonitoringService) -> bool {
        &&& self.book() == before.book()
        &&& self.sweep() == before.sweep()
        &&& self.cursor() == before.cursor()
    }

    /// Monitoring stops with `error`.
    pub open spec fn halts(&self, next: &MonitoringService, step: Step, error: MonitoringError) -> bool {
        &&& next.phase() == Phase::Stopped(error)
        &&& next.book() == self.book()
        &&& step.action == Action::Halt(error)
        &&& step.attempt is None
    }

    /// The service goes back to waiting for a tick or a message.
    pub open spec fn rests(&self, next: &MonitoringService, step: Step) -> bool {
        &&& next.phase() == Phase::Idle
        &&& next.book() == self.book()
        &&& step.action == Action::AwaitEvent
        &&& step.attempt is None
    }

    /// A sweep begins: over an empty book it ends at once, with nothing asked
    /// of the oracle or the chain; otherwise it takes every key of the book
    /// once and turns to the first.
    pub open spec fn begins_sweep(&self, next: &MonitoringService, step: Step) -> bool {
        if self.book().len() == 0 {
            self.rests(next, step)
        } else {
            &&& next.phase() == Phase::Assessing
            &&& next.book() == self.book()
            &&& next.sweep().no_duplicates()
            &&& next.sweep().to_set() == self.book().dom()
            &&& next.cursor() == 0
            &&& step.action == Action::CheckLiquidable { key: next.sweep()[0] }
            &&& step.attempt is None
        }
    }

    /// An update is filed into the book, and the book is to be saved with the
    /// update's block number.
    pub open spec fn merges(
        &self,
        next: &MonitoringService,
        step: Step,
        block_number: u64,
        position: Position,
    ) -> bool {
        &&& next.phase() == Phase::Saving
        &&& next.book() == self.book().insert(position.key, position)
        &&& step.action == Action::Persist { block_number }
        &&& step.attempt is None
    }

    /// The sweep turns to its next position, or ends after the last.
    pub open spec fn moves_on(&self, next: &MonitoringService, action: Action) -> bool {
        &&& next.book() == self.book()
        &&& next.sweep() == self.sweep()
        &&& if self.cursor() + 1 < self.sweep().len() {
            &&& next.phase() == Phase::Assessing
            &&& next.cursor() == self.cursor() + 1
            &&& action == Action::CheckLiquidable { key: self.sweep()[self.cursor() + 1] }
        } else {
            &&& next.phase() == Phase::Idle
            &&& action == Action::AwaitEvent
        }
    }

    /// A liquidable position is sized next; any other is passed over, a
    /// position without a price among them.
    pub open spec fn assesses(&self, next: &MonitoringService, step: Step, verdict: Verdict) -> bool {
        &&& step.attempt is None
        &&& if verdict == Verdict::Liquidable {
            &&& next.phase() == Phase::Sizing
            &&& next.place_kept(self)
            &&& step.action == Action::ComputeAmounts {
                key: self.current_key(),
                liquidation_mode: self.config().liquidation_mode,
            }
        } else {
            self.moves_on(next, step.action)
        }
    }

    /// The liquidation is sized from the amounts and the factor, and its
    /// transactions are to be built for those sizes.
    pub open spec fn sizes(
        &self,
        next: &MonitoringService,
        step: Step,
        debt: Decimal,
        collateral: Decimal,
        factor: Decimal,
    ) -> bool {
        if debt.fits() && collateral.fits() && factor.fits() {
            &&& next.place_kept(self)
            &&& next.phase() matches Phase::Building { simulated_profit: simulated }
            &&& simulated@.eqv(simulated_profit(debt@, factor@))
            &&& step.action matches Action::BuildTransactions {
                key,
                liquidate_address,
                debt_to_liquidate: repay,
                min_collateral_to_receive: receive,
            }
            &&& key == self.current_key()
            &&& liquidate_address == self.config().liquidate_address
            &&& repay@.eqv(debt_to_liquidate(self.config().liquidation_mode, debt@, factor@))
            &&& receive@.eqv(min_collateral_to_receive(collateral@, factor@))
            &&& step.attempt is None
        } else {
            self.halts(next, step, MonitoringError::Arithmetic)
        }
    }

    /// The built transactions are kept, and their fees are to be estimated.
    pub open spec fn keeps(
        &self,
        next: &MonitoringService,
        step: Step,
        transactions: Vec<ContractCall>,
    ) -> bool {
        &&& self.phase() matches Phase::Building { simulated_profit }
        &&& next.phase() == Phase::Estimating { simulated_profit, transactions }
        &&& next.place_kept(self)
        &&& step.action == Action::EstimateFees
        &&& step.attempt is None
    }

    /// The threshold gate: the transactions are submitted exactly if the profit
    /// is at least the threshold. Below it nothing is submitted, the attempt
    /// ends with the profit that was computed, and the sweep moves on.
    pub open spec fn gates(&self, next: &MonitoringService, step: Step, fees: Decimal) -> bool {
        &&& self.phase() matches Phase::Estimating { simulated_profit, transactions }
        &&& if !fees.fits() {
            self.halts(next, step, MonitoringError::Arithmetic)
        } else if final_profit(simulated_profit@, fees@).at_least(self.threshold()@) {
            &&& next.phase() matches Phase::Submitting { profit }
            &&& profit@.eqv(final_profit(simulated_profit@, fees@))
            &&& next.place_kept(self)
            &&& step.action == Action::Execute { transactions }
            &&& step.attempt is None
        } else {
            &&& step.attempt matches Some(attempt)
            &&& attempt.key == self.current_key()
            &&& attempt.profit@.eqv(final_profit(simulated_profit@, fees@))
            &&& attempt.tx_hash is None
            &&& self.moves_on(next, step.action)
        }
    }

    /// The hash of the submitted transaction is written out, and the acceptance
    /// of the transaction is awaited under the hash that its text gives; a text
    /// that gives none stops monitoring.
    pub open spec fn awaits(&self, next: &MonitoringService, step: Step, tx_hash: [u8; 32]) -> bool {
        &&& self.phase() matches Phase::Submitting { profit }
        &&& match felt_from_hex(felt_to_hex(tx_hash@)) {
            Some(bytes) => {
                &&& next.phase() matches Phase::Confirming { profit: kept, tx_hash: text }
                &&& kept == profit
                &&& text@ == felt_to_hex(tx_hash@)
                &&& next.place_kept(self)
                &&& step.action matches Action::AwaitAcceptance { tx_hash: hash }
                &&& hash@ == bytes
                &&& step.attempt is None
            },
            None => self.halts(next, step, MonitoringError::Chain),
        }
    }

    /// The attempt ends with its profit and the hash of the accepted
    /// transaction, and the sweep moves on.
    pub open spec fn concludes(&self, next: &MonitoringService, step: Step) -> bool {
        &&& self.phase() matches Phase::Confirming { profit, tx_hash }
        &&& step.attempt == Some(Attempt { key: self.current_key(), profit, tx_hash: Some(tx_hash) })
        &&& self.moves_on(next, step.action)
    }

    /// What one event does, by what the service was waiting for. Once stopped,
    /// the service stays stopped. An event that answers nothing the service
    /// asked for stops it, and so does any failure.
    pub open spec fn steps(&self, event: Event, next: &MonitoringService, step: Step) -> bool {
        match (self.phase(), event) {
            (Phase::Stopped(error), _) => self.halts(next, step, error),
            (Phase::Idle, Event::Tick) => self.begins_sweep(next, step),
            (Phase::Idle, Event::Update { block_number, position }) => self.merges(
                next,
                step,
                block_number,
                position,
            ),
            (Phase::Idle, Event::ProducerClosed) => self.halts(
                next,
                step,
                MonitoringError::ProducerClosed,
            ),
            (Phase::Idle, _) => self.halts(next, step, MonitoringError::OutOfTurn),
            (Phase::Saving, Event::Saved) => self.rests(next, step),
            (Phase::Saving, Event::Failed) => self.halts(next, step, MonitoringError::Storage),
            (Phase::Assessing, Event::Assessed(verdict)) => self.assesses(next, step, verdict),
            (
                Phase::Sizing,
                Event::Sized { liquidable_debt, liquidable_collateral, liquidation_factor },
            ) => self.sizes(next, step, liquidable_debt, liquidable_collateral, liquidation_factor),
            (Phase::Building { .. }, Event::Built { transactions }) => self.keeps(
                next,
                step,
                transactions,
            ),
            (Phase::Estimating { .. }, Event::FeesEstimated { execution_fees }) => self.gates(
                next,
                step,
                execution_fees,
            ),
            (Phase::Submitting { .. }, Event::Submitted { tx_hash }) => self.awaits(
                next,
                step,
                tx_hash,
            ),
            (Phase::Confirming { .. }, Event::Accepted) => self.concludes(next, step),
            (_, Event::Failed) => self.halts(next, step, MonitoringError::Chain),
            (_, _) => self.halts(next, step, MonitoringError::OutOfTurn),
        }
    }

    /// A service over the positions known so far, waiting for its first event.
    pub fn new(
        config: Config,
        positions: PositionBook,
        check_positions_interval: u64,
        min_profit: Decimal,
    ) -> (service: MonitoringService)
        requires
            positions.well_formed(),
            check_positions_interval > 0,
            min_profit.fits(),
        ensures
            service.well_formed(),
            service.config() == config,
            service.book() == positions@,
            service.interval() == check_positions_interval,
            service.threshold() == min_profit,
            service.phase() == Phase::Idle,
    {
        MonitoringService {
            config,
            positions,
            check_positions_interval,
            min_profit,
            phase: Phase::Idle,
            sweep: Vec::new(),
            cursor: 0,
        }
    }

    /// The book.
    pub fn positions(&self) -> (positions: &PositionBook)
        requires
            self.well_formed(),
        ensures
            positions.well_formed(),
            positions@ == self.book(),
    {
        &self.positions
    }

    /// While a position is under examination, the cursor stands on one of the
    /// keys of the sweep, and every key of the sweep is a key of the book.
    pub proof fn lemma_sweep_is_over_the_book(&self)
        requires
            self.well_formed(),
            self.examining(),
        ensures
            0 <= self.cursor() < self.sweep().len(),
            forall|i: int|
                0 <= i < self.sweep().len() ==> self.book().contains_key(#[trigger] self.sweep()[i]),
    {
    }

    /// The position under examination, while a sweep is in progress.
    pub fn under_examination(&self) -> (found: Option<&Position>)
        requires
            self.well_formed(),
        ensures
            match found {
                Some(position) => self.examining() && *position == self.book()[self.current_key()]
                    && position.key == self.current_key(),
                None => !self.examining(),
            },
    {
        match &self.phase {
            Phase::Idle | Phase::Saving | Phase::Stopped(_) => None,
            _ => self.positions.get(self.sweep[self.cursor]),
        }
    }

    /// The seconds between two sweeps.
    pub fn check_positions_interval(&self) -> (seconds: u64)
        requires
            self.well_formed(),
        ensures
            seconds == self.interval(),
            seconds > 0,
    {
        self.check_positions_interval
    }

    /// The transactions whose fees are to be estimated, while that is what the
    /// service waits for.
    pub fn pending_transactions(&self) -> (pending: Option<&Vec<ContractCall>>)
        ensures
            match pending {
                Some(found) => self.phase() matches Phase::Estimating { transactions, .. }
                    && *found == transactions,
                None => !(self.phase() is Estimating),
            },
    {
        match &self.phase {
            Phase::Estimating { transactions, .. } => Some(transactions),
            _ => None,
        }
    }

    /// Whether monitoring has stopped, and why.
    pub fn stopped(&self) -> (error: Option<MonitoringError>)
        ensures
            match error {
                Some(error) => self.phase() == Phase::Stopped(error),
                None => !(self.phase() is Stopped),
            },
    {
        match &self.phase {
            Phase::Stopped(error) => Some(*error),
            _ => None,
        }
    }

    /// Starts monitoring: the first thing to do is to wait for a tick or a
    /// message. A service that has stopped stays stopped, and one that is in the
    /// middle of its work cannot be started again.
    pub fn start(&mut self) -> (action: Action)
        requires
            old(self).well_formed(),
        ensures
            final(self).well_formed(),
            final(self).settings_kept(old(self)),
            final(self).book() == old(self).book(),
            match old(self).phase() {
                Phase::Idle => final(self).phase() == Phase::Idle && action == Action::AwaitEvent,
                Phase::Stopped(error) => final(self).phase() == Phase::Stopped(error) && action
                    == Action::Halt(error),
                _ => final(self).phase() == Phase::Stopped(MonitoringError::OutOfTurn) && action
                    == Action::Halt(MonitoringError::OutOfTurn),
            },
    {
        if matches!(self.phase, Phase::Idle) {
            Action::AwaitEvent
        } else {
            self.refuse().action
        }
    }

    /// Stops monitoring with `error`.
    fn halt(&mut self, error: MonitoringError) -> (step: Step)
        requires
            old(self).positions.well_formed(),
            old(self).min_profit.fits(),
            old(self).check_positions_interval > 0,
        ensures
            final(self).well_formed(),
            final(self).settings_kept(old(self)),
            final(self).place_kept(old(self)),
            final(self).phase() == Phase::Stopped(error),
            step.action == Action::Halt(error),
            step.attempt is None,
    {
        self.phase = Phase::Stopped(error);
        Step { action: Action::Halt(error), attempt: None }
    }

    /// Stops monitoring on an event that nothing had asked for, unless it had
    /// stopped before.
    fn refuse(&mut self) -> (step: Step)
        requires
            old(self).well_formed(),
        ensures
            final(self).well_formed(),
            final(self).settings_kept(old(self)),
            final(self).place_kept(old(self)),
            match old(self).phase() {
                Phase::Stopped(error) => old(self).halts(final(self), step, error),
                _ => old(self).halts(final(self), step, MonitoringError::OutOfTurn),
            },
    {
        let error = match &self.phase {
            Phase::Stopped(error) => *error,
            _ => MonitoringError::OutOfTurn,
        };
        self.halt(error)
    }

    /// Ends the work on the position under examination: the sweep turns to its
    /// next position, or ends after the last.
    fn move_on(&mut self) -> (action: Action)
        requires
            old(self).positions.well_formed(),
            old(self).min_profit.fits(),
            old(self).check_positions_interval > 0,
            old(self).sweeping(),
        ensures
            final(self).well_formed(),
            final(self).settings_kept(old(self)),
            old(self).moves_on(final(self), action),
    {
        let len = self.sweep.len();
        if self.cursor + 1 < len {
            self.cursor = self.cursor + 1;
            self.phase = Phase::Assessing;
            Action::CheckLiquidable { key: self.sweep[self.cursor] }
        } else {
            self.phase = Phase::Idle;
            Action::AwaitEvent
        }
    }

    /// Sweeps the book on a tick of the timer: begins to check, one by one,
    /// whether any position is liquidable. Over an empty book there is nothing
    /// to check.
    pub fn monitor_positions_liquidability(&mut self) -> (step: Step)
        requires
            old(self).well_formed(),
        ensures
            final(self).well_formed(),
            final(self).settings_kept(old(self)),
            old(self).steps(Event::Tick, final(self), step),
    {
        if !matches!(self.phase, Phase::Idle) {
            return self.refuse();
        }
        if self.positions.is_empty() {
            return Step { action: Action::AwaitEvent, attempt: None };
        }
        let keys = self.positions.keys();
        proof {
            assert(keys@.len() > 0) by {
                if keys@.len() == 0 {
                    assert(keys@.to_set() =~= Set::<u64>::empty());
                    assert(self.positions@ =~= Map::<u64, Position>::empty());
                }
            }
            assert forall|i: int| 0 <= i < keys@.len() implies self.positions@.contains_key(
                keys@[i],
            ) by {
                assert(keys@.to_set().contains(keys@[i]));
            }
        }
        let first = keys[0];
        self.sweep = keys;
        self.cursor = 0;
        self.phase = Phase::Assessing;
        Step { action: Action::CheckLiquidable { key: first }, attempt: None }
    }

    /// Files a new or updated position into the book, and asks for the book to
    /// be saved with the block number of the update.
    fn merge(&mut self, block_number: u64, position: Position) -> (step: Step)
        requires
            old(self).well_formed(),
        ensures
            final(self).well_formed(),
            final(self).settings_kept(old(self)),
            old(self).steps(Event::Update { block_number, position }, final(self), step),
    {
        if !matches!(self.phase, Phase::Idle) {
            return self.refuse();
        }
        self.positions.insert(position);
        self.phase = Phase::Saving;
        Step { action: Action::Persist { block_number }, attempt: None }
    }

    /// Takes what is waited for to its end where the event is `Saved`,
    /// `ProducerClosed`, `Failed` or `Accepted`.
    fn settle(&mut self, event: Event) -> (step: Step)
        requires
            old(self).well_formed(),
            event is Saved || event is ProducerClosed || event is Failed || event is Accepted,
        ensures
            final(self).well_formed(),
            final(self).settings_kept(old(self)),
            old(self).steps(event, final(self), step),
    {
        let mut phase = Phase::Idle;
        core::mem::swap(&mut self.phase, &mut phase);
        match (phase, event) {
            (Phase::Stopped(error), _) => self.halt(error),
            (Phase::Idle, Event::ProducerClosed) => self.halt(MonitoringError::ProducerClosed),
            (Phase::Idle, _) => self.halt(MonitoringError::OutOfTurn),
            (Phase::Saving, Event::Saved) => Step { action: Action::AwaitEvent, attempt: None },
            (Phase::Saving, Event::Failed) => self.halt(MonitoringError::Storage),
            (Phase::Confirming { profit, tx_hash }, Event::Accepted) => {
                let key = self.sweep[self.cursor];
                let action = self.move_on();
                Step { action, attempt: Some(Attempt { key, profit, tx_hash: Some(tx_hash) }) }
            },
            (_, Event::Failed) => self.halt(MonitoringError::Chain),
            (_, _) => self.halt(MonitoringError::OutOfTurn),
        }
    }

    /// Takes the verdict on the position under examination: a liquidable
    /// position is sized, any other is passed over.
    fn assess(&mut self, verdict: Verdict) -> (step: Step)
        requires
            old(self).well_formed(),
        ensures
            final(self).well_formed(),
            final(self).settings_kept(old(self)),
            old(self).steps(Event::Assessed(verdict), final(self), step),
    {
        if !matches!(self.phase, Phase::Assessing) {
            return self.refuse();
        }
        match verdict {
            Verdict::Liquidable => {
                self.phase = Phase::Sizing;
                Step {
                    action: Action::ComputeAmounts {
                        key: self.sweep[self.cursor],
                        liquidation_mode: self.config.liquidation_mode,
                    },
                    attempt: None,
                }
            },
            _ => {
                let action = self.move_on();
                Step { action, attempt: None }
            },
        }
    }

    /// Sizes the liquidation of the position under examination and asks for
    /// its transactions.
    fn size(
        &mut self,
        liquidable_debt: Decimal,
        liquidable_collateral: Decimal,
        liquidation_factor: Decimal,
    ) -> (step: Step)
        requires
            old(self).well_formed(),
        ensures
            final(self).well_formed(),
            final(self).settings_kept(old(self)),
            old(self).steps(
                Event::Sized { liquidable_debt, liquidable_collateral, liquidation_factor },
                final(self),
                step,
            ),
    {
        if !matches!(self.phase, Phase::Sizing) {
            return self.refuse();
        }
        if !(liquidable_debt.check_fits() && liquidable_collateral.check_fits()
            && liquidation_factor.check_fits()) {
            return self.halt(MonitoringError::Arithmetic);
        }
        let sizing = liquidation_sizing(
            self.config.liquidation_mode,
            &liquidable_debt,
            &liquidable_collateral,
            &liquidation_factor,
        );
        self.phase = Phase::Building { simulated_profit: sizing.simulated_profit };
        Step {
            action: Action::BuildTransactions {
                key: self.sweep[self.cursor],
                liquidate_address: self.config.liquidate_address,
                debt_to_liquidate: sizing.debt_to_liquidate,
                min_collateral_to_receive: sizing.min_collateral_to_receive,
            },
            attempt: None,
        }
    }

    /// Keeps the built transactions and asks for their fees.
    fn keep(&mut self, transactions: Vec<ContractCall>) -> (step: Step)
        requires
            old(self).well_formed(),
        ensures
            final(self).well_formed(),
            final(self).settings_kept(old(self)),
            old(self).steps(Event::Built { transactions }, final(self), step),
    {
        let mut phase = Phase::Idle;
        core::mem::swap(&mut self.phase, &mut phase);
        match phase {
            Phase::Building { simulated_profit } => {
                self.phase = Phase::Estimating { simulated_profit, transactions };
                Step { action: Action::EstimateFees, attempt: None }
            },
            Phase::Stopped(error) => self.halt(error),
            _ => self.halt(MonitoringError::OutOfTurn),
        }
    }

    /// Decides on the position under examination once the fees of its
    /// liquidation are known: computes the profit and, if it is at least the
    /// threshold, asks for the transactions to be submitted. Below the
    /// threshold nothing is submitted, and the attempt ends with the profit that
    /// was computed.
    pub fn try_to_liquidate_position(&mut self, execution_fees: Decimal) -> (step: Step)
        requires
            old(self).well_formed(),
        ensures
            final(self).well_formed(),
            final(self).settings_kept(old(self)),
            old(self).steps(Event::FeesEstimated { execution_fees }, final(self), step),
    {
        let mut phase = Phase::Idle;
        core::mem::swap(&mut self.phase, &mut phase);
        match phase {
            Phase::Estimating { simulated_profit, transactions } => {
                if !execution_fees.check_fits() {
                    return self.halt(MonitoringError::Arithmetic);
                }
                let result = compute_profitability(&simulated_profit, &execution_fees, transactions);
                proof {
                    lemma_at_least_eqv(
                        result.profit@,
                        final_profit(simulated_profit@, execution_fees@),
                        self.min_profit@,
                        self.min_profit@,
                    );
                }
                if result.profit.at_least(&self.min_profit) {
                    self.phase = Phase::Submitting { profit: result.profit };
                    Step { action: Action::Execute { transactions: result.transactions }, attempt: None }
                } else {
                    let key = self.sweep[self.cursor];
                    let action = self.move_on();
                    Step { action, attempt: Some(Attempt { key, profit: result.profit, tx_hash: None }) }
                }
            },
            Phase::Stopped(error) => self.halt(error),
            _ => self.halt(MonitoringError::OutOfTurn),
        }
    }

    /// What to wait for once the text of a transaction hash has been read:
    /// the acceptance of that hash, or nothing where the text gave none.
    pub fn acceptance_of(parsed: Result<[u8; 32], starknet::core::types::FromStrError>) -> (request:
        Result<Action, MonitoringError>)
        ensures
            match parsed {
                Ok(tx_hash) => request == Ok::<Action, MonitoringError>(
                    Action::AwaitAcceptance { tx_hash },
                ),
                Err(_) => request == Err::<Action, MonitoringError>(MonitoringError::Chain),
            },
    {
        match parsed {
            Ok(tx_hash) => Ok(Action::AwaitAcceptance { tx_hash }),
            Err(_) => Err(MonitoringError::Chain),
        }
    }

    /// Reads the hash of a submitted transaction from its text and asks to wait
    /// until the chain accepts it.
    pub fn wait_for_tx_to_be_accepted(&self, tx_hash: &str) -> (request: Result<
        Action,
        MonitoringError,
    >)
        ensures
            match felt_from_hex(tx_hash@) {
                Some(bytes) => request matches Ok(Action::AwaitAcceptance { tx_hash: hash })
                    && hash@ == bytes,
                None => request == Err::<Action, MonitoringError>(MonitoringError::Chain),
            },
    {
        Self::acceptance_of(felt_bytes_from_hex(tx_hash))
    }

    /// Takes the hash under which the chain knows the submitted transaction,
    /// and asks to wait for its acceptance.
    fn confirm(&mut self, tx_hash: [u8; 32]) -> (step: Step)
        requires
            old(self).well_formed(),
        ensures
            final(self).well_formed(),
            final(self).settings_kept(old(self)),
            old(self).steps(Event::Submitted { tx_hash }, final(self), step),
    {
        let mut phase = Phase::Idle;
        core::mem::swap(&mut self.phase, &mut phase);
        match phase {
            Phase::Submitting { profit } => {
                let text = felt_hex_text(&tx_hash);
                match self.wait_for_tx_to_be_accepted(text.as_str()) {
                    Ok(action) => {
                        self.phase = Phase::Confirming { profit, tx_hash: text };
                        Step { action, attempt: None }
                    },
                    Err(error) => self.halt(error),
                }
            },
            Phase::Stopped(error) => self.halt(error),
            _ => self.halt(MonitoringError::OutOfTurn),
        }
    }

    /// Takes the service one event further and says what to do next.
    pub fn step(&mut self, event: Event) -> (step: Step)
        requires
            old(self).well_formed(),
        ensures
            final(self).well_formed(),
            final(self).settings_kept(old(self)),
            old(self).steps(event, final(self), step),
    {
        match event {
            Event::Tick => self.monitor_positions_liquidability(),
            Event::Update { block_number, position } => self.merge(block_number, position),
            Event::Assessed(verdict) => self.assess(verdict),
            Event::Sized { liquidable_debt, liquidable_collateral, liquidation_factor } => self.size(
                liquidable_debt,
                liquidable_collateral,
                liquidation_factor,
            ),
            Event::Built { transactions } => self.keep(transactions),
            Event::FeesEstimated { execution_fees } => self.try_to_liquidate_position(
                execution_fees,
            ),
            Event::Submitted { tx_hash } => self.confirm(tx_hash),
            other => self.settle(other),
        }
    }
}

/// The positions that a run of producer messages carries, in order.
pub open spec fn positions_of(messages: Seq<(u64, Position)>) -> Seq<Position> {
    messages.map_values(|message: (u64, Position)| message.1)
}

/// A run of producer messages: each message is answered from the waiting state
/// and followed by the word that the book was saved.
///
/// `idle` holds the service before each message and after the last one,
/// `saving` the service while the book is saved after each message, `asked`
/// the answer to each message and `resumed` the answer to each `Saved`.
pub open spec fn is_run_of_updates(
    messages: Seq<(u64, Position)>,
    idle: Seq<MonitoringService>,
    saving: Seq<MonitoringService>,
    asked: Seq<Step>,
    resumed: Seq<Step>,
) -> bool {
    &&& idle.len() == messages.len() + 1
    &&& saving.len() == messages.len()
    &&& asked.len() == messages.len()
    &&& resumed.len() == messages.len()
    &&& idle[0].phase() == Phase::Idle
    &&& forall|i: int|
        0 <= i < messages.len() ==> (#[trigger] idle[i]).steps(
            Event::Update { block_number: messages[i].0, position: messages[i].1 },
            &saving[i],
            asked[i],
        )
    &&& forall|i: int|
        0 <= i < messages.len() ==> (#[trigger] saving[i]).steps(
            Event::Saved,
            &idle[i + 1],
            resumed[i],
        )
}

/// After the first `done` messages of a run the service waits again, over the
/// book that those messages give.
proof fn lemma_run_so_far(
    messages: Seq<(u64, Position)>,
    idle: Seq<MonitoringService>,
    saving: Seq<MonitoringService>,
    asked: Seq<Step>,
    resumed: Seq<Step>,
    done: int,
)
    requires
        is_run_of_updates(messages, idle, saving, asked, resumed),
        0 <= done <= messages.len(),
    ensures
        idle[done].phase() == Phase::Idle,
        idle[done].book() == merged(idle[0].book(), positions_of(messages.take(done))),
        done > 0 ==> asked[done - 1].action == (Action::Persist {
            block_number: messages[done - 1].0,
        }) && saving[done - 1].book() == idle[done].book(),
    decreases done,
{
    if done == 0 {
        assert(positions_of(messages.take(0)) =~= Seq::<Position>::empty());
    } else {
        let last = done - 1;
        lemma_run_so_far(messages, idle, saving, asked, resumed, last);
        let before = positions_of(messages.take(last));
        let after = positions_of(messages.take(done));
        assert(after.drop_last() =~= before);
        assert(after.last() == messages[last].1);
        assert(idle[last].steps(
            Event::Update { block_number: messages[last].0, position: messages[last].1 },
            &saving[last],
            asked[last],
        ));
        assert(saving[last].steps(Event::Saved, &idle[last + 1], resumed[last]));
    }
}

/// Whatever the producer sends, every message has the book saved as it then
/// stands, with the block number of that message, and in the end the book holds
/// for every position the message that came last for it.
pub proof fn lemma_updates_are_merged_and_saved(
    messages: Seq<(u64, Position)>,
    idle: Seq<MonitoringService>,
    saving: Seq<MonitoringService>,
    asked: Seq<Step>,
    resumed: Seq<Step>,
)
    requires
        is_run_of_updates(messages, idle, saving, asked, resumed),
    ensures
        forall|i: int|
            0 <= i < messages.len() ==> (#[trigger] asked[i]).action == (Action::Persist {
                block_number: messages[i].0,
            }) && saving[i].book() == merged(idle[0].book(), positions_of(messages.take(i + 1))),
        idle[messages.len() as int].book() == merged(idle[0].book(), positions_of(messages)),
        forall|i: int|
            0 <= i < messages.len() && (forall|later: int|
                i < later < messages.len() ==> messages[later].1.key != messages[i].1.key)
                ==> idle[messages.len() as int].book().contains_key((#[trigger] messages[i]).1.key)
                && idle[messages.len() as int].book()[messages[i].1.key] == messages[i].1,
{
    assert forall|i: int|
        0 <= i < messages.len() && (forall|later: int|
            i < later < messages.len() ==> messages[later].1.key != messages[i].1.key) implies merged(
        idle[0].book(),
        positions_of(messages),
    ).contains_key((#[trigger] messages[i]).1.key) && merged(
        idle[0].book(),
        positions_of(messages),
    )[messages[i].1.key] == messages[i].1 by {
        let positions = positions_of(messages);
        assert forall|later: int| i < later < positions.len() implies positions[later].key
            != positions[i].key by {
            assert(positions[later] == messages[later].1);
        }
        lemma_last_write_wins(idle[0].book(), positions, i);
    }
    assert forall|i: int| 0 <= i < messages.len() implies (#[trigger] asked[i]).action == (
    Action::Persist { block_number: messages[i].0 }) && saving[i].book() == merged(
        idle[0].book(),
        positions_of(messages.take(i + 1)),
    ) by {
        lemma_run_so_far(messages, idle, saving, asked, resumed, i + 1);
    }
    lemma_run_so_far(messages, idle, saving, asked, resumed, messages.len() as int);
    assert(messages.take(messages.len() as int) =~= messages);
}

/// A sweep over an empty book ends at once: the tick is answered by waiting
/// for the next event, with nothing asked of the oracle, the chain or the
/// account, and without an error.
pub proof fn lemma_empty_sweep_asks_for_nothing(
    service: MonitoringService,
    next: MonitoringService,
    step: Step,
)
    requires
        service.phase() is Idle,
        service.book() == Map::<u64, Position>::empty(),
        service.steps(Event::Tick, &next, step),
    ensures
        step.action == Action::AwaitEvent,
        step.attempt is None,
        next.phase() is Idle,
        next.book() == service.book(),
{
}

/// The book is saved once for every update that is merged, and never
/// otherwise: whatever the service answers, it asks for the book to be saved
/// only in answer to an update that it has just merged.
pub proof fn lemma_saved_only_after_an_update(
    service: MonitoringService,
    event: Event,
    next: MonitoringService,
    step: Step,
)
    requires
        service.steps(event, &next, step),
        step.action is Persist,
    ensures
        service.phase() is Idle,
        ({
            &&& event matches Event::Update { block_number, position }
            &&& step.action == (Action::Persist { block_number })
            &&& next.book() == service.book().insert(position.key, position)
        }),
{
}

/// Nothing is submitted below the threshold: whatever the service answers, it
/// asks for transactions to be submitted only in answer to an estimate of the
/// fees under which the profit is at least the threshold.
pub proof fn lemma_executed_only_at_the_threshold(
    service: MonitoringService,
    event: Event,
    next: MonitoringService,
    step: Step,
)
    requires
        service.steps(event, &next, step),
        step.action is Execute,
    ensures
        ({
            &&& service.phase() matches Phase::Estimating { simulated_profit, transactions }
            &&& event matches Event::FeesEstimated { execution_fees }
            &&& step.action == (Action::Execute { transactions })
            &&& final_profit(simulated_profit@, execution_fees@).at_least(service.threshold()@)
        }),
{
}

/// The threshold gate is inclusive. Where the profit of the position under
/// examination equals the threshold, at whatever scale either is written, its
/// transactions are submitted; where it is one unit of the threshold's last
/// decimal place below, nothing is submitted and the attempt ends there.
pub proof fn lemma_gate_is_inclusive(
    service: MonitoringService,
    fees: Decimal,
    next: MonitoringService,
    step: Step,
)
    requires
        service.phase() is Estimating,
        fees.fits(),
        service.steps(Event::FeesEstimated { execution_fees: fees }, &next, step),
    ensures
        final_profit(service.phase()->Estimating_simulated_profit@, fees@).eqv(
            service.threshold()@,
        ) ==> step.action is Execute && step.attempt is None,
        final_profit(service.phase()->Estimating_simulated_profit@, fees@).eqv(
            DecimalValue {
                unscaled: service.threshold()@.unscaled - 1,
                scale: service.threshold()@.scale,
            },
        ) ==> step.action !is Execute && step.attempt is Some,
{
    let profit = final_profit(service.phase()->Estimating_simulated_profit@, fees@);
    let threshold = service.threshold()@;
    let below = DecimalValue { unscaled: threshold.unscaled - 1, scale: threshold.scale };
    lemma_eqv_reflexive(threshold);
    lemma_threshold_is_inclusive(threshold, threshold);
    if profit.eqv(threshold) {
        lemma_at_least_eqv(profit, threshold, threshold, threshold);
    }
    if profit.eqv(below) {
        lemma_at_least_eqv(profit, below, threshold, threshold);
    }
}

} // verus!
