//! What liquidating a position is worth: how much debt to repay, how much
//! collateral to ask for, and the profit that is left after slippage and fees.

use vstd::prelude::*;
use crate::chain::ContractCall;
use crate::decimal::{Decimal, SCALE_LIMIT};
use crate::value::{
    larger, lemma_eqv_at, lemma_eqv_transitive, lemma_minus_eqv,
    lemma_minus_units, lemma_pow10_small, lemma_times_eqv, lemma_times_units, pow10, whole,
    DecimalValue,
};

verus! {

/// How much of an eligible position one liquidation takes.
#[derive(Clone, Copy, Debug, PartialEq, Eq, Structural)]
pub enum LiquidationMode {
    /// The whole eligible position; the transaction builder sizes it.
    Full,
    /// The share of it that the liquidation factor gives.
    Partial,
}

/// The share of the simulated profit that is written off as slippage: 5%.
pub open spec fn slippage() -> DecimalValue {
    DecimalValue { unscaled: 5, scale: 2 }
}

/// What is left of one unit after slippage: `1 - 0.05`.
pub open spec fn slippage_factor() -> DecimalValue {
    whole(1).minus(slippage())
}

/// The debt to repay: nothing in `Full` mode, where the transaction builder
/// sizes the liquidation, and `debt × factor` in `Partial` mode.
pub open spec fn debt_to_liquidate(
    mode: LiquidationMode,
    debt: DecimalValue,
    factor: DecimalValue,
) -> DecimalValue {
    match mode {
        LiquidationMode::Full => whole(0),
        LiquidationMode::Partial => debt.times(factor),
    }
}

/// The least collateral to accept: `collateral × factor`.
pub open spec fn min_collateral_to_receive(
    collateral: DecimalValue,
    factor: DecimalValue,
) -> DecimalValue {
    collateral.times(factor)
}

/// The profit before slippage and fees: `debt × (1 - factor)`.
pub open spec fn simulated_profit(debt: DecimalValue, factor: DecimalValue) -> DecimalValue {
    debt.times(whole(1).minus(factor))
}

/// The simulated profit after the slippage haircut.
pub open spec fn after_slippage(simulated: DecimalValue) -> DecimalValue {
    simulated.times(slippage_factor())
}

/// The profit of an attempt: the simulated profit after slippage, less the
/// execution fees. It may be negative.
pub open spec fn final_profit(simulated: DecimalValue, fees: DecimalValue) -> DecimalValue {
    after_slippage(simulated).minus(fees)
}

/// The profit of liquidating `debt` at `factor` when executing costs `fees`.
pub open spec fn profitability(
    debt: DecimalValue,
    factor: DecimalValue,
    fees: DecimalValue,
) -> DecimalValue {
    final_profit(simulated_profit(debt, factor), fees)
}

/// The sizes of one liquidation.
#[derive(Debug)]
pub struct Sizing {
    pub debt_to_liquidate: Decimal,
    pub min_collateral_to_receive: Decimal,
    pub simulated_profit: Decimal,
}

/// Sizes the liquidation of a position from its liquidable amounts and its
/// liquidation factor.
pub fn liquidation_sizing(
    mode: LiquidationMode,
    liquidable_debt: &Decimal,
    liquidable_collateral: &Decimal,
    liquidation_factor: &Decimal,
) -> (sizing: Sizing)
    requires
        liquidable_debt.fits(),
        liquidable_collateral.fits(),
        liquidation_factor.fits(),
    ensures
        sizing.debt_to_liquidate@.eqv(
            debt_to_liquidate(mode, liquidable_debt@, liquidation_factor@),
        ),
        sizing.min_collateral_to_receive@.eqv(
            min_collateral_to_receive(liquidable_collateral@, liquidation_factor@),
        ),
        sizing.simulated_profit@.eqv(simulated_profit(liquidable_debt@, liquidation_factor@)),
        sizing.debt_to_liquidate@.within(2 * SCALE_LIMIT),
        sizing.min_collateral_to_receive@.within(2 * SCALE_LIMIT),
        sizing.simulated_profit@.within(2 * SCALE_LIMIT),
{
    let debt_to_liquidate = match mode {
        LiquidationMode::Full => Decimal::zero(),
        LiquidationMode::Partial => liquidable_debt.times(liquidation_factor),
    };
    let min_collateral_to_receive = liquidable_collateral.times(liquidation_factor);
    let kept = Decimal::one().minus(liquidation_factor);
    let simulated_profit = liquidable_debt.times(&kept);
    proof {
        lemma_times_eqv(
            liquidable_debt@,
            liquidable_debt@,
            kept@,
            whole(1).minus(liquidation_factor@),
        );
        lemma_eqv_transitive(
            simulated_profit@,
            liquidable_debt@.times(kept@),
            liquidable_debt@.times(whole(1).minus(liquidation_factor@)),
        );
    }
    Sizing { debt_to_liquidate, min_collateral_to_receive, simulated_profit }
}

/// The estimated profit of an attempt, with the transactions that would
/// realise it.
#[derive(Debug)]
pub struct ProfitabilityResult {
    /// The profit after slippage and fees. It may be negative.
    pub profit: Decimal,
    /// The calls to submit, in order.
    pub transactions: Vec<ContractCall>,
}

/// The profit of an attempt once its transactions are built and their
/// execution fees are known: the simulated profit, cut by 5% for slippage, less
/// the fees. The transactions come back as they were given.
pub fn compute_profitability(
    simulated_profit: &Decimal,
    execution_fees: &Decimal,
    liquidation_txs: Vec<ContractCall>,
) -> (result: ProfitabilityResult)
    requires
        simulated_profit@.within(2 * SCALE_LIMIT),
        execution_fees.fits(),
    ensures
        result.profit@.eqv(final_profit(simulated_profit@, execution_fees@)),
        result.profit@.within(2 * SCALE_LIMIT + 2),
        result.transactions == liquidation_txs,
{
    let slippage = Decimal::percent(5);
    let slippage_factor = Decimal::one().minus(&slippage);
    let kept = simulated_profit.times(&slippage_factor);
    let profit = kept.minus(execution_fees);
    proof {
        lemma_times_eqv(simulated_profit@, simulated_profit@, slippage_factor@, self::slippage_factor());
        lemma_eqv_transitive(
            kept@,
            simulated_profit@.times(slippage_factor@),
            after_slippage(simulated_profit@),
        );
        lemma_minus_eqv(kept@, after_slippage(simulated_profit@), execution_fees@, execution_fees@);
        lemma_eqv_transitive(
            profit@,
            kept@.minus(execution_fees@),
            final_profit(simulated_profit@, execution_fees@),
        );
    }
    ProfitabilityResult { profit, transactions: liquidation_txs }
}

/// The slippage factor is 95 hundredths.
pub proof fn lemma_slippage_factor_value()
    ensures
        slippage_factor() == (DecimalValue { unscaled: 95, scale: 2 }),
{
    lemma_pow10_small();
}

/// With everything else fixed, the profit falls by exactly what the execution
/// fees rise by: two profits differ by the opposite of the difference of their
/// fees.
pub proof fn lemma_profit_linear_in_fees(
    debt: DecimalValue,
    factor: DecimalValue,
    fees: DecimalValue,
    other_fees: DecimalValue,
)
    ensures
        profitability(debt, factor, fees).minus(profitability(debt, factor, other_fees)).eqv(
            other_fees.minus(fees),
        ),
{
    let kept = after_slippage(simulated_profit(debt, factor));
    let at = larger(kept.scale, larger(fees.scale, other_fees.scale));
    lemma_minus_units(kept, fees, at);
    lemma_minus_units(kept, other_fees, at);
    lemma_minus_units(kept.minus(fees), kept.minus(other_fees), at);
    lemma_minus_units(other_fees, fees, at);
    lemma_eqv_at(kept.minus(fees).minus(kept.minus(other_fees)), other_fees.minus(fees), at);
}

/// The slippage haircut is exactly 5% of the simulated profit, whatever its
/// size and sign: the simulated profit less what is left of it after slippage
/// is the simulated profit times 0.05.
pub proof fn lemma_haircut_is_five_percent(simulated: DecimalValue)
    ensures
        simulated.minus(after_slippage(simulated)).eqv(simulated.times(slippage())),
{
    lemma_slippage_factor_value();
    lemma_pow10_small();
    let at = simulated.scale + 2;
    let kept = after_slippage(simulated);
    let s = simulated.unscaled;
    lemma_minus_units(simulated, kept, at);
    lemma_times_units(simulated, slippage_factor(), simulated.scale, 2);
    lemma_times_units(simulated, slippage(), simulated.scale, 2);
    assert(simulated.units(simulated.scale) == s);
    assert(simulated.units(at) == s * 100);
    assert(s * 100 - s * 95 == s * 5);
    lemma_eqv_at(simulated.minus(kept), simulated.times(slippage()), at);
}

/// The profit threshold is inclusive: a profit that equals the threshold, at
/// whatever scale it is written, reaches it, and a profit one unit of the
/// threshold's last decimal place below it does not.
pub proof fn lemma_threshold_is_inclusive(profit: DecimalValue, threshold: DecimalValue)
    requires
        profit.eqv(threshold),
    ensures
        profit.at_least(threshold),
        !(DecimalValue { unscaled: threshold.unscaled - 1, scale: threshold.scale }).at_least(
            threshold,
        ),
{
    lemma_pow10_small();
    let below = DecimalValue { unscaled: threshold.unscaled - 1, scale: threshold.scale };
    assert(below.common_scale(threshold) == threshold.scale);
    assert(below.units(threshold.scale) == below.unscaled * pow10(0));
    assert(threshold.units(threshold.scale) == threshold.unscaled * pow10(0));
}

} // verus!
