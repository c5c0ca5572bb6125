use bigdecimal::num_bigint::BigInt;
use bigdecimal::BigDecimal;
use liquidation_monitor::chain::ContractCall;
use liquidation_monitor::decimal::{Decimal, SCALE_LIMIT};
use liquidation_monitor::monitoring::MonitoringService;
use liquidation_monitor::protocol::{Action, Config, Event, MonitoringError, Step, Verdict};
use liquidation_monitor::position::{Asset, Position, PositionBook};
use liquidation_monitor::profitability::LiquidationMode;
use std::str::FromStr;

type Felt = starknet::core::types::Felt;

fn dec(text: &str) -> Decimal {
    let (digits, scale) = BigDecimal::from_str(text).unwrap().into_bigint_and_exponent();
    Decimal { digits: digits.to_signed_bytes_le(), scale }
}

fn big(decimal: &Decimal) -> BigDecimal {
    BigDecimal::new(BigInt::from_signed_bytes_le(&decimal.digits), decimal.scale)
}

fn exact(text: &str) -> BigDecimal {
    BigDecimal::from_str(text).unwrap()
}

fn position(key: u64, debt: &str) -> Position {
    Position {
        key,
        debt: Asset { name: "USDC".to_string(), amount: dec(debt) },
        collateral: Asset { name: "ETH".to_string(), amount: dec("2") },
    }
}

fn address() -> [u8; 32] {
    let mut bytes = [0u8; 32];
    bytes[31] = 0x2a;
    bytes
}

fn calls() -> Vec<ContractCall> {
    vec![ContractCall { to: Felt::from(7u8), selector: Felt::from(8u8), calldata: vec![Felt::from(9u8)] }]
}

fn service_over(keys: &[u64], mode: LiquidationMode, min_profit: &str) -> MonitoringService {
    let mut book = PositionBook::new();
    for key in keys {
        book.insert(position(*key, "1000"));
    }
    let config = Config { liquidation_mode: mode, liquidate_address: address() };
    MonitoringService::new(config, book, 10, dec(min_profit))
}

/// Takes a service over one position up to the estimate of the fees, with the
/// amounts of the worked example: debt 1000, collateral 2000, factor 0.1.
fn up_to_the_fees(service: &mut MonitoringService) {
    assert!(matches!(service.step(Event::Tick).action, Action::CheckLiquidable { key: 1 }));
    assert!(matches!(
        service.step(Event::Assessed(Verdict::Liquidable)).action,
        Action::ComputeAmounts { key: 1, .. }
    ));
    let step = service.step(Event::Sized {
        liquidable_debt: dec("1000"),
        liquidable_collateral: dec("2000"),
        liquidation_factor: dec("0.1"),
    });
    assert!(matches!(step.action, Action::BuildTransactions { .. }));
    let step = service.step(Event::Built { transactions: calls() });
    assert!(matches!(step.action, Action::EstimateFees));
}

fn is_halt(step: &Step, error: MonitoringError) -> bool {
    step.attempt.is_none() && matches!(step.action, Action::Halt(found) if found == error)
}

#[test]
fn the_position_under_examination_is_the_one_asked_about() {
    let mut service = service_over(&[4, 2], LiquidationMode::Partial, "500");
    assert!(service.under_examination().is_none());
    let mut action = service.step(Event::Tick).action;
    while let Action::CheckLiquidable { key } = action {
        assert_eq!(service.under_examination().unwrap().key, key);
        action = service.step(Event::Assessed(Verdict::Healthy)).action;
    }
    assert!(service.under_examination().is_none());
}

#[test]
fn start_waits_for_the_first_event() {
    let mut service = service_over(&[1], LiquidationMode::Partial, "500");
    assert!(matches!(service.start(), Action::AwaitEvent));
    assert!(service.stopped().is_none());
    assert_eq!(service.check_positions_interval(), 10);
    assert_eq!(service.positions().len(), 1);
    assert!(matches!(service.step(Event::Tick).action, Action::CheckLiquidable { key: 1 }));
}

#[test]
fn start_does_not_revive_a_stopped_service() {
    let mut service = service_over(&[1], LiquidationMode::Partial, "500");
    service.step(Event::ProducerClosed);
    assert!(matches!(service.start(), Action::Halt(MonitoringError::ProducerClosed)));
    assert_eq!(service.stopped(), Some(MonitoringError::ProducerClosed));

    let mut service = service_over(&[1], LiquidationMode::Partial, "500");
    service.step(Event::Tick);
    assert!(matches!(service.start(), Action::Halt(MonitoringError::OutOfTurn)));
    assert_eq!(service.stopped(), Some(MonitoringError::OutOfTurn));
}

#[test]
fn sweep_over_an_empty_book_asks_for_nothing() {
    let mut service = service_over(&[], LiquidationMode::Partial, "500");
    for _ in 0..3 {
        let step = service.step(Event::Tick);
        assert!(matches!(step.action, Action::AwaitEvent));
        assert!(step.attempt.is_none());
        assert!(service.stopped().is_none());
    }
}

#[test]
fn an_update_is_merged_and_saved_with_its_block_number() {
    let mut service = service_over(&[], LiquidationMode::Partial, "500");
    let step = service.step(Event::Update { block_number: 42, position: position(7, "10") });
    assert!(matches!(step.action, Action::Persist { block_number: 42 }));
    assert_eq!(service.positions().len(), 1);
    assert_eq!(big(&service.positions().get(7).unwrap().debt.amount), exact("10"));
    let step = service.step(Event::Saved);
    assert!(matches!(step.action, Action::AwaitEvent));
}

#[test]
fn the_last_update_of_a_key_wins() {
    let mut service = service_over(&[], LiquidationMode::Partial, "500");
    let updates = [(1u64, 7u64, "10"), (2, 9, "20"), (3, 7, "30"), (4, 9, "40"), (5, 7, "50")];
    for (block_number, key, debt) in updates {
        let step = service.step(Event::Update { block_number, position: position(key, debt) });
        assert!(matches!(step.action, Action::Persist { block_number: saved } if saved == block_number));
        assert_eq!(big(&service.positions().get(key).unwrap().debt.amount), exact(debt));
        assert!(matches!(service.step(Event::Saved).action, Action::AwaitEvent));
    }
    assert_eq!(service.positions().len(), 2);
    assert_eq!(big(&service.positions().get(7).unwrap().debt.amount), exact("50"));
    assert_eq!(big(&service.positions().get(9).unwrap().debt.amount), exact("40"));
}

#[test]
fn a_failed_save_stops_monitoring() {
    let mut service = service_over(&[], LiquidationMode::Partial, "500");
    service.step(Event::Update { block_number: 1, position: position(7, "10") });
    let step = service.step(Event::Failed);
    assert!(is_halt(&step, MonitoringError::Storage));
    assert_eq!(service.stopped(), Some(MonitoringError::Storage));
}

#[test]
fn a_closed_producer_stops_monitoring_for_good() {
    let mut service = service_over(&[1], LiquidationMode::Partial, "500");
    let step = service.step(Event::ProducerClosed);
    assert!(is_halt(&step, MonitoringError::ProducerClosed));
    assert_eq!(service.stopped(), Some(MonitoringError::ProducerClosed));
    let step = service.step(Event::Tick);
    assert!(is_halt(&step, MonitoringError::ProducerClosed));
    let step = service.step(Event::Update { block_number: 1, position: position(2, "1") });
    assert!(is_halt(&step, MonitoringError::ProducerClosed));
    assert_eq!(service.positions().len(), 1);
}

#[test]
fn a_position_without_a_price_is_passed_over() {
    let mut service = service_over(&[1], LiquidationMode::Partial, "500");
    assert!(matches!(service.step(Event::Tick).action, Action::CheckLiquidable { key: 1 }));
    let step = service.step(Event::Assessed(Verdict::PriceMissing));
    assert!(matches!(step.action, Action::AwaitEvent));
    assert!(step.attempt.is_none());
    assert!(service.stopped().is_none());
}

#[test]
fn a_healthy_position_is_passed_over() {
    let mut service = service_over(&[1], LiquidationMode::Partial, "500");
    service.step(Event::Tick);
    let step = service.step(Event::Assessed(Verdict::Healthy));
    assert!(matches!(step.action, Action::AwaitEvent));
    assert!(step.attempt.is_none());
}

#[test]
fn a_sweep_visits_every_position_once() {
    let mut service = service_over(&[4, 2, 9], LiquidationMode::Partial, "500");
    let mut visited = Vec::new();
    let mut action = service.step(Event::Tick).action;
    while let Action::CheckLiquidable { key } = action {
        visited.push(key);
        action = service.step(Event::Assessed(Verdict::Healthy)).action;
    }
    assert!(matches!(action, Action::AwaitEvent));
    visited.sort();
    assert_eq!(visited, vec![2, 4, 9]);
}

#[test]
fn a_profitable_liquidation_is_executed_once() {
    let mut service = service_over(&[1], LiquidationMode::Partial, "500");
    assert!(matches!(service.step(Event::Tick).action, Action::CheckLiquidable { key: 1 }));
    let step = service.step(Event::Assessed(Verdict::Liquidable));
    assert!(matches!(
        step.action,
        Action::ComputeAmounts { key: 1, liquidation_mode: LiquidationMode::Partial }
    ));
    let step = service.step(Event::Sized {
        liquidable_debt: dec("1000"),
        liquidable_collateral: dec("2000"),
        liquidation_factor: dec("0.1"),
    });
    match step.action {
        Action::BuildTransactions {
            key,
            liquidate_address,
            debt_to_liquidate,
            min_collateral_to_receive,
        } => {
            assert_eq!(key, 1);
            assert_eq!(liquidate_address, address());
            assert_eq!(big(&debt_to_liquidate), exact("100"));
            assert_eq!(big(&min_collateral_to_receive), exact("200"));
        }
        other => panic!("unexpected action {:?}", other),
    }
    assert!(service.pending_transactions().is_none());
    let step = service.step(Event::Built { transactions: calls() });
    assert!(matches!(step.action, Action::EstimateFees));
    assert_eq!(service.pending_transactions(), Some(&calls()));
    let step = service.step(Event::FeesEstimated { execution_fees: dec("10") });
    assert!(step.attempt.is_none());
    match step.action {
        Action::Execute { transactions } => assert_eq!(transactions, calls()),
        other => panic!("unexpected action {:?}", other),
    }
    let submitted = Felt::from_hex("0x1234").unwrap().to_bytes_be();
    let step = service.step(Event::Submitted { tx_hash: submitted });
    assert!(step.attempt.is_none());
    match step.action {
        Action::AwaitAcceptance { tx_hash } => {
            assert_eq!(tx_hash, submitted);
            assert_eq!(tx_hash[30..], [0x12, 0x34]);
        }
        other => panic!("unexpected action {:?}", other),
    }
    let step = service.step(Event::Accepted);
    assert!(matches!(step.action, Action::AwaitEvent));
    let attempt = step.attempt.unwrap();
    assert_eq!(attempt.key, 1);
    assert_eq!(big(&attempt.profit), exact("845"));
    assert_eq!(attempt.tx_hash, Some("0x1234".to_string()));
    assert!(service.stopped().is_none());
}

#[test]
fn a_profit_below_the_threshold_is_skipped_and_still_reported() {
    let mut service = service_over(&[1], LiquidationMode::Partial, "900");
    up_to_the_fees(&mut service);
    let step = service.step(Event::FeesEstimated { execution_fees: dec("10") });
    assert!(matches!(step.action, Action::AwaitEvent));
    let attempt = step.attempt.unwrap();
    assert_eq!(attempt.key, 1);
    assert_eq!(big(&attempt.profit), exact("845"));
    assert_eq!(attempt.tx_hash, None);
    assert!(service.stopped().is_none());
}

#[test]
fn the_threshold_is_inclusive() {
    let mut service = service_over(&[1], LiquidationMode::Partial, "845.00");
    up_to_the_fees(&mut service);
    let step = service.step(Event::FeesEstimated { execution_fees: dec("10") });
    assert!(matches!(step.action, Action::Execute { .. }));

    let mut service = service_over(&[1], LiquidationMode::Partial, "845");
    up_to_the_fees(&mut service);
    let step = service.step(Event::FeesEstimated { execution_fees: dec("10.001") });
    assert!(matches!(step.action, Action::AwaitEvent));
    assert_eq!(big(&step.attempt.unwrap().profit), exact("844.999"));
}

#[test]
fn full_mode_asks_for_no_debt_to_be_repaid() {
    let mut service = service_over(&[1], LiquidationMode::Full, "500");
    service.step(Event::Tick);
    let step = service.step(Event::Assessed(Verdict::Liquidable));
    assert!(matches!(
        step.action,
        Action::ComputeAmounts { key: 1, liquidation_mode: LiquidationMode::Full }
    ));
    let step = service.step(Event::Sized {
        liquidable_debt: dec("1000"),
        liquidable_collateral: dec("2000"),
        liquidation_factor: dec("0.1"),
    });
    match step.action {
        Action::BuildTransactions { debt_to_liquidate, min_collateral_to_receive, .. } => {
            assert_eq!(big(&debt_to_liquidate), exact("0"));
            assert_eq!(big(&min_collateral_to_receive), exact("200"));
        }
        other => panic!("unexpected action {:?}", other),
    }
}

#[test]
fn the_sweep_goes_on_after_an_attempt() {
    let mut service = service_over(&[1, 2], LiquidationMode::Partial, "900");
    let first = match service.step(Event::Tick).action {
        Action::CheckLiquidable { key } => key,
        other => panic!("unexpected action {:?}", other),
    };
    service.step(Event::Assessed(Verdict::Liquidable));
    service.step(Event::Sized {
        liquidable_debt: dec("1000"),
        liquidable_collateral: dec("2000"),
        liquidation_factor: dec("0.1"),
    });
    service.step(Event::Built { transactions: calls() });
    let step = service.step(Event::FeesEstimated { execution_fees: dec("10") });
    assert_eq!(step.attempt.unwrap().key, first);
    match step.action {
        Action::CheckLiquidable { key } => assert_eq!(key, 3 - first),
        other => panic!("unexpected action {:?}", other),
    }
    let step = service.step(Event::Assessed(Verdict::Healthy));
    assert!(matches!(step.action, Action::AwaitEvent));
}

#[test]
fn a_failure_during_a_sweep_stops_monitoring() {
    let mut service = service_over(&[1], LiquidationMode::Partial, "500");
    service.step(Event::Tick);
    let step = service.step(Event::Failed);
    assert!(is_halt(&step, MonitoringError::Chain));

    let mut service = service_over(&[1], LiquidationMode::Partial, "500");
    up_to_the_fees(&mut service);
    let step = service.step(Event::Failed);
    assert!(is_halt(&step, MonitoringError::Chain));

    let mut service = service_over(&[1], LiquidationMode::Partial, "500");
    up_to_the_fees(&mut service);
    service.step(Event::FeesEstimated { execution_fees: dec("10") });
    service.step(Event::Submitted { tx_hash: address() });
    let step = service.step(Event::Failed);
    assert!(is_halt(&step, MonitoringError::Chain));
    assert!(is_halt(&service.step(Event::Accepted), MonitoringError::Chain));
}

#[test]
fn the_largest_hash_is_awaited_as_it_was_submitted() {
    let mut service = service_over(&[1], LiquidationMode::Partial, "500");
    up_to_the_fees(&mut service);
    service.step(Event::FeesEstimated { execution_fees: dec("10") });
    let largest = Felt::MAX.to_bytes_be();
    let step = service.step(Event::Submitted { tx_hash: largest });
    assert!(matches!(step.action, Action::AwaitAcceptance { tx_hash } if tx_hash == largest));
    let step = service.step(Event::Accepted);
    assert_eq!(step.attempt.unwrap().tx_hash, Some(Felt::MAX.to_hex_string()));
}

#[test]
fn a_scale_beyond_the_limit_stops_monitoring() {
    let mut service = service_over(&[1], LiquidationMode::Partial, "500");
    service.step(Event::Tick);
    service.step(Event::Assessed(Verdict::Liquidable));
    let step = service.step(Event::Sized {
        liquidable_debt: Decimal { digits: vec![1], scale: SCALE_LIMIT + 1 },
        liquidable_collateral: dec("2000"),
        liquidation_factor: dec("0.1"),
    });
    assert!(is_halt(&step, MonitoringError::Arithmetic));

    let mut service = service_over(&[1], LiquidationMode::Partial, "500");
    up_to_the_fees(&mut service);
    let step = service.step(Event::FeesEstimated {
        execution_fees: Decimal { digits: vec![1], scale: -SCALE_LIMIT - 1 },
    });
    assert!(is_halt(&step, MonitoringError::Arithmetic));
}

#[test]
fn an_event_out_of_turn_stops_monitoring() {
    let mut service = service_over(&[1], LiquidationMode::Partial, "500");
    assert!(is_halt(&service.step(Event::Accepted), MonitoringError::OutOfTurn));

    let mut service = service_over(&[1], LiquidationMode::Partial, "500");
    assert!(is_halt(&service.step(Event::Failed), MonitoringError::OutOfTurn));

    let mut service = service_over(&[1], LiquidationMode::Partial, "500");
    service.step(Event::Tick);
    let step = service.step(Event::Update { block_number: 3, position: position(5, "1") });
    assert!(is_halt(&step, MonitoringError::OutOfTurn));
    assert!(service.positions().get(5).is_none());

    let mut service = service_over(&[1], LiquidationMode::Partial, "500");
    service.step(Event::Tick);
    assert!(is_halt(&service.step(Event::Tick), MonitoringError::OutOfTurn));
}

#[test]
fn monitor_positions_liquidability_begins_a_sweep() {
    let mut service = service_over(&[6], LiquidationMode::Partial, "500");
    let step = service.monitor_positions_liquidability();
    assert!(matches!(step.action, Action::CheckLiquidable { key: 6 }));
    assert!(step.attempt.is_none());
    let step = service.monitor_positions_liquidability();
    assert!(is_halt(&step, MonitoringError::OutOfTurn));
}

#[test]
fn try_to_liquidate_position_decides_by_the_threshold() {
    let mut service = service_over(&[1], LiquidationMode::Partial, "500");
    up_to_the_fees(&mut service);
    let step = service.try_to_liquidate_position(dec("10"));
    assert!(matches!(step.action, Action::Execute { .. }));

    let mut service = service_over(&[1], LiquidationMode::Partial, "500");
    up_to_the_fees(&mut service);
    let step = service.try_to_liquidate_position(dec("355.5"));
    assert!(matches!(step.action, Action::AwaitEvent));
    assert_eq!(big(&step.attempt.unwrap().profit), exact("499.5"));

    let mut service = service_over(&[1], LiquidationMode::Partial, "500");
    let step = service.try_to_liquidate_position(dec("10"));
    assert!(is_halt(&step, MonitoringError::OutOfTurn));
}

#[test]
fn wait_for_tx_to_be_accepted_reads_the_hash() {
    let service = service_over(&[], LiquidationMode::Partial, "500");
    match service.wait_for_tx_to_be_accepted("0xff") {
        Ok(Action::AwaitAcceptance { tx_hash }) => {
            let mut expected = [0u8; 32];
            expected[31] = 0xff;
            assert_eq!(tx_hash, expected);
        }
        other => panic!("unexpected answer {:?}", other),
    }
    match service.wait_for_tx_to_be_accepted("1A") {
        Ok(Action::AwaitAcceptance { tx_hash }) => assert_eq!(tx_hash[31], 26),
        other => panic!("unexpected answer {:?}", other),
    }
    assert!(matches!(service.wait_for_tx_to_be_accepted(""), Err(MonitoringError::Chain)));
    assert!(matches!(service.wait_for_tx_to_be_accepted("0xzz"), Err(MonitoringError::Chain)));
}

#[test]
fn acceptance_of_maps_the_outcome_of_reading_a_hash() {
    let hash = Felt::from_hex("0x10").map(|felt| felt.to_bytes_be());
    match MonitoringService::acceptance_of(hash) {
        Ok(Action::AwaitAcceptance { tx_hash }) => assert_eq!(tx_hash[31], 16),
        other => panic!("unexpected answer {:?}", other),
    }
    let refused = Felt::from_hex("xyz").map(|felt| felt.to_bytes_be());
    assert!(matches!(MonitoringService::acceptance_of(refused), Err(MonitoringError::Chain)));
}

#[test]
fn every_error_has_its_message() {
    assert_eq!(MonitoringError::ProducerClosed.message(), "Monitoring stopped unexpectedly.");
    assert_eq!(MonitoringError::Chain.message(), "A call to the chain failed.");
    assert_eq!(MonitoringError::Storage.message(), "The positions could not be saved.");
    assert_eq!(MonitoringError::Arithmetic.message(), "A decimal is out of range.");
    assert_eq!(MonitoringError::OutOfTurn.message(), "An event came out of turn.");
}
