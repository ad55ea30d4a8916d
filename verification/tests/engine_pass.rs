use kline_trader::amount::{Amount, Notional};
use kline_trader::engine::{compare_with_vah_val, entry_signal, Decision, Thresholds};
use kline_trader::kline::Kline;
use kline_trader::order::record_order_result;
use kline_trader::risk::{CloseReason, RiskState, Side, TradeRecord, TradingConfig};

fn amount(text: &str) -> Amount {
    Amount::parse(text).unwrap()
}

fn bounds(vah: &str, val: &str) -> Thresholds {
    Thresholds { vah: Some(amount(vah)), val: Some(amount(val)) }
}

fn candle(close: &str) -> Kline {
    Kline {
        kline_open_time: 1_715_932_800_000,
        open_price: amount(close),
        high_price: amount(close),
        low_price: amount(close),
        close_price: amount(close),
        volume: amount("1"),
        quote_asset_volume: amount("1"),
        kline_close_time: 1_715_947_199_999,
    }
}

#[test]
fn signal_generation() {
    let b = bounds("100", "90");
    assert_eq!(entry_signal(amount("105"), &b), Some(Side::Buy));
    assert_eq!(entry_signal(amount("85"), &b), Some(Side::Sell));
    assert_eq!(entry_signal(amount("95"), &b), None);
}

#[test]
fn signal_is_strict_at_the_bounds() {
    let b = bounds("100", "90");
    assert_eq!(entry_signal(amount("100"), &b), None);
    assert_eq!(entry_signal(amount("90"), &b), None);
    assert_eq!(entry_signal(amount("100.00000001"), &b), Some(Side::Buy));
    assert_eq!(entry_signal(amount("89.99999999"), &b), Some(Side::Sell));
}

#[test]
fn signal_needs_both_bounds() {
    let close = amount("105");
    assert_eq!(entry_signal(close, &Thresholds { vah: None, val: None }), None);
    assert_eq!(entry_signal(close, &Thresholds { vah: Some(amount("100")), val: None }), None);
    assert_eq!(entry_signal(amount("1"), &Thresholds { vah: None, val: Some(amount("90")) }), None);
}

#[test]
fn buy_wins_where_the_bounds_are_crossed() {
    // Upper bound below the lower one: a close in between is above the
    // upper bound first.
    assert_eq!(entry_signal(amount("95"), &bounds("90", "100")), Some(Side::Buy));
}

#[test]
fn pass_without_signal_changes_nothing_but_exits() {
    let config = TradingConfig::default();
    let stays = TradeRecord {
        entry_price: amount("95"),
        quantity: amount("0.0002"),
        side: Side::Buy,
        entry_time: 1,
    };
    let stopped = TradeRecord {
        entry_price: amount("120"),
        quantity: amount("0.0002"),
        side: Side::Buy,
        entry_time: 2,
    };
    let mut state =
        RiskState { open_trades: vec![stopped, stays], daily_loss: 5, accounting_day: 0 };
    let evaluation =
        compare_with_vah_val(&candle("95"), &bounds("100", "90"), &mut state, &config, "s", 7);
    assert!(matches!(evaluation.decision, Decision::NoSignal));
    assert_eq!(evaluation.closed.len(), 1);
    assert_eq!(evaluation.closed[0].trade, stopped);
    assert_eq!(evaluation.closed[0].reason, CloseReason::StopLoss);
    assert_eq!(state.open_trades, vec![stays]);
    assert_eq!(state.daily_loss, 5);
}

#[test]
fn pass_with_an_accepted_signal_returns_the_order() {
    let config = TradingConfig::default();
    let mut state = RiskState::new();
    let evaluation = compare_with_vah_val(
        &candle("20000"),
        &bounds("19000", "18000"),
        &mut state,
        &config,
        "secret",
        1_700_000_000_000,
    );
    match evaluation.decision {
        Decision::Submit { request } => {
            assert_eq!(request.side, Side::Buy);
            assert_eq!(request.price, amount("20000"));
            assert_eq!(
                request.url,
                "https://api.binance.com/api/v3/order?symbol=BTCUSDT&side=BUY&type=MARKET\
                 &quantity=0.0002&timestamp=1700000000000\
                 &signature=8a6c7c86627b07476e64f259eaaf998d9cb930b578cf06128fc251033ee4c390"
            );
        }
        _ => panic!("no order was returned"),
    }
    assert!(evaluation.closed.is_empty());
    assert_eq!(state.daily_loss, Notional::from_amount(amount("4")).magnitude());
    assert!(state.open_trades.is_empty());
}

#[test]
fn pass_with_a_rejected_signal_keeps_the_accumulator() {
    let config = TradingConfig::default();
    let mut state = RiskState {
        open_trades: Vec::new(),
        daily_loss: Notional::from_amount(amount("4")).magnitude(),
        accounting_day: 0,
    };
    let evaluation = compare_with_vah_val(
        &candle("10000"),
        &bounds("30000", "20000"),
        &mut state,
        &config,
        "secret",
        1,
    );
    assert!(matches!(evaluation.decision, Decision::Rejected { signal: Side::Sell }));
    assert_eq!(state.daily_loss, Notional::from_amount(amount("4")).magnitude());
}

#[test]
fn closing_a_trade_gives_nothing_back_to_the_accumulator() {
    let config = TradingConfig::default();
    let mut state = RiskState::new();
    let first = compare_with_vah_val(
        &candle("20000"),
        &bounds("19000", "18000"),
        &mut state,
        &config,
        "secret",
        1,
    );
    let request = match first.decision {
        Decision::Submit { request } => request,
        _ => panic!("no order was returned"),
    };
    assert!(record_order_result(&mut state, &request, true, String::new(), 2).is_ok());
    assert_eq!(state.open_trades.len(), 1);
    // The price falls through the stop: the trade closes, the accumulator
    // stays, and the next signal is refused for it.
    let second = compare_with_vah_val(
        &candle("15000"),
        &bounds("19000", "18000"),
        &mut state,
        &config,
        "secret",
        3,
    );
    assert_eq!(second.closed.len(), 1);
    assert_eq!(second.closed[0].reason, CloseReason::StopLoss);
    assert!(state.open_trades.is_empty());
    assert!(matches!(second.decision, Decision::Rejected { signal: Side::Sell }));
    assert_eq!(state.daily_loss, Notional::from_amount(amount("4")).magnitude());
}

#[test]
fn a_pass_on_a_later_day_begins_that_day() {
    let config = TradingConfig::default();
    let mut state = RiskState { open_trades: Vec::new(), daily_loss: 5, accounting_day: 3 };
    let evaluation = compare_with_vah_val(
        &candle("95"),
        &bounds("100", "90"),
        &mut state,
        &config,
        "s",
        4 * 86_400_000,
    );
    assert!(matches!(evaluation.decision, Decision::NoSignal));
    assert_eq!(state.daily_loss, 0);
    assert_eq!(state.accounting_day, 4);
}

#[test]
fn a_failed_order_does_not_roll_the_accumulator_back() {
    let config = TradingConfig::default();
    let mut state = RiskState::new();
    let evaluation = compare_with_vah_val(
        &candle("20000"),
        &bounds("19000", "18000"),
        &mut state,
        &config,
        "secret",
        1,
    );
    let request = match evaluation.decision {
        Decision::Submit { request } => request,
        _ => panic!("no order was returned"),
    };
    assert!(record_order_result(&mut state, &request, false, String::from("no"), 2).is_err());
    assert!(state.open_trades.is_empty());
    assert_eq!(state.daily_loss, Notional::from_amount(amount("4")).magnitude());
}
