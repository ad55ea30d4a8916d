//! Risk state and the rules that guard it: stop-loss and take-profit exits
//! of open trades, and the daily-loss limit that every new order must keep.
//!
//! All comparisons are exact. A price `p` is compared with
//! `entry × (1 ± pct / 100)` by clearing the denominators: both sides are
//! taken as *levels*, integers in units of `10^-18`.

use crate::amount::{abs_int, Amount, Notional};
use crate::window::{utc_day, utc_day_of};
use vstd::prelude::*;

verus! {

/// The direction of a trade.
#[derive(Clone, Copy, Debug, PartialEq, Eq, Structural)]
pub enum Side {
    Buy,
    Sell,
}

/// Why an open trade was closed.
#[derive(Clone, Copy, Debug, PartialEq, Eq, Structural)]
pub enum CloseReason {
    StopLoss,
    TakeProfit,
}

/// The three percentages of the risk policy.
#[derive(Clone, Copy, Debug, PartialEq, Eq, Structural)]
pub struct RiskManagement {
    pub stop_loss_percentage: Amount,
    pub take_profit_percentage: Amount,
    pub max_daily_loss_percentage: Amount,
}

/// What is traded and how, fixed for one run.
#[derive(Clone, Debug)]
pub struct TradingConfig {
    pub symbol: String,
    pub base_asset: String,
    pub quote_asset: String,
    pub trade_amount: Amount,
    pub order_type: String,
    pub risk_management: RiskManagement,
}

/// An open trade.
#[derive(Clone, Copy, Debug, PartialEq, Eq, Structural)]
pub struct TradeRecord {
    pub entry_price: Amount,
    pub quantity: Amount,
    pub side: Side,
    /// Milliseconds since the Unix epoch.
    pub entry_time: i64,
}

/// A trade that an exit rule closed, with the rule that fired.
#[derive(Clone, Copy, Debug, PartialEq, Eq, Structural)]
pub struct ClosedTrade {
    pub trade: TradeRecord,
    pub reason: CloseReason,
}

/// The mutable state of the engine: the open trades, oldest first, the
/// gross notional committed on the accounting day, in units of `10^-16`, and
/// the number of that UTC day.
///
/// Within a day the accumulator only ever grows: it counts every accepted
/// order at its absolute notional and is deliberately left alone when a
/// trade is closed or an order fails, so that the limit errs on the side of
/// caution. It starts again from nothing when a later UTC day begins.
#[derive(Clone, Debug)]
pub struct RiskState {
    pub open_trades: Vec<TradeRecord>,
    pub daily_loss: u128,
    pub accounting_day: i64,
}

/// One hundred percent, in amount units: `100 × 10^8`.
pub open spec fn full_percent() -> int {
    10_000_000_000
}

/// A price as a level.
pub open spec fn price_level(price: Amount) -> int {
    price.units * full_percent()
}

/// The stop-loss price of a trade as a level: `entry × (1 − sl/100)` for a
/// buy, `entry × (1 + sl/100)` for a sell.
pub open spec fn stop_loss_level(trade: TradeRecord, risk: RiskManagement) -> int {
    match trade.side {
        Side::Buy => trade.entry_price.units * (full_percent() - risk.stop_loss_percentage.units),
        Side::Sell => trade.entry_price.units * (full_percent()
            + risk.stop_loss_percentage.units),
    }
}

/// The take-profit price of a trade as a level: `entry × (1 + tp/100)` for a
/// buy, `entry × (1 − tp/100)` for a sell.
pub open spec fn take_profit_level(trade: TradeRecord, risk: RiskManagement) -> int {
    match trade.side {
        Side::Buy => trade.entry_price.units * (full_percent()
            + risk.take_profit_percentage.units),
        Side::Sell => trade.entry_price.units * (full_percent()
            - risk.take_profit_percentage.units),
    }
}

/// The exit rule. A buy is stopped out at or below its stop price and takes
/// profit at or above its target; a sell mirrors this. Where both would
/// fire, the stop-loss wins.
pub open spec fn exit_reason(
    current_price: Amount,
    trade: TradeRecord,
    risk: RiskManagement,
) -> Option<CloseReason> {
    let level = price_level(current_price);
    let stop = stop_loss_level(trade, risk);
    let target = take_profit_level(trade, risk);
    match trade.side {
        Side::Buy => if level <= stop {
            Some(CloseReason::StopLoss)
        } else if level >= target {
            Some(CloseReason::TakeProfit)
        } else {
            None
        },
        Side::Sell => if level >= stop {
            Some(CloseReason::StopLoss)
        } else if level <= target {
            Some(CloseReason::TakeProfit)
        } else {
            None
        },
    }
}

/// The predicate "this trade stays open at this price".
pub open spec fn stays_open(current_price: Amount, risk: RiskManagement) -> spec_fn(
    TradeRecord,
) -> bool {
    |trade: TradeRecord| exit_reason(current_price, trade, risk) is None
}

/// The trades among `trades` that an exit rule closes at this price, in
/// their order, each with its reason.
pub open spec fn closed_trades(
    trades: Seq<TradeRecord>,
    current_price: Amount,
    risk: RiskManagement,
) -> Seq<ClosedTrade>
    decreases trades.len(),
{
    if trades.len() == 0 {
        Seq::empty()
    } else {
        let before = closed_trades(trades.drop_last(), current_price, risk);
        match exit_reason(current_price, trades.last(), risk) {
            Some(reason) => before.push(ClosedTrade { trade: trades.last(), reason }),
            None => before,
        }
    }
}

/// The daily-loss limit in accumulator units.
pub open spec fn daily_limit(risk: RiskManagement) -> int {
    risk.max_daily_loss_percentage.units * 100_000_000
}

/// The limit rule: an order passes when the accumulator plus the order's
/// absolute notional does not exceed the limit.
pub open spec fn within_daily_limit(
    daily_loss: int,
    trade_value: Notional,
    risk: RiskManagement,
) -> bool {
    daily_loss + abs_int(trade_value.units as int) <= daily_limit(risk)
}

/// What the accumulator holds once the accounting day has been rolled to
/// `day`: what was committed, if `day` is not later than the accounting day,
/// and nothing if it is.
pub open spec fn daily_loss_on(state: RiskState, day: int) -> int {
    if day > state.accounting_day {
        0
    } else {
        state.daily_loss as int
    }
}

/// The accounting day once it has been rolled to `day`: the later of the
/// two. The accounting day never goes back.
pub open spec fn accounting_day_on(state: RiskState, day: int) -> int {
    if day > state.accounting_day {
        day
    } else {
        state.accounting_day as int
    }
}

impl Side {
    /// `"BUY"` or `"SELL"`, as the exchange spells it.
    pub open spec fn text(self) -> Seq<char> {
        match self {
            Side::Buy => "BUY"@,
            Side::Sell => "SELL"@,
        }
    }

    pub fn as_str(&self) -> (s: &'static str)
        ensures
            s@ == self.text(),
    {
        match self {
            Side::Buy => "BUY",
            Side::Sell => "SELL",
        }
    }
}

impl CloseReason {
    /// `"STOP_LOSS"` or `"TAKE_PROFIT"`.
    pub open spec fn text(self) -> Seq<char> {
        match self {
            CloseReason::StopLoss => "STOP_LOSS"@,
            CloseReason::TakeProfit => "TAKE_PROFIT"@,
        }
    }

    pub fn as_str(&self) -> (s: &'static str)
        ensures
            s@ == self.text(),
    {
        match self {
            CloseReason::StopLoss => "STOP_LOSS",
            CloseReason::TakeProfit => "TAKE_PROFIT",
        }
    }
}

impl Default for RiskManagement {
    /// Stop-loss 2 %, take-profit 3 %, daily limit 5 %.
    fn default() -> (risk: RiskManagement)
        ensures
            risk.stop_loss_percentage.units == 200_000_000,
            risk.take_profit_percentage.units == 300_000_000,
            risk.max_daily_loss_percentage.units == 500_000_000,
    {
        RiskManagement {
            stop_loss_percentage: Amount { units: 200_000_000 },
            take_profit_percentage: Amount { units: 300_000_000 },
            max_daily_loss_percentage: Amount { units: 500_000_000 },
        }
    }
}

impl Default for TradingConfig {
    /// Market orders of 0.0002 BTC against USDT under the default risk
    /// policy.
    fn default() -> (config: TradingConfig)
        ensures
            config.symbol@ == "BTCUSDT"@,
            config.base_asset@ == "BTC"@,
            config.quote_asset@ == "USDT"@,
            config.trade_amount.units == 20_000,
            config.order_type@ == "MARKET"@,
            config.risk_management.stop_loss_percentage.units == 200_000_000,
            config.risk_management.take_profit_percentage.units == 300_000_000,
            config.risk_management.max_daily_loss_percentage.units == 500_000_000,
    {
        TradingConfig {
            symbol: String::from_str("BTCUSDT"),
            base_asset: String::from_str("BTC"),
            quote_asset: String::from_str("USDT"),
            trade_amount: Amount { units: 20_000 },
            order_type: String::from_str("MARKET"),
            risk_management: RiskManagement {
                stop_loss_percentage: Amount { units: 200_000_000 },
                take_profit_percentage: Amount { units: 300_000_000 },
                max_daily_loss_percentage: Amount { units: 500_000_000 },
            },
        }
    }
}

/// `entry × (10^10 + delta)`, which always fits.
fn scaled_entry(entry: Amount, delta: i128) -> (level: i128)
    requires
        -0x8000_0000_0000_0000 <= delta <= 0x8000_0000_0000_0000,
    ensures
        level == entry.units * (full_percent() + delta),
{
    let e: i128 = entry.units as i128;
    let factor: i128 = 10_000_000_000i128 + delta;
    assert(-0x8000_0000_0000_0000 * 0x8000_0002_540b_e400 <= e * factor <= 0x8000_0000_0000_0000
        * 0x8000_0002_540b_e400) by (nonlinear_arith)
        requires
            -0x8000_0000_0000_0000 <= e <= 0x8000_0000_0000_0000,
            -0x8000_0002_540b_e400 <= factor <= 0x8000_0002_540b_e400,
    ;
    e * factor
}

impl TradeRecord {
    /// The stop-loss price as a level (the price times `10^18`).
    pub fn stop_loss_level(&self, risk: &RiskManagement) -> (level: i128)
        ensures
            level == stop_loss_level(*self, *risk),
    {
        let sl: i128 = risk.stop_loss_percentage.units as i128;
        match self.side {
            Side::Buy => scaled_entry(self.entry_price, -sl),
            Side::Sell => scaled_entry(self.entry_price, sl),
        }
    }

    /// The take-profit price as a level (the price times `10^18`).
    pub fn take_profit_level(&self, risk: &RiskManagement) -> (level: i128)
        ensures
            level == take_profit_level(*self, *risk),
    {
        let tp: i128 = risk.take_profit_percentage.units as i128;
        match self.side {
            Side::Buy => scaled_entry(self.entry_price, tp),
            Side::Sell => scaled_entry(self.entry_price, -tp),
        }
    }
}

/// Decides whether `trade_record` must be closed at `current_price`, and
/// why.
pub fn check_stop_loss_take_profit(
    current_price: Amount,
    trade_record: &TradeRecord,
    config: &TradingConfig,
) -> (reason: Option<CloseReason>)
    ensures
        reason == exit_reason(current_price, *trade_record, config.risk_management),
{
    let level: i128 = (current_price.units as i128) * 10_000_000_000i128;
    let stop: i128 = trade_record.stop_loss_level(&config.risk_management);
    let target: i128 = trade_record.take_profit_level(&config.risk_management);
    match trade_record.side {
        Side::Buy => {
            if level <= stop {
                Some(CloseReason::StopLoss)
            } else if level >= target {
                Some(CloseReason::TakeProfit)
            } else {
                None
            }
        },
        Side::Sell => {
            if level >= stop {
                Some(CloseReason::StopLoss)
            } else if level <= target {
                Some(CloseReason::TakeProfit)
            } else {
                None
            }
        },
    }
}

impl RiskState {
    /// No open trades, nothing committed, and no accounting day yet: the
    /// first instant the state is rolled to begins one.
    pub fn new() -> (state: RiskState)
        ensures
            state.open_trades@ == Seq::<TradeRecord>::empty(),
            state.daily_loss == 0,
            state.accounting_day == i64::MIN,
    {
        RiskState { open_trades: Vec::new(), daily_loss: 0, accounting_day: i64::MIN }
    }
}

/// Rolls the accounting window to the UTC day of `now_ms`. If that day is
/// later than the accounting day, it becomes the accounting day and the
/// accumulator starts again from nothing; otherwise nothing changes. The
/// open trades are carried over either way.
pub fn roll_accounting_day(state: &mut RiskState, now_ms: i64)
    ensures
        final(state).daily_loss == daily_loss_on(*old(state), utc_day(now_ms as int)),
        final(state).accounting_day == accounting_day_on(*old(state), utc_day(now_ms as int)),
        final(state).open_trades == old(state).open_trades,
{
    let day: i64 = utc_day_of(now_ms);
    if day > state.accounting_day {
        state.daily_loss = 0;
        state.accounting_day = day;
    }
}

/// The daily-loss limit. Accepts the order exactly when the accumulator plus
/// the order's absolute notional stays within the limit, and then commits
/// that notional; a refused order leaves the state as it was.
pub fn check_daily_loss_limit(
    state: &mut RiskState,
    config: &TradingConfig,
    trade_value: Notional,
) -> (accepted: bool)
    ensures
        accepted == within_daily_limit(
            old(state).daily_loss as int,
            trade_value,
            config.risk_management,
        ),
        final(state).daily_loss == (if accepted {
            old(state).daily_loss + abs_int(trade_value.units as int)
        } else {
            old(state).daily_loss as int
        }),
        accepted ==> final(state).daily_loss <= daily_limit(config.risk_management),
        final(state).daily_loss >= old(state).daily_loss,
        final(state).open_trades == old(state).open_trades,
        final(state).accounting_day == old(state).accounting_day,
{
    let limit: i128 = (config.risk_management.max_daily_loss_percentage.units as i128)
        * 100_000_000i128;
    if limit < 0 {
        return false;
    }
    let limit: u128 = limit as u128;
    if state.daily_loss > limit {
        return false;
    }
    let size: u128 = trade_value.magnitude();
    if size > limit - state.daily_loss {
        return false;
    }
    state.daily_loss = state.daily_loss + size;
    true
}

/// Exit evaluation: removes every open trade whose stop-loss or take-profit
/// fires at `current_price` and returns the removed trades with their
/// reasons. The trades that stay keep their order, and the accumulator is
/// not touched.
pub fn close_triggered_trades(
    state: &mut RiskState,
    current_price: Amount,
    config: &TradingConfig,
) -> (closed: Vec<ClosedTrade>)
    ensures
        final(state).open_trades@ == old(state).open_trades@.filter(
            stays_open(current_price, config.risk_management),
        ),
        closed@ == closed_trades(old(state).open_trades@, current_price, config.risk_management),
        final(state).daily_loss == old(state).daily_loss,
        final(state).accounting_day == old(state).accounting_day,
{
    let ghost risk = config.risk_management;
    let ghost all = state.open_trades@;
    let mut kept: Vec<TradeRecord> = Vec::new();
    let mut closed: Vec<ClosedTrade> = Vec::new();
    let n: usize = state.open_trades.len();
    let mut i: usize = 0;
    proof {
        reveal(Seq::filter);
        assert(all.take(0) =~= Seq::<TradeRecord>::empty());
    }
    while i < n
        invariant
            i <= n,
            n == state.open_trades.len(),
            state.open_trades@ == all,
            risk == config.risk_management,
            kept@ == all.take(i as int).filter(stays_open(current_price, risk)),
            closed@ == closed_trades(all.take(i as int), current_price, risk),
        decreases n - i,
    {
        let trade = state.open_trades[i];
        let reason = check_stop_loss_take_profit(current_price, &trade, config);
        proof {
            reveal(Seq::filter);
            assert(all.take(i as int + 1).drop_last() =~= all.take(i as int));
            assert(all.take(i as int + 1).last() == trade);
        }
        match reason {
            Some(reason) => {
                closed.push(ClosedTrade { trade, reason });
            },
            None => {
                kept.push(trade);
            },
        }
        i = i + 1;
    }
    proof {
        assert(all.take(n as int) =~= all);
    }
    state.open_trades = kept;
    closed
}

/// Law: exit evaluation never closes a trade that should stay open nor
/// keeps one that should close. Every trade that was open is, afterwards,
/// either still open (and no rule fires for it) or among the closed ones.
pub proof fn lemma_exits_partition_trades(
    trades: Seq<TradeRecord>,
    current_price: Amount,
    risk: RiskManagement,
)
    ensures
        trades.filter(stays_open(current_price, risk)).len() + closed_trades(
            trades,
            current_price,
            risk,
        ).len() == trades.len(),
        forall|i: int|
            0 <= i < trades.filter(stays_open(current_price, risk)).len() ==> exit_reason(
                current_price,
                #[trigger] trades.filter(stays_open(current_price, risk))[i],
                risk,
            ) is None,
        forall|i: int|
            0 <= i < closed_trades(trades, current_price, risk).len() ==> exit_reason(
                current_price,
                (#[trigger] closed_trades(trades, current_price, risk)[i]).trade,
                risk,
            ) == Some(closed_trades(trades, current_price, risk)[i].reason),
    decreases trades.len(),
{
    reveal(Seq::filter);
    if trades.len() > 0 {
        lemma_exits_partition_trades(trades.drop_last(), current_price, risk);
    }
}

} // verus!
