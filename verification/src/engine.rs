//! The signal and risk engine: one pass over a new candle.
//!
//! A pass first closes every open trade whose stop-loss or take-profit the
//! candle's close price has reached, then looks for an entry signal against
//! the value-area bounds, and last holds a signal against the daily-loss limit
//! and signs the order. It never talks to the exchange itself: it returns
//! what is to be sent, and [`crate::order::record_order_result`] takes the
//! answer.

use crate::amount::{abs_int, amount_of_text, Amount, Notional};
use crate::kline::Kline;
use crate::order::{is_order_request, prepare_order, OrderRequest, TradeError};
use crate::risk::{
    accounting_day_on, close_triggered_trades, closed_trades, daily_loss_on, roll_accounting_day,
    stays_open, within_daily_limit, ClosedTrade, RiskState, Side, TradingConfig,
};
use crate::window::utc_day;
use vstd::prelude::*;

verus! {

/// One row of the threshold source: the value-area high and low, each
/// present only if the row holds a number under that name.
#[derive(Clone, Copy, Debug, PartialEq, Eq, Structural)]
pub struct VahValRow {
    pub vah: Option<Amount>,
    pub val: Option<Amount>,
}

/// One row of the threshold source as it arrives: for each bound the text
/// of the number found under its name, or `None` where the row holds no
/// number there.
#[derive(Clone, Debug)]
pub struct VahValText {
    pub vah: Option<String>,
    pub val: Option<String>,
}

/// The two price bounds a candle is compared with. Either may be missing.
#[derive(Clone, Copy, Debug, PartialEq, Eq, Structural)]
pub struct Thresholds {
    pub vah: Option<Amount>,
    pub val: Option<Amount>,
}

/// What a pass decided about a new order.
#[derive(Clone, Debug)]
pub enum Decision {
    /// The close price lies within the bounds, or a bound is missing.
    NoSignal,
    /// There was a signal, and the daily-loss limit refused it.
    Rejected { signal: Side },
    /// There was a signal within the daily-loss limit: this is to be sent.
    Submit { request: OrderRequest },
}

/// The result of a pass: the trades it closed and its decision.
#[derive(Clone, Debug)]
pub struct Evaluation {
    pub closed: Vec<ClosedTrade>,
    pub decision: Decision,
}

/// The characters of a bound's text.
pub open spec fn bound_text(text: Option<String>) -> Option<Seq<char>> {
    match text {
        Some(s) => Some(s@),
        None => None,
    }
}

/// The bound that a text writes: the amount it denotes. A missing text is a
/// missing bound.
pub open spec fn bound_of_text(text: Option<Seq<char>>) -> Option<Amount> {
    match text {
        Some(s) => amount_of_text(s),
        None => None,
    }
}

/// The text is missing, or it is a decimal that an [`Amount`] holds
/// exactly.
pub open spec fn bound_is_exact(text: Option<Seq<char>>) -> bool {
    text is Some ==> amount_of_text(text->0) is Some
}

/// Both numbers of the row, where it has them, are read without loss.
pub open spec fn row_text_is_exact(raw: VahValText) -> bool {
    bound_is_exact(bound_text(raw.vah)) && bound_is_exact(bound_text(raw.val))
}

/// Every number of every row is read without loss.
pub open spec fn rows_text_is_exact(raw: Seq<VahValText>) -> bool {
    forall|i: int| 0 <= i < raw.len() ==> row_text_is_exact(#[trigger] raw[i])
}

/// The row that a raw row writes.
pub open spec fn row_of_text(raw: VahValText) -> VahValRow {
    VahValRow {
        vah: bound_of_text(bound_text(raw.vah)),
        val: bound_of_text(bound_text(raw.val)),
    }
}

/// The rows that raw rows write, in their order.
pub open spec fn rows_of_text(raw: Seq<VahValText>) -> Seq<VahValRow> {
    Seq::new(raw.len(), |i: int| row_of_text(raw[i]))
}

/// A row counts only if it holds both bounds.
pub open spec fn row_is_complete(row: VahValRow) -> bool {
    row.vah is Some && row.val is Some
}

/// The bounds that a list of rows folds into: those of the last complete
/// row, or none if no row is complete.
pub open spec fn folded_vah_val(rows: Seq<VahValRow>) -> Thresholds
    decreases rows.len(),
{
    if rows.len() == 0 {
        Thresholds { vah: None, val: None }
    } else if row_is_complete(rows.last()) {
        Thresholds { vah: rows.last().vah, val: rows.last().val }
    } else {
        folded_vah_val(rows.drop_last())
    }
}

/// The entry rule: buy above the upper bound, sell below the lower bound,
/// nothing in between, and nothing at all unless both bounds are there.
pub open spec fn entry_signal_of(close: Amount, bounds: Thresholds) -> Option<Side> {
    match (bounds.vah, bounds.val) {
        (Some(vah), Some(val)) => if close.units > vah.units {
            Some(Side::Buy)
        } else if close.units < val.units {
            Some(Side::Sell)
        } else {
            None
        },
        _ => None,
    }
}

/// The notional of an order at `price`: the fixed trade quantity times the
/// price.
pub open spec fn order_notional(config: TradingConfig, price: Amount) -> Notional {
    Notional { units: (config.trade_amount.units * price.units) as i128 }
}

/// Reads one bound. `Err` if the text is a number that no amount holds
/// exactly.
fn read_bound(text: &Option<String>) -> (bound: Result<Option<Amount>, ()>)
    ensures
        bound is Ok <==> bound_is_exact(bound_text(*text)),
        bound matches Ok(b) ==> b == bound_of_text(bound_text(*text)),
{
    match text {
        None => Ok(None),
        Some(s) => match Amount::parse(s.as_str()) {
            Some(amount) => Ok(Some(amount)),
            None => Err(()),
        },
    }
}

/// Reads the rows of the threshold source. The rows come out only if every
/// number in them is read without loss; a number with more digits than an
/// amount holds, or one not written in plain decimal notation, refuses the
/// whole reply. Nothing is rounded.
pub fn read_vah_val_rows(raw: &Vec<VahValText>) -> (rows: Option<Vec<VahValRow>>)
    ensures
        rows is Some <==> rows_text_is_exact(raw@),
        rows matches Some(read) ==> read@ == rows_of_text(raw@),
{
    let mut rows: Vec<VahValRow> = Vec::new();
    let n: usize = raw.len();
    let mut i: usize = 0;
    while i < n
        invariant
            i <= n,
            n == raw.len(),
            rows@.len() == i,
            forall|k: int| 0 <= k < i ==> row_text_is_exact(#[trigger] raw@[k]),
            forall|k: int| 0 <= k < i ==> #[trigger] rows@[k] == row_of_text(raw@[k]),
        decreases n - i,
    {
        let vah = match read_bound(&raw[i].vah) {
            Ok(bound) => bound,
            Err(_) => {
                assert(!row_text_is_exact(raw@[i as int]));
                return None;
            },
        };
        let val = match read_bound(&raw[i].val) {
            Ok(bound) => bound,
            Err(_) => {
                assert(!row_text_is_exact(raw@[i as int]));
                return None;
            },
        };
        rows.push(VahValRow { vah, val });
        i = i + 1;
    }
    assert(rows@ =~= rows_of_text(raw@));
    Some(rows)
}

/// Folds the rows of the threshold source into the two bounds. The last row
/// that holds both wins.
pub fn fold_vah_val(rows: &Vec<VahValRow>) -> (bounds: Thresholds)
    ensures
        bounds == folded_vah_val(rows@),
{
    let mut bounds = Thresholds { vah: None, val: None };
    let n: usize = rows.len();
    let mut i: usize = 0;
    proof {
        assert(rows@.take(0) =~= Seq::<VahValRow>::empty());
    }
    while i < n
        invariant
            i <= n,
            n == rows.len(),
            bounds == folded_vah_val(rows@.take(i as int)),
        decreases n - i,
    {
        let row = rows[i];
        proof {
            assert(rows@.take(i as int + 1).drop_last() =~= rows@.take(i as int));
            assert(rows@.take(i as int + 1).last() == row);
        }
        if row.vah.is_some() && row.val.is_some() {
            bounds = Thresholds { vah: row.vah, val: row.val };
        }
        i = i + 1;
    }
    proof {
        assert(rows@.take(n as int) =~= rows@);
    }
    bounds
}

/// Law: after folding, either no row was complete and both bounds are
/// missing, or both bounds come from one and the same complete row and no
/// later row is complete.
pub proof fn lemma_folded_vah_val(rows: Seq<VahValRow>)
    ensures
        ({
            let bounds = folded_vah_val(rows);
            ||| (bounds.vah is None && bounds.val is None && forall|i: int|
                0 <= i < rows.len() ==> !row_is_complete(#[trigger] rows[i]))
            ||| exists|i: int|
                0 <= i < rows.len() && row_is_complete(#[trigger] rows[i]) && bounds.vah
                    == rows[i].vah && bounds.val == rows[i].val && forall|j: int|
                    i < j < rows.len() ==> !row_is_complete(#[trigger] rows[j])
        }),
    decreases rows.len(),
{
    if rows.len() > 0 {
        if row_is_complete(rows.last()) {
            assert(row_is_complete(rows[rows.len() - 1]));
        } else {
            let shorter = rows.drop_last();
            lemma_folded_vah_val(shorter);
            let bounds = folded_vah_val(shorter);
            if bounds.vah is None && bounds.val is None && forall|i: int|
                0 <= i < shorter.len() ==> !row_is_complete(#[trigger] shorter[i]) {
                assert forall|i: int| 0 <= i < rows.len() implies !row_is_complete(
                    #[trigger] rows[i],
                ) by {
                    if i < shorter.len() {
                        assert(rows[i] == shorter[i]);
                    }
                }
            } else {
                let i = choose|i: int|
                    0 <= i < shorter.len() && row_is_complete(#[trigger] shorter[i]) && bounds.vah
                        == shorter[i].vah && bounds.val == shorter[i].val && forall|j: int|
                        i < j < shorter.len() ==> !row_is_complete(#[trigger] shorter[j]);
                assert(rows[i] == shorter[i]);
                assert forall|j: int| i < j < rows.len() implies !row_is_complete(
                    #[trigger] rows[j],
                ) by {
                    if j < shorter.len() {
                        assert(rows[j] == shorter[j]);
                    }
                }
            }
        }
    }
}

/// Looks for an entry signal in a close price.
pub fn entry_signal(close: Amount, bounds: &Thresholds) -> (signal: Option<Side>)
    ensures
        signal == entry_signal_of(close, *bounds),
{
    match (bounds.vah, bounds.val) {
        (Some(vah), Some(val)) => {
            if close.units > vah.units {
                Some(Side::Buy)
            } else if close.units < val.units {
                Some(Side::Sell)
            } else {
                None
            }
        },
        _ => None,
    }
}

/// One pass of the engine over a new candle, at the instant `now_ms`.
///
/// The pass begins by rolling the accounting day to the UTC day of `now_ms`.
/// Exits come next: every open trade that the close price stops out or
/// takes profit on is removed and reported, and the accumulator is left as
/// it is. Then at most one entry signal is drawn from the bounds. A signal
/// is held against the daily-loss limit at the notional
/// `trade_amount × close`; if it is within the limit, that notional is
/// committed and the signed order is returned for submission, else the
/// signal is reported as rejected and the accumulator stays.
pub fn compare_with_vah_val(
    kline: &Kline,
    vah_val: &Thresholds,
    state: &mut RiskState,
    config: &TradingConfig,
    secret: &str,
    now_ms: i64,
) -> (evaluation: Evaluation)
    ensures
        evaluation.closed@ == closed_trades(
            old(state).open_trades@,
            kline.close_price,
            config.risk_management,
        ),
        final(state).open_trades@ == old(state).open_trades@.filter(
            stays_open(kline.close_price, config.risk_management),
        ),
        final(state).accounting_day == accounting_day_on(*old(state), utc_day(now_ms as int)),
        match entry_signal_of(kline.close_price, *vah_val) {
            None => evaluation.decision is NoSignal && final(state).daily_loss == daily_loss_on(
                *old(state),
                utc_day(now_ms as int),
            ),
            Some(signal) => if within_daily_limit(
                daily_loss_on(*old(state), utc_day(now_ms as int)),
                order_notional(*config, kline.close_price),
                config.risk_management,
            ) {
                &&& evaluation.decision matches Decision::Submit { request }
                &&& is_order_request(
                    request,
                    *config,
                    signal,
                    kline.close_price,
                    secret@,
                    now_ms as int,
                )
                &&& final(state).daily_loss == daily_loss_on(*old(state), utc_day(now_ms as int))
                    + abs_int(config.trade_amount.units * kline.close_price.units)
            } else {
                &&& evaluation.decision == (Decision::Rejected { signal })
                &&& final(state).daily_loss == daily_loss_on(*old(state), utc_day(now_ms as int))
            },
        },
{
    roll_accounting_day(state, now_ms);
    let closed = close_triggered_trades(state, kline.close_price, config);
    let decision = match entry_signal(kline.close_price, vah_val) {
        None => Decision::NoSignal,
        Some(signal) => match prepare_order(
            state,
            config,
            signal,
            kline.close_price,
            secret,
            now_ms,
        ) {
            Ok(request) => Decision::Submit { request },
            Err(_) => Decision::Rejected { signal },
        },
    };
    Evaluation { closed, decision }
}

} // verus!
