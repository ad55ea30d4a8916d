//! Candlesticks: how one is read from the provider's field array and how it
//! is written out for storage.
//!
//! The provider sends each candle as an array of at least eight fields:
//! open time, open, high, low, close, volume, close time and quote-asset
//! volume. The two times are integers of milliseconds; the six numbers are
//! decimal strings. A record is read once, here, and nothing else in the
//! crate looks at raw fields. An array is read exactly or not at all: a
//! value that cannot be held without loss refuses the candle.

use crate::amount::{amount_of_text, amount_text, lemma_amount_text_round_trip, Amount};
use crate::text::{append_int, int_text};
use crate::window::TimeWindow;
use vstd::prelude::*;

verus! {

/// One field of a provider array, as far as a candle cares: an integer, a
/// string, or anything else.
#[derive(Clone, Debug)]
pub enum Field {
    Integer(i64),
    Text(String),
    Other,
}

/// A closed candlestick. Times are milliseconds since the Unix epoch.
#[derive(Clone, Copy, Debug, PartialEq, Eq, Structural)]
pub struct Kline {
    pub kline_open_time: i64,
    pub open_price: Amount,
    pub high_price: Amount,
    pub low_price: Amount,
    pub close_price: Amount,
    pub volume: Amount,
    pub quote_asset_volume: Amount,
    pub kline_close_time: i64,
}

/// A candlestick as it is stored: the same eight values under their column
/// names, each amount as its canonical decimal text.
#[derive(Clone, Debug)]
pub struct KlineRecord {
    pub klines_open_time: i64,
    pub open_price: String,
    pub high_price: String,
    pub low_price: String,
    pub close_price: String,
    pub volume: String,
    pub quote_asset_volume: String,
    pub klines_close_time: i64,
}

/// What became of the first array of a provider reply.
#[derive(Clone, Copy, Debug, PartialEq, Eq, Structural)]
pub enum FirstKline {
    /// The reply held no array: the provider has nothing for the window.
    NoData,
    /// The first array was read, exactly, into this candle.
    Candle(Kline),
    /// The first array is no candle that can be held exactly.
    Unreadable,
}

/// The time a field holds, if it holds an integer.
pub open spec fn field_millis(field: Field) -> Option<i64> {
    match field {
        Field::Integer(ms) => Some(ms),
        _ => None,
    }
}

/// The amount a field holds, if it is a decimal text that an [`Amount`]
/// holds exactly. Nothing else is an amount: no other kind of field, and no
/// text that would have to be rounded or cut.
pub open spec fn field_amount(field: Field) -> Option<Amount> {
    match field {
        Field::Text(s) => amount_of_text(s@),
        _ => None,
    }
}

/// Every field of the array holds what its place calls for: there are at
/// least eight fields, the two times are integers, and the six numbers are
/// decimal texts that are read without loss.
pub open spec fn row_is_exact(row: Seq<Field>) -> bool {
    &&& row.len() >= 8
    &&& field_millis(row[0]) is Some
    &&& field_amount(row[1]) is Some
    &&& field_amount(row[2]) is Some
    &&& field_amount(row[3]) is Some
    &&& field_amount(row[4]) is Some
    &&& field_amount(row[5]) is Some
    &&& field_millis(row[6]) is Some
    &&& field_amount(row[7]) is Some
}

/// The candle that a provider array describes. Only an exact array
/// describes one.
pub open spec fn kline_of_row(row: Seq<Field>) -> Option<Kline> {
    if row_is_exact(row) {
        Some(
            Kline {
                kline_open_time: field_millis(row[0])->0,
                open_price: field_amount(row[1])->0,
                high_price: field_amount(row[2])->0,
                low_price: field_amount(row[3])->0,
                close_price: field_amount(row[4])->0,
                volume: field_amount(row[5])->0,
                quote_asset_volume: field_amount(row[7])->0,
                kline_close_time: field_millis(row[6])->0,
            },
        )
    } else {
        None
    }
}

/// What the first array of a reply amounts to.
pub open spec fn first_kline_of(rows: Seq<Vec<Field>>) -> FirstKline {
    if rows.len() == 0 {
        FirstKline::NoData
    } else {
        match kline_of_row(rows[0]@) {
            Some(kline) => FirstKline::Candle(kline),
            None => FirstKline::Unreadable,
        }
    }
}

/// `record` is the stored form of `kline`.
pub open spec fn is_record_of(record: KlineRecord, kline: Kline) -> bool {
    &&& record.klines_open_time == kline.kline_open_time
    &&& record.open_price@ == amount_text(kline.open_price.units as int)
    &&& record.high_price@ == amount_text(kline.high_price.units as int)
    &&& record.low_price@ == amount_text(kline.low_price.units as int)
    &&& record.close_price@ == amount_text(kline.close_price.units as int)
    &&& record.volume@ == amount_text(kline.volume.units as int)
    &&& record.quote_asset_volume@ == amount_text(kline.quote_asset_volume.units as int)
    &&& record.klines_close_time == kline.kline_close_time
}

/// The request for the candle of a window:
/// `…/klines?symbol={symbol}&interval=4h&startTime={start}&endTime={end}`.
pub open spec fn kline_url_text(symbol: Seq<char>, start_ms: int, end_ms: int) -> Seq<char> {
    "https://data-api.binance.vision/api/v3/klines?symbol="@ + symbol + "&interval=4h&startTime="@
        + int_text(start_ms) + "&endTime="@ + int_text(end_ms)
}

/// Law: storing loses nothing. The text an amount is stored as denotes that
/// same amount.
pub proof fn lemma_stored_amount_is_exact(amount: Amount)
    ensures
        amount_of_text(amount_text(amount.units as int)) == Some(amount),
{
    lemma_amount_text_round_trip(amount.units as int);
}

/// Law: a candle that was read from a provider array and then written out
/// for storage keeps all eight values. Whatever array gave the candle, the
/// two stored times are the array's integers, and each stored text denotes
/// the very number that the array's text denotes, unit for unit.
pub proof fn lemma_kline_round_trip(row: Seq<Field>, kline: Kline, record: KlineRecord)
    requires
        kline_of_row(row) == Some(kline),
        is_record_of(record, kline),
    ensures
        row.len() >= 8,
        Some(record.klines_open_time) == field_millis(row[0]),
        Some(record.klines_close_time) == field_millis(row[6]),
        amount_of_text(record.open_price@) is Some,
        amount_of_text(record.open_price@) == field_amount(row[1]),
        amount_of_text(record.high_price@) is Some,
        amount_of_text(record.high_price@) == field_amount(row[2]),
        amount_of_text(record.low_price@) is Some,
        amount_of_text(record.low_price@) == field_amount(row[3]),
        amount_of_text(record.close_price@) is Some,
        amount_of_text(record.close_price@) == field_amount(row[4]),
        amount_of_text(record.volume@) is Some,
        amount_of_text(record.volume@) == field_amount(row[5]),
        amount_of_text(record.quote_asset_volume@) is Some,
        amount_of_text(record.quote_asset_volume@) == field_amount(row[7]),
{
    lemma_stored_amount_is_exact(kline.open_price);
    lemma_stored_amount_is_exact(kline.high_price);
    lemma_stored_amount_is_exact(kline.low_price);
    lemma_stored_amount_is_exact(kline.close_price);
    lemma_stored_amount_is_exact(kline.volume);
    lemma_stored_amount_is_exact(kline.quote_asset_volume);
}

impl Field {
    /// The time the field holds, if it holds an integer.
    pub fn millis(&self) -> (ms: Option<i64>)
        ensures
            ms == field_millis(*self),
    {
        match self {
            Field::Integer(ms) => Some(*ms),
            _ => None,
        }
    }

    /// The amount the field holds, if it is a decimal text that is read
    /// without loss.
    pub fn amount(&self) -> (amount: Option<Amount>)
        ensures
            amount == field_amount(*self),
    {
        match self {
            Field::Text(s) => Amount::parse(s.as_str()),
            _ => None,
        }
    }
}

/// Reads a candle from one provider array. A candle comes out only if the
/// array is exact: a field of the wrong kind, a decimal with more digits
/// than an amount holds, or a missing field refuses the whole array, and
/// nothing is ever replaced by zero.
pub fn parse_kline_row(row: &Vec<Field>) -> (kline: Option<Kline>)
    ensures
        kline == kline_of_row(row@),
{
    if row.len() < 8 {
        return None;
    }
    let kline_open_time = match row[0].millis() {
        Some(ms) => ms,
        None => {
            return None;
        },
    };
    let open_price = match row[1].amount() {
        Some(amount) => amount,
        None => {
            return None;
        },
    };
    let high_price = match row[2].amount() {
        Some(amount) => amount,
        None => {
            return None;
        },
    };
    let low_price = match row[3].amount() {
        Some(amount) => amount,
        None => {
            return None;
        },
    };
    let close_price = match row[4].amount() {
        Some(amount) => amount,
        None => {
            return None;
        },
    };
    let volume = match row[5].amount() {
        Some(amount) => amount,
        None => {
            return None;
        },
    };
    let kline_close_time = match row[6].millis() {
        Some(ms) => ms,
        None => {
            return None;
        },
    };
    let quote_asset_volume = match row[7].amount() {
        Some(amount) => amount,
        None => {
            return None;
        },
    };
    Some(
        Kline {
            kline_open_time,
            open_price,
            high_price,
            low_price,
            close_price,
            volume,
            quote_asset_volume,
            kline_close_time,
        },
    )
}

/// The candle of a provider reply: the first array of the list, read
/// exactly; `NoData` when the list is empty, `Unreadable` when the first
/// array is not exact.
pub fn first_kline(rows: &Vec<Vec<Field>>) -> (first: FirstKline)
    ensures
        first == first_kline_of(rows@),
{
    if rows.len() == 0 {
        FirstKline::NoData
    } else {
        match parse_kline_row(&rows[0]) {
            Some(kline) => FirstKline::Candle(kline),
            None => FirstKline::Unreadable,
        }
    }
}

/// The six texts of the record are read back as the six amounts of the
/// candle.
pub open spec fn record_reads_as(record: KlineRecord, kline: Kline) -> bool {
    &&& amount_of_text(record.open_price@) == Some(kline.open_price)
    &&& amount_of_text(record.high_price@) == Some(kline.high_price)
    &&& amount_of_text(record.low_price@) == Some(kline.low_price)
    &&& amount_of_text(record.close_price@) == Some(kline.close_price)
    &&& amount_of_text(record.volume@) == Some(kline.volume)
    &&& amount_of_text(record.quote_asset_volume@) == Some(kline.quote_asset_volume)
}

/// Writes a candle out for storage: the two times as they are and each
/// amount as its canonical text, which is read back as that same amount.
pub fn kline_record(kline: &Kline) -> (record: KlineRecord)
    ensures
        is_record_of(record, *kline),
        record_reads_as(record, *kline),
{
    proof {
        lemma_stored_amount_is_exact(kline.open_price);
        lemma_stored_amount_is_exact(kline.high_price);
        lemma_stored_amount_is_exact(kline.low_price);
        lemma_stored_amount_is_exact(kline.close_price);
        lemma_stored_amount_is_exact(kline.volume);
        lemma_stored_amount_is_exact(kline.quote_asset_volume);
    }
    KlineRecord {
        klines_open_time: kline.kline_open_time,
        open_price: kline.open_price.to_text(),
        high_price: kline.high_price.to_text(),
        low_price: kline.low_price.to_text(),
        close_price: kline.close_price.to_text(),
        volume: kline.volume.to_text(),
        quote_asset_volume: kline.quote_asset_volume.to_text(),
        klines_close_time: kline.kline_close_time,
    }
}

/// The address that asks the provider for the candle of `window`.
pub fn kline_url(symbol: &str, window: &TimeWindow) -> (url: String)
    ensures
        url@ == kline_url_text(symbol@, window.start_ms as int, window.end_ms as int),
{
    let mut url = String::from_str("https://data-api.binance.vision/api/v3/klines?symbol=");
    url.append(symbol);
    url.append("&interval=4h&startTime=");
    append_int(&mut url, window.start_ms);
    url.append("&endTime=");
    append_int(&mut url, window.end_ms);
    url
}

} // verus!
