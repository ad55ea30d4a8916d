//! The order client: the canonical parameter string of an order, its keyed
//! signature, and the two steps around the submission itself. Submitting is
//! left to the caller; this module decides what is sent and what a reply
//! does to the risk state.

use crate::amount::{abs_int, amount_text, lemma_amount_text_round_trip, Amount, Notional};
use crate::risk::{
    accounting_day_on, check_daily_loss_limit, daily_loss_on, roll_accounting_day,
    within_daily_limit, RiskState, Side, TradeRecord, TradingConfig,
};
use crate::text::{append_int, int_text, lemma_int_text_injective};
use crate::window::utc_day;
use hmac::{Hmac, Mac};
use sha2::Sha256;
use vstd::prelude::*;

verus! {

/// The HMAC-SHA256 tag of `message` under `key`, as the `hmac` and `sha2`
/// crates compute it. The tag depends on the two byte strings and on nothing
/// else.
pub uninterp spec fn hmac_sha256_digest(key: Seq<u8>, message: Seq<u8>) -> Seq<u8>;

/// Computes an HMAC-SHA256 tag with `hmac::Hmac<sha2::Sha256>`: the key is
/// handed to `new_from_slice`, the message to `update`, and the tag is what
/// `finalize().into_bytes()` gives.
///
/// Trusted: the result is the tag named by [`hmac_sha256_digest`], and it is
/// 32 bytes long, the output size of SHA-256. `new_from_slice` of this MAC
/// pads or hashes the key to the block size and returns `Ok` for a key of
/// any length, so the call cannot fail.
#[verifier::external_body]
fn hmac_sha256(key: &[u8], message: &[u8]) -> (digest: Vec<u8>)
    ensures
        digest@ == hmac_sha256_digest(key@, message@),
        digest@.len() == 32,
{
    let mut mac = Hmac::<Sha256>::new_from_slice(key).expect("HMAC takes a key of any length");
    mac.update(message);
    mac.finalize().into_bytes().to_vec()
}

/// The lower-case hexadecimal digit for `n`.
pub open spec fn hex_digit(n: int) -> char
    recommends
        0 <= n < 16,
{
    if n == 0 {
        '0'
    } else if n == 1 {
        '1'
    } else if n == 2 {
        '2'
    } else if n == 3 {
        '3'
    } else if n == 4 {
        '4'
    } else if n == 5 {
        '5'
    } else if n == 6 {
        '6'
    } else if n == 7 {
        '7'
    } else if n == 8 {
        '8'
    } else if n == 9 {
        '9'
    } else if n == 10 {
        'a'
    } else if n == 11 {
        'b'
    } else if n == 12 {
        'c'
    } else if n == 13 {
        'd'
    } else if n == 14 {
        'e'
    } else {
        'f'
    }
}

/// The lower-case hexadecimal text of a byte string: two digits per byte,
/// high nibble first.
pub open spec fn hex_text(bytes: Seq<u8>) -> Seq<char>
    decreases bytes.len(),
{
    if bytes.len() == 0 {
        Seq::empty()
    } else {
        hex_text(bytes.drop_last()).push(hex_digit(bytes.last() as int / 16)).push(
            hex_digit(bytes.last() as int % 16),
        )
    }
}

/// Hex-encodes with `hex::encode`.
///
/// Trusted: the result is [`hex_text`] of the bytes. `hex::encode` walks the
/// bytes in order and emits, for each, the characters of the table
/// `0123456789abcdef` at the high nibble (the byte divided by 16) and at the
/// low nibble (the remainder).
#[verifier::external_body]
fn hex_encode(bytes: &[u8]) -> (text: String)
    ensures
        text@ == hex_text(bytes@),
{
    hex::encode(bytes)
}

/// The canonical parameter string of an order:
/// `symbol={s}&side={BUY|SELL}&type={t}&quantity={q}&timestamp={ms}`.
pub open spec fn order_query_text(
    symbol: Seq<char>,
    side: Side,
    order_type: Seq<char>,
    quantity: Amount,
    timestamp: int,
) -> Seq<char> {
    "symbol="@ + symbol + "&side="@ + side.text() + "&type="@ + order_type + "&quantity="@
        + amount_text(quantity.units as int) + "&timestamp="@ + int_text(timestamp)
}

/// The signature of a parameter string: the hex text of the HMAC-SHA256 tag
/// of its UTF-8 bytes under the UTF-8 bytes of the secret.
pub open spec fn signature_text(secret: Seq<char>, query: Seq<char>) -> Seq<char> {
    hex_text(hmac_sha256_digest(vstd::utf8::encode_utf8(secret), vstd::utf8::encode_utf8(query)))
}

/// The address an order is posted to: the endpoint, the parameter string and
/// the signature as the last parameter.
pub open spec fn order_url_text(query: Seq<char>, signature: Seq<char>) -> Seq<char> {
    "https://api.binance.com/api/v3/order"@ + "?"@ + query + "&signature="@ + signature
}

/// `true` for the sixteen characters `0` to `9` and `a` to `f`.
pub open spec fn is_hex_digit(c: char) -> bool {
    ('0' <= c <= '9') || ('a' <= c <= 'f')
}

/// The shape of a signature: 64 lower-case hexadecimal digits.
pub open spec fn is_signature(text: Seq<char>) -> bool {
    &&& text.len() == 64
    &&& forall|i: int| 0 <= i < text.len() ==> is_hex_digit(#[trigger] text[i])
}

/// A signed order, ready to be posted.
#[derive(Clone, Debug)]
pub struct OrderRequest {
    pub side: Side,
    /// The close price the order was decided at; the entry price if it fills.
    pub price: Amount,
    pub quantity: Amount,
    /// The millisecond timestamp that was signed.
    pub timestamp: i64,
    pub url: String,
}

/// Why no trade was opened.
#[derive(Clone, Debug)]
pub enum TradeError {
    /// The daily-loss limit refused the order; nothing was sent.
    DailyLossExceeded,
    /// The exchange refused the order; `detail` is its reply, verbatim.
    OrderFailed { detail: String },
}

/// What a request for `signal` at `current_price`, signed at `timestamp`
/// under `secret`, holds.
pub open spec fn is_order_request(
    request: OrderRequest,
    config: TradingConfig,
    signal: Side,
    current_price: Amount,
    secret: Seq<char>,
    timestamp: int,
) -> bool {
    let query = order_query_text(
        config.symbol@,
        signal,
        config.order_type@,
        config.trade_amount,
        timestamp,
    );
    &&& request.side == signal
    &&& request.price == current_price
    &&& request.quantity == config.trade_amount
    &&& request.timestamp == timestamp
    &&& request.url@ == order_url_text(query, signature_text(secret, query))
    &&& is_signature(signature_text(secret, query))
}

/// The hex text of `n` bytes has `2n` characters.
pub proof fn lemma_hex_text_len(bytes: Seq<u8>)
    ensures
        hex_text(bytes).len() == 2 * bytes.len(),
    decreases bytes.len(),
{
    if bytes.len() > 0 {
        lemma_hex_text_len(bytes.drop_last());
    }
}

/// Law: a hex text holds nothing but lower-case hexadecimal digits.
pub proof fn lemma_hex_text_is_hex(bytes: Seq<u8>)
    ensures
        forall|i: int|
            0 <= i < hex_text(bytes).len() ==> is_hex_digit(#[trigger] hex_text(bytes)[i]),
    decreases bytes.len(),
{
    if bytes.len() > 0 {
        lemma_hex_text_is_hex(bytes.drop_last());
        lemma_hex_text_len(bytes.drop_last());
        let x = bytes.last() as int;
        assert(is_hex_digit(hex_digit(x / 16)));
        assert(is_hex_digit(hex_digit(x % 16)));
    }
}

/// Law: hex encoding loses nothing. Two byte strings with the same hex text
/// are the same byte string.
pub proof fn lemma_hex_text_injective(a: Seq<u8>, b: Seq<u8>)
    requires
        hex_text(a) == hex_text(b),
    ensures
        a == b,
    decreases a.len(),
{
    lemma_hex_text_len(a);
    lemma_hex_text_len(b);
    if a.len() > 0 {
        let ha = hex_text(a.drop_last());
        let hb = hex_text(b.drop_last());
        let x = a.last() as int;
        let y = b.last() as int;
        let ta = ha.push(hex_digit(x / 16)).push(hex_digit(x % 16));
        let tb = hb.push(hex_digit(y / 16)).push(hex_digit(y % 16));
        assert(ta == tb);
        lemma_hex_text_len(a.drop_last());
        lemma_hex_text_len(b.drop_last());
        assert(ta[ta.len() - 1] == hex_digit(x % 16));
        assert(tb[tb.len() - 1] == hex_digit(y % 16));
        assert(ta[ta.len() - 2] == hex_digit(x / 16));
        assert(tb[tb.len() - 2] == hex_digit(y / 16));
        assert(x == y);
        assert(ha =~= ta.take(ta.len() - 2));
        assert(hb =~= tb.take(tb.len() - 2));
        lemma_hex_text_injective(a.drop_last(), b.drop_last());
        assert(a =~= a.drop_last().push(a.last()));
        assert(b =~= b.drop_last().push(b.last()));
    } else {
        assert(a =~= b);
    }
}

/// Law: signing is a function. The same secret and the same parameter
/// string always give the same signature.
pub proof fn lemma_signature_deterministic(
    secret1: Seq<char>,
    query1: Seq<char>,
    secret2: Seq<char>,
    query2: Seq<char>,
)
    requires
        secret1 == secret2,
        query1 == query2,
    ensures
        signature_text(secret1, query1) == signature_text(secret2, query2),
{
}

/// Law: two signatures are equal exactly when the tags under them are. The
/// hex text adds no collisions of its own.
pub proof fn lemma_signature_equal_iff_tag_equal(
    secret1: Seq<char>,
    query1: Seq<char>,
    secret2: Seq<char>,
    query2: Seq<char>,
)
    ensures
        signature_text(secret1, query1) == signature_text(secret2, query2) <==> hmac_sha256_digest(
            vstd::utf8::encode_utf8(secret1),
            vstd::utf8::encode_utf8(query1),
        ) == hmac_sha256_digest(vstd::utf8::encode_utf8(secret2), vstd::utf8::encode_utf8(query2)),
{
    let t1 = hmac_sha256_digest(vstd::utf8::encode_utf8(secret1), vstd::utf8::encode_utf8(query1));
    let t2 = hmac_sha256_digest(vstd::utf8::encode_utf8(secret2), vstd::utf8::encode_utf8(query2));
    if hex_text(t1) == hex_text(t2) {
        lemma_hex_text_injective(t1, t2);
    }
}

/// What stands after a common beginning is determined by the whole.
pub proof fn lemma_concat_left_cancel(a: Seq<char>, x: Seq<char>, y: Seq<char>)
    requires
        a + x == a + y,
    ensures
        x == y,
{
    assert((a + x).len() == a.len() + x.len());
    assert((a + y).len() == a.len() + y.len());
    assert forall|i: int| 0 <= i < x.len() implies x[i] == y[i] by {
        assert((a + x)[a.len() + i] == x[i]);
        assert((a + y)[a.len() + i] == y[i]);
    }
    assert(x =~= y);
}

/// What stands before a common ending is determined by the whole.
pub proof fn lemma_concat_right_cancel(x: Seq<char>, y: Seq<char>, b: Seq<char>)
    requires
        x + b == y + b,
    ensures
        x == y,
{
    assert((x + b).len() == x.len() + b.len());
    assert((y + b).len() == y.len() + b.len());
    assert forall|i: int| 0 <= i < x.len() implies x[i] == y[i] by {
        assert((x + b)[i] == x[i]);
        assert((y + b)[i] == y[i]);
    }
    assert(x =~= y);
}

/// `"BUY"` and `"SELL"` are different words.
pub proof fn lemma_side_text_injective(a: Side, b: Side)
    requires
        a.text() == b.text(),
    ensures
        a == b,
{
    reveal_strlit("BUY");
    reveal_strlit("SELL");
    assert("BUY"@.len() == 3);
    assert("SELL"@.len() == 4);
}

/// Law: the parameter string changes whenever a single field changes. If
/// two orders have the same parameter string and agree on all fields but
/// possibly one, they agree on that one too.
pub proof fn lemma_order_query_tells_fields_apart(
    symbol1: Seq<char>,
    side1: Side,
    type1: Seq<char>,
    quantity1: Amount,
    timestamp1: int,
    symbol2: Seq<char>,
    side2: Side,
    type2: Seq<char>,
    quantity2: Amount,
    timestamp2: int,
)
    requires
        order_query_text(symbol1, side1, type1, quantity1, timestamp1) == order_query_text(
            symbol2,
            side2,
            type2,
            quantity2,
            timestamp2,
        ),
        (side1 == side2 && type1 == type2 && quantity1 == quantity2 && timestamp1 == timestamp2)
            || (symbol1 == symbol2 && type1 == type2 && quantity1 == quantity2 && timestamp1
            == timestamp2) || (symbol1 == symbol2 && side1 == side2 && quantity1 == quantity2
            && timestamp1 == timestamp2) || (symbol1 == symbol2 && side1 == side2 && type1
            == type2 && timestamp1 == timestamp2) || (symbol1 == symbol2 && side1 == side2
            && type1 == type2 && quantity1 == quantity2),
    ensures
        symbol1 == symbol2,
        side1 == side2,
        type1 == type2,
        quantity1 == quantity2,
        timestamp1 == timestamp2,
{
    // The string up to and including each field, for either order.
    let a1 = "symbol="@ + symbol1;
    let a2 = "symbol="@ + symbol2;
    let b1 = a1 + "&side="@ + side1.text();
    let b2 = a2 + "&side="@ + side2.text();
    let c1 = b1 + "&type="@ + type1;
    let c2 = b2 + "&type="@ + type2;
    let d1 = c1 + "&quantity="@ + amount_text(quantity1.units as int);
    let d2 = c2 + "&quantity="@ + amount_text(quantity2.units as int);
    let e1 = d1 + "&timestamp="@ + int_text(timestamp1);
    let e2 = d2 + "&timestamp="@ + int_text(timestamp2);
    assert(e1 == e2);
    if timestamp1 != timestamp2 {
        lemma_concat_left_cancel(
            d1 + "&timestamp="@,
            int_text(timestamp1),
            int_text(timestamp2),
        );
        lemma_int_text_injective(timestamp1, timestamp2);
    } else {
        lemma_concat_right_cancel(d1 + "&timestamp="@, d2 + "&timestamp="@, int_text(timestamp1));
        lemma_concat_right_cancel(d1, d2, "&timestamp="@);
        if quantity1 != quantity2 {
            lemma_concat_left_cancel(
                c1 + "&quantity="@,
                amount_text(quantity1.units as int),
                amount_text(quantity2.units as int),
            );
            lemma_amount_text_round_trip(quantity1.units as int);
            lemma_amount_text_round_trip(quantity2.units as int);
        } else {
            lemma_concat_right_cancel(
                c1 + "&quantity="@,
                c2 + "&quantity="@,
                amount_text(quantity1.units as int),
            );
            lemma_concat_right_cancel(c1, c2, "&quantity="@);
            if type1 != type2 {
                lemma_concat_left_cancel(b1 + "&type="@, type1, type2);
            } else {
                lemma_concat_right_cancel(b1 + "&type="@, b2 + "&type="@, type1);
                lemma_concat_right_cancel(b1, b2, "&type="@);
                if side1 != side2 {
                    lemma_concat_left_cancel(a1 + "&side="@, side1.text(), side2.text());
                    lemma_side_text_injective(side1, side2);
                } else {
                    lemma_concat_right_cancel(a1 + "&side="@, a2 + "&side="@, side1.text());
                    lemma_concat_right_cancel(a1, a2, "&side="@);
                    lemma_concat_left_cancel("symbol="@, symbol1, symbol2);
                }
            }
        }
    }
}

/// Builds the canonical parameter string of an order for `signal`.
pub fn order_query(config: &TradingConfig, signal: Side, timestamp: i64) -> (query: String)
    ensures
        query@ == order_query_text(
            config.symbol@,
            signal,
            config.order_type@,
            config.trade_amount,
            timestamp as int,
        ),
{
    let mut query = String::from_str("symbol=");
    query.append(config.symbol.as_str());
    query.append("&side=");
    query.append(signal.as_str());
    query.append("&type=");
    query.append(config.order_type.as_str());
    query.append("&quantity=");
    config.trade_amount.append_to(&mut query);
    query.append("&timestamp=");
    append_int(&mut query, timestamp);
    query
}

/// Signs a parameter string with the shared secret: HMAC-SHA256 over the
/// UTF-8 bytes, hex-encoded. The signature is 64 lower-case hexadecimal
/// digits.
pub fn sign(secret: &str, query: &str) -> (signature: String)
    ensures
        signature@ == signature_text(secret@, query@),
        is_signature(signature@),
{
    let tag = hmac_sha256(secret.as_bytes(), query.as_bytes());
    let signature = hex_encode(tag.as_slice());
    proof {
        lemma_hex_text_len(tag@);
        lemma_hex_text_is_hex(tag@);
    }
    signature
}

/// The address to post a signed order to.
pub fn signed_order_url(query: &str, signature: &str) -> (url: String)
    ensures
        url@ == order_url_text(query@, signature@),
{
    let mut url = String::from_str("https://api.binance.com/api/v3/order");
    url.append("?");
    url.append(query);
    url.append("&signature=");
    url.append(signature);
    url
}

/// The header that carries the API key. The key goes here and nowhere else:
/// it is never part of the parameter string or of the address.
pub fn api_key_header(api_key: &str) -> (header: (String, String))
    ensures
        header.0@ == "X-MBX-APIKEY"@,
        header.1@ == api_key@,
{
    (String::from_str("X-MBX-APIKEY"), String::from_str(api_key))
}

/// First half of a trade: holds the order against the daily-loss limit and,
/// if it is accepted, signs it.
///
/// The accounting day is first rolled to the UTC day of `now_ms`, so the
/// limit counts only what was committed on that day. The order's notional
/// is `trade_amount × current_price`. Acceptance commits the absolute
/// notional to the accumulator at once, before the order is sent, and
/// nothing takes it back if the exchange later refuses. A rejected order
/// commits nothing and yields `DailyLossExceeded`.
pub fn prepare_order(
    state: &mut RiskState,
    config: &TradingConfig,
    signal: Side,
    current_price: Amount,
    secret: &str,
    now_ms: i64,
) -> (prepared: Result<OrderRequest, TradeError>)
    ensures
        prepared is Ok <==> within_daily_limit(
            daily_loss_on(*old(state), utc_day(now_ms as int)),
            Notional { units: (config.trade_amount.units * current_price.units) as i128 },
            config.risk_management,
        ),
        prepared matches Ok(request) ==> is_order_request(
            request,
            *config,
            signal,
            current_price,
            secret@,
            now_ms as int,
        ) && final(state).daily_loss == daily_loss_on(*old(state), utc_day(now_ms as int))
            + abs_int(config.trade_amount.units * current_price.units),
        prepared matches Err(e) ==> e == TradeError::DailyLossExceeded && final(state).daily_loss
            == daily_loss_on(*old(state), utc_day(now_ms as int)),
        final(state).accounting_day == accounting_day_on(*old(state), utc_day(now_ms as int)),
        final(state).open_trades == old(state).open_trades,
{
    roll_accounting_day(state, now_ms);
    let trade_value = Notional::of(config.trade_amount, current_price);
    if !check_daily_loss_limit(state, config, trade_value) {
        return Err(TradeError::DailyLossExceeded);
    }
    let query = order_query(config, signal, now_ms);
    let signature = sign(secret, query.as_str());
    let url = signed_order_url(query.as_str(), signature.as_str());
    Ok(
        OrderRequest {
            side: signal,
            price: current_price,
            quantity: config.trade_amount,
            timestamp: now_ms,
            url,
        },
    )
}

/// Second half of a trade: takes the exchange's answer.
///
/// On success the filled order becomes the newest open trade, entered at
/// the request's price and quantity at time `now_ms`. On failure the reply
/// body is handed back verbatim and the open trades stay as they were. The
/// accumulator is not touched either way.
pub fn record_order_result(
    state: &mut RiskState,
    request: &OrderRequest,
    success: bool,
    body: String,
    now_ms: i64,
) -> (outcome: Result<(), TradeError>)
    ensures
        success ==> outcome is Ok && final(state).open_trades@ == old(state).open_trades@.push(
            TradeRecord {
                entry_price: request.price,
                quantity: request.quantity,
                side: request.side,
                entry_time: now_ms,
            },
        ),
        !success ==> outcome == Err::<(), TradeError>(TradeError::OrderFailed { detail: body })
            && final(state).open_trades@ == old(state).open_trades@,
        final(state).daily_loss == old(state).daily_loss,
        final(state).accounting_day == old(state).accounting_day,
{
    if success {
        state.open_trades.push(
            TradeRecord {
                entry_price: request.price,
                quantity: request.quantity,
                side: request.side,
                entry_time: now_ms,
            },
        );
        Ok(())
    } else {
        Err(TradeError::OrderFailed { detail: body })
    }
}

impl TradeError {
    /// What the error says, for a log line.
    pub open spec fn message_text(self) -> Seq<char> {
        match self {
            TradeError::DailyLossExceeded => "Daily loss limit exceeded"@,
            TradeError::OrderFailed { detail } => "Trade failed: "@ + detail@,
        }
    }

    pub fn message(&self) -> (text: String)
        ensures
            text@ == self.message_text(),
    {
        match self {
            TradeError::DailyLossExceeded => String::from_str("Daily loss limit exceeded"),
            TradeError::OrderFailed { detail } => {
                let mut text = String::from_str("Trade failed: ");
                text.append(detail.as_str());
                text
            },
        }
    }
}

} // verus!
