use kline_trader::amount::Amount;
use kline_trader::engine::{fold_vah_val, read_vah_val_rows, Thresholds, VahValRow, VahValText};
use kline_trader::kline::{
    first_kline, kline_record, kline_url, parse_kline_row, Field, FirstKline, Kline,
};
use kline_trader::store::{
    fetch_vah_val, get_previous_kline, get_supabase_headers, insert_kline_into_supabase,
    kline_insert_url, vah_val_url, StoreError,
};
use kline_trader::window::TimeWindow;

fn amount(text: &str) -> Amount {
    Amount::parse(text).unwrap()
}

fn text(s: &str) -> Field {
    Field::Text(String::from(s))
}

fn provider_row() -> Vec<Field> {
    vec![
        Field::Integer(1_715_932_800_000),
        text("66250.01000000"),
        text("66700.00000000"),
        text("65800.50000000"),
        text("66012.34567800"),
        text("1234.56789000"),
        Field::Integer(1_715_947_199_999),
        text("81543210.98765432"),
        Field::Integer(45_210),
        text("600.00000000"),
        text("39000000.00000000"),
        text("0"),
    ]
}

fn provider_kline() -> Kline {
    Kline {
        kline_open_time: 1_715_932_800_000,
        open_price: amount("66250.01"),
        high_price: amount("66700"),
        low_price: amount("65800.5"),
        close_price: amount("66012.345678"),
        volume: amount("1234.56789"),
        quote_asset_volume: amount("81543210.98765432"),
        kline_close_time: 1_715_947_199_999,
    }
}

fn with_field(index: usize, field: Field) -> Vec<Field> {
    let mut row = provider_row();
    row[index] = field;
    row
}

#[test]
fn row_is_read_into_a_candle() {
    assert_eq!(parse_kline_row(&provider_row()), Some(provider_kline()));
}

#[test]
fn row_of_exactly_eight_fields_is_read() {
    let mut row = provider_row();
    row.truncate(8);
    assert_eq!(parse_kline_row(&row), Some(provider_kline()));
}

#[test]
fn short_row_is_refused() {
    let mut row = provider_row();
    row.truncate(7);
    assert_eq!(parse_kline_row(&row), None);
    assert_eq!(parse_kline_row(&Vec::new()), None);
}

#[test]
fn a_decimal_beyond_eight_places_refuses_the_candle() {
    for index in [1, 2, 3, 4, 5, 7] {
        assert_eq!(parse_kline_row(&with_field(index, text("0.123456789"))), None);
    }
    // The eighth place is still held.
    let kline = parse_kline_row(&with_field(1, text("0.12345678"))).unwrap();
    assert_eq!(kline.open_price, Amount::from_units(12_345_678));
}

#[test]
fn a_number_beyond_the_range_refuses_the_candle() {
    for index in [1, 2, 3, 4, 5, 7] {
        assert_eq!(parse_kline_row(&with_field(index, text("92233720369"))), None);
    }
    let kline = parse_kline_row(&with_field(5, text("92233720368.54775807"))).unwrap();
    assert_eq!(kline.volume, Amount::from_units(i64::MAX));
}

#[test]
fn a_field_of_the_wrong_kind_refuses_the_candle() {
    assert_eq!(parse_kline_row(&with_field(0, text("1715932800000"))), None);
    assert_eq!(parse_kline_row(&with_field(6, Field::Other)), None);
    assert_eq!(parse_kline_row(&with_field(1, Field::Integer(66_250))), None);
    assert_eq!(parse_kline_row(&with_field(2, Field::Other)), None);
    assert_eq!(parse_kline_row(&with_field(3, text("not a number"))), None);
    assert_eq!(parse_kline_row(&with_field(4, text("1e3"))), None);
    assert_eq!(parse_kline_row(&with_field(7, text(""))), None);
}

#[test]
fn fields_beyond_the_eighth_are_not_looked_at() {
    let kline = parse_kline_row(&with_field(9, text("0.123456789")));
    assert_eq!(kline, Some(provider_kline()));
}

#[test]
fn field_accessors() {
    assert_eq!(Field::Integer(-7).millis(), Some(-7));
    assert_eq!(text("5").millis(), None);
    assert_eq!(Field::Other.millis(), None);
    assert_eq!(text("5").amount(), Some(amount("5")));
    assert_eq!(text("0").amount(), Some(Amount::zero()));
    assert_eq!(text("0.123456789").amount(), None);
    assert_eq!(Field::Integer(5).amount(), None);
    assert_eq!(Field::Other.amount(), None);
}

#[test]
fn first_candle_of_a_reply() {
    assert_eq!(first_kline(&Vec::new()), FirstKline::NoData);
    let rows = vec![provider_row(), with_field(0, Field::Integer(1))];
    assert_eq!(first_kline(&rows), FirstKline::Candle(provider_kline()));
    let bad_first = vec![with_field(4, text("0.123456789")), provider_row()];
    assert_eq!(first_kline(&bad_first), FirstKline::Unreadable);
    // Only the first array counts.
    let bad_second = vec![provider_row(), with_field(4, text("0.123456789"))];
    assert_eq!(first_kline(&bad_second), FirstKline::Candle(provider_kline()));
}

#[test]
fn record_names_all_eight_values() {
    let record = kline_record(&provider_kline());
    assert_eq!(record.klines_open_time, 1_715_932_800_000);
    assert_eq!(record.open_price, "66250.01");
    assert_eq!(record.high_price, "66700");
    assert_eq!(record.low_price, "65800.5");
    assert_eq!(record.close_price, "66012.345678");
    assert_eq!(record.volume, "1234.56789");
    assert_eq!(record.quote_asset_volume, "81543210.98765432");
    assert_eq!(record.klines_close_time, 1_715_947_199_999);
}

#[test]
fn stored_candle_preserves_all_eight_values() {
    let row = provider_row();
    let record = kline_record(&parse_kline_row(&row).unwrap());
    assert_eq!(Some(record.klines_open_time), row[0].millis());
    assert_eq!(Some(record.klines_close_time), row[6].millis());
    assert_eq!(Amount::parse(&record.open_price), row[1].amount());
    assert_eq!(Amount::parse(&record.high_price), row[2].amount());
    assert_eq!(Amount::parse(&record.low_price), row[3].amount());
    assert_eq!(Amount::parse(&record.close_price), row[4].amount());
    assert_eq!(Amount::parse(&record.volume), row[5].amount());
    assert_eq!(Amount::parse(&record.quote_asset_volume), row[7].amount());
    assert!(Amount::parse(&record.open_price).is_some());
    // No binary rounding: 0.1 + 0.2 is 0.3 to the last digit.
    let sum = Amount::from_units(amount("0.1").units + amount("0.2").units);
    assert_eq!(sum.to_text(), "0.3");
}

#[test]
fn whatever_candle_is_read_is_stored_as_the_same_numbers() {
    let texts = ["0", "0.00000001", "-5.5", "92233720368.54775807", "007.10", "123456789"];
    for t in texts {
        let row = with_field(4, text(t));
        let kline = parse_kline_row(&row).unwrap();
        let record = kline_record(&kline);
        assert_eq!(Amount::parse(&record.close_price), Amount::parse(t));
        assert_eq!(Amount::parse(&record.close_price), Some(kline.close_price));
    }
}

#[test]
fn candle_request_names_symbol_interval_and_window() {
    let window = TimeWindow { start_ms: 1_715_932_800_000, end_ms: 1_715_947_199_999 };
    assert_eq!(
        kline_url("BTCUSDT", &window),
        "https://data-api.binance.vision/api/v3/klines?symbol=BTCUSDT&interval=4h\
         &startTime=1715932800000&endTime=1715947199999"
    );
}

fn row(vah: Option<&str>, val: Option<&str>) -> VahValRow {
    VahValRow { vah: vah.map(amount), val: val.map(amount) }
}

fn raw(vah: Option<&str>, val: Option<&str>) -> VahValText {
    VahValText { vah: vah.map(String::from), val: val.map(String::from) }
}

#[test]
fn thresholds_take_the_last_complete_row() {
    let rows = vec![
        row(Some("100"), Some("90")),
        row(Some("110"), Some("95")),
        row(Some("999"), None),
        row(None, Some("1")),
        row(None, None),
    ];
    assert_eq!(
        fold_vah_val(&rows),
        Thresholds { vah: Some(amount("110")), val: Some(amount("95")) }
    );
}

#[test]
fn thresholds_of_no_complete_row_are_missing() {
    assert_eq!(fold_vah_val(&Vec::new()), Thresholds { vah: None, val: None });
    let rows = vec![row(Some("1"), None), row(None, Some("2"))];
    assert_eq!(fold_vah_val(&rows), Thresholds { vah: None, val: None });
}

#[test]
fn threshold_rows_are_read_digit_for_digit() {
    let read = read_vah_val_rows(&vec![
        raw(Some("65000.12345678"), Some("64000")),
        raw(None, Some("1.5")),
        raw(None, None),
    ]);
    assert_eq!(
        read,
        Some(vec![
            row(Some("65000.12345678"), Some("64000")),
            row(None, Some("1.5")),
            row(None, None),
        ])
    );
    assert_eq!(read_vah_val_rows(&Vec::new()), Some(Vec::new()));
}

#[test]
fn a_threshold_that_would_be_rounded_refuses_the_rows() {
    assert_eq!(read_vah_val_rows(&vec![raw(Some("65000.123456789"), Some("64000"))]), None);
    assert_eq!(read_vah_val_rows(&vec![raw(Some("65000"), Some("6.4e4"))]), None);
    assert_eq!(
        read_vah_val_rows(&vec![raw(Some("1"), Some("2")), raw(None, Some("92233720369"))]),
        None
    );
}

#[test]
fn store_headers_carry_the_key_twice() {
    let headers = get_supabase_headers("k3y");
    assert_eq!(
        headers,
        vec![
            (String::from("apikey"), String::from("k3y")),
            (String::from("Authorization"), String::from("Bearer k3y")),
            (String::from("Content-Type"), String::from("application/json")),
        ]
    );
}

#[test]
fn store_addresses() {
    assert_eq!(kline_insert_url("https://db.example"), "https://db.example/rest/v1/klines");
    assert_eq!(
        vah_val_url("https://db.example"),
        "https://db.example/rest/v1/Monthly_values?select=vah,val"
    );
}

#[test]
fn candle_fetch_outcomes() {
    let rows = vec![provider_row()];
    match get_previous_kline(true, 200, &rows) {
        Ok(Some(kline)) => assert_eq!(kline, provider_kline()),
        _ => panic!("the candle was not returned"),
    }
    assert!(matches!(get_previous_kline(true, 200, &Vec::new()), Ok(None)));
    assert!(matches!(
        get_previous_kline(false, 503, &Vec::new()),
        Err(StoreError::ProviderUnavailable { status: 503 })
    ));
    assert!(matches!(
        get_previous_kline(false, 500, &rows),
        Err(StoreError::ProviderUnavailable { status: 500 })
    ));
}

#[test]
fn a_candle_that_cannot_be_read_exactly_fails_the_fetch() {
    let inexact = vec![with_field(1, text("0.123456789"))];
    assert!(matches!(get_previous_kline(true, 200, &inexact), Err(StoreError::UnreadableData)));
    let short: Vec<Vec<Field>> = vec![vec![Field::Other]];
    assert!(matches!(get_previous_kline(true, 200, &short), Err(StoreError::UnreadableData)));
    assert!(matches!(
        get_previous_kline(false, 500, &short),
        Err(StoreError::ProviderUnavailable { status: 500 })
    ));
}

#[test]
fn threshold_fetch_outcomes() {
    let rows = vec![raw(Some("100"), Some("90")), raw(Some("5"), None)];
    match fetch_vah_val(true, 200, &rows) {
        Ok(bounds) => {
            assert_eq!(bounds, Thresholds { vah: Some(amount("100")), val: Some(amount("90")) })
        }
        Err(_) => panic!("the thresholds were not returned"),
    }
    assert!(matches!(
        fetch_vah_val(false, 401, &rows),
        Err(StoreError::ProviderUnavailable { status: 401 })
    ));
    let inexact = vec![raw(Some("100"), Some("90")), raw(Some("100.000000001"), None)];
    assert!(matches!(fetch_vah_val(true, 200, &inexact), Err(StoreError::UnreadableData)));
}

#[test]
fn insert_outcomes() {
    assert!(insert_kline_into_supabase(true, 201, String::from("")).is_ok());
    match insert_kline_into_supabase(false, 409, String::from("duplicate key")) {
        Err(StoreError::PersistenceFailed { status, detail }) => {
            assert_eq!(status, 409);
            assert_eq!(detail, "duplicate key");
        }
        _ => panic!("the failure was not reported"),
    }
}

#[test]
fn store_errors_say_what_happened() {
    assert_eq!(
        StoreError::ProviderUnavailable { status: 503 }.message(),
        "Failed to fetch data: 503"
    );
    assert_eq!(StoreError::UnreadableData.message(), "Fetched data cannot be read exactly");
    assert_eq!(
        StoreError::PersistenceFailed { status: 409, detail: String::from("duplicate key") }
            .message(),
        "Error: 409 - duplicate key"
    );
}
