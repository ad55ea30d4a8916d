//! What is said to the data store and what its answers mean: addresses,
//! headers, and the outcome of a fetch or an insert by its status.

use crate::engine::{
    fold_vah_val, folded_vah_val, read_vah_val_rows, rows_of_text, rows_text_is_exact, Thresholds,
    VahValText,
};
use crate::kline::{first_kline, first_kline_of, Field, FirstKline, Kline};
use crate::text::{append_nat, nat_text};
use vstd::prelude::*;

verus! {

/// A provider or the store did not answer with success, or not with what
/// can be read.
#[derive(Clone, Debug)]
pub enum StoreError {
    /// A fetch of candles or of thresholds failed with this status.
    ProviderUnavailable { status: u16 },
    /// A fetch succeeded, but what came holds a value that cannot be read
    /// exactly. Nothing is made of such a reply.
    UnreadableData,
    /// An insert failed with this status and this reply.
    PersistenceFailed { status: u16, detail: String },
}

/// The address of a table of the store: `{base}/rest/v1/{table}`.
pub open spec fn table_url_text(base: Seq<char>, table: Seq<char>) -> Seq<char> {
    base + "/rest/v1/"@ + table
}

/// The three headers every request to the store carries.
pub open spec fn is_store_headers(headers: Seq<(String, String)>, api_key: Seq<char>) -> bool {
    &&& headers.len() == 3
    &&& headers[0].0@ == "apikey"@
    &&& headers[0].1@ == api_key
    &&& headers[1].0@ == "Authorization"@
    &&& headers[1].1@ == "Bearer "@ + api_key
    &&& headers[2].0@ == "Content-Type"@
    &&& headers[2].1@ == "application/json"@
}

impl StoreError {
    /// What the error says, for a log line.
    pub open spec fn message_text(self) -> Seq<char> {
        match self {
            StoreError::ProviderUnavailable { status } => "Failed to fetch data: "@ + nat_text(
                status as nat,
            ),
            StoreError::UnreadableData => "Fetched data cannot be read exactly"@,
            StoreError::PersistenceFailed { status, detail } => "Error: "@ + nat_text(
                status as nat,
            ) + " - "@ + detail@,
        }
    }

    pub fn message(&self) -> (text: String)
        ensures
            text@ == self.message_text(),
    {
        match self {
            StoreError::ProviderUnavailable { status } => {
                let mut text = String::from_str("Failed to fetch data: ");
                append_nat(&mut text, *status as u64);
                text
            },
            StoreError::UnreadableData => String::from_str("Fetched data cannot be read exactly"),
            StoreError::PersistenceFailed { status, detail } => {
                let mut text = String::from_str("Error: ");
                append_nat(&mut text, *status as u64);
                text.append(" - ");
                text.append(detail.as_str());
                text
            },
        }
    }
}

/// The headers of a request to the store: the key by itself, the key as a
/// bearer token, and the content type.
pub fn get_supabase_headers(api_key: &str) -> (headers: Vec<(String, String)>)
    ensures
        is_store_headers(headers@, api_key@),
{
    let mut bearer = String::from_str("Bearer ");
    bearer.append(api_key);
    let mut headers: Vec<(String, String)> = Vec::new();
    headers.push((String::from_str("apikey"), String::from_str(api_key)));
    headers.push((String::from_str("Authorization"), bearer));
    headers.push((String::from_str("Content-Type"), String::from_str("application/json")));
    headers
}

/// The address candles are inserted at.
pub fn kline_insert_url(base_url: &str) -> (url: String)
    ensures
        url@ == table_url_text(base_url@, "klines"@),
{
    let mut url = String::from_str(base_url);
    url.append("/rest/v1/");
    url.append("klines");
    url
}

/// The address the thresholds are fetched from.
pub fn vah_val_url(base_url: &str) -> (url: String)
    ensures
        url@ == table_url_text(base_url@, "Monthly_values?select=vah,val"@),
{
    let mut url = String::from_str(base_url);
    url.append("/rest/v1/");
    url.append("Monthly_values?select=vah,val");
    url
}

/// What a candle fetch amounts to. A failed fetch is an error. A
/// successful one gives the first candle of the reply, read exactly, or
/// `None` when the reply is empty, which is no error. A reply whose first
/// array cannot be read exactly is an error too: no candle is made of it.
pub fn get_previous_kline(success: bool, status: u16, rows: &Vec<Vec<Field>>) -> (fetched: Result<
    Option<Kline>,
    StoreError,
>)
    ensures
        fetched == (if !success {
            Err::<Option<Kline>, StoreError>(StoreError::ProviderUnavailable { status })
        } else {
            match first_kline_of(rows@) {
                FirstKline::NoData => Ok(None),
                FirstKline::Candle(kline) => Ok(Some(kline)),
                FirstKline::Unreadable => Err(StoreError::UnreadableData),
            }
        }),
{
    if !success {
        return Err(StoreError::ProviderUnavailable { status });
    }
    match first_kline(rows) {
        FirstKline::NoData => Ok(None),
        FirstKline::Candle(kline) => Ok(Some(kline)),
        FirstKline::Unreadable => Err(StoreError::UnreadableData),
    }
}

/// What a threshold fetch amounts to. A failed fetch is an error. A
/// successful one gives the rows folded into the two bounds, provided every
/// number in the rows is read without loss; if one is not, the fetch is an
/// error and no bounds are made of it.
pub fn fetch_vah_val(success: bool, status: u16, rows: &Vec<VahValText>) -> (fetched: Result<
    Thresholds,
    StoreError,
>)
    ensures
        fetched == (if !success {
            Err::<Thresholds, StoreError>(StoreError::ProviderUnavailable { status })
        } else if rows_text_is_exact(rows@) {
            Ok(folded_vah_val(rows_of_text(rows@)))
        } else {
            Err(StoreError::UnreadableData)
        }),
{
    if !success {
        return Err(StoreError::ProviderUnavailable { status });
    }
    match read_vah_val_rows(rows) {
        Some(read) => Ok(fold_vah_val(&read)),
        None => Err(StoreError::UnreadableData),
    }
}

/// What an insert amounts to: done on success, else an error that carries
/// the status and the store's reply.
pub fn insert_kline_into_supabase(success: bool, status: u16, body: String) -> (stored: Result<
    (),
    StoreError,
>)
    ensures
        success ==> stored is Ok,
        !success ==> stored == Err::<(), StoreError>(
            StoreError::PersistenceFailed { status, detail: body },
        ),
{
    if success {
        Ok(())
    } else {
        Err(StoreError::PersistenceFailed { status, detail: body })
    }
}

} // verus!
