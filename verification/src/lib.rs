//! Decision logic of a candlestick trading engine, over exact decimal amounts.

pub mod amount;
pub mod calendar;
pub mod engine;
pub mod kline;
pub mod order;
pub mod risk;
pub mod store;
pub mod text;
pub mod window;
