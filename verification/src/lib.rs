//! Helios trading core: exact decimal handling, Alpaca request and feed logic, and the
//! decision logic of the durable account, projection, risk and hypothesis agents.

pub mod text;
pub mod decimal;
pub mod projection_cursor;
pub mod hypothesis;
pub mod execution;
pub mod alpaca;
pub mod json;
pub mod broker;
pub mod responses;
pub mod adapter;
pub mod market_stream;
pub mod identity;
pub mod native;
pub mod oms;
pub mod risk;
pub mod bridge;
pub mod market_data;
