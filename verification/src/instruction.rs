//! The call payloads.
//!
//! A call is a byte string whose first byte names the operation. What follows
//! the tag is laid out at fixed offsets, integers little-endian.

use crate::codec::{field, read_i128, read_u128, read_u32, read_u64, signed_field};
use crate::error::MatcherError;
use crate::pricing::TradeRequest;
use vstd::prelude::*;

verus! {

/// Tag of a Match call.
pub const TAG_MATCH: u8 = 0;

/// Tag of an Initialize call.
pub const TAG_INITIALIZE: u8 = 2;

/// Tag of a RefreshCredibility call.
pub const TAG_REFRESH_CREDIBILITY: u8 = 3;

/// Shortest Match payload: tag, oracle price, trade size.
pub const MATCH_PAYLOAD_LEN: usize = 25;

/// Shortest Initialize payload: tag, kind, four 32-bit parameters, three
/// 128-bit parameters, two 32-bit parameters.
pub const INIT_PAYLOAD_LEN: usize = 74;

/// One of the three operations.
#[derive(Clone, Copy, Debug, PartialEq, Eq, Structural)]
pub enum Operation {
    Match,
    Initialize,
    RefreshCredibility,
}

/// The operation that a payload names, if it names one.
pub open spec fn spec_operation(data: Seq<u8>) -> Result<Operation, MatcherError> {
    if data.len() == 0 {
        Err(MatcherError::UnrecognizedOperation)
    } else if data[0] == TAG_MATCH {
        Ok(Operation::Match)
    } else if data[0] == TAG_INITIALIZE {
        Ok(Operation::Initialize)
    } else if data[0] == TAG_REFRESH_CREDIBILITY {
        Ok(Operation::RefreshCredibility)
    } else {
        Err(MatcherError::UnrecognizedOperation)
    }
}

/// Reads the operation tag.
pub fn decode_operation(data: &[u8]) -> (result: Result<Operation, MatcherError>)
    ensures
        result == spec_operation(data@),
{
    if data.len() == 0 {
        return Err(MatcherError::UnrecognizedOperation);
    }
    let tag: u8 = data[0];
    if tag == TAG_MATCH {
        Ok(Operation::Match)
    } else if tag == TAG_INITIALIZE {
        Ok(Operation::Initialize)
    } else if tag == TAG_REFRESH_CREDIBILITY {
        Ok(Operation::RefreshCredibility)
    } else {
        Err(MatcherError::UnrecognizedOperation)
    }
}

/// The trade that a Match payload of at least 25 bytes asks for.
pub open spec fn spec_trade_request(data: Seq<u8>) -> TradeRequest {
    TradeRequest {
        oracle_price: field(data, 1, 8) as u64,
        trade_size: signed_field(data, 9) as i128,
    }
}

/// Reads the trade out of a Match payload.
pub fn decode_trade_request(data: &[u8]) -> (request: TradeRequest)
    requires
        data@.len() >= MATCH_PAYLOAD_LEN,
    ensures
        request == spec_trade_request(data@),
{
    TradeRequest { oracle_price: read_u64(data, 1), trade_size: read_i128(data, 9) }
}

/// The parameters that an Initialize payload carries after tag and kind.
#[derive(Clone, Copy, Debug, PartialEq, Eq)]
pub struct InitParams {
    pub base_fee_bps: u32,
    pub min_spread_bps: u32,
    pub max_spread_bps: u32,
    pub imbalance_k_bps: u32,
    pub liquidity_notional: u128,
    pub max_fill_abs: u128,
    pub max_inventory_abs: u128,
    pub age_halflife_slots: u32,
    pub insurance_weight_bps: u32,
}

impl InitParams {
    /// What an Initialize payload of at least 74 bytes holds.
    pub open spec fn of(data: Seq<u8>) -> InitParams {
        InitParams {
            base_fee_bps: field(data, 2, 4) as u32,
            min_spread_bps: field(data, 6, 4) as u32,
            max_spread_bps: field(data, 10, 4) as u32,
            imbalance_k_bps: field(data, 14, 4) as u32,
            liquidity_notional: field(data, 18, 16) as u128,
            max_fill_abs: field(data, 34, 16) as u128,
            max_inventory_abs: field(data, 50, 16) as u128,
            age_halflife_slots: field(data, 66, 4) as u32,
            insurance_weight_bps: field(data, 70, 4) as u32,
        }
    }

    /// Reads the parameters out of an Initialize payload.
    pub fn decode(data: &[u8]) -> (params: InitParams)
        requires
            data@.len() >= INIT_PAYLOAD_LEN,
        ensures
            params == InitParams::of(data@),
    {
        InitParams {
            base_fee_bps: read_u32(data, 2),
            min_spread_bps: read_u32(data, 6),
            max_spread_bps: read_u32(data, 10),
            imbalance_k_bps: read_u32(data, 14),
            liquidity_notional: read_u128(data, 18),
            max_fill_abs: read_u128(data, 34),
            max_inventory_abs: read_u128(data, 50),
            age_halflife_slots: read_u32(data, 66),
            insurance_weight_bps: read_u32(data, 70),
        }
    }
}

} // verus!
