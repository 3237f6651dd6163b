//! The matcher's own persistent record.
//!
//! The record is 320 bytes. The first 64 are the slot in which a match leaves
//! its result for the caller; configuration and market state follow from byte
//! 64 at fixed offsets, and the last 48 bytes are reserved.

use crate::codec::{
    field, read_i128, read_key, read_u128, read_u32, read_u64, signed_field,
};
use vstd::prelude::*;

verus! {

/// The eight bytes "PERCMATC" read as a big-endian number.
pub const MAGIC: u64 = 0x5045_5243_4d41_5443;

/// The record format's version.
pub const VERSION: u32 = 4;

/// The kind tag of a credibility matcher.
pub const KIND_CREDIBILITY: u8 = 2;

/// Basis points in one whole.
pub const BPS: u64 = 10_000;

/// Length of the whole record.
pub const RECORD_LEN: usize = 320;

/// Result slot: the execution price as a signed 64-bit number.
pub const RET_EXEC_PRICE_OFF: usize = 0;

/// Result slot: the fill size as a signed 128-bit number.
pub const RET_FILL_SIZE_OFF: usize = 8;

/// Where configuration and state begin.
pub const CTX_BASE: usize = 64;

pub const CTX_MAGIC_OFF: usize = 0;

pub const CTX_VERSION_OFF: usize = 8;

pub const CTX_KIND_OFF: usize = 12;

pub const CTX_LP_PDA_OFF: usize = 16;

pub const CTX_BASE_FEE_OFF: usize = 48;

pub const CTX_MIN_SPREAD_OFF: usize = 52;

pub const CTX_MAX_SPREAD_OFF: usize = 56;

pub const CTX_IMBALANCE_K_OFF: usize = 60;

pub const CTX_LIQUIDITY_OFF: usize = 64;

pub const CTX_MAX_FILL_OFF: usize = 80;

pub const CTX_INVENTORY_OFF: usize = 96;

pub const CTX_LAST_ORACLE_OFF: usize = 112;

pub const CTX_LAST_EXEC_OFF: usize = 120;

pub const CTX_MAX_INVENTORY_OFF: usize = 128;

pub const CTX_INSURANCE_OFF: usize = 144;

pub const CTX_TOTAL_OI_OFF: usize = 160;

pub const CTX_MARKET_AGE_OFF: usize = 176;

pub const CTX_LAST_DEFICIT_OFF: usize = 184;

pub const CTX_SNAPSHOT_SLOT_OFF: usize = 192;

pub const CTX_AGE_HALFLIFE_OFF: usize = 200;

pub const CTX_INSURANCE_WEIGHT_OFF: usize = 204;

/// The array that holds the first 32 bytes of `bytes`.
pub open spec fn key_of(bytes: Seq<u8>) -> [u8; 32] {
    [
        bytes[0], bytes[1], bytes[2], bytes[3], bytes[4], bytes[5], bytes[6], bytes[7],
        bytes[8], bytes[9], bytes[10], bytes[11], bytes[12], bytes[13], bytes[14], bytes[15],
        bytes[16], bytes[17], bytes[18], bytes[19], bytes[20], bytes[21], bytes[22], bytes[23],
        bytes[24], bytes[25], bytes[26], bytes[27], bytes[28], bytes[29], bytes[30], bytes[31],
    ]
}

/// `key_of` is the inverse of the view on 32-byte strings.
pub proof fn lemma_key_of(bytes: Seq<u8>)
    requires
        bytes.len() == 32,
    ensures
        key_of(bytes)@ == bytes,
{
    assert(key_of(bytes)@ =~= bytes);
}

/// The record's fields as typed values.
#[derive(Clone, Copy, Debug, PartialEq, Eq)]
pub struct MatcherContext {
    pub magic: u64,
    pub version: u32,
    pub kind: u8,
    /// The only identity that may submit a match.
    pub authority: [u8; 32],
    pub base_fee_bps: u32,
    pub min_spread_bps: u32,
    pub max_spread_bps: u32,
    pub imbalance_k_bps: u32,
    /// Quoting depth: the denominator of the imbalance cost.
    pub liquidity_notional: u128,
    /// Largest size of one fill; zero for no limit.
    pub max_fill_abs: u128,
    /// Net position; a match adds the trade size to it.
    pub inventory_base: i128,
    pub last_oracle_price: u64,
    pub last_exec_price: u64,
    /// Largest size of the net position; zero for no limit.
    pub max_inventory_abs: u128,
    pub insurance_snapshot: u128,
    pub total_oi_snapshot: u128,
    pub market_age_slots: u64,
    pub last_deficit_slot: u64,
    pub snapshot_slot: u64,
    pub age_halflife_slots: u32,
    pub insurance_weight_bps: u32,
}

impl MatcherContext {
    /// What a record of at least 320 bytes holds.
    pub open spec fn of(record: Seq<u8>) -> MatcherContext {
        MatcherContext {
            magic: field(record, CTX_BASE + CTX_MAGIC_OFF, 8) as u64,
            version: field(record, CTX_BASE + CTX_VERSION_OFF, 4) as u32,
            kind: record[CTX_BASE + CTX_KIND_OFF],
            authority: key_of(
                record.subrange(CTX_BASE + CTX_LP_PDA_OFF, CTX_BASE + CTX_LP_PDA_OFF + 32),
            ),
            base_fee_bps: field(record, CTX_BASE + CTX_BASE_FEE_OFF, 4) as u32,
            min_spread_bps: field(record, CTX_BASE + CTX_MIN_SPREAD_OFF, 4) as u32,
            max_spread_bps: field(record, CTX_BASE + CTX_MAX_SPREAD_OFF, 4) as u32,
            imbalance_k_bps: field(record, CTX_BASE + CTX_IMBALANCE_K_OFF, 4) as u32,
            liquidity_notional: field(record, CTX_BASE + CTX_LIQUIDITY_OFF, 16) as u128,
            max_fill_abs: field(record, CTX_BASE + CTX_MAX_FILL_OFF, 16) as u128,
            inventory_base: signed_field(record, CTX_BASE + CTX_INVENTORY_OFF) as i128,
            last_oracle_price: field(record, CTX_BASE + CTX_LAST_ORACLE_OFF, 8) as u64,
            last_exec_price: field(record, CTX_BASE + CTX_LAST_EXEC_OFF, 8) as u64,
            max_inventory_abs: field(record, CTX_BASE + CTX_MAX_INVENTORY_OFF, 16) as u128,
            insurance_snapshot: field(record, CTX_BASE + CTX_INSURANCE_OFF, 16) as u128,
            total_oi_snapshot: field(record, CTX_BASE + CTX_TOTAL_OI_OFF, 16) as u128,
            market_age_slots: field(record, CTX_BASE + CTX_MARKET_AGE_OFF, 8) as u64,
            last_deficit_slot: field(record, CTX_BASE + CTX_LAST_DEFICIT_OFF, 8) as u64,
            snapshot_slot: field(record, CTX_BASE + CTX_SNAPSHOT_SLOT_OFF, 8) as u64,
            age_halflife_slots: field(record, CTX_BASE + CTX_AGE_HALFLIFE_OFF, 4) as u32,
            insurance_weight_bps: field(record, CTX_BASE + CTX_INSURANCE_WEIGHT_OFF, 4) as u32,
        }
    }

    /// Whether the record carries the format's magic and version.
    pub open spec fn initialized(self) -> bool {
        self.magic == MAGIC && self.version == VERSION
    }

    /// Whether the record carries the format's magic and version.
    pub fn is_initialized(&self) -> (r: bool)
        ensures
            r == self.initialized(),
    {
        self.magic == MAGIC && self.version == VERSION
    }

    /// Reads every field of the record.
    pub fn decode(record: &[u8]) -> (ctx: MatcherContext)
        requires
            record@.len() >= RECORD_LEN,
        ensures
            ctx == MatcherContext::of(record@),
    {
        let authority = read_key(record, CTX_BASE + CTX_LP_PDA_OFF);
        let ctx = MatcherContext {
            magic: read_u64(record, CTX_BASE + CTX_MAGIC_OFF),
            version: read_u32(record, CTX_BASE + CTX_VERSION_OFF),
            kind: record[CTX_BASE + CTX_KIND_OFF],
            authority,
            base_fee_bps: read_u32(record, CTX_BASE + CTX_BASE_FEE_OFF),
            min_spread_bps: read_u32(record, CTX_BASE + CTX_MIN_SPREAD_OFF),
            max_spread_bps: read_u32(record, CTX_BASE + CTX_MAX_SPREAD_OFF),
            imbalance_k_bps: read_u32(record, CTX_BASE + CTX_IMBALANCE_K_OFF),
            liquidity_notional: read_u128(record, CTX_BASE + CTX_LIQUIDITY_OFF),
            max_fill_abs: read_u128(record, CTX_BASE + CTX_MAX_FILL_OFF),
            inventory_base: read_i128(record, CTX_BASE + CTX_INVENTORY_OFF),
            last_oracle_price: read_u64(record, CTX_BASE + CTX_LAST_ORACLE_OFF),
            last_exec_price: read_u64(record, CTX_BASE + CTX_LAST_EXEC_OFF),
            max_inventory_abs: read_u128(record, CTX_BASE + CTX_MAX_INVENTORY_OFF),
            insurance_snapshot: read_u128(record, CTX_BASE + CTX_INSURANCE_OFF),
            total_oi_snapshot: read_u128(record, CTX_BASE + CTX_TOTAL_OI_OFF),
            market_age_slots: read_u64(record, CTX_BASE + CTX_MARKET_AGE_OFF),
            last_deficit_slot: read_u64(record, CTX_BASE + CTX_LAST_DEFICIT_OFF),
            snapshot_slot: read_u64(record, CTX_BASE + CTX_SNAPSHOT_SLOT_OFF),
            age_halflife_slots: read_u32(record, CTX_BASE + CTX_AGE_HALFLIFE_OFF),
            insurance_weight_bps: read_u32(record, CTX_BASE + CTX_INSURANCE_WEIGHT_OFF),
        };
        proof {
            let spec_ctx = MatcherContext::of(record@);
            lemma_key_of(
                record@.subrange(CTX_BASE + CTX_LP_PDA_OFF, CTX_BASE + CTX_LP_PDA_OFF + 32),
            );
            assert(ctx.authority =~= spec_ctx.authority);
        }
        ctx
    }
}

} // verus!
