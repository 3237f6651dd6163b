//! The three operations and the dispatcher.
//!
//! Each operation checks its preconditions in a fixed order and stops at the
//! first that fails, before anything is written. The verdict functions say
//! which error, or which values, an invocation yields; the image functions say
//! which bytes a committed operation leaves in the record.

use crate::codec::{
    field, le_bytes, lemma_overwrite_frame, lemma_pow256_widths, lemma_round_trip,
    lemma_signed_round_trip, overwrite, put_i128, put_u128, put_u32, put_u64, read_u32, read_u64,
    signed_field, unsigned128, write_i128, write_key, write_u128, write_u32, write_u64,
};
use crate::context::{
    key_of, lemma_key_of, MatcherContext, CTX_AGE_HALFLIFE_OFF, CTX_BASE, CTX_BASE_FEE_OFF, CTX_IMBALANCE_K_OFF,
    CTX_INSURANCE_OFF, CTX_INSURANCE_WEIGHT_OFF, CTX_INVENTORY_OFF, CTX_KIND_OFF,
    CTX_LAST_DEFICIT_OFF, CTX_LAST_EXEC_OFF, CTX_LAST_ORACLE_OFF, CTX_LIQUIDITY_OFF,
    CTX_LP_PDA_OFF, CTX_MAGIC_OFF, CTX_MARKET_AGE_OFF, CTX_MAX_FILL_OFF, CTX_MAX_INVENTORY_OFF,
    CTX_MAX_SPREAD_OFF, CTX_MIN_SPREAD_OFF, CTX_SNAPSHOT_SLOT_OFF, CTX_TOTAL_OI_OFF,
    CTX_VERSION_OFF, KIND_CREDIBILITY, MAGIC, RECORD_LEN, RET_EXEC_PRICE_OFF, RET_FILL_SIZE_OFF,
    VERSION,
};
use crate::error::MatcherError;
use crate::instruction::{
    decode_operation, decode_trade_request, spec_operation, spec_trade_request, InitParams,
    Operation, INIT_PAYLOAD_LEN, MATCH_PAYLOAD_LEN,
};
use crate::keys::same_key;
use crate::ledger::{
    admin_state, clock_slot, market_age, spec_admin_state, spec_clock_slot, spec_market_age,
    AdminState, LedgerView, SLAB_MIN_LEN,
};
use crate::pricing::{lesser, quote, spec_quote, Fill};
use vstd::prelude::*;

verus! {

/// One account record as the host passes it to an operation.
#[derive(Clone, Debug, PartialEq, Eq)]
pub struct Account {
    /// The account's identity.
    pub key: [u8; 32],
    /// Whether the calling layer has proven a signature for `key`.
    pub is_signer: bool,
    /// The account's bytes.
    pub data: Vec<u8>,
}

/// `after` is `before` except that the account at `index` holds `record`.
pub open spec fn record_replaced(
    before: Seq<Account>,
    index: int,
    record: Seq<u8>,
    after: Seq<Account>,
) -> bool {
    &&& after.len() == before.len()
    &&& forall|i: int| 0 <= i < before.len() && i != index ==> after[i] == before[i]
    &&& after[index].key == before[index].key
    &&& after[index].is_signer == before[index].is_signer
    &&& after[index].data@ == record
}

/// The execution price as the result slot holds it: a signed 64-bit number,
/// so a price above `i64::MAX` is held to that.
pub open spec fn slot_price(exec_price: u64) -> u64 {
    lesser(exec_price as int, i64::MAX as int) as u64
}

/// What a Match yields on accounts `[signer, record]` and payload `data`:
/// the first precondition that fails, or the fill.
pub open spec fn match_verdict(accounts: Seq<Account>, data: Seq<u8>) -> Result<
    Fill,
    MatcherError,
> {
    if accounts.len() < 2 {
        Err(MatcherError::NotEnoughAccounts)
    } else if data.len() < MATCH_PAYLOAD_LEN {
        Err(MatcherError::MalformedInput)
    } else if !accounts[0].is_signer {
        Err(MatcherError::MissingSignature)
    } else if accounts[1].data@.len() < RECORD_LEN {
        Err(MatcherError::StorageTooSmall)
    } else {
        let ctx = MatcherContext::of(accounts[1].data@);
        if accounts[0].key@ != ctx.authority@ {
            Err(MatcherError::AuthorityMismatch)
        } else if !ctx.initialized() {
            Err(MatcherError::Uninitialized)
        } else {
            spec_quote(ctx, spec_trade_request(data))
        }
    }
}

/// The record after a committed match: the new inventory, the oracle price
/// and the execution price in the state, and price and size in the result
/// slot.
pub open spec fn match_image(record: Seq<u8>, oracle_price: u64, fill: Fill) -> Seq<u8> {
    let r1 = put_i128(record, CTX_BASE + CTX_INVENTORY_OFF, fill.inventory);
    let r2 = put_u64(r1, CTX_BASE + CTX_LAST_ORACLE_OFF, oracle_price);
    let r3 = put_u64(r2, CTX_BASE + CTX_LAST_EXEC_OFF, fill.exec_price);
    let r4 = put_u64(r3, RET_EXEC_PRICE_OFF as int, slot_price(fill.exec_price));
    put_i128(r4, RET_FILL_SIZE_OFF as int, fill.size)
}

/// What a Match leaves behind: the committed record when it succeeds, and
/// every account as it was when it fails.
pub open spec fn match_effect(before: Seq<Account>, data: Seq<u8>, after: Seq<Account>) -> bool {
    match match_verdict(before, data) {
        Ok(fill) => record_replaced(
            before,
            1,
            match_image(before[1].data@, spec_trade_request(data).oracle_price, fill),
            after,
        ),
        Err(_) => after == before,
    }
}

/// A committed match changes three fields of the state and fills the result
/// slot; every other byte of the record is kept.
pub proof fn lemma_match_image(record: Seq<u8>, oracle_price: u64, fill: Fill)
    requires
        record.len() >= RECORD_LEN,
    ensures
        match_image(record, oracle_price, fill).len() == record.len(),
        MatcherContext::of(match_image(record, oracle_price, fill)) == (MatcherContext {
            inventory_base: fill.inventory,
            last_oracle_price: oracle_price,
            last_exec_price: fill.exec_price,
            ..MatcherContext::of(record)
        }),
        field(match_image(record, oracle_price, fill), RET_EXEC_PRICE_OFF as int, 8) == slot_price(
            fill.exec_price,
        ),
        slot_price(fill.exec_price) <= i64::MAX,
        signed_field(match_image(record, oracle_price, fill), RET_FILL_SIZE_OFF as int)
            == fill.size,
        forall|i: int|
            24 <= i < record.len() && !(160 <= i < 192) ==> match_image(
                record,
                oracle_price,
                fill,
            )[i] == record[i],
{
    let r1 = put_i128(record, CTX_BASE + CTX_INVENTORY_OFF, fill.inventory);
    let r2 = put_u64(r1, CTX_BASE + CTX_LAST_ORACLE_OFF, oracle_price);
    let r3 = put_u64(r2, CTX_BASE + CTX_LAST_EXEC_OFF, fill.exec_price);
    let r4 = put_u64(r3, RET_EXEC_PRICE_OFF as int, slot_price(fill.exec_price));
    let r5 = put_i128(r4, RET_FILL_SIZE_OFF as int, fill.size);
    lemma_pow256_widths();
    lemma_signed_round_trip(fill.inventory as int);
    lemma_signed_round_trip(fill.size as int);
    lemma_round_trip(unsigned128(fill.inventory as int), 16);
    lemma_round_trip(oracle_price as nat, 8);
    lemma_round_trip(fill.exec_price as nat, 8);
    lemma_round_trip(slot_price(fill.exec_price) as nat, 8);
    lemma_round_trip(unsigned128(fill.size as int), 16);
    lemma_overwrite_frame(
        record,
        CTX_BASE + CTX_INVENTORY_OFF,
        le_bytes(unsigned128(fill.inventory as int), 16),
    );
    lemma_overwrite_frame(r1, CTX_BASE + CTX_LAST_ORACLE_OFF, le_bytes(oracle_price as nat, 8));
    lemma_overwrite_frame(r2, CTX_BASE + CTX_LAST_EXEC_OFF, le_bytes(fill.exec_price as nat, 8));
    lemma_overwrite_frame(
        r3,
        RET_EXEC_PRICE_OFF as int,
        le_bytes(slot_price(fill.exec_price) as nat, 8),
    );
    lemma_overwrite_frame(r4, RET_FILL_SIZE_OFF as int, le_bytes(unsigned128(fill.size as int), 16));
    let ctx = MatcherContext::of(record);
    let ctx5 = MatcherContext::of(r5);
    assert(ctx5.authority =~= ctx.authority);
}

/// Prices a trade against the record and books it.
///
/// Accounts: the authority, which must have signed, and the matcher record.
/// Payload: tag, oracle price, trade size.
pub fn process_match(_program_id: &[u8; 32], accounts: &mut Vec<Account>, data: &[u8]) -> (result:
    Result<Fill, MatcherError>)
    ensures
        result == match_verdict(old(accounts)@, data@),
        match_effect(old(accounts)@, data@, final(accounts)@),
{
    if accounts.len() < 2 {
        return Err(MatcherError::NotEnoughAccounts);
    }
    if data.len() < MATCH_PAYLOAD_LEN {
        return Err(MatcherError::MalformedInput);
    }
    if !accounts[0].is_signer {
        return Err(MatcherError::MissingSignature);
    }
    if accounts[1].data.len() < RECORD_LEN {
        return Err(MatcherError::StorageTooSmall);
    }
    let ctx = MatcherContext::decode(accounts[1].data.as_slice());
    if !same_key(&accounts[0].key, &ctx.authority) {
        return Err(MatcherError::AuthorityMismatch);
    }
    if !ctx.is_initialized() {
        return Err(MatcherError::Uninitialized);
    }
    let request = decode_trade_request(data);
    let fill = match quote(&ctx, &request) {
        Ok(fill) => fill,
        Err(e) => {
            return Err(e);
        },
    };
    let reported_price: u64 = if fill.exec_price > i64::MAX as u64 {
        i64::MAX as u64
    } else {
        fill.exec_price
    };
    let record = accounts[1].data.as_mut_slice();
    write_i128(record, CTX_BASE + CTX_INVENTORY_OFF, fill.inventory);
    write_u64(record, CTX_BASE + CTX_LAST_ORACLE_OFF, request.oracle_price);
    write_u64(record, CTX_BASE + CTX_LAST_EXEC_OFF, fill.exec_price);
    write_u64(record, RET_EXEC_PRICE_OFF, reported_price);
    write_i128(record, RET_FILL_SIZE_OFF, fill.size);
    Ok(fill)
}

/// Whether the record carries the format's magic and version.
pub fn record_initialized(record: &[u8]) -> (r: bool)
    requires
        record@.len() >= RECORD_LEN,
    ensures
        r == MatcherContext::of(record@).initialized(),
{
    read_u64(record, CTX_BASE + CTX_MAGIC_OFF) == MAGIC && read_u32(
        record,
        CTX_BASE + CTX_VERSION_OFF,
    ) == VERSION
}

/// What an Initialize yields on accounts `[authority, record]` and payload
/// `data`: the first precondition that fails, or the parameters it applies.
pub open spec fn init_verdict(accounts: Seq<Account>, data: Seq<u8>) -> Result<
    InitParams,
    MatcherError,
> {
    if accounts.len() < 2 {
        Err(MatcherError::NotEnoughAccounts)
    } else if accounts[1].data@.len() < RECORD_LEN {
        Err(MatcherError::StorageTooSmall)
    } else if MatcherContext::of(accounts[1].data@).initialized() {
        Err(MatcherError::AlreadyInitialized)
    } else if data.len() < INIT_PAYLOAD_LEN {
        Err(MatcherError::MalformedInput)
    } else if data[1] != KIND_CREDIBILITY {
        Err(MatcherError::WrongMatcherKind)
    } else {
        Ok(InitParams::of(data))
    }
}

/// The record after a committed Initialize: identity guard, authority and
/// parameters set; inventory, market age, last deficit slot and snapshot slot
/// zero.
pub open spec fn init_image(record: Seq<u8>, authority: Seq<u8>, params: InitParams) -> Seq<u8> {
    let r = put_u64(record, CTX_BASE + CTX_MAGIC_OFF, MAGIC);
    let r = put_u32(r, CTX_BASE + CTX_VERSION_OFF, VERSION);
    let r = r.update(CTX_BASE + CTX_KIND_OFF, KIND_CREDIBILITY);
    let r = overwrite(r, CTX_BASE + CTX_LP_PDA_OFF, authority);
    let r = put_u32(r, CTX_BASE + CTX_BASE_FEE_OFF, params.base_fee_bps);
    let r = put_u32(r, CTX_BASE + CTX_MIN_SPREAD_OFF, params.min_spread_bps);
    let r = put_u32(r, CTX_BASE + CTX_MAX_SPREAD_OFF, params.max_spread_bps);
    let r = put_u32(r, CTX_BASE + CTX_IMBALANCE_K_OFF, params.imbalance_k_bps);
    let r = put_u128(r, CTX_BASE + CTX_LIQUIDITY_OFF, params.liquidity_notional);
    let r = put_u128(r, CTX_BASE + CTX_MAX_FILL_OFF, params.max_fill_abs);
    let r = put_i128(r, CTX_BASE + CTX_INVENTORY_OFF, 0);
    let r = put_u128(r, CTX_BASE + CTX_MAX_INVENTORY_OFF, params.max_inventory_abs);
    let r = put_u32(r, CTX_BASE + CTX_AGE_HALFLIFE_OFF, params.age_halflife_slots);
    let r = put_u32(r, CTX_BASE + CTX_INSURANCE_WEIGHT_OFF, params.insurance_weight_bps);
    let r = put_u64(r, CTX_BASE + CTX_MARKET_AGE_OFF, 0);
    let r = put_u64(r, CTX_BASE + CTX_LAST_DEFICIT_OFF, 0);
    put_u64(r, CTX_BASE + CTX_SNAPSHOT_SLOT_OFF, 0)
}

/// What an Initialize leaves behind: the committed record when it succeeds,
/// and every account as it was when it fails.
pub open spec fn init_effect(before: Seq<Account>, data: Seq<u8>, after: Seq<Account>) -> bool {
    match init_verdict(before, data) {
        Ok(params) => record_replaced(
            before,
            1,
            init_image(before[1].data@, before[0].key@, params),
            after,
        ),
        Err(_) => after == before,
    }
}

/// Sets up a fresh record with its authority and parameters.
///
/// Accounts: the authority and the matcher record. Payload: tag, kind, and
/// the nine parameters. A record that is already initialized is refused as
/// such before the payload is looked at.
pub fn process_init(_program_id: &[u8; 32], accounts: &mut Vec<Account>, data: &[u8]) -> (result:
    Result<InitParams, MatcherError>)
    ensures
        result == init_verdict(old(accounts)@, data@),
        init_effect(old(accounts)@, data@, final(accounts)@),
{
    if accounts.len() < 2 {
        return Err(MatcherError::NotEnoughAccounts);
    }
    if accounts[1].data.len() < RECORD_LEN {
        return Err(MatcherError::StorageTooSmall);
    }
    if record_initialized(accounts[1].data.as_slice()) {
        return Err(MatcherError::AlreadyInitialized);
    }
    if data.len() < INIT_PAYLOAD_LEN {
        return Err(MatcherError::MalformedInput);
    }
    if data[1] != KIND_CREDIBILITY {
        return Err(MatcherError::WrongMatcherKind);
    }
    let params = InitParams::decode(data);
    let authority = accounts[0].key;
    let record = accounts[1].data.as_mut_slice();
    write_u64(record, CTX_BASE + CTX_MAGIC_OFF, MAGIC);
    write_u32(record, CTX_BASE + CTX_VERSION_OFF, VERSION);
    record[CTX_BASE + CTX_KIND_OFF] = KIND_CREDIBILITY;
    write_key(record, CTX_BASE + CTX_LP_PDA_OFF, &authority);
    write_u32(record, CTX_BASE + CTX_BASE_FEE_OFF, params.base_fee_bps);
    write_u32(record, CTX_BASE + CTX_MIN_SPREAD_OFF, params.min_spread_bps);
    write_u32(record, CTX_BASE + CTX_MAX_SPREAD_OFF, params.max_spread_bps);
    write_u32(record, CTX_BASE + CTX_IMBALANCE_K_OFF, params.imbalance_k_bps);
    write_u128(record, CTX_BASE + CTX_LIQUIDITY_OFF, params.liquidity_notional);
    write_u128(record, CTX_BASE + CTX_MAX_FILL_OFF, params.max_fill_abs);
    write_i128(record, CTX_BASE + CTX_INVENTORY_OFF, 0);
    write_u128(record, CTX_BASE + CTX_MAX_INVENTORY_OFF, params.max_inventory_abs);
    write_u32(record, CTX_BASE + CTX_AGE_HALFLIFE_OFF, params.age_halflife_slots);
    write_u32(record, CTX_BASE + CTX_INSURANCE_WEIGHT_OFF, params.insurance_weight_bps);
    write_u64(record, CTX_BASE + CTX_MARKET_AGE_OFF, 0);
    write_u64(record, CTX_BASE + CTX_LAST_DEFICIT_OFF, 0);
    write_u64(record, CTX_BASE + CTX_SNAPSHOT_SLOT_OFF, 0);
    Ok(params)
}

/// A committed Initialize sets the identity guard, the authority and the
/// parameters, zeroes inventory and the three slot counters, and keeps the
/// last prices, the snapshots and every byte outside the fields it writes.
pub proof fn lemma_init_image(record: Seq<u8>, authority: Seq<u8>, params: InitParams)
    requires
        record.len() >= RECORD_LEN,
        authority.len() == 32,
    ensures
        init_image(record, authority, params).len() == record.len(),
        MatcherContext::of(init_image(record, authority, params)) == (MatcherContext {
            magic: MAGIC,
            version: VERSION,
            kind: KIND_CREDIBILITY,
            authority: key_of(authority),
            base_fee_bps: params.base_fee_bps,
            min_spread_bps: params.min_spread_bps,
            max_spread_bps: params.max_spread_bps,
            imbalance_k_bps: params.imbalance_k_bps,
            liquidity_notional: params.liquidity_notional,
            max_fill_abs: params.max_fill_abs,
            inventory_base: 0,
            max_inventory_abs: params.max_inventory_abs,
            market_age_slots: 0,
            last_deficit_slot: 0,
            snapshot_slot: 0,
            age_halflife_slots: params.age_halflife_slots,
            insurance_weight_bps: params.insurance_weight_bps,
            ..MatcherContext::of(record)
        }),
        MatcherContext::of(init_image(record, authority, params)).initialized(),
        forall|i: int|
            (0 <= i < 64 || 77 <= i < 80 || 272 <= i < record.len()) ==> init_image(
                record,
                authority,
                params,
            )[i] == record[i],
{
    let r1 = put_u64(record, CTX_BASE + CTX_MAGIC_OFF, MAGIC);
    let r2 = put_u32(r1, CTX_BASE + CTX_VERSION_OFF, VERSION);
    let r3 = r2.update(CTX_BASE + CTX_KIND_OFF, KIND_CREDIBILITY);
    let r4 = overwrite(r3, CTX_BASE + CTX_LP_PDA_OFF, authority);
    let r5 = put_u32(r4, CTX_BASE + CTX_BASE_FEE_OFF, params.base_fee_bps);
    let r6 = put_u32(r5, CTX_BASE + CTX_MIN_SPREAD_OFF, params.min_spread_bps);
    let r7 = put_u32(r6, CTX_BASE + CTX_MAX_SPREAD_OFF, params.max_spread_bps);
    let r8 = put_u32(r7, CTX_BASE + CTX_IMBALANCE_K_OFF, params.imbalance_k_bps);
    let r9 = put_u128(r8, CTX_BASE + CTX_LIQUIDITY_OFF, params.liquidity_notional);
    let r10 = put_u128(r9, CTX_BASE + CTX_MAX_FILL_OFF, params.max_fill_abs);
    let r11 = put_i128(r10, CTX_BASE + CTX_INVENTORY_OFF, 0);
    let r12 = put_u128(r11, CTX_BASE + CTX_MAX_INVENTORY_OFF, params.max_inventory_abs);
    let r13 = put_u32(r12, CTX_BASE + CTX_AGE_HALFLIFE_OFF, params.age_halflife_slots);
    let r14 = put_u32(r13, CTX_BASE + CTX_INSURANCE_WEIGHT_OFF, params.insurance_weight_bps);
    let r15 = put_u64(r14, CTX_BASE + CTX_MARKET_AGE_OFF, 0);
    let r16 = put_u64(r15, CTX_BASE + CTX_LAST_DEFICIT_OFF, 0);
    let r17 = put_u64(r16, CTX_BASE + CTX_SNAPSHOT_SLOT_OFF, 0);
    lemma_pow256_widths();
    lemma_signed_round_trip(0);
    lemma_round_trip(MAGIC as nat, 8);
    lemma_round_trip(VERSION as nat, 4);
    lemma_round_trip(params.base_fee_bps as nat, 4);
    lemma_round_trip(params.min_spread_bps as nat, 4);
    lemma_round_trip(params.max_spread_bps as nat, 4);
    lemma_round_trip(params.imbalance_k_bps as nat, 4);
    lemma_round_trip(params.liquidity_notional as nat, 16);
    lemma_round_trip(params.max_fill_abs as nat, 16);
    lemma_round_trip(0, 16);
    lemma_round_trip(params.max_inventory_abs as nat, 16);
    lemma_round_trip(params.age_halflife_slots as nat, 4);
    lemma_round_trip(params.insurance_weight_bps as nat, 4);
    lemma_round_trip(0, 8);
    lemma_overwrite_frame(record, CTX_BASE + CTX_MAGIC_OFF, le_bytes(MAGIC as nat, 8));
    lemma_overwrite_frame(r1, CTX_BASE + CTX_VERSION_OFF, le_bytes(VERSION as nat, 4));
    assert(r3 =~= overwrite(r2, CTX_BASE + CTX_KIND_OFF, seq![KIND_CREDIBILITY]));
    lemma_overwrite_frame(r2, CTX_BASE + CTX_KIND_OFF, seq![KIND_CREDIBILITY]);
    lemma_overwrite_frame(r3, CTX_BASE + CTX_LP_PDA_OFF, authority);
    lemma_overwrite_frame(
        r4,
        CTX_BASE + CTX_BASE_FEE_OFF,
        le_bytes(params.base_fee_bps as nat, 4),
    );
    lemma_overwrite_frame(
        r5,
        CTX_BASE + CTX_MIN_SPREAD_OFF,
        le_bytes(params.min_spread_bps as nat, 4),
    );
    lemma_overwrite_frame(
        r6,
        CTX_BASE + CTX_MAX_SPREAD_OFF,
        le_bytes(params.max_spread_bps as nat, 4),
    );
    lemma_overwrite_frame(
        r7,
        CTX_BASE + CTX_IMBALANCE_K_OFF,
        le_bytes(params.imbalance_k_bps as nat, 4),
    );
    lemma_overwrite_frame(
        r8,
        CTX_BASE + CTX_LIQUIDITY_OFF,
        le_bytes(params.liquidity_notional as nat, 16),
    );
    lemma_overwrite_frame(
        r9,
        CTX_BASE + CTX_MAX_FILL_OFF,
        le_bytes(params.max_fill_abs as nat, 16),
    );
    lemma_overwrite_frame(r10, CTX_BASE + CTX_INVENTORY_OFF, le_bytes(unsigned128(0), 16));
    lemma_overwrite_frame(
        r11,
        CTX_BASE + CTX_MAX_INVENTORY_OFF,
        le_bytes(params.max_inventory_abs as nat, 16),
    );
    lemma_overwrite_frame(
        r12,
        CTX_BASE + CTX_AGE_HALFLIFE_OFF,
        le_bytes(params.age_halflife_slots as nat, 4),
    );
    lemma_overwrite_frame(
        r13,
        CTX_BASE + CTX_INSURANCE_WEIGHT_OFF,
        le_bytes(params.insurance_weight_bps as nat, 4),
    );
    lemma_overwrite_frame(r14, CTX_BASE + CTX_MARKET_AGE_OFF, le_bytes(0, 8));
    lemma_overwrite_frame(r15, CTX_BASE + CTX_LAST_DEFICIT_OFF, le_bytes(0, 8));
    lemma_overwrite_frame(r16, CTX_BASE + CTX_SNAPSHOT_SLOT_OFF, le_bytes(0, 8));
    let after = MatcherContext::of(r17);
    lemma_key_of(authority);
    lemma_key_of(
        r17.subrange(CTX_BASE + CTX_LP_PDA_OFF, CTX_BASE + CTX_LP_PDA_OFF + 32),
    );
    assert(after.authority =~= key_of(authority));
}

/// A record that was initialized refuses every further Initialize as already
/// initialized, whatever its payload, and that refusal leaves it unchanged.
pub proof fn lemma_initialize_once(
    before: Seq<Account>,
    data: Seq<u8>,
    after: Seq<Account>,
    again: Seq<u8>,
    later: Seq<Account>,
)
    requires
        init_verdict(before, data) is Ok,
        init_effect(before, data, after),
        init_effect(after, again, later),
    ensures
        init_verdict(after, again) == Err::<InitParams, MatcherError>(
            MatcherError::AlreadyInitialized,
        ),
        later == after,
{
    lemma_init_image(before[1].data@, before[0].key@, InitParams::of(data));
}

/// A record that carries the format's magic and version refuses Initialize as
/// already initialized, whatever the payload and whoever asks.
pub proof fn lemma_initialized_refuses_initialize(accounts: Seq<Account>, data: Seq<u8>)
    requires
        accounts.len() >= 2,
        accounts[1].data@.len() >= RECORD_LEN,
        MatcherContext::of(accounts[1].data@).initialized(),
    ensures
        init_verdict(accounts, data) == Err::<InitParams, MatcherError>(
            MatcherError::AlreadyInitialized,
        ),
{
}

/// Once a record is initialized, a Match on it succeeds only for a signer
/// whose identity is the one that Initialize designated.
pub proof fn lemma_only_the_authority_matches(
    before: Seq<Account>,
    data: Seq<u8>,
    after: Seq<Account>,
    accounts: Seq<Account>,
    request: Seq<u8>,
)
    requires
        init_verdict(before, data) is Ok,
        init_effect(before, data, after),
        accounts.len() >= 2,
        accounts[1].data@ == after[1].data@,
        match_verdict(accounts, request) is Ok,
    ensures
        accounts[0].is_signer,
        accounts[0].key@ == before[0].key@,
{
    lemma_init_image(before[1].data@, before[0].key@, InitParams::of(data));
    lemma_key_of(before[0].key@);
}

/// What a refresh read and wrote.
#[derive(Clone, Copy, Debug, PartialEq, Eq)]
pub struct Refresh {
    /// The ledger's insurance fund balance, now the record's snapshot.
    pub insurance_balance: u128,
    /// The ledger's total open interest, now the record's snapshot.
    pub total_open_interest: u128,
    /// The market's age after this refresh.
    pub market_age_slots: u64,
    /// The clock's slot, now the record's snapshot slot.
    pub snapshot_slot: u64,
    /// Whether the ledger still has an administrator.
    pub admin: AdminState,
}

/// What a RefreshCredibility yields on accounts `[record, ledger, clock]`:
/// the first precondition that fails, or the values it commits.
pub open spec fn refresh_verdict(accounts: Seq<Account>) -> Result<Refresh, MatcherError> {
    if accounts.len() < 3 {
        Err(MatcherError::NotEnoughAccounts)
    } else if accounts[0].data@.len() < RECORD_LEN {
        Err(MatcherError::StorageTooSmall)
    } else if !MatcherContext::of(accounts[0].data@).initialized() {
        Err(MatcherError::Uninitialized)
    } else if accounts[1].data@.len() < SLAB_MIN_LEN {
        Err(MatcherError::StorageTooSmall)
    } else {
        let ctx = MatcherContext::of(accounts[0].data@);
        let ledger = LedgerView::of(accounts[1].data@);
        let admin = spec_admin_state(ledger.admin@);
        let slot = spec_clock_slot(accounts[2].data@);
        Ok(
            Refresh {
                insurance_balance: ledger.insurance_balance,
                total_open_interest: ledger.total_open_interest,
                market_age_slots: spec_market_age(
                    ctx.market_age_slots,
                    ctx.snapshot_slot,
                    slot,
                    admin,
                ),
                snapshot_slot: slot,
                admin,
            },
        )
    }
}

/// The record after a committed refresh: both snapshots, the market age and
/// the snapshot slot replaced.
pub open spec fn refresh_image(record: Seq<u8>, refresh: Refresh) -> Seq<u8> {
    let r = put_u128(record, CTX_BASE + CTX_INSURANCE_OFF, refresh.insurance_balance);
    let r = put_u128(r, CTX_BASE + CTX_TOTAL_OI_OFF, refresh.total_open_interest);
    let r = put_u64(r, CTX_BASE + CTX_MARKET_AGE_OFF, refresh.market_age_slots);
    put_u64(r, CTX_BASE + CTX_SNAPSHOT_SLOT_OFF, refresh.snapshot_slot)
}

/// What a RefreshCredibility leaves behind: the committed record when it
/// succeeds, and every account as it was when it fails.
pub open spec fn refresh_effect(before: Seq<Account>, after: Seq<Account>) -> bool {
    match refresh_verdict(before) {
        Ok(refresh) => record_replaced(before, 0, refresh_image(before[0].data@, refresh), after),
        Err(_) => after == before,
    }
}

/// A committed refresh changes four fields of the state and keeps every other
/// byte of the record.
pub proof fn lemma_refresh_image(record: Seq<u8>, refresh: Refresh)
    requires
        record.len() >= RECORD_LEN,
    ensures
        refresh_image(record, refresh).len() == record.len(),
        MatcherContext::of(refresh_image(record, refresh)) == (MatcherContext {
            insurance_snapshot: refresh.insurance_balance,
            total_oi_snapshot: refresh.total_open_interest,
            market_age_slots: refresh.market_age_slots,
            snapshot_slot: refresh.snapshot_slot,
            ..MatcherContext::of(record)
        }),
        forall|i: int|
            0 <= i < record.len() && !(208 <= i < 248) && !(256 <= i < 264) ==> refresh_image(
                record,
                refresh,
            )[i] == record[i],
{
    let r1 = put_u128(record, CTX_BASE + CTX_INSURANCE_OFF, refresh.insurance_balance);
    let r2 = put_u128(r1, CTX_BASE + CTX_TOTAL_OI_OFF, refresh.total_open_interest);
    let r3 = put_u64(r2, CTX_BASE + CTX_MARKET_AGE_OFF, refresh.market_age_slots);
    let r4 = put_u64(r3, CTX_BASE + CTX_SNAPSHOT_SLOT_OFF, refresh.snapshot_slot);
    lemma_pow256_widths();
    lemma_round_trip(refresh.insurance_balance as nat, 16);
    lemma_round_trip(refresh.total_open_interest as nat, 16);
    lemma_round_trip(refresh.market_age_slots as nat, 8);
    lemma_round_trip(refresh.snapshot_slot as nat, 8);
    lemma_overwrite_frame(
        record,
        CTX_BASE + CTX_INSURANCE_OFF,
        le_bytes(refresh.insurance_balance as nat, 16),
    );
    lemma_overwrite_frame(
        r1,
        CTX_BASE + CTX_TOTAL_OI_OFF,
        le_bytes(refresh.total_open_interest as nat, 16),
    );
    lemma_overwrite_frame(
        r2,
        CTX_BASE + CTX_MARKET_AGE_OFF,
        le_bytes(refresh.market_age_slots as nat, 8),
    );
    lemma_overwrite_frame(
        r3,
        CTX_BASE + CTX_SNAPSHOT_SLOT_OFF,
        le_bytes(refresh.snapshot_slot as nat, 8),
    );
    assert(MatcherContext::of(r4).authority =~= MatcherContext::of(record).authority);
}

/// While the ledger stays ownerless a refresh never lowers the market's age;
/// a ledger with an administrator sets it to zero.
pub proof fn lemma_age_never_falls_while_ownerless(accounts: Seq<Account>, refresh: Refresh)
    requires
        refresh_verdict(accounts) == Ok::<Refresh, MatcherError>(refresh),
    ensures
        refresh.admin == AdminState::Ownerless ==> refresh.market_age_slots >= MatcherContext::of(
            accounts[0].data@,
        ).market_age_slots,
        refresh.admin == AdminState::Owned ==> refresh.market_age_slots == 0,
{
}

/// Takes fresh insurance and open-interest snapshots from the ledger and
/// moves the market's age on. Anyone may call it.
///
/// Accounts: the matcher record, the ledger record, the clock record.
/// Payload: the tag alone.
pub fn process_update_credibility(
    _program_id: &[u8; 32],
    accounts: &mut Vec<Account>,
    _data: &[u8],
) -> (result: Result<Refresh, MatcherError>)
    ensures
        result == refresh_verdict(old(accounts)@),
        refresh_effect(old(accounts)@, final(accounts)@),
{
    if accounts.len() < 3 {
        return Err(MatcherError::NotEnoughAccounts);
    }
    if accounts[0].data.len() < RECORD_LEN {
        return Err(MatcherError::StorageTooSmall);
    }
    if !record_initialized(accounts[0].data.as_slice()) {
        return Err(MatcherError::Uninitialized);
    }
    let ledger = match LedgerView::read(accounts[1].data.as_slice()) {
        Ok(ledger) => ledger,
        Err(e) => {
            return Err(e);
        },
    };
    let admin = admin_state(&ledger.admin);
    let slot: u64 = clock_slot(accounts[2].data.as_slice());
    let existing_age: u64 = read_u64(accounts[0].data.as_slice(), CTX_BASE + CTX_MARKET_AGE_OFF);
    let previous_slot: u64 = read_u64(
        accounts[0].data.as_slice(),
        CTX_BASE + CTX_SNAPSHOT_SLOT_OFF,
    );
    let refresh = Refresh {
        insurance_balance: ledger.insurance_balance,
        total_open_interest: ledger.total_open_interest,
        market_age_slots: market_age(existing_age, previous_slot, slot, admin),
        snapshot_slot: slot,
        admin,
    };
    let record = accounts[0].data.as_mut_slice();
    write_u128(record, CTX_BASE + CTX_INSURANCE_OFF, refresh.insurance_balance);
    write_u128(record, CTX_BASE + CTX_TOTAL_OI_OFF, refresh.total_open_interest);
    write_u64(record, CTX_BASE + CTX_MARKET_AGE_OFF, refresh.market_age_slots);
    write_u64(record, CTX_BASE + CTX_SNAPSHOT_SLOT_OFF, refresh.snapshot_slot);
    Ok(refresh)
}

/// What an operation that ran to its end reports.
#[derive(Clone, Copy, Debug, PartialEq, Eq)]
pub enum Outcome {
    /// A trade was priced and booked.
    Matched(Fill),
    /// A record was set up.
    Initialized(InitParams),
    /// The credibility snapshots were refreshed.
    Refreshed(Refresh),
}

/// What an invocation yields: the error of an unrecognized tag, or the verdict
/// of the operation that the tag names.
pub open spec fn instruction_verdict(accounts: Seq<Account>, data: Seq<u8>) -> Result<
    Outcome,
    MatcherError,
> {
    match spec_operation(data) {
        Err(e) => Err(e),
        Ok(Operation::Match) => match match_verdict(accounts, data) {
            Ok(fill) => Ok(Outcome::Matched(fill)),
            Err(e) => Err(e),
        },
        Ok(Operation::Initialize) => match init_verdict(accounts, data) {
            Ok(params) => Ok(Outcome::Initialized(params)),
            Err(e) => Err(e),
        },
        Ok(Operation::RefreshCredibility) => match refresh_verdict(accounts) {
            Ok(refresh) => Ok(Outcome::Refreshed(refresh)),
            Err(e) => Err(e),
        },
    }
}

/// What an invocation leaves behind: nothing changes on an unrecognized tag,
/// and otherwise the effect is that of the operation that the tag names.
pub open spec fn instruction_effect(before: Seq<Account>, data: Seq<u8>, after: Seq<Account>) -> bool {
    match spec_operation(data) {
        Err(_) => after == before,
        Ok(Operation::Match) => match_effect(before, data, after),
        Ok(Operation::Initialize) => init_effect(before, data, after),
        Ok(Operation::RefreshCredibility) => refresh_effect(before, after),
    }
}

/// Whatever the operation, a failed invocation changes no account.
pub proof fn lemma_failure_changes_nothing(
    before: Seq<Account>,
    data: Seq<u8>,
    after: Seq<Account>,
)
    requires
        instruction_verdict(before, data) is Err,
        instruction_effect(before, data, after),
    ensures
        after == before,
{
}

/// Routes an invocation to its operation by the first byte of `data`.
pub fn process_instruction(program_id: &[u8; 32], accounts: &mut Vec<Account>, data: &[u8]) -> (result:
    Result<Outcome, MatcherError>)
    ensures
        result == instruction_verdict(old(accounts)@, data@),
        instruction_effect(old(accounts)@, data@, final(accounts)@),
{
    match decode_operation(data) {
        Err(e) => Err(e),
        Ok(Operation::Match) => match process_match(program_id, accounts, data) {
            Ok(fill) => Ok(Outcome::Matched(fill)),
            Err(e) => Err(e),
        },
        Ok(Operation::Initialize) => match process_init(program_id, accounts, data) {
            Ok(params) => Ok(Outcome::Initialized(params)),
            Err(e) => Err(e),
        },
        Ok(Operation::RefreshCredibility) => match process_update_credibility(
            program_id,
            accounts,
            data,
        ) {
            Ok(refresh) => Ok(Outcome::Refreshed(refresh)),
            Err(e) => Err(e),
        },
    }
}

} // verus!
