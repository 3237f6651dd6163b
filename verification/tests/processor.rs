use credibility_matcher::codec::{read_i128, read_u128, read_u32, read_u64, write_u128, write_u32, write_u64};
use credibility_matcher::context::{
    MatcherContext, CTX_BASE, CTX_MAGIC_OFF, CTX_MAX_SPREAD_OFF, CTX_VERSION_OFF,
    KIND_CREDIBILITY, MAGIC, RECORD_LEN, VERSION,
};
use credibility_matcher::error::MatcherError;
use credibility_matcher::instruction::{
    decode_operation, decode_trade_request, InitParams, Operation, INIT_PAYLOAD_LEN,
    MATCH_PAYLOAD_LEN, TAG_INITIALIZE, TAG_MATCH, TAG_REFRESH_CREDIBILITY,
};
use credibility_matcher::ledger::{
    admin_state, clock_slot, market_age, AdminState, LedgerView, SLAB_MIN_LEN,
};
use credibility_matcher::pricing::{Fill, TradeRequest};
use credibility_matcher::processor::{
    process_init, process_instruction, process_match, process_update_credibility,
    record_initialized, Account, Outcome, Refresh,
};

const PROGRAM: [u8; 32] = [9u8; 32];
const AUTHORITY: [u8; 32] = [7u8; 32];

fn account(key: [u8; 32], is_signer: bool, data: Vec<u8>) -> Account {
    Account { key, is_signer, data }
}

fn params() -> InitParams {
    InitParams {
        base_fee_bps: 5,
        min_spread_bps: 100,
        max_spread_bps: 200,
        imbalance_k_bps: 10,
        liquidity_notional: 1000,
        max_fill_abs: 1000,
        max_inventory_abs: 5000,
        age_halflife_slots: 77,
        insurance_weight_bps: 50,
    }
}

fn init_payload(kind: u8, p: &InitParams) -> Vec<u8> {
    let mut data = vec![TAG_INITIALIZE, kind];
    data.extend_from_slice(&p.base_fee_bps.to_le_bytes());
    data.extend_from_slice(&p.min_spread_bps.to_le_bytes());
    data.extend_from_slice(&p.max_spread_bps.to_le_bytes());
    data.extend_from_slice(&p.imbalance_k_bps.to_le_bytes());
    data.extend_from_slice(&p.liquidity_notional.to_le_bytes());
    data.extend_from_slice(&p.max_fill_abs.to_le_bytes());
    data.extend_from_slice(&p.max_inventory_abs.to_le_bytes());
    data.extend_from_slice(&p.age_halflife_slots.to_le_bytes());
    data.extend_from_slice(&p.insurance_weight_bps.to_le_bytes());
    data
}

fn match_payload(oracle_price: u64, trade_size: i128) -> Vec<u8> {
    let mut data = vec![TAG_MATCH];
    data.extend_from_slice(&oracle_price.to_le_bytes());
    data.extend_from_slice(&trade_size.to_le_bytes());
    data
}

fn fresh() -> Vec<Account> {
    vec![account(AUTHORITY, true, Vec::new()), account([1u8; 32], false, vec![0u8; RECORD_LEN])]
}

fn ready() -> Vec<Account> {
    let mut accounts = fresh();
    let data = init_payload(KIND_CREDIBILITY, &params());
    assert_eq!(process_init(&PROGRAM, &mut accounts, &data), Ok(params()));
    accounts
}

fn ledger(admin: [u8; 32], insurance: u128, total_oi: u128, last_crank: u64) -> Vec<u8> {
    let mut slab = vec![0x33u8; SLAB_MIN_LEN];
    slab[16..48].copy_from_slice(&admin);
    slab[408..424].copy_from_slice(&insurance.to_le_bytes());
    slab[640..656].copy_from_slice(&total_oi.to_le_bytes());
    slab[624..632].copy_from_slice(&last_crank.to_le_bytes());
    slab
}

fn refresh_accounts(record: Vec<u8>, slab: Vec<u8>, slot: u64) -> Vec<Account> {
    vec![
        account([1u8; 32], false, record),
        account([2u8; 32], false, slab),
        account([3u8; 32], false, slot.to_le_bytes().to_vec()),
    ]
}

#[test]
fn payload_lengths() {
    assert_eq!(MATCH_PAYLOAD_LEN, 25);
    assert_eq!(INIT_PAYLOAD_LEN, 74);
    assert_eq!(match_payload(1, 1).len(), MATCH_PAYLOAD_LEN);
    assert_eq!(init_payload(2, &params()).len(), INIT_PAYLOAD_LEN);
    assert_eq!(RECORD_LEN, 320);
}

#[test]
fn tags_name_operations() {
    assert_eq!(decode_operation(&[0]), Ok(Operation::Match));
    assert_eq!(decode_operation(&[2]), Ok(Operation::Initialize));
    assert_eq!(decode_operation(&[3]), Ok(Operation::RefreshCredibility));
    assert_eq!(decode_operation(&[0, 1, 2]), Ok(Operation::Match));
    assert_eq!(decode_operation(&[]), Err(MatcherError::UnrecognizedOperation));
    assert_eq!(decode_operation(&[1]), Err(MatcherError::UnrecognizedOperation));
    assert_eq!(decode_operation(&[4]), Err(MatcherError::UnrecognizedOperation));
    assert_eq!(decode_operation(&[255]), Err(MatcherError::UnrecognizedOperation));
    assert_eq!(TAG_REFRESH_CREDIBILITY, 3);
}

#[test]
fn payloads_decode() {
    let p = params();
    assert_eq!(InitParams::decode(&init_payload(2, &p)), p);
    assert_eq!(
        decode_trade_request(&match_payload(1_000_000_000, -10)),
        TradeRequest { oracle_price: 1_000_000_000, trade_size: -10 }
    );
}

#[test]
fn initialize_writes_the_record() {
    let mut accounts = fresh();
    accounts[1].data = vec![0xEEu8; RECORD_LEN + 5];
    accounts[1].data[64..72].copy_from_slice(&[0u8; 8]);
    let before = accounts[1].data.clone();
    let data = init_payload(KIND_CREDIBILITY, &params());
    assert_eq!(process_init(&PROGRAM, &mut accounts, &data), Ok(params()));
    let record = &accounts[1].data;
    assert_eq!(record.len(), RECORD_LEN + 5);
    let ctx = MatcherContext::decode(record);
    assert_eq!(ctx.magic, MAGIC);
    assert_eq!(ctx.version, VERSION);
    assert_eq!(ctx.kind, KIND_CREDIBILITY);
    assert_eq!(ctx.authority, AUTHORITY);
    assert_eq!(ctx.base_fee_bps, 5);
    assert_eq!(ctx.min_spread_bps, 100);
    assert_eq!(ctx.max_spread_bps, 200);
    assert_eq!(ctx.imbalance_k_bps, 10);
    assert_eq!(ctx.liquidity_notional, 1000);
    assert_eq!(ctx.max_fill_abs, 1000);
    assert_eq!(ctx.inventory_base, 0);
    assert_eq!(ctx.max_inventory_abs, 5000);
    assert_eq!(ctx.market_age_slots, 0);
    assert_eq!(ctx.last_deficit_slot, 0);
    assert_eq!(ctx.snapshot_slot, 0);
    assert_eq!(ctx.age_halflife_slots, 77);
    assert_eq!(ctx.insurance_weight_bps, 50);
    assert_eq!(ctx.last_oracle_price, 0xEEEE_EEEE_EEEE_EEEE);
    assert_eq!(ctx.last_exec_price, 0xEEEE_EEEE_EEEE_EEEE);
    assert!(ctx.is_initialized());
    assert!(record_initialized(record));
    assert_eq!(&record[0..64], &before[0..64]);
    assert_eq!(&record[77..80], &before[77..80]);
    assert_eq!(&record[272..], &before[272..]);
    assert_eq!(&record[64..72], b"CTAMCREP");
    assert_eq!(&record[72..77], &[4, 0, 0, 0, 2]);
    assert_eq!(accounts[0], account(AUTHORITY, true, Vec::new()));
    assert_eq!(accounts[1].key, [1u8; 32]);
}

#[test]
fn initialize_twice_is_refused_and_changes_nothing() {
    let mut accounts = ready();
    let before = accounts.clone();
    let mut other = params();
    other.min_spread_bps = 1;
    let again = init_payload(KIND_CREDIBILITY, &other);
    assert_eq!(
        process_init(&PROGRAM, &mut accounts, &again),
        Err(MatcherError::AlreadyInitialized)
    );
    assert_eq!(accounts, before);
    assert_eq!(
        process_instruction(&PROGRAM, &mut accounts, &again),
        Err(MatcherError::AlreadyInitialized)
    );
    assert_eq!(accounts, before);
}

#[test]
fn initialize_checks_in_order() {
    let good = init_payload(KIND_CREDIBILITY, &params());
    let mut one = vec![account(AUTHORITY, true, Vec::new())];
    assert_eq!(process_init(&PROGRAM, &mut one, &good[..10]), Err(MatcherError::NotEnoughAccounts));

    let mut small = fresh();
    small[1].data.truncate(RECORD_LEN - 1);
    assert_eq!(process_init(&PROGRAM, &mut small, &good[..73]), Err(MatcherError::StorageTooSmall));
    assert_eq!(process_init(&PROGRAM, &mut small, &good), Err(MatcherError::StorageTooSmall));

    let mut blank = fresh();
    let untouched = blank.clone();
    assert_eq!(process_init(&PROGRAM, &mut blank, &good[..73]), Err(MatcherError::MalformedInput));
    assert_eq!(process_init(&PROGRAM, &mut blank, &good[..1]), Err(MatcherError::MalformedInput));
    assert_eq!(process_init(&PROGRAM, &mut blank, &[]), Err(MatcherError::MalformedInput));
    let wrong_kind = init_payload(1, &params());
    assert_eq!(
        process_init(&PROGRAM, &mut blank, &wrong_kind[..73]),
        Err(MatcherError::MalformedInput)
    );
    assert_eq!(process_init(&PROGRAM, &mut blank, &wrong_kind), Err(MatcherError::WrongMatcherKind));
    assert_eq!(blank, untouched);
}

#[test]
fn an_initialized_record_refuses_initialize_whatever_the_payload() {
    let mut accounts = ready();
    let before = accounts.clone();
    let good = init_payload(KIND_CREDIBILITY, &params());
    let wrong_kind = init_payload(1, &params());
    let payloads: [&[u8]; 6] =
        [&good, &good[..73], &good[..2], &good[..1], &[], &wrong_kind];
    for payload in payloads {
        assert_eq!(
            process_init(&PROGRAM, &mut accounts, payload),
            Err(MatcherError::AlreadyInitialized)
        );
        assert_eq!(accounts, before);
    }
    assert_eq!(
        process_instruction(&PROGRAM, &mut accounts, &good[..5]),
        Err(MatcherError::AlreadyInitialized)
    );
    accounts[0].key = [0x44u8; 32];
    accounts[0].is_signer = false;
    let stranger = accounts.clone();
    assert_eq!(
        process_init(&PROGRAM, &mut accounts, &good),
        Err(MatcherError::AlreadyInitialized)
    );
    assert_eq!(accounts, stranger);
}

#[test]
fn a_record_of_another_version_is_not_initialized() {
    let mut accounts = fresh();
    write_u64(&mut accounts[1].data, CTX_BASE + CTX_MAGIC_OFF, MAGIC);
    write_u32(&mut accounts[1].data, CTX_BASE + CTX_VERSION_OFF, VERSION + 1);
    assert!(!record_initialized(&accounts[1].data));
    let request = match_payload(1_000_000, 1);
    write_key_of_authority(&mut accounts[1].data);
    assert_eq!(process_match(&PROGRAM, &mut accounts, &request), Err(MatcherError::Uninitialized));
    let data = init_payload(KIND_CREDIBILITY, &params());
    assert_eq!(process_init(&PROGRAM, &mut accounts, &data), Ok(params()));
    assert!(record_initialized(&accounts[1].data));
}

fn write_key_of_authority(record: &mut [u8]) {
    record[80..112].copy_from_slice(&AUTHORITY);
}

#[test]
fn match_books_a_buy() {
    let mut accounts = ready();
    let before = accounts[1].data.clone();
    let request = match_payload(1_000_000_000, 10);
    let expected = Fill {
        spread_bps: 100,
        fee_bps: 5,
        exec_price: 1_010_500_000,
        size: 10,
        inventory: 10,
    };
    assert_eq!(process_match(&PROGRAM, &mut accounts, &request), Ok(expected));
    let record = &accounts[1].data;
    let ctx = MatcherContext::decode(record);
    assert_eq!(ctx.inventory_base, 10);
    assert_eq!(ctx.last_oracle_price, 1_000_000_000);
    assert_eq!(ctx.last_exec_price, 1_010_500_000);
    assert_eq!(&record[0..8], &1_010_500_000i64.to_le_bytes());
    assert_eq!(&record[8..24], &10i128.to_le_bytes());
    assert_eq!(&record[24..160], &before[24..160]);
    assert_eq!(&record[192..], &before[192..]);
    let mut expected_ctx = MatcherContext::decode(&before);
    expected_ctx.inventory_base = 10;
    expected_ctx.last_oracle_price = 1_000_000_000;
    expected_ctx.last_exec_price = 1_010_500_000;
    assert_eq!(ctx, expected_ctx);
    assert_eq!(accounts[0], account(AUTHORITY, true, Vec::new()));
}

#[test]
fn match_books_a_sell_on_skewed_inventory() {
    let mut accounts = ready();
    let buy = match_payload(1_000_000_000, 1000);
    assert!(process_match(&PROGRAM, &mut accounts, &buy).is_ok());
    let sell = match_payload(2_000_000, -300);
    let expected = Fill {
        spread_bps: 110,
        fee_bps: 5,
        exec_price: 1_977_000,
        size: -300,
        inventory: 700,
    };
    assert_eq!(process_match(&PROGRAM, &mut accounts, &sell), Ok(expected));
    let record = &accounts[1].data;
    assert_eq!(read_i128(record, 160), 700);
    assert_eq!(read_u64(record, 176), 2_000_000);
    assert_eq!(read_u64(record, 184), 1_977_000);
    assert_eq!(read_u64(record, 0), 1_977_000);
    assert_eq!(read_i128(record, 8), -300);
}

#[test]
fn match_prices_off_the_committed_snapshot() {
    let mut accounts = ready();
    write_u128(&mut accounts[1].data, 208, 500_000);
    write_u128(&mut accounts[1].data, 224, 1_000_000);
    let request = match_payload(1_000_000_000, 1);
    let fill = process_match(&PROGRAM, &mut accounts, &request).unwrap();
    assert_eq!(fill.spread_bps, 75);
    assert_eq!(fill.exec_price, 1_008_000_000);
}

#[test]
fn match_holds_the_slot_price_to_a_signed_word() {
    let mut accounts = ready();
    let request = match_payload(u64::MAX, 1);
    let fill = process_match(&PROGRAM, &mut accounts, &request).unwrap();
    assert_eq!(fill.exec_price, u64::MAX);
    let record = &accounts[1].data;
    assert_eq!(read_u64(record, 184), u64::MAX);
    assert_eq!(&record[0..8], &i64::MAX.to_le_bytes());
}

#[test]
fn match_over_the_fill_cap_is_refused_and_changes_nothing() {
    let mut accounts = ready();
    let before = accounts.clone();
    let request = match_payload(1_000_000_000, 1001);
    assert_eq!(
        process_match(&PROGRAM, &mut accounts, &request),
        Err(MatcherError::FillLimitExceeded)
    );
    assert_eq!(accounts, before);
    assert_eq!(
        process_instruction(&PROGRAM, &mut accounts, &request),
        Err(MatcherError::FillLimitExceeded)
    );
    assert_eq!(accounts, before);
}

#[test]
fn a_failed_match_changes_nothing() {
    let good = match_payload(1_000_000_000, 10);

    let mut one = vec![account(AUTHORITY, true, Vec::new())];
    assert_eq!(process_match(&PROGRAM, &mut one, &good), Err(MatcherError::NotEnoughAccounts));

    let mut accounts = ready();
    let before = accounts.clone();
    assert_eq!(
        process_match(&PROGRAM, &mut accounts, &good[..24]),
        Err(MatcherError::MalformedInput)
    );
    assert_eq!(accounts, before);

    accounts[0].is_signer = false;
    let unsigned = accounts.clone();
    assert_eq!(process_match(&PROGRAM, &mut accounts, &good), Err(MatcherError::MissingSignature));
    assert_eq!(accounts, unsigned);
    accounts[0].is_signer = true;

    accounts[0].key[31] ^= 1;
    let stranger = accounts.clone();
    assert_eq!(process_match(&PROGRAM, &mut accounts, &good), Err(MatcherError::AuthorityMismatch));
    assert_eq!(accounts, stranger);
    accounts[0].key = AUTHORITY;

    let zero_price = match_payload(0, 10);
    assert_eq!(
        process_match(&PROGRAM, &mut accounts, &zero_price),
        Err(MatcherError::ZeroOraclePrice)
    );
    assert_eq!(accounts, before);

    let over_inventory = match_payload(1_000_000_000, 1000);
    for _ in 0..5 {
        assert!(process_match(&PROGRAM, &mut accounts, &over_inventory).is_ok());
    }
    let full = accounts.clone();
    assert_eq!(read_i128(&accounts[1].data, 160), 5000);
    assert_eq!(
        process_match(&PROGRAM, &mut accounts, &match_payload(1_000_000_000, 1)),
        Err(MatcherError::InventoryLimitExceeded)
    );
    assert_eq!(accounts, full);

    write_u32(&mut accounts[1].data, CTX_BASE + CTX_MAX_SPREAD_OFF, 0);
    let no_ceiling = accounts.clone();
    assert_eq!(
        process_match(&PROGRAM, &mut accounts, &match_payload(1_000_000_000, -1)),
        Err(MatcherError::EmptySpreadRange)
    );
    assert_eq!(accounts, no_ceiling);

    let mut short = ready();
    short[1].data.truncate(RECORD_LEN - 1);
    let truncated = short.clone();
    assert_eq!(process_match(&PROGRAM, &mut short, &good), Err(MatcherError::StorageTooSmall));
    assert_eq!(short, truncated);

    let mut blank = fresh();
    blank[0].key = [0u8; 32];
    let untouched = blank.clone();
    assert_eq!(process_match(&PROGRAM, &mut blank, &good), Err(MatcherError::Uninitialized));
    assert_eq!(blank, untouched);
    blank[0].key = AUTHORITY;
    assert_eq!(process_match(&PROGRAM, &mut blank, &good), Err(MatcherError::AuthorityMismatch));
}

#[test]
fn inventory_stays_within_its_cap() {
    let mut accounts = ready();
    let sizes: [i128; 8] = [1000, 1000, -1000, 1000, 1000, 1000, 1000, 1000];
    for size in sizes {
        let _ = process_match(&PROGRAM, &mut accounts, &match_payload(1_000_000, size));
        let inventory = read_i128(&accounts[1].data, 160);
        assert!(inventory.unsigned_abs() <= 5000);
    }
    assert_eq!(read_i128(&accounts[1].data, 160), 5000);
}

#[test]
fn ledger_is_read_at_its_offsets() {
    let mut admin = [0u8; 32];
    admin[0] = 0xAB;
    let slab = ledger(admin, 123_456, u128::MAX, 42);
    assert_eq!(
        LedgerView::read(&slab),
        Ok(LedgerView {
            insurance_balance: 123_456,
            total_open_interest: u128::MAX,
            admin,
            last_crank_slot: 42,
        })
    );
    assert_eq!(LedgerView::read(&slab[..791]), Err(MatcherError::StorageTooSmall));
    assert_eq!(LedgerView::read(&[]), Err(MatcherError::StorageTooSmall));
    assert_eq!(SLAB_MIN_LEN, 792);
}

#[test]
fn only_the_zero_identity_is_ownerless() {
    assert_eq!(admin_state(&[0u8; 32]), AdminState::Ownerless);
    for i in 0..32 {
        let mut key = [0u8; 32];
        key[i] = 1;
        assert_eq!(admin_state(&key), AdminState::Owned);
    }
    assert_eq!(admin_state(&[0xFFu8; 32]), AdminState::Owned);
}

#[test]
fn clock_slot_values() {
    assert_eq!(clock_slot(&1000u64.to_le_bytes()), 1000);
    assert_eq!(clock_slot(&[1, 0, 0, 0, 0, 0, 0, 0, 0xFF, 0xFF]), 1);
    assert_eq!(clock_slot(&[1, 2, 3, 4, 5, 6, 7]), 0);
    assert_eq!(clock_slot(&[]), 0);
}

#[test]
fn market_age_values() {
    assert_eq!(market_age(0, 1000, 1500, AdminState::Ownerless), 500);
    assert_eq!(market_age(40, 1000, 1500, AdminState::Ownerless), 540);
    assert_eq!(market_age(40, 1000, 1000, AdminState::Ownerless), 40);
    assert_eq!(market_age(40, 1000, 900, AdminState::Ownerless), 40);
    assert_eq!(market_age(40, 0, 1500, AdminState::Ownerless), 40);
    assert_eq!(market_age(0, 0, 1500, AdminState::Ownerless), 0);
    assert_eq!(market_age(40, 0, 0, AdminState::Ownerless), 40);
    assert_eq!(market_age(40, 0, 1500, AdminState::Owned), 0);
    assert_eq!(market_age(40, 1000, 1500, AdminState::Owned), 0);
    assert_eq!(market_age(u64::MAX - 1, 1, 100, AdminState::Ownerless), u64::MAX);
    assert_eq!(market_age(u64::MAX, 1, u64::MAX, AdminState::Ownerless), u64::MAX);
}

#[test]
fn refresh_takes_snapshots_and_ages_an_ownerless_market() {
    let record = ready().remove(1).data;
    let before = record.clone();
    let slab = ledger([0u8; 32], 500_000, 1_000_000, 5);
    let mut accounts = refresh_accounts(record, slab.clone(), 1000);
    assert_eq!(
        process_update_credibility(&PROGRAM, &mut accounts, &[TAG_REFRESH_CREDIBILITY]),
        Ok(Refresh {
            insurance_balance: 500_000,
            total_open_interest: 1_000_000,
            market_age_slots: 0,
            snapshot_slot: 1000,
            admin: AdminState::Ownerless,
        })
    );
    {
        let record = &accounts[0].data;
        assert_eq!(read_u128(record, 208), 500_000);
        assert_eq!(read_u128(record, 224), 1_000_000);
        assert_eq!(read_u64(record, 240), 0);
        assert_eq!(read_u64(record, 256), 1000);
        assert_eq!(&record[..208], &before[..208]);
        assert_eq!(&record[248..256], &before[248..256]);
        assert_eq!(&record[264..], &before[264..]);
    }
    assert_eq!(accounts[1].data, slab);

    accounts[2].data = 1500u64.to_le_bytes().to_vec();
    let second = process_update_credibility(&PROGRAM, &mut accounts, &[3]).unwrap();
    assert_eq!(second.market_age_slots, 500);
    assert_eq!(second.snapshot_slot, 1500);
    assert_eq!(read_u64(&accounts[0].data, 240), 500);

    accounts[2].data = 1600u64.to_le_bytes().to_vec();
    let third = process_update_credibility(&PROGRAM, &mut accounts, &[3]).unwrap();
    assert_eq!(third.market_age_slots, 600);

    accounts[1].data = ledger([5u8; 32], 1, 2, 5);
    accounts[2].data = 1700u64.to_le_bytes().to_vec();
    let owned = process_update_credibility(&PROGRAM, &mut accounts, &[3]).unwrap();
    assert_eq!(owned.admin, AdminState::Owned);
    assert_eq!(owned.market_age_slots, 0);
    assert_eq!(read_u64(&accounts[0].data, 240), 0);
    assert_eq!(read_u64(&accounts[0].data, 256), 1700);
    assert_eq!(read_u128(&accounts[0].data, 208), 1);
    assert_eq!(read_u128(&accounts[0].data, 224), 2);
}

#[test]
fn refresh_with_a_short_clock_reads_slot_zero() {
    let record = ready().remove(1).data;
    let mut accounts = refresh_accounts(record, ledger([0u8; 32], 1, 1, 0), 1000);
    accounts[2].data.truncate(7);
    let refresh = process_update_credibility(&PROGRAM, &mut accounts, &[3]).unwrap();
    assert_eq!(refresh.snapshot_slot, 0);
    assert_eq!(refresh.market_age_slots, 0);
}

#[test]
fn the_age_of_an_ownerless_market_never_falls() {
    let record = ready().remove(1).data;
    let mut accounts = refresh_accounts(record, ledger([0u8; 32], 1, 1, 0), 1000);
    let mut last = 0u64;
    let clocks: [&[u8]; 8] = [
        &1000u64.to_le_bytes(),
        &1500u64.to_le_bytes(),
        &[1, 2, 3],
        &2000u64.to_le_bytes(),
        &2600u64.to_le_bytes(),
        &0u64.to_le_bytes(),
        &100u64.to_le_bytes(),
        &90u64.to_le_bytes(),
    ];
    let expected: [u64; 8] = [0, 500, 500, 500, 1100, 1100, 1100, 1100];
    for (clock, age) in clocks.iter().zip(expected) {
        accounts[2].data = clock.to_vec();
        let refresh = process_update_credibility(&PROGRAM, &mut accounts, &[3]).unwrap();
        assert_eq!(refresh.admin, AdminState::Ownerless);
        assert_eq!(refresh.market_age_slots, age);
        assert!(refresh.market_age_slots >= last);
        assert_eq!(read_u64(&accounts[0].data, 240), age);
        last = refresh.market_age_slots;
    }
}

#[test]
fn a_failed_refresh_changes_nothing() {
    let record = ready().remove(1).data;
    let slab = ledger([0u8; 32], 500_000, 1_000_000, 5);

    let mut two = refresh_accounts(record.clone(), slab.clone(), 1000);
    two.truncate(2);
    let before = two.clone();
    assert_eq!(
        process_update_credibility(&PROGRAM, &mut two, &[3]),
        Err(MatcherError::NotEnoughAccounts)
    );
    assert_eq!(two, before);

    let mut short = refresh_accounts(record[..319].to_vec(), slab.clone(), 1000);
    let before = short.clone();
    assert_eq!(
        process_update_credibility(&PROGRAM, &mut short, &[3]),
        Err(MatcherError::StorageTooSmall)
    );
    assert_eq!(short, before);

    let mut blank = refresh_accounts(vec![0u8; RECORD_LEN], slab[..10].to_vec(), 1000);
    let before = blank.clone();
    assert_eq!(
        process_update_credibility(&PROGRAM, &mut blank, &[3]),
        Err(MatcherError::Uninitialized)
    );
    assert_eq!(blank, before);

    let mut small = refresh_accounts(record, slab[..791].to_vec(), 1000);
    let before = small.clone();
    assert_eq!(
        process_update_credibility(&PROGRAM, &mut small, &[3]),
        Err(MatcherError::StorageTooSmall)
    );
    assert_eq!(small, before);
}

#[test]
fn dispatch_routes_by_tag() {
    let mut accounts = fresh();
    let init = init_payload(KIND_CREDIBILITY, &params());
    assert_eq!(
        process_instruction(&PROGRAM, &mut accounts, &init),
        Ok(Outcome::Initialized(params()))
    );
    let request = match_payload(1_000_000_000, 10);
    assert_eq!(
        process_instruction(&PROGRAM, &mut accounts, &request),
        Ok(Outcome::Matched(Fill {
            spread_bps: 100,
            fee_bps: 5,
            exec_price: 1_010_500_000,
            size: 10,
            inventory: 10,
        }))
    );
    let record = accounts.remove(1).data;
    let mut accounts = refresh_accounts(record, ledger([0u8; 32], 7, 8, 0), 9);
    assert_eq!(
        process_instruction(&PROGRAM, &mut accounts, &[3]),
        Ok(Outcome::Refreshed(Refresh {
            insurance_balance: 7,
            total_open_interest: 8,
            market_age_slots: 0,
            snapshot_slot: 9,
            admin: AdminState::Ownerless,
        }))
    );
}

#[test]
fn dispatch_refuses_unknown_tags_before_touching_any_record() {
    let mut accounts = ready();
    let before = accounts.clone();
    assert_eq!(
        process_instruction(&PROGRAM, &mut accounts, &[]),
        Err(MatcherError::UnrecognizedOperation)
    );
    let mut payload = match_payload(1_000_000_000, 10);
    payload[0] = 1;
    assert_eq!(
        process_instruction(&PROGRAM, &mut accounts, &payload),
        Err(MatcherError::UnrecognizedOperation)
    );
    payload[0] = 4;
    assert_eq!(
        process_instruction(&PROGRAM, &mut accounts, &payload),
        Err(MatcherError::UnrecognizedOperation)
    );
    assert_eq!(accounts, before);
    let mut none: Vec<Account> = Vec::new();
    assert_eq!(
        process_instruction(&PROGRAM, &mut none, &[9]),
        Err(MatcherError::UnrecognizedOperation)
    );
    assert_eq!(
        process_instruction(&PROGRAM, &mut none, &[0]),
        Err(MatcherError::NotEnoughAccounts)
    );
}

#[test]
fn context_reads_only_its_own_bytes() {
    let mut record = vec![0u8; RECORD_LEN];
    for b in record[..64].iter_mut() {
        *b = 0xFF;
    }
    for b in record[272..].iter_mut() {
        *b = 0xFF;
    }
    let ctx = MatcherContext::decode(&record);
    assert_eq!(ctx.magic, 0);
    assert_eq!(ctx.insurance_weight_bps, 0);
    assert_eq!(ctx.authority, [0u8; 32]);
    assert_eq!(read_u32(&record, 268), 0);
}
