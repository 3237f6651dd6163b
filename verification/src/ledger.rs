//! The external ledger, read through its byte layout.
//!
//! The ledger record belongs to another program. This module never writes it
//! and trusts nothing about it but the offsets below, each checked against
//! the buffer's length before it is read.

use crate::codec::{field, read_key, read_u128, read_u64};
use crate::context::{key_of, lemma_key_of};
use crate::error::MatcherError;
use crate::keys::{same_key, system_program_key, zero_key};
use crate::pricing::lesser;
use vstd::prelude::*;

verus! {

/// Length of the ledger's header.
pub const SLAB_HEADER_LEN: usize = 72;

/// Length of the ledger's configuration block.
pub const SLAB_CONFIG_LEN: usize = 320;

/// Where the ledger's engine state begins: after header and configuration.
pub const SLAB_ENGINE_OFF: usize = SLAB_HEADER_LEN + SLAB_CONFIG_LEN;

/// Shortest ledger record that holds every field read here.
pub const SLAB_MIN_LEN: usize = SLAB_ENGINE_OFF + 400;

/// The administrator's identity, in the header.
pub const SLAB_ADMIN_OFF: usize = 16;

/// Insurance fund balance, relative to the engine state.
pub const ENGINE_INSURANCE_OFF: usize = 16;

/// Slot of the last crank, relative to the engine state.
pub const ENGINE_LAST_CRANK_OFF: usize = 232;

/// Total open interest, relative to the engine state.
pub const ENGINE_TOTAL_OI_OFF: usize = 248;

/// Whether a market still has an administrator.
#[derive(Clone, Copy, Debug, PartialEq, Eq, Structural)]
pub enum AdminState {
    /// An administrator holds the market.
    Owned,
    /// The administrator's identity was given up for good.
    Ownerless,
}

/// What this module reads of the ledger.
#[derive(Clone, Copy, Debug, PartialEq, Eq)]
pub struct LedgerView {
    pub insurance_balance: u128,
    pub total_open_interest: u128,
    pub admin: [u8; 32],
    pub last_crank_slot: u64,
}

/// The state that an administrator identity stands for: ownerless when every
/// byte is zero, which is also the system program's identity.
pub open spec fn spec_admin_state(admin: Seq<u8>) -> AdminState {
    if admin == zero_key() {
        AdminState::Ownerless
    } else {
        AdminState::Owned
    }
}

/// The slot that a clock record reports: its first eight bytes, or zero when
/// it has fewer.
pub open spec fn spec_clock_slot(clock: Seq<u8>) -> u64 {
    if clock.len() >= 8 {
        field(clock, 0, 8) as u64
    } else {
        0
    }
}

/// The market's age after a refresh at `current_slot`. The age of a market
/// with an administrator is zero. An ownerless market keeps its age and gains
/// the slots that have passed since the previous snapshot, held to 64 bits;
/// where no previous snapshot slot is stored, nothing is gained.
pub open spec fn spec_market_age(
    existing_age: u64,
    previous_slot: u64,
    current_slot: u64,
    admin: AdminState,
) -> u64 {
    if admin == AdminState::Owned {
        0
    } else {
        let passed = if previous_slot > 0 && current_slot >= previous_slot {
            current_slot - previous_slot
        } else {
            0
        };
        lesser(existing_age + passed, u64::MAX as int) as u64
    }
}

impl LedgerView {
    /// What a ledger record of at least 792 bytes holds.
    pub open spec fn of(slab: Seq<u8>) -> LedgerView {
        LedgerView {
            insurance_balance: field(slab, SLAB_ENGINE_OFF + ENGINE_INSURANCE_OFF, 16) as u128,
            total_open_interest: field(slab, SLAB_ENGINE_OFF + ENGINE_TOTAL_OI_OFF, 16) as u128,
            admin: key_of(slab.subrange(SLAB_ADMIN_OFF as int, SLAB_ADMIN_OFF + 32)),
            last_crank_slot: field(slab, SLAB_ENGINE_OFF + ENGINE_LAST_CRANK_OFF, 8) as u64,
        }
    }

    /// Reads the ledger, or refuses a record that is too short to hold it.
    pub fn read(slab: &[u8]) -> (result: Result<LedgerView, MatcherError>)
        ensures
            slab@.len() < SLAB_MIN_LEN ==> result == Err::<LedgerView, MatcherError>(
                MatcherError::StorageTooSmall,
            ),
            slab@.len() >= SLAB_MIN_LEN ==> result == Ok::<LedgerView, MatcherError>(
                LedgerView::of(slab@),
            ),
    {
        if slab.len() < SLAB_MIN_LEN {
            return Err(MatcherError::StorageTooSmall);
        }
        let view = LedgerView {
            insurance_balance: read_u128(slab, SLAB_ENGINE_OFF + ENGINE_INSURANCE_OFF),
            total_open_interest: read_u128(slab, SLAB_ENGINE_OFF + ENGINE_TOTAL_OI_OFF),
            admin: read_key(slab, SLAB_ADMIN_OFF),
            last_crank_slot: read_u64(slab, SLAB_ENGINE_OFF + ENGINE_LAST_CRANK_OFF),
        };
        proof {
            lemma_key_of(slab@.subrange(SLAB_ADMIN_OFF as int, SLAB_ADMIN_OFF + 32));
            assert(view.admin =~= LedgerView::of(slab@).admin);
        }
        Ok(view)
    }
}

/// Whether every byte of `key` is zero.
fn is_zero_key(key: &[u8; 32]) -> (r: bool)
    ensures
        r == (key@ == zero_key()),
{
    let mut i: usize = 0;
    while i < 32
        invariant
            i <= 32,
            forall|j: int| 0 <= j < i ==> key@[j] == 0u8,
        decreases 32 - i,
    {
        if key[i] != 0 {
            assert(key@[i as int] != zero_key()[i as int]);
            return false;
        }
        i += 1;
    }
    assert(key@ =~= zero_key());
    true
}

/// The state that an administrator identity stands for.
pub fn admin_state(admin: &[u8; 32]) -> (state: AdminState)
    ensures
        state == spec_admin_state(admin@),
{
    if is_zero_key(admin) {
        return AdminState::Ownerless;
    }
    let burned = system_program_key();
    if same_key(admin, &burned) {
        AdminState::Ownerless
    } else {
        AdminState::Owned
    }
}

/// The slot that a clock record reports.
pub fn clock_slot(clock: &[u8]) -> (slot: u64)
    ensures
        slot == spec_clock_slot(clock@),
{
    if clock.len() >= 8 {
        read_u64(clock, 0)
    } else {
        0
    }
}

/// The market's age after a refresh at `current_slot`.
pub fn market_age(existing_age: u64, previous_slot: u64, current_slot: u64, admin: AdminState) -> (age:
    u64)
    ensures
        age == spec_market_age(existing_age, previous_slot, current_slot, admin),
        admin == AdminState::Ownerless ==> age >= existing_age,
        admin == AdminState::Owned ==> age == 0,
{
    match admin {
        AdminState::Ownerless => {
            if previous_slot > 0 {
                existing_age.saturating_add(current_slot.saturating_sub(previous_slot))
            } else {
                existing_age
            }
        },
        AdminState::Owned => 0,
    }
}

} // verus!
