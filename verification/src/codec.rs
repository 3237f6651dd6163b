//! Fixed-width little-endian integers in a flat byte buffer.
//!
//! The codec knows nothing about what a field means. A field is a run of
//! bytes at an offset; its value is the number those bytes denote in base 256,
//! least significant digit first. Signed 128-bit fields are two's complement.

use vstd::arithmetic::div_mod::{lemma_mod_breakdown, lemma_small_mod};
use vstd::prelude::*;

verus! {

/// 256 to the power `n`.
pub open spec fn pow256(n: nat) -> nat
    decreases n,
{
    if n == 0 {
        1
    } else {
        256 * pow256((n - 1) as nat)
    }
}

/// The number that `bytes` denotes when read least significant byte first.
pub open spec fn le_value(bytes: Seq<u8>) -> nat
    decreases bytes.len(),
{
    if bytes.len() == 0 {
        0
    } else {
        bytes[0] as nat + 256 * le_value(bytes.skip(1))
    }
}

/// The `width` low-order base-256 digits of `v`, least significant first.
pub open spec fn le_bytes(v: nat, width: nat) -> Seq<u8>
    decreases width,
{
    if width == 0 {
        Seq::empty()
    } else {
        seq![(v % 256) as u8] + le_bytes(v / 256, (width - 1) as nat)
    }
}

/// The unsigned value of the `width` bytes of `buf` that start at `off`.
pub open spec fn field(buf: Seq<u8>, off: int, width: int) -> nat {
    le_value(buf.subrange(off, off + width))
}

/// `buf` with the bytes from `off` on replaced by `bytes`; its length is kept.
pub open spec fn overwrite(buf: Seq<u8>, off: int, bytes: Seq<u8>) -> Seq<u8> {
    Seq::new(
        buf.len(),
        |i: int|
            if off <= i < off + bytes.len() {
                bytes[i - off]
            } else {
                buf[i]
            },
    )
}

/// The signed number that a 128-bit pattern denotes in two's complement.
pub open spec fn signed128(v: nat) -> int {
    if v < 0x8000_0000_0000_0000_0000_0000_0000_0000 {
        v as int
    } else {
        v - 0x1_0000_0000_0000_0000_0000_0000_0000_0000
    }
}

/// The 128-bit two's complement pattern of a signed number.
pub open spec fn unsigned128(v: int) -> nat {
    if v >= 0 {
        v as nat
    } else {
        (v + 0x1_0000_0000_0000_0000_0000_0000_0000_0000) as nat
    }
}

/// The signed value of the 16 bytes of `buf` that start at `off`.
pub open spec fn signed_field(buf: Seq<u8>, off: int) -> int {
    signed128(field(buf, off, 16))
}

/// `buf` with the unsigned 32-bit field at `off` set to `val`.
pub open spec fn put_u32(buf: Seq<u8>, off: int, val: u32) -> Seq<u8> {
    overwrite(buf, off, le_bytes(val as nat, 4))
}

/// `buf` with the unsigned 64-bit field at `off` set to `val`.
pub open spec fn put_u64(buf: Seq<u8>, off: int, val: u64) -> Seq<u8> {
    overwrite(buf, off, le_bytes(val as nat, 8))
}

/// `buf` with the unsigned 128-bit field at `off` set to `val`.
pub open spec fn put_u128(buf: Seq<u8>, off: int, val: u128) -> Seq<u8> {
    overwrite(buf, off, le_bytes(val as nat, 16))
}

/// `buf` with the signed 128-bit field at `off` set to `val`.
pub open spec fn put_i128(buf: Seq<u8>, off: int, val: i128) -> Seq<u8> {
    overwrite(buf, off, le_bytes(unsigned128(val as int), 16))
}

/// Powers of 256 at the widths this codec uses.
pub proof fn lemma_pow256_widths()
    ensures
        pow256(1) == 0x100,
        pow256(4) == 0x1_0000_0000,
        pow256(8) == 0x1_0000_0000_0000_0000,
        pow256(15) == 0x1_0000_0000_0000_0000_0000_0000_0000_00,
        pow256(16) == 0x1_0000_0000_0000_0000_0000_0000_0000_0000,
{
    reveal_with_fuel(pow256, 17);
}

/// `pow256` never decreases.
pub proof fn lemma_pow256_monotone(a: nat, b: nat)
    requires
        a <= b,
    ensures
        1 <= pow256(a) <= pow256(b),
    decreases b,
{
    if b == 0 {
    } else if a == b {
        lemma_pow256_monotone((a - 1) as nat, (b - 1) as nat);
    } else {
        lemma_pow256_monotone(a, (b - 1) as nat);
    }
}

/// A byte string of length `n` denotes a number below `256^n`.
pub proof fn lemma_le_value_bound(bytes: Seq<u8>)
    ensures
        le_value(bytes) < pow256(bytes.len()),
    decreases bytes.len(),
{
    if bytes.len() > 0 {
        lemma_le_value_bound(bytes.skip(1));
    }
}

/// `le_bytes(v, width)` has exactly `width` bytes.
pub proof fn lemma_le_bytes_len(v: nat, width: nat)
    ensures
        le_bytes(v, width).len() == width,
    decreases width,
{
    if width > 0 {
        lemma_le_bytes_len(v / 256, (width - 1) as nat);
    }
}

/// Decoding the `width` digits of `v` gives `v` reduced modulo `256^width`.
pub proof fn lemma_value_of_bytes(v: nat, width: nat)
    ensures
        le_value(le_bytes(v, width)) == v % pow256(width),
    decreases width,
{
    if width == 0 {
    } else {
        let rest = le_bytes(v / 256, (width - 1) as nat);
        let all = le_bytes(v, width);
        lemma_le_bytes_len(v / 256, (width - 1) as nat);
        assert(all.skip(1) =~= rest);
        lemma_value_of_bytes(v / 256, (width - 1) as nat);
        lemma_pow256_monotone(0, (width - 1) as nat);
        lemma_mod_breakdown(v as int, 256, pow256((width - 1) as nat) as int);
    }
}

/// A value that fits in `width` bytes survives encoding and decoding.
pub proof fn lemma_round_trip(v: nat, width: nat)
    requires
        v < pow256(width),
    ensures
        le_bytes(v, width).len() == width,
        le_value(le_bytes(v, width)) == v,
{
    lemma_le_bytes_len(v, width);
    lemma_value_of_bytes(v, width);
    lemma_small_mod(v, pow256(width));
}

/// A field that was just overwritten holds what was written.
pub proof fn lemma_field_written(buf: Seq<u8>, off: int, bytes: Seq<u8>)
    requires
        0 <= off,
        off + bytes.len() <= buf.len(),
    ensures
        overwrite(buf, off, bytes).len() == buf.len(),
        overwrite(buf, off, bytes).subrange(off, off + bytes.len()) == bytes,
        field(overwrite(buf, off, bytes), off, bytes.len() as int) == le_value(bytes),
{
    assert(overwrite(buf, off, bytes).subrange(off, off + bytes.len()) =~= bytes);
}

/// What an overwrite changes and what it keeps: the length stays, the written
/// range holds `bytes`, and every range and byte clear of it is as before.
pub proof fn lemma_overwrite_frame(buf: Seq<u8>, off: int, bytes: Seq<u8>)
    requires
        0 <= off,
        off + bytes.len() <= buf.len(),
    ensures
        overwrite(buf, off, bytes).len() == buf.len(),
        overwrite(buf, off, bytes).subrange(off, off + bytes.len()) == bytes,
        forall|a: int, b: int|
            0 <= a <= b <= buf.len() && (b <= off || off + bytes.len() <= a) ==> #[trigger] overwrite(
                buf,
                off,
                bytes,
            ).subrange(a, b) == buf.subrange(a, b),
        forall|i: int|
            0 <= i < buf.len() && !(off <= i < off + bytes.len()) ==> #[trigger] overwrite(
                buf,
                off,
                bytes,
            )[i] == buf[i],
{
    assert(overwrite(buf, off, bytes).subrange(off, off + bytes.len()) =~= bytes);
    assert forall|a: int, b: int|
        0 <= a <= b <= buf.len() && (b <= off || off + bytes.len() <= a) implies #[trigger] overwrite(
        buf,
        off,
        bytes,
    ).subrange(a, b) == buf.subrange(a, b) by {
        assert(overwrite(buf, off, bytes).subrange(a, b) =~= buf.subrange(a, b));
    }
}

/// Two's complement is a bijection between 128-bit patterns and `i128`.
pub proof fn lemma_signed_round_trip(v: int)
    requires
        i128::MIN <= v <= i128::MAX,
    ensures
        unsigned128(v) <= u128::MAX,
        signed128(unsigned128(v)) == v,
{
}

/// Writing an unsigned 32-bit value and reading the same field gives it back.
pub proof fn lemma_u32_round_trip(buf: Seq<u8>, off: int, val: u32)
    requires
        0 <= off,
        off + 4 <= buf.len(),
    ensures
        field(put_u32(buf, off, val), off, 4) == val,
{
    lemma_pow256_widths();
    lemma_round_trip(val as nat, 4);
    lemma_field_written(buf, off, le_bytes(val as nat, 4));
}

/// Writing an unsigned 64-bit value and reading the same field gives it back.
pub proof fn lemma_u64_round_trip(buf: Seq<u8>, off: int, val: u64)
    requires
        0 <= off,
        off + 8 <= buf.len(),
    ensures
        field(put_u64(buf, off, val), off, 8) == val,
{
    lemma_pow256_widths();
    lemma_round_trip(val as nat, 8);
    lemma_field_written(buf, off, le_bytes(val as nat, 8));
}

/// Writing an unsigned 128-bit value and reading the same field gives it back.
pub proof fn lemma_u128_round_trip(buf: Seq<u8>, off: int, val: u128)
    requires
        0 <= off,
        off + 16 <= buf.len(),
    ensures
        field(put_u128(buf, off, val), off, 16) == val,
{
    lemma_pow256_widths();
    lemma_round_trip(val as nat, 16);
    lemma_field_written(buf, off, le_bytes(val as nat, 16));
}

/// Writing a signed 128-bit value and reading the same field gives it back.
pub proof fn lemma_i128_round_trip(buf: Seq<u8>, off: int, val: i128)
    requires
        0 <= off,
        off + 16 <= buf.len(),
    ensures
        signed_field(put_i128(buf, off, val), off) == val,
{
    lemma_pow256_widths();
    lemma_signed_round_trip(val as int);
    lemma_round_trip(unsigned128(val as int), 16);
    lemma_field_written(buf, off, le_bytes(unsigned128(val as int), 16));
}

/// Reads `width` bytes at `off` as one unsigned number.
fn read_le(data: &[u8], off: usize, width: usize) -> (r: u128)
    requires
        width <= 16,
        off + width <= data@.len(),
    ensures
        r as nat == field(data@, off as int, width as int),
        r < pow256(width as nat),
{
    proof {
        vstd::slice::axiom_spec_len(data);
    }
    let mut acc: u128 = 0;
    let mut i: usize = width;
    while i > 0
        invariant
            i <= width <= 16,
            off + width <= data@.len() <= usize::MAX,
            acc as nat == le_value(data@.subrange(off + i, off + width)),
        decreases i,
    {
        i -= 1;
        proof {
            let tail = data@.subrange(off + i, off + width);
            assert(tail.skip(1) =~= data@.subrange(off + i + 1, off + width));
            lemma_le_value_bound(tail.skip(1));
            lemma_pow256_monotone(tail.skip(1).len(), 15);
            lemma_pow256_widths();
        }
        acc = acc * 256 + data[off + i] as u128;
    }
    proof {
        lemma_le_value_bound(data@.subrange(off as int, off + width));
    }
    acc
}

/// Writes the `width` low-order bytes of `val` at `off`.
fn write_le(data: &mut [u8], off: usize, width: usize, val: u128)
    requires
        width <= 16,
        off + width <= old(data)@.len(),
    ensures
        final(data)@ == overwrite(old(data)@, off as int, le_bytes(val as nat, width as nat)),
{
    let ghost before = data@;
    let ghost target = le_bytes(val as nat, width as nat);
    proof {
        vstd::slice::axiom_spec_len(data);
        lemma_le_bytes_len(val as nat, width as nat);
        assert(target.subrange(0, width as int) =~= target);
    }
    let mut rest: u128 = val;
    let mut i: usize = 0;
    while i < width
        invariant
            i <= width <= 16,
            target.len() == width,
            before.len() == data@.len(),
            off + width <= data@.len() <= usize::MAX,
            data@ == overwrite(before, off as int, target.subrange(0, i as int)),
            le_bytes(rest as nat, (width - i) as nat) == target.subrange(i as int, width as int),
        decreases width - i,
    {
        let ghost digits = le_bytes(rest as nat, (width - i) as nat);
        let ghost shorter = le_bytes(rest as nat / 256, (width - i - 1) as nat);
        proof {
            lemma_le_bytes_len(rest as nat / 256, (width - i - 1) as nat);
            assert(digits[0] == (rest % 256) as u8);
            assert(digits.skip(1) =~= shorter);
            assert(target.subrange(i as int, width as int).skip(1) =~= target.subrange(
                i + 1,
                width as int,
            ));
        }
        data[off + i] = (rest % 256) as u8;
        rest = rest / 256;
        i += 1;
        proof {
            assert(data@ =~= overwrite(before, off as int, target.subrange(0, i as int)));
        }
    }
    proof {
        assert(target.subrange(0, width as int) =~= target);
    }
}

/// The 128-bit pattern of a signed value.
fn pattern_of(val: i128) -> (r: u128)
    ensures
        r as nat == unsigned128(val as int),
{
    if val >= 0 {
        val as u128
    } else {
        ((val - i128::MIN) as u128) + 0x8000_0000_0000_0000_0000_0000_0000_0000u128
    }
}

/// The signed value of a 128-bit pattern.
fn signed_of(pattern: u128) -> (r: i128)
    ensures
        r as int == signed128(pattern as nat),
{
    if pattern < 0x8000_0000_0000_0000_0000_0000_0000_0000u128 {
        pattern as i128
    } else {
        ((pattern - 0x8000_0000_0000_0000_0000_0000_0000_0000u128) as i128) + i128::MIN
    }
}

/// Decodes the unsigned 32-bit field at `off`.
pub fn read_u32(data: &[u8], off: usize) -> (r: u32)
    requires
        off + 4 <= data@.len(),
    ensures
        r as nat == field(data@, off as int, 4),
{
    proof {
        lemma_pow256_widths();
    }
    read_le(data, off, 4) as u32
}

/// Decodes the unsigned 64-bit field at `off`.
pub fn read_u64(data: &[u8], off: usize) -> (r: u64)
    requires
        off + 8 <= data@.len(),
    ensures
        r as nat == field(data@, off as int, 8),
{
    proof {
        lemma_pow256_widths();
    }
    read_le(data, off, 8) as u64
}

/// Decodes the unsigned 128-bit field at `off`.
pub fn read_u128(data: &[u8], off: usize) -> (r: u128)
    requires
        off + 16 <= data@.len(),
    ensures
        r as nat == field(data@, off as int, 16),
{
    read_le(data, off, 16)
}

/// Decodes the signed 128-bit field at `off`.
pub fn read_i128(data: &[u8], off: usize) -> (r: i128)
    requires
        off + 16 <= data@.len(),
    ensures
        r as int == signed_field(data@, off as int),
{
    signed_of(read_le(data, off, 16))
}

/// Encodes `val` over the four bytes at `off`; every other byte is kept.
pub fn write_u32(data: &mut [u8], off: usize, val: u32)
    requires
        off + 4 <= old(data)@.len(),
    ensures
        final(data)@ == put_u32(old(data)@, off as int, val),
{
    write_le(data, off, 4, val as u128)
}

/// Encodes `val` over the eight bytes at `off`; every other byte is kept.
pub fn write_u64(data: &mut [u8], off: usize, val: u64)
    requires
        off + 8 <= old(data)@.len(),
    ensures
        final(data)@ == put_u64(old(data)@, off as int, val),
{
    write_le(data, off, 8, val as u128)
}

/// Encodes `val` over the sixteen bytes at `off`; every other byte is kept.
pub fn write_u128(data: &mut [u8], off: usize, val: u128)
    requires
        off + 16 <= old(data)@.len(),
    ensures
        final(data)@ == put_u128(old(data)@, off as int, val),
{
    write_le(data, off, 16, val)
}

/// Encodes `val` in two's complement over the sixteen bytes at `off`; every
/// other byte is kept.
pub fn write_i128(data: &mut [u8], off: usize, val: i128)
    requires
        off + 16 <= old(data)@.len(),
    ensures
        final(data)@ == put_i128(old(data)@, off as int, val),
{
    write_le(data, off, 16, pattern_of(val))
}

/// Copies the 32 bytes at `off` out of `data`.
pub fn read_key(data: &[u8], off: usize) -> (key: [u8; 32])
    requires
        off + 32 <= data@.len(),
    ensures
        key@ == data@.subrange(off as int, off + 32),
{
    proof {
        vstd::slice::axiom_spec_len(data);
    }
    let mut key = [0u8; 32];
    let mut i: usize = 0;
    while i < 32
        invariant
            i <= 32,
            off + 32 <= data@.len() <= usize::MAX,
            forall|j: int| 0 <= j < i ==> key@[j] == data@[off + j],
        decreases 32 - i,
    {
        key[i] = data[off + i];
        i += 1;
    }
    assert(key@ =~= data@.subrange(off as int, off + 32));
    key
}

/// Copies `key` over the 32 bytes at `off`; every other byte is kept.
pub fn write_key(data: &mut [u8], off: usize, key: &[u8; 32])
    requires
        off + 32 <= old(data)@.len(),
    ensures
        final(data)@ == overwrite(old(data)@, off as int, key@),
{
    let ghost before = data@;
    proof {
        vstd::slice::axiom_spec_len(data);
    }
    let mut i: usize = 0;
    while i < 32
        invariant
            i <= 32,
            before.len() == data@.len(),
            off + 32 <= data@.len() <= usize::MAX,
            data@ == overwrite(before, off as int, key@.subrange(0, i as int)),
        decreases 32 - i,
    {
        data[off + i] = key[i];
        i += 1;
        assert(data@ =~= overwrite(before, off as int, key@.subrange(0, i as int)));
    }
    assert(key@.subrange(0, 32) =~= key@);
}

} // verus!
