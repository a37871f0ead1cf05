//! Little-endian scalar fields of the save format.
//!
//! Every record of the chunk payload is a flat sequence of little-endian
//! scalars. The spec functions here read one scalar at a byte position of a
//! stream; the executable writers append one scalar and promise that reading
//! it back at the old end of the buffer yields the written value, and that
//! the bytes already in the buffer are untouched.

use vstd::prelude::*;
use vstd::bytes::*;
use vstd::slice::slice_subrange;

verus! {

// ---------------------------------------------------------------------------
// Spec readers at a byte position.
// ---------------------------------------------------------------------------

pub open spec fn dec_u8_at(s: Seq<u8>, pos: int) -> u8 {
    s[pos]
}

pub open spec fn dec_u16_at(s: Seq<u8>, pos: int) -> u16 {
    spec_u16_from_le_bytes(s.subrange(pos, pos + 2))
}

pub open spec fn dec_u32_at(s: Seq<u8>, pos: int) -> u32 {
    spec_u32_from_le_bytes(s.subrange(pos, pos + 4))
}

pub open spec fn dec_u64_at(s: Seq<u8>, pos: int) -> u64 {
    spec_u64_from_le_bytes(s.subrange(pos, pos + 8))
}

pub open spec fn dec_i8_at(s: Seq<u8>, pos: int) -> i8 {
    s[pos] as i8
}

pub open spec fn dec_i16_at(s: Seq<u8>, pos: int) -> i16 {
    dec_u16_at(s, pos) as i16
}

pub open spec fn dec_i32_at(s: Seq<u8>, pos: int) -> i32 {
    dec_u32_at(s, pos) as i32
}

// ---------------------------------------------------------------------------
// Spec writers: the exact bytes one scalar appends.
// ---------------------------------------------------------------------------

pub open spec fn enc_u8(v: u8) -> Seq<u8> {
    seq![v]
}

pub open spec fn enc_u16(v: u16) -> Seq<u8> {
    spec_u16_to_le_bytes(v)
}

pub open spec fn enc_u32(v: u32) -> Seq<u8> {
    spec_u32_to_le_bytes(v)
}

pub open spec fn enc_u64(v: u64) -> Seq<u8> {
    spec_u64_to_le_bytes(v)
}

pub open spec fn enc_i8(v: i8) -> Seq<u8> {
    seq![v as u8]
}

pub open spec fn enc_i16(v: i16) -> Seq<u8> {
    enc_u16(v as u16)
}

pub open spec fn enc_i32(v: i32) -> Seq<u8> {
    enc_u32(v as u32)
}

/// Each scalar encoding has its fixed width, and reading it back at the
/// position it was written to yields the written value.
pub proof fn lemma_enc_dec()
    ensures
        forall|v: u8| (#[trigger] enc_u8(v)).len() == 1,
        forall|v: u16| (#[trigger] enc_u16(v)).len() == 2,
        forall|v: u32| (#[trigger] enc_u32(v)).len() == 4,
        forall|v: u64| (#[trigger] enc_u64(v)).len() == 8,
        forall|v: i8| (#[trigger] enc_i8(v)).len() == 1,
        forall|v: i16| (#[trigger] enc_i16(v)).len() == 2,
        forall|v: i32| (#[trigger] enc_i32(v)).len() == 4,
        forall|v: u16| spec_u16_from_le_bytes(#[trigger] enc_u16(v)) == v,
        forall|v: u32| spec_u32_from_le_bytes(#[trigger] enc_u32(v)) == v,
        forall|v: u64| spec_u64_from_le_bytes(#[trigger] enc_u64(v)) == v,
{
    lemma_auto_spec_u16_to_from_le_bytes();
    lemma_auto_spec_u32_to_from_le_bytes();
    lemma_auto_spec_u64_to_from_le_bytes();
    assert forall|v: u16| spec_u16_from_le_bytes(#[trigger] enc_u16(v)) == v by {
        assert(spec_u16_to_le_bytes(v).len() == 2);
    }
    assert forall|v: u32| spec_u32_from_le_bytes(#[trigger] enc_u32(v)) == v by {
        assert(spec_u32_to_le_bytes(v).len() == 4);
    }
    assert forall|v: u64| spec_u64_from_le_bytes(#[trigger] enc_u64(v)) == v by {
        assert(spec_u64_to_le_bytes(v).len() == 8);
    }
}

// ---------------------------------------------------------------------------
// Prefix ordering of byte streams.
// ---------------------------------------------------------------------------

/// `a` is an initial segment of `b`.
pub open spec fn prefix_of(a: Seq<u8>, b: Seq<u8>) -> bool {
    a.len() <= b.len() && b.subrange(0, a.len() as int) == a
}

pub proof fn lemma_prefix_refl(a: Seq<u8>)
    ensures
        prefix_of(a, a),
{
    assert(a.subrange(0, a.len() as int) =~= a);
}

pub proof fn lemma_prefix_trans(a: Seq<u8>, b: Seq<u8>, c: Seq<u8>)
    requires
        prefix_of(a, b),
        prefix_of(b, c),
    ensures
        prefix_of(a, c),
{
    assert(c.subrange(0, a.len() as int) =~= a) by {
        assert forall|i: int| 0 <= i < a.len() implies c.subrange(0, a.len() as int)[i] == a[i] by {
            assert(b.subrange(0, a.len() as int)[i] == a[i]);
            assert(c.subrange(0, b.len() as int)[i] == b[i]);
        }
    }
}

/// A subrange that lies inside a common prefix is the same in both streams.
pub proof fn lemma_subrange_in_prefix(a: Seq<u8>, b: Seq<u8>, lo: int, hi: int)
    requires
        prefix_of(a, b),
        0 <= lo <= hi <= a.len(),
    ensures
        b.subrange(lo, hi) == a.subrange(lo, hi),
{
    assert(b.subrange(lo, hi) =~= a.subrange(lo, hi)) by {
        assert forall|i: int| 0 <= i < hi - lo implies b.subrange(lo, hi)[i] == a.subrange(
            lo,
            hi,
        )[i] by {
            assert(b.subrange(0, a.len() as int)[lo + i] == a[lo + i]);
        }
    }
}

/// Two streams that agree on a range agree on every subrange of it.
pub proof fn lemma_subrange_within(a: Seq<u8>, b: Seq<u8>, lo: int, hi: int, x: int, y: int)
    requires
        0 <= lo <= x <= y <= hi <= a.len(),
        hi <= b.len(),
        b.subrange(lo, hi) == a.subrange(lo, hi),
    ensures
        b.subrange(x, y) == a.subrange(x, y),
{
    assert(b.subrange(x, y) =~= a.subrange(x, y)) by {
        assert forall|i: int| 0 <= i < y - x implies b.subrange(x, y)[i] == a.subrange(x, y)[i] by {
            assert(b.subrange(lo, hi)[x - lo + i] == b[x + i]);
            assert(a.subrange(lo, hi)[x - lo + i] == a[x + i]);
            assert(b.subrange(lo, hi)[x - lo + i] == a.subrange(lo, hi)[x - lo + i]);
        }
    }
}

// ---------------------------------------------------------------------------
// Executable writers: append one scalar.
// ---------------------------------------------------------------------------

pub fn put_u8(buf: &mut Vec<u8>, v: u8)
    ensures
        final(buf)@.len() == old(buf)@.len() + 1,
        prefix_of(old(buf)@, final(buf)@),
        dec_u8_at(final(buf)@, old(buf)@.len() as int) == v,
        final(buf)@ == old(buf)@ + enc_u8(v),
{
    let ghost pre = buf@;
    buf.push(v);
    proof {
        assert(buf@.subrange(0, pre.len() as int) =~= pre);
        assert(buf@ =~= pre + enc_u8(v));
    }
}

pub fn put_u16(buf: &mut Vec<u8>, v: u16)
    ensures
        final(buf)@.len() == old(buf)@.len() + 2,
        prefix_of(old(buf)@, final(buf)@),
        dec_u16_at(final(buf)@, old(buf)@.len() as int) == v,
        final(buf)@ == old(buf)@ + enc_u16(v),
{
    let ghost pre = buf@;
    let mut b = u16_to_le_bytes(v);
    buf.append(&mut b);
    proof {
        lemma_auto_spec_u16_to_from_le_bytes();
        assert(buf@.subrange(0, pre.len() as int) =~= pre);
        assert(buf@.subrange(pre.len() as int, pre.len() as int + 2) =~= spec_u16_to_le_bytes(v));
    }
}

pub fn put_u32(buf: &mut Vec<u8>, v: u32)
    ensures
        final(buf)@.len() == old(buf)@.len() + 4,
        prefix_of(old(buf)@, final(buf)@),
        dec_u32_at(final(buf)@, old(buf)@.len() as int) == v,
        final(buf)@ == old(buf)@ + enc_u32(v),
{
    let ghost pre = buf@;
    let mut b = u32_to_le_bytes(v);
    buf.append(&mut b);
    proof {
        lemma_auto_spec_u32_to_from_le_bytes();
        assert(buf@.subrange(0, pre.len() as int) =~= pre);
        assert(buf@.subrange(pre.len() as int, pre.len() as int + 4) =~= spec_u32_to_le_bytes(v));
    }
}

pub fn put_u64(buf: &mut Vec<u8>, v: u64)
    ensures
        final(buf)@.len() == old(buf)@.len() + 8,
        prefix_of(old(buf)@, final(buf)@),
        dec_u64_at(final(buf)@, old(buf)@.len() as int) == v,
        final(buf)@ == old(buf)@ + enc_u64(v),
{
    let ghost pre = buf@;
    let mut b = u64_to_le_bytes(v);
    buf.append(&mut b);
    proof {
        lemma_auto_spec_u64_to_from_le_bytes();
        assert(buf@.subrange(0, pre.len() as int) =~= pre);
        assert(buf@.subrange(pre.len() as int, pre.len() as int + 8) =~= spec_u64_to_le_bytes(v));
    }
}

pub fn put_i8(buf: &mut Vec<u8>, v: i8)
    ensures
        final(buf)@.len() == old(buf)@.len() + 1,
        prefix_of(old(buf)@, final(buf)@),
        dec_i8_at(final(buf)@, old(buf)@.len() as int) == v,
        final(buf)@ == old(buf)@ + enc_i8(v),
{
    put_u8(buf, v as u8);
    proof {
        lemma_cast_i8(v);
    }
}

pub fn put_i16(buf: &mut Vec<u8>, v: i16)
    ensures
        final(buf)@.len() == old(buf)@.len() + 2,
        prefix_of(old(buf)@, final(buf)@),
        dec_i16_at(final(buf)@, old(buf)@.len() as int) == v,
        final(buf)@ == old(buf)@ + enc_i16(v),
{
    put_u16(buf, v as u16);
    proof {
        lemma_cast_i16(v);
    }
}

pub fn put_i32(buf: &mut Vec<u8>, v: i32)
    ensures
        final(buf)@.len() == old(buf)@.len() + 4,
        prefix_of(old(buf)@, final(buf)@),
        dec_i32_at(final(buf)@, old(buf)@.len() as int) == v,
        final(buf)@ == old(buf)@ + enc_i32(v),
{
    put_u32(buf, v as u32);
    proof {
        lemma_cast_i32(v);
    }
}

pub proof fn lemma_cast_i8(v: i8)
    ensures
        (v as u8) as i8 == v,
{
    assert((v as u8) as i8 == v) by (bit_vector);
}

pub proof fn lemma_cast_i16(v: i16)
    ensures
        (v as u16) as i16 == v,
{
    assert((v as u16) as i16 == v) by (bit_vector);
}

pub proof fn lemma_cast_i32(v: i32)
    ensures
        (v as u32) as i32 == v,
{
    assert((v as u32) as i32 == v) by (bit_vector);
}

// ---------------------------------------------------------------------------
// Executable readers at a byte position.
// ---------------------------------------------------------------------------

pub fn get_u8(data: &Vec<u8>, pos: usize) -> (r: u8)
    requires
        pos + 1 <= data@.len(),
    ensures
        r == dec_u8_at(data@, pos as int),
{
    data[pos]
}

pub fn get_u16(data: &Vec<u8>, pos: usize) -> (r: u16)
    requires
        pos + 2 <= data@.len(),
    ensures
        r == dec_u16_at(data@, pos as int),
{
    let len = data.len();
    assert(pos + 2 <= len);
    let s = slice_subrange(data.as_slice(), pos, pos + 2);
    u16_from_le_bytes(s)
}

pub fn get_u32(data: &Vec<u8>, pos: usize) -> (r: u32)
    requires
        pos + 4 <= data@.len(),
    ensures
        r == dec_u32_at(data@, pos as int),
{
    let len = data.len();
    assert(pos + 4 <= len);
    let s = slice_subrange(data.as_slice(), pos, pos + 4);
    u32_from_le_bytes(s)
}

pub fn get_u64(data: &Vec<u8>, pos: usize) -> (r: u64)
    requires
        pos + 8 <= data@.len(),
    ensures
        r == dec_u64_at(data@, pos as int),
{
    let len = data.len();
    assert(pos + 8 <= len);
    let s = slice_subrange(data.as_slice(), pos, pos + 8);
    u64_from_le_bytes(s)
}

pub fn get_i8(data: &Vec<u8>, pos: usize) -> (r: i8)
    requires
        pos + 1 <= data@.len(),
    ensures
        r == dec_i8_at(data@, pos as int),
{
    get_u8(data, pos) as i8
}

pub fn get_i16(data: &Vec<u8>, pos: usize) -> (r: i16)
    requires
        pos + 2 <= data@.len(),
    ensures
        r == dec_i16_at(data@, pos as int),
{
    get_u16(data, pos) as i16
}

pub fn get_i32(data: &Vec<u8>, pos: usize) -> (r: i32)
    requires
        pos + 4 <= data@.len(),
    ensures
        r == dec_i32_at(data@, pos as int),
{
    get_u32(data, pos) as i32
}

} // verus!
