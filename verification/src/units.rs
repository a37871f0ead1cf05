//! Simulation units: the fixed host array of units, the per-unit record
//! with its tagged overlay fields, and the unit chunk's save and load paths.

use vstd::prelude::*;

use crate::arena::RawVec;
use crate::bytes::{
    dec_i16_at,
    dec_i32_at,
    dec_i8_at,
    dec_u16_at,
    dec_u32_at,
    dec_u64_at,
    dec_u8_at,
    get_i16,
    get_i32,
    get_i8,
    get_u16,
    get_u32,
    get_u64,
    get_u8,
    enc_i16,
    enc_i32,
    enc_i8,
    enc_u16,
    enc_u32,
    enc_u64,
    enc_u8,
    lemma_enc_dec,
    lemma_prefix_refl,
    lemma_prefix_trans,
    lemma_subrange_in_prefix,
    lemma_subrange_within,
    prefix_of,
    put_i16,
    put_i32,
    put_i8,
    put_u16,
    put_u32,
    put_u64,
    put_u8,
};
use crate::chunk::{deflate_of, open_chunk, seal_chunk, spec_open_chunk};
use crate::entity::{
    dec_entity_ser_at,
    dec_point_at,
    dec_point32_at,
    deserialize_entity,
    enc_entity_ser,
    enc_point,
    enc_point32,
    entity_serializable,
    entity_unit_refs_ok,
    get_entity_ser,
    get_point,
    get_point32,
    lemma_dec_entity_ser_stable,
    lemma_dec_point32_stable,
    lemma_dec_point_stable,
    put_entity_ser,
    put_point,
    put_point32,
    spec_entity_fields,
    spec_entity_ser_fields,
    Entity,
    EntitySerializable,
    LoadEntityPointer,
    Point,
    Point32,
    SaveEntityPointer,
    ENTITY_SER_WIRE,
    POINT32_WIRE,
    POINT_WIRE,
};
use crate::errors::{LoadError, SaveError};
use crate::linked::{lemma_walk_links, spec_walk, ListNode};
use crate::mapping::{
    maps_inverse,
    spec_id_seq,
    spec_pointer_seq,
    LoadMapping,
    SaveMapping,
};


verus! {

/// Number of slots in the host's unit array. Unit ids 1..=1700 index it.
pub const UNIT_LIMIT: usize = 1700;

/// Number of entries in the host's order table.
pub const ORDER_LIMIT: usize = 2000;

/// Number of entries in each of the host's unit-ai tables.
pub const AI_LIMIT: usize = 1000;

/// Unit references are absolute: slot k of the unit array has id k+1 in
/// every save, independent of any directory.
pub open spec fn spec_unit_to_id(r: Option<usize>) -> u16 {
    match r {
        None => 0u16,
        Some(i) => if i < UNIT_LIMIT {
            (i + 1) as u16
        } else {
            0u16
        },
    }
}

pub open spec fn spec_unit_from_id(v: u16) -> Result<Option<usize>, LoadError> {
    if v == 0 {
        Ok(None)
    } else if v <= UNIT_LIMIT as u16 {
        Ok(Some((v - 1) as usize))
    } else {
        Err(LoadError::Corrupted(v as u32))
    }
}

/// The dense id of a unit reference: 0 for null, the array slot + 1
/// otherwise. A reference outside the array would be a corrupted host
/// image, so it is excluded up front.
pub fn unit_to_id(val: Option<usize>) -> (r: u16)
    requires
        val is Some ==> val->Some_0 < UNIT_LIMIT,
    ensures
        r == spec_unit_to_id(val),
{
    match val {
        None => 0,
        Some(i) => (i + 1) as u16,
    }
}

/// The unit array slot an id stands for; an id past the array is reported
/// as corruption with the offending id.
pub fn unit_from_id(val: u16) -> (r: Result<Option<usize>, LoadError>)
    ensures
        r == spec_unit_from_id(val),
{
    if val == 0 {
        Ok(None)
    } else if val as usize <= UNIT_LIMIT {
        Ok(Some((val - 1) as usize))
    } else {
        Err(LoadError::Corrupted(val as u32))
    }
}

pub open spec fn spec_order_to_id(r: Option<usize>) -> u16 {
    match r {
        None => 0u16,
        Some(i) => if i < ORDER_LIMIT {
            (i + 1) as u16
        } else {
            0u16
        },
    }
}

pub open spec fn spec_order_from_id(v: u16) -> Result<Option<usize>, LoadError> {
    if v == 0 {
        Ok(None)
    } else if v <= ORDER_LIMIT as u16 {
        Ok(Some((v - 1) as usize))
    } else {
        Err(LoadError::Corrupted(v as u32))
    }
}

/// The dense id of a reference into the host's order table.
pub fn order_to_id(val: Option<usize>) -> (r: u16)
    requires
        val is Some ==> val->Some_0 < ORDER_LIMIT,
    ensures
        r == spec_order_to_id(val),
{
    match val {
        None => 0,
        Some(i) => (i + 1) as u16,
    }
}

/// The order-table entry an id stands for, validated against the table's
/// fixed length.
pub fn order_from_id(val: u16) -> (r: Result<Option<usize>, LoadError>)
    ensures
        r == spec_order_from_id(val),
{
    if val == 0 {
        Ok(None)
    } else if val as usize <= ORDER_LIMIT {
        Ok(Some((val - 1) as usize))
    } else {
        Err(LoadError::Corrupted(val as u32))
    }
}

pub open spec fn spec_path_to_id(r: Option<usize>) -> u16 {
    match r {
        None => 0u16,
        Some(i) => if i < 0xffff {
            (i + 1) as u16
        } else {
            0u16
        },
    }
}

pub open spec fn spec_path_from_id(v: u16) -> Result<Option<usize>, LoadError> {
    if v == 0 {
        Ok(None)
    } else {
        Ok(Some((v - 1) as usize))
    }
}

/// The dense id of a reference into the host's path array. The array's
/// length is not known to this subsystem, so only the id width bounds it.
pub fn path_to_id(val: Option<usize>) -> (r: u16)
    requires
        val is Some ==> val->Some_0 < 0xffff,
    ensures
        r == spec_path_to_id(val),
{
    match val {
        None => 0,
        Some(i) => (i + 1) as u16,
    }
}

/// The path-array entry an id stands for. The array's length is not known
/// to this subsystem, so every id is accepted here, as the host does.
pub fn path_from_id(val: u16) -> (r: Result<Option<usize>, LoadError>)
    ensures
        r == spec_path_from_id(val),
{
    if val == 0 {
        Ok(None)
    } else {
        Ok(Some((val - 1) as usize))
    }
}

/// Unit, order and path ids survive a round trip unchanged: resolving the
/// id written for an in-range reference yields that reference back.
pub proof fn lemma_table_ids_round_trip(r: Option<usize>)
    ensures
        (r is Some ==> r->Some_0 < UNIT_LIMIT) ==> spec_unit_from_id(spec_unit_to_id(r)) == Ok::<
            _,
            LoadError,
        >(r),
        (r is Some ==> r->Some_0 < ORDER_LIMIT) ==> spec_order_from_id(spec_order_to_id(r))
            == Ok::<_, LoadError>(r),
        (r is Some ==> r->Some_0 < 0xffff) ==> spec_path_from_id(spec_path_to_id(r)) == Ok::<
            _,
            LoadError,
        >(r),
{
}


/// Unit ids that select a distinct overlay layout.
pub const GHOST_ID: u16 = 0x01;
pub const CARRIER_ID: u16 = 0x48;
pub const INTERCEPTOR_ID: u16 = 0x49;
pub const WARBRINGER_ID: u16 = 0x51;
pub const GANTRITHOR_ID: u16 = 0x52;
pub const REAVER_ID: u16 = 0x53;
pub const SCARAB_ID: u16 = 0x55;
pub const NUCLEAR_SILO_ID: u16 = 0x6c;
pub const PYLON_ID: u16 = 0x9c;
pub const MINERAL_FIELD1_ID: u16 = 0xb0;
pub const MINERAL_FIELD2_ID: u16 = 0xb1;
pub const MINERAL_FIELD3_ID: u16 = 0xb2;
pub const VESPENE_GEYSER_ID: u16 = 0xbc;

/// The per-unit-kind capability flags this subsystem reads from the host's
/// static unit configuration. A unit id past the table has no capabilities.
pub open spec fn spec_flags_of(flags: Seq<u32>, unit_id: u16) -> u32 {
    if unit_id < flags.len() {
        flags[unit_id as int]
    } else {
        0u32
    }
}

pub open spec fn spec_has_hangar(unit_id: u16) -> bool {
    unit_id == CARRIER_ID || unit_id == GANTRITHOR_ID || unit_id == REAVER_ID || unit_id
        == WARBRINGER_ID
}

pub open spec fn spec_is_resource(unit_id: u16) -> bool {
    unit_id == MINERAL_FIELD1_ID || unit_id == MINERAL_FIELD2_ID || unit_id == MINERAL_FIELD3_ID
        || unit_id == VESPENE_GEYSER_ID
}

pub open spec fn spec_is_worker(flags: Seq<u32>, unit_id: u16) -> bool {
    spec_flags_of(flags, unit_id) & 0x8 != 0
}

pub open spec fn spec_is_powerup(flags: Seq<u32>, unit_id: u16) -> bool {
    spec_flags_of(flags, unit_id) & 0x800 != 0
}

/// Whether this unit kind keeps a hangar (carriers and reavers, and their
/// hero variants).
pub fn has_hangar(unit_id: u16) -> (r: bool)
    ensures
        r == spec_has_hangar(unit_id),
{
    unit_id == CARRIER_ID || unit_id == GANTRITHOR_ID || unit_id == REAVER_ID || unit_id
        == WARBRINGER_ID
}

/// Whether this unit kind is a harvestable resource.
pub fn is_resource(unit_id: u16) -> (r: bool)
    ensures
        r == spec_is_resource(unit_id),
{
    unit_id == MINERAL_FIELD1_ID || unit_id == MINERAL_FIELD2_ID || unit_id == MINERAL_FIELD3_ID
        || unit_id == VESPENE_GEYSER_ID
}

/// Whether the host configuration marks this unit kind as a worker.
pub fn is_worker(unit_id: u16, flags: &Vec<u32>) -> (r: bool)
    ensures
        r == spec_is_worker(flags@, unit_id),
{
    let f: u32 = if (unit_id as usize) < flags.len() {
        flags[unit_id as usize]
    } else {
        0
    };
    f & 0x8 != 0
}

/// Whether the host configuration marks this unit kind as a powerup.
pub fn is_powerup(unit_id: u16, flags: &Vec<u32>) -> (r: bool)
    ensures
        r == spec_is_powerup(flags@, unit_id),
{
    let f: u32 = if (unit_id as usize) < flags.len() {
        flags[unit_id as usize]
    } else {
        0
    };
    f & 0x800 != 0
}

/// A reference into one of the host's four fixed unit-ai tables, tagged by
/// the table it lives in; the index is validated against the table length
/// on load.
#[derive(Debug, Clone, Copy, PartialEq, Eq, Structural)]
pub enum UnitAiRef {
    NoAi,
    Guard(usize),
    Worker(usize),
    Building(usize),
    Military(usize),
}

pub open spec fn spec_ai_ok(ai: UnitAiRef) -> bool {
    match ai {
        UnitAiRef::NoAi => true,
        UnitAiRef::Guard(i) => i < AI_LIMIT,
        UnitAiRef::Worker(i) => i < AI_LIMIT,
        UnitAiRef::Building(i) => i < AI_LIMIT,
        UnitAiRef::Military(i) => i < AI_LIMIT,
    }
}

pub open spec fn spec_ai_to_ser(ai: UnitAiRef) -> UnitAiSer {
    match ai {
        UnitAiRef::NoAi => UnitAiSer { ty: 0u8, idx: 0u16 },
        UnitAiRef::Guard(i) => UnitAiSer { ty: 1u8, idx: i as u16 },
        UnitAiRef::Worker(i) => UnitAiSer { ty: 2u8, idx: i as u16 },
        UnitAiRef::Building(i) => UnitAiSer { ty: 3u8, idx: i as u16 },
        UnitAiRef::Military(i) => UnitAiSer { ty: 4u8, idx: i as u16 },
    }
}

pub open spec fn spec_ai_from_ser(s: UnitAiSer) -> Result<UnitAiRef, LoadError> {
    if s.ty == 0 {
        Ok(UnitAiRef::NoAi)
    } else if s.ty > 4 {
        Err(LoadError::Corrupted(s.ty as u32))
    } else if s.idx >= AI_LIMIT as u16 {
        Err(LoadError::Corrupted(s.idx as u32))
    } else if s.ty == 1 {
        Ok(UnitAiRef::Guard(s.idx as usize))
    } else if s.ty == 2 {
        Ok(UnitAiRef::Worker(s.idx as usize))
    } else if s.ty == 3 {
        Ok(UnitAiRef::Building(s.idx as usize))
    } else {
        Ok(UnitAiRef::Military(s.idx as usize))
    }
}

/// Serializes a unit-ai reference as its (table, index) pair.
pub fn ai_to_ser(ai: &UnitAiRef) -> (r: UnitAiSer)
    requires
        spec_ai_ok(*ai),
    ensures
        r == spec_ai_to_ser(*ai),
{
    match ai {
        UnitAiRef::NoAi => UnitAiSer { ty: 0, idx: 0 },
        UnitAiRef::Guard(i) => UnitAiSer { ty: 1, idx: *i as u16 },
        UnitAiRef::Worker(i) => UnitAiSer { ty: 2, idx: *i as u16 },
        UnitAiRef::Building(i) => UnitAiSer { ty: 3, idx: *i as u16 },
        UnitAiRef::Military(i) => UnitAiSer { ty: 4, idx: *i as u16 },
    }
}

/// Resolves a (table, index) pair back into a unit-ai reference,
/// validating the index against the table's fixed length.
pub fn ai_from_ser(s: &UnitAiSer) -> (r: Result<UnitAiRef, LoadError>)
    ensures
        r == spec_ai_from_ser(*s),
{
    if s.ty == 0 {
        Ok(UnitAiRef::NoAi)
    } else if s.ty > 4 {
        Err(LoadError::Corrupted(s.ty as u32))
    } else if s.idx >= AI_LIMIT as u16 {
        Err(LoadError::Corrupted(s.idx as u32))
    } else if s.ty == 1 {
        Ok(UnitAiRef::Guard(s.idx as usize))
    } else if s.ty == 2 {
        Ok(UnitAiRef::Worker(s.idx as usize))
    } else if s.ty == 3 {
        Ok(UnitAiRef::Building(s.idx as usize))
    } else {
        Ok(UnitAiRef::Military(s.idx as usize))
    }
}

/// Ai ids round-trip: a valid reference written and read back is itself.
pub proof fn lemma_ai_round_trip(ai: UnitAiRef)
    requires
        spec_ai_ok(ai),
    ensures
        spec_ai_from_ser(spec_ai_to_ser(ai)) == Ok::<UnitAiRef, LoadError>(ai),
{
}

#[derive(Debug, Clone, Copy, PartialEq, Eq, Structural)]
pub struct Repulse {
    pub repulse_misc: u8,
    pub repulse_direction: u8,
    pub repulse_chunk_x: u8,
    pub repulse_chunk_y: u8,
}

pub const REPULSE_WIRE: usize = 4;

pub open spec fn dec_repulse_at(s: Seq<u8>, pos: int) -> Repulse {
    Repulse {
        repulse_misc: dec_u8_at(s, pos),
        repulse_direction: dec_u8_at(s, pos + 1),
        repulse_chunk_x: dec_u8_at(s, pos + 2),
        repulse_chunk_y: dec_u8_at(s, pos + 3),
    }
}

pub proof fn lemma_dec_repulse_stable(a: Seq<u8>, b: Seq<u8>, pos: int)
    requires
        0 <= pos,
        pos + REPULSE_WIRE <= a.len(),
        pos + REPULSE_WIRE <= b.len(),
        b.subrange(pos, pos + REPULSE_WIRE) == a.subrange(pos, pos + REPULSE_WIRE),
    ensures
        dec_repulse_at(b, pos) == dec_repulse_at(a, pos),
{
    assert(b[pos + 0] == a[pos + 0]) by {
        assert(b.subrange(pos, pos + REPULSE_WIRE)[0] == b[pos + 0]);
        assert(a.subrange(pos, pos + REPULSE_WIRE)[0] == a[pos + 0]);
    }
    assert(b[pos + 1] == a[pos + 1]) by {
        assert(b.subrange(pos, pos + REPULSE_WIRE)[1] == b[pos + 1]);
        assert(a.subrange(pos, pos + REPULSE_WIRE)[1] == a[pos + 1]);
    }
    assert(b[pos + 2] == a[pos + 2]) by {
        assert(b.subrange(pos, pos + REPULSE_WIRE)[2] == b[pos + 2]);
        assert(a.subrange(pos, pos + REPULSE_WIRE)[2] == a[pos + 2]);
    }
    assert(b[pos + 3] == a[pos + 3]) by {
        assert(b.subrange(pos, pos + REPULSE_WIRE)[3] == b[pos + 3]);
        assert(a.subrange(pos, pos + REPULSE_WIRE)[3] == a[pos + 3]);
    }
}

pub open spec fn enc_repulse(v: Repulse) -> Seq<u8> {
    enc_u8(v.repulse_misc) + enc_u8(v.repulse_direction) + enc_u8(v.repulse_chunk_x) + enc_u8(v.repulse_chunk_y)
}

pub fn put_repulse(buf: &mut Vec<u8>, v: &Repulse)
    ensures
        final(buf)@.len() == old(buf)@.len() + REPULSE_WIRE,
        prefix_of(old(buf)@, final(buf)@),
        dec_repulse_at(final(buf)@, old(buf)@.len() as int) == *v,
        final(buf)@ == old(buf)@ + enc_repulse(*v),
{
    let ghost p = buf@.len() as int;
    let ghost s0 = buf@;
    put_u8(buf, v.repulse_misc);
    let ghost s1 = buf@;
    put_u8(buf, v.repulse_direction);
    let ghost s2 = buf@;
    put_u8(buf, v.repulse_chunk_x);
    let ghost s3 = buf@;
    put_u8(buf, v.repulse_chunk_y);
    let ghost s4 = buf@;
    proof {
        lemma_prefix_refl(buf@);
        lemma_prefix_trans(s3, s4, buf@);
        lemma_prefix_trans(s2, s3, buf@);
        lemma_prefix_trans(s1, s2, buf@);
        lemma_prefix_trans(s0, s1, buf@);
        assert(buf@[p] == s1[p]) by {
            assert(buf@.subrange(0, s1.len() as int)[p] == buf@[p]);
            assert(buf@.subrange(0, s1.len() as int)[p] == s1[p]);
        }
        assert(buf@[p + 1] == s2[p + 1]) by {
            assert(buf@.subrange(0, s2.len() as int)[p + 1] == buf@[p + 1]);
            assert(buf@.subrange(0, s2.len() as int)[p + 1] == s2[p + 1]);
        }
        assert(buf@[p + 2] == s3[p + 2]) by {
            assert(buf@.subrange(0, s3.len() as int)[p + 2] == buf@[p + 2]);
            assert(buf@.subrange(0, s3.len() as int)[p + 2] == s3[p + 2]);
        }
        assert(buf@[p + 3] == s4[p + 3]) by {
            assert(buf@.subrange(0, s4.len() as int)[p + 3] == buf@[p + 3]);
            assert(buf@.subrange(0, s4.len() as int)[p + 3] == s4[p + 3]);
        }
        assert(prefix_of(s0, buf@));
        assert(dec_repulse_at(buf@, p) == *v);
        lemma_enc_dec();
        assert(buf@ =~= s0 + enc_repulse(*v));
    }
}

pub fn get_repulse(data: &Vec<u8>, pos: usize) -> (r: Repulse)
    requires
        pos + REPULSE_WIRE <= data@.len(),
    ensures
        r == dec_repulse_at(data@, pos as int),
{
    let _n = data.len();
    Repulse {
        repulse_misc: get_u8(data, pos),
        repulse_direction: get_u8(data, pos + 1),
        repulse_chunk_x: get_u8(data, pos + 2),
        repulse_chunk_y: get_u8(data, pos + 3),
    }
}

#[derive(Debug, Clone, Copy, PartialEq, Eq, Structural)]
pub struct BuildQueue {
    pub slot0: u16,
    pub slot1: u16,
    pub slot2: u16,
    pub slot3: u16,
    pub slot4: u16,
}

pub const BUILD_QUEUE_WIRE: usize = 10;

pub open spec fn dec_build_queue_at(s: Seq<u8>, pos: int) -> BuildQueue {
    BuildQueue {
        slot0: dec_u16_at(s, pos),
        slot1: dec_u16_at(s, pos + 2),
        slot2: dec_u16_at(s, pos + 4),
        slot3: dec_u16_at(s, pos + 6),
        slot4: dec_u16_at(s, pos + 8),
    }
}

pub proof fn lemma_dec_build_queue_stable(a: Seq<u8>, b: Seq<u8>, pos: int)
    requires
        0 <= pos,
        pos + BUILD_QUEUE_WIRE <= a.len(),
        pos + BUILD_QUEUE_WIRE <= b.len(),
        b.subrange(pos, pos + BUILD_QUEUE_WIRE) == a.subrange(pos, pos + BUILD_QUEUE_WIRE),
    ensures
        dec_build_queue_at(b, pos) == dec_build_queue_at(a, pos),
{
    lemma_subrange_within(a, b, pos, pos + BUILD_QUEUE_WIRE, pos + 0, pos + 0 + 2);
    lemma_subrange_within(a, b, pos, pos + BUILD_QUEUE_WIRE, pos + 2, pos + 2 + 2);
    lemma_subrange_within(a, b, pos, pos + BUILD_QUEUE_WIRE, pos + 4, pos + 4 + 2);
    lemma_subrange_within(a, b, pos, pos + BUILD_QUEUE_WIRE, pos + 6, pos + 6 + 2);
    lemma_subrange_within(a, b, pos, pos + BUILD_QUEUE_WIRE, pos + 8, pos + 8 + 2);
}

pub open spec fn enc_build_queue(v: BuildQueue) -> Seq<u8> {
    enc_u16(v.slot0) + enc_u16(v.slot1) + enc_u16(v.slot2) + enc_u16(v.slot3) + enc_u16(v.slot4)
}

pub fn put_build_queue(buf: &mut Vec<u8>, v: &BuildQueue)
    ensures
        final(buf)@.len() == old(buf)@.len() + BUILD_QUEUE_WIRE,
        prefix_of(old(buf)@, final(buf)@),
        dec_build_queue_at(final(buf)@, old(buf)@.len() as int) == *v,
        final(buf)@ == old(buf)@ + enc_build_queue(*v),
{
    let ghost p = buf@.len() as int;
    let ghost s0 = buf@;
    put_u16(buf, v.slot0);
    let ghost s1 = buf@;
    put_u16(buf, v.slot1);
    let ghost s2 = buf@;
    put_u16(buf, v.slot2);
    let ghost s3 = buf@;
    put_u16(buf, v.slot3);
    let ghost s4 = buf@;
    put_u16(buf, v.slot4);
    let ghost s5 = buf@;
    proof {
        lemma_prefix_refl(buf@);
        lemma_prefix_trans(s4, s5, buf@);
        lemma_prefix_trans(s3, s4, buf@);
        lemma_prefix_trans(s2, s3, buf@);
        lemma_prefix_trans(s1, s2, buf@);
        lemma_prefix_trans(s0, s1, buf@);
        lemma_subrange_in_prefix(s1, buf@, p, p + 2);
        lemma_subrange_in_prefix(s2, buf@, p + 2, p + 2 + 2);
        lemma_subrange_in_prefix(s3, buf@, p + 4, p + 4 + 2);
        lemma_subrange_in_prefix(s4, buf@, p + 6, p + 6 + 2);
        lemma_subrange_in_prefix(s5, buf@, p + 8, p + 8 + 2);
        assert(prefix_of(s0, buf@));
        assert(dec_build_queue_at(buf@, p) == *v);
        lemma_enc_dec();
        assert(buf@ =~= s0 + enc_build_queue(*v));
    }
}

pub fn get_build_queue(data: &Vec<u8>, pos: usize) -> (r: BuildQueue)
    requires
        pos + BUILD_QUEUE_WIRE <= data@.len(),
    ensures
        r == dec_build_queue_at(data@, pos as int),
{
    let _n = data.len();
    BuildQueue {
        slot0: get_u16(data, pos),
        slot1: get_u16(data, pos + 2),
        slot2: get_u16(data, pos + 4),
        slot3: get_u16(data, pos + 6),
        slot4: get_u16(data, pos + 8),
    }
}

#[derive(Debug, Clone, Copy, PartialEq, Eq, Structural)]
pub struct LoadedUnits {
    pub unit0: u16,
    pub unit1: u16,
    pub unit2: u16,
    pub unit3: u16,
    pub unit4: u16,
    pub unit5: u16,
    pub unit6: u16,
    pub unit7: u16,
}

pub const LOADED_UNITS_WIRE: usize = 16;

pub open spec fn dec_loaded_units_at(s: Seq<u8>, pos: int) -> LoadedUnits {
    LoadedUnits {
        unit0: dec_u16_at(s, pos),
        unit1: dec_u16_at(s, pos + 2),
        unit2: dec_u16_at(s, pos + 4),
        unit3: dec_u16_at(s, pos + 6),
        unit4: dec_u16_at(s, pos + 8),
        unit5: dec_u16_at(s, pos + 10),
        unit6: dec_u16_at(s, pos + 12),
        unit7: dec_u16_at(s, pos + 14),
    }
}

pub proof fn lemma_dec_loaded_units_stable(a: Seq<u8>, b: Seq<u8>, pos: int)
    requires
        0 <= pos,
        pos + LOADED_UNITS_WIRE <= a.len(),
        pos + LOADED_UNITS_WIRE <= b.len(),
        b.subrange(pos, pos + LOADED_UNITS_WIRE) == a.subrange(pos, pos + LOADED_UNITS_WIRE),
    ensures
        dec_loaded_units_at(b, pos) == dec_loaded_units_at(a, pos),
{
    lemma_subrange_within(a, b, pos, pos + LOADED_UNITS_WIRE, pos + 0, pos + 0 + 2);
    lemma_subrange_within(a, b, pos, pos + LOADED_UNITS_WIRE, pos + 2, pos + 2 + 2);
    lemma_subrange_within(a, b, pos, pos + LOADED_UNITS_WIRE, pos + 4, pos + 4 + 2);
    lemma_subrange_within(a, b, pos, pos + LOADED_UNITS_WIRE, pos + 6, pos + 6 + 2);
    lemma_subrange_within(a, b, pos, pos + LOADED_UNITS_WIRE, pos + 8, pos + 8 + 2);
    lemma_subrange_within(a, b, pos, pos + LOADED_UNITS_WIRE, pos + 10, pos + 10 + 2);
    lemma_subrange_within(a, b, pos, pos + LOADED_UNITS_WIRE, pos + 12, pos + 12 + 2);
    lemma_subrange_within(a, b, pos, pos + LOADED_UNITS_WIRE, pos + 14, pos + 14 + 2);
}

pub open spec fn enc_loaded_units(v: LoadedUnits) -> Seq<u8> {
    enc_u16(v.unit0) + enc_u16(v.unit1) + enc_u16(v.unit2) + enc_u16(v.unit3) + enc_u16(v.unit4) + enc_u16(v.unit5) + enc_u16(v.unit6) + enc_u16(v.unit7)
}

pub fn put_loaded_units(buf: &mut Vec<u8>, v: &LoadedUnits)
    ensures
        final(buf)@.len() == old(buf)@.len() + LOADED_UNITS_WIRE,
        prefix_of(old(buf)@, final(buf)@),
        dec_loaded_units_at(final(buf)@, old(buf)@.len() as int) == *v,
        final(buf)@ == old(buf)@ + enc_loaded_units(*v),
{
    let ghost p = buf@.len() as int;
    let ghost s0 = buf@;
    put_u16(buf, v.unit0);
    let ghost s1 = buf@;
    put_u16(buf, v.unit1);
    let ghost s2 = buf@;
    put_u16(buf, v.unit2);
    let ghost s3 = buf@;
    put_u16(buf, v.unit3);
    let ghost s4 = buf@;
    put_u16(buf, v.unit4);
    let ghost s5 = buf@;
    put_u16(buf, v.unit5);
    let ghost s6 = buf@;
    put_u16(buf, v.unit6);
    let ghost s7 = buf@;
    put_u16(buf, v.unit7);
    let ghost s8 = buf@;
    proof {
        lemma_prefix_refl(buf@);
        lemma_prefix_trans(s7, s8, buf@);
        lemma_prefix_trans(s6, s7, buf@);
        lemma_prefix_trans(s5, s6, buf@);
        lemma_prefix_trans(s4, s5, buf@);
        lemma_prefix_trans(s3, s4, buf@);
        lemma_prefix_trans(s2, s3, buf@);
        lemma_prefix_trans(s1, s2, buf@);
        lemma_prefix_trans(s0, s1, buf@);
        lemma_subrange_in_prefix(s1, buf@, p, p + 2);
        lemma_subrange_in_prefix(s2, buf@, p + 2, p + 2 + 2);
        lemma_subrange_in_prefix(s3, buf@, p + 4, p + 4 + 2);
        lemma_subrange_in_prefix(s4, buf@, p + 6, p + 6 + 2);
        lemma_subrange_in_prefix(s5, buf@, p + 8, p + 8 + 2);
        lemma_subrange_in_prefix(s6, buf@, p + 10, p + 10 + 2);
        lemma_subrange_in_prefix(s7, buf@, p + 12, p + 12 + 2);
        lemma_subrange_in_prefix(s8, buf@, p + 14, p + 14 + 2);
        assert(prefix_of(s0, buf@));
        assert(dec_loaded_units_at(buf@, p) == *v);
        lemma_enc_dec();
        assert(buf@ =~= s0 + enc_loaded_units(*v));
    }
}

pub fn get_loaded_units(data: &Vec<u8>, pos: usize) -> (r: LoadedUnits)
    requires
        pos + LOADED_UNITS_WIRE <= data@.len(),
    ensures
        r == dec_loaded_units_at(data@, pos as int),
{
    let _n = data.len();
    LoadedUnits {
        unit0: get_u16(data, pos),
        unit1: get_u16(data, pos + 2),
        unit2: get_u16(data, pos + 4),
        unit3: get_u16(data, pos + 6),
        unit4: get_u16(data, pos + 8),
        unit5: get_u16(data, pos + 10),
        unit6: get_u16(data, pos + 12),
        unit7: get_u16(data, pos + 14),
    }
}

#[derive(Debug, Clone, Copy, PartialEq, Eq, Structural)]
pub struct CollisionPoints {
    pub point0: u16,
    pub point1: u16,
    pub point2: u16,
    pub point3: u16,
}

pub const COLLISION_POINTS_WIRE: usize = 8;

pub open spec fn dec_collision_points_at(s: Seq<u8>, pos: int) -> CollisionPoints {
    CollisionPoints {
        point0: dec_u16_at(s, pos),
        point1: dec_u16_at(s, pos + 2),
        point2: dec_u16_at(s, pos + 4),
        point3: dec_u16_at(s, pos + 6),
    }
}

pub proof fn lemma_dec_collision_points_stable(a: Seq<u8>, b: Seq<u8>, pos: int)
    requires
        0 <= pos,
        pos + COLLISION_POINTS_WIRE <= a.len(),
        pos + COLLISION_POINTS_WIRE <= b.len(),
        b.subrange(pos, pos + COLLISION_POINTS_WIRE) == a.subrange(pos, pos + COLLISION_POINTS_WIRE),
    ensures
        dec_collision_points_at(b, pos) == dec_collision_points_at(a, pos),
{
    lemma_subrange_within(a, b, pos, pos + COLLISION_POINTS_WIRE, pos + 0, pos + 0 + 2);
    lemma_subrange_within(a, b, pos, pos + COLLISION_POINTS_WIRE, pos + 2, pos + 2 + 2);
    lemma_subrange_within(a, b, pos, pos + COLLISION_POINTS_WIRE, pos + 4, pos + 4 + 2);
    lemma_subrange_within(a, b, pos, pos + COLLISION_POINTS_WIRE, pos + 6, pos + 6 + 2);
}

pub open spec fn enc_collision_points(v: CollisionPoints) -> Seq<u8> {
    enc_u16(v.point0) + enc_u16(v.point1) + enc_u16(v.point2) + enc_u16(v.point3)
}

pub fn put_collision_points(buf: &mut Vec<u8>, v: &CollisionPoints)
    ensures
        final(buf)@.len() == old(buf)@.len() + COLLISION_POINTS_WIRE,
        prefix_of(old(buf)@, final(buf)@),
        dec_collision_points_at(final(buf)@, old(buf)@.len() as int) == *v,
        final(buf)@ == old(buf)@ + enc_collision_points(*v),
{
    let ghost p = buf@.len() as int;
    let ghost s0 = buf@;
    put_u16(buf, v.point0);
    let ghost s1 = buf@;
    put_u16(buf, v.point1);
    let ghost s2 = buf@;
    put_u16(buf, v.point2);
    let ghost s3 = buf@;
    put_u16(buf, v.point3);
    let ghost s4 = buf@;
    proof {
        lemma_prefix_refl(buf@);
        lemma_prefix_trans(s3, s4, buf@);
        lemma_prefix_trans(s2, s3, buf@);
        lemma_prefix_trans(s1, s2, buf@);
        lemma_prefix_trans(s0, s1, buf@);
        lemma_subrange_in_prefix(s1, buf@, p, p + 2);
        lemma_subrange_in_prefix(s2, buf@, p + 2, p + 2 + 2);
        lemma_subrange_in_prefix(s3, buf@, p + 4, p + 4 + 2);
        lemma_subrange_in_prefix(s4, buf@, p + 6, p + 6 + 2);
        assert(prefix_of(s0, buf@));
        assert(dec_collision_points_at(buf@, p) == *v);
        lemma_enc_dec();
        assert(buf@ =~= s0 + enc_collision_points(*v));
    }
}

pub fn get_collision_points(data: &Vec<u8>, pos: usize) -> (r: CollisionPoints)
    requires
        pos + COLLISION_POINTS_WIRE <= data@.len(),
    ensures
        r == dec_collision_points_at(data@, pos as int),
{
    let _n = data.len();
    CollisionPoints {
        point0: get_u16(data, pos),
        point1: get_u16(data, pos + 2),
        point2: get_u16(data, pos + 4),
        point3: get_u16(data, pos + 6),
    }
}

#[derive(Debug, Clone, Copy, PartialEq, Eq, Structural)]
pub struct UnitSpecificWords {
    pub word0: u32,
    pub word1: u32,
    pub word2: u32,
    pub word3: u32,
}

pub const US16_WIRE: usize = 16;

pub open spec fn dec_us16_at(s: Seq<u8>, pos: int) -> UnitSpecificWords {
    UnitSpecificWords {
        word0: dec_u32_at(s, pos),
        word1: dec_u32_at(s, pos + 4),
        word2: dec_u32_at(s, pos + 8),
        word3: dec_u32_at(s, pos + 12),
    }
}

pub proof fn lemma_dec_us16_stable(a: Seq<u8>, b: Seq<u8>, pos: int)
    requires
        0 <= pos,
        pos + US16_WIRE <= a.len(),
        pos + US16_WIRE <= b.len(),
        b.subrange(pos, pos + US16_WIRE) == a.subrange(pos, pos + US16_WIRE),
    ensures
        dec_us16_at(b, pos) == dec_us16_at(a, pos),
{
    lemma_subrange_within(a, b, pos, pos + US16_WIRE, pos + 0, pos + 0 + 4);
    lemma_subrange_within(a, b, pos, pos + US16_WIRE, pos + 4, pos + 4 + 4);
    lemma_subrange_within(a, b, pos, pos + US16_WIRE, pos + 8, pos + 8 + 4);
    lemma_subrange_within(a, b, pos, pos + US16_WIRE, pos + 12, pos + 12 + 4);
}

pub open spec fn enc_us16(v: UnitSpecificWords) -> Seq<u8> {
    enc_u32(v.word0) + enc_u32(v.word1) + enc_u32(v.word2) + enc_u32(v.word3)
}

pub fn put_us16(buf: &mut Vec<u8>, v: &UnitSpecificWords)
    ensures
        final(buf)@.len() == old(buf)@.len() + US16_WIRE,
        prefix_of(old(buf)@, final(buf)@),
        dec_us16_at(final(buf)@, old(buf)@.len() as int) == *v,
        final(buf)@ == old(buf)@ + enc_us16(*v),
{
    let ghost p = buf@.len() as int;
    let ghost s0 = buf@;
    put_u32(buf, v.word0);
    let ghost s1 = buf@;
    put_u32(buf, v.word1);
    let ghost s2 = buf@;
    put_u32(buf, v.word2);
    let ghost s3 = buf@;
    put_u32(buf, v.word3);
    let ghost s4 = buf@;
    proof {
        lemma_prefix_refl(buf@);
        lemma_prefix_trans(s3, s4, buf@);
        lemma_prefix_trans(s2, s3, buf@);
        lemma_prefix_trans(s1, s2, buf@);
        lemma_prefix_trans(s0, s1, buf@);
        lemma_subrange_in_prefix(s1, buf@, p, p + 4);
        lemma_subrange_in_prefix(s2, buf@, p + 4, p + 4 + 4);
        lemma_subrange_in_prefix(s3, buf@, p + 8, p + 8 + 4);
        lemma_subrange_in_prefix(s4, buf@, p + 12, p + 12 + 4);
        assert(prefix_of(s0, buf@));
        assert(dec_us16_at(buf@, p) == *v);
        lemma_enc_dec();
        assert(buf@ =~= s0 + enc_us16(*v));
    }
}

pub fn get_us16(data: &Vec<u8>, pos: usize) -> (r: UnitSpecificWords)
    requires
        pos + US16_WIRE <= data@.len(),
    ensures
        r == dec_us16_at(data@, pos as int),
{
    let _n = data.len();
    UnitSpecificWords {
        word0: get_u32(data, pos),
        word1: get_u32(data, pos + 4),
        word2: get_u32(data, pos + 8),
        word3: get_u32(data, pos + 12),
    }
}

#[derive(Debug, Clone, Copy, PartialEq, Eq, Structural)]
pub struct UnitSpecific2Words {
    pub word0: u32,
    pub word1: u32,
    pub word2: u32,
}

pub const US12_WIRE: usize = 12;

pub open spec fn dec_us12_at(s: Seq<u8>, pos: int) -> UnitSpecific2Words {
    UnitSpecific2Words {
        word0: dec_u32_at(s, pos),
        word1: dec_u32_at(s, pos + 4),
        word2: dec_u32_at(s, pos + 8),
    }
}

pub proof fn lemma_dec_us12_stable(a: Seq<u8>, b: Seq<u8>, pos: int)
    requires
        0 <= pos,
        pos + US12_WIRE <= a.len(),
        pos + US12_WIRE <= b.len(),
        b.subrange(pos, pos + US12_WIRE) == a.subrange(pos, pos + US12_WIRE),
    ensures
        dec_us12_at(b, pos) == dec_us12_at(a, pos),
{
    lemma_subrange_within(a, b, pos, pos + US12_WIRE, pos + 0, pos + 0 + 4);
    lemma_subrange_within(a, b, pos, pos + US12_WIRE, pos + 4, pos + 4 + 4);
    lemma_subrange_within(a, b, pos, pos + US12_WIRE, pos + 8, pos + 8 + 4);
}

pub open spec fn enc_us12(v: UnitSpecific2Words) -> Seq<u8> {
    enc_u32(v.word0) + enc_u32(v.word1) + enc_u32(v.word2)
}

pub fn put_us12(buf: &mut Vec<u8>, v: &UnitSpecific2Words)
    ensures
        final(buf)@.len() == old(buf)@.len() + US12_WIRE,
        prefix_of(old(buf)@, final(buf)@),
        dec_us12_at(final(buf)@, old(buf)@.len() as int) == *v,
        final(buf)@ == old(buf)@ + enc_us12(*v),
{
    let ghost p = buf@.len() as int;
    let ghost s0 = buf@;
    put_u32(buf, v.word0);
    let ghost s1 = buf@;
    put_u32(buf, v.word1);
    let ghost s2 = buf@;
    put_u32(buf, v.word2);
    let ghost s3 = buf@;
    proof {
        lemma_prefix_refl(buf@);
        lemma_prefix_trans(s2, s3, buf@);
        lemma_prefix_trans(s1, s2, buf@);
        lemma_prefix_trans(s0, s1, buf@);
        lemma_subrange_in_prefix(s1, buf@, p, p + 4);
        lemma_subrange_in_prefix(s2, buf@, p + 4, p + 4 + 4);
        lemma_subrange_in_prefix(s3, buf@, p + 8, p + 8 + 4);
        assert(prefix_of(s0, buf@));
        assert(dec_us12_at(buf@, p) == *v);
        lemma_enc_dec();
        assert(buf@ =~= s0 + enc_us12(*v));
    }
}

pub fn get_us12(data: &Vec<u8>, pos: usize) -> (r: UnitSpecific2Words)
    requires
        pos + US12_WIRE <= data@.len(),
    ensures
        r == dec_us12_at(data@, pos as int),
{
    let _n = data.len();
    UnitSpecific2Words {
        word0: get_u32(data, pos),
        word1: get_u32(data, pos + 4),
        word2: get_u32(data, pos + 8),
    }
}

#[derive(Debug, Clone, Copy, PartialEq, Eq, Structural)]
pub struct RallySer {
    pub val1: u16,
    pub val2: u16,
    pub val3: u16,
}

pub const RALLY_SER_WIRE: usize = 6;

pub open spec fn dec_rally_ser_at(s: Seq<u8>, pos: int) -> RallySer {
    RallySer {
        val1: dec_u16_at(s, pos),
        val2: dec_u16_at(s, pos + 2),
        val3: dec_u16_at(s, pos + 4),
    }
}

pub proof fn lemma_dec_rally_ser_stable(a: Seq<u8>, b: Seq<u8>, pos: int)
    requires
        0 <= pos,
        pos + RALLY_SER_WIRE <= a.len(),
        pos + RALLY_SER_WIRE <= b.len(),
        b.subrange(pos, pos + RALLY_SER_WIRE) == a.subrange(pos, pos + RALLY_SER_WIRE),
    ensures
        dec_rally_ser_at(b, pos) == dec_rally_ser_at(a, pos),
{
    lemma_subrange_within(a, b, pos, pos + RALLY_SER_WIRE, pos + 0, pos + 0 + 2);
    lemma_subrange_within(a, b, pos, pos + RALLY_SER_WIRE, pos + 2, pos + 2 + 2);
    lemma_subrange_within(a, b, pos, pos + RALLY_SER_WIRE, pos + 4, pos + 4 + 2);
}

pub open spec fn enc_rally_ser(v: RallySer) -> Seq<u8> {
    enc_u16(v.val1) + enc_u16(v.val2) + enc_u16(v.val3)
}

pub fn put_rally_ser(buf: &mut Vec<u8>, v: &RallySer)
    ensures
        final(buf)@.len() == old(buf)@.len() + RALLY_SER_WIRE,
        prefix_of(old(buf)@, final(buf)@),
        dec_rally_ser_at(final(buf)@, old(buf)@.len() as int) == *v,
        final(buf)@ == old(buf)@ + enc_rally_ser(*v),
{
    let ghost p = buf@.len() as int;
    let ghost s0 = buf@;
    put_u16(buf, v.val1);
    let ghost s1 = buf@;
    put_u16(buf, v.val2);
    let ghost s2 = buf@;
    put_u16(buf, v.val3);
    let ghost s3 = buf@;
    proof {
        lemma_prefix_refl(buf@);
        lemma_prefix_trans(s2, s3, buf@);
        lemma_prefix_trans(s1, s2, buf@);
        lemma_prefix_trans(s0, s1, buf@);
        lemma_subrange_in_prefix(s1, buf@, p, p + 2);
        lemma_subrange_in_prefix(s2, buf@, p + 2, p + 2 + 2);
        lemma_subrange_in_prefix(s3, buf@, p + 4, p + 4 + 2);
        assert(prefix_of(s0, buf@));
        assert(dec_rally_ser_at(buf@, p) == *v);
        lemma_enc_dec();
        assert(buf@ =~= s0 + enc_rally_ser(*v));
    }
}

pub fn get_rally_ser(data: &Vec<u8>, pos: usize) -> (r: RallySer)
    requires
        pos + RALLY_SER_WIRE <= data@.len(),
    ensures
        r == dec_rally_ser_at(data@, pos as int),
{
    let _n = data.len();
    RallySer {
        val1: get_u16(data, pos),
        val2: get_u16(data, pos + 2),
        val3: get_u16(data, pos + 4),
    }
}

#[derive(Debug, Clone, Copy, PartialEq, Eq, Structural)]
pub struct UnitAiSer {
    pub ty: u8,
    pub idx: u16,
}

pub const AI_SER_WIRE: usize = 3;

pub open spec fn dec_ai_ser_at(s: Seq<u8>, pos: int) -> UnitAiSer {
    UnitAiSer {
        ty: dec_u8_at(s, pos),
        idx: dec_u16_at(s, pos + 1),
    }
}

pub proof fn lemma_dec_ai_ser_stable(a: Seq<u8>, b: Seq<u8>, pos: int)
    requires
        0 <= pos,
        pos + AI_SER_WIRE <= a.len(),
        pos + AI_SER_WIRE <= b.len(),
        b.subrange(pos, pos + AI_SER_WIRE) == a.subrange(pos, pos + AI_SER_WIRE),
    ensures
        dec_ai_ser_at(b, pos) == dec_ai_ser_at(a, pos),
{
    assert(b[pos + 0] == a[pos + 0]) by {
        assert(b.subrange(pos, pos + AI_SER_WIRE)[0] == b[pos + 0]);
        assert(a.subrange(pos, pos + AI_SER_WIRE)[0] == a[pos + 0]);
    }
    lemma_subrange_within(a, b, pos, pos + AI_SER_WIRE, pos + 1, pos + 1 + 2);
}

pub open spec fn enc_ai_ser(v: UnitAiSer) -> Seq<u8> {
    enc_u8(v.ty) + enc_u16(v.idx)
}

pub fn put_ai_ser(buf: &mut Vec<u8>, v: &UnitAiSer)
    ensures
        final(buf)@.len() == old(buf)@.len() + AI_SER_WIRE,
        prefix_of(old(buf)@, final(buf)@),
        dec_ai_ser_at(final(buf)@, old(buf)@.len() as int) == *v,
        final(buf)@ == old(buf)@ + enc_ai_ser(*v),
{
    let ghost p = buf@.len() as int;
    let ghost s0 = buf@;
    put_u8(buf, v.ty);
    let ghost s1 = buf@;
    put_u16(buf, v.idx);
    let ghost s2 = buf@;
    proof {
        lemma_prefix_refl(buf@);
        lemma_prefix_trans(s1, s2, buf@);
        lemma_prefix_trans(s0, s1, buf@);
        assert(buf@[p] == s1[p]) by {
            assert(buf@.subrange(0, s1.len() as int)[p] == buf@[p]);
            assert(buf@.subrange(0, s1.len() as int)[p] == s1[p]);
        }
        lemma_subrange_in_prefix(s2, buf@, p + 1, p + 1 + 2);
        assert(prefix_of(s0, buf@));
        assert(dec_ai_ser_at(buf@, p) == *v);
        lemma_enc_dec();
        assert(buf@ =~= s0 + enc_ai_ser(*v));
    }
}

pub fn get_ai_ser(data: &Vec<u8>, pos: usize) -> (r: UnitAiSer)
    requires
        pos + AI_SER_WIRE <= data@.len(),
    ensures
        r == dec_ai_ser_at(data@, pos as int),
{
    let _n = data.len();
    UnitAiSer {
        ty: get_u8(data, pos),
        idx: get_u16(data, pos + 1),
    }
}

#[derive(Debug, Clone, Copy, PartialEq, Eq, Structural)]
pub struct UnitSpellsSer {
    pub death_timer: u16,
    pub defensive_matrix_dmg: u16,
    pub matrix_timer: u8,
    pub stim_timer: u8,
    pub ensnare_timer: u8,
    pub lockdown_timer: u8,
    pub irradiate_timer: u8,
    pub stasis_timer: u8,
    pub plague_timer: u8,
    pub is_under_storm: u8,
    pub irradiated_by: u16,
    pub irradiate_player: u8,
    pub parasited_by_players: u8,
    pub master_spell_timer: u8,
    pub is_blind: u8,
    pub maelstrom_timer: u8,
    pub unk125: u8,
    pub acid_spore_count: u8,
    pub acid_spore_timer0: u8,
    pub acid_spore_timer1: u8,
    pub acid_spore_timer2: u8,
    pub acid_spore_timer3: u8,
    pub acid_spore_timer4: u8,
    pub acid_spore_timer5: u8,
    pub acid_spore_timer6: u8,
    pub acid_spore_timer7: u8,
    pub acid_spore_timer8: u8,
}

pub const SPELLS_SER_WIRE: usize = 30;

pub open spec fn dec_spells_ser_at(s: Seq<u8>, pos: int) -> UnitSpellsSer {
    UnitSpellsSer {
        death_timer: dec_u16_at(s, pos),
        defensive_matrix_dmg: dec_u16_at(s, pos + 2),
        matrix_timer: dec_u8_at(s, pos + 4),
        stim_timer: dec_u8_at(s, pos + 5),
        ensnare_timer: dec_u8_at(s, pos + 6),
        lockdown_timer: dec_u8_at(s, pos + 7),
        irradiate_timer: dec_u8_at(s, pos + 8),
        stasis_timer: dec_u8_at(s, pos + 9),
        plague_timer: dec_u8_at(s, pos + 10),
        is_under_storm: dec_u8_at(s, pos + 11),
        irradiated_by: dec_u16_at(s, pos + 12),
        irradiate_player: dec_u8_at(s, pos + 14),
        parasited_by_players: dec_u8_at(s, pos + 15),
        master_spell_timer: dec_u8_at(s, pos + 16),
        is_blind: dec_u8_at(s, pos + 17),
        maelstrom_timer: dec_u8_at(s, pos + 18),
        unk125: dec_u8_at(s, pos + 19),
        acid_spore_count: dec_u8_at(s, pos + 20),
        acid_spore_timer0: dec_u8_at(s, pos + 21),
        acid_spore_timer1: dec_u8_at(s, pos + 22),
        acid_spore_timer2: dec_u8_at(s, pos + 23),
        acid_spore_timer3: dec_u8_at(s, pos + 24),
        acid_spore_timer4: dec_u8_at(s, pos + 25),
        acid_spore_timer5: dec_u8_at(s, pos + 26),
        acid_spore_timer6: dec_u8_at(s, pos + 27),
        acid_spore_timer7: dec_u8_at(s, pos + 28),
        acid_spore_timer8: dec_u8_at(s, pos + 29),
    }
}

pub proof fn lemma_dec_spells_ser_stable(a: Seq<u8>, b: Seq<u8>, pos: int)
    requires
        0 <= pos,
        pos + SPELLS_SER_WIRE <= a.len(),
        pos + SPELLS_SER_WIRE <= b.len(),
        b.subrange(pos, pos + SPELLS_SER_WIRE) == a.subrange(pos, pos + SPELLS_SER_WIRE),
    ensures
        dec_spells_ser_at(b, pos) == dec_spells_ser_at(a, pos),
{
    lemma_subrange_within(a, b, pos, pos + SPELLS_SER_WIRE, pos + 0, pos + 0 + 2);
    lemma_subrange_within(a, b, pos, pos + SPELLS_SER_WIRE, pos + 2, pos + 2 + 2);
    assert(b[pos + 4] == a[pos + 4]) by {
        assert(b.subrange(pos, pos + SPELLS_SER_WIRE)[4] == b[pos + 4]);
        assert(a.subrange(pos, pos + SPELLS_SER_WIRE)[4] == a[pos + 4]);
    }
    assert(b[pos + 5] == a[pos + 5]) by {
        assert(b.subrange(pos, pos + SPELLS_SER_WIRE)[5] == b[pos + 5]);
        assert(a.subrange(pos, pos + SPELLS_SER_WIRE)[5] == a[pos + 5]);
    }
    assert(b[pos + 6] == a[pos + 6]) by {
        assert(b.subrange(pos, pos + SPELLS_SER_WIRE)[6] == b[pos + 6]);
        assert(a.subrange(pos, pos + SPELLS_SER_WIRE)[6] == a[pos + 6]);
    }
    assert(b[pos + 7] == a[pos + 7]) by {
        assert(b.subrange(pos, pos + SPELLS_SER_WIRE)[7] == b[pos + 7]);
        assert(a.subrange(pos, pos + SPELLS_SER_WIRE)[7] == a[pos + 7]);
    }
    assert(b[pos + 8] == a[pos + 8]) by {
        assert(b.subrange(pos, pos + SPELLS_SER_WIRE)[8] == b[pos + 8]);
        assert(a.subrange(pos, pos + SPELLS_SER_WIRE)[8] == a[pos + 8]);
    }
    assert(b[pos + 9] == a[pos + 9]) by {
        assert(b.subrange(pos, pos + SPELLS_SER_WIRE)[9] == b[pos + 9]);
        assert(a.subrange(pos, pos + SPELLS_SER_WIRE)[9] == a[pos + 9]);
    }
    assert(b[pos + 10] == a[pos + 10]) by {
        assert(b.subrange(pos, pos + SPELLS_SER_WIRE)[10] == b[pos + 10]);
        assert(a.subrange(pos, pos + SPELLS_SER_WIRE)[10] == a[pos + 10]);
    }
    assert(b[pos + 11] == a[pos + 11]) by {
        assert(b.subrange(pos, pos + SPELLS_SER_WIRE)[11] == b[pos + 11]);
        assert(a.subrange(pos, pos + SPELLS_SER_WIRE)[11] == a[pos + 11]);
    }
    lemma_subrange_within(a, b, pos, pos + SPELLS_SER_WIRE, pos + 12, pos + 12 + 2);
    assert(b[pos + 14] == a[pos + 14]) by {
        assert(b.subrange(pos, pos + SPELLS_SER_WIRE)[14] == b[pos + 14]);
        assert(a.subrange(pos, pos + SPELLS_SER_WIRE)[14] == a[pos + 14]);
    }
    assert(b[pos + 15] == a[pos + 15]) by {
        assert(b.subrange(pos, pos + SPELLS_SER_WIRE)[15] == b[pos + 15]);
        assert(a.subrange(pos, pos + SPELLS_SER_WIRE)[15] == a[pos + 15]);
    }
    assert(b[pos + 16] == a[pos + 16]) by {
        assert(b.subrange(pos, pos + SPELLS_SER_WIRE)[16] == b[pos + 16]);
        assert(a.subrange(pos, pos + SPELLS_SER_WIRE)[16] == a[pos + 16]);
    }
    assert(b[pos + 17] == a[pos + 17]) by {
        assert(b.subrange(pos, pos + SPELLS_SER_WIRE)[17] == b[pos + 17]);
        assert(a.subrange(pos, pos + SPELLS_SER_WIRE)[17] == a[pos + 17]);
    }
    assert(b[pos + 18] == a[pos + 18]) by {
        assert(b.subrange(pos, pos + SPELLS_SER_WIRE)[18] == b[pos + 18]);
        assert(a.subrange(pos, pos + SPELLS_SER_WIRE)[18] == a[pos + 18]);
    }
    assert(b[pos + 19] == a[pos + 19]) by {
        assert(b.subrange(pos, pos + SPELLS_SER_WIRE)[19] == b[pos + 19]);
        assert(a.subrange(pos, pos + SPELLS_SER_WIRE)[19] == a[pos + 19]);
    }
    assert(b[pos + 20] == a[pos + 20]) by {
        assert(b.subrange(pos, pos + SPELLS_SER_WIRE)[20] == b[pos + 20]);
        assert(a.subrange(pos, pos + SPELLS_SER_WIRE)[20] == a[pos + 20]);
    }
    assert(b[pos + 21] == a[pos + 21]) by {
        assert(b.subrange(pos, pos + SPELLS_SER_WIRE)[21] == b[pos + 21]);
        assert(a.subrange(pos, pos + SPELLS_SER_WIRE)[21] == a[pos + 21]);
    }
    assert(b[pos + 22] == a[pos + 22]) by {
        assert(b.subrange(pos, pos + SPELLS_SER_WIRE)[22] == b[pos + 22]);
        assert(a.subrange(pos, pos + SPELLS_SER_WIRE)[22] == a[pos + 22]);
    }
    assert(b[pos + 23] == a[pos + 23]) by {
        assert(b.subrange(pos, pos + SPELLS_SER_WIRE)[23] == b[pos + 23]);
        assert(a.subrange(pos, pos + SPELLS_SER_WIRE)[23] == a[pos + 23]);
    }
    assert(b[pos + 24] == a[pos + 24]) by {
        assert(b.subrange(pos, pos + SPELLS_SER_WIRE)[24] == b[pos + 24]);
        assert(a.subrange(pos, pos + SPELLS_SER_WIRE)[24] == a[pos + 24]);
    }
    assert(b[pos + 25] == a[pos + 25]) by {
        assert(b.subrange(pos, pos + SPELLS_SER_WIRE)[25] == b[pos + 25]);
        assert(a.subrange(pos, pos + SPELLS_SER_WIRE)[25] == a[pos + 25]);
    }
    assert(b[pos + 26] == a[pos + 26]) by {
        assert(b.subrange(pos, pos + SPELLS_SER_WIRE)[26] == b[pos + 26]);
        assert(a.subrange(pos, pos + SPELLS_SER_WIRE)[26] == a[pos + 26]);
    }
    assert(b[pos + 27] == a[pos + 27]) by {
        assert(b.subrange(pos, pos + SPELLS_SER_WIRE)[27] == b[pos + 27]);
        assert(a.subrange(pos, pos + SPELLS_SER_WIRE)[27] == a[pos + 27]);
    }
    assert(b[pos + 28] == a[pos + 28]) by {
        assert(b.subrange(pos, pos + SPELLS_SER_WIRE)[28] == b[pos + 28]);
        assert(a.subrange(pos, pos + SPELLS_SER_WIRE)[28] == a[pos + 28]);
    }
    assert(b[pos + 29] == a[pos + 29]) by {
        assert(b.subrange(pos, pos + SPELLS_SER_WIRE)[29] == b[pos + 29]);
        assert(a.subrange(pos, pos + SPELLS_SER_WIRE)[29] == a[pos + 29]);
    }
}

pub open spec fn enc_spells_ser(v: UnitSpellsSer) -> Seq<u8> {
    enc_u16(v.death_timer) + enc_u16(v.defensive_matrix_dmg) + enc_u8(v.matrix_timer) + enc_u8(v.stim_timer) + enc_u8(v.ensnare_timer) + enc_u8(v.lockdown_timer) + enc_u8(v.irradiate_timer) + enc_u8(v.stasis_timer) + enc_u8(v.plague_timer) + enc_u8(v.is_under_storm) + enc_u16(v.irradiated_by) + enc_u8(v.irradiate_player) + enc_u8(v.parasited_by_players) + enc_u8(v.master_spell_timer) + enc_u8(v.is_blind) + enc_u8(v.maelstrom_timer) + enc_u8(v.unk125) + enc_u8(v.acid_spore_count) + enc_u8(v.acid_spore_timer0) + enc_u8(v.acid_spore_timer1) + enc_u8(v.acid_spore_timer2) + enc_u8(v.acid_spore_timer3) + enc_u8(v.acid_spore_timer4) + enc_u8(v.acid_spore_timer5) + enc_u8(v.acid_spore_timer6) + enc_u8(v.acid_spore_timer7) + enc_u8(v.acid_spore_timer8)
}

pub fn put_spells_ser(buf: &mut Vec<u8>, v: &UnitSpellsSer)
    ensures
        final(buf)@.len() == old(buf)@.len() + SPELLS_SER_WIRE,
        prefix_of(old(buf)@, final(buf)@),
        dec_spells_ser_at(final(buf)@, old(buf)@.len() as int) == *v,
        final(buf)@ == old(buf)@ + enc_spells_ser(*v),
{
    let ghost p = buf@.len() as int;
    let ghost s0 = buf@;
    put_u16(buf, v.death_timer);
    let ghost s1 = buf@;
    put_u16(buf, v.defensive_matrix_dmg);
    let ghost s2 = buf@;
    put_u8(buf, v.matrix_timer);
    let ghost s3 = buf@;
    put_u8(buf, v.stim_timer);
    let ghost s4 = buf@;
    put_u8(buf, v.ensnare_timer);
    let ghost s5 = buf@;
    put_u8(buf, v.lockdown_timer);
    let ghost s6 = buf@;
    put_u8(buf, v.irradiate_timer);
    let ghost s7 = buf@;
    put_u8(buf, v.stasis_timer);
    let ghost s8 = buf@;
    put_u8(buf, v.plague_timer);
    let ghost s9 = buf@;
    put_u8(buf, v.is_under_storm);
    let ghost s10 = buf@;
    put_u16(buf, v.irradiated_by);
    let ghost s11 = buf@;
    put_u8(buf, v.irradiate_player);
    let ghost s12 = buf@;
    put_u8(buf, v.parasited_by_players);
    let ghost s13 = buf@;
    put_u8(buf, v.master_spell_timer);
    let ghost s14 = buf@;
    put_u8(buf, v.is_blind);
    let ghost s15 = buf@;
    put_u8(buf, v.maelstrom_timer);
    let ghost s16 = buf@;
    put_u8(buf, v.unk125);
    let ghost s17 = buf@;
    put_u8(buf, v.acid_spore_count);
    let ghost s18 = buf@;
    put_u8(buf, v.acid_spore_timer0);
    let ghost s19 = buf@;
    put_u8(buf, v.acid_spore_timer1);
    let ghost s20 = buf@;
    put_u8(buf, v.acid_spore_timer2);
    let ghost s21 = buf@;
    put_u8(buf, v.acid_spore_timer3);
    let ghost s22 = buf@;
    put_u8(buf, v.acid_spore_timer4);
    let ghost s23 = buf@;
    put_u8(buf, v.acid_spore_timer5);
    let ghost s24 = buf@;
    put_u8(buf, v.acid_spore_timer6);
    let ghost s25 = buf@;
    put_u8(buf, v.acid_spore_timer7);
    let ghost s26 = buf@;
    put_u8(buf, v.acid_spore_timer8);
    let ghost s27 = buf@;
    proof {
        lemma_prefix_refl(buf@);
        lemma_prefix_trans(s26, s27, buf@);
        lemma_prefix_trans(s25, s26, buf@);
        lemma_prefix_trans(s24, s25, buf@);
        lemma_prefix_trans(s23, s24, buf@);
        lemma_prefix_trans(s22, s23, buf@);
        lemma_prefix_trans(s21, s22, buf@);
        lemma_prefix_trans(s20, s21, buf@);
        lemma_prefix_trans(s19, s20, buf@);
        lemma_prefix_trans(s18, s19, buf@);
        lemma_prefix_trans(s17, s18, buf@);
        lemma_prefix_trans(s16, s17, buf@);
        lemma_prefix_trans(s15, s16, buf@);
        lemma_prefix_trans(s14, s15, buf@);
        lemma_prefix_trans(s13, s14, buf@);
        lemma_prefix_trans(s12, s13, buf@);
        lemma_prefix_trans(s11, s12, buf@);
        lemma_prefix_trans(s10, s11, buf@);
        lemma_prefix_trans(s9, s10, buf@);
        lemma_prefix_trans(s8, s9, buf@);
        lemma_prefix_trans(s7, s8, buf@);
        lemma_prefix_trans(s6, s7, buf@);
        lemma_prefix_trans(s5, s6, buf@);
        lemma_prefix_trans(s4, s5, buf@);
        lemma_prefix_trans(s3, s4, buf@);
        lemma_prefix_trans(s2, s3, buf@);
        lemma_prefix_trans(s1, s2, buf@);
        lemma_prefix_trans(s0, s1, buf@);
        lemma_subrange_in_prefix(s1, buf@, p, p + 2);
        lemma_subrange_in_prefix(s2, buf@, p + 2, p + 2 + 2);
        assert(buf@[p + 4] == s3[p + 4]) by {
            assert(buf@.subrange(0, s3.len() as int)[p + 4] == buf@[p + 4]);
            assert(buf@.subrange(0, s3.len() as int)[p + 4] == s3[p + 4]);
        }
        assert(buf@[p + 5] == s4[p + 5]) by {
            assert(buf@.subrange(0, s4.len() as int)[p + 5] == buf@[p + 5]);
            assert(buf@.subrange(0, s4.len() as int)[p + 5] == s4[p + 5]);
        }
        assert(buf@[p + 6] == s5[p + 6]) by {
            assert(buf@.subrange(0, s5.len() as int)[p + 6] == buf@[p + 6]);
            assert(buf@.subrange(0, s5.len() as int)[p + 6] == s5[p + 6]);
        }
        assert(buf@[p + 7] == s6[p + 7]) by {
            assert(buf@.subrange(0, s6.len() as int)[p + 7] == buf@[p + 7]);
            assert(buf@.subrange(0, s6.len() as int)[p + 7] == s6[p + 7]);
        }
        assert(buf@[p + 8] == s7[p + 8]) by {
            assert(buf@.subrange(0, s7.len() as int)[p + 8] == buf@[p + 8]);
            assert(buf@.subrange(0, s7.len() as int)[p + 8] == s7[p + 8]);
        }
        assert(buf@[p + 9] == s8[p + 9]) by {
            assert(buf@.subrange(0, s8.len() as int)[p + 9] == buf@[p + 9]);
            assert(buf@.subrange(0, s8.len() as int)[p + 9] == s8[p + 9]);
        }
        assert(buf@[p + 10] == s9[p + 10]) by {
            assert(buf@.subrange(0, s9.len() as int)[p + 10] == buf@[p + 10]);
            assert(buf@.subrange(0, s9.len() as int)[p + 10] == s9[p + 10]);
        }
        assert(buf@[p + 11] == s10[p + 11]) by {
            assert(buf@.subrange(0, s10.len() as int)[p + 11] == buf@[p + 11]);
            assert(buf@.subrange(0, s10.len() as int)[p + 11] == s10[p + 11]);
        }
        lemma_subrange_in_prefix(s11, buf@, p + 12, p + 12 + 2);
        assert(buf@[p + 14] == s12[p + 14]) by {
            assert(buf@.subrange(0, s12.len() as int)[p + 14] == buf@[p + 14]);
            assert(buf@.subrange(0, s12.len() as int)[p + 14] == s12[p + 14]);
        }
        assert(buf@[p + 15] == s13[p + 15]) by {
            assert(buf@.subrange(0, s13.len() as int)[p + 15] == buf@[p + 15]);
            assert(buf@.subrange(0, s13.len() as int)[p + 15] == s13[p + 15]);
        }
        assert(buf@[p + 16] == s14[p + 16]) by {
            assert(buf@.subrange(0, s14.len() as int)[p + 16] == buf@[p + 16]);
            assert(buf@.subrange(0, s14.len() as int)[p + 16] == s14[p + 16]);
        }
        assert(buf@[p + 17] == s15[p + 17]) by {
            assert(buf@.subrange(0, s15.len() as int)[p + 17] == buf@[p + 17]);
            assert(buf@.subrange(0, s15.len() as int)[p + 17] == s15[p + 17]);
        }
        assert(buf@[p + 18] == s16[p + 18]) by {
            assert(buf@.subrange(0, s16.len() as int)[p + 18] == buf@[p + 18]);
            assert(buf@.subrange(0, s16.len() as int)[p + 18] == s16[p + 18]);
        }
        assert(buf@[p + 19] == s17[p + 19]) by {
            assert(buf@.subrange(0, s17.len() as int)[p + 19] == buf@[p + 19]);
            assert(buf@.subrange(0, s17.len() as int)[p + 19] == s17[p + 19]);
        }
        assert(buf@[p + 20] == s18[p + 20]) by {
            assert(buf@.subrange(0, s18.len() as int)[p + 20] == buf@[p + 20]);
            assert(buf@.subrange(0, s18.len() as int)[p + 20] == s18[p + 20]);
        }
        assert(buf@[p + 21] == s19[p + 21]) by {
            assert(buf@.subrange(0, s19.len() as int)[p + 21] == buf@[p + 21]);
            assert(buf@.subrange(0, s19.len() as int)[p + 21] == s19[p + 21]);
        }
        assert(buf@[p + 22] == s20[p + 22]) by {
            assert(buf@.subrange(0, s20.len() as int)[p + 22] == buf@[p + 22]);
            assert(buf@.subrange(0, s20.len() as int)[p + 22] == s20[p + 22]);
        }
        assert(buf@[p + 23] == s21[p + 23]) by {
            assert(buf@.subrange(0, s21.len() as int)[p + 23] == buf@[p + 23]);
            assert(buf@.subrange(0, s21.len() as int)[p + 23] == s21[p + 23]);
        }
        assert(buf@[p + 24] == s22[p + 24]) by {
            assert(buf@.subrange(0, s22.len() as int)[p + 24] == buf@[p + 24]);
            assert(buf@.subrange(0, s22.len() as int)[p + 24] == s22[p + 24]);
        }
        assert(buf@[p + 25] == s23[p + 25]) by {
            assert(buf@.subrange(0, s23.len() as int)[p + 25] == buf@[p + 25]);
            assert(buf@.subrange(0, s23.len() as int)[p + 25] == s23[p + 25]);
        }
        assert(buf@[p + 26] == s24[p + 26]) by {
            assert(buf@.subrange(0, s24.len() as int)[p + 26] == buf@[p + 26]);
            assert(buf@.subrange(0, s24.len() as int)[p + 26] == s24[p + 26]);
        }
        assert(buf@[p + 27] == s25[p + 27]) by {
            assert(buf@.subrange(0, s25.len() as int)[p + 27] == buf@[p + 27]);
            assert(buf@.subrange(0, s25.len() as int)[p + 27] == s25[p + 27]);
        }
        assert(buf@[p + 28] == s26[p + 28]) by {
            assert(buf@.subrange(0, s26.len() as int)[p + 28] == buf@[p + 28]);
            assert(buf@.subrange(0, s26.len() as int)[p + 28] == s26[p + 28]);
        }
        assert(buf@[p + 29] == s27[p + 29]) by {
            assert(buf@.subrange(0, s27.len() as int)[p + 29] == buf@[p + 29]);
            assert(buf@.subrange(0, s27.len() as int)[p + 29] == s27[p + 29]);
        }
        assert(prefix_of(s0, buf@));
        assert(dec_spells_ser_at(buf@, p) == *v);
        lemma_enc_dec();
        assert(buf@ =~= s0 + enc_spells_ser(*v));
    }
}

pub fn get_spells_ser(data: &Vec<u8>, pos: usize) -> (r: UnitSpellsSer)
    requires
        pos + SPELLS_SER_WIRE <= data@.len(),
    ensures
        r == dec_spells_ser_at(data@, pos as int),
{
    let _n = data.len();
    UnitSpellsSer {
        death_timer: get_u16(data, pos),
        defensive_matrix_dmg: get_u16(data, pos + 2),
        matrix_timer: get_u8(data, pos + 4),
        stim_timer: get_u8(data, pos + 5),
        ensnare_timer: get_u8(data, pos + 6),
        lockdown_timer: get_u8(data, pos + 7),
        irradiate_timer: get_u8(data, pos + 8),
        stasis_timer: get_u8(data, pos + 9),
        plague_timer: get_u8(data, pos + 10),
        is_under_storm: get_u8(data, pos + 11),
        irradiated_by: get_u16(data, pos + 12),
        irradiate_player: get_u8(data, pos + 14),
        parasited_by_players: get_u8(data, pos + 15),
        master_spell_timer: get_u8(data, pos + 16),
        is_blind: get_u8(data, pos + 17),
        maelstrom_timer: get_u8(data, pos + 18),
        unk125: get_u8(data, pos + 19),
        acid_spore_count: get_u8(data, pos + 20),
        acid_spore_timer0: get_u8(data, pos + 21),
        acid_spore_timer1: get_u8(data, pos + 22),
        acid_spore_timer2: get_u8(data, pos + 23),
        acid_spore_timer3: get_u8(data, pos + 24),
        acid_spore_timer4: get_u8(data, pos + 25),
        acid_spore_timer5: get_u8(data, pos + 26),
        acid_spore_timer6: get_u8(data, pos + 27),
        acid_spore_timer7: get_u8(data, pos + 28),
        acid_spore_timer8: get_u8(data, pos + 29),
    }
}

#[derive(Debug, Clone, Copy, PartialEq, Eq, Structural)]
pub struct UnitSerA {
    pub entity: EntitySerializable,
    pub shields: i32,
    pub unit_id: u16,
    pub unused66: u16,
    pub next_player_unit: u16,
    pub prev_player_unit: u16,
    pub subunit: u16,
    pub order_queue_begin: u16,
    pub order_queue_end: u16,
    pub previous_attacker: u16,
    pub related: u16,
    pub highlight_order_count: u8,
    pub order_wait: u8,
    pub unk86: u8,
    pub attack_notify_timer: u8,
    pub previous_unit_id: u16,
    pub minimap_draw_counter: u8,
    pub minimap_draw_color: u8,
    pub unused8c: u16,
    pub rank: u8,
    pub kills: u8,
    pub last_attacking_player: u8,
    pub secondary_order_wait: u8,
    pub ai_spell_flags: u8,
    pub order_flags: u8,
    pub buttons: u16,
    pub invisibility_effects: u8,
    pub movement_state: u8,
    pub build_queue: BuildQueue,
    pub energy: u16,
    pub current_build_slot: u8,
    pub minor_unique_index: u8,
    pub secondary_order: u8,
    pub building_overlay_state: u8,
    pub build_hp_gain: u16,
    pub build_shield_gain: u16,
    pub remaining_build_time: u16,
    pub previous_hp: u16,
    pub loaded_units: LoadedUnits,
}

pub const UNIT_A_WIRE: usize = 174;

pub open spec fn dec_unit_a_at(s: Seq<u8>, pos: int) -> UnitSerA {
    UnitSerA {
        entity: dec_entity_ser_at(s, pos),
        shields: dec_i32_at(s, pos + 92),
        unit_id: dec_u16_at(s, pos + 96),
        unused66: dec_u16_at(s, pos + 98),
        next_player_unit: dec_u16_at(s, pos + 100),
        prev_player_unit: dec_u16_at(s, pos + 102),
        subunit: dec_u16_at(s, pos + 104),
        order_queue_begin: dec_u16_at(s, pos + 106),
        order_queue_end: dec_u16_at(s, pos + 108),
        previous_attacker: dec_u16_at(s, pos + 110),
        related: dec_u16_at(s, pos + 112),
        highlight_order_count: dec_u8_at(s, pos + 114),
        order_wait: dec_u8_at(s, pos + 115),
        unk86: dec_u8_at(s, pos + 116),
        attack_notify_timer: dec_u8_at(s, pos + 117),
        previous_unit_id: dec_u16_at(s, pos + 118),
        minimap_draw_counter: dec_u8_at(s, pos + 120),
        minimap_draw_color: dec_u8_at(s, pos + 121),
        unused8c: dec_u16_at(s, pos + 122),
        rank: dec_u8_at(s, pos + 124),
        kills: dec_u8_at(s, pos + 125),
        last_attacking_player: dec_u8_at(s, pos + 126),
        secondary_order_wait: dec_u8_at(s, pos + 127),
        ai_spell_flags: dec_u8_at(s, pos + 128),
        order_flags: dec_u8_at(s, pos + 129),
        buttons: dec_u16_at(s, pos + 130),
        invisibility_effects: dec_u8_at(s, pos + 132),
        movement_state: dec_u8_at(s, pos + 133),
        build_queue: dec_build_queue_at(s, pos + 134),
        energy: dec_u16_at(s, pos + 144),
        current_build_slot: dec_u8_at(s, pos + 146),
        minor_unique_index: dec_u8_at(s, pos + 147),
        secondary_order: dec_u8_at(s, pos + 148),
        building_overlay_state: dec_u8_at(s, pos + 149),
        build_hp_gain: dec_u16_at(s, pos + 150),
        build_shield_gain: dec_u16_at(s, pos + 152),
        remaining_build_time: dec_u16_at(s, pos + 154),
        previous_hp: dec_u16_at(s, pos + 156),
        loaded_units: dec_loaded_units_at(s, pos + 158),
    }
}

pub proof fn lemma_dec_unit_a_stable(a: Seq<u8>, b: Seq<u8>, pos: int)
    requires
        0 <= pos,
        pos + UNIT_A_WIRE <= a.len(),
        pos + UNIT_A_WIRE <= b.len(),
        b.subrange(pos, pos + UNIT_A_WIRE) == a.subrange(pos, pos + UNIT_A_WIRE),
    ensures
        dec_unit_a_at(b, pos) == dec_unit_a_at(a, pos),
{
    lemma_subrange_within(a, b, pos, pos + UNIT_A_WIRE, pos + 0, pos + 0 + 92);
    lemma_dec_entity_ser_stable(a, b, pos + 0);
    lemma_subrange_within(a, b, pos, pos + UNIT_A_WIRE, pos + 92, pos + 92 + 4);
    lemma_subrange_within(a, b, pos, pos + UNIT_A_WIRE, pos + 96, pos + 96 + 2);
    lemma_subrange_within(a, b, pos, pos + UNIT_A_WIRE, pos + 98, pos + 98 + 2);
    lemma_subrange_within(a, b, pos, pos + UNIT_A_WIRE, pos + 100, pos + 100 + 2);
    lemma_subrange_within(a, b, pos, pos + UNIT_A_WIRE, pos + 102, pos + 102 + 2);
    lemma_subrange_within(a, b, pos, pos + UNIT_A_WIRE, pos + 104, pos + 104 + 2);
    lemma_subrange_within(a, b, pos, pos + UNIT_A_WIRE, pos + 106, pos + 106 + 2);
    lemma_subrange_within(a, b, pos, pos + UNIT_A_WIRE, pos + 108, pos + 108 + 2);
    lemma_subrange_within(a, b, pos, pos + UNIT_A_WIRE, pos + 110, pos + 110 + 2);
    lemma_subrange_within(a, b, pos, pos + UNIT_A_WIRE, pos + 112, pos + 112 + 2);
    assert(b[pos + 114] == a[pos + 114]) by {
        assert(b.subrange(pos, pos + UNIT_A_WIRE)[114] == b[pos + 114]);
        assert(a.subrange(pos, pos + UNIT_A_WIRE)[114] == a[pos + 114]);
    }
    assert(b[pos + 115] == a[pos + 115]) by {
        assert(b.subrange(pos, pos + UNIT_A_WIRE)[115] == b[pos + 115]);
        assert(a.subrange(pos, pos + UNIT_A_WIRE)[115] == a[pos + 115]);
    }
    assert(b[pos + 116] == a[pos + 116]) by {
        assert(b.subrange(pos, pos + UNIT_A_WIRE)[116] == b[pos + 116]);
        assert(a.subrange(pos, pos + UNIT_A_WIRE)[116] == a[pos + 116]);
    }
    assert(b[pos + 117] == a[pos + 117]) by {
        assert(b.subrange(pos, pos + UNIT_A_WIRE)[117] == b[pos + 117]);
        assert(a.subrange(pos, pos + UNIT_A_WIRE)[117] == a[pos + 117]);
    }
    lemma_subrange_within(a, b, pos, pos + UNIT_A_WIRE, pos + 118, pos + 118 + 2);
    assert(b[pos + 120] == a[pos + 120]) by {
        assert(b.subrange(pos, pos + UNIT_A_WIRE)[120] == b[pos + 120]);
        assert(a.subrange(pos, pos + UNIT_A_WIRE)[120] == a[pos + 120]);
    }
    assert(b[pos + 121] == a[pos + 121]) by {
        assert(b.subrange(pos, pos + UNIT_A_WIRE)[121] == b[pos + 121]);
        assert(a.subrange(pos, pos + UNIT_A_WIRE)[121] == a[pos + 121]);
    }
    lemma_subrange_within(a, b, pos, pos + UNIT_A_WIRE, pos + 122, pos + 122 + 2);
    assert(b[pos + 124] == a[pos + 124]) by {
        assert(b.subrange(pos, pos + UNIT_A_WIRE)[124] == b[pos + 124]);
        assert(a.subrange(pos, pos + UNIT_A_WIRE)[124] == a[pos + 124]);
    }
    assert(b[pos + 125] == a[pos + 125]) by {
        assert(b.subrange(pos, pos + UNIT_A_WIRE)[125] == b[pos + 125]);
        assert(a.subrange(pos, pos + UNIT_A_WIRE)[125] == a[pos + 125]);
    }
    assert(b[pos + 126] == a[pos + 126]) by {
        assert(b.subrange(pos, pos + UNIT_A_WIRE)[126] == b[pos + 126]);
        assert(a.subrange(pos, pos + UNIT_A_WIRE)[126] == a[pos + 126]);
    }
    assert(b[pos + 127] == a[pos + 127]) by {
        assert(b.subrange(pos, pos + UNIT_A_WIRE)[127] == b[pos + 127]);
        assert(a.subrange(pos, pos + UNIT_A_WIRE)[127] == a[pos + 127]);
    }
    assert(b[pos + 128] == a[pos + 128]) by {
        assert(b.subrange(pos, pos + UNIT_A_WIRE)[128] == b[pos + 128]);
        assert(a.subrange(pos, pos + UNIT_A_WIRE)[128] == a[pos + 128]);
    }
    assert(b[pos + 129] == a[pos + 129]) by {
        assert(b.subrange(pos, pos + UNIT_A_WIRE)[129] == b[pos + 129]);
        assert(a.subrange(pos, pos + UNIT_A_WIRE)[129] == a[pos + 129]);
    }
    lemma_subrange_within(a, b, pos, pos + UNIT_A_WIRE, pos + 130, pos + 130 + 2);
    assert(b[pos + 132] == a[pos + 132]) by {
        assert(b.subrange(pos, pos + UNIT_A_WIRE)[132] == b[pos + 132]);
        assert(a.subrange(pos, pos + UNIT_A_WIRE)[132] == a[pos + 132]);
    }
    assert(b[pos + 133] == a[pos + 133]) by {
        assert(b.subrange(pos, pos + UNIT_A_WIRE)[133] == b[pos + 133]);
        assert(a.subrange(pos, pos + UNIT_A_WIRE)[133] == a[pos + 133]);
    }
    lemma_subrange_within(a, b, pos, pos + UNIT_A_WIRE, pos + 134, pos + 134 + 10);
    lemma_dec_build_queue_stable(a, b, pos + 134);
    lemma_subrange_within(a, b, pos, pos + UNIT_A_WIRE, pos + 144, pos + 144 + 2);
    assert(b[pos + 146] == a[pos + 146]) by {
        assert(b.subrange(pos, pos + UNIT_A_WIRE)[146] == b[pos + 146]);
        assert(a.subrange(pos, pos + UNIT_A_WIRE)[146] == a[pos + 146]);
    }
    assert(b[pos + 147] == a[pos + 147]) by {
        assert(b.subrange(pos, pos + UNIT_A_WIRE)[147] == b[pos + 147]);
        assert(a.subrange(pos, pos + UNIT_A_WIRE)[147] == a[pos + 147]);
    }
    assert(b[pos + 148] == a[pos + 148]) by {
        assert(b.subrange(pos, pos + UNIT_A_WIRE)[148] == b[pos + 148]);
        assert(a.subrange(pos, pos + UNIT_A_WIRE)[148] == a[pos + 148]);
    }
    assert(b[pos + 149] == a[pos + 149]) by {
        assert(b.subrange(pos, pos + UNIT_A_WIRE)[149] == b[pos + 149]);
        assert(a.subrange(pos, pos + UNIT_A_WIRE)[149] == a[pos + 149]);
    }
    lemma_subrange_within(a, b, pos, pos + UNIT_A_WIRE, pos + 150, pos + 150 + 2);
    lemma_subrange_within(a, b, pos, pos + UNIT_A_WIRE, pos + 152, pos + 152 + 2);
    lemma_subrange_within(a, b, pos, pos + UNIT_A_WIRE, pos + 154, pos + 154 + 2);
    lemma_subrange_within(a, b, pos, pos + UNIT_A_WIRE, pos + 156, pos + 156 + 2);
    lemma_subrange_within(a, b, pos, pos + UNIT_A_WIRE, pos + 158, pos + 158 + 16);
    lemma_dec_loaded_units_stable(a, b, pos + 158);
}

#[verifier::opaque]
pub open spec fn enc_unit_a(v: UnitSerA) -> Seq<u8> {
    enc_entity_ser(v.entity) + enc_i32(v.shields) + enc_u16(v.unit_id) + enc_u16(v.unused66) + enc_u16(v.next_player_unit) + enc_u16(v.prev_player_unit) + enc_u16(v.subunit) + enc_u16(v.order_queue_begin) + enc_u16(v.order_queue_end) + enc_u16(v.previous_attacker) + enc_u16(v.related) + enc_u8(v.highlight_order_count) + enc_u8(v.order_wait) + enc_u8(v.unk86) + enc_u8(v.attack_notify_timer) + enc_u16(v.previous_unit_id) + enc_u8(v.minimap_draw_counter) + enc_u8(v.minimap_draw_color) + enc_u16(v.unused8c) + enc_u8(v.rank) + enc_u8(v.kills) + enc_u8(v.last_attacking_player) + enc_u8(v.secondary_order_wait) + enc_u8(v.ai_spell_flags) + enc_u8(v.order_flags) + enc_u16(v.buttons) + enc_u8(v.invisibility_effects) + enc_u8(v.movement_state) + enc_build_queue(v.build_queue) + enc_u16(v.energy) + enc_u8(v.current_build_slot) + enc_u8(v.minor_unique_index) + enc_u8(v.secondary_order) + enc_u8(v.building_overlay_state) + enc_u16(v.build_hp_gain) + enc_u16(v.build_shield_gain) + enc_u16(v.remaining_build_time) + enc_u16(v.previous_hp) + enc_loaded_units(v.loaded_units)
}

#[verifier::rlimit(100)]
#[verifier::spinoff_prover]
pub fn put_unit_a(buf: &mut Vec<u8>, v: &UnitSerA)
    ensures
        final(buf)@.len() == old(buf)@.len() + UNIT_A_WIRE,
        prefix_of(old(buf)@, final(buf)@),
        dec_unit_a_at(final(buf)@, old(buf)@.len() as int) == *v,
        final(buf)@ == old(buf)@ + enc_unit_a(*v),
{
    let ghost p = buf@.len() as int;
    let ghost s0 = buf@;
    put_entity_ser(buf, &v.entity);
    let ghost s1 = buf@;
    put_i32(buf, v.shields);
    let ghost s2 = buf@;
    put_u16(buf, v.unit_id);
    let ghost s3 = buf@;
    put_u16(buf, v.unused66);
    let ghost s4 = buf@;
    put_u16(buf, v.next_player_unit);
    let ghost s5 = buf@;
    put_u16(buf, v.prev_player_unit);
    let ghost s6 = buf@;
    put_u16(buf, v.subunit);
    let ghost s7 = buf@;
    put_u16(buf, v.order_queue_begin);
    let ghost s8 = buf@;
    put_u16(buf, v.order_queue_end);
    let ghost s9 = buf@;
    put_u16(buf, v.previous_attacker);
    let ghost s10 = buf@;
    put_u16(buf, v.related);
    let ghost s11 = buf@;
    put_u8(buf, v.highlight_order_count);
    let ghost s12 = buf@;
    put_u8(buf, v.order_wait);
    let ghost s13 = buf@;
    put_u8(buf, v.unk86);
    let ghost s14 = buf@;
    put_u8(buf, v.attack_notify_timer);
    let ghost s15 = buf@;
    put_u16(buf, v.previous_unit_id);
    let ghost s16 = buf@;
    put_u8(buf, v.minimap_draw_counter);
    let ghost s17 = buf@;
    put_u8(buf, v.minimap_draw_color);
    let ghost s18 = buf@;
    put_u16(buf, v.unused8c);
    let ghost s19 = buf@;
    put_u8(buf, v.rank);
    let ghost s20 = buf@;
    put_u8(buf, v.kills);
    let ghost s21 = buf@;
    put_u8(buf, v.last_attacking_player);
    let ghost s22 = buf@;
    put_u8(buf, v.secondary_order_wait);
    let ghost s23 = buf@;
    put_u8(buf, v.ai_spell_flags);
    let ghost s24 = buf@;
    put_u8(buf, v.order_flags);
    let ghost s25 = buf@;
    put_u16(buf, v.buttons);
    let ghost s26 = buf@;
    put_u8(buf, v.invisibility_effects);
    let ghost s27 = buf@;
    put_u8(buf, v.movement_state);
    let ghost s28 = buf@;
    put_build_queue(buf, &v.build_queue);
    let ghost s29 = buf@;
    put_u16(buf, v.energy);
    let ghost s30 = buf@;
    put_u8(buf, v.current_build_slot);
    let ghost s31 = buf@;
    put_u8(buf, v.minor_unique_index);
    let ghost s32 = buf@;
    put_u8(buf, v.secondary_order);
    let ghost s33 = buf@;
    put_u8(buf, v.building_overlay_state);
    let ghost s34 = buf@;
    put_u16(buf, v.build_hp_gain);
    let ghost s35 = buf@;
    put_u16(buf, v.build_shield_gain);
    let ghost s36 = buf@;
    put_u16(buf, v.remaining_build_time);
    let ghost s37 = buf@;
    put_u16(buf, v.previous_hp);
    let ghost s38 = buf@;
    put_loaded_units(buf, &v.loaded_units);
    let ghost s39 = buf@;
    proof {
        lemma_prefix_refl(buf@);
        lemma_prefix_trans(s38, s39, buf@);
        lemma_prefix_trans(s37, s38, buf@);
        lemma_prefix_trans(s36, s37, buf@);
        lemma_prefix_trans(s35, s36, buf@);
        lemma_prefix_trans(s34, s35, buf@);
        lemma_prefix_trans(s33, s34, buf@);
        lemma_prefix_trans(s32, s33, buf@);
        lemma_prefix_trans(s31, s32, buf@);
        lemma_prefix_trans(s30, s31, buf@);
        lemma_prefix_trans(s29, s30, buf@);
        lemma_prefix_trans(s28, s29, buf@);
        lemma_prefix_trans(s27, s28, buf@);
        lemma_prefix_trans(s26, s27, buf@);
        lemma_prefix_trans(s25, s26, buf@);
        lemma_prefix_trans(s24, s25, buf@);
        lemma_prefix_trans(s23, s24, buf@);
        lemma_prefix_trans(s22, s23, buf@);
        lemma_prefix_trans(s21, s22, buf@);
        lemma_prefix_trans(s20, s21, buf@);
        lemma_prefix_trans(s19, s20, buf@);
        lemma_prefix_trans(s18, s19, buf@);
        lemma_prefix_trans(s17, s18, buf@);
        lemma_prefix_trans(s16, s17, buf@);
        lemma_prefix_trans(s15, s16, buf@);
        lemma_prefix_trans(s14, s15, buf@);
        lemma_prefix_trans(s13, s14, buf@);
        lemma_prefix_trans(s12, s13, buf@);
        lemma_prefix_trans(s11, s12, buf@);
        lemma_prefix_trans(s10, s11, buf@);
        lemma_prefix_trans(s9, s10, buf@);
        lemma_prefix_trans(s8, s9, buf@);
        lemma_prefix_trans(s7, s8, buf@);
        lemma_prefix_trans(s6, s7, buf@);
        lemma_prefix_trans(s5, s6, buf@);
        lemma_prefix_trans(s4, s5, buf@);
        lemma_prefix_trans(s3, s4, buf@);
        lemma_prefix_trans(s2, s3, buf@);
        lemma_prefix_trans(s1, s2, buf@);
        lemma_prefix_trans(s0, s1, buf@);
        lemma_subrange_in_prefix(s1, buf@, p, p + 92);
        lemma_dec_entity_ser_stable(s1, buf@, p);
        lemma_subrange_in_prefix(s2, buf@, p + 92, p + 92 + 4);
        lemma_subrange_in_prefix(s3, buf@, p + 96, p + 96 + 2);
        lemma_subrange_in_prefix(s4, buf@, p + 98, p + 98 + 2);
        lemma_subrange_in_prefix(s5, buf@, p + 100, p + 100 + 2);
        lemma_subrange_in_prefix(s6, buf@, p + 102, p + 102 + 2);
        lemma_subrange_in_prefix(s7, buf@, p + 104, p + 104 + 2);
        lemma_subrange_in_prefix(s8, buf@, p + 106, p + 106 + 2);
        lemma_subrange_in_prefix(s9, buf@, p + 108, p + 108 + 2);
        lemma_subrange_in_prefix(s10, buf@, p + 110, p + 110 + 2);
        lemma_subrange_in_prefix(s11, buf@, p + 112, p + 112 + 2);
        assert(buf@[p + 114] == s12[p + 114]) by {
            assert(buf@.subrange(0, s12.len() as int)[p + 114] == buf@[p + 114]);
            assert(buf@.subrange(0, s12.len() as int)[p + 114] == s12[p + 114]);
        }
        assert(buf@[p + 115] == s13[p + 115]) by {
            assert(buf@.subrange(0, s13.len() as int)[p + 115] == buf@[p + 115]);
            assert(buf@.subrange(0, s13.len() as int)[p + 115] == s13[p + 115]);
        }
        assert(buf@[p + 116] == s14[p + 116]) by {
            assert(buf@.subrange(0, s14.len() as int)[p + 116] == buf@[p + 116]);
            assert(buf@.subrange(0, s14.len() as int)[p + 116] == s14[p + 116]);
        }
        assert(buf@[p + 117] == s15[p + 117]) by {
            assert(buf@.subrange(0, s15.len() as int)[p + 117] == buf@[p + 117]);
            assert(buf@.subrange(0, s15.len() as int)[p + 117] == s15[p + 117]);
        }
        lemma_subrange_in_prefix(s16, buf@, p + 118, p + 118 + 2);
        assert(buf@[p + 120] == s17[p + 120]) by {
            assert(buf@.subrange(0, s17.len() as int)[p + 120] == buf@[p + 120]);
            assert(buf@.subrange(0, s17.len() as int)[p + 120] == s17[p + 120]);
        }
        assert(buf@[p + 121] == s18[p + 121]) by {
            assert(buf@.subrange(0, s18.len() as int)[p + 121] == buf@[p + 121]);
            assert(buf@.subrange(0, s18.len() as int)[p + 121] == s18[p + 121]);
        }
        lemma_subrange_in_prefix(s19, buf@, p + 122, p + 122 + 2);
        assert(buf@[p + 124] == s20[p + 124]) by {
            assert(buf@.subrange(0, s20.len() as int)[p + 124] == buf@[p + 124]);
            assert(buf@.subrange(0, s20.len() as int)[p + 124] == s20[p + 124]);
        }
        assert(buf@[p + 125] == s21[p + 125]) by {
            assert(buf@.subrange(0, s21.len() as int)[p + 125] == buf@[p + 125]);
            assert(buf@.subrange(0, s21.len() as int)[p + 125] == s21[p + 125]);
        }
        assert(buf@[p + 126] == s22[p + 126]) by {
            assert(buf@.subrange(0, s22.len() as int)[p + 126] == buf@[p + 126]);
            assert(buf@.subrange(0, s22.len() as int)[p + 126] == s22[p + 126]);
        }
        assert(buf@[p + 127] == s23[p + 127]) by {
            assert(buf@.subrange(0, s23.len() as int)[p + 127] == buf@[p + 127]);
            assert(buf@.subrange(0, s23.len() as int)[p + 127] == s23[p + 127]);
        }
        assert(buf@[p + 128] == s24[p + 128]) by {
            assert(buf@.subrange(0, s24.len() as int)[p + 128] == buf@[p + 128]);
            assert(buf@.subrange(0, s24.len() as int)[p + 128] == s24[p + 128]);
        }
        assert(buf@[p + 129] == s25[p + 129]) by {
            assert(buf@.subrange(0, s25.len() as int)[p + 129] == buf@[p + 129]);
            assert(buf@.subrange(0, s25.len() as int)[p + 129] == s25[p + 129]);
        }
        lemma_subrange_in_prefix(s26, buf@, p + 130, p + 130 + 2);
        assert(buf@[p + 132] == s27[p + 132]) by {
            assert(buf@.subrange(0, s27.len() as int)[p + 132] == buf@[p + 132]);
            assert(buf@.subrange(0, s27.len() as int)[p + 132] == s27[p + 132]);
        }
        assert(buf@[p + 133] == s28[p + 133]) by {
            assert(buf@.subrange(0, s28.len() as int)[p + 133] == buf@[p + 133]);
            assert(buf@.subrange(0, s28.len() as int)[p + 133] == s28[p + 133]);
        }
        lemma_subrange_in_prefix(s29, buf@, p + 134, p + 134 + 10);
        lemma_dec_build_queue_stable(s29, buf@, p + 134);
        lemma_subrange_in_prefix(s30, buf@, p + 144, p + 144 + 2);
        assert(buf@[p + 146] == s31[p + 146]) by {
            assert(buf@.subrange(0, s31.len() as int)[p + 146] == buf@[p + 146]);
            assert(buf@.subrange(0, s31.len() as int)[p + 146] == s31[p + 146]);
        }
        assert(buf@[p + 147] == s32[p + 147]) by {
            assert(buf@.subrange(0, s32.len() as int)[p + 147] == buf@[p + 147]);
            assert(buf@.subrange(0, s32.len() as int)[p + 147] == s32[p + 147]);
        }
        assert(buf@[p + 148] == s33[p + 148]) by {
            assert(buf@.subrange(0, s33.len() as int)[p + 148] == buf@[p + 148]);
            assert(buf@.subrange(0, s33.len() as int)[p + 148] == s33[p + 148]);
        }
        assert(buf@[p + 149] == s34[p + 149]) by {
            assert(buf@.subrange(0, s34.len() as int)[p + 149] == buf@[p + 149]);
            assert(buf@.subrange(0, s34.len() as int)[p + 149] == s34[p + 149]);
        }
        lemma_subrange_in_prefix(s35, buf@, p + 150, p + 150 + 2);
        lemma_subrange_in_prefix(s36, buf@, p + 152, p + 152 + 2);
        lemma_subrange_in_prefix(s37, buf@, p + 154, p + 154 + 2);
        lemma_subrange_in_prefix(s38, buf@, p + 156, p + 156 + 2);
        lemma_subrange_in_prefix(s39, buf@, p + 158, p + 158 + 16);
        lemma_dec_loaded_units_stable(s39, buf@, p + 158);
        assert(prefix_of(s0, buf@));
        assert(dec_unit_a_at(buf@, p) == *v);
        lemma_enc_dec();
        reveal(enc_unit_a);
        assert(buf@ =~= s0 + enc_unit_a(*v));
    }
}

pub fn get_unit_a(data: &Vec<u8>, pos: usize) -> (r: UnitSerA)
    requires
        pos + UNIT_A_WIRE <= data@.len(),
    ensures
        r == dec_unit_a_at(data@, pos as int),
{
    let _n = data.len();
    UnitSerA {
        entity: get_entity_ser(data, pos),
        shields: get_i32(data, pos + 92),
        unit_id: get_u16(data, pos + 96),
        unused66: get_u16(data, pos + 98),
        next_player_unit: get_u16(data, pos + 100),
        prev_player_unit: get_u16(data, pos + 102),
        subunit: get_u16(data, pos + 104),
        order_queue_begin: get_u16(data, pos + 106),
        order_queue_end: get_u16(data, pos + 108),
        previous_attacker: get_u16(data, pos + 110),
        related: get_u16(data, pos + 112),
        highlight_order_count: get_u8(data, pos + 114),
        order_wait: get_u8(data, pos + 115),
        unk86: get_u8(data, pos + 116),
        attack_notify_timer: get_u8(data, pos + 117),
        previous_unit_id: get_u16(data, pos + 118),
        minimap_draw_counter: get_u8(data, pos + 120),
        minimap_draw_color: get_u8(data, pos + 121),
        unused8c: get_u16(data, pos + 122),
        rank: get_u8(data, pos + 124),
        kills: get_u8(data, pos + 125),
        last_attacking_player: get_u8(data, pos + 126),
        secondary_order_wait: get_u8(data, pos + 127),
        ai_spell_flags: get_u8(data, pos + 128),
        order_flags: get_u8(data, pos + 129),
        buttons: get_u16(data, pos + 130),
        invisibility_effects: get_u8(data, pos + 132),
        movement_state: get_u8(data, pos + 133),
        build_queue: get_build_queue(data, pos + 134),
        energy: get_u16(data, pos + 144),
        current_build_slot: get_u8(data, pos + 146),
        minor_unique_index: get_u8(data, pos + 147),
        secondary_order: get_u8(data, pos + 148),
        building_overlay_state: get_u8(data, pos + 149),
        build_hp_gain: get_u16(data, pos + 150),
        build_shield_gain: get_u16(data, pos + 152),
        remaining_build_time: get_u16(data, pos + 154),
        previous_hp: get_u16(data, pos + 156),
        loaded_units: get_loaded_units(data, pos + 158),
    }
}

#[derive(Debug, Clone, Copy, PartialEq, Eq, Structural)]
pub struct UnitSerB {
    pub unit_specific: UnitSpecificWords,
    pub unit_specific2: UnitSpecific2Words,
    pub flags: u32,
    pub carried_powerup_flags: u8,
    pub wireframe_seed: u8,
    pub secondary_order_state: u8,
    pub move_target_update_timer: u8,
    pub detection_status: u32,
    pub unke8: u16,
    pub unkea: u16,
    pub currently_building: u16,
    pub next_invisible: u16,
    pub prev_invisible: u16,
    pub rally_pylon: RallySer,
    pub path: u16,
    pub path_frame: u8,
    pub pathing_flags: u8,
    pub unk106: u8,
    pub unk107: u8,
    pub collision_points: CollisionPoints,
    pub spells: UnitSpellsSer,
    pub bullet_spread_seed: u16,
    pub ai: UnitAiSer,
    pub air_strength: u16,
    pub ground_strength: u16,
    pub pos_search_left: u32,
    pub pos_search_right: u32,
    pub pos_search_top: u32,
    pub pos_search_bottom: u32,
    pub repulse: Repulse,
}

pub const UNIT_B_WIRE: usize = 129;

pub open spec fn dec_unit_b_at(s: Seq<u8>, pos: int) -> UnitSerB {
    UnitSerB {
        unit_specific: dec_us16_at(s, pos),
        unit_specific2: dec_us12_at(s, pos + 16),
        flags: dec_u32_at(s, pos + 28),
        carried_powerup_flags: dec_u8_at(s, pos + 32),
        wireframe_seed: dec_u8_at(s, pos + 33),
        secondary_order_state: dec_u8_at(s, pos + 34),
        move_target_update_timer: dec_u8_at(s, pos + 35),
        detection_status: dec_u32_at(s, pos + 36),
        unke8: dec_u16_at(s, pos + 40),
        unkea: dec_u16_at(s, pos + 42),
        currently_building: dec_u16_at(s, pos + 44),
        next_invisible: dec_u16_at(s, pos + 46),
        prev_invisible: dec_u16_at(s, pos + 48),
        rally_pylon: dec_rally_ser_at(s, pos + 50),
        path: dec_u16_at(s, pos + 56),
        path_frame: dec_u8_at(s, pos + 58),
        pathing_flags: dec_u8_at(s, pos + 59),
        unk106: dec_u8_at(s, pos + 60),
        unk107: dec_u8_at(s, pos + 61),
        collision_points: dec_collision_points_at(s, pos + 62),
        spells: dec_spells_ser_at(s, pos + 70),
        bullet_spread_seed: dec_u16_at(s, pos + 100),
        ai: dec_ai_ser_at(s, pos + 102),
        air_strength: dec_u16_at(s, pos + 105),
        ground_strength: dec_u16_at(s, pos + 107),
        pos_search_left: dec_u32_at(s, pos + 109),
        pos_search_right: dec_u32_at(s, pos + 113),
        pos_search_top: dec_u32_at(s, pos + 117),
        pos_search_bottom: dec_u32_at(s, pos + 121),
        repulse: dec_repulse_at(s, pos + 125),
    }
}

pub proof fn lemma_dec_unit_b_stable(a: Seq<u8>, b: Seq<u8>, pos: int)
    requires
        0 <= pos,
        pos + UNIT_B_WIRE <= a.len(),
        pos + UNIT_B_WIRE <= b.len(),
        b.subrange(pos, pos + UNIT_B_WIRE) == a.subrange(pos, pos + UNIT_B_WIRE),
    ensures
        dec_unit_b_at(b, pos) == dec_unit_b_at(a, pos),
{
    lemma_subrange_within(a, b, pos, pos + UNIT_B_WIRE, pos + 0, pos + 0 + 16);
    lemma_dec_us16_stable(a, b, pos + 0);
    lemma_subrange_within(a, b, pos, pos + UNIT_B_WIRE, pos + 16, pos + 16 + 12);
    lemma_dec_us12_stable(a, b, pos + 16);
    lemma_subrange_within(a, b, pos, pos + UNIT_B_WIRE, pos + 28, pos + 28 + 4);
    assert(b[pos + 32] == a[pos + 32]) by {
        assert(b.subrange(pos, pos + UNIT_B_WIRE)[32] == b[pos + 32]);
        assert(a.subrange(pos, pos + UNIT_B_WIRE)[32] == a[pos + 32]);
    }
    assert(b[pos + 33] == a[pos + 33]) by {
        assert(b.subrange(pos, pos + UNIT_B_WIRE)[33] == b[pos + 33]);
        assert(a.subrange(pos, pos + UNIT_B_WIRE)[33] == a[pos + 33]);
    }
    assert(b[pos + 34] == a[pos + 34]) by {
        assert(b.subrange(pos, pos + UNIT_B_WIRE)[34] == b[pos + 34]);
        assert(a.subrange(pos, pos + UNIT_B_WIRE)[34] == a[pos + 34]);
    }
    assert(b[pos + 35] == a[pos + 35]) by {
        assert(b.subrange(pos, pos + UNIT_B_WIRE)[35] == b[pos + 35]);
        assert(a.subrange(pos, pos + UNIT_B_WIRE)[35] == a[pos + 35]);
    }
    lemma_subrange_within(a, b, pos, pos + UNIT_B_WIRE, pos + 36, pos + 36 + 4);
    lemma_subrange_within(a, b, pos, pos + UNIT_B_WIRE, pos + 40, pos + 40 + 2);
    lemma_subrange_within(a, b, pos, pos + UNIT_B_WIRE, pos + 42, pos + 42 + 2);
    lemma_subrange_within(a, b, pos, pos + UNIT_B_WIRE, pos + 44, pos + 44 + 2);
    lemma_subrange_within(a, b, pos, pos + UNIT_B_WIRE, pos + 46, pos + 46 + 2);
    lemma_subrange_within(a, b, pos, pos + UNIT_B_WIRE, pos + 48, pos + 48 + 2);
    lemma_subrange_within(a, b, pos, pos + UNIT_B_WIRE, pos + 50, pos + 50 + 6);
    lemma_dec_rally_ser_stable(a, b, pos + 50);
    lemma_subrange_within(a, b, pos, pos + UNIT_B_WIRE, pos + 56, pos + 56 + 2);
    assert(b[pos + 58] == a[pos + 58]) by {
        assert(b.subrange(pos, pos + UNIT_B_WIRE)[58] == b[pos + 58]);
        assert(a.subrange(pos, pos + UNIT_B_WIRE)[58] == a[pos + 58]);
    }
    assert(b[pos + 59] == a[pos + 59]) by {
        assert(b.subrange(pos, pos + UNIT_B_WIRE)[59] == b[pos + 59]);
        assert(a.subrange(pos, pos + UNIT_B_WIRE)[59] == a[pos + 59]);
    }
    assert(b[pos + 60] == a[pos + 60]) by {
        assert(b.subrange(pos, pos + UNIT_B_WIRE)[60] == b[pos + 60]);
        assert(a.subrange(pos, pos + UNIT_B_WIRE)[60] == a[pos + 60]);
    }
    assert(b[pos + 61] == a[pos + 61]) by {
        assert(b.subrange(pos, pos + UNIT_B_WIRE)[61] == b[pos + 61]);
        assert(a.subrange(pos, pos + UNIT_B_WIRE)[61] == a[pos + 61]);
    }
    lemma_subrange_within(a, b, pos, pos + UNIT_B_WIRE, pos + 62, pos + 62 + 8);
    lemma_dec_collision_points_stable(a, b, pos + 62);
    lemma_subrange_within(a, b, pos, pos + UNIT_B_WIRE, pos + 70, pos + 70 + 30);
    lemma_dec_spells_ser_stable(a, b, pos + 70);
    lemma_subrange_within(a, b, pos, pos + UNIT_B_WIRE, pos + 100, pos + 100 + 2);
    lemma_subrange_within(a, b, pos, pos + UNIT_B_WIRE, pos + 102, pos + 102 + 3);
    lemma_dec_ai_ser_stable(a, b, pos + 102);
    lemma_subrange_within(a, b, pos, pos + UNIT_B_WIRE, pos + 105, pos + 105 + 2);
    lemma_subrange_within(a, b, pos, pos + UNIT_B_WIRE, pos + 107, pos + 107 + 2);
    lemma_subrange_within(a, b, pos, pos + UNIT_B_WIRE, pos + 109, pos + 109 + 4);
    lemma_subrange_within(a, b, pos, pos + UNIT_B_WIRE, pos + 113, pos + 113 + 4);
    lemma_subrange_within(a, b, pos, pos + UNIT_B_WIRE, pos + 117, pos + 117 + 4);
    lemma_subrange_within(a, b, pos, pos + UNIT_B_WIRE, pos + 121, pos + 121 + 4);
    lemma_subrange_within(a, b, pos, pos + UNIT_B_WIRE, pos + 125, pos + 125 + 4);
    lemma_dec_repulse_stable(a, b, pos + 125);
}

#[verifier::opaque]
pub open spec fn enc_unit_b(v: UnitSerB) -> Seq<u8> {
    enc_us16(v.unit_specific) + enc_us12(v.unit_specific2) + enc_u32(v.flags) + enc_u8(v.carried_powerup_flags) + enc_u8(v.wireframe_seed) + enc_u8(v.secondary_order_state) + enc_u8(v.move_target_update_timer) + enc_u32(v.detection_status) + enc_u16(v.unke8) + enc_u16(v.unkea) + enc_u16(v.currently_building) + enc_u16(v.next_invisible) + enc_u16(v.prev_invisible) + enc_rally_ser(v.rally_pylon) + enc_u16(v.path) + enc_u8(v.path_frame) + enc_u8(v.pathing_flags) + enc_u8(v.unk106) + enc_u8(v.unk107) + enc_collision_points(v.collision_points) + enc_spells_ser(v.spells) + enc_u16(v.bullet_spread_seed) + enc_ai_ser(v.ai) + enc_u16(v.air_strength) + enc_u16(v.ground_strength) + enc_u32(v.pos_search_left) + enc_u32(v.pos_search_right) + enc_u32(v.pos_search_top) + enc_u32(v.pos_search_bottom) + enc_repulse(v.repulse)
}

#[verifier::rlimit(100)]
#[verifier::spinoff_prover]
pub fn put_unit_b(buf: &mut Vec<u8>, v: &UnitSerB)
    ensures
        final(buf)@.len() == old(buf)@.len() + UNIT_B_WIRE,
        prefix_of(old(buf)@, final(buf)@),
        dec_unit_b_at(final(buf)@, old(buf)@.len() as int) == *v,
        final(buf)@ == old(buf)@ + enc_unit_b(*v),
{
    let ghost p = buf@.len() as int;
    let ghost s0 = buf@;
    put_us16(buf, &v.unit_specific);
    let ghost s1 = buf@;
    put_us12(buf, &v.unit_specific2);
    let ghost s2 = buf@;
    put_u32(buf, v.flags);
    let ghost s3 = buf@;
    put_u8(buf, v.carried_powerup_flags);
    let ghost s4 = buf@;
    put_u8(buf, v.wireframe_seed);
    let ghost s5 = buf@;
    put_u8(buf, v.secondary_order_state);
    let ghost s6 = buf@;
    put_u8(buf, v.move_target_update_timer);
    let ghost s7 = buf@;
    put_u32(buf, v.detection_status);
    let ghost s8 = buf@;
    put_u16(buf, v.unke8);
    let ghost s9 = buf@;
    put_u16(buf, v.unkea);
    let ghost s10 = buf@;
    put_u16(buf, v.currently_building);
    let ghost s11 = buf@;
    put_u16(buf, v.next_invisible);
    let ghost s12 = buf@;
    put_u16(buf, v.prev_invisible);
    let ghost s13 = buf@;
    put_rally_ser(buf, &v.rally_pylon);
    let ghost s14 = buf@;
    put_u16(buf, v.path);
    let ghost s15 = buf@;
    put_u8(buf, v.path_frame);
    let ghost s16 = buf@;
    put_u8(buf, v.pathing_flags);
    let ghost s17 = buf@;
    put_u8(buf, v.unk106);
    let ghost s18 = buf@;
    put_u8(buf, v.unk107);
    let ghost s19 = buf@;
    put_collision_points(buf, &v.collision_points);
    let ghost s20 = buf@;
    put_spells_ser(buf, &v.spells);
    let ghost s21 = buf@;
    put_u16(buf, v.bullet_spread_seed);
    let ghost s22 = buf@;
    put_ai_ser(buf, &v.ai);
    let ghost s23 = buf@;
    put_u16(buf, v.air_strength);
    let ghost s24 = buf@;
    put_u16(buf, v.ground_strength);
    let ghost s25 = buf@;
    put_u32(buf, v.pos_search_left);
    let ghost s26 = buf@;
    put_u32(buf, v.pos_search_right);
    let ghost s27 = buf@;
    put_u32(buf, v.pos_search_top);
    let ghost s28 = buf@;
    put_u32(buf, v.pos_search_bottom);
    let ghost s29 = buf@;
    put_repulse(buf, &v.repulse);
    let ghost s30 = buf@;
    proof {
        lemma_prefix_refl(buf@);
        lemma_prefix_trans(s29, s30, buf@);
        lemma_prefix_trans(s28, s29, buf@);
        lemma_prefix_trans(s27, s28, buf@);
        lemma_prefix_trans(s26, s27, buf@);
        lemma_prefix_trans(s25, s26, buf@);
        lemma_prefix_trans(s24, s25, buf@);
        lemma_prefix_trans(s23, s24, buf@);
        lemma_prefix_trans(s22, s23, buf@);
        lemma_prefix_trans(s21, s22, buf@);
        lemma_prefix_trans(s20, s21, buf@);
        lemma_prefix_trans(s19, s20, buf@);
        lemma_prefix_trans(s18, s19, buf@);
        lemma_prefix_trans(s17, s18, buf@);
        lemma_prefix_trans(s16, s17, buf@);
        lemma_prefix_trans(s15, s16, buf@);
        lemma_prefix_trans(s14, s15, buf@);
        lemma_prefix_trans(s13, s14, buf@);
        lemma_prefix_trans(s12, s13, buf@);
        lemma_prefix_trans(s11, s12, buf@);
        lemma_prefix_trans(s10, s11, buf@);
        lemma_prefix_trans(s9, s10, buf@);
        lemma_prefix_trans(s8, s9, buf@);
        lemma_prefix_trans(s7, s8, buf@);
        lemma_prefix_trans(s6, s7, buf@);
        lemma_prefix_trans(s5, s6, buf@);
        lemma_prefix_trans(s4, s5, buf@);
        lemma_prefix_trans(s3, s4, buf@);
        lemma_prefix_trans(s2, s3, buf@);
        lemma_prefix_trans(s1, s2, buf@);
        lemma_prefix_trans(s0, s1, buf@);
        lemma_subrange_in_prefix(s1, buf@, p, p + 16);
        lemma_dec_us16_stable(s1, buf@, p);
        lemma_subrange_in_prefix(s2, buf@, p + 16, p + 16 + 12);
        lemma_dec_us12_stable(s2, buf@, p + 16);
        lemma_subrange_in_prefix(s3, buf@, p + 28, p + 28 + 4);
        assert(buf@[p + 32] == s4[p + 32]) by {
            assert(buf@.subrange(0, s4.len() as int)[p + 32] == buf@[p + 32]);
            assert(buf@.subrange(0, s4.len() as int)[p + 32] == s4[p + 32]);
        }
        assert(buf@[p + 33] == s5[p + 33]) by {
            assert(buf@.subrange(0, s5.len() as int)[p + 33] == buf@[p + 33]);
            assert(buf@.subrange(0, s5.len() as int)[p + 33] == s5[p + 33]);
        }
        assert(buf@[p + 34] == s6[p + 34]) by {
            assert(buf@.subrange(0, s6.len() as int)[p + 34] == buf@[p + 34]);
            assert(buf@.subrange(0, s6.len() as int)[p + 34] == s6[p + 34]);
        }
        assert(buf@[p + 35] == s7[p + 35]) by {
            assert(buf@.subrange(0, s7.len() as int)[p + 35] == buf@[p + 35]);
            assert(buf@.subrange(0, s7.len() as int)[p + 35] == s7[p + 35]);
        }
        lemma_subrange_in_prefix(s8, buf@, p + 36, p + 36 + 4);
        lemma_subrange_in_prefix(s9, buf@, p + 40, p + 40 + 2);
        lemma_subrange_in_prefix(s10, buf@, p + 42, p + 42 + 2);
        lemma_subrange_in_prefix(s11, buf@, p + 44, p + 44 + 2);
        lemma_subrange_in_prefix(s12, buf@, p + 46, p + 46 + 2);
        lemma_subrange_in_prefix(s13, buf@, p + 48, p + 48 + 2);
        lemma_subrange_in_prefix(s14, buf@, p + 50, p + 50 + 6);
        lemma_dec_rally_ser_stable(s14, buf@, p + 50);
        lemma_subrange_in_prefix(s15, buf@, p + 56, p + 56 + 2);
        assert(buf@[p + 58] == s16[p + 58]) by {
            assert(buf@.subrange(0, s16.len() as int)[p + 58] == buf@[p + 58]);
            assert(buf@.subrange(0, s16.len() as int)[p + 58] == s16[p + 58]);
        }
        assert(buf@[p + 59] == s17[p + 59]) by {
            assert(buf@.subrange(0, s17.len() as int)[p + 59] == buf@[p + 59]);
            assert(buf@.subrange(0, s17.len() as int)[p + 59] == s17[p + 59]);
        }
        assert(buf@[p + 60] == s18[p + 60]) by {
            assert(buf@.subrange(0, s18.len() as int)[p + 60] == buf@[p + 60]);
            assert(buf@.subrange(0, s18.len() as int)[p + 60] == s18[p + 60]);
        }
        assert(buf@[p + 61] == s19[p + 61]) by {
            assert(buf@.subrange(0, s19.len() as int)[p + 61] == buf@[p + 61]);
            assert(buf@.subrange(0, s19.len() as int)[p + 61] == s19[p + 61]);
        }
        lemma_subrange_in_prefix(s20, buf@, p + 62, p + 62 + 8);
        lemma_dec_collision_points_stable(s20, buf@, p + 62);
        lemma_subrange_in_prefix(s21, buf@, p + 70, p + 70 + 30);
        lemma_dec_spells_ser_stable(s21, buf@, p + 70);
        lemma_subrange_in_prefix(s22, buf@, p + 100, p + 100 + 2);
        lemma_subrange_in_prefix(s23, buf@, p + 102, p + 102 + 3);
        lemma_dec_ai_ser_stable(s23, buf@, p + 102);
        lemma_subrange_in_prefix(s24, buf@, p + 105, p + 105 + 2);
        lemma_subrange_in_prefix(s25, buf@, p + 107, p + 107 + 2);
        lemma_subrange_in_prefix(s26, buf@, p + 109, p + 109 + 4);
        lemma_subrange_in_prefix(s27, buf@, p + 113, p + 113 + 4);
        lemma_subrange_in_prefix(s28, buf@, p + 117, p + 117 + 4);
        lemma_subrange_in_prefix(s29, buf@, p + 121, p + 121 + 4);
        lemma_subrange_in_prefix(s30, buf@, p + 125, p + 125 + 4);
        lemma_dec_repulse_stable(s30, buf@, p + 125);
        assert(prefix_of(s0, buf@));
        assert(dec_unit_b_at(buf@, p) == *v);
        lemma_enc_dec();
        reveal(enc_unit_b);
        assert(buf@ =~= s0 + enc_unit_b(*v));
    }
}

pub fn get_unit_b(data: &Vec<u8>, pos: usize) -> (r: UnitSerB)
    requires
        pos + UNIT_B_WIRE <= data@.len(),
    ensures
        r == dec_unit_b_at(data@, pos as int),
{
    let _n = data.len();
    UnitSerB {
        unit_specific: get_us16(data, pos),
        unit_specific2: get_us12(data, pos + 16),
        flags: get_u32(data, pos + 28),
        carried_powerup_flags: get_u8(data, pos + 32),
        wireframe_seed: get_u8(data, pos + 33),
        secondary_order_state: get_u8(data, pos + 34),
        move_target_update_timer: get_u8(data, pos + 35),
        detection_status: get_u32(data, pos + 36),
        unke8: get_u16(data, pos + 40),
        unkea: get_u16(data, pos + 42),
        currently_building: get_u16(data, pos + 44),
        next_invisible: get_u16(data, pos + 46),
        prev_invisible: get_u16(data, pos + 48),
        rally_pylon: get_rally_ser(data, pos + 50),
        path: get_u16(data, pos + 56),
        path_frame: get_u8(data, pos + 58),
        pathing_flags: get_u8(data, pos + 59),
        unk106: get_u8(data, pos + 60),
        unk107: get_u8(data, pos + 61),
        collision_points: get_collision_points(data, pos + 62),
        spells: get_spells_ser(data, pos + 70),
        bullet_spread_seed: get_u16(data, pos + 100),
        ai: get_ai_ser(data, pos + 102),
        air_strength: get_u16(data, pos + 105),
        ground_strength: get_u16(data, pos + 107),
        pos_search_left: get_u32(data, pos + 109),
        pos_search_right: get_u32(data, pos + 113),
        pos_search_top: get_u32(data, pos + 117),
        pos_search_bottom: get_u32(data, pos + 121),
        repulse: get_repulse(data, pos + 125),
    }
}

#[derive(Debug, Clone, Copy, PartialEq, Eq, Structural)]
pub struct UnitSer {
    pub a: UnitSerA,
    pub b: UnitSerB,
}

pub const UNIT_SER_WIRE: usize = 303;

pub open spec fn dec_unit_ser_at(s: Seq<u8>, pos: int) -> UnitSer {
    UnitSer {
        a: dec_unit_a_at(s, pos),
        b: dec_unit_b_at(s, pos + 174),
    }
}

pub proof fn lemma_dec_unit_ser_stable(a: Seq<u8>, b: Seq<u8>, pos: int)
    requires
        0 <= pos,
        pos + UNIT_SER_WIRE <= a.len(),
        pos + UNIT_SER_WIRE <= b.len(),
        b.subrange(pos, pos + UNIT_SER_WIRE) == a.subrange(pos, pos + UNIT_SER_WIRE),
    ensures
        dec_unit_ser_at(b, pos) == dec_unit_ser_at(a, pos),
{
    lemma_subrange_within(a, b, pos, pos + UNIT_SER_WIRE, pos + 0, pos + 0 + 174);
    lemma_dec_unit_a_stable(a, b, pos + 0);
    lemma_subrange_within(a, b, pos, pos + UNIT_SER_WIRE, pos + 174, pos + 174 + 129);
    lemma_dec_unit_b_stable(a, b, pos + 174);
}

pub open spec fn enc_unit_ser(v: UnitSer) -> Seq<u8> {
    enc_unit_a(v.a) + enc_unit_b(v.b)
}

#[verifier::rlimit(100)]
#[verifier::spinoff_prover]
pub fn put_unit_ser(buf: &mut Vec<u8>, v: &UnitSer)
    ensures
        final(buf)@.len() == old(buf)@.len() + UNIT_SER_WIRE,
        prefix_of(old(buf)@, final(buf)@),
        dec_unit_ser_at(final(buf)@, old(buf)@.len() as int) == *v,
        final(buf)@ == old(buf)@ + enc_unit_ser(*v),
{
    let ghost p = buf@.len() as int;
    let ghost s0 = buf@;
    put_unit_a(buf, &v.a);
    let ghost s1 = buf@;
    put_unit_b(buf, &v.b);
    let ghost s2 = buf@;
    proof {
        lemma_prefix_refl(buf@);
        lemma_prefix_trans(s1, s2, buf@);
        lemma_prefix_trans(s0, s1, buf@);
        lemma_subrange_in_prefix(s1, buf@, p, p + 174);
        lemma_dec_unit_a_stable(s1, buf@, p);
        lemma_subrange_in_prefix(s2, buf@, p + 174, p + 174 + 129);
        lemma_dec_unit_b_stable(s2, buf@, p + 174);
        assert(prefix_of(s0, buf@));
        assert(dec_unit_ser_at(buf@, p) == *v);
        lemma_enc_dec();
        assert(buf@ =~= s0 + enc_unit_ser(*v));
    }
}

pub fn get_unit_ser(data: &Vec<u8>, pos: usize) -> (r: UnitSer)
    requires
        pos + UNIT_SER_WIRE <= data@.len(),
    ensures
        r == dec_unit_ser_at(data@, pos as int),
{
    let _n = data.len();
    UnitSer {
        a: get_unit_a(data, pos),
        b: get_unit_b(data, pos + 174),
    }
}

#[derive(Debug, Clone, Copy, PartialEq, Eq, Structural)]
pub struct UnitGlobalsSer {
    pub first_active: u16,
    pub last_active: u16,
    pub first_hidden: u16,
    pub last_hidden: u16,
    pub first_dying: u16,
    pub last_dying: u16,
    pub first_revealer: u16,
    pub last_revealer: u16,
    pub first_free: u16,
    pub last_free: u16,
    pub first_invisible: u16,
    pub player0: u16,
    pub player1: u16,
    pub player2: u16,
    pub player3: u16,
    pub player4: u16,
    pub player5: u16,
    pub player6: u16,
    pub player7: u16,
    pub player8: u16,
    pub player9: u16,
    pub player10: u16,
    pub player11: u16,
}

pub const UNIT_GLOBALS_WIRE: usize = 46;

pub open spec fn dec_unit_globals_at(s: Seq<u8>, pos: int) -> UnitGlobalsSer {
    UnitGlobalsSer {
        first_active: dec_u16_at(s, pos),
        last_active: dec_u16_at(s, pos + 2),
        first_hidden: dec_u16_at(s, pos + 4),
        last_hidden: dec_u16_at(s, pos + 6),
        first_dying: dec_u16_at(s, pos + 8),
        last_dying: dec_u16_at(s, pos + 10),
        first_revealer: dec_u16_at(s, pos + 12),
        last_revealer: dec_u16_at(s, pos + 14),
        first_free: dec_u16_at(s, pos + 16),
        last_free: dec_u16_at(s, pos + 18),
        first_invisible: dec_u16_at(s, pos + 20),
        player0: dec_u16_at(s, pos + 22),
        player1: dec_u16_at(s, pos + 24),
        player2: dec_u16_at(s, pos + 26),
        player3: dec_u16_at(s, pos + 28),
        player4: dec_u16_at(s, pos + 30),
        player5: dec_u16_at(s, pos + 32),
        player6: dec_u16_at(s, pos + 34),
        player7: dec_u16_at(s, pos + 36),
        player8: dec_u16_at(s, pos + 38),
        player9: dec_u16_at(s, pos + 40),
        player10: dec_u16_at(s, pos + 42),
        player11: dec_u16_at(s, pos + 44),
    }
}

pub proof fn lemma_dec_unit_globals_stable(a: Seq<u8>, b: Seq<u8>, pos: int)
    requires
        0 <= pos,
        pos + UNIT_GLOBALS_WIRE <= a.len(),
        pos + UNIT_GLOBALS_WIRE <= b.len(),
        b.subrange(pos, pos + UNIT_GLOBALS_WIRE) == a.subrange(pos, pos + UNIT_GLOBALS_WIRE),
    ensures
        dec_unit_globals_at(b, pos) == dec_unit_globals_at(a, pos),
{
    lemma_subrange_within(a, b, pos, pos + UNIT_GLOBALS_WIRE, pos + 0, pos + 0 + 2);
    lemma_subrange_within(a, b, pos, pos + UNIT_GLOBALS_WIRE, pos + 2, pos + 2 + 2);
    lemma_subrange_within(a, b, pos, pos + UNIT_GLOBALS_WIRE, pos + 4, pos + 4 + 2);
    lemma_subrange_within(a, b, pos, pos + UNIT_GLOBALS_WIRE, pos + 6, pos + 6 + 2);
    lemma_subrange_within(a, b, pos, pos + UNIT_GLOBALS_WIRE, pos + 8, pos + 8 + 2);
    lemma_subrange_within(a, b, pos, pos + UNIT_GLOBALS_WIRE, pos + 10, pos + 10 + 2);
    lemma_subrange_within(a, b, pos, pos + UNIT_GLOBALS_WIRE, pos + 12, pos + 12 + 2);
    lemma_subrange_within(a, b, pos, pos + UNIT_GLOBALS_WIRE, pos + 14, pos + 14 + 2);
    lemma_subrange_within(a, b, pos, pos + UNIT_GLOBALS_WIRE, pos + 16, pos + 16 + 2);
    lemma_subrange_within(a, b, pos, pos + UNIT_GLOBALS_WIRE, pos + 18, pos + 18 + 2);
    lemma_subrange_within(a, b, pos, pos + UNIT_GLOBALS_WIRE, pos + 20, pos + 20 + 2);
    lemma_subrange_within(a, b, pos, pos + UNIT_GLOBALS_WIRE, pos + 22, pos + 22 + 2);
    lemma_subrange_within(a, b, pos, pos + UNIT_GLOBALS_WIRE, pos + 24, pos + 24 + 2);
    lemma_subrange_within(a, b, pos, pos + UNIT_GLOBALS_WIRE, pos + 26, pos + 26 + 2);
    lemma_subrange_within(a, b, pos, pos + UNIT_GLOBALS_WIRE, pos + 28, pos + 28 + 2);
    lemma_subrange_within(a, b, pos, pos + UNIT_GLOBALS_WIRE, pos + 30, pos + 30 + 2);
    lemma_subrange_within(a, b, pos, pos + UNIT_GLOBALS_WIRE, pos + 32, pos + 32 + 2);
    lemma_subrange_within(a, b, pos, pos + UNIT_GLOBALS_WIRE, pos + 34, pos + 34 + 2);
    lemma_subrange_within(a, b, pos, pos + UNIT_GLOBALS_WIRE, pos + 36, pos + 36 + 2);
    lemma_subrange_within(a, b, pos, pos + UNIT_GLOBALS_WIRE, pos + 38, pos + 38 + 2);
    lemma_subrange_within(a, b, pos, pos + UNIT_GLOBALS_WIRE, pos + 40, pos + 40 + 2);
    lemma_subrange_within(a, b, pos, pos + UNIT_GLOBALS_WIRE, pos + 42, pos + 42 + 2);
    lemma_subrange_within(a, b, pos, pos + UNIT_GLOBALS_WIRE, pos + 44, pos + 44 + 2);
}

pub open spec fn enc_unit_globals(v: UnitGlobalsSer) -> Seq<u8> {
    enc_u16(v.first_active) + enc_u16(v.last_active) + enc_u16(v.first_hidden) + enc_u16(v.last_hidden) + enc_u16(v.first_dying) + enc_u16(v.last_dying) + enc_u16(v.first_revealer) + enc_u16(v.last_revealer) + enc_u16(v.first_free) + enc_u16(v.last_free) + enc_u16(v.first_invisible) + enc_u16(v.player0) + enc_u16(v.player1) + enc_u16(v.player2) + enc_u16(v.player3) + enc_u16(v.player4) + enc_u16(v.player5) + enc_u16(v.player6) + enc_u16(v.player7) + enc_u16(v.player8) + enc_u16(v.player9) + enc_u16(v.player10) + enc_u16(v.player11)
}

pub fn put_unit_globals(buf: &mut Vec<u8>, v: &UnitGlobalsSer)
    ensures
        final(buf)@.len() == old(buf)@.len() + UNIT_GLOBALS_WIRE,
        prefix_of(old(buf)@, final(buf)@),
        dec_unit_globals_at(final(buf)@, old(buf)@.len() as int) == *v,
        final(buf)@ == old(buf)@ + enc_unit_globals(*v),
{
    let ghost p = buf@.len() as int;
    let ghost s0 = buf@;
    put_u16(buf, v.first_active);
    let ghost s1 = buf@;
    put_u16(buf, v.last_active);
    let ghost s2 = buf@;
    put_u16(buf, v.first_hidden);
    let ghost s3 = buf@;
    put_u16(buf, v.last_hidden);
    let ghost s4 = buf@;
    put_u16(buf, v.first_dying);
    let ghost s5 = buf@;
    put_u16(buf, v.last_dying);
    let ghost s6 = buf@;
    put_u16(buf, v.first_revealer);
    let ghost s7 = buf@;
    put_u16(buf, v.last_revealer);
    let ghost s8 = buf@;
    put_u16(buf, v.first_free);
    let ghost s9 = buf@;
    put_u16(buf, v.last_free);
    let ghost s10 = buf@;
    put_u16(buf, v.first_invisible);
    let ghost s11 = buf@;
    put_u16(buf, v.player0);
    let ghost s12 = buf@;
    put_u16(buf, v.player1);
    let ghost s13 = buf@;
    put_u16(buf, v.player2);
    let ghost s14 = buf@;
    put_u16(buf, v.player3);
    let ghost s15 = buf@;
    put_u16(buf, v.player4);
    let ghost s16 = buf@;
    put_u16(buf, v.player5);
    let ghost s17 = buf@;
    put_u16(buf, v.player6);
    let ghost s18 = buf@;
    put_u16(buf, v.player7);
    let ghost s19 = buf@;
    put_u16(buf, v.player8);
    let ghost s20 = buf@;
    put_u16(buf, v.player9);
    let ghost s21 = buf@;
    put_u16(buf, v.player10);
    let ghost s22 = buf@;
    put_u16(buf, v.player11);
    let ghost s23 = buf@;
    proof {
        lemma_prefix_refl(buf@);
        lemma_prefix_trans(s22, s23, buf@);
        lemma_prefix_trans(s21, s22, buf@);
        lemma_prefix_trans(s20, s21, buf@);
        lemma_prefix_trans(s19, s20, buf@);
        lemma_prefix_trans(s18, s19, buf@);
        lemma_prefix_trans(s17, s18, buf@);
        lemma_prefix_trans(s16, s17, buf@);
        lemma_prefix_trans(s15, s16, buf@);
        lemma_prefix_trans(s14, s15, buf@);
        lemma_prefix_trans(s13, s14, buf@);
        lemma_prefix_trans(s12, s13, buf@);
        lemma_prefix_trans(s11, s12, buf@);
        lemma_prefix_trans(s10, s11, buf@);
        lemma_prefix_trans(s9, s10, buf@);
        lemma_prefix_trans(s8, s9, buf@);
        lemma_prefix_trans(s7, s8, buf@);
        lemma_prefix_trans(s6, s7, buf@);
        lemma_prefix_trans(s5, s6, buf@);
        lemma_prefix_trans(s4, s5, buf@);
        lemma_prefix_trans(s3, s4, buf@);
        lemma_prefix_trans(s2, s3, buf@);
        lemma_prefix_trans(s1, s2, buf@);
        lemma_prefix_trans(s0, s1, buf@);
        lemma_subrange_in_prefix(s1, buf@, p, p + 2);
        lemma_subrange_in_prefix(s2, buf@, p + 2, p + 2 + 2);
        lemma_subrange_in_prefix(s3, buf@, p + 4, p + 4 + 2);
        lemma_subrange_in_prefix(s4, buf@, p + 6, p + 6 + 2);
        lemma_subrange_in_prefix(s5, buf@, p + 8, p + 8 + 2);
        lemma_subrange_in_prefix(s6, buf@, p + 10, p + 10 + 2);
        lemma_subrange_in_prefix(s7, buf@, p + 12, p + 12 + 2);
        lemma_subrange_in_prefix(s8, buf@, p + 14, p + 14 + 2);
        lemma_subrange_in_prefix(s9, buf@, p + 16, p + 16 + 2);
        lemma_subrange_in_prefix(s10, buf@, p + 18, p + 18 + 2);
        lemma_subrange_in_prefix(s11, buf@, p + 20, p + 20 + 2);
        lemma_subrange_in_prefix(s12, buf@, p + 22, p + 22 + 2);
        lemma_subrange_in_prefix(s13, buf@, p + 24, p + 24 + 2);
        lemma_subrange_in_prefix(s14, buf@, p + 26, p + 26 + 2);
        lemma_subrange_in_prefix(s15, buf@, p + 28, p + 28 + 2);
        lemma_subrange_in_prefix(s16, buf@, p + 30, p + 30 + 2);
        lemma_subrange_in_prefix(s17, buf@, p + 32, p + 32 + 2);
        lemma_subrange_in_prefix(s18, buf@, p + 34, p + 34 + 2);
        lemma_subrange_in_prefix(s19, buf@, p + 36, p + 36 + 2);
        lemma_subrange_in_prefix(s20, buf@, p + 38, p + 38 + 2);
        lemma_subrange_in_prefix(s21, buf@, p + 40, p + 40 + 2);
        lemma_subrange_in_prefix(s22, buf@, p + 42, p + 42 + 2);
        lemma_subrange_in_prefix(s23, buf@, p + 44, p + 44 + 2);
        assert(prefix_of(s0, buf@));
        assert(dec_unit_globals_at(buf@, p) == *v);
        lemma_enc_dec();
        assert(buf@ =~= s0 + enc_unit_globals(*v));
    }
}

pub fn get_unit_globals(data: &Vec<u8>, pos: usize) -> (r: UnitGlobalsSer)
    requires
        pos + UNIT_GLOBALS_WIRE <= data@.len(),
    ensures
        r == dec_unit_globals_at(data@, pos as int),
{
    let _n = data.len();
    UnitGlobalsSer {
        first_active: get_u16(data, pos),
        last_active: get_u16(data, pos + 2),
        first_hidden: get_u16(data, pos + 4),
        last_hidden: get_u16(data, pos + 6),
        first_dying: get_u16(data, pos + 8),
        last_dying: get_u16(data, pos + 10),
        first_revealer: get_u16(data, pos + 12),
        last_revealer: get_u16(data, pos + 14),
        first_free: get_u16(data, pos + 16),
        last_free: get_u16(data, pos + 18),
        first_invisible: get_u16(data, pos + 20),
        player0: get_u16(data, pos + 22),
        player1: get_u16(data, pos + 24),
        player2: get_u16(data, pos + 26),
        player3: get_u16(data, pos + 28),
        player4: get_u16(data, pos + 30),
        player5: get_u16(data, pos + 32),
        player6: get_u16(data, pos + 34),
        player7: get_u16(data, pos + 36),
        player8: get_u16(data, pos + 38),
        player9: get_u16(data, pos + 40),
        player10: get_u16(data, pos + 42),
        player11: get_u16(data, pos + 44),
    }
}

/// A unit reference written as a full 32-bit word (the overlay fields
/// store their ids in one machine word).
pub open spec fn spec_unit_to_id32(r: Option<usize>) -> u32 {
    spec_unit_to_id(r) as u32
}

pub open spec fn spec_unit_from_id32(v: u32) -> Result<Option<usize>, LoadError> {
    if v == 0 {
        Ok(None)
    } else if v <= UNIT_LIMIT as u32 {
        Ok(Some((v - 1) as usize))
    } else {
        Err(LoadError::Corrupted(v))
    }
}

fn unit_from_id32(v: u32) -> (r: Result<Option<usize>, LoadError>)
    ensures
        r == spec_unit_from_id32(v),
{
    if v == 0 {
        Ok(None)
    } else if v <= UNIT_LIMIT as u32 {
        Ok(Some((v - 1) as usize))
    } else {
        Err(LoadError::Corrupted(v))
    }
}

/// The kind-specific overlay: a block of four words whose interpretation
/// the unit's capabilities decide. Each reference-bearing layout is its own
/// variant; opaque words pass through unchanged.
#[derive(Debug, Clone, Copy, PartialEq, Eq, Structural)]
pub enum UnitSpecific {
    /// Hangar-bearing kinds: two unit references.
    Hangar { unit_a: Option<usize>, unit_b: Option<usize>, word_c: u32, word_d: u32 },
    /// Carried kinds (interceptors, scarabs): three unit references.
    Carried { unit_a: Option<usize>, unit_b: Option<usize>, unit_c: Option<usize>, word_d: u32 },
    /// Buildings: one unit reference.
    Building { unit_a: Option<usize>, word_b: u32, word_c: u32, word_d: u32 },
    /// Workers: unit references in the first and third word.
    Worker { unit_a: Option<usize>, word_b: u32, unit_c: Option<usize>, word_d: u32 },
    /// Every other kind: opaque payload.
    Plain { word_a: u32, word_b: u32, word_c: u32, word_d: u32 },
}

/// Which overlay layout the discriminants select, in the exact precedence
/// the host uses: hangar, then carried, then building, then worker.
pub open spec fn spec_us_matches(
    unit_id: u16,
    is_building: bool,
    flags: Seq<u32>,
    sp: UnitSpecific,
) -> bool {
    if spec_has_hangar(unit_id) {
        sp is Hangar
    } else if unit_id == INTERCEPTOR_ID || unit_id == SCARAB_ID {
        sp is Carried
    } else if is_building {
        sp is Building
    } else if spec_is_worker(flags, unit_id) {
        sp is Worker
    } else {
        sp is Plain
    }
}

pub open spec fn spec_us_refs_ok(sp: UnitSpecific) -> bool {
    match sp {
        UnitSpecific::Hangar { unit_a, unit_b, .. } => (unit_a is Some ==> unit_a->Some_0
            < UNIT_LIMIT) && (unit_b is Some ==> unit_b->Some_0 < UNIT_LIMIT),
        UnitSpecific::Carried { unit_a, unit_b, unit_c, .. } => (unit_a is Some ==> unit_a->Some_0
            < UNIT_LIMIT) && (unit_b is Some ==> unit_b->Some_0 < UNIT_LIMIT) && (unit_c is Some
            ==> unit_c->Some_0 < UNIT_LIMIT),
        UnitSpecific::Building { unit_a, .. } => unit_a is Some ==> unit_a->Some_0 < UNIT_LIMIT,
        UnitSpecific::Worker { unit_a, unit_c, .. } => (unit_a is Some ==> unit_a->Some_0
            < UNIT_LIMIT) && (unit_c is Some ==> unit_c->Some_0 < UNIT_LIMIT),
        UnitSpecific::Plain { .. } => true,
    }
}

pub open spec fn spec_us_to_words(sp: UnitSpecific) -> UnitSpecificWords {
    match sp {
        UnitSpecific::Hangar { unit_a, unit_b, word_c, word_d } => UnitSpecificWords {
            word0: spec_unit_to_id32(unit_a),
            word1: spec_unit_to_id32(unit_b),
            word2: word_c,
            word3: word_d,
        },
        UnitSpecific::Carried { unit_a, unit_b, unit_c, word_d } => UnitSpecificWords {
            word0: spec_unit_to_id32(unit_a),
            word1: spec_unit_to_id32(unit_b),
            word2: spec_unit_to_id32(unit_c),
            word3: word_d,
        },
        UnitSpecific::Building { unit_a, word_b, word_c, word_d } => UnitSpecificWords {
            word0: spec_unit_to_id32(unit_a),
            word1: word_b,
            word2: word_c,
            word3: word_d,
        },
        UnitSpecific::Worker { unit_a, word_b, unit_c, word_d } => UnitSpecificWords {
            word0: spec_unit_to_id32(unit_a),
            word1: word_b,
            word2: spec_unit_to_id32(unit_c),
            word3: word_d,
        },
        UnitSpecific::Plain { word_a, word_b, word_c, word_d } => UnitSpecificWords {
            word0: word_a,
            word1: word_b,
            word2: word_c,
            word3: word_d,
        },
    }
}

pub open spec fn spec_us_from_words(
    unit_id: u16,
    is_building: bool,
    flags: Seq<u32>,
    w: UnitSpecificWords,
) -> Result<UnitSpecific, LoadError> {
    if spec_has_hangar(unit_id) {
        let a = spec_unit_from_id32(w.word0);
        let b = spec_unit_from_id32(w.word1);
        if a is Err {
            Err(a->Err_0)
        } else if b is Err {
            Err(b->Err_0)
        } else {
            Ok(UnitSpecific::Hangar {
                unit_a: a->Ok_0,
                unit_b: b->Ok_0,
                word_c: w.word2,
                word_d: w.word3,
            })
        }
    } else if unit_id == INTERCEPTOR_ID || unit_id == SCARAB_ID {
        let a = spec_unit_from_id32(w.word0);
        let b = spec_unit_from_id32(w.word1);
        let c = spec_unit_from_id32(w.word2);
        if a is Err {
            Err(a->Err_0)
        } else if b is Err {
            Err(b->Err_0)
        } else if c is Err {
            Err(c->Err_0)
        } else {
            Ok(UnitSpecific::Carried {
                unit_a: a->Ok_0,
                unit_b: b->Ok_0,
                unit_c: c->Ok_0,
                word_d: w.word3,
            })
        }
    } else if is_building {
        let a = spec_unit_from_id32(w.word0);
        if a is Err {
            Err(a->Err_0)
        } else {
            Ok(UnitSpecific::Building {
                unit_a: a->Ok_0,
                word_b: w.word1,
                word_c: w.word2,
                word_d: w.word3,
            })
        }
    } else if spec_is_worker(flags, unit_id) {
        let a = spec_unit_from_id32(w.word0);
        let c = spec_unit_from_id32(w.word2);
        if a is Err {
            Err(a->Err_0)
        } else if c is Err {
            Err(c->Err_0)
        } else {
            Ok(UnitSpecific::Worker {
                unit_a: a->Ok_0,
                word_b: w.word1,
                unit_c: c->Ok_0,
                word_d: w.word3,
            })
        }
    } else {
        Ok(UnitSpecific::Plain {
            word_a: w.word0,
            word_b: w.word1,
            word_c: w.word2,
            word_d: w.word3,
        })
    }
}

/// The second kind-specific overlay: three words, with references to a
/// unit, a lone sprite (nuclear-strike marker) or a sprite (pylon aura)
/// depending on the kind's capabilities.
#[derive(Debug, Clone, Copy, PartialEq, Eq, Structural)]
pub enum UnitSpecific2 {
    /// Resources: a unit reference in the middle word.
    Resource { word_a: u32, unit_b: Option<usize>, word_c: u32 },
    /// Powerups: a unit reference in the middle word.
    Powerup { word_a: u32, unit_b: Option<usize>, word_c: u32 },
    /// Workers: three unit references.
    WorkerLinks { unit_a: Option<usize>, unit_b: Option<usize>, unit_c: Option<usize> },
    /// Nuclear silos: a unit reference in the first word.
    Silo { unit_a: Option<usize>, word_b: u32, word_c: u32 },
    /// Ghosts: a lone-sprite reference in the first word.
    GhostMarker { lone_a: Option<usize>, word_b: u32, word_c: u32 },
    /// Pylons: a sprite reference in the first word.
    PylonAura { sprite_a: Option<usize>, word_b: u32, word_c: u32 },
    /// Every other kind: opaque payload.
    Plain2 { word_a: u32, word_b: u32, word_c: u32 },
}

/// The discriminant precedence the host uses for the second overlay:
/// resource, powerup, worker, silo, ghost, pylon.
pub open spec fn spec_us2_matches(unit_id: u16, flags: Seq<u32>, sp: UnitSpecific2) -> bool {
    if spec_is_resource(unit_id) {
        sp is Resource
    } else if spec_is_powerup(flags, unit_id) {
        sp is Powerup
    } else if spec_is_worker(flags, unit_id) {
        sp is WorkerLinks
    } else if unit_id == NUCLEAR_SILO_ID {
        sp is Silo
    } else if unit_id == GHOST_ID {
        sp is GhostMarker
    } else if unit_id == PYLON_ID {
        sp is PylonAura
    } else {
        sp is Plain2
    }
}

pub open spec fn spec_us2_refs_ok(sp: UnitSpecific2) -> bool {
    match sp {
        UnitSpecific2::Resource { unit_b, .. } => unit_b is Some ==> unit_b->Some_0 < UNIT_LIMIT,
        UnitSpecific2::Powerup { unit_b, .. } => unit_b is Some ==> unit_b->Some_0 < UNIT_LIMIT,
        UnitSpecific2::WorkerLinks { unit_a, unit_b, unit_c } => (unit_a is Some ==> unit_a->Some_0
            < UNIT_LIMIT) && (unit_b is Some ==> unit_b->Some_0 < UNIT_LIMIT) && (unit_c is Some
            ==> unit_c->Some_0 < UNIT_LIMIT),
        UnitSpecific2::Silo { unit_a, .. } => unit_a is Some ==> unit_a->Some_0 < UNIT_LIMIT,
        _ => true,
    }
}

pub open spec fn spec_us2_to_words(
    sp: UnitSpecific2,
    lone_ids: Seq<u32>,
    sprite_ids: Seq<u32>,
) -> Result<UnitSpecific2Words, SaveError> {
    match sp {
        UnitSpecific2::Resource { word_a, unit_b, word_c } => Ok(UnitSpecific2Words {
            word0: word_a,
            word1: spec_unit_to_id32(unit_b),
            word2: word_c,
        }),
        UnitSpecific2::Powerup { word_a, unit_b, word_c } => Ok(UnitSpecific2Words {
            word0: word_a,
            word1: spec_unit_to_id32(unit_b),
            word2: word_c,
        }),
        UnitSpecific2::WorkerLinks { unit_a, unit_b, unit_c } => Ok(UnitSpecific2Words {
            word0: spec_unit_to_id32(unit_a),
            word1: spec_unit_to_id32(unit_b),
            word2: spec_unit_to_id32(unit_c),
        }),
        UnitSpecific2::Silo { unit_a, word_b, word_c } => Ok(UnitSpecific2Words {
            word0: spec_unit_to_id32(unit_a),
            word1: word_b,
            word2: word_c,
        }),
        UnitSpecific2::GhostMarker { lone_a, word_b, word_c } => {
            let id = spec_id_seq(lone_ids, lone_a);
            if id is Err {
                Err(id->Err_0)
            } else {
                Ok(UnitSpecific2Words { word0: id->Ok_0, word1: word_b, word2: word_c })
            }
        },
        UnitSpecific2::PylonAura { sprite_a, word_b, word_c } => {
            let id = spec_id_seq(sprite_ids, sprite_a);
            if id is Err {
                Err(id->Err_0)
            } else {
                Ok(UnitSpecific2Words { word0: id->Ok_0, word1: word_b, word2: word_c })
            }
        },
        UnitSpecific2::Plain2 { word_a, word_b, word_c } => Ok(UnitSpecific2Words {
            word0: word_a,
            word1: word_b,
            word2: word_c,
        }),
    }
}

pub open spec fn spec_us2_from_words(
    unit_id: u16,
    flags: Seq<u32>,
    w: UnitSpecific2Words,
    lone_slots: Seq<usize>,
    sprite_slots: Seq<usize>,
) -> Result<UnitSpecific2, LoadError> {
    if spec_is_resource(unit_id) {
        let b = spec_unit_from_id32(w.word1);
        if b is Err {
            Err(b->Err_0)
        } else {
            Ok(UnitSpecific2::Resource { word_a: w.word0, unit_b: b->Ok_0, word_c: w.word2 })
        }
    } else if spec_is_powerup(flags, unit_id) {
        let b = spec_unit_from_id32(w.word1);
        if b is Err {
            Err(b->Err_0)
        } else {
            Ok(UnitSpecific2::Powerup { word_a: w.word0, unit_b: b->Ok_0, word_c: w.word2 })
        }
    } else if spec_is_worker(flags, unit_id) {
        let a = spec_unit_from_id32(w.word0);
        let b = spec_unit_from_id32(w.word1);
        let c = spec_unit_from_id32(w.word2);
        if a is Err {
            Err(a->Err_0)
        } else if b is Err {
            Err(b->Err_0)
        } else if c is Err {
            Err(c->Err_0)
        } else {
            Ok(UnitSpecific2::WorkerLinks { unit_a: a->Ok_0, unit_b: b->Ok_0, unit_c: c->Ok_0 })
        }
    } else if unit_id == NUCLEAR_SILO_ID {
        let a = spec_unit_from_id32(w.word0);
        if a is Err {
            Err(a->Err_0)
        } else {
            Ok(UnitSpecific2::Silo { unit_a: a->Ok_0, word_b: w.word1, word_c: w.word2 })
        }
    } else if unit_id == GHOST_ID {
        let a = spec_pointer_seq(lone_slots, w.word0);
        if a is Err {
            Err(a->Err_0)
        } else {
            Ok(UnitSpecific2::GhostMarker { lone_a: a->Ok_0, word_b: w.word1, word_c: w.word2 })
        }
    } else if unit_id == PYLON_ID {
        let a = spec_pointer_seq(sprite_slots, w.word0);
        if a is Err {
            Err(a->Err_0)
        } else {
            Ok(UnitSpecific2::PylonAura { sprite_a: a->Ok_0, word_b: w.word1, word_c: w.word2 })
        }
    } else {
        Ok(UnitSpecific2::Plain2 { word_a: w.word0, word_b: w.word1, word_c: w.word2 })
    }
}

/// The rally / power-grid overlay: pylons store two unit references, every
/// other kind a rally point and one unit reference.
#[derive(Debug, Clone, Copy, PartialEq, Eq, Structural)]
pub enum Rally {
    RallyPylon { unit_a: Option<usize>, unit_b: Option<usize> },
    RallyPoint { x: u16, y: u16, unit: Option<usize> },
}

pub open spec fn spec_rally_matches(unit_id: u16, r: Rally) -> bool {
    if unit_id == PYLON_ID {
        r is RallyPylon
    } else {
        r is RallyPoint
    }
}

pub open spec fn spec_rally_refs_ok(r: Rally) -> bool {
    match r {
        Rally::RallyPylon { unit_a, unit_b } => (unit_a is Some ==> unit_a->Some_0 < UNIT_LIMIT)
            && (unit_b is Some ==> unit_b->Some_0 < UNIT_LIMIT),
        Rally::RallyPoint { unit, .. } => unit is Some ==> unit->Some_0 < UNIT_LIMIT,
    }
}

pub open spec fn spec_rally_to_ser(r: Rally) -> RallySer {
    match r {
        Rally::RallyPylon { unit_a, unit_b } => RallySer {
            val1: spec_unit_to_id(unit_a),
            val2: spec_unit_to_id(unit_b),
            val3: 0u16,
        },
        Rally::RallyPoint { x, y, unit } => RallySer { val1: x, val2: y, val3: spec_unit_to_id(unit) },
    }
}

pub open spec fn spec_rally_from_ser(unit_id: u16, s: RallySer) -> Result<Rally, LoadError> {
    if unit_id == PYLON_ID {
        let a = spec_unit_from_id(s.val1);
        let b = spec_unit_from_id(s.val2);
        if a is Err {
            Err(a->Err_0)
        } else if b is Err {
            Err(b->Err_0)
        } else {
            Ok(Rally::RallyPylon { unit_a: a->Ok_0, unit_b: b->Ok_0 })
        }
    } else {
        let u = spec_unit_from_id(s.val3);
        if u is Err {
            Err(u->Err_0)
        } else {
            Ok(Rally::RallyPoint { x: s.val1, y: s.val2, unit: u->Ok_0 })
        }
    }
}

/// Serializes the first overlay, replacing each reference the variant
/// carries with its absolute unit id.
pub fn us_to_words(sp: &UnitSpecific) -> (r: UnitSpecificWords)
    requires
        spec_us_refs_ok(*sp),
    ensures
        r == spec_us_to_words(*sp),
{
    match sp {
        UnitSpecific::Hangar { unit_a, unit_b, word_c, word_d } => UnitSpecificWords {
            word0: unit_to_id(*unit_a) as u32,
            word1: unit_to_id(*unit_b) as u32,
            word2: *word_c,
            word3: *word_d,
        },
        UnitSpecific::Carried { unit_a, unit_b, unit_c, word_d } => UnitSpecificWords {
            word0: unit_to_id(*unit_a) as u32,
            word1: unit_to_id(*unit_b) as u32,
            word2: unit_to_id(*unit_c) as u32,
            word3: *word_d,
        },
        UnitSpecific::Building { unit_a, word_b, word_c, word_d } => UnitSpecificWords {
            word0: unit_to_id(*unit_a) as u32,
            word1: *word_b,
            word2: *word_c,
            word3: *word_d,
        },
        UnitSpecific::Worker { unit_a, word_b, unit_c, word_d } => UnitSpecificWords {
            word0: unit_to_id(*unit_a) as u32,
            word1: *word_b,
            word2: unit_to_id(*unit_c) as u32,
            word3: *word_d,
        },
        UnitSpecific::Plain { word_a, word_b, word_c, word_d } => UnitSpecificWords {
            word0: *word_a,
            word1: *word_b,
            word2: *word_c,
            word3: *word_d,
        },
    }
}

/// Rebuilds the first overlay, choosing the layout from the unit's
/// discriminants and validating each embedded id.
pub fn us_from_words(
    unit_id: u16,
    building: bool,
    flags: &Vec<u32>,
    w: &UnitSpecificWords,
) -> (r: Result<UnitSpecific, LoadError>)
    ensures
        r == spec_us_from_words(unit_id, building, flags@, *w),
{
    if has_hangar(unit_id) {
        let a = match unit_from_id32(w.word0) {
            Ok(v) => v,
            Err(e) => {
                return Err(e);
            },
        };
        let b = match unit_from_id32(w.word1) {
            Ok(v) => v,
            Err(e) => {
                return Err(e);
            },
        };
        Ok(UnitSpecific::Hangar { unit_a: a, unit_b: b, word_c: w.word2, word_d: w.word3 })
    } else if unit_id == INTERCEPTOR_ID || unit_id == SCARAB_ID {
        let a = match unit_from_id32(w.word0) {
            Ok(v) => v,
            Err(e) => {
                return Err(e);
            },
        };
        let b = match unit_from_id32(w.word1) {
            Ok(v) => v,
            Err(e) => {
                return Err(e);
            },
        };
        let c = match unit_from_id32(w.word2) {
            Ok(v) => v,
            Err(e) => {
                return Err(e);
            },
        };
        Ok(UnitSpecific::Carried { unit_a: a, unit_b: b, unit_c: c, word_d: w.word3 })
    } else if building {
        let a = match unit_from_id32(w.word0) {
            Ok(v) => v,
            Err(e) => {
                return Err(e);
            },
        };
        Ok(UnitSpecific::Building { unit_a: a, word_b: w.word1, word_c: w.word2, word_d: w.word3 })
    } else if is_worker(unit_id, flags) {
        let a = match unit_from_id32(w.word0) {
            Ok(v) => v,
            Err(e) => {
                return Err(e);
            },
        };
        let c = match unit_from_id32(w.word2) {
            Ok(v) => v,
            Err(e) => {
                return Err(e);
            },
        };
        Ok(UnitSpecific::Worker { unit_a: a, word_b: w.word1, unit_c: c, word_d: w.word3 })
    } else {
        Ok(UnitSpecific::Plain { word_a: w.word0, word_b: w.word1, word_c: w.word2, word_d: w.word3 })
    }
}

/// Serializes the second overlay; the nuclear-strike marker goes through
/// the lone-sprite directory and the pylon aura through the sprite
/// directory of this save.
pub fn us2_to_words(sp: &UnitSpecific2, lone: &SaveMapping, sprites: &SaveMapping) -> (r: Result<
    UnitSpecific2Words,
    SaveError,
>)
    requires
        spec_us2_refs_ok(*sp),
    ensures
        r == spec_us2_to_words(*sp, lone@, sprites@),
{
    match sp {
        UnitSpecific2::Resource { word_a, unit_b, word_c } => Ok(UnitSpecific2Words {
            word0: *word_a,
            word1: unit_to_id(*unit_b) as u32,
            word2: *word_c,
        }),
        UnitSpecific2::Powerup { word_a, unit_b, word_c } => Ok(UnitSpecific2Words {
            word0: *word_a,
            word1: unit_to_id(*unit_b) as u32,
            word2: *word_c,
        }),
        UnitSpecific2::WorkerLinks { unit_a, unit_b, unit_c } => Ok(UnitSpecific2Words {
            word0: unit_to_id(*unit_a) as u32,
            word1: unit_to_id(*unit_b) as u32,
            word2: unit_to_id(*unit_c) as u32,
        }),
        UnitSpecific2::Silo { unit_a, word_b, word_c } => Ok(UnitSpecific2Words {
            word0: unit_to_id(*unit_a) as u32,
            word1: *word_b,
            word2: *word_c,
        }),
        UnitSpecific2::GhostMarker { lone_a, word_b, word_c } => {
            let id = match lone.id(*lone_a) {
                Ok(v) => v,
                Err(e) => {
                    return Err(e);
                },
            };
            Ok(UnitSpecific2Words { word0: id, word1: *word_b, word2: *word_c })
        },
        UnitSpecific2::PylonAura { sprite_a, word_b, word_c } => {
            let id = match sprites.id(*sprite_a) {
                Ok(v) => v,
                Err(e) => {
                    return Err(e);
                },
            };
            Ok(UnitSpecific2Words { word0: id, word1: *word_b, word2: *word_c })
        },
        UnitSpecific2::Plain2 { word_a, word_b, word_c } => Ok(UnitSpecific2Words {
            word0: *word_a,
            word1: *word_b,
            word2: *word_c,
        }),
    }
}

/// Rebuilds the second overlay from the unit's discriminants, resolving
/// the marker and aura ids through the load directories of this load.
pub fn us2_from_words(
    unit_id: u16,
    flags: &Vec<u32>,
    w: &UnitSpecific2Words,
    lone: &LoadMapping,
    sprites: &LoadMapping,
) -> (r: Result<UnitSpecific2, LoadError>)
    ensures
        r == spec_us2_from_words(unit_id, flags@, *w, lone@, sprites@),
{
    if is_resource(unit_id) {
        let b = match unit_from_id32(w.word1) {
            Ok(v) => v,
            Err(e) => {
                return Err(e);
            },
        };
        Ok(UnitSpecific2::Resource { word_a: w.word0, unit_b: b, word_c: w.word2 })
    } else if is_powerup(unit_id, flags) {
        let b = match unit_from_id32(w.word1) {
            Ok(v) => v,
            Err(e) => {
                return Err(e);
            },
        };
        Ok(UnitSpecific2::Powerup { word_a: w.word0, unit_b: b, word_c: w.word2 })
    } else if is_worker(unit_id, flags) {
        let a = match unit_from_id32(w.word0) {
            Ok(v) => v,
            Err(e) => {
                return Err(e);
            },
        };
        let b = match unit_from_id32(w.word1) {
            Ok(v) => v,
            Err(e) => {
                return Err(e);
            },
        };
        let c = match unit_from_id32(w.word2) {
            Ok(v) => v,
            Err(e) => {
                return Err(e);
            },
        };
        Ok(UnitSpecific2::WorkerLinks { unit_a: a, unit_b: b, unit_c: c })
    } else if unit_id == NUCLEAR_SILO_ID {
        let a = match unit_from_id32(w.word0) {
            Ok(v) => v,
            Err(e) => {
                return Err(e);
            },
        };
        Ok(UnitSpecific2::Silo { unit_a: a, word_b: w.word1, word_c: w.word2 })
    } else if unit_id == GHOST_ID {
        let a = match lone.pointer(w.word0) {
            Ok(v) => v,
            Err(e) => {
                return Err(e);
            },
        };
        Ok(UnitSpecific2::GhostMarker { lone_a: a, word_b: w.word1, word_c: w.word2 })
    } else if unit_id == PYLON_ID {
        let a = match sprites.pointer(w.word0) {
            Ok(v) => v,
            Err(e) => {
                return Err(e);
            },
        };
        Ok(UnitSpecific2::PylonAura { sprite_a: a, word_b: w.word1, word_c: w.word2 })
    } else {
        Ok(UnitSpecific2::Plain2 { word_a: w.word0, word_b: w.word1, word_c: w.word2 })
    }
}

/// Serializes the rally overlay.
pub fn rally_to_ser(r: &Rally) -> (res: RallySer)
    requires
        spec_rally_refs_ok(*r),
    ensures
        res == spec_rally_to_ser(*r),
{
    match r {
        Rally::RallyPylon { unit_a, unit_b } => RallySer {
            val1: unit_to_id(*unit_a),
            val2: unit_to_id(*unit_b),
            val3: 0,
        },
        Rally::RallyPoint { x, y, unit } => RallySer { val1: *x, val2: *y, val3: unit_to_id(*unit) },
    }
}

/// Rebuilds the rally overlay by the unit's kind, validating each id.
pub fn rally_from_ser(unit_id: u16, s: &RallySer) -> (r: Result<Rally, LoadError>)
    ensures
        r == spec_rally_from_ser(unit_id, *s),
{
    if unit_id == PYLON_ID {
        let a = match unit_from_id(s.val1) {
            Ok(v) => v,
            Err(e) => {
                return Err(e);
            },
        };
        let b = match unit_from_id(s.val2) {
            Ok(v) => v,
            Err(e) => {
                return Err(e);
            },
        };
        Ok(Rally::RallyPylon { unit_a: a, unit_b: b })
    } else {
        let u = match unit_from_id(s.val3) {
            Ok(v) => v,
            Err(e) => {
                return Err(e);
            },
        };
        Ok(Rally::RallyPoint { x: s.val1, y: s.val2, unit: u })
    }
}

/// Overlay round trips: a well-formed overlay whose variant matches the
/// unit's discriminants is rebuilt exactly by the load of what the save
/// wrote, for every capability class.
pub proof fn lemma_overlays_round_trip(
    unit_id: u16,
    building: bool,
    flags: Seq<u32>,
    sp: UnitSpecific,
    sp2: UnitSpecific2,
    r: Rally,
    lone_ids: Seq<u32>,
    sprite_ids: Seq<u32>,
    lone_slots: Seq<usize>,
    sprite_slots: Seq<usize>,
)
    requires
        spec_us_refs_ok(sp),
        spec_us_matches(unit_id, building, flags, sp),
        spec_us2_refs_ok(sp2),
        spec_us2_matches(unit_id, flags, sp2),
        spec_rally_refs_ok(r),
        spec_rally_matches(unit_id, r),
        spec_us2_to_words(sp2, lone_ids, sprite_ids) is Ok,
        maps_inverse(lone_ids, lone_slots),
        maps_inverse(sprite_ids, sprite_slots),
    ensures
        spec_us_from_words(unit_id, building, flags, spec_us_to_words(sp)) == Ok::<
            UnitSpecific,
            LoadError,
        >(sp),
        spec_us2_from_words(
            unit_id,
            flags,
            spec_us2_to_words(sp2, lone_ids, sprite_ids)->Ok_0,
            lone_slots,
            sprite_slots,
        ) == Ok::<UnitSpecific2, LoadError>(sp2),
        spec_rally_from_ser(unit_id, spec_rally_to_ser(r)) == Ok::<Rally, LoadError>(r),
{
    match sp {
        UnitSpecific::Hangar { unit_a, unit_b, .. } => {
            lemma_unit_id32_round_trip(unit_a);
            lemma_unit_id32_round_trip(unit_b);
        },
        UnitSpecific::Carried { unit_a, unit_b, unit_c, .. } => {
            lemma_unit_id32_round_trip(unit_a);
            lemma_unit_id32_round_trip(unit_b);
            lemma_unit_id32_round_trip(unit_c);
        },
        UnitSpecific::Building { unit_a, .. } => {
            lemma_unit_id32_round_trip(unit_a);
        },
        UnitSpecific::Worker { unit_a, unit_c, .. } => {
            lemma_unit_id32_round_trip(unit_a);
            lemma_unit_id32_round_trip(unit_c);
        },
        UnitSpecific::Plain { .. } => {},
    }
    match sp2 {
        UnitSpecific2::Resource { unit_b, .. } => {
            lemma_unit_id32_round_trip(unit_b);
        },
        UnitSpecific2::Powerup { unit_b, .. } => {
            lemma_unit_id32_round_trip(unit_b);
        },
        UnitSpecific2::WorkerLinks { unit_a, unit_b, unit_c } => {
            lemma_unit_id32_round_trip(unit_a);
            lemma_unit_id32_round_trip(unit_b);
            lemma_unit_id32_round_trip(unit_c);
        },
        UnitSpecific2::Silo { unit_a, .. } => {
            lemma_unit_id32_round_trip(unit_a);
        },
        UnitSpecific2::GhostMarker { lone_a, .. } => {
            if lone_a is Some {
                assert(spec_id_seq(lone_ids, lone_a) is Ok);
            }
        },
        UnitSpecific2::PylonAura { sprite_a, .. } => {
            if sprite_a is Some {
                assert(spec_id_seq(sprite_ids, sprite_a) is Ok);
            }
        },
        UnitSpecific2::Plain2 { .. } => {},
    }
    match r {
        Rally::RallyPylon { unit_a, unit_b } => {
            lemma_table_ids_round_trip(unit_a);
            lemma_table_ids_round_trip(unit_b);
        },
        Rally::RallyPoint { unit, .. } => {
            lemma_table_ids_round_trip(unit);
        },
    }
}

/// A 32-bit unit id resolves back to the reference it was written for.
pub proof fn lemma_unit_id32_round_trip(r: Option<usize>)
    requires
        r is Some ==> r->Some_0 < UNIT_LIMIT,
    ensures
        spec_unit_from_id32(spec_unit_to_id32(r)) == Ok::<Option<usize>, LoadError>(r),
{
}

/// The live spell state of one unit; `irradiated_by` is a unit reference.
#[derive(Debug, Clone, Copy, PartialEq, Eq, Structural)]
pub struct UnitSpells {
    pub death_timer: u16,
    pub defensive_matrix_dmg: u16,
    pub matrix_timer: u8,
    pub stim_timer: u8,
    pub ensnare_timer: u8,
    pub lockdown_timer: u8,
    pub irradiate_timer: u8,
    pub stasis_timer: u8,
    pub plague_timer: u8,
    pub is_under_storm: u8,
    pub irradiated_by: Option<usize>,
    pub irradiate_player: u8,
    pub parasited_by_players: u8,
    pub master_spell_timer: u8,
    pub is_blind: u8,
    pub maelstrom_timer: u8,
    pub unk125: u8,
    pub acid_spore_count: u8,
    pub acid_spore_timer0: u8,
    pub acid_spore_timer1: u8,
    pub acid_spore_timer2: u8,
    pub acid_spore_timer3: u8,
    pub acid_spore_timer4: u8,
    pub acid_spore_timer5: u8,
    pub acid_spore_timer6: u8,
    pub acid_spore_timer7: u8,
    pub acid_spore_timer8: u8,
}

/// A live simulation unit. Every reference field is a slot: into the unit
/// array, the order table, the path array, or the sprite pools through the
/// shared entity fields and the overlays.
#[derive(Debug, Clone, Copy, PartialEq, Eq, Structural)]
pub struct Unit {
    pub entity: Entity,
    pub shields: i32,
    pub unit_id: u16,
    pub unused66: u16,
    pub highlight_order_count: u8,
    pub order_wait: u8,
    pub unk86: u8,
    pub attack_notify_timer: u8,
    pub previous_unit_id: u16,
    pub minimap_draw_counter: u8,
    pub minimap_draw_color: u8,
    pub unused8c: u16,
    pub rank: u8,
    pub kills: u8,
    pub last_attacking_player: u8,
    pub secondary_order_wait: u8,
    pub ai_spell_flags: u8,
    pub order_flags: u8,
    pub buttons: u16,
    pub invisibility_effects: u8,
    pub movement_state: u8,
    pub energy: u16,
    pub current_build_slot: u8,
    pub minor_unique_index: u8,
    pub secondary_order: u8,
    pub building_overlay_state: u8,
    pub build_hp_gain: u16,
    pub build_shield_gain: u16,
    pub remaining_build_time: u16,
    pub previous_hp: u16,
    pub next_player_unit: Option<usize>,
    pub prev_player_unit: Option<usize>,
    pub subunit: Option<usize>,
    pub previous_attacker: Option<usize>,
    pub related: Option<usize>,
    pub order_queue_begin: Option<usize>,
    pub order_queue_end: Option<usize>,
    pub build_queue: BuildQueue,
    pub loaded_units: LoadedUnits,
    pub unit_specific: UnitSpecific,
    pub unit_specific2: UnitSpecific2,
    pub flags: u32,
    pub carried_powerup_flags: u8,
    pub wireframe_seed: u8,
    pub secondary_order_state: u8,
    pub move_target_update_timer: u8,
    pub detection_status: u32,
    pub unke8: u16,
    pub unkea: u16,
    pub path_frame: u8,
    pub pathing_flags: u8,
    pub unk106: u8,
    pub unk107: u8,
    pub bullet_spread_seed: u16,
    pub air_strength: u16,
    pub ground_strength: u16,
    pub pos_search_left: u32,
    pub pos_search_right: u32,
    pub pos_search_top: u32,
    pub pos_search_bottom: u32,
    pub currently_building: Option<usize>,
    pub next_invisible: Option<usize>,
    pub prev_invisible: Option<usize>,
    pub rally_pylon: Rally,
    pub path: Option<usize>,
    pub collision_points: CollisionPoints,
    pub spells: UnitSpells,
    pub ai: UnitAiRef,
    pub repulse: Repulse,
}

/// Every reference of the unit lies inside its table and the tagged
/// overlays carry valid references: the invariant of the host image the
/// save relies on.
pub open spec fn spec_unit_refs_ok(u: Unit) -> bool {
    &&& entity_unit_refs_ok(u.entity)
    &&& (u.entity.prev is Some ==> u.entity.prev->Some_0 < UNIT_LIMIT)
    &&& (u.entity.next is Some ==> u.entity.next->Some_0 < UNIT_LIMIT)
    &&& (u.next_player_unit is Some ==> u.next_player_unit->Some_0 < UNIT_LIMIT)
    &&& (u.prev_player_unit is Some ==> u.prev_player_unit->Some_0 < UNIT_LIMIT)
    &&& (u.subunit is Some ==> u.subunit->Some_0 < UNIT_LIMIT)
    &&& (u.previous_attacker is Some ==> u.previous_attacker->Some_0 < UNIT_LIMIT)
    &&& (u.related is Some ==> u.related->Some_0 < UNIT_LIMIT)
    &&& (u.currently_building is Some ==> u.currently_building->Some_0 < UNIT_LIMIT)
    &&& (u.next_invisible is Some ==> u.next_invisible->Some_0 < UNIT_LIMIT)
    &&& (u.prev_invisible is Some ==> u.prev_invisible->Some_0 < UNIT_LIMIT)
    &&& (u.order_queue_begin is Some ==> u.order_queue_begin->Some_0 < ORDER_LIMIT)
    &&& (u.order_queue_end is Some ==> u.order_queue_end->Some_0 < ORDER_LIMIT)
    &&& (u.path is Some ==> u.path->Some_0 < 0xffff)
    &&& spec_us_refs_ok(u.unit_specific)
    &&& spec_us2_refs_ok(u.unit_specific2)
    &&& spec_rally_refs_ok(u.rally_pylon)
    &&& (u.spells.irradiated_by is Some ==> u.spells.irradiated_by->Some_0 < UNIT_LIMIT)
    &&& spec_ai_ok(u.ai)
}

/// The unit's overlay variants agree with its discriminants: what the
/// host's configuration says the byte ranges mean is what they hold.
pub open spec fn spec_unit_class_ok(u: Unit, flags: Seq<u32>) -> bool {
    &&& spec_us_matches(u.unit_id, u.flags & 0x2 != 0, flags, u.unit_specific)
    &&& spec_us2_matches(u.unit_id, flags, u.unit_specific2)
    &&& spec_rally_matches(u.unit_id, u.rally_pylon)
}

/// How a unit-kind entity resolves its own links: absolutely, by unit
/// array slot.
pub open spec fn spec_unit_ptr_to_id(r: Option<usize>) -> Result<u32, SaveError> {
    match r {
        None => Ok(0u32),
        Some(i) => if i < UNIT_LIMIT {
            Ok((i + 1) as u32)
        } else {
            Err(SaveError::InvalidPointer)
        },
    }
}

/// Unit-kind resolution of the shared entity fields.
pub struct ConvertUnits;

impl SaveEntityPointer for ConvertUnits {
    open spec fn spec_pointer_to_id(&self, r: Option<usize>) -> Result<u32, SaveError> {
        spec_unit_ptr_to_id(r)
    }

    fn pointer_to_id(&self, r: Option<usize>) -> (res: Result<u32, SaveError>) {
        match r {
            None => Ok(0),
            Some(i) => if i < UNIT_LIMIT {
                Ok((i + 1) as u32)
            } else {
                Err(SaveError::InvalidPointer)
            },
        }
    }
}

impl LoadEntityPointer for ConvertUnits {
    open spec fn spec_id_to_pointer(&self, id: u32) -> Result<Option<usize>, LoadError> {
        spec_unit_from_id32(id)
    }

    fn id_to_pointer(&self, id: u32) -> (res: Result<Option<usize>, LoadError>) {
        if id == 0 {
            Ok(None)
        } else if id <= UNIT_LIMIT as u32 {
            Ok(Some((id - 1) as usize))
        } else {
            Err(LoadError::Corrupted(id))
        }
    }
}

/// The record the shared entity fields of a unit serialize to.
pub open spec fn spec_entity_to_ser_u(e: Entity, sprite_ids: Seq<u32>) -> Result<
    EntitySerializable,
    SaveError,
> {
    let prev = spec_unit_ptr_to_id(e.prev);
    let next = spec_unit_ptr_to_id(e.next);
    let sprite = spec_id_seq(sprite_ids, e.sprite);
    if prev is Err {
        Err(prev->Err_0)
    } else if next is Err {
        Err(next->Err_0)
    } else if sprite is Err {
        Err(sprite->Err_0)
    } else {
        Ok(spec_entity_ser_fields(e, prev->Ok_0, next->Ok_0, sprite->Ok_0))
    }
}

/// The shared entity fields a unit record deserializes to.
pub open spec fn spec_entity_from_ser_u(s: EntitySerializable, sprite_slots: Seq<usize>) -> Result<
    Entity,
    LoadError,
> {
    let prev = spec_unit_from_id32(s.prev);
    let next = spec_unit_from_id32(s.next);
    let sprite = spec_pointer_seq(sprite_slots, s.sprite);
    let mtu = spec_unit_from_id(s.move_target_unit);
    let target = spec_unit_from_id(s.target);
    if prev is Err {
        Err(prev->Err_0)
    } else if next is Err {
        Err(next->Err_0)
    } else if sprite is Err {
        Err(sprite->Err_0)
    } else if mtu is Err {
        Err(mtu->Err_0)
    } else if target is Err {
        Err(target->Err_0)
    } else {
        Ok(spec_entity_fields(s, prev->Ok_0, next->Ok_0, sprite->Ok_0, mtu->Ok_0, target->Ok_0))
    }
}


/// The record a unit serializes to, or the first resolution error: the
/// shared entity fields first, then the second overlay.
pub open spec fn spec_unit_to_ser_v(u: Unit, sprite_ids: Seq<u32>, lone_ids: Seq<u32>) -> Result<
    UnitSer,
    SaveError,
> {
    let entity = spec_entity_to_ser_u(u.entity, sprite_ids);
    let us2 = spec_us2_to_words(u.unit_specific2, lone_ids, sprite_ids);
    if entity is Err {
        Err(entity->Err_0)
    } else if us2 is Err {
        Err(us2->Err_0)
    } else {
        Ok(UnitSer {
            a: UnitSerA {
                entity: entity->Ok_0,
                shields: u.shields,
                unit_id: u.unit_id,
                unused66: u.unused66,
                highlight_order_count: u.highlight_order_count,
                order_wait: u.order_wait,
                unk86: u.unk86,
                attack_notify_timer: u.attack_notify_timer,
                previous_unit_id: u.previous_unit_id,
                minimap_draw_counter: u.minimap_draw_counter,
                minimap_draw_color: u.minimap_draw_color,
                unused8c: u.unused8c,
                rank: u.rank,
                kills: u.kills,
                last_attacking_player: u.last_attacking_player,
                secondary_order_wait: u.secondary_order_wait,
                ai_spell_flags: u.ai_spell_flags,
                order_flags: u.order_flags,
                buttons: u.buttons,
                invisibility_effects: u.invisibility_effects,
                movement_state: u.movement_state,
                energy: u.energy,
                current_build_slot: u.current_build_slot,
                minor_unique_index: u.minor_unique_index,
                secondary_order: u.secondary_order,
                building_overlay_state: u.building_overlay_state,
                build_hp_gain: u.build_hp_gain,
                build_shield_gain: u.build_shield_gain,
                remaining_build_time: u.remaining_build_time,
                previous_hp: u.previous_hp,
                next_player_unit: spec_unit_to_id(u.next_player_unit),
                prev_player_unit: spec_unit_to_id(u.prev_player_unit),
                subunit: spec_unit_to_id(u.subunit),
                previous_attacker: spec_unit_to_id(u.previous_attacker),
                related: spec_unit_to_id(u.related),
                order_queue_begin: spec_order_to_id(u.order_queue_begin),
                order_queue_end: spec_order_to_id(u.order_queue_end),
                build_queue: u.build_queue,
                loaded_units: u.loaded_units,
            },
            b: UnitSerB {
                unit_specific: spec_us_to_words(u.unit_specific),
                unit_specific2: us2->Ok_0,
                flags: u.flags,
                carried_powerup_flags: u.carried_powerup_flags,
                wireframe_seed: u.wireframe_seed,
                secondary_order_state: u.secondary_order_state,
                move_target_update_timer: u.move_target_update_timer,
                detection_status: u.detection_status,
                unke8: u.unke8,
                unkea: u.unkea,
                path_frame: u.path_frame,
                pathing_flags: u.pathing_flags,
                unk106: u.unk106,
                unk107: u.unk107,
                bullet_spread_seed: u.bullet_spread_seed,
                air_strength: u.air_strength,
                ground_strength: u.ground_strength,
                pos_search_left: u.pos_search_left,
                pos_search_right: u.pos_search_right,
                pos_search_top: u.pos_search_top,
                pos_search_bottom: u.pos_search_bottom,
                currently_building: spec_unit_to_id(u.currently_building),
                next_invisible: spec_unit_to_id(u.next_invisible),
                prev_invisible: spec_unit_to_id(u.prev_invisible),
                rally_pylon: spec_rally_to_ser(u.rally_pylon),
                path: spec_path_to_id(u.path),
                collision_points: u.collision_points,
                spells: UnitSpellsSer {
                    death_timer: u.spells.death_timer,
                    defensive_matrix_dmg: u.spells.defensive_matrix_dmg,
                    matrix_timer: u.spells.matrix_timer,
                    stim_timer: u.spells.stim_timer,
                    ensnare_timer: u.spells.ensnare_timer,
                    lockdown_timer: u.spells.lockdown_timer,
                    irradiate_timer: u.spells.irradiate_timer,
                    stasis_timer: u.spells.stasis_timer,
                    plague_timer: u.spells.plague_timer,
                    is_under_storm: u.spells.is_under_storm,
                    irradiated_by: spec_unit_to_id(u.spells.irradiated_by),
                    irradiate_player: u.spells.irradiate_player,
                    parasited_by_players: u.spells.parasited_by_players,
                    master_spell_timer: u.spells.master_spell_timer,
                    is_blind: u.spells.is_blind,
                    maelstrom_timer: u.spells.maelstrom_timer,
                    unk125: u.spells.unk125,
                    acid_spore_count: u.spells.acid_spore_count,
                    acid_spore_timer0: u.spells.acid_spore_timer0,
                    acid_spore_timer1: u.spells.acid_spore_timer1,
                    acid_spore_timer2: u.spells.acid_spore_timer2,
                    acid_spore_timer3: u.spells.acid_spore_timer3,
                    acid_spore_timer4: u.spells.acid_spore_timer4,
                    acid_spore_timer5: u.spells.acid_spore_timer5,
                    acid_spore_timer6: u.spells.acid_spore_timer6,
                    acid_spore_timer7: u.spells.acid_spore_timer7,
                    acid_spore_timer8: u.spells.acid_spore_timer8,
                },
                ai: spec_ai_to_ser(u.ai),
                repulse: u.repulse,
            },
        })
    }
}

/// The unit a record deserializes to, or the first id that does not
/// resolve, in the order the fields are rebuilt.
pub open spec fn spec_unit_from_ser_v(
    s: UnitSer,
    sprite_slots: Seq<usize>,
    lone_slots: Seq<usize>,
    flags: Seq<u32>,
) -> Result<Unit, LoadError> {
    let entity = spec_entity_from_ser_u(s.a.entity, sprite_slots);
    let next_player_unit = spec_unit_from_id(s.a.next_player_unit);
    let prev_player_unit = spec_unit_from_id(s.a.prev_player_unit);
    let subunit = spec_unit_from_id(s.a.subunit);
    let previous_attacker = spec_unit_from_id(s.a.previous_attacker);
    let related = spec_unit_from_id(s.a.related);
    let order_queue_begin = spec_order_from_id(s.a.order_queue_begin);
    let order_queue_end = spec_order_from_id(s.a.order_queue_end);
    let us = spec_us_from_words(s.a.unit_id, s.b.flags & 0x2 != 0, flags, s.b.unit_specific);
    let us2 = spec_us2_from_words(s.a.unit_id, flags, s.b.unit_specific2, lone_slots, sprite_slots);
    let currently_building = spec_unit_from_id(s.b.currently_building);
    let next_invisible = spec_unit_from_id(s.b.next_invisible);
    let prev_invisible = spec_unit_from_id(s.b.prev_invisible);
    let rally = spec_rally_from_ser(s.a.unit_id, s.b.rally_pylon);
    let path = spec_path_from_id(s.b.path);
    let irradiated_by = spec_unit_from_id(s.b.spells.irradiated_by);
    let ai = spec_ai_from_ser(s.b.ai);
    if entity is Err {
        Err(entity->Err_0)
    }
    else if next_player_unit is Err {
        Err(next_player_unit->Err_0)
    }
    else if prev_player_unit is Err {
        Err(prev_player_unit->Err_0)
    }
    else if subunit is Err {
        Err(subunit->Err_0)
    }
    else if previous_attacker is Err {
        Err(previous_attacker->Err_0)
    }
    else if related is Err {
        Err(related->Err_0)
    }
    else if order_queue_begin is Err {
        Err(order_queue_begin->Err_0)
    }
    else if order_queue_end is Err {
        Err(order_queue_end->Err_0)
    }
    else if us is Err {
        Err(us->Err_0)
    } else if us2 is Err {
        Err(us2->Err_0)
    }
    else if currently_building is Err {
        Err(currently_building->Err_0)
    }
    else if next_invisible is Err {
        Err(next_invisible->Err_0)
    }
    else if prev_invisible is Err {
        Err(prev_invisible->Err_0)
    }
    else if rally is Err {
        Err(rally->Err_0)
    } else if path is Err {
        Err(path->Err_0)
    } else if irradiated_by is Err {
        Err(irradiated_by->Err_0)
    } else if ai is Err {
        Err(ai->Err_0)
    } else {
        Ok(Unit {
            entity: entity->Ok_0,
            shields: s.a.shields,
            unit_id: s.a.unit_id,
            unused66: s.a.unused66,
            highlight_order_count: s.a.highlight_order_count,
            order_wait: s.a.order_wait,
            unk86: s.a.unk86,
            attack_notify_timer: s.a.attack_notify_timer,
            previous_unit_id: s.a.previous_unit_id,
            minimap_draw_counter: s.a.minimap_draw_counter,
            minimap_draw_color: s.a.minimap_draw_color,
            unused8c: s.a.unused8c,
            rank: s.a.rank,
            kills: s.a.kills,
            last_attacking_player: s.a.last_attacking_player,
            secondary_order_wait: s.a.secondary_order_wait,
            ai_spell_flags: s.a.ai_spell_flags,
            order_flags: s.a.order_flags,
            buttons: s.a.buttons,
            invisibility_effects: s.a.invisibility_effects,
            movement_state: s.a.movement_state,
            energy: s.a.energy,
            current_build_slot: s.a.current_build_slot,
            minor_unique_index: s.a.minor_unique_index,
            secondary_order: s.a.secondary_order,
            building_overlay_state: s.a.building_overlay_state,
            build_hp_gain: s.a.build_hp_gain,
            build_shield_gain: s.a.build_shield_gain,
            remaining_build_time: s.a.remaining_build_time,
            previous_hp: s.a.previous_hp,
            next_player_unit: next_player_unit->Ok_0,
            prev_player_unit: prev_player_unit->Ok_0,
            subunit: subunit->Ok_0,
            previous_attacker: previous_attacker->Ok_0,
            related: related->Ok_0,
            order_queue_begin: order_queue_begin->Ok_0,
            order_queue_end: order_queue_end->Ok_0,
            build_queue: s.a.build_queue,
            loaded_units: s.a.loaded_units,
            unit_specific: us->Ok_0,
            unit_specific2: us2->Ok_0,
            flags: s.b.flags,
            carried_powerup_flags: s.b.carried_powerup_flags,
            wireframe_seed: s.b.wireframe_seed,
            secondary_order_state: s.b.secondary_order_state,
            move_target_update_timer: s.b.move_target_update_timer,
            detection_status: s.b.detection_status,
            unke8: s.b.unke8,
            unkea: s.b.unkea,
            path_frame: s.b.path_frame,
            pathing_flags: s.b.pathing_flags,
            unk106: s.b.unk106,
            unk107: s.b.unk107,
            bullet_spread_seed: s.b.bullet_spread_seed,
            air_strength: s.b.air_strength,
            ground_strength: s.b.ground_strength,
            pos_search_left: s.b.pos_search_left,
            pos_search_right: s.b.pos_search_right,
            pos_search_top: s.b.pos_search_top,
            pos_search_bottom: s.b.pos_search_bottom,
            currently_building: currently_building->Ok_0,
            next_invisible: next_invisible->Ok_0,
            prev_invisible: prev_invisible->Ok_0,
            rally_pylon: rally->Ok_0,
            path: path->Ok_0,
            collision_points: s.b.collision_points,
            spells: UnitSpells {
                death_timer: s.b.spells.death_timer,
                defensive_matrix_dmg: s.b.spells.defensive_matrix_dmg,
                matrix_timer: s.b.spells.matrix_timer,
                stim_timer: s.b.spells.stim_timer,
                ensnare_timer: s.b.spells.ensnare_timer,
                lockdown_timer: s.b.spells.lockdown_timer,
                irradiate_timer: s.b.spells.irradiate_timer,
                stasis_timer: s.b.spells.stasis_timer,
                plague_timer: s.b.spells.plague_timer,
                is_under_storm: s.b.spells.is_under_storm,
                irradiated_by: irradiated_by->Ok_0,
                irradiate_player: s.b.spells.irradiate_player,
                parasited_by_players: s.b.spells.parasited_by_players,
                master_spell_timer: s.b.spells.master_spell_timer,
                is_blind: s.b.spells.is_blind,
                maelstrom_timer: s.b.spells.maelstrom_timer,
                unk125: s.b.spells.unk125,
                acid_spore_count: s.b.spells.acid_spore_count,
                acid_spore_timer0: s.b.spells.acid_spore_timer0,
                acid_spore_timer1: s.b.spells.acid_spore_timer1,
                acid_spore_timer2: s.b.spells.acid_spore_timer2,
                acid_spore_timer3: s.b.spells.acid_spore_timer3,
                acid_spore_timer4: s.b.spells.acid_spore_timer4,
                acid_spore_timer5: s.b.spells.acid_spore_timer5,
                acid_spore_timer6: s.b.spells.acid_spore_timer6,
                acid_spore_timer7: s.b.spells.acid_spore_timer7,
                acid_spore_timer8: s.b.spells.acid_spore_timer8,
            },
            ai: ai->Ok_0,
            repulse: s.b.repulse,
        })
    }
}
/// Resolving the unit-style entity codec through the capability object and
/// through its view agree.
pub proof fn lemma_entity_u_views(e: Entity, sprites: &SaveMapping)
    ensures
        crate::entity::spec_entity_to_ser(e, &ConvertUnits, sprites) == spec_entity_to_ser_u(
            e,
            sprites@,
        ),
{
}

pub proof fn lemma_entity_u_from_views(s: EntitySerializable, sprites: &LoadMapping)
    ensures
        crate::entity::spec_entity_from_ser(s, &ConvertUnits, sprites) == spec_entity_from_ser_u(
            s,
            sprites@,
        ),
{
}

/// Unit-style entity round trip: absolute links and an inverted sprite
/// directory give the entity back exactly.
pub proof fn lemma_entity_rt_u(e: Entity, sprite_ids: Seq<u32>, sprite_slots: Seq<usize>)
    requires
        entity_unit_refs_ok(e),
        e.prev is Some ==> e.prev->Some_0 < UNIT_LIMIT,
        e.next is Some ==> e.next->Some_0 < UNIT_LIMIT,
        spec_entity_to_ser_u(e, sprite_ids) is Ok,
        maps_inverse(sprite_ids, sprite_slots),
    ensures
        spec_entity_from_ser_u(spec_entity_to_ser_u(e, sprite_ids)->Ok_0, sprite_slots) == Ok::<
            Entity,
            LoadError,
        >(e),
{
    lemma_table_ids_round_trip(e.move_target_unit);
    lemma_table_ids_round_trip(e.target);
    lemma_unit_id32_round_trip(e.prev);
    lemma_unit_id32_round_trip(e.next);
    match e.sprite {
        None => {},
        Some(s) => {
            assert(spec_id_seq(sprite_ids, Some(s)) is Ok);
        },
    }
}


/// Serializes one unit, resolving every reference: list links and unit
/// references absolutely, the sprite and overlay references through the
/// directories of this save, table references as (table, index).
pub fn unit_serializable(u: &Unit, sprites: &SaveMapping, lone: &SaveMapping) -> (r: Result<
    UnitSer,
    SaveError,
>)
    requires
        spec_unit_refs_ok(*u),
    ensures
        r == spec_unit_to_ser_v(*u, sprites@, lone@),
{
    proof {
        lemma_entity_u_views(u.entity, sprites);
    }
    let entity = match entity_serializable(&u.entity, &ConvertUnits, sprites) {
        Ok(v) => v,
        Err(e) => {
            return Err(e);
        },
    };
    let us2 = match us2_to_words(&u.unit_specific2, lone, sprites) {
        Ok(v) => v,
        Err(e) => {
            return Err(e);
        },
    };
    Ok(UnitSer {
        a: UnitSerA {
            entity,
            shields: u.shields,
            unit_id: u.unit_id,
            unused66: u.unused66,
            highlight_order_count: u.highlight_order_count,
            order_wait: u.order_wait,
            unk86: u.unk86,
            attack_notify_timer: u.attack_notify_timer,
            previous_unit_id: u.previous_unit_id,
            minimap_draw_counter: u.minimap_draw_counter,
            minimap_draw_color: u.minimap_draw_color,
            unused8c: u.unused8c,
            rank: u.rank,
            kills: u.kills,
            last_attacking_player: u.last_attacking_player,
            secondary_order_wait: u.secondary_order_wait,
            ai_spell_flags: u.ai_spell_flags,
            order_flags: u.order_flags,
            buttons: u.buttons,
            invisibility_effects: u.invisibility_effects,
            movement_state: u.movement_state,
            energy: u.energy,
            current_build_slot: u.current_build_slot,
            minor_unique_index: u.minor_unique_index,
            secondary_order: u.secondary_order,
            building_overlay_state: u.building_overlay_state,
            build_hp_gain: u.build_hp_gain,
            build_shield_gain: u.build_shield_gain,
            remaining_build_time: u.remaining_build_time,
            previous_hp: u.previous_hp,
            next_player_unit: unit_to_id(u.next_player_unit),
            prev_player_unit: unit_to_id(u.prev_player_unit),
            subunit: unit_to_id(u.subunit),
            previous_attacker: unit_to_id(u.previous_attacker),
            related: unit_to_id(u.related),
            order_queue_begin: order_to_id(u.order_queue_begin),
            order_queue_end: order_to_id(u.order_queue_end),
            build_queue: u.build_queue,
            loaded_units: u.loaded_units,
        },
        b: UnitSerB {
            unit_specific: us_to_words(&u.unit_specific),
            unit_specific2: us2,
            flags: u.flags,
            carried_powerup_flags: u.carried_powerup_flags,
            wireframe_seed: u.wireframe_seed,
            secondary_order_state: u.secondary_order_state,
            move_target_update_timer: u.move_target_update_timer,
            detection_status: u.detection_status,
            unke8: u.unke8,
            unkea: u.unkea,
            path_frame: u.path_frame,
            pathing_flags: u.pathing_flags,
            unk106: u.unk106,
            unk107: u.unk107,
            bullet_spread_seed: u.bullet_spread_seed,
            air_strength: u.air_strength,
            ground_strength: u.ground_strength,
            pos_search_left: u.pos_search_left,
            pos_search_right: u.pos_search_right,
            pos_search_top: u.pos_search_top,
            pos_search_bottom: u.pos_search_bottom,
            currently_building: unit_to_id(u.currently_building),
            next_invisible: unit_to_id(u.next_invisible),
            prev_invisible: unit_to_id(u.prev_invisible),
            rally_pylon: rally_to_ser(&u.rally_pylon),
            path: path_to_id(u.path),
            collision_points: u.collision_points,
            spells: UnitSpellsSer {
                death_timer: u.spells.death_timer,
                defensive_matrix_dmg: u.spells.defensive_matrix_dmg,
                matrix_timer: u.spells.matrix_timer,
                stim_timer: u.spells.stim_timer,
                ensnare_timer: u.spells.ensnare_timer,
                lockdown_timer: u.spells.lockdown_timer,
                irradiate_timer: u.spells.irradiate_timer,
                stasis_timer: u.spells.stasis_timer,
                plague_timer: u.spells.plague_timer,
                is_under_storm: u.spells.is_under_storm,
                irradiated_by: unit_to_id(u.spells.irradiated_by),
                irradiate_player: u.spells.irradiate_player,
                parasited_by_players: u.spells.parasited_by_players,
                master_spell_timer: u.spells.master_spell_timer,
                is_blind: u.spells.is_blind,
                maelstrom_timer: u.spells.maelstrom_timer,
                unk125: u.spells.unk125,
                acid_spore_count: u.spells.acid_spore_count,
                acid_spore_timer0: u.spells.acid_spore_timer0,
                acid_spore_timer1: u.spells.acid_spore_timer1,
                acid_spore_timer2: u.spells.acid_spore_timer2,
                acid_spore_timer3: u.spells.acid_spore_timer3,
                acid_spore_timer4: u.spells.acid_spore_timer4,
                acid_spore_timer5: u.spells.acid_spore_timer5,
                acid_spore_timer6: u.spells.acid_spore_timer6,
                acid_spore_timer7: u.spells.acid_spore_timer7,
                acid_spore_timer8: u.spells.acid_spore_timer8,
            },
            ai: ai_to_ser(&u.ai),
            repulse: u.repulse,
        },
    })
}

/// Rebuilds one unit from its record, validating every id against its
/// table or directory and classifying the overlays by the unit's
/// discriminants.
pub fn deserialize_unit(
    s: &UnitSer,
    sprites: &LoadMapping,
    lone: &LoadMapping,
    flags: &Vec<u32>,
) -> (r: Result<Unit, LoadError>)
    ensures
        r == spec_unit_from_ser_v(*s, sprites@, lone@, flags@),
{
    proof {
        lemma_entity_u_from_views(s.a.entity, sprites);
    }
    let entity = match deserialize_entity(&s.a.entity, &ConvertUnits, sprites) {
        Ok(v) => v,
        Err(e) => {
            return Err(e);
        },
    };
    let next_player_unit = match unit_from_id(s.a.next_player_unit) {
        Ok(v) => v,
        Err(e) => {
            return Err(e);
        },
    };
    let prev_player_unit = match unit_from_id(s.a.prev_player_unit) {
        Ok(v) => v,
        Err(e) => {
            return Err(e);
        },
    };
    let subunit = match unit_from_id(s.a.subunit) {
        Ok(v) => v,
        Err(e) => {
            return Err(e);
        },
    };
    let previous_attacker = match unit_from_id(s.a.previous_attacker) {
        Ok(v) => v,
        Err(e) => {
            return Err(e);
        },
    };
    let related = match unit_from_id(s.a.related) {
        Ok(v) => v,
        Err(e) => {
            return Err(e);
        },
    };
    let order_queue_begin = match order_from_id(s.a.order_queue_begin) {
        Ok(v) => v,
        Err(e) => {
            return Err(e);
        },
    };
    let order_queue_end = match order_from_id(s.a.order_queue_end) {
        Ok(v) => v,
        Err(e) => {
            return Err(e);
        },
    };
    let us = match us_from_words(s.a.unit_id, s.b.flags & 0x2 != 0, flags, &s.b.unit_specific) {
        Ok(v) => v,
        Err(e) => {
            return Err(e);
        },
    };
    let us2 = match us2_from_words(s.a.unit_id, flags, &s.b.unit_specific2, lone, sprites) {
        Ok(v) => v,
        Err(e) => {
            return Err(e);
        },
    };
    let currently_building = match unit_from_id(s.b.currently_building) {
        Ok(v) => v,
        Err(e) => {
            return Err(e);
        },
    };
    let next_invisible = match unit_from_id(s.b.next_invisible) {
        Ok(v) => v,
        Err(e) => {
            return Err(e);
        },
    };
    let prev_invisible = match unit_from_id(s.b.prev_invisible) {
        Ok(v) => v,
        Err(e) => {
            return Err(e);
        },
    };
    let rally = match rally_from_ser(s.a.unit_id, &s.b.rally_pylon) {
        Ok(v) => v,
        Err(e) => {
            return Err(e);
        },
    };
    let path = match path_from_id(s.b.path) {
        Ok(v) => v,
        Err(e) => {
            return Err(e);
        },
    };
    let irradiated_by = match unit_from_id(s.b.spells.irradiated_by) {
        Ok(v) => v,
        Err(e) => {
            return Err(e);
        },
    };
    let ai = match ai_from_ser(&s.b.ai) {
        Ok(v) => v,
        Err(e) => {
            return Err(e);
        },
    };
    Ok(Unit {
        entity,
        shields: s.a.shields,
        unit_id: s.a.unit_id,
        unused66: s.a.unused66,
        highlight_order_count: s.a.highlight_order_count,
        order_wait: s.a.order_wait,
        unk86: s.a.unk86,
        attack_notify_timer: s.a.attack_notify_timer,
        previous_unit_id: s.a.previous_unit_id,
        minimap_draw_counter: s.a.minimap_draw_counter,
        minimap_draw_color: s.a.minimap_draw_color,
        unused8c: s.a.unused8c,
        rank: s.a.rank,
        kills: s.a.kills,
        last_attacking_player: s.a.last_attacking_player,
        secondary_order_wait: s.a.secondary_order_wait,
        ai_spell_flags: s.a.ai_spell_flags,
        order_flags: s.a.order_flags,
        buttons: s.a.buttons,
        invisibility_effects: s.a.invisibility_effects,
        movement_state: s.a.movement_state,
        energy: s.a.energy,
        current_build_slot: s.a.current_build_slot,
        minor_unique_index: s.a.minor_unique_index,
        secondary_order: s.a.secondary_order,
        building_overlay_state: s.a.building_overlay_state,
        build_hp_gain: s.a.build_hp_gain,
        build_shield_gain: s.a.build_shield_gain,
        remaining_build_time: s.a.remaining_build_time,
        previous_hp: s.a.previous_hp,
        next_player_unit,
        prev_player_unit,
        subunit,
        previous_attacker,
        related,
        order_queue_begin,
        order_queue_end,
        build_queue: s.a.build_queue,
        loaded_units: s.a.loaded_units,
        unit_specific: us,
        unit_specific2: us2,
        flags: s.b.flags,
        carried_powerup_flags: s.b.carried_powerup_flags,
        wireframe_seed: s.b.wireframe_seed,
        secondary_order_state: s.b.secondary_order_state,
        move_target_update_timer: s.b.move_target_update_timer,
        detection_status: s.b.detection_status,
        unke8: s.b.unke8,
        unkea: s.b.unkea,
        path_frame: s.b.path_frame,
        pathing_flags: s.b.pathing_flags,
        unk106: s.b.unk106,
        unk107: s.b.unk107,
        bullet_spread_seed: s.b.bullet_spread_seed,
        air_strength: s.b.air_strength,
        ground_strength: s.b.ground_strength,
        pos_search_left: s.b.pos_search_left,
        pos_search_right: s.b.pos_search_right,
        pos_search_top: s.b.pos_search_top,
        pos_search_bottom: s.b.pos_search_bottom,
        currently_building,
        next_invisible,
        prev_invisible,
        rally_pylon: rally,
        path,
        collision_points: s.b.collision_points,
        spells: UnitSpells {
            death_timer: s.b.spells.death_timer,
            defensive_matrix_dmg: s.b.spells.defensive_matrix_dmg,
            matrix_timer: s.b.spells.matrix_timer,
            stim_timer: s.b.spells.stim_timer,
            ensnare_timer: s.b.spells.ensnare_timer,
            lockdown_timer: s.b.spells.lockdown_timer,
            irradiate_timer: s.b.spells.irradiate_timer,
            stasis_timer: s.b.spells.stasis_timer,
            plague_timer: s.b.spells.plague_timer,
            is_under_storm: s.b.spells.is_under_storm,
            irradiated_by,
            irradiate_player: s.b.spells.irradiate_player,
            parasited_by_players: s.b.spells.parasited_by_players,
            master_spell_timer: s.b.spells.master_spell_timer,
            is_blind: s.b.spells.is_blind,
            maelstrom_timer: s.b.spells.maelstrom_timer,
            unk125: s.b.spells.unk125,
            acid_spore_count: s.b.spells.acid_spore_count,
            acid_spore_timer0: s.b.spells.acid_spore_timer0,
            acid_spore_timer1: s.b.spells.acid_spore_timer1,
            acid_spore_timer2: s.b.spells.acid_spore_timer2,
            acid_spore_timer3: s.b.spells.acid_spore_timer3,
            acid_spore_timer4: s.b.spells.acid_spore_timer4,
            acid_spore_timer5: s.b.spells.acid_spore_timer5,
            acid_spore_timer6: s.b.spells.acid_spore_timer6,
            acid_spore_timer7: s.b.spells.acid_spore_timer7,
            acid_spore_timer8: s.b.spells.acid_spore_timer8,
        },
        ai,
        repulse: s.b.repulse,
    })
}

/// Unit round trip, one record. A unit whose references are valid and
/// whose overlay variants match its discriminants — for every capability
/// class: worker, building, hangar-bearing, carried, resource, powerup,
/// silo, ghost, pylon — is rebuilt exactly, every embedded reference
/// typed and resolved as the matching target kind.
#[verifier::rlimit(100)]
#[verifier::spinoff_prover]
pub proof fn lemma_unit_rt_v(
    u: Unit,
    sprite_ids: Seq<u32>,
    lone_ids: Seq<u32>,
    sprite_slots: Seq<usize>,
    lone_slots: Seq<usize>,
    flags: Seq<u32>,
)
    requires
        spec_unit_refs_ok(u),
        spec_unit_class_ok(u, flags),
        spec_unit_to_ser_v(u, sprite_ids, lone_ids) is Ok,
        maps_inverse(sprite_ids, sprite_slots),
        maps_inverse(lone_ids, lone_slots),
    ensures
        spec_unit_from_ser_v(
            spec_unit_to_ser_v(u, sprite_ids, lone_ids)->Ok_0,
            sprite_slots,
            lone_slots,
            flags,
        ) == Ok::<Unit, LoadError>(u),
{
    lemma_entity_rt_u(u.entity, sprite_ids, sprite_slots);
    lemma_overlays_round_trip(
        u.unit_id,
        u.flags & 0x2 != 0,
        flags,
        u.unit_specific,
        u.unit_specific2,
        u.rally_pylon,
        lone_ids,
        sprite_ids,
        lone_slots,
        sprite_slots,
    );
    lemma_ai_round_trip(u.ai);
    lemma_table_ids_round_trip(u.next_player_unit);
    lemma_table_ids_round_trip(u.prev_player_unit);
    lemma_table_ids_round_trip(u.subunit);
    lemma_table_ids_round_trip(u.previous_attacker);
    lemma_table_ids_round_trip(u.related);
    lemma_table_ids_round_trip(u.currently_building);
    lemma_table_ids_round_trip(u.next_invisible);
    lemma_table_ids_round_trip(u.prev_invisible);
    lemma_table_ids_round_trip(u.spells.irradiated_by);
    lemma_table_ids_round_trip(u.order_queue_begin);
    lemma_table_ids_round_trip(u.order_queue_end);
    lemma_table_ids_round_trip(u.path);
}
/// Magic tag of the unit chunk. Each chunk kind carries its own magic, so
/// a chunk of one kind handed to another kind's loader is rejected.
pub const UNIT_SAVE_MAGIC: u16 = 0xffec;

/// Hard ceiling on the unit chunk.
pub const UNIT_SAVE_MAX_SIZE: u32 = 0x1000000;

impl ListNode for Unit {
    open spec fn next_of(&self) -> Option<usize> {
        self.entity.next
    }

    open spec fn prev_of(&self) -> Option<usize> {
        self.entity.prev
    }

    fn next_link(&self) -> (r: Option<usize>) {
        self.entity.next
    }
}

/// The process-wide unit list heads the host reads, as live references.
#[derive(Debug, Clone, Copy, PartialEq, Eq, Structural)]
pub struct UnitGlobals {
    pub first_active: Option<usize>,
    pub last_active: Option<usize>,
    pub first_hidden: Option<usize>,
    pub last_hidden: Option<usize>,
    pub first_dying: Option<usize>,
    pub last_dying: Option<usize>,
    pub first_revealer: Option<usize>,
    pub last_revealer: Option<usize>,
    pub first_free: Option<usize>,
    pub last_free: Option<usize>,
    pub first_invisible: Option<usize>,
    pub player0: Option<usize>,
    pub player1: Option<usize>,
    pub player2: Option<usize>,
    pub player3: Option<usize>,
    pub player4: Option<usize>,
    pub player5: Option<usize>,
    pub player6: Option<usize>,
    pub player7: Option<usize>,
    pub player8: Option<usize>,
    pub player9: Option<usize>,
    pub player10: Option<usize>,
    pub player11: Option<usize>,
}

pub open spec fn spec_unit_globals_refs_ok(g: UnitGlobals) -> bool {
    &&& true
    &&& (g.first_active is Some ==> g.first_active->Some_0 < UNIT_LIMIT)
    &&& (g.last_active is Some ==> g.last_active->Some_0 < UNIT_LIMIT)
    &&& (g.first_hidden is Some ==> g.first_hidden->Some_0 < UNIT_LIMIT)
    &&& (g.last_hidden is Some ==> g.last_hidden->Some_0 < UNIT_LIMIT)
    &&& (g.first_dying is Some ==> g.first_dying->Some_0 < UNIT_LIMIT)
    &&& (g.last_dying is Some ==> g.last_dying->Some_0 < UNIT_LIMIT)
    &&& (g.first_revealer is Some ==> g.first_revealer->Some_0 < UNIT_LIMIT)
    &&& (g.last_revealer is Some ==> g.last_revealer->Some_0 < UNIT_LIMIT)
    &&& (g.first_free is Some ==> g.first_free->Some_0 < UNIT_LIMIT)
    &&& (g.last_free is Some ==> g.last_free->Some_0 < UNIT_LIMIT)
    &&& (g.first_invisible is Some ==> g.first_invisible->Some_0 < UNIT_LIMIT)
    &&& (g.player0 is Some ==> g.player0->Some_0 < UNIT_LIMIT)
    &&& (g.player1 is Some ==> g.player1->Some_0 < UNIT_LIMIT)
    &&& (g.player2 is Some ==> g.player2->Some_0 < UNIT_LIMIT)
    &&& (g.player3 is Some ==> g.player3->Some_0 < UNIT_LIMIT)
    &&& (g.player4 is Some ==> g.player4->Some_0 < UNIT_LIMIT)
    &&& (g.player5 is Some ==> g.player5->Some_0 < UNIT_LIMIT)
    &&& (g.player6 is Some ==> g.player6->Some_0 < UNIT_LIMIT)
    &&& (g.player7 is Some ==> g.player7->Some_0 < UNIT_LIMIT)
    &&& (g.player8 is Some ==> g.player8->Some_0 < UNIT_LIMIT)
    &&& (g.player9 is Some ==> g.player9->Some_0 < UNIT_LIMIT)
    &&& (g.player10 is Some ==> g.player10->Some_0 < UNIT_LIMIT)
    &&& (g.player11 is Some ==> g.player11->Some_0 < UNIT_LIMIT)
}

pub open spec fn spec_unit_globals_to_ser(g: UnitGlobals) -> UnitGlobalsSer {
    UnitGlobalsSer {
        first_active: spec_unit_to_id(g.first_active),
        last_active: spec_unit_to_id(g.last_active),
        first_hidden: spec_unit_to_id(g.first_hidden),
        last_hidden: spec_unit_to_id(g.last_hidden),
        first_dying: spec_unit_to_id(g.first_dying),
        last_dying: spec_unit_to_id(g.last_dying),
        first_revealer: spec_unit_to_id(g.first_revealer),
        last_revealer: spec_unit_to_id(g.last_revealer),
        first_free: spec_unit_to_id(g.first_free),
        last_free: spec_unit_to_id(g.last_free),
        first_invisible: spec_unit_to_id(g.first_invisible),
        player0: spec_unit_to_id(g.player0),
        player1: spec_unit_to_id(g.player1),
        player2: spec_unit_to_id(g.player2),
        player3: spec_unit_to_id(g.player3),
        player4: spec_unit_to_id(g.player4),
        player5: spec_unit_to_id(g.player5),
        player6: spec_unit_to_id(g.player6),
        player7: spec_unit_to_id(g.player7),
        player8: spec_unit_to_id(g.player8),
        player9: spec_unit_to_id(g.player9),
        player10: spec_unit_to_id(g.player10),
        player11: spec_unit_to_id(g.player11),
    }
}

pub open spec fn spec_unit_globals_from_ser(s: UnitGlobalsSer) -> Result<UnitGlobals, LoadError> {
    let first_active = spec_unit_from_id(s.first_active);
    let first_hidden = spec_unit_from_id(s.first_hidden);
    let first_dying = spec_unit_from_id(s.first_dying);
    let first_revealer = spec_unit_from_id(s.first_revealer);
    let first_free = spec_unit_from_id(s.first_free);
    let first_invisible = spec_unit_from_id(s.first_invisible);
    let last_active = spec_unit_from_id(s.last_active);
    let last_hidden = spec_unit_from_id(s.last_hidden);
    let last_dying = spec_unit_from_id(s.last_dying);
    let last_revealer = spec_unit_from_id(s.last_revealer);
    let last_free = spec_unit_from_id(s.last_free);
    let player0 = spec_unit_from_id(s.player0);
    let player1 = spec_unit_from_id(s.player1);
    let player2 = spec_unit_from_id(s.player2);
    let player3 = spec_unit_from_id(s.player3);
    let player4 = spec_unit_from_id(s.player4);
    let player5 = spec_unit_from_id(s.player5);
    let player6 = spec_unit_from_id(s.player6);
    let player7 = spec_unit_from_id(s.player7);
    let player8 = spec_unit_from_id(s.player8);
    let player9 = spec_unit_from_id(s.player9);
    let player10 = spec_unit_from_id(s.player10);
    let player11 = spec_unit_from_id(s.player11);
    if first_active is Err {
        Err(first_active->Err_0)
    }
    else if first_hidden is Err {
        Err(first_hidden->Err_0)
    }
    else if first_dying is Err {
        Err(first_dying->Err_0)
    }
    else if first_revealer is Err {
        Err(first_revealer->Err_0)
    }
    else if first_free is Err {
        Err(first_free->Err_0)
    }
    else if first_invisible is Err {
        Err(first_invisible->Err_0)
    }
    else if last_active is Err {
        Err(last_active->Err_0)
    }
    else if last_hidden is Err {
        Err(last_hidden->Err_0)
    }
    else if last_dying is Err {
        Err(last_dying->Err_0)
    }
    else if last_revealer is Err {
        Err(last_revealer->Err_0)
    }
    else if last_free is Err {
        Err(last_free->Err_0)
    }
    else if player0 is Err {
        Err(player0->Err_0)
    }
    else if player1 is Err {
        Err(player1->Err_0)
    }
    else if player2 is Err {
        Err(player2->Err_0)
    }
    else if player3 is Err {
        Err(player3->Err_0)
    }
    else if player4 is Err {
        Err(player4->Err_0)
    }
    else if player5 is Err {
        Err(player5->Err_0)
    }
    else if player6 is Err {
        Err(player6->Err_0)
    }
    else if player7 is Err {
        Err(player7->Err_0)
    }
    else if player8 is Err {
        Err(player8->Err_0)
    }
    else if player9 is Err {
        Err(player9->Err_0)
    }
    else if player10 is Err {
        Err(player10->Err_0)
    }
    else if player11 is Err {
        Err(player11->Err_0)
    }
    else {
        Ok(UnitGlobals {
            first_active: first_active->Ok_0,
            last_active: last_active->Ok_0,
            first_hidden: first_hidden->Ok_0,
            last_hidden: last_hidden->Ok_0,
            first_dying: first_dying->Ok_0,
            last_dying: last_dying->Ok_0,
            first_revealer: first_revealer->Ok_0,
            last_revealer: last_revealer->Ok_0,
            first_free: first_free->Ok_0,
            last_free: last_free->Ok_0,
            first_invisible: first_invisible->Ok_0,
            player0: player0->Ok_0,
            player1: player1->Ok_0,
            player2: player2->Ok_0,
            player3: player3->Ok_0,
            player4: player4->Ok_0,
            player5: player5->Ok_0,
            player6: player6->Ok_0,
            player7: player7->Ok_0,
            player8: player8->Ok_0,
            player9: player9->Ok_0,
            player10: player10->Ok_0,
            player11: player11->Ok_0,
        })
    }
}

/// Serializes the unit list heads as absolute ids.
pub fn unit_globals_to_ser(g: &UnitGlobals) -> (r: UnitGlobalsSer)
    requires
        spec_unit_globals_refs_ok(*g),
    ensures
        r == spec_unit_globals_to_ser(*g),
{
    UnitGlobalsSer {
        first_active: unit_to_id(g.first_active),
        last_active: unit_to_id(g.last_active),
        first_hidden: unit_to_id(g.first_hidden),
        last_hidden: unit_to_id(g.last_hidden),
        first_dying: unit_to_id(g.first_dying),
        last_dying: unit_to_id(g.last_dying),
        first_revealer: unit_to_id(g.first_revealer),
        last_revealer: unit_to_id(g.last_revealer),
        first_free: unit_to_id(g.first_free),
        last_free: unit_to_id(g.last_free),
        first_invisible: unit_to_id(g.first_invisible),
        player0: unit_to_id(g.player0),
        player1: unit_to_id(g.player1),
        player2: unit_to_id(g.player2),
        player3: unit_to_id(g.player3),
        player4: unit_to_id(g.player4),
        player5: unit_to_id(g.player5),
        player6: unit_to_id(g.player6),
        player7: unit_to_id(g.player7),
        player8: unit_to_id(g.player8),
        player9: unit_to_id(g.player9),
        player10: unit_to_id(g.player10),
        player11: unit_to_id(g.player11),
    }
}

/// Resolves the unit list heads, validating each id.
pub fn unit_globals_from_ser(s: &UnitGlobalsSer) -> (r: Result<UnitGlobals, LoadError>)
    ensures
        r == spec_unit_globals_from_ser(*s),
{
    let first_active = match unit_from_id(s.first_active) {
        Ok(v) => v,
        Err(e) => {
            return Err(e);
        },
    };
    let first_hidden = match unit_from_id(s.first_hidden) {
        Ok(v) => v,
        Err(e) => {
            return Err(e);
        },
    };
    let first_dying = match unit_from_id(s.first_dying) {
        Ok(v) => v,
        Err(e) => {
            return Err(e);
        },
    };
    let first_revealer = match unit_from_id(s.first_revealer) {
        Ok(v) => v,
        Err(e) => {
            return Err(e);
        },
    };
    let first_free = match unit_from_id(s.first_free) {
        Ok(v) => v,
        Err(e) => {
            return Err(e);
        },
    };
    let first_invisible = match unit_from_id(s.first_invisible) {
        Ok(v) => v,
        Err(e) => {
            return Err(e);
        },
    };
    let last_active = match unit_from_id(s.last_active) {
        Ok(v) => v,
        Err(e) => {
            return Err(e);
        },
    };
    let last_hidden = match unit_from_id(s.last_hidden) {
        Ok(v) => v,
        Err(e) => {
            return Err(e);
        },
    };
    let last_dying = match unit_from_id(s.last_dying) {
        Ok(v) => v,
        Err(e) => {
            return Err(e);
        },
    };
    let last_revealer = match unit_from_id(s.last_revealer) {
        Ok(v) => v,
        Err(e) => {
            return Err(e);
        },
    };
    let last_free = match unit_from_id(s.last_free) {
        Ok(v) => v,
        Err(e) => {
            return Err(e);
        },
    };
    let player0 = match unit_from_id(s.player0) {
        Ok(v) => v,
        Err(e) => {
            return Err(e);
        },
    };
    let player1 = match unit_from_id(s.player1) {
        Ok(v) => v,
        Err(e) => {
            return Err(e);
        },
    };
    let player2 = match unit_from_id(s.player2) {
        Ok(v) => v,
        Err(e) => {
            return Err(e);
        },
    };
    let player3 = match unit_from_id(s.player3) {
        Ok(v) => v,
        Err(e) => {
            return Err(e);
        },
    };
    let player4 = match unit_from_id(s.player4) {
        Ok(v) => v,
        Err(e) => {
            return Err(e);
        },
    };
    let player5 = match unit_from_id(s.player5) {
        Ok(v) => v,
        Err(e) => {
            return Err(e);
        },
    };
    let player6 = match unit_from_id(s.player6) {
        Ok(v) => v,
        Err(e) => {
            return Err(e);
        },
    };
    let player7 = match unit_from_id(s.player7) {
        Ok(v) => v,
        Err(e) => {
            return Err(e);
        },
    };
    let player8 = match unit_from_id(s.player8) {
        Ok(v) => v,
        Err(e) => {
            return Err(e);
        },
    };
    let player9 = match unit_from_id(s.player9) {
        Ok(v) => v,
        Err(e) => {
            return Err(e);
        },
    };
    let player10 = match unit_from_id(s.player10) {
        Ok(v) => v,
        Err(e) => {
            return Err(e);
        },
    };
    let player11 = match unit_from_id(s.player11) {
        Ok(v) => v,
        Err(e) => {
            return Err(e);
        },
    };
    Ok(UnitGlobals {
        first_active,
        last_active,
        first_hidden,
        last_hidden,
        first_dying,
        last_dying,
        first_revealer,
        last_revealer,
        first_free,
        last_free,
        first_invisible,
        player0,
        player1,
        player2,
        player3,
        player4,
        player5,
        player6,
        player7,
        player8,
        player9,
        player10,
        player11,
    })
}

/// The list heads round-trip: valid heads written and resolved are
/// themselves.
pub proof fn lemma_unit_globals_rt(g: UnitGlobals)
    requires
        spec_unit_globals_refs_ok(g),
    ensures
        spec_unit_globals_from_ser(spec_unit_globals_to_ser(g)) == Ok::<UnitGlobals, LoadError>(g),
{
    lemma_table_ids_round_trip(g.first_active);
    lemma_table_ids_round_trip(g.last_active);
    lemma_table_ids_round_trip(g.first_hidden);
    lemma_table_ids_round_trip(g.last_hidden);
    lemma_table_ids_round_trip(g.first_dying);
    lemma_table_ids_round_trip(g.last_dying);
    lemma_table_ids_round_trip(g.first_revealer);
    lemma_table_ids_round_trip(g.last_revealer);
    lemma_table_ids_round_trip(g.first_free);
    lemma_table_ids_round_trip(g.last_free);
    lemma_table_ids_round_trip(g.first_invisible);
    lemma_table_ids_round_trip(g.player0);
    lemma_table_ids_round_trip(g.player1);
    lemma_table_ids_round_trip(g.player2);
    lemma_table_ids_round_trip(g.player3);
    lemma_table_ids_round_trip(g.player4);
    lemma_table_ids_round_trip(g.player5);
    lemma_table_ids_round_trip(g.player6);
    lemma_table_ids_round_trip(g.player7);
    lemma_table_ids_round_trip(g.player8);
    lemma_table_ids_round_trip(g.player9);
    lemma_table_ids_round_trip(g.player10);
    lemma_table_ids_round_trip(g.player11);
}

/// The unit pool together with the list heads: the whole process-wide
/// live unit state.
pub struct UnitSystem {
    pub units: RawVec<Unit>,
    pub globals: UnitGlobals,
}

/// The walk of the restored active list, reporting the id of the first
/// link that leaves the pool or revisits a unit: loaded links come from a
/// file, so a cycle here is corruption to reject, not a list to follow
/// forever.
pub open spec fn spec_active_walk(pool: Seq<Unit>, cur: Option<usize>, acc: Seq<usize>) -> Result<
    Seq<usize>,
    LoadError,
>
    decreases pool.len() - acc.len()
        when acc.no_duplicates() && (forall|k: int| 0 <= k < acc.len() ==> acc[k] < pool.len())
        via spec_active_walk_decreases
{
    match cur {
        None => Ok(acc),
        Some(i) => {
            if i >= pool.len() {
                Err(LoadError::Corrupted(0))
            } else if acc.contains(i) {
                Err(LoadError::Corrupted((i + 1) as u32))
            } else {
                spec_active_walk(pool, pool[i as int].entity.next, acc.push(i))
            }
        },
    }
}

#[via_fn]
proof fn spec_active_walk_decreases(pool: Seq<Unit>, cur: Option<usize>, acc: Seq<usize>) {
    if let Some(i) = cur {
        if i < pool.len() && !acc.contains(i) {
            crate::linked::lemma_distinct_bounded(acc.push(i), pool.len());
        }
    }
}

/// Where the generic walk succeeds, the id-reporting walk agrees with it.
pub proof fn lemma_active_walk_eq(pool: Seq<Unit>, cur: Option<usize>, acc: Seq<usize>)
    requires
        acc.no_duplicates(),
        forall|k: int| 0 <= k < acc.len() ==> acc[k] < pool.len(),
        spec_walk(pool, cur, acc) is Ok,
    ensures
        spec_active_walk(pool, cur, acc) == Ok::<Seq<usize>, LoadError>(
            spec_walk(pool, cur, acc)->Ok_0,
        ),
    decreases pool.len() - acc.len(),
{
    crate::linked::lemma_distinct_bounded(acc, pool.len());
    match cur {
        None => {},
        Some(i) => {
            if i < pool.len() && !acc.contains(i) {
                crate::linked::lemma_distinct_bounded(acc.push(i), pool.len());
                assert(pool[i as int].next_of() == pool[i as int].entity.next);
                lemma_active_walk_eq(pool, pool[i as int].entity.next, acc.push(i));
            }
        },
    }
}

/// The volatile spatial-acceleration fields are not trusted from a save:
/// a restored active unit gets the "needs recomputation" sentinel and the
/// host recomputes them on re-insertion.
pub open spec fn spec_scrub_unit(u: Unit) -> Unit {
    Unit {
        pos_search_left: u32::MAX,
        pos_search_right: u32::MAX,
        pos_search_top: u32::MAX,
        pos_search_bottom: u32::MAX,
        ..u
    }
}

/// The unit pool after the post-load re-insertion pass: every unit of the
/// active list whose spatial cache was not already the sentinel is
/// scrubbed; every other unit is untouched.
pub open spec fn spec_scrubbed_units(units: Seq<Unit>, order: Seq<usize>) -> Seq<Unit> {
    Seq::new(
        units.len(),
        |s: int|
            if order.contains(s as usize) && units[s].pos_search_left != u32::MAX {
                spec_scrub_unit(units[s])
            } else {
                units[s]
            },
    )
}


/// The units the host must re-insert, in active-list order, from
/// position `k` of the walk on.
pub open spec fn spec_reinsert_list(units: Seq<Unit>, order: Seq<usize>, k: int) -> Seq<usize>
    decreases order.len() - k,
{
    if k < 0 || k >= order.len() {
        Seq::<usize>::empty()
    } else {
        (if units[order[k] as int].pos_search_left != u32::MAX {
            seq![order[k]]
        } else {
            Seq::<usize>::empty()
        }) + spec_reinsert_list(units, order, k + 1)
    }
}

/// Decoding `count` unit records starting at `pos`.
pub open spec fn spec_decode_units(
    stream: Seq<u8>,
    pos: int,
    count: nat,
    sprite_slots: Seq<usize>,
    lone_slots: Seq<usize>,
    flags: Seq<u32>,
) -> Result<Seq<Unit>, LoadError>
    decreases count,
{
    if count == 0 {
        Ok(Seq::<Unit>::empty())
    } else if pos + UNIT_SER_WIRE > stream.len() {
        Err(LoadError::Serialize)
    } else {
        let u = spec_unit_from_ser_v(dec_unit_ser_at(stream, pos), sprite_slots, lone_slots, flags);
        if u is Err {
            Err(u->Err_0)
        } else {
            let rest = spec_decode_units(
                stream,
                pos + UNIT_SER_WIRE,
                (count - 1) as nat,
                sprite_slots,
                lone_slots,
                flags,
            );
            if rest is Err {
                Err(rest->Err_0)
            } else {
                Ok(seq![u->Ok_0] + rest->Ok_0)
            }
        }
    }
}

/// What a unit chunk loads to: the scrubbed unit array, the resolved list
/// heads, and the re-insertion list, or the exact error it is rejected
/// with.
pub open spec fn spec_load_units(
    data: Seq<u8>,
    sprite_slots: Seq<usize>,
    lone_slots: Seq<usize>,
    flags: Seq<u32>,
) -> Result<(Seq<Unit>, UnitGlobals, Seq<usize>), LoadError> {
    let c = spec_open_chunk(data, UNIT_SAVE_MAGIC, UNIT_SAVE_MAX_SIZE);
    if c is Err {
        Err(c->Err_0)
    } else {
        let s = c->Ok_0;
        if s.len() < UNIT_GLOBALS_WIRE + UNIT_LIMIT * UNIT_SER_WIRE {
            Err(LoadError::Serialize)
        } else {
            let g = dec_unit_globals_at(s, 0);
            let us = spec_decode_units(
                s,
                UNIT_GLOBALS_WIRE as int,
                UNIT_LIMIT as nat,
                sprite_slots,
                lone_slots,
                flags,
            );
            if us is Err {
                Err(us->Err_0)
            } else {
                let globals = spec_unit_globals_from_ser(g);
                if globals is Err {
                    Err(globals->Err_0)
                } else {
                    let w = spec_active_walk(
                        us->Ok_0,
                        globals->Ok_0.first_active,
                        Seq::<usize>::empty(),
                    );
                    if w is Err {
                        Err(w->Err_0)
                    } else {
                        Ok(
                            (
                                spec_scrubbed_units(us->Ok_0, w->Ok_0),
                                globals->Ok_0,
                                spec_reinsert_list(us->Ok_0, w->Ok_0, 0),
                            ),
                        )
                    }
                }
            }
        }
    }
}

/// The first error unit emission runs into from record `i` on.
pub open spec fn spec_emit_units_err(
    units: Seq<Unit>,
    i: int,
    sprite_ids: Seq<u32>,
    lone_ids: Seq<u32>,
) -> Option<SaveError>
    decreases units.len() - i,
{
    if i < 0 || i >= units.len() {
        None
    } else {
        let r = spec_unit_to_ser_v(units[i], sprite_ids, lone_ids);
        if r is Err {
            Some(r->Err_0)
        } else if UNIT_GLOBALS_WIRE + (i + 1) * UNIT_SER_WIRE > UNIT_SAVE_MAX_SIZE {
            Some(SaveError::SizeLimit((UNIT_GLOBALS_WIRE + (i + 1) * UNIT_SER_WIRE) as u64))
        } else {
            spec_emit_units_err(units, i + 1, sprite_ids, lone_ids)
        }
    }
}

pub open spec fn spec_save_units_outcome(
    sys: &UnitSystem,
    sprite_ids: Seq<u32>,
    lone_ids: Seq<u32>,
) -> Option<SaveError> {
    spec_emit_units_err(sys.units@, 0, sprite_ids, lone_ids)
}

pub open spec fn spec_units_save_pre(sys: &UnitSystem) -> bool {
    &&& sys.units@.len() == UNIT_LIMIT
    &&& spec_unit_globals_refs_ok(sys.globals)
    &&& forall|k: int| 0 <= k < sys.units@.len() ==> spec_unit_refs_ok(#[trigger] sys.units@[k])
}

/// A well-formed unit system for the round-trip law: the save
/// preconditions hold, the overlay variants match the configuration, and
/// the active list walks to completion.
pub open spec fn spec_units_wf(sys: &UnitSystem, flags: Seq<u32>) -> bool {
    &&& spec_units_save_pre(sys)
    &&& (forall|k: int|
        0 <= k < sys.units@.len() ==> spec_unit_class_ok(#[trigger] sys.units@[k], flags))
    &&& spec_walk(sys.units@, sys.globals.first_active, Seq::<usize>::empty()) is Ok
}

/// Peeling the unit record decoder.
proof fn lemma_decode_units_prefix(
    stream: Seq<u8>,
    i: int,
    n: int,
    sprite_slots: Seq<usize>,
    lone_slots: Seq<usize>,
    flags: Seq<u32>,
    expected: Seq<Unit>,
)
    requires
        0 <= i <= n,
        expected.len() == n,
        UNIT_GLOBALS_WIRE + n * UNIT_SER_WIRE <= stream.len(),
        forall|j: int|
            i <= j < n ==> spec_unit_from_ser_v(
                #[trigger] dec_unit_ser_at(stream, UNIT_GLOBALS_WIRE + j * UNIT_SER_WIRE),
                sprite_slots,
                lone_slots,
                flags,
            ) == Ok::<Unit, LoadError>(expected[j]),
    ensures
        spec_decode_units(
            stream,
            UNIT_GLOBALS_WIRE + i * UNIT_SER_WIRE,
            (n - i) as nat,
            sprite_slots,
            lone_slots,
            flags,
        ) == Ok::<Seq<Unit>, LoadError>(expected.skip(i)),
    decreases n - i,
{
    if i == n {
        assert(expected.skip(n) =~= Seq::<Unit>::empty());
    } else {
        lemma_decode_units_prefix(stream, i + 1, n, sprite_slots, lone_slots, flags, expected);
        assert(UNIT_GLOBALS_WIRE + i * UNIT_SER_WIRE + UNIT_SER_WIRE == UNIT_GLOBALS_WIRE + (i + 1)
            * UNIT_SER_WIRE) by (nonlinear_arith);
        assert((i + 1) * UNIT_SER_WIRE <= n * UNIT_SER_WIRE) by (nonlinear_arith)
            requires i + 1 <= n, UNIT_SER_WIRE > 0;
        assert(expected.skip(i) =~= seq![expected[i]] + expected.skip(i + 1));
    }
}

/// The bytes the unit records from array slot `i` on append to `acc`.
/// Meaningful together with `spec_save_units_outcome`: where the outcome
/// is `None`, every record serializes, and this is the exact record
/// stream the save emits after the globals record.
pub open spec fn spec_emit_unit_records(
    units: Seq<Unit>,
    i: int,
    sprite_ids: Seq<u32>,
    lone_ids: Seq<u32>,
    acc: Seq<u8>,
) -> Seq<u8>
    decreases units.len() - i,
{
    if i < 0 || i >= units.len() {
        acc
    } else {
        let r = spec_unit_to_ser_v(units[i], sprite_ids, lone_ids);
        spec_emit_unit_records(units, i + 1, sprite_ids, lone_ids, acc + enc_unit_ser(r->Ok_0))
    }
}

/// The exact uncompressed record stream a unit save emits: the globals
/// record, then one record per array slot in slot order.
pub open spec fn spec_unit_stream(
    sys: &UnitSystem,
    sprite_ids: Seq<u32>,
    lone_ids: Seq<u32>,
) -> Seq<u8> {
    spec_emit_unit_records(
        sys.units@,
        0,
        sprite_ids,
        lone_ids,
        enc_unit_globals(spec_unit_globals_to_ser(sys.globals)),
    )
}

/// Saves the unit chunk: the list-head globals first, then all unit
/// records in array order (unit ids are array slots, so no directory is
/// built), with the cumulative size checked against the ceiling after
/// every record.
///
/// The last clause is the round-trip law for units: on a well-formed
/// system, loading the produced chunk with directories that invert the
/// ones used here, under the same capability configuration, rebuilds
/// every unit exactly — every tagged overlay reference included — except
/// that the spatial caches of active units are reset to the sentinel; the
/// re-insertion list is exactly the active list.
#[verifier::rlimit(100)]
#[verifier::spinoff_prover]
pub fn save_units(sys: &UnitSystem, sprites: &SaveMapping, lone: &SaveMapping) -> (r: Result<
    Vec<u8>,
    SaveError,
>)
    requires
        spec_units_save_pre(sys),
    ensures
        spec_save_units_outcome(sys, sprites@, lone@) matches Some(e) ==> r == Err::<Vec<u8>, _>(
            e,
        ),
        r is Ok ==> spec_save_units_outcome(sys, sprites@, lone@) is None,
        r is Err ==> (spec_save_units_outcome(sys, sprites@, lone@) == Some(r->Err_0)
            || r->Err_0 matches SaveError::SizeLimit(_)),
        spec_save_units_outcome(sys, sprites@, lone@) is None ==> ({
            let stream = spec_unit_stream(sys, sprites@, lone@);
            &&& (deflate_of(stream).len() <= UNIT_SAVE_MAX_SIZE ==> (r matches Ok(bytes)
                && spec_open_chunk(bytes@, UNIT_SAVE_MAGIC, UNIT_SAVE_MAX_SIZE) == Ok::<
                    Seq<u8>,
                    LoadError,
                >(stream)))
            &&& (deflate_of(stream).len() > UNIT_SAVE_MAX_SIZE ==> r == Err::<Vec<u8>, _>(
                SaveError::SizeLimit(deflate_of(stream).len() as u64),
            ))
        }),
        r is Ok ==> (forall|flags: Seq<u32>, sprite_slots: Seq<usize>, lone_slots: Seq<usize>|
            #[trigger] spec_units_wf(sys, flags) && #[trigger] maps_inverse(
                sprites@,
                sprite_slots,
            ) && #[trigger] maps_inverse(lone@, lone_slots) ==> spec_load_units(
                r->Ok_0@,
                sprite_slots,
                lone_slots,
                flags,
            ) == Ok::<_, LoadError>(
                (
                    spec_scrubbed_units(
                        sys.units@,
                        spec_walk(
                            sys.units@,
                            sys.globals.first_active,
                            Seq::<usize>::empty(),
                        )->Ok_0,
                    ),
                    sys.globals,
                    spec_reinsert_list(
                        sys.units@,
                        spec_walk(
                            sys.units@,
                            sys.globals.first_active,
                            Seq::<usize>::empty(),
                        )->Ok_0,
                        0,
                    ),
                ),
            )),
{
    let ghost pool = sys.units@;
    let n = sys.units.len();
    let g = unit_globals_to_ser(&sys.globals);
    let mut stream: Vec<u8> = Vec::new();
    put_unit_globals(&mut stream, &g);
    let ghost acc0 = enc_unit_globals(g);
    proof {
        assert(stream@ =~= acc0);
    }
    let mut k: usize = 0;
    while k < n
        invariant
            n == UNIT_LIMIT,
            k <= n,
            pool == sys.units@,
            pool.len() == n,
            spec_units_save_pre(sys),
            g == spec_unit_globals_to_ser(sys.globals),
            stream@.len() == UNIT_GLOBALS_WIRE + k * UNIT_SER_WIRE,
            stream@.len() <= UNIT_SAVE_MAX_SIZE,
            dec_unit_globals_at(stream@, 0) == g,
            forall|j: int|
                0 <= j < k ==> (#[trigger] spec_unit_to_ser_v(pool[j], sprites@, lone@)) is Ok,
            forall|j: int|
                0 <= j < k ==> dec_unit_ser_at(stream@, UNIT_GLOBALS_WIRE + j * UNIT_SER_WIRE) == (
                #[trigger] spec_unit_to_ser_v(pool[j], sprites@, lone@))->Ok_0,
            spec_emit_units_err(pool, 0, sprites@, lone@) == spec_emit_units_err(
                pool,
                k as int,
                sprites@,
                lone@,
            ),
            spec_emit_unit_records(pool, 0, sprites@, lone@, acc0) == spec_emit_unit_records(
                pool,
                k as int,
                sprites@,
                lone@,
                stream@,
            ),
        decreases n - k,
    {
        let ser = match unit_serializable(sys.units.get(k), sprites, lone) {
            Ok(s) => s,
            Err(e) => {
                return Err(e);
            },
        };
        let ghost pre_stream = stream@;
        put_unit_ser(&mut stream, &ser);
        proof {
            assert((k + 1) * UNIT_SER_WIRE == k * UNIT_SER_WIRE + UNIT_SER_WIRE)
                by (nonlinear_arith);
            lemma_subrange_in_prefix(pre_stream, stream@, 0, UNIT_GLOBALS_WIRE as int);
            lemma_dec_unit_globals_stable(pre_stream, stream@, 0);
            assert forall|j: int| 0 <= j < k implies dec_unit_ser_at(
                stream@,
                UNIT_GLOBALS_WIRE + j * UNIT_SER_WIRE,
            ) == (#[trigger] spec_unit_to_ser_v(pool[j], sprites@, lone@))->Ok_0 by {
                assert((j + 1) * UNIT_SER_WIRE <= k * UNIT_SER_WIRE) by (nonlinear_arith)
                    requires j + 1 <= k, UNIT_SER_WIRE > 0;
                assert((j + 1) * UNIT_SER_WIRE == j * UNIT_SER_WIRE + UNIT_SER_WIRE)
                    by (nonlinear_arith);
                lemma_subrange_in_prefix(
                    pre_stream,
                    stream@,
                    UNIT_GLOBALS_WIRE + j * UNIT_SER_WIRE,
                    UNIT_GLOBALS_WIRE + j * UNIT_SER_WIRE + UNIT_SER_WIRE,
                );
                lemma_dec_unit_ser_stable(
                    pre_stream,
                    stream@,
                    UNIT_GLOBALS_WIRE + j * UNIT_SER_WIRE,
                );
                assert(dec_unit_ser_at(pre_stream, UNIT_GLOBALS_WIRE + j * UNIT_SER_WIRE)
                    == spec_unit_to_ser_v(pool[j], sprites@, lone@)->Ok_0);
            }
            assert(spec_emit_unit_records(pool, k as int, sprites@, lone@, pre_stream)
                == spec_emit_unit_records(pool, k + 1, sprites@, lone@, stream@));
        }
        if stream.len() > UNIT_SAVE_MAX_SIZE as usize {
            return Err(SaveError::SizeLimit(stream.len() as u64));
        }
        k = k + 1;
    }
    proof {
        assert(spec_emit_unit_records(pool, 0, sprites@, lone@, acc0) == stream@);
        assert(spec_unit_stream(sys, sprites@, lone@) == stream@);
    }
    let out = match seal_chunk(&stream, UNIT_SAVE_MAGIC, UNIT_SAVE_MAX_SIZE) {
        Ok(b) => b,
        Err(e) => {
            return Err(e);
        },
    };
    proof {
        let stream_s = stream@;
        assert forall|flags: Seq<u32>, sprite_slots: Seq<usize>, lone_slots: Seq<usize>|
            #[trigger] spec_units_wf(sys, flags) && #[trigger] maps_inverse(
                sprites@,
                sprite_slots,
            ) && #[trigger] maps_inverse(lone@, lone_slots) implies spec_load_units(
            out@,
            sprite_slots,
            lone_slots,
            flags,
        ) == Ok::<_, LoadError>(
            (
                spec_scrubbed_units(
                    pool,
                    spec_walk(pool, sys.globals.first_active, Seq::<usize>::empty())->Ok_0,
                ),
                sys.globals,
                spec_reinsert_list(
                    pool,
                    spec_walk(pool, sys.globals.first_active, Seq::<usize>::empty())->Ok_0,
                    0,
                ),
            ),
        ) by {
            assert forall|j: int| 0 <= j < n implies spec_unit_from_ser_v(
                #[trigger] dec_unit_ser_at(stream_s, UNIT_GLOBALS_WIRE + j * UNIT_SER_WIRE),
                sprite_slots,
                lone_slots,
                flags,
            ) == Ok::<Unit, LoadError>(pool[j]) by {
                lemma_unit_rt_v(pool[j], sprites@, lone@, sprite_slots, lone_slots, flags);
            }
            lemma_decode_units_prefix(
                stream_s,
                0,
                n as int,
                sprite_slots,
                lone_slots,
                flags,
                pool,
            );
            assert(pool.skip(0) =~= pool);
            lemma_unit_globals_rt(sys.globals);
            lemma_active_walk_eq(pool, sys.globals.first_active, Seq::<usize>::empty());
        }
    }
    Ok(out)
}

/// Loads the unit chunk: opens and bounds-checks the envelope, decodes
/// exactly the whole unit array, resolves the list heads, walks the
/// restored active list, resets each active unit's spatial cache to the
/// sentinel, and reports the units the host must re-insert, in list
/// order.
#[verifier::rlimit(100)]
#[verifier::spinoff_prover]
pub fn load_units(
    data: &Vec<u8>,
    sprites: &LoadMapping,
    lone: &LoadMapping,
    flags: &Vec<u32>,
) -> (r: Result<(UnitSystem, Vec<usize>), LoadError>)
    ensures
        match r {
            Ok(p) => spec_load_units(data@, sprites@, lone@, flags@) == Ok::<_, LoadError>(
                (p.0.units@, p.0.globals, p.1@),
            ),
            Err(e) => spec_load_units(data@, sprites@, lone@, flags@) == Err::<
                (Seq<Unit>, UnitGlobals, Seq<usize>),
                _,
            >(e),
        },
{
    let stream = match open_chunk(data, UNIT_SAVE_MAGIC, UNIT_SAVE_MAX_SIZE) {
        Ok(s) => s,
        Err(e) => {
            return Err(e);
        },
    };
    if stream.len() < UNIT_GLOBALS_WIRE + UNIT_LIMIT * UNIT_SER_WIRE {
        return Err(LoadError::Serialize);
    }
    let g = get_unit_globals(&stream, 0);
    let mut pool: RawVec<Unit> = RawVec::with_capacity(UNIT_LIMIT);
    let stream_len = stream.len();
    let mut pos: usize = UNIT_GLOBALS_WIRE;
    let mut k: usize = 0;
    while k < UNIT_LIMIT
        invariant
            k <= UNIT_LIMIT,
            pos == UNIT_GLOBALS_WIRE + k * UNIT_SER_WIRE,
            stream_len == stream@.len(),
            UNIT_GLOBALS_WIRE + UNIT_LIMIT * UNIT_SER_WIRE <= stream@.len(),
            pool@.len() == k,
            pool.spec_capacity() == UNIT_LIMIT,
            g == dec_unit_globals_at(stream@, 0),
            spec_decode_units(
                stream@,
                UNIT_GLOBALS_WIRE as int,
                UNIT_LIMIT as nat,
                sprites@,
                lone@,
                flags@,
            ) is Err ==> spec_load_units(data@, sprites@, lone@, flags@) == Err::<
                (Seq<Unit>, UnitGlobals, Seq<usize>),
                LoadError,
            >(
                spec_decode_units(
                    stream@,
                    UNIT_GLOBALS_WIRE as int,
                    UNIT_LIMIT as nat,
                    sprites@,
                    lone@,
                    flags@,
                )->Err_0,
            ),
            spec_decode_units(
                stream@,
                UNIT_GLOBALS_WIRE as int,
                UNIT_LIMIT as nat,
                sprites@,
                lone@,
                flags@,
            ) == (match spec_decode_units(
                stream@,
                pos as int,
                (UNIT_LIMIT - k) as nat,
                sprites@,
                lone@,
                flags@,
            ) {
                Ok(rest) => Ok::<Seq<Unit>, LoadError>(pool@ + rest),
                Err(e) => Err::<Seq<Unit>, LoadError>(e),
            }),
        decreases UNIT_LIMIT - k,
    {
        proof {
            assert((k + 1) * UNIT_SER_WIRE == k * UNIT_SER_WIRE + UNIT_SER_WIRE)
                by (nonlinear_arith);
            assert((k + 1) * UNIT_SER_WIRE <= UNIT_LIMIT * UNIT_SER_WIRE) by (nonlinear_arith)
                requires k + 1 <= UNIT_LIMIT, UNIT_SER_WIRE > 0;
        }
        let ser = get_unit_ser(&stream, pos);
        let u = match deserialize_unit(&ser, sprites, lone, flags) {
            Ok(v) => v,
            Err(e) => {
                proof {
                    assert(spec_decode_units(
                        stream@,
                        pos as int,
                        (UNIT_LIMIT - k) as nat,
                        sprites@,
                        lone@,
                        flags@,
                    ) is Err);
                }
                return Err(e);
            },
        };
        let ghost pre_pool = pool@;
        let _ = pool.push(u);
        proof {
            let rest_next = spec_decode_units(
                stream@,
                pos + UNIT_SER_WIRE,
                (UNIT_LIMIT - k - 1) as nat,
                sprites@,
                lone@,
                flags@,
            );
            if rest_next is Ok {
                assert(pre_pool + (seq![u] + rest_next->Ok_0) =~= pre_pool.push(u)
                    + rest_next->Ok_0);
            }
        }
        pos = pos + UNIT_SER_WIRE;
        k = k + 1;
    }
    proof {
        assert(pool@ + Seq::<Unit>::empty() =~= pool@);
    }
    let globals = match unit_globals_from_ser(&g) {
        Ok(v) => v,
        Err(e) => {
            return Err(e);
        },
    };
    let order = match walk_active(&pool, globals.first_active) {
        Ok(o) => o,
        Err(e) => {
            return Err(e);
        },
    };
    let ghost loaded = pool@;
    let ghost ord = order@;
    proof {
        lemma_active_walk_valid(loaded, globals.first_active, Seq::<usize>::empty());
    }
    let mut reinsert: Vec<usize> = Vec::new();
    let mut i: usize = 0;
    while i < order.len()
        invariant
            i <= ord.len(),
            order@ == ord,
            forall|k2: int| 0 <= k2 < ord.len() ==> ord[k2] < loaded.len(),
            pool@ == loaded,
            pool.spec_capacity() == UNIT_LIMIT,
            reinsert@ + spec_reinsert_list(loaded, ord, i as int) == spec_reinsert_list(
                loaded,
                ord,
                0,
            ),
        decreases ord.len() - i,
    {
        let slot = order[i];
        if pool.get(slot).pos_search_left != 0xffff_ffffu32 {
            reinsert.push(slot);
            proof {
                assert(reinsert@.drop_last() + (seq![slot] + spec_reinsert_list(
                    loaded,
                    ord,
                    i + 1,
                )) =~= reinsert@ + spec_reinsert_list(loaded, ord, i + 1));
            }
        } else {
            proof {
                assert(Seq::<usize>::empty() + spec_reinsert_list(loaded, ord, i + 1)
                    =~= spec_reinsert_list(loaded, ord, i + 1));
            }
        }
        i = i + 1;
    }
    proof {
        assert(spec_reinsert_list(loaded, ord, ord.len() as int) =~= Seq::<usize>::empty());
        assert(reinsert@ + Seq::<usize>::empty() =~= reinsert@);
    }
    let mut marks: Vec<bool> = Vec::new();
    let mut i2: usize = 0;
    let pool_len = pool.len();
    while i2 < pool_len
        invariant
            marks@.len() == i2,
            i2 <= pool_len,
            forall|k2: int| 0 <= k2 < i2 ==> marks@[k2] == false,
        decreases pool_len - i2,
    {
        marks.push(false);
        i2 = i2 + 1;
    }
    let mut i3: usize = 0;
    while i3 < order.len()
        invariant
            i3 <= ord.len(),
            order@ == ord,
            forall|k2: int| 0 <= k2 < ord.len() ==> ord[k2] < loaded.len(),
            marks@.len() == loaded.len(),
            pool_len == loaded.len(),
            forall|s: int|
                0 <= s < loaded.len() ==> (marks@[s] == ord.subrange(0, i3 as int).contains(
                    s as usize,
                )),
        decreases ord.len() - i3,
    {
        let slot = order[i3];
        let ghost pm = marks@;
        marks[slot] = true;
        proof {
            assert(ord.subrange(0, i3 + 1) =~= ord.subrange(0, i3 as int).push(slot));
            assert forall|s: int| 0 <= s < loaded.len() implies marks@[s] == ord.subrange(
                0,
                i3 + 1,
            ).contains(s as usize) by {
                vstd::seq_lib::lemma_seq_contains_after_push(
                    ord.subrange(0, i3 as int),
                    slot,
                    s as usize,
                );
            }
        }
        i3 = i3 + 1;
    }
    proof {
        assert(ord.subrange(0, ord.len() as int) =~= ord);
    }
    let mut s: usize = 0;
    while s < pool_len
        invariant
            s <= pool_len,
            pool_len == loaded.len(),
            marks@.len() == loaded.len(),
            pool@.len() == loaded.len(),
            pool.spec_capacity() == UNIT_LIMIT,
            forall|t: int| 0 <= t < loaded.len() ==> (marks@[t] == ord.contains(t as usize)),
            forall|t: int| 0 <= t < s ==> pool@[t] == spec_scrubbed_units(loaded, ord)[t],
            forall|t: int| s <= t < loaded.len() ==> pool@[t] == loaded[t],
        decreases pool_len - s,
    {
        if marks[s] {
            let u = *pool.get(s);
            if u.pos_search_left != 0xffff_ffffu32 {
                let scrubbed = Unit {
                    pos_search_left: u32::MAX,
                    pos_search_right: u32::MAX,
                    pos_search_top: u32::MAX,
                    pos_search_bottom: u32::MAX,
                    ..u
                };
                pool.set(s, scrubbed);
            }
        }
        s = s + 1;
    }
    proof {
        assert(pool@ =~= spec_scrubbed_units(loaded, ord));
    }
    Ok((UnitSystem { units: pool, globals }, reinsert))
}

/// Walks the restored active list, reporting the id of a link that leaves
/// the pool or revisits a unit instead of following it forever.
pub fn walk_active(pool: &RawVec<Unit>, first: Option<usize>) -> (r: Result<Vec<usize>, LoadError>)
    requires
        pool@.len() < 0xffff_ffff,
    ensures
        match r {
            Ok(order) => spec_active_walk(pool@, first, Seq::<usize>::empty()) == Ok::<
                _,
                LoadError,
            >(order@),
            Err(e) => spec_active_walk(pool@, first, Seq::<usize>::empty()) == Err::<
                Seq<usize>,
                _,
            >(e),
        },
{
    let pool_len = pool.len();
    let mut seen: Vec<bool> = Vec::new();
    let mut i: usize = 0;
    while i < pool_len
        invariant
            seen@.len() == i,
            i <= pool_len,
            forall|k: int| 0 <= k < i ==> seen@[k] == false,
        decreases pool_len - i,
    {
        seen.push(false);
        i = i + 1;
    }
    let mut order: Vec<usize> = Vec::new();
    let mut cur = first;
    loop
        invariant
            pool_len == pool@.len(),
            pool_len < 0xffff_ffff,
            seen@.len() == pool_len,
            order@.no_duplicates(),
            forall|k: int| 0 <= k < order@.len() ==> order@[k] < pool_len,
            forall|s: int| 0 <= s < pool_len ==> (seen@[s] == order@.contains(s as usize)),
            spec_active_walk(pool@, first, Seq::<usize>::empty()) == spec_active_walk(
                pool@,
                cur,
                order@,
            ),
        decreases pool@.len() - order@.len() + 1, (if cur is Some {
            1int
        } else {
            0int
        }),
    {
        proof {
            crate::linked::lemma_distinct_bounded(order@, pool_len as nat);
        }
        match cur {
            None => {
                return Ok(order);
            },
            Some(s) => {
                if s >= pool_len {
                    return Err(LoadError::Corrupted(0));
                }
                if seen[s] {
                    return Err(LoadError::Corrupted((s + 1) as u32));
                }
                let ghost prior = order@;
                seen[s] = true;
                order.push(s);
                proof {
                    assert(order@ == prior.push(s));
                    assert(order@.no_duplicates()) by {
                        assert forall|a: int, b: int|
                            0 <= a < order@.len() && 0 <= b < order@.len() && a != b implies order@[a]
                            != order@[b] by {
                            if a < prior.len() && b < prior.len() {
                                assert(prior[a] != prior[b]);
                            } else if a < prior.len() {
                                assert(!prior.contains(s) && prior[a] == order@[a]);
                            } else {
                                assert(!prior.contains(s) && prior[b] == order@[b]);
                            }
                        }
                    }
                    assert forall|x: int| 0 <= x < pool_len implies seen@[x] == order@.contains(
                        x as usize,
                    ) by {
                        if x == s {
                            assert(order@[order@.len() - 1] == s);
                        } else {
                            if order@.contains(x as usize) {
                                let idx = choose|idx: int|
                                    0 <= idx < order@.len() && order@[idx] == x as usize;
                                assert(idx < prior.len());
                                assert(prior[idx] == x as usize);
                            }
                            if prior.contains(x as usize) {
                                let idx = choose|idx: int|
                                    0 <= idx < prior.len() && prior[idx] == x as usize;
                                assert(order@[idx] == x as usize);
                            }
                        }
                    }
                }
                cur = pool.get(s).next_link();
            },
        }
    }
}

/// A successful restored-list walk yields distinct, in-pool slots.
pub proof fn lemma_active_walk_valid(pool: Seq<Unit>, cur: Option<usize>, acc: Seq<usize>)
    requires
        acc.no_duplicates(),
        forall|k: int| 0 <= k < acc.len() ==> acc[k] < pool.len(),
        spec_active_walk(pool, cur, acc) is Ok,
    ensures
        spec_active_walk(pool, cur, acc)->Ok_0.no_duplicates(),
        forall|k: int|
            0 <= k < spec_active_walk(pool, cur, acc)->Ok_0.len() ==> spec_active_walk(
                pool,
                cur,
                acc,
            )->Ok_0[k] < pool.len(),
    decreases pool.len() - acc.len(),
{
    crate::linked::lemma_distinct_bounded(acc, pool.len());
    match cur {
        None => {},
        Some(i) => {
            if i < pool.len() && !acc.contains(i) {
                crate::linked::lemma_distinct_bounded(acc.push(i), pool.len());
                lemma_active_walk_valid(pool, pool[i as int].entity.next, acc.push(i));
            }
        },
    }
}

/// One entry of the host's order queue table. Opaque to this subsystem:
/// order references serialize as validated table indices.
pub struct Order {
    pub data: [u8; 20],
}

/// One entry of the host's path array. Opaque to this subsystem.
pub struct Path {
    pub data: [u8; 128],
}

/// The common head of the host's unit-ai entries: the list links and the
/// type byte that discriminates the four ai tables.
pub struct UnitAi {
    pub next: Option<usize>,
    pub prev: Option<usize>,
    pub ty: u8,
}

/// One entry of the host's guard-ai table. Opaque to this subsystem.
pub struct GuardAi {
    pub data: [u8; 32],
}

/// One entry of the host's worker-ai table. Opaque to this subsystem.
pub struct WorkerAi {
    pub data: [u8; 24],
}

/// One entry of the host's building-ai table. Opaque to this subsystem.
pub struct BuildingAi {
    pub data: [u8; 44],
}

/// One entry of the host's military-ai table. Opaque to this subsystem.
pub struct MilitaryAi {
    pub data: [u8; 20],
}

} // verus!
