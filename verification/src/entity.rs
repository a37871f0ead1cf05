//! The shared entity substructure: the motion, order and targeting fields
//! present in every pool entity (bullets and units), together with its
//! serializable record.
//!
//! The record replaces every reference with a dense id: `prev`/`next` go
//! through the directory of the entity's own kind (abstracted by the
//! `SaveEntityPointer`/`LoadEntityPointer` capabilities so the codec is
//! written once), the sprite through the sprite directory of the same save,
//! and unit references through the absolute unit-array ids.

use vstd::prelude::*;

use crate::bytes::{
    dec_i16_at,
    dec_i32_at,
    dec_i8_at,
    dec_u16_at,
    dec_u32_at,
    dec_u64_at,
    dec_u8_at,
    enc_i16,
    enc_i32,
    enc_u16,
    enc_u32,
    enc_u64,
    enc_u8,
    get_i16,
    get_i32,
    get_i8,
    get_u16,
    get_u32,
    get_u64,
    get_u8,
    lemma_enc_dec,
    lemma_prefix_refl,
    lemma_prefix_trans,
    lemma_subrange_in_prefix,
    lemma_subrange_within,
    prefix_of,
    put_i16,
    put_i32,
    put_i8,
    put_u16,
    put_u32,
    put_u64,
    put_u8,
};
use crate::errors::{LoadError, SaveError};
use crate::mapping::{spec_id_seq, spec_pointer_seq, LoadMapping, SaveMapping};
use crate::units::{
    lemma_table_ids_round_trip,
    spec_unit_from_id,
    spec_unit_to_id,
    unit_from_id,
    unit_to_id,
    UNIT_LIMIT,
};

verus! {

#[derive(Debug, Clone, Copy, PartialEq, Eq, Structural)]
pub struct Point {
    pub x: i16,
    pub y: i16,
}

pub const POINT_WIRE: usize = 4;

pub open spec fn dec_point_at(s: Seq<u8>, pos: int) -> Point {
    Point {
        x: dec_i16_at(s, pos),
        y: dec_i16_at(s, pos + 2),
    }
}

pub proof fn lemma_dec_point_stable(a: Seq<u8>, b: Seq<u8>, pos: int)
    requires
        0 <= pos,
        pos + POINT_WIRE <= a.len(),
        pos + POINT_WIRE <= b.len(),
        b.subrange(pos, pos + POINT_WIRE) == a.subrange(pos, pos + POINT_WIRE),
    ensures
        dec_point_at(b, pos) == dec_point_at(a, pos),
{
    lemma_subrange_within(a, b, pos, pos + POINT_WIRE, pos + 0, pos + 0 + 2);
    lemma_subrange_within(a, b, pos, pos + POINT_WIRE, pos + 2, pos + 2 + 2);
}

pub open spec fn enc_point(v: Point) -> Seq<u8> {
    enc_i16(v.x) + enc_i16(v.y)
}

pub fn put_point(buf: &mut Vec<u8>, v: &Point)
    ensures
        final(buf)@.len() == old(buf)@.len() + POINT_WIRE,
        prefix_of(old(buf)@, final(buf)@),
        dec_point_at(final(buf)@, old(buf)@.len() as int) == *v,
        final(buf)@ == old(buf)@ + enc_point(*v),
{
    let ghost p = buf@.len() as int;
    let ghost s0 = buf@;
    put_i16(buf, v.x);
    let ghost s1 = buf@;
    put_i16(buf, v.y);
    let ghost s2 = buf@;
    proof {
        lemma_prefix_refl(buf@);
        lemma_prefix_trans(s1, s2, buf@);
        lemma_prefix_trans(s0, s1, buf@);
        lemma_subrange_in_prefix(s1, buf@, p, p + 2);
        lemma_subrange_in_prefix(s2, buf@, p + 2, p + 2 + 2);
        assert(prefix_of(s0, buf@));
        assert(dec_point_at(buf@, p) == *v);
        lemma_enc_dec();
        assert(buf@ =~= s0 + enc_point(*v));
    }
}

pub fn get_point(data: &Vec<u8>, pos: usize) -> (r: Point)
    requires
        pos + POINT_WIRE <= data@.len(),
    ensures
        r == dec_point_at(data@, pos as int),
{
    let _n = data.len();
    Point {
        x: get_i16(data, pos),
        y: get_i16(data, pos + 2),
    }
}

#[derive(Debug, Clone, Copy, PartialEq, Eq, Structural)]
pub struct Point32 {
    pub x: i32,
    pub y: i32,
}

pub const POINT32_WIRE: usize = 8;

pub open spec fn dec_point32_at(s: Seq<u8>, pos: int) -> Point32 {
    Point32 {
        x: dec_i32_at(s, pos),
        y: dec_i32_at(s, pos + 4),
    }
}

pub proof fn lemma_dec_point32_stable(a: Seq<u8>, b: Seq<u8>, pos: int)
    requires
        0 <= pos,
        pos + POINT32_WIRE <= a.len(),
        pos + POINT32_WIRE <= b.len(),
        b.subrange(pos, pos + POINT32_WIRE) == a.subrange(pos, pos + POINT32_WIRE),
    ensures
        dec_point32_at(b, pos) == dec_point32_at(a, pos),
{
    lemma_subrange_within(a, b, pos, pos + POINT32_WIRE, pos + 0, pos + 0 + 4);
    lemma_subrange_within(a, b, pos, pos + POINT32_WIRE, pos + 4, pos + 4 + 4);
}

pub open spec fn enc_point32(v: Point32) -> Seq<u8> {
    enc_i32(v.x) + enc_i32(v.y)
}

pub fn put_point32(buf: &mut Vec<u8>, v: &Point32)
    ensures
        final(buf)@.len() == old(buf)@.len() + POINT32_WIRE,
        prefix_of(old(buf)@, final(buf)@),
        dec_point32_at(final(buf)@, old(buf)@.len() as int) == *v,
        final(buf)@ == old(buf)@ + enc_point32(*v),
{
    let ghost p = buf@.len() as int;
    let ghost s0 = buf@;
    put_i32(buf, v.x);
    let ghost s1 = buf@;
    put_i32(buf, v.y);
    let ghost s2 = buf@;
    proof {
        lemma_prefix_refl(buf@);
        lemma_prefix_trans(s1, s2, buf@);
        lemma_prefix_trans(s0, s1, buf@);
        lemma_subrange_in_prefix(s1, buf@, p, p + 4);
        lemma_subrange_in_prefix(s2, buf@, p + 4, p + 4 + 4);
        assert(prefix_of(s0, buf@));
        assert(dec_point32_at(buf@, p) == *v);
        lemma_enc_dec();
        assert(buf@ =~= s0 + enc_point32(*v));
    }
}

pub fn get_point32(data: &Vec<u8>, pos: usize) -> (r: Point32)
    requires
        pos + POINT32_WIRE <= data@.len(),
    ensures
        r == dec_point32_at(data@, pos as int),
{
    let _n = data.len();
    Point32 {
        x: get_i32(data, pos),
        y: get_i32(data, pos + 4),
    }
}

#[derive(Debug, Clone, Copy, PartialEq, Eq, Structural)]
pub struct EntitySerializable {
    pub prev: u32,
    pub next: u32,
    pub hitpoints: i32,
    pub sprite: u32,
    pub move_target: Point,
    pub move_target_unit: u16,
    pub next_move_waypoint: Point,
    pub unk_move_waypoint: Point,
    pub flingy_flags: u8,
    pub facing_direction: u8,
    pub flingy_turn_speed: u8,
    pub movement_direction: u8,
    pub flingy_id: u16,
    pub unk_26: u8,
    pub flingy_movement_type: u8,
    pub position: Point,
    pub exact_position: Point32,
    pub flingy_top_speed: u32,
    pub current_speed: i32,
    pub next_speed: i32,
    pub speed: i32,
    pub speed2: i32,
    pub acceleration: u16,
    pub new_direction: u8,
    pub target_direction: u8,
    pub player: u8,
    pub order: u8,
    pub order_state: u8,
    pub order_signal: u8,
    pub order_fow_unit: u16,
    pub unused52: u16,
    pub order_timer: u8,
    pub ground_cooldown: u8,
    pub air_cooldown: u8,
    pub spell_cooldown: u8,
    pub order_target_pos: Point,
    pub target: u16,
}

pub const ENTITY_SER_WIRE: usize = 92;

pub open spec fn dec_entity_ser_at(s: Seq<u8>, pos: int) -> EntitySerializable {
    EntitySerializable {
        prev: dec_u32_at(s, pos),
        next: dec_u32_at(s, pos + 4),
        hitpoints: dec_i32_at(s, pos + 8),
        sprite: dec_u32_at(s, pos + 12),
        move_target: dec_point_at(s, pos + 16),
        move_target_unit: dec_u16_at(s, pos + 20),
        next_move_waypoint: dec_point_at(s, pos + 22),
        unk_move_waypoint: dec_point_at(s, pos + 26),
        flingy_flags: dec_u8_at(s, pos + 30),
        facing_direction: dec_u8_at(s, pos + 31),
        flingy_turn_speed: dec_u8_at(s, pos + 32),
        movement_direction: dec_u8_at(s, pos + 33),
        flingy_id: dec_u16_at(s, pos + 34),
        unk_26: dec_u8_at(s, pos + 36),
        flingy_movement_type: dec_u8_at(s, pos + 37),
        position: dec_point_at(s, pos + 38),
        exact_position: dec_point32_at(s, pos + 42),
        flingy_top_speed: dec_u32_at(s, pos + 50),
        current_speed: dec_i32_at(s, pos + 54),
        next_speed: dec_i32_at(s, pos + 58),
        speed: dec_i32_at(s, pos + 62),
        speed2: dec_i32_at(s, pos + 66),
        acceleration: dec_u16_at(s, pos + 70),
        new_direction: dec_u8_at(s, pos + 72),
        target_direction: dec_u8_at(s, pos + 73),
        player: dec_u8_at(s, pos + 74),
        order: dec_u8_at(s, pos + 75),
        order_state: dec_u8_at(s, pos + 76),
        order_signal: dec_u8_at(s, pos + 77),
        order_fow_unit: dec_u16_at(s, pos + 78),
        unused52: dec_u16_at(s, pos + 80),
        order_timer: dec_u8_at(s, pos + 82),
        ground_cooldown: dec_u8_at(s, pos + 83),
        air_cooldown: dec_u8_at(s, pos + 84),
        spell_cooldown: dec_u8_at(s, pos + 85),
        order_target_pos: dec_point_at(s, pos + 86),
        target: dec_u16_at(s, pos + 90),
    }
}

pub proof fn lemma_dec_entity_ser_stable(a: Seq<u8>, b: Seq<u8>, pos: int)
    requires
        0 <= pos,
        pos + ENTITY_SER_WIRE <= a.len(),
        pos + ENTITY_SER_WIRE <= b.len(),
        b.subrange(pos, pos + ENTITY_SER_WIRE) == a.subrange(pos, pos + ENTITY_SER_WIRE),
    ensures
        dec_entity_ser_at(b, pos) == dec_entity_ser_at(a, pos),
{
    lemma_subrange_within(a, b, pos, pos + ENTITY_SER_WIRE, pos + 0, pos + 0 + 4);
    lemma_subrange_within(a, b, pos, pos + ENTITY_SER_WIRE, pos + 4, pos + 4 + 4);
    lemma_subrange_within(a, b, pos, pos + ENTITY_SER_WIRE, pos + 8, pos + 8 + 4);
    lemma_subrange_within(a, b, pos, pos + ENTITY_SER_WIRE, pos + 12, pos + 12 + 4);
    lemma_subrange_within(a, b, pos, pos + ENTITY_SER_WIRE, pos + 16, pos + 16 + 4);
    lemma_dec_point_stable(a, b, pos + 16);
    lemma_subrange_within(a, b, pos, pos + ENTITY_SER_WIRE, pos + 20, pos + 20 + 2);
    lemma_subrange_within(a, b, pos, pos + ENTITY_SER_WIRE, pos + 22, pos + 22 + 4);
    lemma_dec_point_stable(a, b, pos + 22);
    lemma_subrange_within(a, b, pos, pos + ENTITY_SER_WIRE, pos + 26, pos + 26 + 4);
    lemma_dec_point_stable(a, b, pos + 26);
    assert(b[pos + 30] == a[pos + 30]) by {
        assert(b.subrange(pos, pos + ENTITY_SER_WIRE)[30] == b[pos + 30]);
        assert(a.subrange(pos, pos + ENTITY_SER_WIRE)[30] == a[pos + 30]);
    }
    assert(b[pos + 31] == a[pos + 31]) by {
        assert(b.subrange(pos, pos + ENTITY_SER_WIRE)[31] == b[pos + 31]);
        assert(a.subrange(pos, pos + ENTITY_SER_WIRE)[31] == a[pos + 31]);
    }
    assert(b[pos + 32] == a[pos + 32]) by {
        assert(b.subrange(pos, pos + ENTITY_SER_WIRE)[32] == b[pos + 32]);
        assert(a.subrange(pos, pos + ENTITY_SER_WIRE)[32] == a[pos + 32]);
    }
    assert(b[pos + 33] == a[pos + 33]) by {
        assert(b.subrange(pos, pos + ENTITY_SER_WIRE)[33] == b[pos + 33]);
        assert(a.subrange(pos, pos + ENTITY_SER_WIRE)[33] == a[pos + 33]);
    }
    lemma_subrange_within(a, b, pos, pos + ENTITY_SER_WIRE, pos + 34, pos + 34 + 2);
    assert(b[pos + 36] == a[pos + 36]) by {
        assert(b.subrange(pos, pos + ENTITY_SER_WIRE)[36] == b[pos + 36]);
        assert(a.subrange(pos, pos + ENTITY_SER_WIRE)[36] == a[pos + 36]);
    }
    assert(b[pos + 37] == a[pos + 37]) by {
        assert(b.subrange(pos, pos + ENTITY_SER_WIRE)[37] == b[pos + 37]);
        assert(a.subrange(pos, pos + ENTITY_SER_WIRE)[37] == a[pos + 37]);
    }
    lemma_subrange_within(a, b, pos, pos + ENTITY_SER_WIRE, pos + 38, pos + 38 + 4);
    lemma_dec_point_stable(a, b, pos + 38);
    lemma_subrange_within(a, b, pos, pos + ENTITY_SER_WIRE, pos + 42, pos + 42 + 8);
    lemma_dec_point32_stable(a, b, pos + 42);
    lemma_subrange_within(a, b, pos, pos + ENTITY_SER_WIRE, pos + 50, pos + 50 + 4);
    lemma_subrange_within(a, b, pos, pos + ENTITY_SER_WIRE, pos + 54, pos + 54 + 4);
    lemma_subrange_within(a, b, pos, pos + ENTITY_SER_WIRE, pos + 58, pos + 58 + 4);
    lemma_subrange_within(a, b, pos, pos + ENTITY_SER_WIRE, pos + 62, pos + 62 + 4);
    lemma_subrange_within(a, b, pos, pos + ENTITY_SER_WIRE, pos + 66, pos + 66 + 4);
    lemma_subrange_within(a, b, pos, pos + ENTITY_SER_WIRE, pos + 70, pos + 70 + 2);
    assert(b[pos + 72] == a[pos + 72]) by {
        assert(b.subrange(pos, pos + ENTITY_SER_WIRE)[72] == b[pos + 72]);
        assert(a.subrange(pos, pos + ENTITY_SER_WIRE)[72] == a[pos + 72]);
    }
    assert(b[pos + 73] == a[pos + 73]) by {
        assert(b.subrange(pos, pos + ENTITY_SER_WIRE)[73] == b[pos + 73]);
        assert(a.subrange(pos, pos + ENTITY_SER_WIRE)[73] == a[pos + 73]);
    }
    assert(b[pos + 74] == a[pos + 74]) by {
        assert(b.subrange(pos, pos + ENTITY_SER_WIRE)[74] == b[pos + 74]);
        assert(a.subrange(pos, pos + ENTITY_SER_WIRE)[74] == a[pos + 74]);
    }
    assert(b[pos + 75] == a[pos + 75]) by {
        assert(b.subrange(pos, pos + ENTITY_SER_WIRE)[75] == b[pos + 75]);
        assert(a.subrange(pos, pos + ENTITY_SER_WIRE)[75] == a[pos + 75]);
    }
    assert(b[pos + 76] == a[pos + 76]) by {
        assert(b.subrange(pos, pos + ENTITY_SER_WIRE)[76] == b[pos + 76]);
        assert(a.subrange(pos, pos + ENTITY_SER_WIRE)[76] == a[pos + 76]);
    }
    assert(b[pos + 77] == a[pos + 77]) by {
        assert(b.subrange(pos, pos + ENTITY_SER_WIRE)[77] == b[pos + 77]);
        assert(a.subrange(pos, pos + ENTITY_SER_WIRE)[77] == a[pos + 77]);
    }
    lemma_subrange_within(a, b, pos, pos + ENTITY_SER_WIRE, pos + 78, pos + 78 + 2);
    lemma_subrange_within(a, b, pos, pos + ENTITY_SER_WIRE, pos + 80, pos + 80 + 2);
    assert(b[pos + 82] == a[pos + 82]) by {
        assert(b.subrange(pos, pos + ENTITY_SER_WIRE)[82] == b[pos + 82]);
        assert(a.subrange(pos, pos + ENTITY_SER_WIRE)[82] == a[pos + 82]);
    }
    assert(b[pos + 83] == a[pos + 83]) by {
        assert(b.subrange(pos, pos + ENTITY_SER_WIRE)[83] == b[pos + 83]);
        assert(a.subrange(pos, pos + ENTITY_SER_WIRE)[83] == a[pos + 83]);
    }
    assert(b[pos + 84] == a[pos + 84]) by {
        assert(b.subrange(pos, pos + ENTITY_SER_WIRE)[84] == b[pos + 84]);
        assert(a.subrange(pos, pos + ENTITY_SER_WIRE)[84] == a[pos + 84]);
    }
    assert(b[pos + 85] == a[pos + 85]) by {
        assert(b.subrange(pos, pos + ENTITY_SER_WIRE)[85] == b[pos + 85]);
        assert(a.subrange(pos, pos + ENTITY_SER_WIRE)[85] == a[pos + 85]);
    }
    lemma_subrange_within(a, b, pos, pos + ENTITY_SER_WIRE, pos + 86, pos + 86 + 4);
    lemma_dec_point_stable(a, b, pos + 86);
    lemma_subrange_within(a, b, pos, pos + ENTITY_SER_WIRE, pos + 90, pos + 90 + 2);
}

pub open spec fn enc_entity_ser(v: EntitySerializable) -> Seq<u8> {
    enc_u32(v.prev) + enc_u32(v.next) + enc_i32(v.hitpoints) + enc_u32(v.sprite) + enc_point(
        v.move_target,
    ) + enc_u16(v.move_target_unit) + enc_point(v.next_move_waypoint) + enc_point(
        v.unk_move_waypoint,
    ) + enc_u8(v.flingy_flags) + enc_u8(v.facing_direction) + enc_u8(v.flingy_turn_speed) + enc_u8(
        v.movement_direction,
    ) + enc_u16(v.flingy_id) + enc_u8(v.unk_26) + enc_u8(v.flingy_movement_type) + enc_point(
        v.position,
    ) + enc_point32(v.exact_position) + enc_u32(v.flingy_top_speed) + enc_i32(v.current_speed)
        + enc_i32(v.next_speed) + enc_i32(v.speed) + enc_i32(v.speed2) + enc_u16(v.acceleration)
        + enc_u8(v.new_direction) + enc_u8(v.target_direction) + enc_u8(v.player) + enc_u8(v.order)
        + enc_u8(v.order_state) + enc_u8(v.order_signal) + enc_u16(v.order_fow_unit) + enc_u16(
        v.unused52,
    ) + enc_u8(v.order_timer) + enc_u8(v.ground_cooldown) + enc_u8(v.air_cooldown) + enc_u8(
        v.spell_cooldown,
    ) + enc_point(v.order_target_pos) + enc_u16(v.target)
}

pub fn put_entity_ser(buf: &mut Vec<u8>, v: &EntitySerializable)
    ensures
        final(buf)@.len() == old(buf)@.len() + ENTITY_SER_WIRE,
        prefix_of(old(buf)@, final(buf)@),
        dec_entity_ser_at(final(buf)@, old(buf)@.len() as int) == *v,
        final(buf)@ == old(buf)@ + enc_entity_ser(*v),
{
    let ghost p = buf@.len() as int;
    let ghost s0 = buf@;
    put_u32(buf, v.prev);
    let ghost s1 = buf@;
    put_u32(buf, v.next);
    let ghost s2 = buf@;
    put_i32(buf, v.hitpoints);
    let ghost s3 = buf@;
    put_u32(buf, v.sprite);
    let ghost s4 = buf@;
    put_point(buf, &v.move_target);
    let ghost s5 = buf@;
    put_u16(buf, v.move_target_unit);
    let ghost s6 = buf@;
    put_point(buf, &v.next_move_waypoint);
    let ghost s7 = buf@;
    put_point(buf, &v.unk_move_waypoint);
    let ghost s8 = buf@;
    put_u8(buf, v.flingy_flags);
    let ghost s9 = buf@;
    put_u8(buf, v.facing_direction);
    let ghost s10 = buf@;
    put_u8(buf, v.flingy_turn_speed);
    let ghost s11 = buf@;
    put_u8(buf, v.movement_direction);
    let ghost s12 = buf@;
    put_u16(buf, v.flingy_id);
    let ghost s13 = buf@;
    put_u8(buf, v.unk_26);
    let ghost s14 = buf@;
    put_u8(buf, v.flingy_movement_type);
    let ghost s15 = buf@;
    put_point(buf, &v.position);
    let ghost s16 = buf@;
    put_point32(buf, &v.exact_position);
    let ghost s17 = buf@;
    put_u32(buf, v.flingy_top_speed);
    let ghost s18 = buf@;
    put_i32(buf, v.current_speed);
    let ghost s19 = buf@;
    put_i32(buf, v.next_speed);
    let ghost s20 = buf@;
    put_i32(buf, v.speed);
    let ghost s21 = buf@;
    put_i32(buf, v.speed2);
    let ghost s22 = buf@;
    put_u16(buf, v.acceleration);
    let ghost s23 = buf@;
    put_u8(buf, v.new_direction);
    let ghost s24 = buf@;
    put_u8(buf, v.target_direction);
    let ghost s25 = buf@;
    put_u8(buf, v.player);
    let ghost s26 = buf@;
    put_u8(buf, v.order);
    let ghost s27 = buf@;
    put_u8(buf, v.order_state);
    let ghost s28 = buf@;
    put_u8(buf, v.order_signal);
    let ghost s29 = buf@;
    put_u16(buf, v.order_fow_unit);
    let ghost s30 = buf@;
    put_u16(buf, v.unused52);
    let ghost s31 = buf@;
    put_u8(buf, v.order_timer);
    let ghost s32 = buf@;
    put_u8(buf, v.ground_cooldown);
    let ghost s33 = buf@;
    put_u8(buf, v.air_cooldown);
    let ghost s34 = buf@;
    put_u8(buf, v.spell_cooldown);
    let ghost s35 = buf@;
    put_point(buf, &v.order_target_pos);
    let ghost s36 = buf@;
    put_u16(buf, v.target);
    let ghost s37 = buf@;
    proof {
        lemma_prefix_refl(buf@);
        lemma_prefix_trans(s36, s37, buf@);
        lemma_prefix_trans(s35, s36, buf@);
        lemma_prefix_trans(s34, s35, buf@);
        lemma_prefix_trans(s33, s34, buf@);
        lemma_prefix_trans(s32, s33, buf@);
        lemma_prefix_trans(s31, s32, buf@);
        lemma_prefix_trans(s30, s31, buf@);
        lemma_prefix_trans(s29, s30, buf@);
        lemma_prefix_trans(s28, s29, buf@);
        lemma_prefix_trans(s27, s28, buf@);
        lemma_prefix_trans(s26, s27, buf@);
        lemma_prefix_trans(s25, s26, buf@);
        lemma_prefix_trans(s24, s25, buf@);
        lemma_prefix_trans(s23, s24, buf@);
        lemma_prefix_trans(s22, s23, buf@);
        lemma_prefix_trans(s21, s22, buf@);
        lemma_prefix_trans(s20, s21, buf@);
        lemma_prefix_trans(s19, s20, buf@);
        lemma_prefix_trans(s18, s19, buf@);
        lemma_prefix_trans(s17, s18, buf@);
        lemma_prefix_trans(s16, s17, buf@);
        lemma_prefix_trans(s15, s16, buf@);
        lemma_prefix_trans(s14, s15, buf@);
        lemma_prefix_trans(s13, s14, buf@);
        lemma_prefix_trans(s12, s13, buf@);
        lemma_prefix_trans(s11, s12, buf@);
        lemma_prefix_trans(s10, s11, buf@);
        lemma_prefix_trans(s9, s10, buf@);
        lemma_prefix_trans(s8, s9, buf@);
        lemma_prefix_trans(s7, s8, buf@);
        lemma_prefix_trans(s6, s7, buf@);
        lemma_prefix_trans(s5, s6, buf@);
        lemma_prefix_trans(s4, s5, buf@);
        lemma_prefix_trans(s3, s4, buf@);
        lemma_prefix_trans(s2, s3, buf@);
        lemma_prefix_trans(s1, s2, buf@);
        lemma_prefix_trans(s0, s1, buf@);
        lemma_subrange_in_prefix(s1, buf@, p, p + 4);
        lemma_subrange_in_prefix(s2, buf@, p + 4, p + 4 + 4);
        lemma_subrange_in_prefix(s3, buf@, p + 8, p + 8 + 4);
        lemma_subrange_in_prefix(s4, buf@, p + 12, p + 12 + 4);
        lemma_subrange_in_prefix(s5, buf@, p + 16, p + 16 + 4);
        lemma_dec_point_stable(s5, buf@, p + 16);
        lemma_subrange_in_prefix(s6, buf@, p + 20, p + 20 + 2);
        lemma_subrange_in_prefix(s7, buf@, p + 22, p + 22 + 4);
        lemma_dec_point_stable(s7, buf@, p + 22);
        lemma_subrange_in_prefix(s8, buf@, p + 26, p + 26 + 4);
        lemma_dec_point_stable(s8, buf@, p + 26);
        assert(buf@[p + 30] == s9[p + 30]) by {
            assert(buf@.subrange(0, s9.len() as int)[p + 30] == buf@[p + 30]);
            assert(buf@.subrange(0, s9.len() as int)[p + 30] == s9[p + 30]);
        }
        assert(buf@[p + 31] == s10[p + 31]) by {
            assert(buf@.subrange(0, s10.len() as int)[p + 31] == buf@[p + 31]);
            assert(buf@.subrange(0, s10.len() as int)[p + 31] == s10[p + 31]);
        }
        assert(buf@[p + 32] == s11[p + 32]) by {
            assert(buf@.subrange(0, s11.len() as int)[p + 32] == buf@[p + 32]);
            assert(buf@.subrange(0, s11.len() as int)[p + 32] == s11[p + 32]);
        }
        assert(buf@[p + 33] == s12[p + 33]) by {
            assert(buf@.subrange(0, s12.len() as int)[p + 33] == buf@[p + 33]);
            assert(buf@.subrange(0, s12.len() as int)[p + 33] == s12[p + 33]);
        }
        lemma_subrange_in_prefix(s13, buf@, p + 34, p + 34 + 2);
        assert(buf@[p + 36] == s14[p + 36]) by {
            assert(buf@.subrange(0, s14.len() as int)[p + 36] == buf@[p + 36]);
            assert(buf@.subrange(0, s14.len() as int)[p + 36] == s14[p + 36]);
        }
        assert(buf@[p + 37] == s15[p + 37]) by {
            assert(buf@.subrange(0, s15.len() as int)[p + 37] == buf@[p + 37]);
            assert(buf@.subrange(0, s15.len() as int)[p + 37] == s15[p + 37]);
        }
        lemma_subrange_in_prefix(s16, buf@, p + 38, p + 38 + 4);
        lemma_dec_point_stable(s16, buf@, p + 38);
        lemma_subrange_in_prefix(s17, buf@, p + 42, p + 42 + 8);
        lemma_dec_point32_stable(s17, buf@, p + 42);
        lemma_subrange_in_prefix(s18, buf@, p + 50, p + 50 + 4);
        lemma_subrange_in_prefix(s19, buf@, p + 54, p + 54 + 4);
        lemma_subrange_in_prefix(s20, buf@, p + 58, p + 58 + 4);
        lemma_subrange_in_prefix(s21, buf@, p + 62, p + 62 + 4);
        lemma_subrange_in_prefix(s22, buf@, p + 66, p + 66 + 4);
        lemma_subrange_in_prefix(s23, buf@, p + 70, p + 70 + 2);
        assert(buf@[p + 72] == s24[p + 72]) by {
            assert(buf@.subrange(0, s24.len() as int)[p + 72] == buf@[p + 72]);
            assert(buf@.subrange(0, s24.len() as int)[p + 72] == s24[p + 72]);
        }
        assert(buf@[p + 73] == s25[p + 73]) by {
            assert(buf@.subrange(0, s25.len() as int)[p + 73] == buf@[p + 73]);
            assert(buf@.subrange(0, s25.len() as int)[p + 73] == s25[p + 73]);
        }
        assert(buf@[p + 74] == s26[p + 74]) by {
            assert(buf@.subrange(0, s26.len() as int)[p + 74] == buf@[p + 74]);
            assert(buf@.subrange(0, s26.len() as int)[p + 74] == s26[p + 74]);
        }
        assert(buf@[p + 75] == s27[p + 75]) by {
            assert(buf@.subrange(0, s27.len() as int)[p + 75] == buf@[p + 75]);
            assert(buf@.subrange(0, s27.len() as int)[p + 75] == s27[p + 75]);
        }
        assert(buf@[p + 76] == s28[p + 76]) by {
            assert(buf@.subrange(0, s28.len() as int)[p + 76] == buf@[p + 76]);
            assert(buf@.subrange(0, s28.len() as int)[p + 76] == s28[p + 76]);
        }
        assert(buf@[p + 77] == s29[p + 77]) by {
            assert(buf@.subrange(0, s29.len() as int)[p + 77] == buf@[p + 77]);
            assert(buf@.subrange(0, s29.len() as int)[p + 77] == s29[p + 77]);
        }
        lemma_subrange_in_prefix(s30, buf@, p + 78, p + 78 + 2);
        lemma_subrange_in_prefix(s31, buf@, p + 80, p + 80 + 2);
        assert(buf@[p + 82] == s32[p + 82]) by {
            assert(buf@.subrange(0, s32.len() as int)[p + 82] == buf@[p + 82]);
            assert(buf@.subrange(0, s32.len() as int)[p + 82] == s32[p + 82]);
        }
        assert(buf@[p + 83] == s33[p + 83]) by {
            assert(buf@.subrange(0, s33.len() as int)[p + 83] == buf@[p + 83]);
            assert(buf@.subrange(0, s33.len() as int)[p + 83] == s33[p + 83]);
        }
        assert(buf@[p + 84] == s34[p + 84]) by {
            assert(buf@.subrange(0, s34.len() as int)[p + 84] == buf@[p + 84]);
            assert(buf@.subrange(0, s34.len() as int)[p + 84] == s34[p + 84]);
        }
        assert(buf@[p + 85] == s35[p + 85]) by {
            assert(buf@.subrange(0, s35.len() as int)[p + 85] == buf@[p + 85]);
            assert(buf@.subrange(0, s35.len() as int)[p + 85] == s35[p + 85]);
        }
        lemma_subrange_in_prefix(s36, buf@, p + 86, p + 86 + 4);
        lemma_dec_point_stable(s36, buf@, p + 86);
        lemma_subrange_in_prefix(s37, buf@, p + 90, p + 90 + 2);
        assert(prefix_of(s0, buf@));
        assert(dec_entity_ser_at(buf@, p) == *v);
        lemma_enc_dec();
        assert(buf@ =~= s0 + enc_entity_ser(*v));
    }
}

pub fn get_entity_ser(data: &Vec<u8>, pos: usize) -> (r: EntitySerializable)
    requires
        pos + ENTITY_SER_WIRE <= data@.len(),
    ensures
        r == dec_entity_ser_at(data@, pos as int),
{
    let _n = data.len();
    EntitySerializable {
        prev: get_u32(data, pos),
        next: get_u32(data, pos + 4),
        hitpoints: get_i32(data, pos + 8),
        sprite: get_u32(data, pos + 12),
        move_target: get_point(data, pos + 16),
        move_target_unit: get_u16(data, pos + 20),
        next_move_waypoint: get_point(data, pos + 22),
        unk_move_waypoint: get_point(data, pos + 26),
        flingy_flags: get_u8(data, pos + 30),
        facing_direction: get_u8(data, pos + 31),
        flingy_turn_speed: get_u8(data, pos + 32),
        movement_direction: get_u8(data, pos + 33),
        flingy_id: get_u16(data, pos + 34),
        unk_26: get_u8(data, pos + 36),
        flingy_movement_type: get_u8(data, pos + 37),
        position: get_point(data, pos + 38),
        exact_position: get_point32(data, pos + 42),
        flingy_top_speed: get_u32(data, pos + 50),
        current_speed: get_i32(data, pos + 54),
        next_speed: get_i32(data, pos + 58),
        speed: get_i32(data, pos + 62),
        speed2: get_i32(data, pos + 66),
        acceleration: get_u16(data, pos + 70),
        new_direction: get_u8(data, pos + 72),
        target_direction: get_u8(data, pos + 73),
        player: get_u8(data, pos + 74),
        order: get_u8(data, pos + 75),
        order_state: get_u8(data, pos + 76),
        order_signal: get_u8(data, pos + 77),
        order_fow_unit: get_u16(data, pos + 78),
        unused52: get_u16(data, pos + 80),
        order_timer: get_u8(data, pos + 82),
        ground_cooldown: get_u8(data, pos + 83),
        air_cooldown: get_u8(data, pos + 84),
        spell_cooldown: get_u8(data, pos + 85),
        order_target_pos: get_point(data, pos + 86),
        target: get_u16(data, pos + 90),
    }
}

// ---------------------------------------------------------------------------
// The live entity and its reference resolution.
// ---------------------------------------------------------------------------

/// Capability to turn a reference to an entity of one kind into its dense
/// id. Each kind supplies its own resolution: bullets resolve through the
/// directory built for the save, units through their absolute array ids.
pub trait SaveEntityPointer {
    spec fn spec_pointer_to_id(&self, r: Option<usize>) -> Result<u32, SaveError>;

    fn pointer_to_id(&self, r: Option<usize>) -> (res: Result<u32, SaveError>)
        ensures
            res == self.spec_pointer_to_id(r),
    ;
}

/// Capability to resolve a dense id back to a reference of one kind.
pub trait LoadEntityPointer {
    spec fn spec_id_to_pointer(&self, id: u32) -> Result<Option<usize>, LoadError>;

    fn id_to_pointer(&self, id: u32) -> (res: Result<Option<usize>, LoadError>)
        ensures
            res == self.spec_id_to_pointer(id),
    ;
}

/// The live motion, order and targeting fields shared by every pool entity.
/// `prev`/`next` are slots in the entity's own pool; `sprite` is a slot in
/// the sprite arena; `move_target_unit` and `target` are unit array slots.
#[derive(Debug, Clone, Copy, PartialEq, Eq, Structural)]
pub struct Entity {
    pub prev: Option<usize>,
    pub next: Option<usize>,
    pub hitpoints: i32,
    pub sprite: Option<usize>,
    pub move_target: Point,
    pub move_target_unit: Option<usize>,
    pub next_move_waypoint: Point,
    pub unk_move_waypoint: Point,
    pub flingy_flags: u8,
    pub facing_direction: u8,
    pub flingy_turn_speed: u8,
    pub movement_direction: u8,
    pub flingy_id: u16,
    pub unk_26: u8,
    pub flingy_movement_type: u8,
    pub position: Point,
    pub exact_position: Point32,
    pub flingy_top_speed: u32,
    pub current_speed: i32,
    pub next_speed: i32,
    pub speed: i32,
    pub speed2: i32,
    pub acceleration: u16,
    pub new_direction: u8,
    pub target_direction: u8,
    pub player: u8,
    pub order: u8,
    pub order_state: u8,
    pub order_signal: u8,
    pub order_fow_unit: u16,
    pub unused52: u16,
    pub order_timer: u8,
    pub ground_cooldown: u8,
    pub air_cooldown: u8,
    pub spell_cooldown: u8,
    pub order_target_pos: Point,
    pub target: Option<usize>,
}

/// The unit references of an entity lie inside the unit array. This is an
/// invariant of the host image: a unit reference outside the array would
/// already be corruption before any save began.
pub open spec fn entity_unit_refs_ok(e: Entity) -> bool {
    &&& (e.move_target_unit is Some ==> e.move_target_unit->Some_0 < UNIT_LIMIT)
    &&& (e.target is Some ==> e.target->Some_0 < UNIT_LIMIT)
}

/// The record an entity serializes to, or the error of the first reference
/// that does not resolve: own-kind links first, then the sprite.
pub open spec fn spec_entity_ser_fields(e: Entity, prev: u32, next: u32, sprite: u32) -> EntitySerializable {
    EntitySerializable {
        prev,
        next,
        hitpoints: e.hitpoints,
        sprite,
        move_target: e.move_target,
        move_target_unit: spec_unit_to_id(e.move_target_unit),
        next_move_waypoint: e.next_move_waypoint,
        unk_move_waypoint: e.unk_move_waypoint,
        flingy_flags: e.flingy_flags,
        facing_direction: e.facing_direction,
        flingy_turn_speed: e.flingy_turn_speed,
        movement_direction: e.movement_direction,
        flingy_id: e.flingy_id,
        unk_26: e.unk_26,
        flingy_movement_type: e.flingy_movement_type,
        position: e.position,
        exact_position: e.exact_position,
        flingy_top_speed: e.flingy_top_speed,
        current_speed: e.current_speed,
        next_speed: e.next_speed,
        speed: e.speed,
        speed2: e.speed2,
        acceleration: e.acceleration,
        new_direction: e.new_direction,
        target_direction: e.target_direction,
        player: e.player,
        order: e.order,
        order_state: e.order_state,
        order_signal: e.order_signal,
        order_fow_unit: e.order_fow_unit,
        unused52: e.unused52,
        order_timer: e.order_timer,
        ground_cooldown: e.ground_cooldown,
        air_cooldown: e.air_cooldown,
        spell_cooldown: e.spell_cooldown,
        order_target_pos: e.order_target_pos,
        target: spec_unit_to_id(e.target),
    }
}

/// The record an entity serializes to, or the error of the first reference
/// that does not resolve: own-kind links first, then the sprite.
pub open spec fn spec_entity_to_ser<C: SaveEntityPointer>(
    e: Entity,
    c: &C,
    sprites: &SaveMapping,
) -> Result<EntitySerializable, SaveError> {
    let prev = c.spec_pointer_to_id(e.prev);
    let next = c.spec_pointer_to_id(e.next);
    let sprite = sprites.spec_id(e.sprite);
    if prev is Err {
        Err(prev->Err_0)
    } else if next is Err {
        Err(next->Err_0)
    } else if sprite is Err {
        Err(sprite->Err_0)
    } else {
        Ok(spec_entity_ser_fields(e, prev->Ok_0, next->Ok_0, sprite->Ok_0))
    }
}

/// `spec_entity_to_ser` over directory views: the form the chunk pipelines
/// are stated in.
pub open spec fn spec_entity_to_ser_v(
    e: Entity,
    own_ids: Seq<u32>,
    sprite_ids: Seq<u32>,
) -> Result<EntitySerializable, SaveError> {
    let prev = spec_id_seq(own_ids, e.prev);
    let next = spec_id_seq(own_ids, e.next);
    let sprite = spec_id_seq(sprite_ids, e.sprite);
    if prev is Err {
        Err(prev->Err_0)
    } else if next is Err {
        Err(next->Err_0)
    } else if sprite is Err {
        Err(sprite->Err_0)
    } else {
        Ok(spec_entity_ser_fields(e, prev->Ok_0, next->Ok_0, sprite->Ok_0))
    }
}

/// The entity a record deserializes to, or the error of the first id that
/// does not resolve: own-kind links, then the sprite, then the unit ids.
pub open spec fn spec_entity_fields(
    s: EntitySerializable,
    prev: Option<usize>,
    next: Option<usize>,
    sprite: Option<usize>,
    mtu: Option<usize>,
    target: Option<usize>,
) -> Entity {
    Entity {
        prev,
        next,
        hitpoints: s.hitpoints,
        sprite,
        move_target: s.move_target,
        move_target_unit: mtu,
        next_move_waypoint: s.next_move_waypoint,
        unk_move_waypoint: s.unk_move_waypoint,
        flingy_flags: s.flingy_flags,
        facing_direction: s.facing_direction,
        flingy_turn_speed: s.flingy_turn_speed,
        movement_direction: s.movement_direction,
        flingy_id: s.flingy_id,
        unk_26: s.unk_26,
        flingy_movement_type: s.flingy_movement_type,
        position: s.position,
        exact_position: s.exact_position,
        flingy_top_speed: s.flingy_top_speed,
        current_speed: s.current_speed,
        next_speed: s.next_speed,
        speed: s.speed,
        speed2: s.speed2,
        acceleration: s.acceleration,
        new_direction: s.new_direction,
        target_direction: s.target_direction,
        player: s.player,
        order: s.order,
        order_state: s.order_state,
        order_signal: s.order_signal,
        order_fow_unit: s.order_fow_unit,
        unused52: s.unused52,
        order_timer: s.order_timer,
        ground_cooldown: s.ground_cooldown,
        air_cooldown: s.air_cooldown,
        spell_cooldown: s.spell_cooldown,
        order_target_pos: s.order_target_pos,
        target,
    }
}

/// The entity a record deserializes to, or the error of the first id that
/// does not resolve: own-kind links, then the sprite, then the unit ids.
pub open spec fn spec_entity_from_ser<C: LoadEntityPointer>(
    s: EntitySerializable,
    c: &C,
    sprites: &LoadMapping,
) -> Result<Entity, LoadError> {
    let prev = c.spec_id_to_pointer(s.prev);
    let next = c.spec_id_to_pointer(s.next);
    let sprite = sprites.spec_pointer(s.sprite);
    let mtu = spec_unit_from_id(s.move_target_unit);
    let target = spec_unit_from_id(s.target);
    if prev is Err {
        Err(prev->Err_0)
    } else if next is Err {
        Err(next->Err_0)
    } else if sprite is Err {
        Err(sprite->Err_0)
    } else if mtu is Err {
        Err(mtu->Err_0)
    } else if target is Err {
        Err(target->Err_0)
    } else {
        Ok(spec_entity_fields(s, prev->Ok_0, next->Ok_0, sprite->Ok_0, mtu->Ok_0, target->Ok_0))
    }
}

/// `spec_entity_from_ser` over directory views.
pub open spec fn spec_entity_from_ser_v(
    s: EntitySerializable,
    own: Seq<usize>,
    sprites: Seq<usize>,
) -> Result<Entity, LoadError> {
    let prev = spec_pointer_seq(own, s.prev);
    let next = spec_pointer_seq(own, s.next);
    let sprite = spec_pointer_seq(sprites, s.sprite);
    let mtu = spec_unit_from_id(s.move_target_unit);
    let target = spec_unit_from_id(s.target);
    if prev is Err {
        Err(prev->Err_0)
    } else if next is Err {
        Err(next->Err_0)
    } else if sprite is Err {
        Err(sprite->Err_0)
    } else if mtu is Err {
        Err(mtu->Err_0)
    } else if target is Err {
        Err(target->Err_0)
    } else {
        Ok(spec_entity_fields(s, prev->Ok_0, next->Ok_0, sprite->Ok_0, mtu->Ok_0, target->Ok_0))
    }
}

/// Serializes the shared entity fields, replacing every reference with its
/// dense id through the directories of this save.
pub fn entity_serializable<C: SaveEntityPointer>(
    entity: &Entity,
    save_pointer: &C,
    sprites: &SaveMapping,
) -> (r: Result<EntitySerializable, SaveError>)
    requires
        entity_unit_refs_ok(*entity),
    ensures
        r == spec_entity_to_ser(*entity, save_pointer, sprites),
{
    let prev = match save_pointer.pointer_to_id(entity.prev) {
        Ok(v) => v,
        Err(e) => {
            return Err(e);
        },
    };
    let next = match save_pointer.pointer_to_id(entity.next) {
        Ok(v) => v,
        Err(e) => {
            return Err(e);
        },
    };
    let sprite = match save_pointer_sprite_id(sprites, entity.sprite) {
        Ok(v) => v,
        Err(e) => {
            return Err(e);
        },
    };
    Ok(EntitySerializable {
        prev,
        next,
        hitpoints: entity.hitpoints,
        sprite,
        move_target: entity.move_target,
        move_target_unit: unit_to_id(entity.move_target_unit),
        next_move_waypoint: entity.next_move_waypoint,
        unk_move_waypoint: entity.unk_move_waypoint,
        flingy_flags: entity.flingy_flags,
        facing_direction: entity.facing_direction,
        flingy_turn_speed: entity.flingy_turn_speed,
        movement_direction: entity.movement_direction,
        flingy_id: entity.flingy_id,
        unk_26: entity.unk_26,
        flingy_movement_type: entity.flingy_movement_type,
        position: entity.position,
        exact_position: entity.exact_position,
        flingy_top_speed: entity.flingy_top_speed,
        current_speed: entity.current_speed,
        next_speed: entity.next_speed,
        speed: entity.speed,
        speed2: entity.speed2,
        acceleration: entity.acceleration,
        new_direction: entity.new_direction,
        target_direction: entity.target_direction,
        player: entity.player,
        order: entity.order,
        order_state: entity.order_state,
        order_signal: entity.order_signal,
        order_fow_unit: entity.order_fow_unit,
        unused52: entity.unused52,
        order_timer: entity.order_timer,
        ground_cooldown: entity.ground_cooldown,
        air_cooldown: entity.air_cooldown,
        spell_cooldown: entity.spell_cooldown,
        order_target_pos: entity.order_target_pos,
        target: unit_to_id(entity.target),
    })
}

/// The sprite reference of an entity goes through the sprite directory of
/// the same save operation.
fn save_pointer_sprite_id(sprites: &SaveMapping, r: Option<usize>) -> (res: Result<
    u32,
    SaveError,
>)
    ensures
        res == sprites.spec_id(r),
{
    sprites.id(r)
}

/// Rebuilds the shared entity fields from a record, resolving every id back
/// to a reference; each id is validated against its directory or table.
pub fn deserialize_entity<C: LoadEntityPointer>(
    entity: &EntitySerializable,
    load_pointer: &C,
    sprites: &LoadMapping,
) -> (r: Result<Entity, LoadError>)
    ensures
        r == spec_entity_from_ser(*entity, load_pointer, sprites),
{
    let prev = match load_pointer.id_to_pointer(entity.prev) {
        Ok(v) => v,
        Err(e) => {
            return Err(e);
        },
    };
    let next = match load_pointer.id_to_pointer(entity.next) {
        Ok(v) => v,
        Err(e) => {
            return Err(e);
        },
    };
    let sprite = match sprites.pointer(entity.sprite) {
        Ok(v) => v,
        Err(e) => {
            return Err(e);
        },
    };
    let move_target_unit = match unit_from_id(entity.move_target_unit) {
        Ok(v) => v,
        Err(e) => {
            return Err(e);
        },
    };
    let target = match unit_from_id(entity.target) {
        Ok(v) => v,
        Err(e) => {
            return Err(e);
        },
    };
    Ok(Entity {
        prev,
        next,
        hitpoints: entity.hitpoints,
        sprite,
        move_target: entity.move_target,
        move_target_unit,
        next_move_waypoint: entity.next_move_waypoint,
        unk_move_waypoint: entity.unk_move_waypoint,
        flingy_flags: entity.flingy_flags,
        facing_direction: entity.facing_direction,
        flingy_turn_speed: entity.flingy_turn_speed,
        movement_direction: entity.movement_direction,
        flingy_id: entity.flingy_id,
        unk_26: entity.unk_26,
        flingy_movement_type: entity.flingy_movement_type,
        position: entity.position,
        exact_position: entity.exact_position,
        flingy_top_speed: entity.flingy_top_speed,
        current_speed: entity.current_speed,
        next_speed: entity.next_speed,
        speed: entity.speed,
        speed2: entity.speed2,
        acceleration: entity.acceleration,
        new_direction: entity.new_direction,
        target_direction: entity.target_direction,
        player: entity.player,
        order: entity.order,
        order_state: entity.order_state,
        order_signal: entity.order_signal,
        order_fow_unit: entity.order_fow_unit,
        unused52: entity.unused52,
        order_timer: entity.order_timer,
        ground_cooldown: entity.ground_cooldown,
        air_cooldown: entity.air_cooldown,
        spell_cooldown: entity.spell_cooldown,
        order_target_pos: entity.order_target_pos,
        target,
    })
}

/// A bullet-style kind resolves its own `prev`/`next` through the directory
/// built for this save.
impl SaveEntityPointer for SaveMapping {
    open spec fn spec_pointer_to_id(&self, r: Option<usize>) -> Result<u32, SaveError> {
        self.spec_id(r)
    }

    fn pointer_to_id(&self, r: Option<usize>) -> (res: Result<u32, SaveError>) {
        self.id(r)
    }
}

impl LoadEntityPointer for LoadMapping {
    open spec fn spec_id_to_pointer(&self, id: u32) -> Result<Option<usize>, LoadError> {
        self.spec_pointer(id)
    }

    fn id_to_pointer(&self, id: u32) -> (res: Result<Option<usize>, LoadError>) {
        self.pointer(id)
    }
}

/// Resolving through a directory object and through its view agree.
pub proof fn lemma_entity_ser_views(e: Entity, m: &SaveMapping, sprites: &SaveMapping)
    ensures
        spec_entity_to_ser(e, m, sprites) == spec_entity_to_ser_v(e, m@, sprites@),
{
}

pub proof fn lemma_entity_from_ser_views(s: EntitySerializable, m: &LoadMapping, sprites: &LoadMapping)
    ensures
        spec_entity_from_ser(s, m, sprites) == spec_entity_from_ser_v(s, m@, sprites@),
{
}

/// Entity round trip over directory views. Where the save resolved every
/// reference, the load of the written record resolves each id back: the
/// own-kind links land wherever the load directory sends their ids, the
/// sprite comes back to itself because the sprite directories invert each
/// other, and the unit references are absolute.
pub proof fn lemma_entity_rt_v(
    e: Entity,
    own_ids: Seq<u32>,
    sp_ids: Seq<u32>,
    own_slots: Seq<usize>,
    sp_slots: Seq<usize>,
    prev2: Option<usize>,
    next2: Option<usize>,
)
    requires
        entity_unit_refs_ok(e),
        spec_entity_to_ser_v(e, own_ids, sp_ids) is Ok,
        spec_pointer_seq(own_slots, spec_id_seq(own_ids, e.prev)->Ok_0) == Ok::<_, LoadError>(
            prev2,
        ),
        spec_pointer_seq(own_slots, spec_id_seq(own_ids, e.next)->Ok_0) == Ok::<_, LoadError>(
            next2,
        ),
        crate::mapping::maps_inverse(sp_ids, sp_slots),
    ensures
        spec_entity_from_ser_v(spec_entity_to_ser_v(e, own_ids, sp_ids)->Ok_0, own_slots, sp_slots)
            == Ok::<_, LoadError>(Entity { prev: prev2, next: next2, ..e }),
{
    lemma_table_ids_round_trip(e.move_target_unit);
    lemma_table_ids_round_trip(e.target);
    match e.sprite {
        None => {},
        Some(s) => {
            assert(spec_id_seq(sp_ids, Some(s)) is Ok);
        },
    }
}

} // verus!
