//! Projectiles: the bullet pool, the bullet record, and the bullet chunk's
//! save and load paths.
//!
//! Bullets are list-ordered: a save walks the active list to build the
//! pointer directory, emits one globals record (list head, list tail,
//! count) and one record per bullet in list order, and wraps the stream in
//! a framed, compressed chunk. A load opens the chunk, pre-allocates
//! exactly `count` slots so that ids resolve before any record is decoded,
//! and rebuilds the list.

use vstd::prelude::*;

use crate::arena::RawVec;
use crate::bytes::{
    dec_u16_at,
    dec_u32_at,
    dec_u64_at,
    dec_u8_at,
    dec_i16_at,
    dec_i32_at,
    dec_i8_at,
    get_i16,
    get_i32,
    get_i8,
    get_u16,
    get_u32,
    get_u64,
    get_u8,
    enc_u16,
    enc_u8,
    enc_u32,
    lemma_enc_dec,
    lemma_prefix_refl,
    lemma_prefix_trans,
    lemma_subrange_in_prefix,
    lemma_subrange_within,
    prefix_of,
    put_i16,
    put_i32,
    put_i8,
    put_u16,
    put_u32,
    put_u64,
    put_u8,
};
use crate::chunk::{deflate_of, open_chunk, seal_chunk, spec_open_chunk};
use crate::entity::{
    deserialize_entity,
    dec_entity_ser_at,
    enc_entity_ser,
    dec_point_at,
    dec_point32_at,
    entity_serializable,
    entity_unit_refs_ok,
    get_entity_ser,
    get_point,
    get_point32,
    lemma_dec_entity_ser_stable,
    lemma_dec_point_stable,
    lemma_dec_point32_stable,
    lemma_entity_from_ser_views,
    lemma_entity_ser_views,
    put_entity_ser,
    put_point,
    put_point32,
    spec_entity_from_ser_v,
    spec_entity_to_ser_v,
    Entity,
    EntitySerializable,
    ENTITY_SER_WIRE,
    Point,
    Point32,
    POINT_WIRE,
    POINT32_WIRE,
};
use crate::errors::{LoadError, SaveError};
use crate::linked::{
    build_save_directory,
    lemma_walk_links,
    lemma_walk_order_valid,
    spec_walk,
    ListNode,
};
use crate::mapping::{
    dense_view,
    dir_view,
    lemma_dir_view,
    maps_inverse,
    spec_id_seq,
    spec_pointer_seq,
    LoadMapping,
    SaveMapping,
};
use crate::units::{
    lemma_table_ids_round_trip,
    spec_unit_from_id,
    spec_unit_to_id,
    unit_from_id,
    unit_to_id,
    UNIT_LIMIT,
};

verus! {

/// Magic tag of the bullet chunk.
pub const BULLET_SAVE_MAGIC: u16 = 0xffed;

/// Hard ceiling on the bullet chunk: both the encoded record stream and the
/// compressed payload must stay within it.
pub const BULLET_SAVE_MAX_SIZE: u32 = 0x800000;

/// A live projectile. `parent` and `previous_bounce_target` are unit array
/// slots; the list links and the sprite reference sit in `entity`.
#[derive(Debug, Clone, Copy, PartialEq, Eq, Structural)]
pub struct Bullet {
    pub entity: Entity,
    pub weapon_id: u8,
    pub death_timer: u8,
    pub flags: u8,
    pub bounces_remaining: u8,
    pub parent: Option<usize>,
    pub previous_bounce_target: Option<usize>,
    pub spread_seed: u8,
}

impl ListNode for Bullet {
    open spec fn next_of(&self) -> Option<usize> {
        self.entity.next
    }

    open spec fn prev_of(&self) -> Option<usize> {
        self.entity.prev
    }

    fn next_link(&self) -> (r: Option<usize>) {
        self.entity.next
    }
}

/// The bullet pool together with the active-list bounds the host reads.
pub struct BulletSystem {
    pub bullets: RawVec<Bullet>,
    pub first_active: Option<usize>,
    pub last_active: Option<usize>,
}

pub open spec fn bullet_unit_refs_ok(b: Bullet) -> bool {
    &&& entity_unit_refs_ok(b.entity)
    &&& (b.parent is Some ==> b.parent->Some_0 < UNIT_LIMIT)
    &&& (b.previous_bounce_target is Some ==> b.previous_bounce_target->Some_0 < UNIT_LIMIT)
}

/// The record a bullet serializes to over directory views, or the first
/// resolution error.
pub open spec fn spec_bullet_to_ser_v(b: Bullet, own_ids: Seq<u32>, sprite_ids: Seq<u32>) -> Result<
    BulletSer,
    SaveError,
> {
    let entity = spec_entity_to_ser_v(b.entity, own_ids, sprite_ids);
    if entity is Err {
        Err(entity->Err_0)
    } else {
        Ok(BulletSer {
            entity: entity->Ok_0,
            weapon_id: b.weapon_id,
            death_timer: b.death_timer,
            flags: b.flags,
            bounces_remaining: b.bounces_remaining,
            parent: spec_unit_to_id(b.parent),
            previous_bounce_target: spec_unit_to_id(b.previous_bounce_target),
            spread_seed: b.spread_seed,
        })
    }
}

/// The bullet a record deserializes to over directory views, or the first
/// id that does not resolve.
pub open spec fn spec_bullet_from_ser_v(s: BulletSer, own: Seq<usize>, sprites: Seq<usize>) -> Result<
    Bullet,
    LoadError,
> {
    let entity = spec_entity_from_ser_v(s.entity, own, sprites);
    let parent = spec_unit_from_id(s.parent);
    let pbt = spec_unit_from_id(s.previous_bounce_target);
    if entity is Err {
        Err(entity->Err_0)
    } else if parent is Err {
        Err(parent->Err_0)
    } else if pbt is Err {
        Err(pbt->Err_0)
    } else {
        Ok(Bullet {
            entity: entity->Ok_0,
            weapon_id: s.weapon_id,
            death_timer: s.death_timer,
            flags: s.flags,
            bounces_remaining: s.bounces_remaining,
            parent: parent->Ok_0,
            previous_bounce_target: pbt->Ok_0,
            spread_seed: s.spread_seed,
        })
    }
}

/// Serializes one bullet, resolving its references through the directories
/// of this save.
pub fn bullet_serializable(bullet: &Bullet, mapping: &SaveMapping, sprites: &SaveMapping) -> (r:
    Result<BulletSer, SaveError>)
    requires
        bullet_unit_refs_ok(*bullet),
    ensures
        r == spec_bullet_to_ser_v(*bullet, mapping@, sprites@),
{
    proof {
        lemma_entity_ser_views(bullet.entity, mapping, sprites);
    }
    let entity = match entity_serializable(&bullet.entity, mapping, sprites) {
        Ok(v) => v,
        Err(e) => {
            return Err(e);
        },
    };
    Ok(BulletSer {
        entity,
        weapon_id: bullet.weapon_id,
        death_timer: bullet.death_timer,
        flags: bullet.flags,
        bounces_remaining: bullet.bounces_remaining,
        parent: unit_to_id(bullet.parent),
        previous_bounce_target: unit_to_id(bullet.previous_bounce_target),
        spread_seed: bullet.spread_seed,
    })
}

/// Rebuilds one bullet from its record, validating every id.
pub fn deserialize_bullet(bullet: &BulletSer, mapping: &LoadMapping, sprites: &LoadMapping) -> (r:
    Result<Bullet, LoadError>)
    ensures
        r == spec_bullet_from_ser_v(*bullet, mapping@, sprites@),
{
    proof {
        lemma_entity_from_ser_views(bullet.entity, mapping, sprites);
    }
    let entity = match deserialize_entity(&bullet.entity, mapping, sprites) {
        Ok(v) => v,
        Err(e) => {
            return Err(e);
        },
    };
    let parent = match unit_from_id(bullet.parent) {
        Ok(v) => v,
        Err(e) => {
            return Err(e);
        },
    };
    let previous_bounce_target = match unit_from_id(bullet.previous_bounce_target) {
        Ok(v) => v,
        Err(e) => {
            return Err(e);
        },
    };
    Ok(Bullet {
        entity,
        weapon_id: bullet.weapon_id,
        death_timer: bullet.death_timer,
        flags: bullet.flags,
        bounces_remaining: bullet.bounces_remaining,
        parent,
        previous_bounce_target,
        spread_seed: bullet.spread_seed,
    })
}

// ---------------------------------------------------------------------------
// The record stream.
// ---------------------------------------------------------------------------

/// Decoding `count` bullet records starting at `pos`: the exact sequence of
/// bullets, or the first failure (a truncated stream or an id that does not
/// resolve).
pub open spec fn spec_decode_bullets(
    stream: Seq<u8>,
    pos: int,
    count: nat,
    own: Seq<usize>,
    sprites: Seq<usize>,
) -> Result<Seq<Bullet>, LoadError>
    decreases count,
{
    if count == 0 {
        Ok(Seq::<Bullet>::empty())
    } else if pos + BULLET_SER_WIRE > stream.len() {
        Err(LoadError::Serialize)
    } else {
        let b = spec_bullet_from_ser_v(dec_bullet_ser_at(stream, pos), own, sprites);
        if b is Err {
            Err(b->Err_0)
        } else {
            let rest = spec_decode_bullets(
                stream,
                pos + BULLET_SER_WIRE,
                (count - 1) as nat,
                own,
                sprites,
            );
            if rest is Err {
                Err(rest->Err_0)
            } else {
                Ok(seq![b->Ok_0] + rest->Ok_0)
            }
        }
    }
}

/// What a bullet chunk loads to: the bullets in record order together with
/// the resolved list head and tail, or the exact error the chunk is
/// rejected with.
pub open spec fn spec_load_bullets(data: Seq<u8>, sprites: Seq<usize>) -> Result<
    (Seq<Bullet>, Option<usize>, Option<usize>),
    LoadError,
> {
    let c = spec_open_chunk(data, BULLET_SAVE_MAGIC, BULLET_SAVE_MAX_SIZE);
    if c is Err {
        Err(c->Err_0)
    } else {
        let s = c->Ok_0;
        if s.len() < BULLET_GLOBALS_WIRE {
            Err(LoadError::Serialize)
        } else {
            let g = dec_bullet_globals_at(s, 0);
            if BULLET_GLOBALS_WIRE + g.bullet_count * BULLET_SER_WIRE > s.len() {
                Err(LoadError::Serialize)
            } else {
                let own = dense_view(g.bullet_count as nat);
                let bs = spec_decode_bullets(
                    s,
                    BULLET_GLOBALS_WIRE as int,
                    g.bullet_count as nat,
                    own,
                    sprites,
                );
                if bs is Err {
                    Err(bs->Err_0)
                } else {
                    let first = spec_pointer_seq(own, g.first_bullet);
                    if first is Err {
                        Err(first->Err_0)
                    } else {
                        let last = spec_pointer_seq(own, g.last_bullet);
                        if last is Err {
                            Err(last->Err_0)
                        } else {
                            Ok((bs->Ok_0, first->Ok_0, last->Ok_0))
                        }
                    }
                }
            }
        }
    }
}

/// The first error record emission runs into from record `i` on: a
/// reference that does not resolve, or the cumulative encoded size passing
/// the ceiling, reported with the exact byte count at the breach.
pub open spec fn spec_emit_bullets_err(
    pool: Seq<Bullet>,
    order: Seq<usize>,
    i: int,
    dir: Seq<u32>,
    sprite_ids: Seq<u32>,
) -> Option<SaveError>
    decreases order.len() - i,
{
    if i < 0 || i >= order.len() {
        None
    } else {
        let r = spec_bullet_to_ser_v(pool[order[i] as int], dir, sprite_ids);
        if r is Err {
            Some(r->Err_0)
        } else if BULLET_GLOBALS_WIRE + (i + 1) * BULLET_SER_WIRE > BULLET_SAVE_MAX_SIZE {
            Some(SaveError::SizeLimit((BULLET_GLOBALS_WIRE + (i + 1) * BULLET_SER_WIRE) as u64))
        } else {
            spec_emit_bullets_err(pool, order, i + 1, dir, sprite_ids)
        }
    }
}

/// The error a bullet save reports, if any: a corrupt active list, then a
/// list tail absent from the directory, then the first record error.
pub open spec fn spec_save_bullets_outcome(sys: &BulletSystem, sprite_ids: Seq<u32>) -> Option<
    SaveError,
> {
    let w = spec_walk(sys.bullets@, sys.first_active, Seq::<usize>::empty());
    if w is Err {
        Some(w->Err_0)
    } else {
        let order = w->Ok_0;
        let dir = dir_view(order, sys.bullets@.len());
        if spec_id_seq(dir, sys.last_active) is Err {
            Some(SaveError::InvalidPointer)
        } else {
            spec_emit_bullets_err(sys.bullets@, order, 0, dir, sprite_ids)
        }
    }
}

/// A well-formed bullet system: the active list walks to completion, its
/// back links mirror the forward links, the recorded tail is the last
/// element, and every listed bullet's unit references lie in the unit
/// array.
pub open spec fn bullets_wf(sys: &BulletSystem) -> bool {
    let w = spec_walk(sys.bullets@, sys.first_active, Seq::<usize>::empty());
    &&& w is Ok
    &&& {
        let order = w->Ok_0;
        &&& (forall|k: int|
            0 <= k < order.len() ==> (#[trigger] sys.bullets@[order[k] as int].entity.prev) == (
            if k == 0 {
                None::<usize>
            } else {
                Some(order[k - 1])
            }))
        &&& sys.last_active == (if order.len() == 0 {
            None::<usize>
        } else {
            Some(order[order.len() - 1])
        })
        &&& (forall|k: int|
            0 <= k < order.len() ==> bullet_unit_refs_ok(
                #[trigger] sys.bullets@[order[k] as int],
            ))
    }
}

/// A bullet as the load rebuilds it when the save traversal put it at
/// position `k` of `n`: the list links are renamed to the dense positions,
/// everything else is untouched.
pub open spec fn spec_bullet_renumbered(b: Bullet, k: int, n: int) -> Bullet {
    Bullet {
        entity: Entity {
            prev: if k == 0 {
                None
            } else {
                Some((k - 1) as usize)
            },
            next: if k + 1 >= n {
                None
            } else {
                Some((k + 1) as usize)
            },
            ..b.entity
        },
        ..b
    }
}

/// The bullet sequence a round trip reproduces: the listed bullets in list
/// order, links renamed to positions.
pub open spec fn spec_loaded_bullets(pool: Seq<Bullet>, order: Seq<usize>) -> Seq<Bullet> {
    Seq::new(order.len(), |k: int| spec_bullet_renumbered(pool[order[k] as int], k, order.len() as int))
}

#[derive(Debug, Clone, Copy, PartialEq, Eq, Structural)]
pub struct BulletSer {
    pub entity: EntitySerializable,
    pub weapon_id: u8,
    pub death_timer: u8,
    pub flags: u8,
    pub bounces_remaining: u8,
    pub parent: u16,
    pub previous_bounce_target: u16,
    pub spread_seed: u8,
}

pub const BULLET_SER_WIRE: usize = 101;

pub open spec fn dec_bullet_ser_at(s: Seq<u8>, pos: int) -> BulletSer {
    BulletSer {
        entity: dec_entity_ser_at(s, pos),
        weapon_id: dec_u8_at(s, pos + 92),
        death_timer: dec_u8_at(s, pos + 93),
        flags: dec_u8_at(s, pos + 94),
        bounces_remaining: dec_u8_at(s, pos + 95),
        parent: dec_u16_at(s, pos + 96),
        previous_bounce_target: dec_u16_at(s, pos + 98),
        spread_seed: dec_u8_at(s, pos + 100),
    }
}

pub proof fn lemma_dec_bullet_ser_stable(a: Seq<u8>, b: Seq<u8>, pos: int)
    requires
        0 <= pos,
        pos + BULLET_SER_WIRE <= a.len(),
        pos + BULLET_SER_WIRE <= b.len(),
        b.subrange(pos, pos + BULLET_SER_WIRE) == a.subrange(pos, pos + BULLET_SER_WIRE),
    ensures
        dec_bullet_ser_at(b, pos) == dec_bullet_ser_at(a, pos),
{
    lemma_subrange_within(a, b, pos, pos + BULLET_SER_WIRE, pos + 0, pos + 0 + 92);
    lemma_dec_entity_ser_stable(a, b, pos + 0);
    assert(b[pos + 92] == a[pos + 92]) by {
        assert(b.subrange(pos, pos + BULLET_SER_WIRE)[92] == b[pos + 92]);
        assert(a.subrange(pos, pos + BULLET_SER_WIRE)[92] == a[pos + 92]);
    }
    assert(b[pos + 93] == a[pos + 93]) by {
        assert(b.subrange(pos, pos + BULLET_SER_WIRE)[93] == b[pos + 93]);
        assert(a.subrange(pos, pos + BULLET_SER_WIRE)[93] == a[pos + 93]);
    }
    assert(b[pos + 94] == a[pos + 94]) by {
        assert(b.subrange(pos, pos + BULLET_SER_WIRE)[94] == b[pos + 94]);
        assert(a.subrange(pos, pos + BULLET_SER_WIRE)[94] == a[pos + 94]);
    }
    assert(b[pos + 95] == a[pos + 95]) by {
        assert(b.subrange(pos, pos + BULLET_SER_WIRE)[95] == b[pos + 95]);
        assert(a.subrange(pos, pos + BULLET_SER_WIRE)[95] == a[pos + 95]);
    }
    lemma_subrange_within(a, b, pos, pos + BULLET_SER_WIRE, pos + 96, pos + 96 + 2);
    lemma_subrange_within(a, b, pos, pos + BULLET_SER_WIRE, pos + 98, pos + 98 + 2);
    assert(b[pos + 100] == a[pos + 100]) by {
        assert(b.subrange(pos, pos + BULLET_SER_WIRE)[100] == b[pos + 100]);
        assert(a.subrange(pos, pos + BULLET_SER_WIRE)[100] == a[pos + 100]);
    }
}

pub open spec fn enc_bullet_ser(v: BulletSer) -> Seq<u8> {
    enc_entity_ser(v.entity) + enc_u8(v.weapon_id) + enc_u8(v.death_timer) + enc_u8(v.flags)
        + enc_u8(v.bounces_remaining) + enc_u16(v.parent) + enc_u16(v.previous_bounce_target)
        + enc_u8(v.spread_seed)
}

pub fn put_bullet_ser(buf: &mut Vec<u8>, v: &BulletSer)
    ensures
        final(buf)@.len() == old(buf)@.len() + BULLET_SER_WIRE,
        prefix_of(old(buf)@, final(buf)@),
        dec_bullet_ser_at(final(buf)@, old(buf)@.len() as int) == *v,
        final(buf)@ == old(buf)@ + enc_bullet_ser(*v),
{
    let ghost p = buf@.len() as int;
    let ghost s0 = buf@;
    put_entity_ser(buf, &v.entity);
    let ghost s1 = buf@;
    put_u8(buf, v.weapon_id);
    let ghost s2 = buf@;
    put_u8(buf, v.death_timer);
    let ghost s3 = buf@;
    put_u8(buf, v.flags);
    let ghost s4 = buf@;
    put_u8(buf, v.bounces_remaining);
    let ghost s5 = buf@;
    put_u16(buf, v.parent);
    let ghost s6 = buf@;
    put_u16(buf, v.previous_bounce_target);
    let ghost s7 = buf@;
    put_u8(buf, v.spread_seed);
    let ghost s8 = buf@;
    proof {
        lemma_prefix_refl(buf@);
        lemma_prefix_trans(s7, s8, buf@);
        lemma_prefix_trans(s6, s7, buf@);
        lemma_prefix_trans(s5, s6, buf@);
        lemma_prefix_trans(s4, s5, buf@);
        lemma_prefix_trans(s3, s4, buf@);
        lemma_prefix_trans(s2, s3, buf@);
        lemma_prefix_trans(s1, s2, buf@);
        lemma_prefix_trans(s0, s1, buf@);
        lemma_subrange_in_prefix(s1, buf@, p, p + 92);
        lemma_dec_entity_ser_stable(s1, buf@, p);
        assert(buf@[p + 92] == s2[p + 92]) by {
            assert(buf@.subrange(0, s2.len() as int)[p + 92] == buf@[p + 92]);
            assert(buf@.subrange(0, s2.len() as int)[p + 92] == s2[p + 92]);
        }
        assert(buf@[p + 93] == s3[p + 93]) by {
            assert(buf@.subrange(0, s3.len() as int)[p + 93] == buf@[p + 93]);
            assert(buf@.subrange(0, s3.len() as int)[p + 93] == s3[p + 93]);
        }
        assert(buf@[p + 94] == s4[p + 94]) by {
            assert(buf@.subrange(0, s4.len() as int)[p + 94] == buf@[p + 94]);
            assert(buf@.subrange(0, s4.len() as int)[p + 94] == s4[p + 94]);
        }
        assert(buf@[p + 95] == s5[p + 95]) by {
            assert(buf@.subrange(0, s5.len() as int)[p + 95] == buf@[p + 95]);
            assert(buf@.subrange(0, s5.len() as int)[p + 95] == s5[p + 95]);
        }
        lemma_subrange_in_prefix(s6, buf@, p + 96, p + 96 + 2);
        lemma_subrange_in_prefix(s7, buf@, p + 98, p + 98 + 2);
        assert(buf@[p + 100] == s8[p + 100]) by {
            assert(buf@.subrange(0, s8.len() as int)[p + 100] == buf@[p + 100]);
            assert(buf@.subrange(0, s8.len() as int)[p + 100] == s8[p + 100]);
        }
        assert(prefix_of(s0, buf@));
        assert(dec_bullet_ser_at(buf@, p) == *v);
        lemma_enc_dec();
        assert(buf@ =~= s0 + enc_bullet_ser(*v));
    }
}

pub fn get_bullet_ser(data: &Vec<u8>, pos: usize) -> (r: BulletSer)
    requires
        pos + BULLET_SER_WIRE <= data@.len(),
    ensures
        r == dec_bullet_ser_at(data@, pos as int),
{
    let _n = data.len();
    BulletSer {
        entity: get_entity_ser(data, pos),
        weapon_id: get_u8(data, pos + 92),
        death_timer: get_u8(data, pos + 93),
        flags: get_u8(data, pos + 94),
        bounces_remaining: get_u8(data, pos + 95),
        parent: get_u16(data, pos + 96),
        previous_bounce_target: get_u16(data, pos + 98),
        spread_seed: get_u8(data, pos + 100),
    }
}

#[derive(Debug, Clone, Copy, PartialEq, Eq, Structural)]
pub struct BulletGlobalsSer {
    pub first_bullet: u32,
    pub last_bullet: u32,
    pub bullet_count: u32,
}

pub const BULLET_GLOBALS_WIRE: usize = 12;

pub open spec fn dec_bullet_globals_at(s: Seq<u8>, pos: int) -> BulletGlobalsSer {
    BulletGlobalsSer {
        first_bullet: dec_u32_at(s, pos),
        last_bullet: dec_u32_at(s, pos + 4),
        bullet_count: dec_u32_at(s, pos + 8),
    }
}

pub proof fn lemma_dec_bullet_globals_stable(a: Seq<u8>, b: Seq<u8>, pos: int)
    requires
        0 <= pos,
        pos + BULLET_GLOBALS_WIRE <= a.len(),
        pos + BULLET_GLOBALS_WIRE <= b.len(),
        b.subrange(pos, pos + BULLET_GLOBALS_WIRE) == a.subrange(pos, pos + BULLET_GLOBALS_WIRE),
    ensures
        dec_bullet_globals_at(b, pos) == dec_bullet_globals_at(a, pos),
{
    lemma_subrange_within(a, b, pos, pos + BULLET_GLOBALS_WIRE, pos + 0, pos + 0 + 4);
    lemma_subrange_within(a, b, pos, pos + BULLET_GLOBALS_WIRE, pos + 4, pos + 4 + 4);
    lemma_subrange_within(a, b, pos, pos + BULLET_GLOBALS_WIRE, pos + 8, pos + 8 + 4);
}

pub open spec fn enc_bullet_globals(v: BulletGlobalsSer) -> Seq<u8> {
    enc_u32(v.first_bullet) + enc_u32(v.last_bullet) + enc_u32(v.bullet_count)
}

pub fn put_bullet_globals(buf: &mut Vec<u8>, v: &BulletGlobalsSer)
    ensures
        final(buf)@.len() == old(buf)@.len() + BULLET_GLOBALS_WIRE,
        prefix_of(old(buf)@, final(buf)@),
        dec_bullet_globals_at(final(buf)@, old(buf)@.len() as int) == *v,
        final(buf)@ == old(buf)@ + enc_bullet_globals(*v),
{
    let ghost p = buf@.len() as int;
    let ghost s0 = buf@;
    put_u32(buf, v.first_bullet);
    let ghost s1 = buf@;
    put_u32(buf, v.last_bullet);
    let ghost s2 = buf@;
    put_u32(buf, v.bullet_count);
    let ghost s3 = buf@;
    proof {
        lemma_prefix_refl(buf@);
        lemma_prefix_trans(s2, s3, buf@);
        lemma_prefix_trans(s1, s2, buf@);
        lemma_prefix_trans(s0, s1, buf@);
        lemma_subrange_in_prefix(s1, buf@, p, p + 4);
        lemma_subrange_in_prefix(s2, buf@, p + 4, p + 4 + 4);
        lemma_subrange_in_prefix(s3, buf@, p + 8, p + 8 + 4);
        assert(prefix_of(s0, buf@));
        assert(dec_bullet_globals_at(buf@, p) == *v);
        lemma_enc_dec();
        assert(buf@ =~= s0 + enc_bullet_globals(*v));
    }
}

pub fn get_bullet_globals(data: &Vec<u8>, pos: usize) -> (r: BulletGlobalsSer)
    requires
        pos + BULLET_GLOBALS_WIRE <= data@.len(),
    ensures
        r == dec_bullet_globals_at(data@, pos as int),
{
    let _n = data.len();
    BulletGlobalsSer {
        first_bullet: get_u32(data, pos),
        last_bullet: get_u32(data, pos + 4),
        bullet_count: get_u32(data, pos + 8),
    }
}

/// Bullet round trip over directory views, one record.
proof fn lemma_bullet_rt_v(
    b: Bullet,
    own_ids: Seq<u32>,
    sp_ids: Seq<u32>,
    own_slots: Seq<usize>,
    sp_slots: Seq<usize>,
    prev2: Option<usize>,
    next2: Option<usize>,
)
    requires
        bullet_unit_refs_ok(b),
        spec_bullet_to_ser_v(b, own_ids, sp_ids) is Ok,
        spec_pointer_seq(own_slots, spec_id_seq(own_ids, b.entity.prev)->Ok_0) == Ok::<
            _,
            LoadError,
        >(prev2),
        spec_pointer_seq(own_slots, spec_id_seq(own_ids, b.entity.next)->Ok_0) == Ok::<
            _,
            LoadError,
        >(next2),
        maps_inverse(sp_ids, sp_slots),
    ensures
        spec_bullet_from_ser_v(spec_bullet_to_ser_v(b, own_ids, sp_ids)->Ok_0, own_slots, sp_slots)
            == Ok::<_, LoadError>(
            Bullet { entity: Entity { prev: prev2, next: next2, ..b.entity }, ..b },
        ),
{
    crate::entity::lemma_entity_rt_v(
        b.entity,
        own_ids,
        sp_ids,
        own_slots,
        sp_slots,
        prev2,
        next2,
    );
    lemma_table_ids_round_trip(b.parent);
    lemma_table_ids_round_trip(b.previous_bounce_target);
}

/// Peeling the record decoder: where every remaining record deserializes
/// to the expected bullet, the decoder returns exactly the expected tail.
proof fn lemma_decode_bullets_prefix(
    stream: Seq<u8>,
    i: int,
    n: int,
    own: Seq<usize>,
    sprites: Seq<usize>,
    expected: Seq<Bullet>,
)
    requires
        0 <= i <= n,
        expected.len() == n,
        BULLET_GLOBALS_WIRE + n * BULLET_SER_WIRE <= stream.len(),
        forall|j: int|
            i <= j < n ==> spec_bullet_from_ser_v(
                #[trigger] dec_bullet_ser_at(stream, BULLET_GLOBALS_WIRE + j * BULLET_SER_WIRE),
                own,
                sprites,
            ) == Ok::<Bullet, LoadError>(expected[j]),
    ensures
        spec_decode_bullets(
            stream,
            BULLET_GLOBALS_WIRE + i * BULLET_SER_WIRE,
            (n - i) as nat,
            own,
            sprites,
        ) == Ok::<Seq<Bullet>, LoadError>(expected.skip(i)),
    decreases n - i,
{
    if i == n {
        assert(expected.skip(n) =~= Seq::<Bullet>::empty());
    } else {
        lemma_decode_bullets_prefix(stream, i + 1, n, own, sprites, expected);
        assert(BULLET_GLOBALS_WIRE + i * BULLET_SER_WIRE + BULLET_SER_WIRE == BULLET_GLOBALS_WIRE
            + (i + 1) * BULLET_SER_WIRE) by (nonlinear_arith);
        assert((i + 1) * BULLET_SER_WIRE <= n * BULLET_SER_WIRE) by (nonlinear_arith)
            requires i + 1 <= n, BULLET_SER_WIRE > 0;
        assert(expected.skip(i) =~= seq![expected[i]] + expected.skip(i + 1));
    }
}

/// The bytes the bullet records from position `i` of the traversal append
/// to `acc`. Meaningful together with `spec_save_bullets_outcome`: where
/// the outcome is `None`, every record serializes, and this is the exact
/// record stream the save emits after the globals record.
pub open spec fn spec_emit_bullet_records(
    pool: Seq<Bullet>,
    order: Seq<usize>,
    i: int,
    dir: Seq<u32>,
    sprite_ids: Seq<u32>,
    acc: Seq<u8>,
) -> Seq<u8>
    decreases order.len() - i,
{
    if i < 0 || i >= order.len() {
        acc
    } else {
        let r = spec_bullet_to_ser_v(pool[order[i] as int], dir, sprite_ids);
        spec_emit_bullet_records(pool, order, i + 1, dir, sprite_ids, acc + enc_bullet_ser(
            r->Ok_0,
        ))
    }
}

/// The exact uncompressed record stream a bullet save emits: the globals
/// record, then one record per listed bullet in traversal order.
/// Meaningful where the active list walks to completion.
pub open spec fn spec_bullet_stream(sys: &BulletSystem, sprite_ids: Seq<u32>) -> Seq<u8> {
    let order = spec_walk(sys.bullets@, sys.first_active, Seq::<usize>::empty())->Ok_0;
    let dir = dir_view(order, sys.bullets@.len());
    let g = BulletGlobalsSer {
        first_bullet: spec_id_seq(dir, sys.first_active)->Ok_0,
        last_bullet: spec_id_seq(dir, sys.last_active)->Ok_0,
        bullet_count: order.len() as u32,
    };
    spec_emit_bullet_records(sys.bullets@, order, 0, dir, sprite_ids, enc_bullet_globals(g))
}

/// Whether the save of a bullet system is free of panics that the host
/// image itself would already make impossible: every listed bullet's unit
/// references lie in the unit array.
pub open spec fn bullets_save_refs_ok(sys: &BulletSystem) -> bool {
    let w = spec_walk(sys.bullets@, sys.first_active, Seq::<usize>::empty());
    w is Ok ==> forall|k: int|
        0 <= k < w->Ok_0.len() ==> bullet_unit_refs_ok(#[trigger] sys.bullets@[w->Ok_0[k] as int])
}

/// Saves the bullet chunk: walks the active list to assign dense ids,
/// emits the globals record and one record per bullet in list order,
/// checking the cumulative encoded size against the ceiling after every
/// record, then compresses and frames the stream.
///
/// The last clause is the round-trip law for bullets: on a well-formed
/// system, loading the produced chunk with any sprite directory that
/// inverts the one used here rebuilds exactly the listed bullets in list
/// order, with the list links renamed to their dense positions and every
/// other field untouched.
#[verifier::rlimit(100)]
#[verifier::spinoff_prover]
pub fn save_bullets(sys: &BulletSystem, sprites: &SaveMapping) -> (r: Result<Vec<u8>, SaveError>)
    requires
        sys.bullets@.len() < 0xffff_ffff,
        bullets_save_refs_ok(sys),
    ensures
        spec_save_bullets_outcome(sys, sprites@) matches Some(e) ==> r == Err::<Vec<u8>, _>(e),
        r is Ok ==> spec_save_bullets_outcome(sys, sprites@) is None,
        r is Err ==> (spec_save_bullets_outcome(sys, sprites@) == Some(r->Err_0)
            || r->Err_0 matches SaveError::SizeLimit(_)),
        spec_save_bullets_outcome(sys, sprites@) is None ==> ({
            let stream = spec_bullet_stream(sys, sprites@);
            &&& (deflate_of(stream).len() <= BULLET_SAVE_MAX_SIZE ==> (r matches Ok(bytes)
                && spec_open_chunk(bytes@, BULLET_SAVE_MAGIC, BULLET_SAVE_MAX_SIZE) == Ok::<
                    Seq<u8>,
                    LoadError,
                >(stream)))
            &&& (deflate_of(stream).len() > BULLET_SAVE_MAX_SIZE ==> r == Err::<Vec<u8>, _>(
                SaveError::SizeLimit(deflate_of(stream).len() as u64),
            ))
        }),
        bullets_wf(sys) && r is Ok ==> (forall|sp_slots: Seq<usize>|
            #[trigger] maps_inverse(sprites@, sp_slots) ==> spec_load_bullets(r->Ok_0@, sp_slots)
                == Ok::<_, LoadError>(
                (
                    spec_loaded_bullets(
                        sys.bullets@,
                        spec_walk(sys.bullets@, sys.first_active, Seq::<usize>::empty())->Ok_0,
                    ),
                    if spec_walk(sys.bullets@, sys.first_active, Seq::<usize>::empty())->Ok_0.len()
                        == 0 {
                        None::<usize>
                    } else {
                        Some(0usize)
                    },
                    if spec_walk(sys.bullets@, sys.first_active, Seq::<usize>::empty())->Ok_0.len()
                        == 0 {
                        None::<usize>
                    } else {
                        Some(
                            (spec_walk(
                                sys.bullets@,
                                sys.first_active,
                                Seq::<usize>::empty(),
                            )->Ok_0.len() - 1) as usize,
                        )
                    },
                ),
            )),
{
    let ghost pool = sys.bullets@;
    let ghost w = spec_walk(pool, sys.first_active, Seq::<usize>::empty());
    let (order, mapping) = match build_save_directory(&sys.bullets, sys.first_active) {
        Ok(p) => p,
        Err(e) => {
            return Err(e);
        },
    };
    let ghost ord = order@;
    proof {
        lemma_walk_order_valid(pool, sys.first_active, Seq::<usize>::empty());
        lemma_dir_view(mapping@, ord, pool.len());
        lemma_walk_links(pool, sys.first_active, Seq::<usize>::empty());
    }
    let ghost dir = mapping@;
    let n = order.len();
    let first_id = match mapping.id(sys.first_active) {
        Ok(v) => v,
        Err(e) => {
            proof {
                if sys.first_active is Some {
                    crate::mapping::lemma_dir_view_resolves(ord, pool.len(), 0);
                }
                assert(false);
            }
            return Err(e);
        },
    };
    let last_id = match mapping.id(sys.last_active) {
        Ok(v) => v,
        Err(e) => {
            return Err(e);
        },
    };
    let mut stream: Vec<u8> = Vec::new();
    let g = BulletGlobalsSer { first_bullet: first_id, last_bullet: last_id, bullet_count: (
    n as u32) };
    put_bullet_globals(&mut stream, &g);
    let ghost acc0 = enc_bullet_globals(g);
    proof {
        assert(stream@ =~= acc0);
    }
    let mut k: usize = 0;
    while k < n
        invariant
            n == ord.len(),
            k <= n,
            pool == sys.bullets@,
            pool.len() < 0xffff_ffff,
            order@ == ord,
            spec_walk(pool, sys.first_active, Seq::<usize>::empty()) == Ok::<_, SaveError>(ord),
            bullets_save_refs_ok(sys),
            forall|j: int| 0 <= j < ord.len() ==> ord[j] < pool.len(),
            mapping@ == dir,
            dir == dir_view(ord, pool.len()),
            spec_id_seq(dir, sys.last_active) is Ok,
            stream@.len() == BULLET_GLOBALS_WIRE + k * BULLET_SER_WIRE,
            stream@.len() <= BULLET_SAVE_MAX_SIZE,
            dec_bullet_globals_at(stream@, 0) == g,
            g.bullet_count == n as u32,
            g.first_bullet == spec_id_seq(dir, sys.first_active)->Ok_0,
            g.last_bullet == spec_id_seq(dir, sys.last_active)->Ok_0,
            forall|j: int|
                0 <= j < k ==> (#[trigger] spec_bullet_to_ser_v(
                    pool[ord[j] as int],
                    dir,
                    sprites@,
                )) is Ok,
            forall|j: int|
                0 <= j < k ==> dec_bullet_ser_at(
                    stream@,
                    BULLET_GLOBALS_WIRE + j * BULLET_SER_WIRE,
                ) == (#[trigger] spec_bullet_to_ser_v(pool[ord[j] as int], dir, sprites@))->Ok_0,
            spec_emit_bullets_err(pool, ord, 0, dir, sprites@) == spec_emit_bullets_err(
                pool,
                ord,
                k as int,
                dir,
                sprites@,
            ),
            spec_emit_bullet_records(pool, ord, 0, dir, sprites@, acc0)
                == spec_emit_bullet_records(pool, ord, k as int, dir, sprites@, stream@),
        decreases n - k,
    {
        let slot = order[k];
        let ser = match bullet_serializable(sys.bullets.get(slot), &mapping, sprites) {
            Ok(s) => s,
            Err(e) => {
                return Err(e);
            },
        };
        let ghost pre_stream = stream@;
        put_bullet_ser(&mut stream, &ser);
        proof {
            assert((k + 1) * BULLET_SER_WIRE == k * BULLET_SER_WIRE + BULLET_SER_WIRE)
                by (nonlinear_arith);
            lemma_subrange_in_prefix(pre_stream, stream@, 0, BULLET_GLOBALS_WIRE as int);
            lemma_dec_bullet_globals_stable(pre_stream, stream@, 0);
            assert forall|j: int| 0 <= j < k implies dec_bullet_ser_at(
                stream@,
                BULLET_GLOBALS_WIRE + j * BULLET_SER_WIRE,
            ) == (#[trigger] spec_bullet_to_ser_v(pool[ord[j] as int], dir, sprites@))->Ok_0 by {
                assert((j + 1) * BULLET_SER_WIRE <= k * BULLET_SER_WIRE) by (nonlinear_arith)
                    requires j + 1 <= k, BULLET_SER_WIRE > 0;
                assert((j + 1) * BULLET_SER_WIRE == j * BULLET_SER_WIRE + BULLET_SER_WIRE)
                    by (nonlinear_arith);
                lemma_subrange_in_prefix(
                    pre_stream,
                    stream@,
                    BULLET_GLOBALS_WIRE + j * BULLET_SER_WIRE,
                    BULLET_GLOBALS_WIRE + j * BULLET_SER_WIRE + BULLET_SER_WIRE,
                );
                lemma_dec_bullet_ser_stable(
                    pre_stream,
                    stream@,
                    BULLET_GLOBALS_WIRE + j * BULLET_SER_WIRE,
                );
                assert(dec_bullet_ser_at(pre_stream, BULLET_GLOBALS_WIRE + j * BULLET_SER_WIRE)
                    == spec_bullet_to_ser_v(pool[ord[j] as int], dir, sprites@)->Ok_0);
            }
            assert(spec_emit_bullet_records(pool, ord, k as int, dir, sprites@, pre_stream)
                == spec_emit_bullet_records(pool, ord, k + 1, dir, sprites@, stream@));
        }
        if stream.len() > BULLET_SAVE_MAX_SIZE as usize {
            return Err(SaveError::SizeLimit(stream.len() as u64));
        }
        k = k + 1;
    }
    proof {
        assert(spec_emit_bullet_records(pool, ord, 0, dir, sprites@, acc0) == stream@);
        assert(spec_bullet_stream(sys, sprites@) == stream@);
    }
    let out = match seal_chunk(&stream, BULLET_SAVE_MAGIC, BULLET_SAVE_MAX_SIZE) {
        Ok(b) => b,
        Err(e) => {
            return Err(e);
        },
    };
    proof {
        if bullets_wf(sys) {
            let stream_s = stream@;
            let expected = spec_loaded_bullets(pool, ord);
            assert forall|sp_slots: Seq<usize>| #[trigger] maps_inverse(sprites@, sp_slots)
                implies spec_load_bullets(out@, sp_slots) == Ok::<_, LoadError>(
                (
                    expected,
                    if ord.len() == 0 {
                        None::<usize>
                    } else {
                        Some(0usize)
                    },
                    if ord.len() == 0 {
                        None::<usize>
                    } else {
                        Some((ord.len() - 1) as usize)
                    },
                ),
            ) by {
                let own = dense_view(n as nat);
                assert forall|j: int| 0 <= j < n implies spec_bullet_from_ser_v(
                    #[trigger] dec_bullet_ser_at(
                        stream_s,
                        BULLET_GLOBALS_WIRE + j * BULLET_SER_WIRE,
                    ),
                    own,
                    sp_slots,
                ) == Ok::<Bullet, LoadError>(expected[j]) by {
                    let b = pool[ord[j] as int];
                    let prev2: Option<usize> = if j == 0 {
                        None
                    } else {
                        Some((j - 1) as usize)
                    };
                    let next2: Option<usize> = if j + 1 >= n {
                        None
                    } else {
                        Some((j + 1) as usize)
                    };
                    if j > 0 {
                        crate::mapping::lemma_dir_view_resolves(ord, pool.len(), j - 1);
                    }
                    if j + 1 < n {
                        crate::mapping::lemma_dir_view_resolves(ord, pool.len(), j + 1);
                    }
                    assert(spec_id_seq(dir, b.entity.prev) == Ok::<u32, SaveError>(
                        if j == 0 {
                            0u32
                        } else {
                            j as u32
                        },
                    ));
                    assert(pool[ord[j] as int].next_of() == (if j + 1 < n {
                        Some(ord[j + 1])
                    } else {
                        None::<usize>
                    }));
                    assert(b.entity.next == pool[ord[j] as int].next_of());
                    assert(spec_id_seq(dir, b.entity.next) == Ok::<u32, SaveError>(
                        if j + 1 >= n {
                            0u32
                        } else {
                            (j + 2) as u32
                        },
                    ));
                    assert(spec_pointer_seq(own, spec_id_seq(dir, b.entity.prev)->Ok_0) == Ok::<
                        _,
                        LoadError,
                    >(prev2));
                    assert(spec_pointer_seq(own, spec_id_seq(dir, b.entity.next)->Ok_0) == Ok::<
                        _,
                        LoadError,
                    >(next2));
                    lemma_bullet_rt_v(b, dir, sprites@, own, sp_slots, prev2, next2);
                }
                lemma_decode_bullets_prefix(stream_s, 0, n as int, own, sp_slots, expected);
                assert(expected.skip(0) =~= expected);
                if n > 0 {
                    crate::mapping::lemma_dir_view_resolves(ord, pool.len(), 0);
                    crate::mapping::lemma_dir_view_resolves(ord, pool.len(), n as int - 1);
                    assert(sys.first_active == Some(ord[0]));
                    assert(spec_pointer_seq(own, g.first_bullet) == Ok::<_, LoadError>(
                        Some(0usize),
                    ));
                    assert(spec_pointer_seq(own, g.last_bullet) == Ok::<_, LoadError>(
                        Some((n - 1) as usize),
                    ));
                }
                assert(spec_load_bullets(out@, sp_slots) == Ok::<_, LoadError>(
                    (
                        expected,
                        if ord.len() == 0 {
                            None::<usize>
                        } else {
                            Some(0usize)
                        },
                        if ord.len() == 0 {
                            None::<usize>
                        } else {
                            Some((ord.len() - 1) as usize)
                        },
                    ),
                ));
            }
        }
    }
    Ok(out)
}

/// Loads the bullet chunk: opens and bounds-checks the envelope, reads the
/// globals record, pre-allocates exactly `count` slots so every id of this
/// chunk resolves before any record body is decoded, then decodes the
/// records in order and resolves the list head and tail.
pub fn load_bullets(data: &Vec<u8>, sprites: &LoadMapping) -> (r: Result<BulletSystem, LoadError>)
    ensures
        match r {
            Ok(sys) => spec_load_bullets(data@, sprites@) == Ok::<_, LoadError>(
                (sys.bullets@, sys.first_active, sys.last_active),
            ),
            Err(e) => spec_load_bullets(data@, sprites@) == Err::<
                (Seq<Bullet>, Option<usize>, Option<usize>),
                _,
            >(e),
        },
{
    let stream = match open_chunk(data, BULLET_SAVE_MAGIC, BULLET_SAVE_MAX_SIZE) {
        Ok(s) => s,
        Err(e) => {
            return Err(e);
        },
    };
    if stream.len() < BULLET_GLOBALS_WIRE {
        return Err(LoadError::Serialize);
    }
    let g = get_bullet_globals(&stream, 0);
    let count64 = g.bullet_count as u64;
    proof {
        assert(count64 * (BULLET_SER_WIRE as u64) == g.bullet_count * BULLET_SER_WIRE)
            by (nonlinear_arith)
            requires count64 == g.bullet_count, count64 <= 0xffff_ffffu64;
        assert(count64 * (BULLET_SER_WIRE as u64) <= 0xffff_ffffu64 * 101u64) by (nonlinear_arith)
            requires count64 <= 0xffff_ffffu64;
    }
    if BULLET_GLOBALS_WIRE as u64 + count64 * (BULLET_SER_WIRE as u64) > stream.len() as u64 {
        return Err(LoadError::Serialize);
    }
    let count = g.bullet_count as usize;
    let lm = LoadMapping::dense(count);
    let ghost own = dense_view(count as nat);
    let mut pool: RawVec<Bullet> = RawVec::with_capacity(count);
    let stream_len = stream.len();
    let mut pos: usize = BULLET_GLOBALS_WIRE;
    let mut k: usize = 0;
    while k < count
        invariant
            k <= count,
            pos == BULLET_GLOBALS_WIRE + k * BULLET_SER_WIRE,
            stream_len == stream@.len(),
            BULLET_GLOBALS_WIRE + count * BULLET_SER_WIRE <= stream@.len(),
            spec_load_bullets(data@, sprites@) == ({
                let bs = spec_decode_bullets(
                    stream@,
                    BULLET_GLOBALS_WIRE as int,
                    count as nat,
                    own,
                    sprites@,
                );
                if bs is Err {
                    Err::<(Seq<Bullet>, Option<usize>, Option<usize>), LoadError>(bs->Err_0)
                } else {
                    let first = spec_pointer_seq(own, g.first_bullet);
                    if first is Err {
                        Err::<(Seq<Bullet>, Option<usize>, Option<usize>), LoadError>(
                            first->Err_0,
                        )
                    } else {
                        let last = spec_pointer_seq(own, g.last_bullet);
                        if last is Err {
                            Err::<(Seq<Bullet>, Option<usize>, Option<usize>), LoadError>(
                                last->Err_0,
                            )
                        } else {
                            Ok::<_, LoadError>((bs->Ok_0, first->Ok_0, last->Ok_0))
                        }
                    }
                }
            }),
            lm@ == own,
            own == dense_view(count as nat),
            pool@.len() == k,
            pool.spec_capacity() == count,
            spec_decode_bullets(
                stream@,
                BULLET_GLOBALS_WIRE as int,
                count as nat,
                own,
                sprites@,
            ) == (match spec_decode_bullets(
                stream@,
                pos as int,
                (count - k) as nat,
                own,
                sprites@,
            ) {
                Ok(rest) => Ok::<Seq<Bullet>, LoadError>(pool@ + rest),
                Err(e) => Err::<Seq<Bullet>, LoadError>(e),
            }),
        decreases count - k,
    {
        proof {
            assert((k + 1) * BULLET_SER_WIRE == k * BULLET_SER_WIRE + BULLET_SER_WIRE)
                by (nonlinear_arith);
            assert((k + 1) * BULLET_SER_WIRE <= count * BULLET_SER_WIRE) by (nonlinear_arith)
                requires k + 1 <= count, BULLET_SER_WIRE > 0;
        }
        let ser = get_bullet_ser(&stream, pos);
        let b = match deserialize_bullet(&ser, &lm, sprites) {
            Ok(v) => v,
            Err(e) => {
                return Err(e);
            },
        };
        let ghost pre_pool = pool@;
        let _ = pool.push(b);
        proof {
            let rest_prev = spec_decode_bullets(
                stream@,
                pos as int,
                (count - k) as nat,
                own,
                sprites@,
            );
            let rest_next = spec_decode_bullets(
                stream@,
                pos + BULLET_SER_WIRE,
                (count - k - 1) as nat,
                own,
                sprites@,
            );
            if rest_next is Ok {
                assert(pre_pool + (seq![b] + rest_next->Ok_0) =~= pre_pool.push(b)
                    + rest_next->Ok_0);
            }
        }
        pos = pos + BULLET_SER_WIRE;
        k = k + 1;
    }
    proof {
        assert(pool@ + Seq::<Bullet>::empty() =~= pool@);
    }
    let first_active = match lm.pointer(g.first_bullet) {
        Ok(v) => v,
        Err(e) => {
            return Err(e);
        },
    };
    let last_active = match lm.pointer(g.last_bullet) {
        Ok(v) => v,
        Err(e) => {
            return Err(e);
        },
    };
    Ok(BulletSystem { bullets: pool, first_active, last_active })
}

impl BulletSystem {
    /// Tears down the whole live bullet state at session end: the pool is
    /// emptied and both list heads cleared.
    pub fn delete_all(&mut self)
        ensures
            final(self).bullets@ == Seq::<Bullet>::empty(),
            final(self).bullets.spec_capacity() == old(self).bullets.spec_capacity(),
            final(self).first_active is None,
            final(self).last_active is None,
    {
        self.bullets.reset();
        self.first_active = None;
        self.last_active = None;
    }
}

} // verus!
